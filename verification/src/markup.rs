use vstd::prelude::*;
use vstd::string::StrSliceExecFns;

use crate::text::lines_of;
use crate::text::split_text_lines;

verus! {

/// The set of exact-match keywords that the renderer highlights.
pub struct Markup {
    pub keywords: Vec<String>,
}

/// A markup is viewed as the sequence of its keywords' character sequences.
impl View for Markup {
    type V = Seq<Seq<char>>;

    open spec fn view(&self) -> Seq<Seq<char>> {
        self.keywords.deep_view()
    }
}

impl Markup {
    /// Whether `w` is one of the keywords.
    pub open spec fn spec_has_keyword(&self, w: Seq<char>) -> bool {
        exists|i: int| 0 <= i < self@.len() && self@[i] == w
    }

    pub fn has_keyword(&self, w: &String) -> (r: bool)
        ensures
            r == self.spec_has_keyword(w@),
    {
        let n = self.keywords.len();
        let mut i: usize = 0;
        while i < n
            invariant
                n == self@.len(),
                i <= n,
                forall|k: int| 0 <= k < i ==> self@[k] != w@,
            decreases n - i,
        {
            if self.keywords[i].eq(w) {
                proof {
                    assert(self@[i as int] == w@);
                }
                return true;
            }
            i += 1;
        }
        false
    }
}

/// Whether a character has the Unicode `White_Space` property; a function
/// of the character alone.
pub uninterp spec fn is_unicode_whitespace(c: char) -> bool;

/// Relies on `char::is_whitespace`: whether the character has the Unicode
/// `White_Space` property.
#[verifier::external_body]
fn char_is_whitespace(c: char) -> (r: bool)
    ensures
        r == is_unicode_whitespace(c),
{
    c.is_whitespace()
}

/// Whether some character of the line is not whitespace.
pub open spec fn has_content(l: Seq<char>) -> bool {
    exists|i: int| 0 <= i < l.len() && !is_unicode_whitespace(l[i])
}

/// The line test, as one value, so that every statement about keyword
/// loading speaks of the same predicate.
pub open spec fn content_fn() -> spec_fn(Seq<char>) -> bool {
    |l: Seq<char>| has_content(l)
}

/// The keywords a keyword file's content holds: its lines, the blank and
/// whitespace-only ones skipped.
pub open spec fn keyword_lines(s: Seq<char>) -> Seq<Seq<char>> {
    lines_of(s).filter(content_fn())
}

/// Whether the line holds any non-whitespace character.
fn line_has_content(l: &String) -> (r: bool)
    ensures
        r == has_content(l@),
{
    let ls = l.as_str();
    let n = ls.unicode_len();
    let mut i: usize = 0;
    while i < n
        invariant
            n == l@.len(),
            i <= n,
            ls@ == l@,
            forall|k: int| 0 <= k < i ==> is_unicode_whitespace(#[trigger] l@[k]),
        decreases n - i,
    {
        let c = ls.get_char(i);
        if !char_is_whitespace(c) {
            return true;
        }
        i += 1;
    }
    false
}

impl Markup {
    /// Parses a keyword file's content: one keyword per line, blank and
    /// whitespace-only lines skipped.
    pub fn from_text(content: &str) -> (r: Self)
        ensures
            r@ == keyword_lines(content@),
    {
        let lines = split_text_lines(content);
        let n = lines.len();
        let mut keywords: Vec<String> = Vec::new();
        proof {
            assert(lines.deep_view().take(0) =~= Seq::<Seq<char>>::empty());
            assert(keywords.deep_view() =~= lines.deep_view().take(0).filter(content_fn()));
        }
        let mut i: usize = 0;
        while i < n
            invariant
                n == lines@.len(),
                i <= n,
                lines.deep_view() == lines_of(content@),
                keywords.deep_view() == lines.deep_view().take(i as int).filter(content_fn()),
            decreases n - i,
        {
            proof {
                assert(lines.deep_view().take(i + 1).drop_last() =~= lines.deep_view().take(
                    i as int,
                ));
                assert(lines.deep_view().take(i + 1).last() == lines.deep_view()[i as int]);
            }
            if line_has_content(&lines[i]) {
                let kw = lines[i].clone();
                let ghost prev = keywords;
                keywords.push(kw);
                proof {
                    assert(keywords.deep_view() =~= prev.deep_view().push(
                        lines.deep_view()[i as int],
                    ));
                }
            }
            proof {
                reveal_with_fuel(Seq::<_>::filter, 2);
                assert(keywords.deep_view() =~= lines.deep_view().take(i + 1).filter(
                    content_fn(),
                ));
            }
            i += 1;
        }
        proof {
            assert(lines.deep_view().take(n as int) =~= lines.deep_view());
        }
        Self { keywords }
    }
}

/// The empty keyword set.
impl Default for Markup {
    fn default() -> (r: Self)
        ensures
            r@ == Seq::<Seq<char>>::empty(),
    {
        Self { keywords: Vec::new() }
    }
}

} // verus!
