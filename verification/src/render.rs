use vstd::prelude::*;
use vstd::string::StringExecFns;
use vstd::string::StrSliceExecFns;

use crate::markup::Markup;

verus! {

/// How many space cells a tab character occupies when rendered.
pub const TAB_SIZE: usize = 1;

/// The space run a tab expands to.
pub open spec fn tab_spaces() -> Seq<char> {
    Seq::new(TAB_SIZE as nat, |i: int| ' ')
}

/// What one grapheme cluster contributes to the rendered text: a tab
/// becomes a run of spaces, anything else stands as it is.
pub open spec fn tab_cell(g: Seq<char>) -> Seq<char> {
    if g == seq!['\t'] {
        tab_spaces()
    } else {
        g
    }
}

/// The cluster-to-cells function, as one value, so that every statement
/// about tab expansion speaks of the same function.
pub open spec fn tab_fn() -> spec_fn(Seq<char>) -> Seq<char> {
    |g: Seq<char>| tab_cell(g)
}

/// A sequence of clusters rendered to character cells: each cluster
/// expanded and the results concatenated.
pub open spec fn expand_tabs(clusters: Seq<Seq<char>>) -> Seq<char> {
    clusters.flat_map(tab_fn())
}

/// The text split at every single space: the empty text is one empty
/// token, a trailing space opens a new empty token, and any other
/// character extends the last token.
pub open spec fn split_spaces(s: Seq<char>) -> Seq<Seq<char>>
    decreases s.len(),
{
    if s.len() == 0 {
        seq![Seq::<char>::empty()]
    } else {
        let prev = split_spaces(s.drop_last());
        if s.last() == ' ' {
            prev.push(Seq::<char>::empty())
        } else {
            prev.update(prev.len() - 1, prev.last().push(s.last()))
        }
    }
}

/// The escape code that starts the highlight style.
pub open spec fn spec_blue() -> Seq<char> {
    "\u{1b}[38;5;4m"@
}

/// The escape code that returns to the default style.
pub open spec fn spec_reset() -> Seq<char> {
    "\u{1b}[39m"@
}

/// One token styled against the keyword set: a keyword is wrapped in the
/// highlight style, any other token stands bare.
pub open spec fn spec_styled(t: Seq<char>, kws: Seq<Seq<char>>) -> Seq<char> {
    if exists|i: int| 0 <= i < kws.len() && kws[i] == t {
        spec_blue() + t + spec_reset()
    } else {
        t
    }
}

/// A whole line of tokens styled against a keyword set and rejoined with
/// one space between tokens, none after the last.
pub open spec fn spec_line(tokens: Seq<Seq<char>>, kws: Seq<Seq<char>>) -> Seq<char>
    decreases tokens.len(),
{
    if tokens.len() == 0 {
        Seq::<char>::empty()
    } else if tokens.len() == 1 {
        spec_styled(tokens[0], kws)
    } else {
        spec_line(tokens.drop_last(), kws) + seq![' '] + spec_styled(tokens.last(), kws)
    }
}

/// A row slice rendered for display: the visible clusters (the half-open
/// range `[start, end)`, clamped to the row, with `start` at most `end`)
/// are expanded to cells, split into space-separated tokens, and styled
/// against the keyword set.
pub open spec fn spec_render(clusters: Seq<Seq<char>>, start: int, end: int, kws: Seq<Seq<char>>) -> Seq<
    char,
> {
    let s0 = if start <= end {
        start
    } else {
        end
    };
    let e = if end <= clusters.len() {
        end
    } else {
        clusters.len() as int
    };
    let s = if s0 <= e {
        s0
    } else {
        e
    };
    spec_line(split_spaces(expand_tabs(clusters.subrange(s, e))), kws)
}

/// Relies on `termion::color::Blue::fg_str`: the constant ANSI escape
/// sequence selecting the blue foreground color.
#[verifier::external_body]
fn blue_fg() -> (r: String)
    ensures
        r@ == spec_blue(),
{
    termion::color::Blue.fg_str().to_string()
}

/// Relies on `termion::color::Reset::fg_str`: the constant ANSI escape
/// sequence resetting the foreground color.
#[verifier::external_body]
fn reset_fg() -> (r: String)
    ensures
        r@ == spec_reset(),
{
    termion::color::Reset.fg_str().to_string()
}

/// Splits a rendered line at every single space.
pub fn split_tokens(s: &String) -> (r: Vec<String>)
    ensures
        r.deep_view() == split_spaces(s@),
{
    let st = s.as_str();
    let n = st.unicode_len();
    let mut tokens: Vec<String> = Vec::new();
    tokens.push(String::new());
    proof {
        assert(tokens.deep_view() =~~= split_spaces(s@.take(0)));
    }
    let mut i: usize = 0;
    while i < n
        invariant
            n == s@.len(),
            i <= n,
            st@ == s@,
            tokens@.len() >= 1,
            tokens.deep_view() == split_spaces(s@.take(i as int)),
        decreases n - i,
    {
        let c = st.get_char(i);
        if c == ' ' {
            tokens.push(String::new());
        } else {
            let mut last = match tokens.pop() {
                Some(t) => t,
                None => String::new(),
            };
            let g = crate::row::char_to_string(c);
            last.append(g.as_str());
            tokens.push(last);
        }
        proof {
            assert(s@.take(i + 1).drop_last() =~= s@.take(i as int));
            assert(tokens.deep_view() =~~= split_spaces(s@.take(i + 1)));
        }
        i += 1;
    }
    proof {
        assert(s@.take(n as int) =~= s@);
    }
    tokens
}

/// Styles each token against the keyword set and rejoins them with one
/// space between tokens, none after the last.
pub fn highlight_line(tokens: &Vec<String>, markup: &Markup) -> (r: String)
    ensures
        r@ == spec_line(tokens.deep_view(), markup@),
{
    let n = tokens.len();
    let mut result = String::new();
    proof {
        assert(tokens.deep_view().take(0) =~= Seq::<Seq<char>>::empty());
    }
    let mut j: usize = 0;
    while j < n
        invariant
            n == tokens@.len(),
            j <= n,
            result@ == spec_line(tokens.deep_view().take(j as int), markup@),
        decreases n - j,
    {
        if j > 0 {
            result.append(" ");
        }
        let t = &tokens[j];
        if markup.has_keyword(t) {
            let b = blue_fg();
            result.append(b.as_str());
            result.append(t.as_str());
            let e = reset_fg();
            result.append(e.as_str());
        } else {
            result.append(t.as_str());
        }
        proof {
            reveal_strlit(" ");
            assert(" "@ =~= seq![' ']);
            assert(tokens.deep_view().take(j + 1).drop_last() =~= tokens.deep_view().take(
                j as int,
            ));
            assert(tokens.deep_view().take(j + 1).last() == tokens.deep_view()[j as int]);
            if j == 0 {
                assert(result@ =~= spec_line(tokens.deep_view().take(1), markup@));
            } else {
                assert(result@ =~= spec_line(tokens.deep_view().take(j + 1), markup@));
            }
        }
        j += 1;
    }
    proof {
        assert(tokens.deep_view().take(n as int) =~= tokens.deep_view());
    }
    result
}

} // verus!
