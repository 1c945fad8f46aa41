use vstd::prelude::*;
use vstd::string::StringExecFns;
use vstd::string::StrSliceExecFns;
use unicode_segmentation::UnicodeSegmentation;

use crate::markup::Markup;
use crate::render::highlight_line;
use crate::render::spec_render;
use crate::render::split_tokens;
use crate::render::tab_fn;
use crate::render::tab_spaces;
use crate::render::TAB_SIZE;

verus! {

/// The grapheme-cluster segmentation of a string, as the Unicode
/// text-segmentation rules (UAX #29, extended clusters) define it.
/// It is a function of the character sequence alone.
pub uninterp spec fn graphemes_of(s: Seq<char>) -> Seq<Seq<char>>;

/// Relies on `UnicodeSegmentation::graphemes(true)` of the
/// `unicode_segmentation` crate: it yields the extended grapheme clusters
/// of the string, in order, and the clusters concatenate back to the
/// original string.
#[verifier::external_body]
fn segment(s: &str) -> (r: Vec<String>)
    ensures
        r.deep_view() == graphemes_of(s@),
        r.deep_view().flatten() == s@,
        s@.len() == 0 ==> r@.len() == 0,
{
    s.graphemes(true).map(|g| g.to_owned()).collect()
}

/// One line of a document, stored as its sequence of grapheme clusters,
/// with a cached cluster count.
pub struct Row {
    graphemes: Vec<String>,
    len: usize,
}

/// A row is viewed as its sequence of grapheme clusters, each a sequence
/// of chars.
impl View for Row {
    type V = Seq<Seq<char>>;

    closed spec fn view(&self) -> Seq<Seq<char>> {
        self.graphemes.deep_view()
    }
}

impl Row {
    /// The cached length never drifts from the stored clusters.
    pub closed spec fn wf(&self) -> bool {
        self.len == self.graphemes.len()
    }

    /// The row's text: its grapheme clusters concatenated.
    pub open spec fn text(&self) -> Seq<char> {
        self@.flatten()
    }

    pub fn from(slice: &str) -> (r: Self)
        ensures
            r@ == graphemes_of(slice@),
            r.text() == slice@,
            r.wf(),
    {
        let graphemes = segment(slice);
        let len = graphemes.len();
        Self { graphemes, len }
    }

    pub fn len(&self) -> (r: usize)
        requires
            self.wf(),
        ensures
            r == self@.len(),
    {
        self.len
    }

    pub fn update_len(&mut self)
        ensures
            final(self)@ == old(self)@,
            final(self).wf(),
    {
        self.len = self.graphemes.len();
    }

    /// Inserts `c` so that it becomes the cluster at `index`, shifting the
    /// later clusters right; an index at or past the end appends.
    pub fn insert(&mut self, c: char, index: usize)
        requires
            old(self).wf(),
        ensures
            final(self).wf(),
            index < old(self)@.len() ==> final(self)@ == old(self)@.insert(
                index as int,
                seq![c],
            ),
            index >= old(self)@.len() ==> final(self)@ == old(self)@.push(seq![c]),
    {
        let g = char_to_string(c);
        if index >= self.len {
            self.graphemes.push(g);
        } else {
            self.graphemes.insert(index, g);
        }
        self.len = self.graphemes.len();
        proof {
            assert(final(self)@ =~= if index < old(self)@.len() {
                old(self)@.insert(index as int, seq![c])
            } else {
                old(self)@.push(seq![c])
            });
        }
    }

    /// Removes the cluster at `index`; an index at or past the end is a no-op.
    pub fn delete(&mut self, index: usize)
        requires
            old(self).wf(),
        ensures
            final(self).wf(),
            index >= old(self)@.len() ==> *final(self) == *old(self),
            index < old(self)@.len() ==> final(self)@ == old(self)@.remove(index as int),
    {
        if index >= self.len {
            return;
        }
        self.graphemes.remove(index);
        self.len = self.graphemes.len();
        proof {
            assert(final(self)@ =~= old(self)@.remove(index as int));
        }
    }

    /// Truncates this row to its first `index` clusters and returns a new row
    /// holding the remainder; past the end the remainder is empty.
    pub fn split(&mut self, index: usize) -> (r: Self)
        requires
            old(self).wf(),
        ensures
            final(self).wf(),
            r.wf(),
            index <= old(self)@.len() ==> final(self)@ == old(self)@.take(index as int)
                && r@ == old(self)@.skip(index as int),
            index > old(self)@.len() ==> final(self)@ == old(self)@ && r@ == Seq::<
                Seq<char>,
            >::empty(),
    {
        let at = if index <= self.len {
            index
        } else {
            self.len
        };
        let tail = self.graphemes.split_off(at);
        self.len = self.graphemes.len();
        let r = Self { len: tail.len(), graphemes: tail };
        proof {
            assert(final(self)@ =~= if index <= old(self)@.len() {
                old(self)@.take(index as int)
            } else {
                old(self)@
            });
            assert(r@ =~= if index <= old(self)@.len() {
                old(self)@.skip(index as int)
            } else {
                Seq::<Seq<char>>::empty()
            });
        }
        r
    }

    /// Concatenates `other`'s content onto the end of this row.
    pub fn append(&mut self, other: &Self)
        requires
            old(self).wf(),
            other.wf(),
        ensures
            final(self).wf(),
            final(self)@ == old(self)@ + other@,
    {
        let n = other.graphemes.len();
        let mut j: usize = 0;
        proof {
            assert(self.graphemes@ =~= old(self).graphemes@ + other.graphemes@.take(0));
        }
        while j < n
            invariant
                n == other.graphemes@.len(),
                j <= n,
                self.graphemes@ == old(self).graphemes@ + other.graphemes@.take(j as int),
            decreases n - j,
        {
            let g = other.graphemes[j].clone();
            self.graphemes.push(g);
            proof {
                assert(self.graphemes@ =~= old(self).graphemes@ + other.graphemes@.take(
                    j + 1,
                ));
            }
            j += 1;
        }
        self.len = self.graphemes.len();
        proof {
            assert(other.graphemes@.take(n as int) =~= other.graphemes@);
            assert(final(self)@ =~= old(self)@ + other@);
        }
    }

    /// The row's text as a plain string: its clusters concatenated.
    pub fn contents(&self) -> (r: String)
        requires
            self.wf(),
        ensures
            r@ == self.text(),
    {
        let n = self.graphemes.len();
        let mut s = String::new();
        let mut i: usize = 0;
        proof {
            assert(self@.take(0).flatten() =~= Seq::<char>::empty());
        }
        while i < n
            invariant
                n == self@.len(),
                i <= n,
                self.wf(),
                s@ == self@.take(i as int).flatten(),
            decreases n - i,
        {
            s.append(self.graphemes[i].as_str());
            proof {
                assert(self@.take(i + 1) =~= self@.take(i as int).push(self@[i as int]));
                self@.take(i as int).lemma_flatten_push(self@[i as int]);
            }
            i += 1;
        }
        proof {
            assert(self@.take(n as int) =~= self@);
        }
        s
    }

    /// Renders the visible slice `[start, end)` of the row for display:
    /// tabs expanded to spaces, the result split into space-separated
    /// tokens, and every token that exactly matches a keyword wrapped in
    /// the highlight style.
    pub fn render(&self, start: usize, end: usize, markup: &Markup) -> (r: String)
        requires
            self.wf(),
        ensures
            r@ == spec_render(self@, start as int, end as int, markup@),
    {
        let s0 = if start <= end {
            start
        } else {
            end
        };
        let e = if end <= self.len {
            end
        } else {
            self.len
        };
        let s = if s0 <= e {
            s0
        } else {
            e
        };
        let ghost visible = self@.subrange(s as int, e as int);
        let mut expanded = String::new();
        proof {
            assert(visible.take(0) =~= Seq::<Seq<char>>::empty());
            assert(Seq::<Seq<char>>::empty().flat_map(tab_fn()) =~= Seq::<char>::empty());
        }
        let mut i: usize = s;
        while i < e
            invariant
                s <= i <= e,
                e <= self@.len(),
                self.wf(),
                visible == self@.subrange(s as int, e as int),
                expanded@ == visible.take(i - s).flat_map(tab_fn()),
            decreases e - i,
        {
            let g = &self.graphemes[i];
            let gs = g.as_str();
            let ghost before = expanded@;
            if gs.unicode_len() == 1 && gs.get_char(0) == '\t' {
                proof {
                    assert(g@ =~= seq!['\t']);
                }
                let mut k: usize = 0;
                proof {
                    assert(tab_spaces().take(0) =~= Seq::<char>::empty());
                    assert(expanded@ =~= before + tab_spaces().take(0));
                }
                while k < TAB_SIZE
                    invariant
                        k <= TAB_SIZE,
                        expanded@ == before + tab_spaces().take(k as int),
                    decreases TAB_SIZE - k,
                {
                    expanded.append(" ");
                    proof {
                        reveal_strlit(" ");
                        assert(" "@ =~= seq![' ']);
                        assert(tab_spaces().take(k + 1) =~= tab_spaces().take(k as int).push(
                            ' ',
                        ));
                        assert(expanded@ =~= before + tab_spaces().take(k + 1));
                    }
                    k += 1;
                }
                proof {
                    assert(tab_spaces().take(TAB_SIZE as int) =~= tab_spaces());
                }
            } else {
                proof {
                    assert(g@ != seq!['\t']);
                }
                expanded.append(gs);
            }
            proof {
                visible.lemma_flat_map_take_append(tab_fn(), i - s);
                assert(visible[i - s] == self@[i as int]);
                assert(expanded@ =~= visible.take(i - s + 1).flat_map(tab_fn()));
            }
            i += 1;
        }
        proof {
            assert(visible.take(e - s) =~= visible);
        }
        let tokens = split_tokens(&expanded);
        let r = highlight_line(&tokens, markup);
        r
    }

    /// The row's text in its on-disk form.
    pub fn as_bytes(&self) -> (r: Vec<u8>)
        requires
            self.wf(),
        ensures
            r@ == utf8_of(self.text()),
    {
        let s = self.contents();
        str_bytes(s.as_str())
    }
}

/// The empty row.
impl Default for Row {
    fn default() -> (r: Self)
        ensures
            r@ == Seq::<Seq<char>>::empty(),
            r.wf(),
    {
        Self { graphemes: Vec::new(), len: 0 }
    }
}

/// A row is viewed one level deeper the same way.
impl DeepView for Row {
    type V = Seq<Seq<char>>;

    open spec fn deep_view(&self) -> Seq<Seq<char>> {
        self@
    }
}

/// A split at `i` followed by an append of the remainder reconstructs the
/// original row content exactly: the two parts of a row split at any index
/// within it concatenate back to the whole.
pub proof fn lemma_split_append_round_trip(r: Seq<Seq<char>>, i: int)
    requires
        0 <= i <= r.len(),
    ensures
        r.take(i) + r.skip(i) == r,
{
    assert(r.take(i) + r.skip(i) =~= r);
}

/// Relies on `String::from(char)`: a string holding exactly the one
/// character.
#[verifier::external_body]
pub(crate) fn char_to_string(c: char) -> (r: String)
    ensures
        r@ == seq![c],
{
    String::from(c)
}

/// The UTF-8 encoding of a character sequence, a function of the characters
/// alone.
pub uninterp spec fn utf8_of(s: Seq<char>) -> Seq<u8>;

/// Relies on `str::as_bytes`: the UTF-8 encoding of the string's characters.
#[verifier::external_body]
fn str_bytes(s: &str) -> (r: Vec<u8>)
    ensures
        r@ == utf8_of(s@),
        r@.len() == 0 <==> s@.len() == 0,
{
    s.as_bytes().to_vec()
}

} // verus!
