use vstd::prelude::*;
use vstd::string::StringExecFns;

use crate::editor::Position;
use crate::markup::Markup;
use crate::row::graphemes_of;
use crate::row::Row;
use crate::text::join_rows;
use crate::text::lines_of;
use crate::text::split_text_lines;

verus! {

/// Clamps `i` to at most `n`.
pub open spec fn clamp(i: int, n: int) -> int {
    if i <= n {
        i
    } else {
        n
    }
}

/// What inserting character `c` at cluster index `x` does to a row's
/// clusters: within the row it becomes the cluster at `x`; at or past the
/// end it is appended.
pub open spec fn row_insert(r: Seq<Seq<char>>, c: char, x: int) -> Seq<Seq<char>> {
    if x < r.len() {
        r.insert(x, seq![c])
    } else {
        r.push(seq![c])
    }
}

/// What deleting the cluster at `x` does to a row's clusters: at or past
/// the end nothing.
pub open spec fn row_delete(r: Seq<Seq<char>>, x: int) -> Seq<Seq<char>> {
    if x < r.len() {
        r.remove(x)
    } else {
        r
    }
}

/// What splitting row `y` at column `x` does to the document's rows: row
/// `y` keeps its first `x` clusters and the remainder becomes a new row
/// right after it.
pub open spec fn rows_split(rows: Seq<Seq<Seq<char>>>, x: int, y: int) -> Seq<Seq<Seq<char>>> {
    let r = rows[y];
    let k = clamp(x, r.len() as int);
    rows.update(y, r.take(k)).insert(y + 1, r.skip(k))
}

/// What inserting `c` at position `(x, y)` does to the document's rows:
/// a newline splits row `y` (or appends an empty row one past the end),
/// any other character is inserted into row `y` (or opens a new last row
/// one past the end); a row index beyond one past the end changes nothing.
pub open spec fn spec_insert(rows: Seq<Seq<Seq<char>>>, c: char, x: int, y: int) -> Seq<
    Seq<Seq<char>>,
> {
    if y > rows.len() {
        rows
    } else if c == '\n' {
        if y == rows.len() {
            rows.push(Seq::<Seq<char>>::empty())
        } else {
            rows_split(rows, x, y)
        }
    } else {
        if y == rows.len() {
            rows.push(seq![seq![c]])
        } else {
            rows.update(y, row_insert(rows[y], c, x))
        }
    }
}

/// What deleting at position `(x, y)` does to the document's rows: a row
/// index past the end changes nothing, a column at the end of a row that
/// is not the last merges the next row into it, and anything else deletes
/// the cluster at the column.
pub open spec fn spec_delete(rows: Seq<Seq<Seq<char>>>, x: int, y: int) -> Seq<Seq<Seq<char>>> {
    if y >= rows.len() {
        rows
    } else if x == rows[y].len() && y + 1 < rows.len() {
        rows.update(y, rows[y] + rows[y + 1]).remove(y + 1)
    } else {
        rows.update(y, row_delete(rows[y], x))
    }
}

/// The ordered rows of the open file, its optional file association and
/// its keyword set.
pub struct Document {
    rows: Vec<Row>,
    pub file_name: Option<String>,
    pub markup: Markup,
}

/// A document is viewed as the sequence of its rows' views.
impl View for Document {
    type V = Seq<Seq<Seq<char>>>;

    closed spec fn view(&self) -> Seq<Seq<Seq<char>>> {
        self.rows.deep_view()
    }
}

impl Document {
    /// The document's file association, as contracts speak of it.
    pub closed spec fn spec_file_name(&self) -> Option<String> {
        self.file_name
    }

    /// The document's keyword set, as contracts speak of it.
    pub closed spec fn spec_markup(&self) -> Markup {
        self.markup
    }

    /// Every stored row's cached length is in step with its clusters.
    pub closed spec fn wf(&self) -> bool {
        forall|i: int| 0 <= i < self.rows@.len() ==> (#[trigger] self.rows@[i]).wf()
    }

    pub fn len(&self) -> (r: usize)
        ensures
            r == self@.len(),
    {
        self.rows.len()
    }

    /// Associates the document with a file name, leaving its rows alone.
    pub fn set_file_name(&mut self, name: Option<String>)
        ensures
            final(self)@ == old(self)@,
            final(self).spec_file_name() == name,
            final(self).spec_markup() == old(self).spec_markup(),
            old(self).wf() ==> final(self).wf(),
    {
        self.file_name = name;
    }

    pub fn file_name(&self) -> (r: &Option<String>)
        ensures
            *r == self.spec_file_name(),
    {
        &self.file_name
    }

    pub fn markup(&self) -> (r: &Markup)
        ensures
            *r == self.spec_markup(),
    {
        &self.markup
    }

    pub fn is_empty(&self) -> (r: bool)
        ensures
            r == (self@.len() == 0),
    {
        self.rows.len() == 0
    }

    pub fn row(&self, index: usize) -> (r: Option<&Row>)
        requires
            self.wf(),
        ensures
            index < self@.len() ==> (r matches Some(row) && row@ == self@[index as int]
                && row.wf()),
            index >= self@.len() ==> r is None,
    {
        self.rows.get(index)
    }

    /// Inserts `c` at `pos`. A newline splits the addressed row (or appends
    /// an empty row one past the end); any other character is inserted into
    /// the addressed row (or opens a new last row one past the end). A row
    /// index beyond one past the end is a no-op.
    pub fn insert(&mut self, c: char, pos: &Position)
        requires
            old(self).wf(),
        ensures
            final(self).wf(),
            final(self).spec_file_name() == old(self).spec_file_name(),
            final(self).spec_markup() == old(self).spec_markup(),
            final(self)@ == spec_insert(old(self)@, c, pos.x as int, pos.y as int),
            pos.y > old(self)@.len() ==> final(self)@ == old(self)@,
            c == '\n' && pos.y == old(self)@.len() ==> final(self)@ == old(self)@.push(
                Seq::<Seq<char>>::empty(),
            ),
            c == '\n' && pos.y < old(self)@.len() ==> final(self)@ == rows_split(
                old(self)@,
                pos.x as int,
                pos.y as int,
            ),
            c != '\n' && pos.y == old(self)@.len() ==> final(self)@ == old(self)@.push(
                seq![seq![c]],
            ),
            c != '\n' && pos.y < old(self)@.len() ==> final(self)@ == old(self)@.update(
                pos.y as int,
                row_insert(old(self)@[pos.y as int], c, pos.x as int),
            ),
    {
        if c == '\n' {
            if pos.y > self.rows.len() {
                return;
            }
            if pos.y == self.rows.len() {
                self.rows.push(Row::default());
                proof {
                    assert(final(self)@ =~= old(self)@.push(Seq::<Seq<char>>::empty()));
                }
                return;
            }
            let mut row = self.rows.remove(pos.y);
            let new_row = row.split(pos.x);
            self.rows.insert(pos.y, row);
            self.rows.insert(pos.y + 1, new_row);
            proof {
                assert(final(self)@ =~~= rows_split(old(self)@, pos.x as int, pos.y as int));
            }
            return;
        }
        if pos.y == self.rows.len() {
            let mut row = Row::default();
            row.insert(c, 0);
            self.rows.push(row);
            proof {
                assert(final(self)@ =~= old(self)@.push(seq![seq![c]]));
            }
        } else if pos.y < self.rows.len() {
            let mut row = self.rows.remove(pos.y);
            row.insert(c, pos.x);
            self.rows.insert(pos.y, row);
            proof {
                assert(final(self)@ =~= old(self)@.update(
                    pos.y as int,
                    row_insert(old(self)@[pos.y as int], c, pos.x as int),
                ));
            }
        }
    }

    /// Deletes at `pos`. A row index past the end is a no-op; a column at
    /// the end of a row that is not the last merges the next row into it;
    /// anything else deletes the cluster at the column.
    pub fn delete(&mut self, pos: &Position)
        requires
            old(self).wf(),
        ensures
            final(self).wf(),
            final(self).spec_file_name() == old(self).spec_file_name(),
            final(self).spec_markup() == old(self).spec_markup(),
            final(self)@ == spec_delete(old(self)@, pos.x as int, pos.y as int),
            pos.y >= old(self)@.len() ==> final(self)@ == old(self)@,
            pos.y < old(self)@.len() && pos.x == old(self)@[pos.y as int].len() && pos.y + 1 < old(
                self,
            )@.len() ==> final(self)@ == old(self)@.update(
                pos.y as int,
                old(self)@[pos.y as int] + old(self)@[pos.y as int + 1],
            ).remove(pos.y as int + 1) && final(self)@.len() == old(self)@.len() - 1,
            pos.y < old(self)@.len() && !(pos.x == old(self)@[pos.y as int].len() && pos.y + 1
                < old(self)@.len()) ==> final(self)@ == old(self)@.update(
                pos.y as int,
                row_delete(old(self)@[pos.y as int], pos.x as int),
            ),
    {
        if pos.y >= self.rows.len() {
            return;
        }
        let at_row_end = pos.x == self.rows[pos.y].len();
        if at_row_end && pos.y < self.rows.len() - 1 {
            let next_row = self.rows.remove(pos.y + 1);
            let mut row = self.rows.remove(pos.y);
            row.append(&next_row);
            self.rows.insert(pos.y, row);
            proof {
                assert(final(self)@ =~= old(self)@.update(
                    pos.y as int,
                    old(self)@[pos.y as int] + old(self)@[pos.y as int + 1],
                ).remove(pos.y as int + 1));
            }
        } else {
            let mut row = self.rows.remove(pos.y);
            row.delete(pos.x);
            self.rows.insert(pos.y, row);
            proof {
                assert(final(self)@ =~= old(self)@.update(
                    pos.y as int,
                    row_delete(old(self)@[pos.y as int], pos.x as int),
                ));
            }
        }
    }
}

/// The rows a file's content opens as: one row of grapheme clusters per
/// newline-separated line.
pub open spec fn rows_of_text(s: Seq<char>) -> Seq<Seq<Seq<char>>> {
    lines_of(s).map_values(|l: Seq<char>| graphemes_of(l))
}

impl Document {
    /// Builds a document from file content, one row per line, with the
    /// given file association and keyword set.
    pub fn from_text(content: &str, file_name: Option<String>, markup: Markup) -> (r: Self)
        ensures
            r.wf(),
            r@ == rows_of_text(content@),
            r.spec_file_name() == file_name,
            r.spec_markup() == markup,
    {
        let lines = split_text_lines(content);
        let n = lines.len();
        let mut rows: Vec<Row> = Vec::new();
        let mut i: usize = 0;
        while i < n
            invariant
                n == lines@.len(),
                i <= n,
                lines.deep_view() == lines_of(content@),
                rows@.len() == i,
                forall|k: int| 0 <= k < i ==> (#[trigger] rows.deep_view()[k]) == graphemes_of(
                    lines_of(content@)[k],
                ),
                forall|k: int| 0 <= k < i ==> (#[trigger] rows@[k]).wf(),
            decreases n - i,
        {
            let row = Row::from(lines[i].as_str());
            let ghost prev = rows;
            rows.push(row);
            proof {
                assert(rows.deep_view() =~= prev.deep_view().push(row@));
                assert(lines.deep_view()[i as int] == lines_of(content@)[i as int]);
            }
            i += 1;
        }
        let r = Self { rows, file_name, markup };
        proof {
            assert(r@ =~= rows_of_text(content@));
        }
        r
    }

    /// The document's on-disk form: each row's text, one newline between
    /// rows, no newline after the last row.
    pub fn to_text(&self) -> (r: String)
        requires
            self.wf(),
        ensures
            r@ == join_rows(self@),
    {
        let n = self.rows.len();
        let mut s = String::new();
        let mut i: usize = 0;
        proof {
            assert(join_rows(self@.take(0)) =~= Seq::<char>::empty());
        }
        while i < n
            invariant
                n == self@.len(),
                i <= n,
                self.wf(),
                s@ == join_rows(self@.take(i as int)),
            decreases n - i,
        {
            if i > 0 {
                s.append("\n");
            }
            let t = self.rows[i].contents();
            s.append(t.as_str());
            proof {
                reveal_strlit("\n");
                assert("\n"@ =~= seq!['\n']);
                assert(self@.take(i + 1).drop_last() =~= self@.take(i as int));
                assert(self@.take(i + 1).last() == self@[i as int]);
                if i == 0 {
                    assert(s@ =~= join_rows(self@.take(1)));
                } else {
                    assert(s@ =~= join_rows(self@.take(i + 1)));
                }
            }
            i += 1;
        }
        proof {
            assert(self@.take(n as int) =~= self@);
        }
        s
    }
}

/// The empty, untitled document.
impl Default for Document {
    fn default() -> (r: Self)
        ensures
            r@ == Seq::<Seq<Seq<char>>>::empty(),
            r.wf(),
            r.spec_file_name() is None,
            r.spec_markup()@ == Seq::<Seq<char>>::empty(),
    {
        Self { rows: Vec::new(), file_name: None, markup: Markup::default() }
    }
}

} // verus!
