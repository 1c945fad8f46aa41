use vstd::prelude::*;
use vstd::string::StringExecFns;
use vstd::string::StrSliceExecFns;

use crate::document::clamp;
use crate::document::spec_delete;
use crate::document::spec_insert;
use crate::document::Document;
use crate::render::spec_render;
use crate::text::dec_of;
use crate::text::usize_to_string;

verus! {

/// A logical position in the document: `x` is a grapheme column within a
/// row, `y` a row index.
#[derive(Clone, Copy)]
pub struct Position {
    pub x: usize,
    pub y: usize,
}

/// The top-left corner of the document.
impl Default for Position {
    fn default() -> (r: Self)
        ensures
            r.x == 0,
            r.y == 0,
    {
        Self { x: 0, y: 0 }
    }
}

/// The viewport extent, in character cells.
#[derive(Clone, Copy)]
pub struct Size {
    pub width: u16,
    pub height: u16,
}

/// An input event, as the editing core reads it.
#[derive(Clone, Copy)]
pub enum Key {
    Char(char),
    Ctrl(char),
    Backspace,
    Left,
    Right,
    Up,
    Down,
    Other,
}

/// What the session loop is asked to do after a keystroke is applied.
pub enum Action {
    Continue,
    Save,
}

/// The line of text shown under the viewport.
pub struct StatusMessage {
    text: String,
}

impl StatusMessage {
    /// The message's characters.
    pub closed spec fn spec_text(&self) -> Seq<char> {
        self.text@
    }

    pub fn from(str: String) -> (r: Self)
        ensures
            r.spec_text() == str@,
    {
        Self { text: str }
    }

    pub fn text(&self) -> (r: &String)
        ensures
            r@ == self.spec_text(),
    {
        &self.text
    }
}

/// Where a directional key sends the cursor, before the final column
/// clamp. `Left` out of column zero may overshoot the previous row's end
/// by one; the clamp reconciles it.
pub open spec fn spec_target(rows: Seq<Seq<Seq<char>>>, x: int, y: int, key: Key) -> (int, int) {
    match key {
        Key::Right => if y < rows.len() {
            if x < rows[y].len() {
                (x + 1, y)
            } else if y + 1 < rows.len() {
                (0, y + 1)
            } else {
                (x, y)
            }
        } else {
            (0, y)
        },
        Key::Left => if x == 0 && y > 0 {
            (rows[y - 1].len() as int + 1, y - 1)
        } else if x > 0 {
            (x - 1, y)
        } else {
            (0, y)
        },
        Key::Up => if y > 0 {
            (x, y - 1)
        } else {
            (x, y)
        },
        Key::Down => if y + 1 < rows.len() {
            (x, y + 1)
        } else {
            (x, y)
        },
        _ => (x, y),
    }
}

/// The cursor position a directional key leaves behind: the target, with
/// the column clamped to the length of the row it lands on.
pub open spec fn spec_moved(rows: Seq<Seq<Seq<char>>>, x: int, y: int, key: Key) -> (int, int) {
    let t = spec_target(rows, x, y, key);
    if t.1 < rows.len() {
        (clamp(t.0, rows[t.1].len() as int), t.1)
    } else {
        t
    }
}

/// The scroll offset that keeps coordinate `v` inside the half-open
/// window `[off, off + extent)`, moved by the minimal amount.
pub open spec fn scrolled(off: int, v: int, extent: int) -> int {
    if v < off {
        v
    } else if v >= off + extent {
        v + 1 - extent
    } else {
        off
    }
}

/// The in-memory editing session: document, logical cursor, scroll offset
/// and viewport extent.
pub struct Editor {
    should_quit: bool,
    curr_pos: Position,
    document: Document,
    offset: Position,
    size: Size,
    status_message: StatusMessage,
}

impl Editor {
    /// The open document, as contracts speak of it.
    pub closed spec fn spec_doc(&self) -> Document {
        self.document
    }

    /// The logical cursor position.
    pub closed spec fn spec_pos(&self) -> Position {
        self.curr_pos
    }

    /// The scroll offset: first visible column and first visible row.
    pub closed spec fn spec_offset(&self) -> Position {
        self.offset
    }

    /// The viewport extent.
    pub closed spec fn spec_size(&self) -> Size {
        self.size
    }

    /// Whether the session has been asked to end.
    pub closed spec fn spec_should_quit(&self) -> bool {
        self.should_quit
    }

    /// The current status message.
    pub closed spec fn spec_status(&self) -> Seq<char> {
        self.status_message.spec_text()
    }

    /// A session at rest: the stored rows are well formed, the viewport
    /// has room, the cursor addresses a row of the document (or its very
    /// start while it is empty) at a column no further than that row's
    /// end, and the cursor lies inside the visible window.
    pub open spec fn wf(&self) -> bool {
        &&& self.spec_doc().wf()
        &&& self.spec_size().width > 0
        &&& self.spec_size().height > 0
        &&& if self.spec_doc()@.len() == 0 {
            self.spec_pos().x == 0 && self.spec_pos().y == 0
        } else {
            self.spec_pos().y < self.spec_doc()@.len() && self.spec_pos().x <= self.spec_doc()@[
                self.spec_pos().y as int
            ].len()
        }
        &&& self.spec_offset().y <= self.spec_pos().y < self.spec_offset().y
            + self.spec_size().height
        &&& self.spec_offset().x <= self.spec_pos().x < self.spec_offset().x
            + self.spec_size().width
    }

    /// Starts a session over `document` in a viewport of `size` cells.
    pub fn new(document: Document, size: Size, welcome: String) -> (r: Self)
        requires
            document.wf(),
            size.width > 0,
            size.height > 0,
        ensures
            r.wf(),
            r.spec_doc() == document,
            r.spec_pos().x == 0 && r.spec_pos().y == 0,
            r.spec_offset().x == 0 && r.spec_offset().y == 0,
            r.spec_size() == size,
            !r.spec_should_quit(),
            r.spec_status() == welcome@,
    {
        Self {
            should_quit: false,
            curr_pos: Position { x: 0, y: 0 },
            document,
            offset: Position { x: 0, y: 0 },
            size,
            status_message: StatusMessage::from(welcome),
        }
    }

    pub fn should_quit(&self) -> (r: bool)
        ensures
            r == self.spec_should_quit(),
    {
        self.should_quit
    }

    pub fn document(&self) -> (r: &Document)
        ensures
            r == self.spec_doc(),
    {
        &self.document
    }

    /// Moves the cursor one step in the direction of `key`, clamps the
    /// column to the row it lands on, and scrolls both offsets by the
    /// minimal amount that keeps the cursor inside the viewport.
    pub fn move_cursor(&mut self, key: Key)
        requires
            old(self).wf(),
        ensures
            final(self).wf(),
            final(self).spec_doc() == old(self).spec_doc(),
            final(self).spec_size() == old(self).spec_size(),
            final(self).spec_should_quit() == old(self).spec_should_quit(),
            final(self).spec_status() == old(self).spec_status(),
            ({
                let m = spec_moved(
                    old(self).spec_doc()@,
                    old(self).spec_pos().x as int,
                    old(self).spec_pos().y as int,
                    key,
                );
                &&& final(self).spec_pos().x == m.0
                &&& final(self).spec_pos().y == m.1
                &&& final(self).spec_offset().x == scrolled(
                    old(self).spec_offset().x as int,
                    m.0,
                    old(self).spec_size().width as int,
                )
                &&& final(self).spec_offset().y == scrolled(
                    old(self).spec_offset().y as int,
                    m.1,
                    old(self).spec_size().height as int,
                )
            }),
            // at the last column of the last row, Right stays in place
            (key matches Key::Right && old(self).spec_pos().y + 1 >= old(self).spec_doc()@.len()
                && (old(self).spec_doc()@.len() == 0 || old(self).spec_pos().x == old(self).spec_doc()@[old(self).spec_pos().y as int].len())) ==> final(self).spec_pos()
                == old(self).spec_pos() && final(self).spec_offset() == old(self).spec_offset(),
            // on the last row, Down keeps the row index
            (key matches Key::Down && old(self).spec_pos().y + 1 >= old(self).spec_doc()@.len())
                ==> final(self).spec_pos().y == old(self).spec_pos().y,
    {
        let mut x = self.curr_pos.x;
        let mut y = self.curr_pos.y;
        let n = self.document.len();
        match key {
            Key::Right => {
                match self.document.row(y) {
                    Some(row) => {
                        if x < row.len() {
                            x = x + 1;
                        } else if y < n - 1 {
                            x = 0;
                            y = y + 1;
                        }
                    },
                    None => {
                        x = 0;
                    },
                }
            },
            Key::Left => {
                if x == 0 && y > 0 {
                    y = y - 1;
                    // the target column is one past this row's end; the
                    // clamp below brings it back to the end
                    x = match self.document.row(y) {
                        Some(row) => row.len(),
                        None => 0,
                    };
                } else {
                    x = x.saturating_sub(1);
                }
            },
            Key::Up => {
                if y > 0 {
                    y = y - 1;
                }
            },
            Key::Down => {
                if y < n.saturating_sub(1) {
                    y = y + 1;
                }
            },
            _ => {},
        }
        match self.document.row(y) {
            Some(row) => {
                let l = row.len();
                if x > l {
                    x = l;
                }
            },
            None => {},
        }
        let width = self.size.width as usize;
        let height = self.size.height as usize;
        if x < self.offset.x {
            self.offset.x = x;
        } else if x - self.offset.x >= width {
            self.offset.x = x - (width - 1);
        }
        if y < self.offset.y {
            self.offset.y = y;
        } else if y - self.offset.y >= height {
            self.offset.y = y - (height - 1);
        }
        self.curr_pos = Position { x, y };
    }

    /// Applies one keystroke: `Ctrl-q` asks the session to end, a
    /// character is inserted at the cursor (which then advances), a
    /// backspace steps left and deletes there, the arrows move the
    /// cursor, and `Ctrl-s` asks the caller to save.
    pub fn process_keyboard(&mut self, key: Key) -> (r: Action)
        requires
            old(self).wf(),
        ensures
            final(self).wf(),
            final(self).spec_size() == old(self).spec_size(),
            final(self).spec_status() == old(self).spec_status(),
            final(self).spec_doc().spec_file_name() == old(self).spec_doc().spec_file_name(),
            final(self).spec_doc().spec_markup() == old(self).spec_doc().spec_markup(),
            r is Save <==> key == Key::Ctrl('s'),
            final(self).spec_should_quit() == (old(self).spec_should_quit() || key == Key::Ctrl(
                'q',
            )),
            key == Key::Ctrl('q') || key == Key::Ctrl('s') ==> final(self).spec_doc() == old(self).spec_doc() && final(self).spec_pos() == old(self).spec_pos() && final(self).spec_offset() == old(self).spec_offset(),
            (key matches Key::Char(c)) ==> ({
                let d1 = spec_insert(
                    old(self).spec_doc()@,
                    key->Char_0,
                    old(self).spec_pos().x as int,
                    old(self).spec_pos().y as int,
                );
                let m = spec_moved(
                    d1,
                    old(self).spec_pos().x as int,
                    old(self).spec_pos().y as int,
                    Key::Right,
                );
                &&& final(self).spec_doc()@ == d1
                &&& final(self).spec_pos().x == m.0
                &&& final(self).spec_pos().y == m.1
                &&& final(self).spec_offset().x == scrolled(
                    old(self).spec_offset().x as int,
                    m.0,
                    old(self).spec_size().width as int,
                )
                &&& final(self).spec_offset().y == scrolled(
                    old(self).spec_offset().y as int,
                    m.1,
                    old(self).spec_size().height as int,
                )
            }),
            key == Key::Backspace ==> ({
                let m = spec_moved(
                    old(self).spec_doc()@,
                    old(self).spec_pos().x as int,
                    old(self).spec_pos().y as int,
                    Key::Left,
                );
                if old(self).spec_pos().x > 0 || old(self).spec_pos().y > 0 {
                    &&& final(self).spec_doc()@ == spec_delete(old(self).spec_doc()@, m.0, m.1)
                    &&& final(self).spec_pos().x == m.0
                    &&& final(self).spec_pos().y == m.1
                    &&& final(self).spec_offset().x == scrolled(
                        old(self).spec_offset().x as int,
                        m.0,
                        old(self).spec_size().width as int,
                    )
                    &&& final(self).spec_offset().y == scrolled(
                        old(self).spec_offset().y as int,
                        m.1,
                        old(self).spec_size().height as int,
                    )
                } else {
                    &&& final(self).spec_doc() == old(self).spec_doc()
                    &&& final(self).spec_pos() == old(self).spec_pos()
                    &&& final(self).spec_offset() == old(self).spec_offset()
                }
            }),
            (key == Key::Left || key == Key::Right || key == Key::Up || key == Key::Down) ==> ({
                let m = spec_moved(
                    old(self).spec_doc()@,
                    old(self).spec_pos().x as int,
                    old(self).spec_pos().y as int,
                    key,
                );
                &&& final(self).spec_doc() == old(self).spec_doc()
                &&& final(self).spec_pos().x == m.0
                &&& final(self).spec_pos().y == m.1
                &&& final(self).spec_offset().x == scrolled(
                    old(self).spec_offset().x as int,
                    m.0,
                    old(self).spec_size().width as int,
                )
                &&& final(self).spec_offset().y == scrolled(
                    old(self).spec_offset().y as int,
                    m.1,
                    old(self).spec_size().height as int,
                )
            }),
            (key == Key::Other || (key matches Key::Ctrl(c) && c != 'q' && c != 's'))
                ==> *final(self) == *old(self),
    {
        match key {
            Key::Ctrl(c) => {
                if c == 'q' {
                    self.should_quit = true;
                } else if c == 's' {
                    return Action::Save;
                }
                Action::Continue
            },
            Key::Char(c) => {
                let pos = Position { x: self.curr_pos.x, y: self.curr_pos.y };
                self.document.insert(c, &pos);
                proof {
                    assert(self.wf());
                }
                self.move_cursor(Key::Right);
                Action::Continue
            },
            Key::Backspace => {
                if self.curr_pos.x > 0 || self.curr_pos.y > 0 {
                    self.move_cursor(Key::Left);
                    let pos = Position { x: self.curr_pos.x, y: self.curr_pos.y };
                    self.document.delete(&pos);
                    proof {
                        assert(self.wf());
                    }
                }
                Action::Continue
            },
            Key::Left | Key::Right | Key::Up | Key::Down => {
                self.move_cursor(key);
                Action::Continue
            },
            _ => Action::Continue,
        }
    }

    /// Where the terminal cursor stands on screen: the logical position
    /// relative to the scroll offset, one line below the status bar.
    pub fn screen_cursor(&self) -> (r: Position)
        requires
            self.wf(),
        ensures
            r.x == self.spec_pos().x - self.spec_offset().x,
            r.y == self.spec_pos().y - self.spec_offset().y + 1,
    {
        Position {
            x: self.curr_pos.x - self.offset.x,
            y: self.curr_pos.y - self.offset.y + 1,
        }
    }

    pub fn position(&self) -> (r: Position)
        ensures
            r == self.spec_pos(),
    {
        Position { x: self.curr_pos.x, y: self.curr_pos.y }
    }

    pub fn offset(&self) -> (r: Position)
        ensures
            r == self.spec_offset(),
    {
        Position { x: self.offset.x, y: self.offset.y }
    }

    pub fn size(&self) -> (r: Size)
        ensures
            r == self.spec_size(),
    {
        Size { width: self.size.width, height: self.size.height }
    }

    pub fn status(&self) -> (r: &String)
        ensures
            r@ == self.spec_status(),
    {
        self.status_message.text()
    }

    pub fn set_status(&mut self, msg: StatusMessage)
        ensures
            final(self).spec_status() == msg.spec_text(),
            final(self).spec_doc() == old(self).spec_doc(),
            final(self).spec_pos() == old(self).spec_pos(),
            final(self).spec_offset() == old(self).spec_offset(),
            final(self).spec_size() == old(self).spec_size(),
            final(self).spec_should_quit() == old(self).spec_should_quit(),
            old(self).wf() ==> final(self).wf(),
    {
        self.status_message = msg;
    }

    /// Associates the document with a file name, leaving its rows alone.
    pub fn set_file_name(&mut self, name: Option<String>)
        ensures
            final(self).spec_doc()@ == old(self).spec_doc()@,
            final(self).spec_doc().spec_file_name() == name,
            final(self).spec_doc().spec_markup() == old(self).spec_doc().spec_markup(),
            final(self).spec_pos() == old(self).spec_pos(),
            final(self).spec_offset() == old(self).spec_offset(),
            final(self).spec_size() == old(self).spec_size(),
            final(self).spec_should_quit() == old(self).spec_should_quit(),
            final(self).spec_status() == old(self).spec_status(),
            old(self).wf() ==> final(self).wf(),
    {
        self.document.set_file_name(name);
    }
}

/// A run of `n` spaces (none for a negative count).
pub open spec fn spaces_run(n: int) -> Seq<char> {
    Seq::new(
        if n < 0 {
            0
        } else {
            n as nat
        },
        |i: int| ' ',
    )
}

/// `text`, padded with spaces to `width` characters; text already that
/// wide stands as it is.
pub open spec fn spec_padded(text: Seq<char>, width: int) -> Seq<char> {
    text + spaces_run(width - text.len())
}

/// The status bar's text for a file name, cursor row, row count and
/// viewport width.
pub open spec fn spec_status_line(name: Seq<char>, y: int, len: int, width: int) -> Seq<char> {
    spec_padded(
        "File: '"@ + name + "' line: "@ + dec_of(y + 1) + "/"@ + dec_of(len),
        width,
    )
}

/// The greeting shown on an empty document, centered and cut to the
/// viewport width.
pub open spec fn spec_welcome(width: int) -> Seq<char> {
    let msg = "Welcome to LATE - Version 0.1.0"@;
    let padded = "~"@ + spaces_run((width - msg.len()) / 2) + msg;
    padded.take(
        if width <= padded.len() {
            width
        } else {
            padded.len() as int
        },
    )
}

/// Appends `count` spaces.
fn append_spaces(s: &mut String, count: usize)
    ensures
        final(s)@ == old(s)@ + spaces_run(count as int),
{
    let mut k: usize = 0;
    proof {
        assert(s@ =~= old(s)@ + spaces_run(0));
    }
    while k < count
        invariant
            k <= count,
            s@ == old(s)@ + spaces_run(k as int),
        decreases count - k,
    {
        s.append(" ");
        proof {
            reveal_strlit(" ");
            assert(" "@ =~= seq![' ']);
            assert(s@ =~= old(s)@ + spaces_run(k + 1));
        }
        k += 1;
    }
}

impl Editor {
    /// The status bar: the file name (or a placeholder), the cursor's
    /// line over the row count, padded to the viewport width.
    pub fn status_line(&self) -> (r: String)
        requires
            self.wf(),
        ensures
            r@ == spec_status_line(
                match self.spec_doc().spec_file_name() {
                    Some(name) => name@,
                    None => "[No Name]"@,
                },
                self.spec_pos().y as int,
                self.spec_doc()@.len() as int,
                self.spec_size().width as int,
            ),
    {
        let len = self.document.len();
        let mut s = String::new();
        s.append("File: '");
        match self.document.file_name() {
            Some(name) => s.append(name.as_str()),
            None => s.append("[No Name]"),
        }
        s.append("' line: ");
        let line = usize_to_string(self.curr_pos.y + 1);
        s.append(line.as_str());
        s.append("/");
        let total = usize_to_string(len);
        s.append(total.as_str());
        let used = s.as_str().unicode_len();
        let width = self.size.width as usize;
        append_spaces(&mut s, width.saturating_sub(used));
        proof {
            assert(s@ =~= spec_status_line(
                match self.spec_doc().spec_file_name() {
                    Some(name) => name@,
                    None => "[No Name]"@,
                },
                self.spec_pos().y as int,
                self.spec_doc()@.len() as int,
                self.spec_size().width as int,
            ));
        }
        s
    }

    /// The message bar: the status message, padded to the viewport width.
    pub fn sub_line(&self) -> (r: String)
        ensures
            r@ == spec_padded(self.spec_status(), self.spec_size().width as int),
    {
        let mut s = String::new();
        s.append(self.status_message.text().as_str());
        let used = s.as_str().unicode_len();
        let width = self.size.width as usize;
        append_spaces(&mut s, width.saturating_sub(used));
        proof {
            assert(s@ =~= spec_padded(self.spec_status(), self.spec_size().width as int));
        }
        s
    }

    /// The greeting line shown in the middle of an empty document.
    pub fn welcome_message(&self) -> (r: String)
        ensures
            r@ == spec_welcome(self.spec_size().width as int),
    {
        let mut s = String::new();
        s.append("~");
        let msg = "Welcome to LATE - Version 0.1.0";
        let msg_len = msg.unicode_len();
        let width = self.size.width as usize;
        append_spaces(&mut s, width.saturating_sub(msg_len) / 2);
        s.append(msg);
        let built = s.as_str().unicode_len();
        let keep = if width <= built {
            width
        } else {
            built
        };
        let cut = s.as_str().substring_char(0, keep);
        let r = String::from_str(cut);
        proof {
            assert(r@ =~= spec_welcome(self.spec_size().width as int));
        }
        r
    }

    /// What terminal line `i` of the viewport shows: the visible slice of
    /// the row it scrolls to, rendered against the keyword set; past the
    /// end of an empty document its middle line greets, every other line
    /// past the end is a tilde.
    pub fn row_text(&self, i: u16) -> (r: String)
        requires
            self.wf(),
        ensures
            ({
                let idx = self.spec_offset().y + i;
                let width = self.spec_size().width as int;
                &&& idx < self.spec_doc()@.len() ==> r@ == spec_render(
                    self.spec_doc()@[idx as int],
                    self.spec_offset().x as int,
                    self.spec_offset().x + width,
                    self.spec_doc().spec_markup()@,
                )
                &&& (idx >= self.spec_doc()@.len() && self.spec_doc()@.len() == 0 && i
                    == self.spec_size().height / 2) ==> r@ == spec_welcome(width)
                &&& (idx >= self.spec_doc()@.len() && !(self.spec_doc()@.len() == 0 && i
                    == self.spec_size().height / 2)) ==> r@ == "~"@
            }),
    {
        let len = self.document.len();
        let idx_opt = self.offset.y.checked_add(i as usize);
        if let Some(idx) = idx_opt {
            if idx < len {
                let row = match self.document.row(idx) {
                    Some(row) => row,
                    None => unreached(),
                };
                // the call bounds the row's cluster count, which the window
                // arithmetic below needs
                let _ = row.len();
                let start = self.offset.x;
                let end = self.offset.x.saturating_add(self.size.width as usize);
                let r = row.render(start, end, self.document.markup());
                proof {
                    assert(r@ =~= spec_render(
                        self.spec_doc()@[idx as int],
                        self.spec_offset().x as int,
                        self.spec_offset().x + self.spec_size().width as int,
                        self.spec_doc().spec_markup()@,
                    ));
                }
                return r;
            }
        }
        if self.document.is_empty() && i == self.size.height / 2 {
            self.welcome_message()
        } else {
            String::from_str("~")
        }
    }
}

/// Control characters: the C0 range, delete, and the C1 range.
pub open spec fn is_control_char(c: char) -> bool {
    (c as u32) < 32 || (127 <= c as u32 && c as u32 <= 159)
}

pub fn is_control(c: char) -> (r: bool)
    ensures
        r == is_control_char(c),
{
    (c as u32) < 32 || (127 <= c as u32 && c as u32 <= 159)
}

/// What one keystroke of the save-as prompt leaves in the typed buffer:
/// backspace drops the last character, a printable character is appended,
/// and anything else leaves it alone.
pub open spec fn prompt_next(s: Seq<char>, key: Key) -> Seq<char> {
    match key {
        Key::Backspace => if s.len() > 0 {
            s.drop_last()
        } else {
            s
        },
        Key::Char(c) => if c == '\n' || is_control_char(c) {
            s
        } else {
            s.push(c)
        },
        _ => s,
    }
}

/// One step of the save-as prompt: applies `key` to the buffer typed so
/// far and says whether the prompt is finished.
pub fn prompt_step(res: &mut String, key: Key) -> (done: bool)
    ensures
        done == (key == Key::Char('\n')),
        final(res)@ == prompt_next(old(res)@, key),
{
    match key {
        Key::Backspace => {
            string_pop(res);
            false
        },
        Key::Char(c) => {
            if c == '\n' {
                return true;
            }
            if !is_control(c) {
                let g = crate::row::char_to_string(c);
                res.append(g.as_str());
            }
            false
        },
        _ => false,
    }
}

/// Relies on `String::pop`: it removes the last character of the string
/// and returns it, or returns nothing from an empty string.
#[verifier::external_body]
fn string_pop(s: &mut String) -> (r: Option<char>)
    ensures
        old(s)@.len() == 0 ==> r is None && final(s)@ == old(s)@,
        old(s)@.len() > 0 ==> r == Some(old(s)@.last()) && final(s)@ == old(s)@.drop_last(),
{
    s.pop()
}

} // verus!
