//! The editor session state and the logic driven by key intents: the cursor
//! model, the minimal-scroll viewport, and the renderer that computes every
//! visible line. Reading keys and drawing to a real terminal are the
//! caller's business; each frame is recomputed from this state alone.

use vstd::prelude::*;

use crate::document::Document;
use crate::document::deleted_doc;
use crate::document::inserted_doc;
use crate::position::Position;
use crate::row::deleted;
use crate::row::inserted;
use crate::row::leading_ws;
use crate::row::lemma_leading_ws_bounds;
use crate::row::render_range;
use crate::terminal::Terminal;
use crate::text::chars_to_string;
use crate::text::decimal_digits;
use crate::text::push_decimal;

verus! {

/// A decoded key event: what the user asked the editor to do.
#[derive(Clone, Copy, Debug)]
pub enum KeyIntent {
    /// Insert this character at the cursor.
    Char(char),
    /// Delete the cluster at the cursor.
    Delete,
    /// End the session.
    Quit,
    Up,
    Down,
    Left,
    Right,
    Home,
    End,
    PageUp,
    PageDown,
    /// A key with no meaning here.
    Noop,
}

/// A transient one-line notice with the moment it was shown, in
/// milliseconds of some monotonic clock supplied by the caller.
pub struct StatusMessage {
    pub text: String,
    pub time: u64,
}

/// The whole session: the open document, the cursor, the viewport offset,
/// the display size, and the pending status message.
pub struct Editor {
    pub should_quit: bool,
    pub terminal: Terminal,
    pub cursor_pos: Position,
    pub offset: Position,
    pub document: Document,
    pub status_message: StatusMessage,
}

/// The cluster count of row `y`, with the virtual row past the end (and any
/// other out-of-range index) counting as empty.
pub open spec fn row_len(doc: Seq<Seq<Seq<char>>>, y: int) -> int {
    if 0 <= y < doc.len() {
        doc[y].len() as int
    } else {
        0
    }
}

/// The number of leading whitespace clusters of row `y`, zero off the end.
pub open spec fn leading_ws_at(doc: Seq<Seq<Seq<char>>>, y: int) -> int {
    if 0 <= y < doc.len() {
        leading_ws(doc[y])
    } else {
        0
    }
}

/// Where a movement intent sends the cursor, before the final column clamp.
/// `page` is the viewport height, used by the page jumps.
pub open spec fn moved_cursor(
    doc: Seq<Seq<Seq<char>>>,
    x: int,
    y: int,
    intent: KeyIntent,
    page: int,
) -> (int, int) {
    match intent {
        KeyIntent::Up => (x, if y > 0 {
            y - 1
        } else {
            0
        }),
        KeyIntent::Down => (x, if y < doc.len() {
            y + 1
        } else {
            y
        }),
        KeyIntent::Left => if x > 0 {
            (x - 1, y)
        } else if y > 0 {
            (row_len(doc, y - 1), y - 1)
        } else {
            (x, y)
        },
        KeyIntent::Right => if x < row_len(doc, y) {
            (x + 1, y)
        } else if y < doc.len() {
            (0, y + 1)
        } else {
            (x, y)
        },
        KeyIntent::PageUp => (x, if y >= page {
            y - page
        } else {
            0
        }),
        KeyIntent::PageDown => (x, if y + page <= doc.len() {
            y + page
        } else {
            doc.len() as int
        }),
        KeyIntent::Home => (leading_ws_at(doc, y), y),
        KeyIntent::End => (row_len(doc, y), y),
        _ => (x, y),
    }
}

/// The cursor after a movement intent: the move, then the column clamped to
/// the length of the row the cursor lands on.
pub open spec fn cursor_after(
    doc: Seq<Seq<Seq<char>>>,
    x: int,
    y: int,
    intent: KeyIntent,
    page: int,
) -> (int, int) {
    let m = moved_cursor(doc, x, y, intent, page);
    let w = row_len(doc, m.1);
    (
        if m.0 > w {
            w
        } else {
            m.0
        },
        m.1,
    )
}

/// The viewport origin on one axis after the minimal-scroll policy: keep it
/// when the cursor is inside, move just far enough when it is not. A
/// viewport without extent is left alone.
pub open spec fn scrolled(offset: int, cursor: int, extent: int) -> int {
    if extent <= 0 {
        offset
    } else if cursor < offset {
        cursor
    } else if cursor >= offset + extent {
        cursor - extent + 1
    } else {
        offset
    }
}

/// Whether the intent is one of the eight cursor movements.
pub open spec fn is_movement(intent: KeyIntent) -> bool {
    match intent {
        KeyIntent::Up | KeyIntent::Down | KeyIntent::Left | KeyIntent::Right | KeyIntent::Home
            | KeyIntent::End | KeyIntent::PageUp | KeyIntent::PageDown => true,
        _ => false,
    }
}

impl Editor {
    /// A fresh session over `document`, with the cursor and the viewport at
    /// the top-left corner.
    pub fn new(document: Document, terminal: Terminal, initial_status: String, now_ms: u64) -> (e:
        Editor)
        ensures
            e.document == document,
            e.terminal == terminal,
            !e.should_quit,
            e.cursor_pos.x == 0 && e.cursor_pos.y == 0,
            e.offset.x == 0 && e.offset.y == 0,
            e.status_message.text == initial_status,
            e.status_message.time == now_ms,
    {
        Editor {
            should_quit: false,
            terminal,
            cursor_pos: Position { x: 0, y: 0 },
            offset: Position { x: 0, y: 0 },
            document,
            status_message: StatusMessage { text: initial_status, time: now_ms },
        }
    }

    /// The cluster count of document row `y`, zero when there is no such row.
    fn width_at(&self, y: usize) -> (w: usize)
        ensures
            w as int == row_len(self.document@, y as int),
    {
        match self.document.row(y) {
            Some(row) => row.len(),
            None => 0,
        }
    }

    /// Applies a movement intent to the cursor. Non-movement intents leave
    /// the cursor where it is, apart from the final clamp to the current
    /// row's length.
    pub fn move_cursor(&mut self, intent: KeyIntent)
        ensures
            ({
                let c = cursor_after(
                    old(self).document@,
                    old(self).cursor_pos.x as int,
                    old(self).cursor_pos.y as int,
                    intent,
                    old(self).terminal.size.height as int,
                );
                final(self).cursor_pos.x == c.0 && final(self).cursor_pos.y == c.1
            }),
            final(self).document == old(self).document,
            final(self).offset == old(self).offset,
            final(self).terminal == old(self).terminal,
            final(self).should_quit == old(self).should_quit,
            final(self).status_message == old(self).status_message,
    {
        let mut x = self.cursor_pos.x;
        let mut y = self.cursor_pos.y;
        let height = self.document.len();
        let width = self.width_at(y);
        match intent {
            KeyIntent::Up => {
                if y > 0 {
                    y = y - 1;
                }
            },
            KeyIntent::Down => {
                if y < height {
                    y = y + 1;
                }
            },
            KeyIntent::Left => {
                if x > 0 {
                    x = x - 1;
                } else if y > 0 {
                    y = y - 1;
                    x = self.width_at(y);
                }
            },
            KeyIntent::Right => {
                if x < width {
                    x = x + 1;
                } else if y < height {
                    y = y + 1;
                    x = 0;
                }
            },
            KeyIntent::PageUp => {
                let page = self.terminal.size.height as usize;
                y = if y >= page {
                    y - page
                } else {
                    0
                };
            },
            KeyIntent::PageDown => {
                let page = self.terminal.size.height as usize;
                y = if y >= height {
                    height
                } else if page < height - y {
                    y + page
                } else {
                    height
                };
            },
            KeyIntent::Home => {
                let lnws = match self.document.row(y) {
                    Some(row) => {
                        proof {
                            lemma_leading_ws_bounds(row@);
                        }
                        row.len_no_whitespace()
                    },
                    None => 0,
                };
                x = width - lnws;
            },
            KeyIntent::End => {
                x = width;
            },
            KeyIntent::Char(_) | KeyIntent::Delete | KeyIntent::Quit | KeyIntent::Noop => {},
        }
        let clamp = self.width_at(y);
        if x > clamp {
            x = clamp;
        }
        self.cursor_pos = Position { x, y };
    }

    /// Recomputes the viewport origin so that the cursor is visible, moving
    /// it the smallest amount that suffices.
    pub fn scroll(&mut self)
        ensures
            final(self).offset.x as int == scrolled(
                old(self).offset.x as int,
                old(self).cursor_pos.x as int,
                old(self).terminal.size.width as int,
            ),
            final(self).offset.y as int == scrolled(
                old(self).offset.y as int,
                old(self).cursor_pos.y as int,
                old(self).terminal.size.height as int,
            ),
            old(self).terminal.size.width > 0 ==> final(self).offset.x
                <= old(self).cursor_pos.x < final(self).offset.x
                + old(self).terminal.size.width,
            old(self).terminal.size.height > 0 ==> final(self).offset.y
                <= old(self).cursor_pos.y < final(self).offset.y
                + old(self).terminal.size.height,
            final(self).cursor_pos == old(self).cursor_pos,
            final(self).document == old(self).document,
            final(self).terminal == old(self).terminal,
            final(self).should_quit == old(self).should_quit,
            final(self).status_message == old(self).status_message,
    {
        let x = self.cursor_pos.x;
        let y = self.cursor_pos.y;
        let width = self.terminal.size.width as usize;
        let height = self.terminal.size.height as usize;
        if height > 0 {
            if y < self.offset.y {
                self.offset.y = y;
            } else if y - self.offset.y >= height {
                self.offset.y = y - height + 1;
            }
        }
        if width > 0 {
            if x < self.offset.x {
                self.offset.x = x;
            } else if x - self.offset.x >= width {
                self.offset.x = x - width + 1;
            }
        }
    }

    /// Handles one key intent to completion: the quit flag, a buffer
    /// mutation or a cursor movement, then the scroll recomputation.
    pub fn process_key(&mut self, intent: KeyIntent)
        ensures
            final(self).should_quit == (old(self).should_quit || intent is Quit),
            is_movement(intent) ==> ({
                let c = cursor_after(
                    old(self).document@,
                    old(self).cursor_pos.x as int,
                    old(self).cursor_pos.y as int,
                    intent,
                    old(self).terminal.size.height as int,
                );
                final(self).cursor_pos.x == c.0 && final(self).cursor_pos.y == c.1
            }),
            !is_movement(intent) ==> final(self).cursor_pos == old(self).cursor_pos,
            intent matches KeyIntent::Char(c) ==> final(self).document@ == inserted_doc(
                old(self).document@,
                old(self).cursor_pos.x as int,
                old(self).cursor_pos.y as int,
                c,
            ),
            intent is Delete ==> final(self).document@ == deleted_doc(
                old(self).document@,
                old(self).cursor_pos.x as int,
                old(self).cursor_pos.y as int,
            ),
            !(intent is Char) && !(intent is Delete) ==> final(self).document == old(
                self,
            ).document,
            final(self).document.spec_file_name() == old(self).document.spec_file_name(),
            final(self).offset.x as int == scrolled(
                old(self).offset.x as int,
                final(self).cursor_pos.x as int,
                old(self).terminal.size.width as int,
            ),
            final(self).offset.y as int == scrolled(
                old(self).offset.y as int,
                final(self).cursor_pos.y as int,
                old(self).terminal.size.height as int,
            ),
            final(self).terminal == old(self).terminal,
            final(self).status_message == old(self).status_message,
            cursor_valid(
                old(self).document@,
                old(self).cursor_pos.x as int,
                old(self).cursor_pos.y as int,
            ) ==> cursor_valid(
                final(self).document@,
                final(self).cursor_pos.x as int,
                final(self).cursor_pos.y as int,
            ),
    {
        match intent {
            KeyIntent::Quit => {
                self.should_quit = true;
            },
            KeyIntent::Char(c) => {
                let _ = self.document.insert(&self.cursor_pos, c);
            },
            KeyIntent::Delete => {
                self.document.delete(&self.cursor_pos);
            },
            KeyIntent::Noop => {},
            _ => {
                self.move_cursor(intent);
            },
        }
        self.scroll();
        proof {
            let od = old(self).document@;
            let ox = old(self).cursor_pos.x as int;
            let oy = old(self).cursor_pos.y as int;
            if cursor_valid(od, ox, oy) {
                if is_movement(intent) {
                    lemma_movement_keeps_cursor_valid(
                        od,
                        ox,
                        oy,
                        intent,
                        old(self).terminal.size.height as int,
                    );
                } else {
                    match intent {
                        KeyIntent::Char(c) => {
                            let nd = self.document@;
                            if oy < od.len() {
                                assert(inserted(od[oy], ox, c).len() == od[oy].len() + 1);
                                assert(row_len(nd, oy) == od[oy].len() + 1);
                            } else if oy == od.len() {
                                assert(nd[oy] == seq![seq![c]]);
                                assert(row_len(nd, oy) == 1);
                                assert(ox == 0);
                            }
                        },
                        KeyIntent::Delete => {
                            let nd = self.document@;
                            if oy < od.len() {
                                if 0 <= ox < od[oy].len() {
                                    assert(deleted(od[oy], ox).len() == od[oy].len() - 1);
                                } else {
                                    assert(deleted(od[oy], ox) == od[oy]);
                                }
                            }
                        },
                        _ => {},
                    }
                }
            }
        }
    }
}

/// The identity line shown on an otherwise empty screen.
pub open spec fn welcome_message() -> Seq<char> {
    "Hecto editor -- version 0.1.0"@
}

/// `n` spaces (none for a negative count).
pub open spec fn spaces(n: int) -> Seq<char> {
    Seq::new(
        if n < 0 {
            0
        } else {
            n as nat
        },
        |i: int| ' ',
    )
}

/// The first `n` characters of `s`, or all of `s` if it is shorter.
pub open spec fn truncate_chars(s: Seq<char>, n: int) -> Seq<char> {
    if s.len() > n {
        s.take(n)
    } else {
        s
    }
}

/// The welcome banner line: a tilde, then the message centered by a left
/// pad of half the leftover width, the message itself cut to the width.
pub open spec fn welcome_line(msg: Seq<char>, width: int) -> Seq<char> {
    let shown = if msg.len() > width {
        width
    } else {
        msg.len() as int
    };
    let pad = (width - shown) / 2;
    seq!['~'] + spaces(pad) + msg.take(shown)
}

/// Line `i` of the text area: the visible slice of the document row it
/// shows, or the welcome banner one third down an empty document's screen,
/// or a tilde marking a line past the end of the file.
pub open spec fn content_line(
    doc: Seq<Seq<Seq<char>>>,
    off_x: int,
    off_y: int,
    width: int,
    height: int,
    i: int,
) -> Seq<char> {
    if 0 <= i + off_y < doc.len() {
        render_range(doc[i + off_y], off_x, off_x + width)
    } else if doc.len() == 0 && i == height / 3 {
        welcome_line(welcome_message(), width)
    } else {
        seq!['~']
    }
}

/// `n + 1` capped at the machine limit.
pub open spec fn sat_inc(n: int) -> int {
    if n >= usize::MAX {
        n
    } else {
        n + 1
    }
}

/// The status line: the file name cut to twenty characters, a row count,
/// and a one-based `row:col` indicator pushed to the right edge; the whole
/// line cut to the width.
pub open spec fn status_line_spec(
    name: Seq<char>,
    nrows: int,
    cx: int,
    cy: int,
    width: int,
) -> Seq<char> {
    let left = truncate_chars(name, 20) + seq![' ', '-', ' '] + decimal_digits(nrows) + seq![
        ' ',
        'l',
        'i',
        'n',
        'e',
        's',
    ];
    let ind = decimal_digits(sat_inc(cy)) + seq![':'] + decimal_digits(sat_inc(cx));
    let padded = if width > left.len() + ind.len() {
        left + spaces(width - left.len() - ind.len()) + ind
    } else {
        left + ind
    };
    truncate_chars(padded, width)
}

/// The characters of the file name, empty when the document has none.
pub open spec fn name_of(file_name: Option<String>) -> Seq<char> {
    match file_name {
        Some(n) => n@,
        None => Seq::empty(),
    }
}

/// The message line: the message text cut to the width while the message is
/// younger than five seconds, an empty line afterwards (or if the clock
/// reads earlier than the message's timestamp).
pub open spec fn message_line_spec(text: Seq<char>, shown_at: int, now: int, width: int) -> Seq<
    char,
> {
    if shown_at <= now < shown_at + 5000 {
        truncate_chars(text, width)
    } else {
        Seq::empty()
    }
}

/// A line holding a single tilde.
fn tilde_line() -> (s: String)
    ensures
        s@ == seq!['~'],
{
    let mut out: Vec<char> = Vec::new();
    out.push('~');
    proof {
        assert(out@ =~= seq!['~']);
    }
    chars_to_string(&out)
}

/// Appends the first `upto` characters of `s` (all of them if it is
/// shorter).
fn push_truncated(out: &mut Vec<char>, s: &str, upto: usize)
    ensures
        final(out)@ == old(out)@ + truncate_chars(s@, upto as int),
{
    let n = s.unicode_len();
    let take = if n > upto {
        upto
    } else {
        n
    };
    let ghost target = truncate_chars(s@, upto as int);
    proof {
        assert(target.len() == take as int);
        assert(out@ =~= old(out)@ + target.take(0));
    }
    let mut j: usize = 0;
    while j < take
        invariant
            j <= take <= s@.len(),
            target == truncate_chars(s@, upto as int),
            target.len() == take as int,
            forall|k: int| 0 <= k < take ==> target[k] == s@[k],
            out@ == old(out)@ + target.take(j as int),
        decreases take - j,
    {
        out.push(s.get_char(j));
        j += 1;
        proof {
            assert(out@ =~= old(out)@ + target.take(j as int));
        }
    }
    proof {
        assert(target.take(take as int) =~= target);
    }
}

/// The welcome banner line for this width.
fn build_welcome_line(width: usize) -> (s: String)
    ensures
        s@ == welcome_line(welcome_message(), width as int),
{
    let msg: &str = "Hecto editor -- version 0.1.0";
    let n = msg.unicode_len();
    let shown = if n > width {
        width
    } else {
        n
    };
    let pad = (width - shown) / 2;
    let mut out: Vec<char> = Vec::new();
    out.push('~');
    proof {
        assert(out@ =~= seq!['~'] + spaces(0));
    }
    let mut k: usize = 0;
    while k < pad
        invariant
            k <= pad,
            out@ == seq!['~'] + spaces(k as int),
        decreases pad - k,
    {
        out.push(' ');
        k += 1;
        proof {
            assert(out@ =~= seq!['~'] + spaces(k as int));
        }
    }
    let ghost msgv = welcome_message();
    proof {
        assert(msg@ == msgv);
        assert(out@ =~= seq!['~'] + spaces(pad as int) + msgv.take(0));
    }
    let mut j: usize = 0;
    while j < shown
        invariant
            j <= shown <= msg@.len(),
            msg@ == msgv,
            out@ == seq!['~'] + spaces(pad as int) + msgv.take(j as int),
        decreases shown - j,
    {
        out.push(msg.get_char(j));
        j += 1;
        proof {
            assert(out@ =~= seq!['~'] + spaces(pad as int) + msgv.take(j as int));
        }
    }
    chars_to_string(&out)
}

impl Editor {
    /// The lines of the text area, top to bottom: one per visible terminal
    /// row, each the rendered slice of a document row, the welcome banner,
    /// or a tilde placeholder.
    pub fn render_rows(&self) -> (lines: Vec<String>)
        ensures
            lines@.len() == self.terminal.size.height as int,
            forall|i: int|
                0 <= i < lines@.len() ==> #[trigger] lines@[i]@ == content_line(
                    self.document@,
                    self.offset.x as int,
                    self.offset.y as int,
                    self.terminal.size.width as int,
                    self.terminal.size.height as int,
                    i,
                ),
    {
        let height = self.terminal.size.height as usize;
        let width = self.terminal.size.width as usize;
        let empty = self.document.is_empty();
        let banner_at = height / 3;
        let mut lines: Vec<String> = Vec::new();
        let mut i: usize = 0;
        while i < height
            invariant
                i <= height,
                height == self.terminal.size.height as int,
                width == self.terminal.size.width as int,
                empty == (self.document@.len() == 0),
                banner_at == height as int / 3,
                lines@.len() == i as int,
                forall|j: int|
                    0 <= j < i ==> #[trigger] lines@[j]@ == content_line(
                        self.document@,
                        self.offset.x as int,
                        self.offset.y as int,
                        self.terminal.size.width as int,
                        self.terminal.size.height as int,
                        j,
                    ),
            decreases height - i,
        {
            let line: String = if self.offset.y <= usize::MAX - i {
                match self.document.row(self.offset.y + i) {
                    Some(row) => {
                        let row_count = row.len();
                        proof {
                            assert(row@.len() == row_count as int);
                        }
                        let end = if self.offset.x <= usize::MAX - width {
                            self.offset.x + width
                        } else {
                            usize::MAX
                        };
                        let rendered = row.render(self.offset.x, end);
                        proof {
                            assert(rendered@ == render_range(
                                self.document@[i + self.offset.y as int],
                                self.offset.x as int,
                                self.offset.x as int + width as int,
                            ));
                        }
                        rendered
                    },
                    None => {
                        if empty && i == banner_at {
                            build_welcome_line(width)
                        } else {
                            tilde_line()
                        }
                    },
                }
            } else {
                // every row index fits in usize, so this screen line is past
                // the last row
                let doc_len = self.document.len();
                proof {
                    assert(doc_len == self.document@.len());
                    assert(i + self.offset.y as int >= self.document@.len());
                }
                if empty && i == banner_at {
                    build_welcome_line(width)
                } else {
                    tilde_line()
                }
            };
            lines.push(line);
            i += 1;
        }
        lines
    }

    /// The status line for the current state: file name, row count, and the
    /// one-based cursor indicator at the right edge.
    pub fn status_line(&self) -> (s: String)
        ensures
            s@ == status_line_spec(
                name_of(self.document.spec_file_name()),
                self.document@.len() as int,
                self.cursor_pos.x as int,
                self.cursor_pos.y as int,
                self.terminal.size.width as int,
            ),
    {
        let width = self.terminal.size.width as usize;
        let ghost name = name_of(self.document.spec_file_name());
        let mut left: Vec<char> = Vec::new();
        match self.document.file_name() {
            Some(file_name) => {
                push_truncated(&mut left, file_name.as_str(), 20);
            },
            None => {
                proof {
                    assert(truncate_chars(name, 20) =~= Seq::<char>::empty());
                    assert(left@ =~= Seq::<char>::empty() + truncate_chars(name, 20));
                }
            },
        }
        left.push(' ');
        left.push('-');
        left.push(' ');
        proof {
            assert(left@ =~= truncate_chars(name, 20) + seq![' ', '-', ' ']);
        }
        push_decimal(&mut left, self.document.len());
        left.push(' ');
        left.push('l');
        left.push('i');
        left.push('n');
        left.push('e');
        left.push('s');
        let ghost left_spec = truncate_chars(name, 20) + seq![' ', '-', ' '] + decimal_digits(
            self.document@.len() as int,
        ) + seq![' ', 'l', 'i', 'n', 'e', 's'];
        proof {
            assert(left@ =~= left_spec);
        }
        let cy1 = if self.cursor_pos.y == usize::MAX {
            usize::MAX
        } else {
            self.cursor_pos.y + 1
        };
        let cx1 = if self.cursor_pos.x == usize::MAX {
            usize::MAX
        } else {
            self.cursor_pos.x + 1
        };
        let mut ind: Vec<char> = Vec::new();
        push_decimal(&mut ind, cy1);
        ind.push(':');
        push_decimal(&mut ind, cx1);
        let ghost ind_spec = decimal_digits(sat_inc(self.cursor_pos.y as int)) + seq![':']
            + decimal_digits(sat_inc(self.cursor_pos.x as int));
        proof {
            assert(ind@ =~= ind_spec);
        }
        let mut out = left;
        if width > out.len() && width - out.len() > ind.len() {
            let pad = width - out.len() - ind.len();
            let ghost before = out@;
            let mut k: usize = 0;
            proof {
                assert(out@ =~= before + spaces(0));
            }
            while k < pad
                invariant
                    k <= pad,
                    out@ == before + spaces(k as int),
                decreases pad - k,
            {
                out.push(' ');
                k += 1;
                proof {
                    assert(out@ =~= before + spaces(k as int));
                }
            }
        }
        let mut k: usize = 0;
        let ghost with_pad = out@;
        proof {
            assert(out@ =~= with_pad + ind@.take(0));
        }
        while k < ind.len()
            invariant
                k <= ind@.len(),
                out@ == with_pad + ind@.take(k as int),
            decreases ind@.len() - k,
        {
            let c = ind[k];
            out.push(c);
            k += 1;
            proof {
                assert(out@ =~= with_pad + ind@.take(k as int));
            }
        }
        proof {
            assert(ind@.take(ind@.len() as int) =~= ind@);
        }
        out.truncate(width);
        proof {
            let padded = if width as int > left_spec.len() + ind_spec.len() {
                left_spec + spaces(width as int - left_spec.len() - ind_spec.len()) + ind_spec
            } else {
                left_spec + ind_spec
            };
            assert(with_pad + ind@ =~= padded);
            assert(out@ =~= truncate_chars(padded, width as int));
        }
        chars_to_string(&out)
    }

    /// The message line for the moment `now_ms`.
    pub fn message_line(&self, now_ms: u64) -> (s: String)
        ensures
            s@ == message_line_spec(
                self.status_message.text@,
                self.status_message.time as int,
                now_ms as int,
                self.terminal.size.width as int,
            ),
    {
        let width = self.terminal.size.width as usize;
        if now_ms >= self.status_message.time && now_ms - self.status_message.time < 5000 {
            let mut out: Vec<char> = Vec::new();
            push_truncated(&mut out, self.status_message.text.as_str(), width);
            proof {
                assert(Seq::<char>::empty() + truncate_chars(self.status_message.text@, width as int)
                    =~= truncate_chars(self.status_message.text@, width as int));
            }
            chars_to_string(&out)
        } else {
            String::new()
        }
    }

    /// The whole frame: the text area, then the status line, then the
    /// message line.
    pub fn render_frame(&self, now_ms: u64) -> (lines: Vec<String>)
        ensures
            lines@.len() == self.terminal.size.height as int + 2,
            forall|i: int|
                0 <= i < self.terminal.size.height as int ==> #[trigger] lines@[i]@ == content_line(
                    self.document@,
                    self.offset.x as int,
                    self.offset.y as int,
                    self.terminal.size.width as int,
                    self.terminal.size.height as int,
                    i,
                ),
            lines@[self.terminal.size.height as int]@ == status_line_spec(
                name_of(self.document.spec_file_name()),
                self.document@.len() as int,
                self.cursor_pos.x as int,
                self.cursor_pos.y as int,
                self.terminal.size.width as int,
            ),
            lines@[self.terminal.size.height as int + 1]@ == message_line_spec(
                self.status_message.text@,
                self.status_message.time as int,
                now_ms as int,
                self.terminal.size.width as int,
            ),
    {
        let mut lines = self.render_rows();
        lines.push(self.status_line());
        lines.push(self.message_line(now_ms));
        lines
    }

    /// Where the cursor sits on the screen: its document position less the
    /// viewport offset, floored at the top-left corner.
    pub fn screen_cursor(&self) -> (p: Position)
        ensures
            p.x as int == if self.cursor_pos.x >= self.offset.x {
                self.cursor_pos.x - self.offset.x
            } else {
                0
            },
            p.y as int == if self.cursor_pos.y >= self.offset.y {
                self.cursor_pos.y - self.offset.y
            } else {
                0
            },
    {
        let x = if self.cursor_pos.x >= self.offset.x {
            self.cursor_pos.x - self.offset.x
        } else {
            0
        };
        let y = if self.cursor_pos.y >= self.offset.y {
            self.cursor_pos.y - self.offset.y
        } else {
            0
        };
        Position { x, y }
    }
}

/// A cursor position the editor treats as valid: at most one row past the
/// last line (the virtual append row), and within the landed row's cluster
/// count, which is zero on the virtual row.
pub open spec fn cursor_valid(doc: Seq<Seq<Seq<char>>>, x: int, y: int) -> bool {
    0 <= y <= doc.len() && 0 <= x <= row_len(doc, y)
}

/// Every movement intent keeps the cursor valid: the row index never passes
/// the virtual append row, and the final clamp keeps the column within the
/// landed row.
pub proof fn lemma_movement_keeps_cursor_valid(
    doc: Seq<Seq<Seq<char>>>,
    x: int,
    y: int,
    intent: KeyIntent,
    page: int,
)
    requires
        cursor_valid(doc, x, y),
        page >= 0,
    ensures
        ({
            let c = cursor_after(doc, x, y, intent, page);
            cursor_valid(doc, c.0, c.1)
        }),
{
    if intent is Home {
        if 0 <= y < doc.len() {
            lemma_leading_ws_bounds(doc[y]);
        }
    }
}

/// The minimal-scroll recomputation always lands the cursor inside the
/// viewport, whatever offset and cursor it starts from, as long as the
/// viewport has positive extent.
pub proof fn lemma_scrolled_in_window(offset: int, cursor: int, extent: int)
    requires
        0 <= offset,
        0 <= cursor,
        extent > 0,
    ensures
        scrolled(offset, cursor, extent) <= cursor < scrolled(offset, cursor, extent) + extent,
{
}

/// Left at column zero of a non-first row lands at the end of the previous
/// row, and Right from there leads back: the two moves are inverses.
pub proof fn lemma_left_then_right(doc: Seq<Seq<Seq<char>>>, y: int, page: int)
    requires
        0 < y <= doc.len(),
    ensures
        cursor_after(doc, 0, y, KeyIntent::Left, page) == (row_len(doc, y - 1), y - 1),
        ({
            let l = cursor_after(doc, 0, y, KeyIntent::Left, page);
            cursor_after(doc, l.0, l.1, KeyIntent::Right, page) == (0int, y)
        }),
{
}

/// Right at the end of a row that is not the last moves to the start of the
/// next row, and Left from there leads back: the two moves are inverses.
pub proof fn lemma_right_then_left(doc: Seq<Seq<Seq<char>>>, x: int, y: int, page: int)
    requires
        0 <= y < doc.len(),
        x == row_len(doc, y),
    ensures
        cursor_after(doc, x, y, KeyIntent::Right, page) == (0int, y + 1),
        ({
            let r = cursor_after(doc, x, y, KeyIntent::Right, page);
            cursor_after(doc, r.0, r.1, KeyIntent::Left, page) == (x, y)
        }),
{
}

} // verus!
