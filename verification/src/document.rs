//! An ordered collection of rows plus an optional source-file identity.
//! A document is built by splitting text on line boundaries, and it owns
//! row-level insert and delete dispatch.

use vstd::prelude::*;

use crate::position::Position;
use crate::row::Row;
use crate::row::deleted;
use crate::row::grapheme_split;
use crate::row::inserted;
use crate::text::char_range;
use crate::text::chars_to_string;
use crate::text::str_chars;

verus! {

/// The index of the first line feed in `s`, or `s.len()` if there is none.
pub open spec fn first_newline(s: Seq<char>) -> int
    decreases s.len(),
{
    if s.len() == 0 {
        0
    } else if s[0] == '\n' {
        0
    } else {
        1 + first_newline(s.drop_first())
    }
}

pub proof fn lemma_first_newline(s: Seq<char>)
    ensures
        0 <= first_newline(s) <= s.len(),
        forall|j: int| 0 <= j < first_newline(s) ==> s[j] != '\n',
        first_newline(s) < s.len() ==> s[first_newline(s)] == '\n',
    decreases s.len(),
{
    if s.len() > 0 && s[0] != '\n' {
        lemma_first_newline(s.drop_first());
        assert forall|j: int| 0 <= j < first_newline(s) implies s[j] != '\n' by {
            if j > 0 {
                assert(s.drop_first()[j - 1] == s[j]);
                assert(s.drop_first()[j - 1] != '\n');
            }
        }
    }
}

proof fn lemma_first_newline_at(s: Seq<char>, k: int)
    requires
        0 <= k <= s.len(),
        forall|j: int| 0 <= j < k ==> s[j] != '\n',
        k < s.len() ==> s[k] == '\n',
    ensures
        first_newline(s) == k,
    decreases k,
{
    if k == 0 {
    } else {
        assert(s[0] != '\n');
        assert(forall|j: int| 0 <= j < s.drop_first().len() ==> s.drop_first()[j] == s[j + 1]);
        lemma_first_newline_at(s.drop_first(), k - 1);
    }
}

/// One line's text with a trailing carriage return removed, so that a
/// `\r\n` pair as a whole acts as the line boundary.
pub open spec fn strip_cr(l: Seq<char>) -> Seq<char> {
    if l.len() > 0 && l[l.len() - 1] == '\r' {
        l.drop_last()
    } else {
        l
    }
}

/// The lines of `s`: split at each line feed, a carriage return directly
/// before a line feed dropped, the terminator itself never included, and no
/// extra empty line after a trailing line feed. A carriage return on its own
/// does not end a line.
pub open spec fn split_lines(s: Seq<char>) -> Seq<Seq<char>>
    decreases s.len(),
    via split_lines_decreases
{
    if s.len() == 0 {
        Seq::empty()
    } else {
        let i = first_newline(s);
        if i >= s.len() {
            seq![s]
        } else {
            seq![strip_cr(s.take(i))] + split_lines(s.skip(i + 1))
        }
    }
}

#[via_fn]
proof fn split_lines_decreases(s: Seq<char>) {
    lemma_first_newline(s);
}

proof fn lemma_split_lines_step(s: Seq<char>, k: int)
    requires
        0 <= k < s.len(),
        s[k] == '\n',
        forall|j: int| 0 <= j < k ==> s[j] != '\n',
    ensures
        split_lines(s) == seq![strip_cr(s.take(k))] + split_lines(s.skip(k + 1)),
{
    lemma_first_newline_at(s, k);
}

proof fn lemma_split_lines_no_newline(s: Seq<char>)
    requires
        forall|j: int| 0 <= j < s.len() ==> s[j] != '\n',
    ensures
        split_lines(s) == if s.len() == 0 {
            Seq::<Seq<char>>::empty()
        } else {
            seq![s]
        },
{
    lemma_first_newline_at(s, s.len() as int);
}

/// The documents' rows for a sequence of lines: each line split into its
/// grapheme clusters.
pub open spec fn lines_to_rows(lines: Seq<Seq<char>>) -> Seq<Seq<Seq<char>>> {
    Seq::new(lines.len(), |i: int| grapheme_split(lines[i]))
}

/// The rows of a document after inserting `c` at column `x` of row `y`: a
/// cluster inserted into an existing row, a fresh one-cluster row appended
/// when `y` is the virtual row just past the end, and no change when `y` is
/// further out.
pub open spec fn inserted_doc(doc: Seq<Seq<Seq<char>>>, x: int, y: int, c: char) -> Seq<
    Seq<Seq<char>>,
> {
    if 0 <= y < doc.len() {
        doc.update(y, inserted(doc[y], x, c))
    } else if y == doc.len() {
        doc.push(seq![seq![c]])
    } else {
        doc
    }
}

/// The rows of a document after deleting the cluster at column `x` of row
/// `y`; any out-of-range part of the position makes this a no-op.
pub open spec fn deleted_doc(doc: Seq<Seq<Seq<char>>>, x: int, y: int) -> Seq<Seq<Seq<char>>> {
    if 0 <= y < doc.len() {
        doc.update(y, deleted(doc[y], x))
    } else {
        doc
    }
}

/// A mutation was addressed to a row that does not exist.
#[derive(Clone, Copy, Debug, PartialEq, Eq, Structural)]
pub struct RangeError;

/// The rows of the open text, in line order, with the optional path the text
/// came from. The view of a `Document` is the sequence of its rows' cluster
/// sequences.
pub struct Document {
    rows: Vec<Row>,
    file_name: Option<String>,
}

impl View for Document {
    type V = Seq<Seq<Seq<char>>>;

    closed spec fn view(&self) -> Seq<Seq<Seq<char>>> {
        Seq::new(self.rows@.len(), |i: int| self.rows@[i]@)
    }
}

impl Document {
    /// The path the text came from, if any.
    pub closed spec fn spec_file_name(&self) -> Option<String> {
        self.file_name
    }

    /// The path the text came from, if any.
    pub fn file_name(&self) -> (r: &Option<String>)
        ensures
            *r == self.spec_file_name(),
    {
        &self.file_name
    }
}

impl Default for Document {
    /// An empty, unnamed document.
    fn default() -> (d: Document)
        ensures
            d@ == Seq::<Seq<Seq<char>>>::empty(),
            d.spec_file_name() is None,
    {
        let d = Document { rows: Vec::new(), file_name: None };
        proof {
            assert(d@ =~= Seq::<Seq<Seq<char>>>::empty());
        }
        d
    }
}

impl Document {
    /// Builds a document from whole text: one row per line of `contents`,
    /// with no row for a trailing line terminator.
    pub fn from_text(contents: &str, file_name: Option<String>) -> (d: Document)
        ensures
            d@ == lines_to_rows(split_lines(contents@)),
            d.spec_file_name() == file_name,
    {
        let chars = str_chars(contents);
        let ghost all = chars@;
        let mut rows: Vec<Row> = Vec::new();
        let ghost mut done: Seq<Seq<char>> = Seq::empty();
        let mut start: usize = 0;
        let mut i: usize = 0;
        proof {
            assert(all.skip(0) =~= all);
            assert(split_lines(all) =~= done + split_lines(all.skip(0)));
        }
        while i < chars.len()
            invariant
                start <= i <= chars@.len(),
                chars@ == all,
                forall|j: int| start <= j < i ==> all[j] != '\n',
                split_lines(all) == done + split_lines(all.skip(start as int)),
                rows@.len() == done.len(),
                forall|j: int| 0 <= j < rows@.len() ==> #[trigger] rows@[j]@ == grapheme_split(done[j]),
            decreases chars@.len() - i,
        {
            if chars[i] == '\n' {
                let line_end = if i > start && chars[i - 1] == '\r' {
                    i - 1
                } else {
                    i
                };
                let line = char_range(&chars, start, line_end);
                let line_str = chars_to_string(&line);
                let row = Row::from_line(line_str.as_str());
                proof {
                    let rest = all.skip(start as int);
                    let k = i - start;
                    assert(forall|j: int|
                        0 <= j < rest.len() ==> rest[j] == all[j + start]);
                    lemma_split_lines_step(rest, k);
                    assert(rest.take(k) =~= all.subrange(start as int, i as int));
                    if line_end < i {
                        assert(all[i - 1] == '\r');
                        assert(strip_cr(rest.take(k)) =~= all.subrange(
                            start as int,
                            line_end as int,
                        ));
                    } else {
                        assert(strip_cr(rest.take(k)) =~= all.subrange(
                            start as int,
                            line_end as int,
                        ));
                    }
                    assert(rest.skip(k + 1) =~= all.skip(i + 1));
                    assert(line@ == strip_cr(rest.take(k)));
                }
                let ghost done_next = done.push(line@);
                proof {
                    assert(split_lines(all) =~= done_next + split_lines(all.skip(i + 1)));
                }
                rows.push(row);
                proof {
                    done = done_next;
                }
                start = i + 1;
            }
            i += 1;
        }
        proof {
            let rest = all.skip(start as int);
            assert(forall|j: int| 0 <= j < rest.len() ==> rest[j] == all[j + start]);
            lemma_split_lines_no_newline(rest);
        }
        if start < chars.len() {
            let line = char_range(&chars, start, chars.len());
            let line_str = chars_to_string(&line);
            let row = Row::from_line(line_str.as_str());
            proof {
                assert(line@ =~= all.skip(start as int));
            }
            rows.push(row);
            proof {
                done = done.push(all.skip(start as int));
                assert(split_lines(all) =~= done);
            }
        } else {
            proof {
                assert(split_lines(all.skip(start as int)) =~= Seq::<Seq<char>>::empty());
                assert(split_lines(all) =~= done);
            }
        }
        let d = Document { rows, file_name };
        proof {
            assert(d@ =~= lines_to_rows(split_lines(contents@)));
        }
        d
    }

    /// Inserts `c` at `at`: into the addressed row when it exists, as a new
    /// one-character row when `at.y` is the virtual row just past the last
    /// line, and rejected as out of range otherwise.
    pub fn insert(&mut self, at: &Position, c: char) -> (r: Result<(), RangeError>)
        ensures
            final(self)@ == inserted_doc(old(self)@, at.x as int, at.y as int, c),
            r is Ok <==> at.y <= old(self)@.len(),
            final(self).spec_file_name() == old(self).spec_file_name(),
    {
        if at.y == self.rows.len() {
            let mut row = Row::default();
            row.insert(0, c);
            proof {
                assert(row@ =~= seq![seq![c]]);
            }
            self.rows.push(row);
            proof {
                assert(self@ =~= old(self)@.push(seq![seq![c]]));
            }
            Ok(())
        } else if at.y < self.rows.len() {
            let mut row = self.rows.remove(at.y);
            row.insert(at.x, c);
            self.rows.insert(at.y, row);
            proof {
                assert(self@ =~= old(self)@.update(
                    at.y as int,
                    inserted(old(self)@[at.y as int], at.x as int, c),
                ));
            }
            Ok(())
        } else {
            Err(RangeError)
        }
    }

    /// Deletes the cluster at `at`; a position outside the document changes
    /// nothing.
    pub fn delete(&mut self, at: &Position)
        ensures
            final(self)@ == deleted_doc(old(self)@, at.x as int, at.y as int),
            at.y >= old(self)@.len() ==> *final(self) == *old(self),
            final(self).spec_file_name() == old(self).spec_file_name(),
    {
        if at.y < self.rows.len() {
            let mut row = self.rows.remove(at.y);
            row.delete(at.x);
            self.rows.insert(at.y, row);
            proof {
                assert(self@ =~= old(self)@.update(
                    at.y as int,
                    deleted(old(self)@[at.y as int], at.x as int),
                ));
            }
        }
    }

    /// The row at `idx`, if the document has one.
    pub fn row(&self, idx: usize) -> (r: Option<&Row>)
        ensures
            idx < self@.len() ==> (r matches Some(row) && row@ == self@[idx as int]),
            idx >= self@.len() ==> r is None,
    {
        if idx < self.rows.len() {
            Some(&self.rows[idx])
        } else {
            None
        }
    }

    /// Whether the document has no rows.
    pub fn is_empty(&self) -> (b: bool)
        ensures
            b == (self@.len() == 0),
    {
        self.rows.is_empty()
    }

    /// The number of rows.
    pub fn len(&self) -> (n: usize)
        ensures
            n == self@.len(),
    {
        self.rows.len()
    }
}

} // verus!
