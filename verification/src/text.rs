//! Row-encoded pattern text: one row of symbols per line.

use vstd::prelude::*;
use vstd::std_specs::iter::IteratorSpec;
use crate::matrix::matrix_of;

verus! {

/// The rows still to come when `cur` is the row being read and `rest` is the
/// unread text: a line feed closes the row, any other character joins it,
/// and a row left open at the end of the text counts unless it is empty.
pub open spec fn rows_from(cur: Seq<char>, rest: Seq<char>) -> Seq<Seq<char>>
    decreases rest.len(),
{
    if rest.len() == 0 {
        if cur.len() == 0 {
            Seq::empty()
        } else {
            seq![cur]
        }
    } else if rest[0] == '\n' {
        seq![cur] + rows_from(Seq::empty(), rest.drop_first())
    } else {
        rows_from(cur.push(rest[0]), rest.drop_first())
    }
}

/// The rows of a text: its lines, each ended by a line feed, the last line
/// feed being optional.
pub open spec fn rows_of(text: Seq<char>) -> Seq<Seq<char>> {
    rows_from(Seq::empty(), text)
}

/// Whether no character of `row` is a line feed.
pub open spec fn is_line(row: Seq<char>) -> bool {
    forall|i: int| 0 <= i < row.len() ==> #[trigger] row[i] != '\n'
}

/// The text that lists `rows` one per line, each row followed by a line feed.
pub open spec fn joined(rows: Seq<Seq<char>>) -> Seq<char>
    decreases rows.len(),
{
    if rows.len() == 0 {
        Seq::empty()
    } else {
        rows[0] + seq!['\n'] + joined(rows.drop_first())
    }
}

/// Reading a line and its line feed closes one row: what was read before
/// the line, followed by the line.
pub proof fn lemma_rows_from_line(cur: Seq<char>, line: Seq<char>, rest: Seq<char>)
    requires
        is_line(line),
    ensures
        rows_from(cur, line + seq!['\n'] + rest) == seq![cur + line] + rows_from(
            Seq::empty(),
            rest,
        ),
    decreases line.len(),
{
    let text = line + seq!['\n'] + rest;
    if line.len() == 0 {
        assert(text.drop_first() =~= rest);
        assert(cur + line =~= cur);
    } else {
        let c = line[0];
        let tail = line.drop_first();
        assert(text.drop_first() =~= tail + seq!['\n'] + rest);
        assert forall|i: int| 0 <= i < tail.len() implies #[trigger] tail[i] != '\n' by {
            assert(tail[i] == line[i + 1]);
        }
        lemma_rows_from_line(cur.push(c), tail, rest);
        assert(cur.push(c) + tail =~= cur + line);
    }
}

/// Reading a last line that no line feed ends closes one row, unless
/// nothing at all was read for it.
pub proof fn lemma_rows_from_open_line(cur: Seq<char>, line: Seq<char>)
    requires
        is_line(line),
    ensures
        rows_from(cur, line) == if (cur + line).len() == 0 {
            Seq::<Seq<char>>::empty()
        } else {
            seq![cur + line]
        },
    decreases line.len(),
{
    if line.len() == 0 {
        assert(cur + line =~= cur);
    } else {
        let c = line[0];
        let tail = line.drop_first();
        assert forall|i: int| 0 <= i < tail.len() implies #[trigger] tail[i] != '\n' by {
            assert(tail[i] == line[i + 1]);
        }
        lemma_rows_from_open_line(cur.push(c), tail);
        assert(cur.push(c) + tail =~= cur + line);
    }
}

/// Splitting undoes joining: the rows of the text that lists `rows` one per
/// line are `rows` again, and so are the rows of that text without its last
/// line feed, unless the last row is empty.
pub proof fn lemma_rows_of_joined(rows: Seq<Seq<char>>)
    requires
        forall|z: int| 0 <= z < rows.len() ==> is_line(#[trigger] rows[z]),
    ensures
        rows_of(joined(rows)) == rows,
        rows.len() > 0 && rows.last().len() > 0 ==> rows_of(joined(rows).drop_last()) == rows,
    decreases rows.len(),
{
    if rows.len() > 0 {
        let first = rows[0];
        let others = rows.drop_first();
        assert forall|z: int| 0 <= z < others.len() implies is_line(#[trigger] others[z]) by {
            assert(others[z] == rows[z + 1]);
        }
        lemma_rows_of_joined(others);
        lemma_rows_from_line(Seq::empty(), first, joined(others));
        assert(seq![first] + others =~= rows);
        if rows.last().len() > 0 {
            if others.len() == 0 {
                assert(joined(rows).drop_last() =~= first);
                lemma_rows_from_open_line(Seq::empty(), first);
            } else {
                assert(joined(others).len() > 0) by {
                    assert(joined(others).len() >= others[0].len() + 1);
                }
                let shorter = joined(others).drop_last();
                assert(joined(rows).drop_last() =~= first + seq!['\n'] + shorter);
                lemma_rows_from_line(Seq::empty(), first, shorter);
            }
        }
    }
}

/// Splits a text into its rows.
pub fn split_rows(text: &str) -> (rows: Vec<Vec<char>>)
    ensures
        matrix_of(&rows) == rows_of(text@),
{
    let mut rows: Vec<Vec<char>> = Vec::new();
    let mut cur: Vec<char> = Vec::new();
    let mut it = text.chars();
    loop
        invariant
            it.obeys_prophetic_iter_laws(),
            it.decrease() is Some,
            rows_of(text@) == matrix_of(&rows) + rows_from(cur@, it.remaining()),
        ensures
            it.remaining().len() == 0,
        decreases it.decrease()->0,
    {
        match it.next() {
            Some(c) => {
                if c == '\n' {
                    let ghost done = matrix_of(&rows);
                    let ghost closed = cur@;
                    rows.push(cur);
                    cur = Vec::new();
                    assert(matrix_of(&rows) =~= done + seq![closed]);
                } else {
                    cur.push(c);
                }
            },
            None => {
                break;
            },
        }
    }
    let ghost done = matrix_of(&rows);
    if cur.len() > 0 {
        rows.push(cur);
        assert(matrix_of(&rows) =~= done + seq![cur@]);
    }
    rows
}

} // verus!
