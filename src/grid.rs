use vstd::prelude::*;

use vstd::string::StrSliceExecFns;

verus! {

/// The rows of a layout text, one more than it has line breaks. Spaces and
/// carriage returns only separate cells and are dropped; every other
/// character is a cell.
pub open spec fn split_rows(s: Seq<char>) -> Seq<Seq<char>>
    decreases s.len(),
{
    if s.len() == 0 {
        seq![Seq::empty()]
    } else {
        let prev = split_rows(s.drop_last());
        let c = s.last();
        if c == '\n' {
            prev.push(Seq::empty())
        } else if c == ' ' || c == '\r' {
            prev
        } else {
            prev.update(prev.len() - 1, prev.last().push(c))
        }
    }
}

/// The grid that a layout text describes: its lines, where a final line
/// break ends the last row instead of opening an empty one, and an empty
/// text has no rows.
pub open spec fn grid_rows(s: Seq<char>) -> Seq<Seq<char>> {
    if s.len() == 0 || s.last() == '\n' {
        split_rows(s).drop_last()
    } else {
        split_rows(s)
    }
}

/// The character sequences held by a vector of rows.
pub open spec fn rows_view(rows: Seq<Vec<char>>) -> Seq<Seq<char>> {
    rows.map_values(|r: Vec<char>| r@)
}

proof fn lemma_split_rows_nonempty(s: Seq<char>)
    ensures
        split_rows(s).len() >= 1,
    decreases s.len(),
{
    if s.len() > 0 {
        lemma_split_rows_nonempty(s.drop_last());
    }
}

proof fn lemma_rows_view_push(rows: Seq<Vec<char>>, r: Vec<char>)
    ensures
        rows_view(rows.push(r)) == rows_view(rows).push(r@),
{
    assert(rows_view(rows.push(r)) =~= rows_view(rows).push(r@));
}

/// Parses a layout text into its grid of cells: line breaks separate rows,
/// spaces separate cells, and void cells (`NO_CHAR`) keep their column.
pub fn parse_grid(keyboard: &str) -> (rows: Vec<Vec<char>>)
    ensures
        rows_view(rows@) == grid_rows(keyboard@),
{
    let n = keyboard.unicode_len();
    let mut rows: Vec<Vec<char>> = Vec::new();
    let mut cur: Vec<char> = Vec::new();
    let mut i: usize = 0;
    while i < n
        invariant
            0 <= i <= n,
            n == keyboard@.len(),
            rows_view(rows@).push(cur@) == split_rows(keyboard@.take(i as int)),
        decreases n - i,
    {
        let c = keyboard.get_char(i);
        let ghost s = keyboard@.take(i + 1);
        proof {
            assert(s.drop_last() =~= keyboard@.take(i as int));
            assert(s.last() == c);
            lemma_split_rows_nonempty(keyboard@.take(i as int));
        }
        if c == '\n' {
            let ghost before = rows@;
            rows.push(cur);
            cur = Vec::new();
            proof {
                lemma_rows_view_push(before, before.push(rows@.last()).last());
                assert(rows@ == before.push(rows@.last()));
                assert(rows_view(rows@).push(cur@) =~= split_rows(s));
            }
        } else if c != ' ' && c != '\r' {
            cur.push(c);
            proof {
                let prev = split_rows(keyboard@.take(i as int));
                assert(rows_view(rows@).push(cur@) =~= prev.update(
                    prev.len() - 1,
                    prev.last().push(c),
                ));
            }
        }
        i = i + 1;
    }
    proof {
        assert(keyboard@.take(n as int) =~= keyboard@);
    }
    if n > 0 && keyboard.get_char(n - 1) != '\n' {
        let ghost before = rows@;
        rows.push(cur);
        proof {
            lemma_rows_view_push(before, rows@.last());
            assert(rows@ == before.push(rows@.last()));
        }
    } else {
        proof {
            assert(rows_view(rows@) =~= rows_view(rows@).push(cur@).drop_last());
        }
    }
    rows
}

} // verus!
