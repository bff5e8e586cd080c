//! The on-disk file format: rows joined by a newline after every row
//! (including the last), and the inverse splitting used when a file is
//! loaded. Splitting breaks the text at every newline and drops one
//! carriage return at the end of a line, so both plain and CRLF line
//! endings load cleanly.

use vstd::prelude::*;

verus! {

/// Holds when the content contains no newline character.
pub open spec fn is_nl_free(s: Seq<char>) -> bool {
    forall|i: int| 0 <= i < s.len() ==> s[i] != '\n'
}

/// Index of the first newline in `s`, or `s.len()` when there is none.
pub open spec fn find_nl(s: Seq<char>) -> int
    decreases s.len(),
{
    if s.len() == 0 {
        0
    } else if s[0] == '\n' {
        0
    } else {
        1 + find_nl(s.drop_first())
    }
}

/// The line content with one trailing carriage return removed, if present.
pub open spec fn strip_cr(s: Seq<char>) -> Seq<char> {
    if s.len() > 0 && s.last() == '\r' {
        s.drop_last()
    } else {
        s
    }
}

pub proof fn lemma_find_nl_bounds(s: Seq<char>)
    ensures
        0 <= find_nl(s) <= s.len(),
        find_nl(s) < s.len() ==> s[find_nl(s)] == '\n',
        forall|j: int| 0 <= j < find_nl(s) ==> s[j] != '\n',
    decreases s.len(),
{
    if s.len() > 0 && s[0] != '\n' {
        lemma_find_nl_bounds(s.drop_first());
        assert forall|j: int| 0 <= j < find_nl(s) implies s[j] != '\n' by {
            if j > 0 {
                assert(s[j] == s.drop_first()[j - 1]);
            }
        }
    }
}

/// The lines of a text: split at every newline; a final line without a
/// trailing newline still counts, while a trailing newline adds no empty
/// final line.
pub open spec fn lines_of(s: Seq<char>) -> Seq<Seq<char>>
    decreases s.len(),
{
    if s.len() == 0 {
        Seq::empty()
    } else {
        let i = find_nl(s);
        if 0 <= i && i < s.len() {
            seq![strip_cr(s.take(i))] + lines_of(s.skip(i + 1))
        } else {
            seq![strip_cr(s)]
        }
    }
}

/// The saved form of a buffer: each row's raw content followed by one
/// newline, the last row included.
pub open spec fn join_rows(rows: Seq<Seq<char>>) -> Seq<char>
    decreases rows.len(),
{
    if rows.len() == 0 {
        Seq::empty()
    } else {
        rows.first() + seq!['\n'] + join_rows(rows.drop_first())
    }
}

pub proof fn lemma_join_rows_push(rows: Seq<Seq<char>>, r: Seq<char>)
    ensures
        join_rows(rows.push(r)) == join_rows(rows) + r + seq!['\n'],
    decreases rows.len(),
{
    if rows.len() == 0 {
        let p = rows.push(r);
        assert(p.drop_first() =~= Seq::<Seq<char>>::empty());
        assert(p.first() == r);
        assert(join_rows(p) == p.first() + seq!['\n'] + join_rows(p.drop_first()));
        assert(join_rows(Seq::<Seq<char>>::empty()) == Seq::<char>::empty());
        assert(r + seq!['\n'] + Seq::<char>::empty() =~= join_rows(rows) + r + seq!['\n']);
    } else {
        assert(rows.push(r).drop_first() =~= rows.drop_first().push(r));
        lemma_join_rows_push(rows.drop_first(), r);
        assert(rows.push(r).first() == rows.first());
        assert(rows.first() + seq!['\n'] + (join_rows(rows.drop_first()) + r + seq!['\n'])
            =~= join_rows(rows) + r + seq!['\n']);
    }
}

pub proof fn lemma_find_nl_concat(a: Seq<char>, b: Seq<char>)
    requires
        is_nl_free(a),
    ensures
        find_nl(a + b) == a.len() + find_nl(b),
    decreases a.len(),
{
    if a.len() == 0 {
        assert(a + b =~= b);
    } else {
        assert((a + b)[0] == a[0]);
        assert((a + b).drop_first() =~= a.drop_first() + b);
        lemma_find_nl_concat(a.drop_first(), b);
    }
}

/// Saving a buffer and loading the result yields the rows the buffer held,
/// provided no row contains a newline and no row ends with a carriage
/// return: the save/load round trip is the identity on such buffers.
pub proof fn lemma_save_load_round_trip(rows: Seq<Seq<char>>)
    requires
        forall|i: int| 0 <= i < rows.len() ==> is_nl_free(#[trigger] rows[i]),
        forall|i: int|
            0 <= i < rows.len() ==> ((#[trigger] rows[i]).len() == 0 || rows[i].last() != '\r'),
    ensures
        lines_of(join_rows(rows)) == rows,
    decreases rows.len(),
{
    if rows.len() > 0 {
        let r0 = rows.first();
        assert(rows[0] == r0);
        let rest = join_rows(rows.drop_first());
        let s = join_rows(rows);
        assert(s =~= r0 + (seq!['\n'] + rest));
        assert(is_nl_free(r0));
        lemma_find_nl_concat(r0, seq!['\n'] + rest);
        assert((seq!['\n'] + rest)[0] == '\n');
        assert(find_nl(s) == r0.len());
        assert(s.len() > 0);
        assert(find_nl(s) < s.len());
        assert(s.take(r0.len() as int) =~= r0);
        assert(strip_cr(r0) == r0);
        assert(s.skip(r0.len() as int + 1) =~= rest);
        lemma_save_load_round_trip(rows.drop_first());
        assert(seq![r0] + rows.drop_first() =~= rows);
    }
}

/// The view of each line a split produces, in order.
pub open spec fn views_of(lines: Seq<Vec<char>>) -> Seq<Seq<char>> {
    lines.map_values(|v: Vec<char>| v@)
}

/// Removes one trailing carriage return, if present.
fn strip_cr_exec(line: &mut Vec<char>)
    ensures
        final(line)@ == strip_cr(old(line)@),
{
    let n = line.len();
    if n > 0 {
        if line[n - 1] == '\r' {
            line.truncate(n - 1);
            proof {
                assert(old(line)@.subrange(0, n - 1) =~= old(line)@.drop_last());
            }
        }
    }
}

/// Splits text into its lines, as a file's content is split into rows when
/// it is loaded.
pub fn split_lines(content: &Vec<char>) -> (r: Vec<Vec<char>>)
    ensures
        views_of(r@) == lines_of(content@),
{
    let mut out: Vec<Vec<char>> = Vec::new();
    let mut cur: Vec<char> = Vec::new();
    let mut i: usize = 0;
    proof {
        assert(cur@ + content@.skip(0) =~= content@);
        assert(views_of(out@) =~= Seq::<Seq<char>>::empty());
        assert(views_of(out@) + lines_of(cur@ + content@.skip(0)) =~= lines_of(content@));
    }
    while i < content.len()
        invariant
            i <= content@.len(),
            is_nl_free(cur@),
            lines_of(content@) =~= views_of(out@) + lines_of(cur@ + content@.skip(i as int)),
        decreases content@.len() - i,
    {
        let c = content[i];
        if c == '\n' {
            proof {
                let rest = content@.skip(i as int);
                lemma_find_nl_concat(cur@, rest);
                lemma_find_nl_bounds(rest);
                assert(rest[0] == '\n');
                assert(find_nl(rest) == 0);
                let s = cur@ + rest;
                assert(find_nl(s) == cur@.len());
                assert(s.len() > cur@.len());
                assert(s.take(cur@.len() as int) =~= cur@);
                assert(s.skip(cur@.len() as int + 1) =~= content@.skip(i as int + 1));
                assert(lines_of(s) =~= seq![strip_cr(cur@)] + lines_of(content@.skip(i as int + 1)));
            }
            strip_cr_exec(&mut cur);
            let done = cur;
            proof {
                assert(views_of(out@.push(done)) =~= views_of(out@).push(done@));
            }
            out.push(done);
            cur = Vec::new();
            proof {
                assert(cur@ + content@.skip(i as int + 1) =~= content@.skip(i as int + 1));
            }
        } else {
            let ghost cur0 = cur@;
            cur.push(c);
            proof {
                assert(cur@ + content@.skip(i as int + 1) =~= cur0 + content@.skip(i as int));
            }
        }
        i = i + 1;
    }
    proof {
        assert(cur@ + content@.skip(i as int) =~= cur@);
    }
    if cur.len() > 0 {
        proof {
            lemma_find_nl_concat(cur@, Seq::<char>::empty());
            assert(cur@ + Seq::<char>::empty() =~= cur@);
            assert(find_nl(cur@) == cur@.len());
            assert(lines_of(cur@) =~= seq![strip_cr(cur@)]);
        }
        strip_cr_exec(&mut cur);
        proof {
            assert(views_of(out@.push(cur)) =~= views_of(out@).push(cur@));
        }
        out.push(cur);
    }
    out
}

/// The last segment of a path: the characters after the final separator.
pub open spec fn basename_of(p: Seq<char>) -> Seq<char>
    decreases p.len(),
{
    if p.len() == 0 {
        p
    } else if p.last() == '/' {
        Seq::empty()
    } else {
        basename_of(p.drop_last()).push(p.last())
    }
}

/// Extracts the last path segment, the part shown as the file's name.
pub fn basename(p: &Vec<char>) -> (r: Vec<char>)
    ensures
        r@ == basename_of(p@),
{
    let mut start: usize = p.len();
    proof {
        assert(p@.take(p@.len() as int) =~= p@);
        assert(p@.skip(p@.len() as int) =~= Seq::<char>::empty());
        assert(basename_of(p@) =~= basename_of(p@.take(start as int)) + p@.skip(start as int));
    }
    while start > 0 && p[start - 1] != '/'
        invariant
            start <= p@.len(),
            basename_of(p@) =~= basename_of(p@.take(start as int)) + p@.skip(start as int),
        decreases start,
    {
        proof {
            let t = p@.take(start as int);
            assert(t.drop_last() =~= p@.take(start as int - 1));
            assert(t.last() == p@[start as int - 1]);
            assert(basename_of(p@.take(start as int - 1)) + p@.skip(start as int - 1)
                =~= basename_of(t) + p@.skip(start as int));
        }
        start = start - 1;
    }
    proof {
        if start > 0 {
            let t = p@.take(start as int);
            assert(t.last() == p@[start as int - 1]);
            assert(basename_of(t) =~= Seq::<char>::empty());
        } else {
            assert(p@.take(0) =~= Seq::<char>::empty());
        }
        assert(basename_of(p@) =~= p@.skip(start as int));
        assert(p@.skip(start as int) =~= p@.subrange(start as int, p@.len() as int));
    }
    crate::text::copy_range(p, start, p.len())
}

} // verus!
