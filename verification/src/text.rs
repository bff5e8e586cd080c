//! Conversions between `&str` / `String` and the `Vec<char>` form that the
//! editing engine works on.

use vstd::prelude::*;

verus! {

/// Relies on str::chars (with Iterator::collect as the conversion): it
/// yields the string's characters in order, which is the string's view.
#[verifier::external_body]
pub(crate) fn str_to_chars(s: &str) -> (r: Vec<char>)
    ensures
        r@ == s@,
{
    s.chars().collect()
}

/// Relies on String's FromIterator impl (through Iterator::collect): it
/// builds the string holding the given characters in order.
#[verifier::external_body]
pub(crate) fn chars_to_string(v: &Vec<char>) -> (r: String)
    ensures
        r@ == v@,
{
    v.iter().collect()
}

/// Appends every character of `src` to `dst`, in order.
pub(crate) fn push_all(dst: &mut Vec<char>, src: &Vec<char>)
    ensures
        final(dst)@ == old(dst)@ + src@,
{
    proof {
        assert(old(dst)@ + src@.take(0) =~= old(dst)@);
    }
    let mut j: usize = 0;
    while j < src.len()
        invariant
            j <= src@.len(),
            dst@ == old(dst)@ + src@.take(j as int),
        decreases src@.len() - j,
    {
        dst.push(src[j]);
        proof {
            assert((old(dst)@ + src@.take(j as int)).push(src@[j as int]) =~= old(dst)@
                + src@.take(j as int + 1));
        }
        j = j + 1;
    }
    proof {
        assert(src@.take(src@.len() as int) =~= src@);
    }
}

/// Copies the characters of `v` in the index range `[start, end)`.
pub(crate) fn copy_range(v: &Vec<char>, start: usize, end: usize) -> (r: Vec<char>)
    requires
        start <= end <= v@.len(),
    ensures
        r@ == v@.subrange(start as int, end as int),
{
    let mut r: Vec<char> = Vec::new();
    proof {
        assert(v@.subrange(start as int, start as int) =~= Seq::<char>::empty());
    }
    let mut j: usize = start;
    while j < end
        invariant
            start <= j <= end <= v@.len(),
            r@ == v@.subrange(start as int, j as int),
        decreases end - j,
    {
        r.push(v[j]);
        proof {
            assert(v@.subrange(start as int, j as int).push(v@[j as int]) =~= v@.subrange(
                start as int,
                j as int + 1,
            ));
        }
        j = j + 1;
    }
    r
}

} // verus!
