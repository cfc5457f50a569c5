//! Small verified helpers over byte vectors.
use vstd::prelude::*;

verus! {

/// Appends the bytes of `src[from..]` to `dst`.
pub fn append_from(dst: &mut Vec<u8>, src: &[u8], from: usize)
    requires
        from <= src@.len(),
    ensures
        final(dst)@ == old(dst)@ + src@.skip(from as int),
{
    let mut i: usize = from;
    while i < src.len()
        invariant
            from <= i <= src@.len(),
            dst@ == old(dst)@ + src@.subrange(from as int, i as int),
        decreases src@.len() - i,
    {
        dst.push(src[i]);
        i = i + 1;
        assert(src@.subrange(from as int, i as int) == src@.subrange(from as int, i - 1).push(
            src@[i - 1],
        ));
    }
    assert(src@.subrange(from as int, src@.len() as int) == src@.skip(from as int));
}

/// Appends all of `src` to `dst`.
pub fn append(dst: &mut Vec<u8>, src: &[u8])
    ensures
        final(dst)@ == old(dst)@ + src@,
{
    append_from(dst, src, 0);
    assert(src@.skip(0) == src@);
}

} // verus!
