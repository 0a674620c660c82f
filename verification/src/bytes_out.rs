//! Writing byte fields into caller-provided response buffers.
use vstd::prelude::*;

verus! {

/// `buf` with `src` written over it starting at `at`.
pub open spec fn spec_write_at(buf: Seq<u8>, at: int, src: Seq<u8>) -> Seq<u8> {
    buf.subrange(0, at) + src + buf.subrange(at + src.len(), buf.len() as int)
}

/// Copies `src` into `buf[at..at + src.len()]`, leaving the rest of `buf` as it was.
pub fn write_at(buf: &mut [u8], at: usize, src: &[u8])
    requires
        at + src@.len() <= old(buf)@.len(),
    ensures
        final(buf)@ == spec_write_at(old(buf)@, at as int, src@),
{
    let ghost orig = buf@;
    let n = buf.len();
    let mut i: usize = 0;
    while i < src.len()
        invariant
            i <= src@.len(),
            n == orig.len(),
            at + src@.len() <= orig.len(),
            buf@.len() == orig.len(),
            forall|k: int| 0 <= k < at ==> buf@[k] == orig[k],
            forall|k: int| 0 <= k < i ==> buf@[at + k] == src@[k],
            forall|k: int| at + i <= k < orig.len() ==> buf@[k] == orig[k],
        decreases src@.len() - i,
    {
        buf[at + i] = src[i];
        i = i + 1;
    }
    assert(buf@ =~= spec_write_at(orig, at as int, src@));
}

} // verus!
