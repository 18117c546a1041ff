//! The stereo buffers of the groups, as sequences.

use vstd::prelude::*;
use crate::arith::cleared;

verus! {

/// The two channels of one group's buffer.
pub struct Stereo {
    pub left: Seq<u32>,
    pub right: Seq<u32>,
}

/// The buffer of one group: channel 0 is the left one, channel 1 the right
/// one.
pub open spec fn stereo(buf: [Vec<u32>; 2]) -> Stereo {
    Stereo { left: buf[0]@, right: buf[1]@ }
}

/// The buffers of all groups, in group order.
pub open spec fn stereo_views(bufs: Seq<[Vec<u32>; 2]>) -> Seq<Stereo> {
    Seq::new(bufs.len(), |g: int| stereo(bufs[g]))
}

/// Whether both channels of every buffer hold at least `len` samples.
pub open spec fn all_hold(bufs: Seq<Stereo>, len: int) -> bool {
    forall|g: int|
        0 <= g < bufs.len() ==> (#[trigger] bufs[g]).left.len() >= len && bufs[g].right.len()
            >= len
}

/// Whether two lists of buffers have the same number of buffers, and each
/// buffer the same number of samples in each channel.
pub open spec fn same_shape(a: Seq<Stereo>, b: Seq<Stereo>) -> bool {
    &&& a.len() == b.len()
    &&& forall|g: int|
        0 <= g < a.len() ==> (#[trigger] a[g]).left.len() == b[g].left.len() && a[g].right.len()
            == b[g].right.len()
}

/// The buffers with the `count` samples from `offs` on set to zero in both
/// channels of every buffer.
pub open spec fn zeroed(bufs: Seq<Stereo>, offs: int, count: int) -> Seq<Stereo> {
    Seq::new(
        bufs.len(),
        |g: int|
            Stereo {
                left: cleared(bufs[g].left, offs, count),
                right: cleared(bufs[g].right, offs, count),
            },
    )
}

/// Whether two lists of buffers have the same shape and hold the same
/// samples outside the block of `count` samples from `offs` on.
pub open spec fn agree_outside(a: Seq<Stereo>, b: Seq<Stereo>, offs: int, count: int) -> bool {
    &&& same_shape(a, b)
    &&& forall|g: int, k: int|
        0 <= g < a.len() && 0 <= k < a[g].left.len() && !(offs <= k < offs + count) ==> (
        #[trigger] a[g].left[k]) == b[g].left[k]
    &&& forall|g: int, k: int|
        0 <= g < a.len() && 0 <= k < a[g].right.len() && !(offs <= k < offs + count) ==> (
        #[trigger] a[g].right[k]) == b[g].right[k]
}

/// `count` buffers of `size` samples of silence in each channel.
pub open spec fn silence(count: nat, size: nat) -> Seq<Stereo> {
    Seq::new(
        count,
        |g: int|
            Stereo { left: Seq::new(size, |i: int| 0u32), right: Seq::new(size, |i: int| 0u32) },
    )
}

} // verus!
