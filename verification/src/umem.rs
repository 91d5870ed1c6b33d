use std::collections::VecDeque;
use vstd::prelude::*;
use crate::frame::{FrameDesc, FrameLayout, Segment, SegmentLengths};
use crate::queue::Queue;
use crate::region::{RegionView, UmemRegion};

verus! {

/// Bytes at the start of every frame that the kernel reserves for XDP.
pub const XDP_PACKET_HEADROOM: usize = 256;

/// The settings under which `init_umem` builds a region: at least one
/// frame, frames of at least one byte that hold both headrooms, and a
/// region whose size fits in a `usize`.
pub open spec fn valid_umem_config(frame_size: u32, frame_count: u32, frame_headroom: u32) -> bool {
    &&& frame_count > 0
    &&& frame_size > 0
    &&& XDP_PACKET_HEADROOM + frame_headroom <= frame_size
    &&& frame_count * frame_size <= usize::MAX
}

/// The descriptor of frame `i` of a region laid out by `layout`, with empty
/// segments.
pub open spec fn frame_desc_at(layout: FrameLayout, i: int) -> FrameDesc {
    FrameDesc {
        addr: (i * layout.spec_frame_size() + layout.data_start_in_frame()) as usize,
        options: 0,
        lengths: SegmentLengths { headroom: 0, data: 0 },
    }
}

/// The indices `0 .. n` in increasing order.
pub open spec fn indices(n: nat) -> Seq<usize> {
    Seq::new(n, |i: int| i as usize)
}

/// A region of `frame_count` frames of `frame_size` bytes each, with
/// `frame_headroom` bytes of user headroom after the XDP headroom, together
/// with the descriptors of all its frames in order and a queue that holds
/// every frame index in increasing order. `None` where the settings are
/// not valid.
pub fn init_umem(frame_size: u32, frame_count: u32, frame_headroom: u32) -> (res: Option<
    (UmemRegion, Vec<FrameDesc>, Queue),
>)
    ensures
        res is None <==> !valid_umem_config(frame_size, frame_count, frame_headroom),
        res matches Some((region, descs, queue)) ==> {
            let r: RegionView = region@;
            &&& r.wf()
            &&& r.layout.xdp_headroom == XDP_PACKET_HEADROOM
            &&& r.layout.frame_headroom == frame_headroom
            &&& r.frame_size() == frame_size
            &&& r.len == frame_count * frame_size
            &&& r.frame_count() == frame_count
            &&& r.available == Seq::<FrameDesc>::empty()
            &&& descs.len() == frame_count
            &&& forall|i: int|
                0 <= i < descs.len() ==> #[trigger] descs[i] == frame_desc_at(r.layout, i)
            &&& forall|i: int| 0 <= i < descs.len() ==> r.owns(#[trigger] descs[i])
            &&& queue@ == indices(frame_count as nat)
        },
{
    if frame_count == 0 {
        return None;
    }
    let layout = match FrameLayout::new(
        XDP_PACKET_HEADROOM,
        frame_headroom as usize,
        frame_size as usize,
    ) {
        Some(l) => l,
        None => {
            return None;
        },
    };
    if (frame_count as usize).checked_mul(frame_size as usize).is_none() {
        return None;
    }
    let region = UmemRegion::new(frame_count, layout);
    let descs = region.frame_descs();
    let mut q: VecDeque<usize> = VecDeque::new();
    let mut i: u32 = 0;
    while i < frame_count
        invariant
            i <= frame_count,
            q@ == indices(i as nat),
        decreases frame_count - i,
    {
        q.push_back(i as usize);
        i = i + 1;
        assert(q@ =~= indices(i as nat));
    }
    let queue = Queue::init_queue(q);
    Some((region, descs, queue))
}

/// Takes `write_num` frames from `queue`. Each index taken names a
/// descriptor of `descs`, and the first `length` bytes of that frame's data
/// segment are handed out to be written, so the descriptor records `length`
/// bytes of data. Returns the indices taken, each with its segment, in the
/// order they were taken.
pub fn take_data_segments(
    region: &UmemRegion,
    descs: &mut Vec<FrameDesc>,
    queue: &mut Queue,
    write_num: usize,
    length: usize,
) -> (res: Vec<(usize, Segment)>)
    requires
        region@.wf(),
        write_num <= old(queue)@.len(),
        forall|k: int| 0 <= k < write_num ==> #[trigger] old(queue)@[k] < old(descs).len(),
        forall|i: int| 0 <= i < old(descs).len() ==> region@.names_frame(#[trigger] old(descs)[i]),
        length <= region@.layout.mtu,
    ensures
        final(queue)@ == old(queue)@.skip(write_num as int),
        res.len() == write_num,
        forall|k: int|
            0 <= k < write_num ==> (#[trigger] res[k]).0 == old(queue)@[k] && res[k].1
                == region@.data_head(old(descs)[old(queue)@[k] as int], length),
        forall|k: int|
            0 <= k < write_num ==> (#[trigger] res[k]).1.offset == old(descs)[old(queue)@[k] as int].addr
                && res[k].1.len == length,
        final(descs).len() == old(descs).len(),
        forall|i: int|
            0 <= i < final(descs).len() ==> #[trigger] final(descs)[i] == (if (exists|k: int|
                0 <= k < write_num && old(queue)@[k] == i) {
                old(descs)[i].with_data_len(length)
            } else {
                old(descs)[i]
            }),
        forall|i: int| 0 <= i < final(descs).len() ==> region@.names_frame(#[trigger] final(descs)[i]),
        forall|i: int|
            0 <= i < final(descs).len() && region@.owns(old(descs)[i]) ==> region@.owns(
                #[trigger] final(descs)[i],
            ),
{
    let ghost q0 = queue@;
    let ghost d0 = descs@;
    let mut res: Vec<(usize, Segment)> = Vec::new();
    let mut n: usize = 0;
    while n < write_num
        invariant
            region@.wf(),
            n <= write_num,
            write_num <= q0.len(),
            forall|k: int| 0 <= k < write_num ==> #[trigger] q0[k] < d0.len(),
            forall|i: int| 0 <= i < d0.len() ==> region@.names_frame(#[trigger] d0[i]),
            length <= region@.layout.mtu,
            queue@ == q0.skip(n as int),
            res.len() == n,
            forall|k: int|
                0 <= k < n ==> (#[trigger] res[k]).0 == q0[k] && res[k].1 == region@.data_head(
                    d0[q0[k] as int],
                    length,
                ),
            descs.len() == d0.len(),
            forall|i: int|
                0 <= i < descs.len() ==> #[trigger] descs[i] == (if (exists|k: int|
                    0 <= k < n && q0[k] == i) {
                    d0[i].with_data_len(length)
                } else {
                    d0[i]
                }),
            forall|i: int| 0 <= i < descs.len() ==> region@.names_frame(#[trigger] descs[i]),
        decreases write_num - n,
    {
        let taken = queue.get_frame();
        let index = match taken {
            Some(i) => i,
            None => {
                proof {
                    assert(false);
                }
                0
            },
        };
        assert(index == q0[n as int]);
        let mut desc = descs[index];
        let seg = region.get_data_IoSliceMut(&mut desc, length);
        descs.set(index, desc);
        let ghost prev = res@;
        res.push((index, seg));
        proof {
            assert(queue@ =~= q0.skip(n + 1));
            assert forall|i: int| 0 <= i < descs.len() implies #[trigger] descs[i] == (if (exists|
                k: int,
            | 0 <= k < n + 1 && q0[k] == i) {
                d0[i].with_data_len(length)
            } else {
                d0[i]
            }) by {
                if i == index {
                    assert(q0[n as int] == i);
                } else {
                    if exists|k: int| 0 <= k < n + 1 && q0[k] == i {
                        let k = choose|k: int| 0 <= k < n + 1 && q0[k] == i;
                        assert(k < n);
                    }
                }
            }
            assert forall|k: int| 0 <= k < n + 1 implies (#[trigger] res[k]).0 == q0[k]
                && res[k].1 == region@.data_head(d0[q0[k] as int], length) by {
                if k < n {
                    assert(res[k] == prev[k]);
                }
            }
        }
        n = n + 1;
    }
    res
}

} // verus!
