use std::collections::VecDeque;
use vstd::prelude::*;
use crate::frame::{FrameDesc, FrameLayout, Segment, SegmentLengths};
use crate::queue::{frame_step, FrameOp};
use vstd::multiset::Multiset;

verus! {

/// What a region is, as far as its users can tell: how its frames are laid
/// out, how many bytes it spans, and which frames wait in its queue of
/// available frames, front first.
pub struct RegionView {
    pub layout: FrameLayout,
    pub len: nat,
    pub available: Seq<FrameDesc>,
}

impl RegionView {
    pub open spec fn frame_size(self) -> int {
        self.layout.spec_frame_size()
    }

    pub open spec fn frame_count(self) -> int {
        self.len as int / self.frame_size()
    }

    /// Offset of the first byte of the frame that `desc` names.
    pub open spec fn frame_start(self, desc: FrameDesc) -> int {
        desc.addr - self.layout.data_start_in_frame()
    }

    /// The address of `desc` is that of the data segment of one of the
    /// region's frames.
    pub open spec fn names_frame(self, desc: FrameDesc) -> bool {
        let start = self.frame_start(desc);
        &&& 0 <= start
        &&& start % self.frame_size() == 0
        &&& start + self.frame_size() <= self.len
    }

    /// `desc` names a frame of this region, and the lengths it records fit
    /// in the frame's headroom and data segment.
    pub open spec fn owns(self, desc: FrameDesc) -> bool {
        &&& self.names_frame(desc)
        &&& desc.lengths.headroom <= self.layout.frame_headroom
        &&& desc.lengths.data <= self.layout.mtu
    }

    /// The segment `seg` lies inside the frame that `desc` names.
    pub open spec fn in_frame(self, desc: FrameDesc, seg: Segment) -> bool {
        seg.within(self.frame_start(desc), self.frame_start(desc) + self.frame_size())
    }

    /// The frames are laid out without a gap over the whole region, there
    /// is at least one, and every frame in the queue belongs to the region.
    pub open spec fn wf(self) -> bool {
        &&& self.layout.wf()
        &&& self.len as int % self.frame_size() == 0
        &&& self.frame_size() <= self.len <= usize::MAX
        &&& forall|i: int| 0 <= i < self.available.len() ==> #[trigger] self.owns(self.available[i])
    }

    /// The headroom that `desc` records as filled: it starts where the user
    /// headroom does.
    pub open spec fn headroom_seg(self, desc: FrameDesc) -> Segment {
        Segment {
            offset: (desc.addr - self.layout.frame_headroom) as usize,
            len: desc.lengths.headroom,
        }
    }

    /// The data that `desc` records as filled.
    pub open spec fn data_seg(self, desc: FrameDesc) -> Segment {
        Segment { offset: desc.addr, len: desc.lengths.data }
    }

    /// The whole user headroom of the frame.
    pub open spec fn headroom_buf(self, desc: FrameDesc) -> Segment {
        Segment {
            offset: (desc.addr - self.layout.frame_headroom) as usize,
            len: self.layout.frame_headroom,
        }
    }

    /// The whole data segment of the frame.
    pub open spec fn data_buf(self, desc: FrameDesc) -> Segment {
        Segment { offset: desc.addr, len: self.layout.mtu }
    }

    /// The last `delta` bytes of the user headroom, just before the data.
    pub open spec fn headroom_tail(self, desc: FrameDesc, delta: usize) -> Segment {
        Segment { offset: (desc.addr - delta) as usize, len: delta }
    }

    /// The first `length` bytes of the data segment.
    pub open spec fn data_head(self, desc: FrameDesc, length: usize) -> Segment {
        Segment { offset: desc.addr, len: length }
    }
}

/// A framed memory region which serves as the working memory of a UMEM,
/// with a queue of the frames that are free to use. Offsets are counted
/// from the start of the region; the memory itself is mapped by the caller,
/// who also shares the region, behind a lock, among the users of its queue.
#[derive(Debug)]
pub struct UmemRegion {
    layout: FrameLayout,
    len: usize,
    available_queue: VecDeque<FrameDesc>,
}

impl View for UmemRegion {
    type V = RegionView;

    closed spec fn view(&self) -> RegionView {
        RegionView { layout: self.layout, len: self.len as nat, available: self.available_queue@ }
    }
}

proof fn lemma_multiple_mod(i: int, size: int)
    requires
        0 < size,
    ensures
        (i * size) % size == 0,
{
    vstd::arithmetic::div_mod::lemma_mod_multiples_basic(i, size);
}

impl UmemRegion {
    /// A region of `frame_count` frames laid out by `frame_layout`, with an
    /// empty queue of available frames.
    pub fn new(frame_count: u32, frame_layout: FrameLayout) -> (res: Self)
        requires
            frame_count > 0,
            frame_layout.wf(),
            frame_count * frame_layout.spec_frame_size() <= usize::MAX,
        ensures
            res@.layout == frame_layout,
            res@.len == frame_count * frame_layout.spec_frame_size(),
            res@.available == Seq::<FrameDesc>::empty(),
            res@.frame_count() == frame_count,
            res@.wf(),
    {
        let size = frame_layout.frame_size();
        let len = (frame_count as usize) * size;
        proof {
            lemma_multiple_mod(frame_count as int, size as int);
            vstd::arithmetic::div_mod::lemma_div_multiples_vanish(frame_count as int, size as int);
            assert(size * frame_count == frame_count * size) by (nonlinear_arith);
            assert(size <= len) by (nonlinear_arith)
                requires
                    len == frame_count * size,
                    frame_count >= 1,
                    size > 0,
            ;
        }
        UmemRegion { layout: frame_layout, len, available_queue: VecDeque::new() }
    }

    /// The size of the region in bytes.
    pub fn len(&self) -> (res: usize)
        ensures
            res == self@.len,
    {
        self.len
    }

    /// The layout of the region's frames.
    pub fn layout(&self) -> (res: FrameLayout)
        ensures
            res == self@.layout,
    {
        self.layout
    }

    /// One descriptor for each frame of the region, in the order of the
    /// frames, each with empty segments.
    pub fn frame_descs(&self) -> (res: Vec<FrameDesc>)
        requires
            self@.wf(),
        ensures
            res.len() == self@.frame_count(),
            forall|i: int|
                0 <= i < res.len() ==> #[trigger] res[i] == (FrameDesc {
                    addr: (i * self@.frame_size() + self@.layout.data_start_in_frame()) as usize,
                    options: 0,
                    lengths: SegmentLengths { headroom: 0, data: 0 },
                }),
            forall|i: int| 0 <= i < res.len() ==> self@.owns(#[trigger] res[i]),
    {
        let size = self.layout.frame_size();
        let count = self.len / size;
        let ghost v = self@;
        let mut res: Vec<FrameDesc> = Vec::new();
        let mut i: usize = 0;
        while i < count
            invariant
                v == self@,
                v.wf(),
                size == v.frame_size(),
                count == v.frame_count(),
                i <= count,
                res.len() == i,
                forall|j: int|
                    0 <= j < i ==> #[trigger] res[j] == (FrameDesc {
                        addr: (j * size + v.layout.data_start_in_frame()) as usize,
                        options: 0,
                        lengths: SegmentLengths { headroom: 0, data: 0 },
                    }),
                forall|j: int| 0 <= j < i ==> v.owns(#[trigger] res[j]),
            decreases count - i,
        {
            proof {
                vstd::arithmetic::div_mod::lemma_fundamental_div_mod(v.len as int, size as int);
                assert((i + 1) * size <= count * size) by (nonlinear_arith)
                    requires
                        i < count,
                        size > 0,
                ;
                assert(i * size + size == (i + 1) * size) by (nonlinear_arith);
                lemma_multiple_mod(i as int, size as int);
            }
            let start = i * size;
            let addr = start + self.layout.xdp_headroom + self.layout.frame_headroom;
            let desc = FrameDesc::new(addr);
            res.push(desc);
            i = i + 1;
        }
        res
    }

    /// Takes the frame at the front of the queue of available frames, if
    /// there is one.
    pub fn get_frame(&mut self) -> (res: Option<FrameDesc>)
        requires
            old(self)@.wf(),
        ensures
            final(self)@.wf(),
            final(self)@.layout == old(self)@.layout,
            final(self)@.len == old(self)@.len,
            old(self)@.available.len() == 0 ==> res is None && final(self)@ == old(self)@,
            old(self)@.available.len() > 0 ==> res == Some(old(self)@.available[0])
                && final(self)@.available == old(self)@.available.drop_first(),
            res matches Some(d) ==> final(self)@.owns(d),
            forall|out: Multiset<FrameDesc>|
                #[trigger] frame_step(old(self)@.available, out, FrameOp::Take) == (
                    final(self)@.available,
                    match res {
                        Some(x) => out.insert(x),
                        None => out,
                    },
                ),
    {
        let res = self.available_queue.pop_front();
        proof {
            if old(self)@.available.len() > 0 {
                assert(old(self)@.owns(old(self)@.available[0]));
                assert forall|i: int| 0 <= i < self@.available.len() implies #[trigger] self@.owns(
                    self@.available[i],
                ) by {
                    assert(self@.available[i] == old(self)@.available[i + 1]);
                    assert(old(self)@.owns(old(self)@.available[i + 1]));
                }
            }
        }
        res
    }

    /// Puts a frame of this region back at the end of the queue of available
    /// frames.
    pub fn release_frame(&mut self, desc: FrameDesc)
        requires
            old(self)@.wf(),
            old(self)@.owns(desc),
        ensures
            final(self)@.wf(),
            final(self)@.layout == old(self)@.layout,
            final(self)@.len == old(self)@.len,
            final(self)@.available == old(self)@.available.push(desc),
            forall|out: Multiset<FrameDesc>|
                #[trigger] frame_step(old(self)@.available, out, FrameOp::Release(desc)) == (
                    final(self)@.available,
                    out.remove(desc),
                ),
    {
        self.available_queue.push_back(desc);
        proof {
            assert forall|i: int| 0 <= i < self@.available.len() implies #[trigger] self@.owns(
                self@.available[i],
            ) by {
                if i < old(self)@.available.len() {
                    assert(self@.available[i] == old(self)@.available[i]);
                    assert(old(self)@.owns(old(self)@.available[i]));
                }
            }
        }
    }

    /// Whether the address of `desc` is that of the data segment of one of
    /// this region's frames.
    pub fn names(&self, desc: &FrameDesc) -> (res: bool)
        requires
            self@.wf(),
        ensures
            res == self@.names_frame(*desc),
    {
        let size = self.layout.frame_size();
        let data_start = self.layout.xdp_headroom + self.layout.frame_headroom;
        if desc.addr < data_start {
            return false;
        }
        let start = desc.addr - data_start;
        start % size == 0 && start <= self.len - size
    }

    /// Whether `desc` names a frame of this region and records lengths that
    /// fit in that frame.
    pub fn describes(&self, desc: &FrameDesc) -> (res: bool)
        requires
            self@.wf(),
        ensures
            res == self@.owns(*desc),
    {
        self.names(desc) && desc.lengths.headroom <= self.layout.frame_headroom
            && desc.lengths.data <= self.layout.mtu
    }

    /// Offset of the user headroom of the frame that `desc` names.
    pub fn headroom_ptr(&self, desc: &FrameDesc) -> (res: usize)
        requires
            self@.wf(),
            self@.names_frame(*desc),
        ensures
            res == desc.addr - self@.layout.frame_headroom,
    {
        desc.addr - self.layout.frame_headroom
    }

    /// Offset of the last `delta` bytes of the user headroom of the frame
    /// that `desc` names.
    pub fn headroom_delta_ptr(&self, desc: &FrameDesc, delta: usize) -> (res: usize)
        requires
            self@.wf(),
            self@.names_frame(*desc),
            delta <= self@.layout.frame_headroom,
        ensures
            res == desc.addr - delta,
    {
        desc.addr - delta
    }

    /// Offset of the data segment of the frame that `desc` names.
    pub fn data_ptr(&self, desc: &FrameDesc) -> (res: usize)
        requires
            self@.wf(),
            self@.names_frame(*desc),
        ensures
            res == desc.addr,
    {
        desc.addr
    }

    /// The filled headroom of the frame that `desc` names.
    pub fn headroom(&self, desc: &FrameDesc) -> (res: Segment)
        requires
            self@.wf(),
            self@.owns(*desc),
        ensures
            res == self@.headroom_seg(*desc),
            res.offset == desc.addr - self@.layout.frame_headroom,
            res.len == desc.lengths.headroom,
            self@.in_frame(*desc, res),
    {
        Segment { offset: self.headroom_ptr(desc), len: desc.lengths.headroom }
    }

    /// The filled data of the frame that `desc` names.
    pub fn data(&self, desc: &FrameDesc) -> (res: Segment)
        requires
            self@.wf(),
            self@.owns(*desc),
        ensures
            res == self@.data_seg(*desc),
            res.offset == desc.addr,
            res.len == desc.lengths.data,
            self@.in_frame(*desc, res),
    {
        Segment { offset: self.data_ptr(desc), len: desc.lengths.data }
    }

    /// The filled headroom and the filled data of the frame that `desc`
    /// names.
    pub fn frame(&self, desc: &FrameDesc) -> (res: (Segment, Segment))
        requires
            self@.wf(),
            self@.owns(*desc),
        ensures
            res.0 == self@.headroom_seg(*desc),
            res.1 == self@.data_seg(*desc),
            res.0.offset == desc.addr - self@.layout.frame_headroom,
            res.0.len == desc.lengths.headroom,
            res.1.offset == desc.addr,
            res.1.len == desc.lengths.data,
            self@.in_frame(*desc, res.0),
            self@.in_frame(*desc, res.1),
    {
        (self.headroom(desc), self.data(desc))
    }

    /// The whole user headroom of the frame that `desc` names, to be
    /// written, with the descriptor's headroom length, through which the
    /// writer records how many bytes the headroom holds.
    pub fn headroom_mut<'a>(&self, desc: &'a mut FrameDesc) -> ((buf, len): (
        Segment,
        &'a mut usize,
    ))
        requires
            self@.wf(),
            self@.names_frame(*old(desc)),
        ensures
            buf == self@.headroom_buf(*old(desc)),
            buf.offset == old(desc).addr - self@.layout.frame_headroom,
            buf.len == self@.layout.frame_headroom,
            self@.in_frame(*old(desc), buf),
            *len == old(desc).lengths.headroom,
            *final(desc) == old(desc).with_headroom_len(*final(len)),
    {
        let buf = Segment { offset: self.headroom_ptr(desc), len: self.layout.frame_headroom };
        (buf, &mut desc.lengths.headroom)
    }

    /// The whole data segment of the frame that `desc` names, to be written,
    /// with the descriptor's data length, through which the writer records
    /// how many bytes the data segment holds.
    pub fn data_mut<'a>(&self, desc: &'a mut FrameDesc) -> ((buf, len): (Segment, &'a mut usize))
        requires
            self@.wf(),
            self@.names_frame(*old(desc)),
        ensures
            buf == self@.data_buf(*old(desc)),
            buf.offset == old(desc).addr,
            buf.len == self@.layout.mtu,
            self@.in_frame(*old(desc), buf),
            *len == old(desc).lengths.data,
            *final(desc) == old(desc).with_data_len(*final(len)),
    {
        let buf = Segment { offset: self.data_ptr(desc), len: self.layout.mtu };
        (buf, &mut desc.lengths.data)
    }

    /// The whole user headroom and the whole data segment of the frame that
    /// `desc` names, to be written, each with the descriptor's length of that
    /// segment, through which the writer records how many bytes it holds.
    pub fn frame_mut<'a>(&self, desc: &'a mut FrameDesc) -> ((headroom, headroom_len, data, data_len): (
        Segment,
        &'a mut usize,
        Segment,
        &'a mut usize,
    ))
        requires
            self@.wf(),
            self@.names_frame(*old(desc)),
        ensures
            headroom == self@.headroom_buf(*old(desc)),
            data == self@.data_buf(*old(desc)),
            headroom.offset == old(desc).addr - self@.layout.frame_headroom,
            headroom.len == self@.layout.frame_headroom,
            data.offset == old(desc).addr,
            data.len == self@.layout.mtu,
            self@.in_frame(*old(desc), headroom),
            self@.in_frame(*old(desc), data),
            *headroom_len == old(desc).lengths.headroom,
            *data_len == old(desc).lengths.data,
            *final(desc) == old(desc).with_headroom_len(*final(headroom_len)).with_data_len(
                *final(data_len),
            ),
    {
        let headroom = Segment { offset: self.headroom_ptr(desc), len: self.layout.frame_headroom };
        let data = Segment { offset: self.data_ptr(desc), len: self.layout.mtu };
        let lengths = &mut desc.lengths;
        (headroom, &mut lengths.headroom, data, &mut lengths.data)
    }

    /// The last `headroom_delta` bytes of the user headroom of the frame
    /// that `desc` names, just before its data.
    #[allow(non_snake_case)]
    pub fn get_headroom_IoSlice(&self, desc: &FrameDesc, headroom_delta: usize) -> (res: Segment)
        requires
            self@.wf(),
            self@.names_frame(*desc),
            headroom_delta <= self@.layout.frame_headroom,
        ensures
            res == self@.headroom_tail(*desc, headroom_delta),
            res.offset == desc.addr - headroom_delta,
            res.len == headroom_delta,
            self@.in_frame(*desc, res),
    {
        Segment { offset: self.headroom_delta_ptr(desc, headroom_delta), len: headroom_delta }
    }

    /// The last `headroom_delta` bytes of the user headroom of the frame
    /// that `desc` names, to be written; `desc` then records a headroom of
    /// `headroom_delta` bytes.
    #[allow(non_snake_case)]
    pub fn get_headroom_IoSliceMut(&self, desc: &mut FrameDesc, headroom_delta: usize) -> (res:
        Segment)
        requires
            self@.wf(),
            self@.names_frame(*old(desc)),
            headroom_delta <= self@.layout.frame_headroom,
        ensures
            res == self@.headroom_tail(*old(desc), headroom_delta),
            res.offset == old(desc).addr - headroom_delta,
            res.len == headroom_delta,
            self@.in_frame(*old(desc), res),
            *final(desc) == old(desc).with_headroom_len(headroom_delta),
            self@.names_frame(*final(desc)),
            self@.owns(*old(desc)) ==> self@.owns(*final(desc)),
    {
        let offset = self.headroom_delta_ptr(desc, headroom_delta);
        desc.adjust_headroom(headroom_delta);
        Segment { offset, len: headroom_delta }
    }

    /// The filled data of the frame that `desc` names.
    #[allow(non_snake_case)]
    pub fn get_data_IoSlice(&self, desc: &FrameDesc) -> (res: Segment)
        requires
            self@.wf(),
            self@.owns(*desc),
        ensures
            res == self@.data_seg(*desc),
            res.offset == desc.addr,
            res.len == desc.lengths.data,
            self@.in_frame(*desc, res),
    {
        Segment { offset: self.data_ptr(desc), len: desc.lengths.data }
    }

    /// The first `length` bytes of the data segment of the frame that `desc`
    /// names, to be written; `desc` then records `length` bytes of data.
    #[allow(non_snake_case)]
    pub fn get_data_IoSliceMut(&self, desc: &mut FrameDesc, length: usize) -> (res: Segment)
        requires
            self@.wf(),
            self@.names_frame(*old(desc)),
            length <= self@.layout.mtu,
        ensures
            res == self@.data_head(*old(desc), length),
            res.offset == old(desc).addr,
            res.len == length,
            self@.in_frame(*old(desc), res),
            *final(desc) == old(desc).with_data_len(length),
            self@.names_frame(*final(desc)),
            self@.owns(*old(desc)) ==> self@.owns(*final(desc)),
    {
        let offset = self.data_ptr(desc);
        desc.adjust_data(length);
        Segment { offset, len: length }
    }
}

/// Every segment that lies in a frame of the region lies in the region.
pub proof fn lemma_frame_segment_in_region(r: RegionView, desc: FrameDesc, seg: Segment)
    requires
        r.wf(),
        r.names_frame(desc),
        r.in_frame(desc, seg),
    ensures
        seg.within(0, r.len as int),
{
}

/// Segments of two different frames never overlap, so the bytes handed out
/// for one frame are never those of another.
pub proof fn lemma_distinct_frames_disjoint(
    r: RegionView,
    d1: FrameDesc,
    d2: FrameDesc,
    s1: Segment,
    s2: Segment,
)
    requires
        r.wf(),
        r.names_frame(d1),
        r.names_frame(d2),
        d1.addr != d2.addr,
        r.in_frame(d1, s1),
        r.in_frame(d2, s2),
    ensures
        s1.disjoint(s2),
{
    let size = r.frame_size();
    let a = r.frame_start(d1);
    let b = r.frame_start(d2);
    vstd::arithmetic::div_mod::lemma_fundamental_div_mod(a, size);
    vstd::arithmetic::div_mod::lemma_fundamental_div_mod(b, size);
    let qa = a / size;
    let qb = b / size;
    assert(qa != qb);
    if qa < qb {
        assert(size * qa + size <= size * qb) by (nonlinear_arith)
            requires
                qa + 1 <= qb,
                size > 0,
        ;
    } else {
        assert(size * qb + size <= size * qa) by (nonlinear_arith)
            requires
                qb + 1 <= qa,
                size > 0,
        ;
    }
}

/// In every frame the user headroom ends exactly where the data segment
/// begins, the two do not overlap, and the tail of the headroom that the
/// headroom slices hand out ends there too.
pub proof fn lemma_headroom_precedes_data(r: RegionView, desc: FrameDesc, delta: usize)
    requires
        r.wf(),
        r.names_frame(desc),
        delta <= r.layout.frame_headroom,
    ensures
        r.headroom_buf(desc).end() == r.data_buf(desc).offset,
        r.headroom_buf(desc).disjoint(r.data_buf(desc)),
        r.headroom_tail(desc, delta).end() == r.data_buf(desc).offset,
        r.headroom_tail(desc, delta).within(
            r.headroom_buf(desc).offset as int,
            r.headroom_buf(desc).end(),
        ),
{
}

/// After the first `length` bytes of a frame's data segment have been
/// handed out to be written, reading the frame's data gives back exactly
/// those bytes, and the descriptor still belongs to the region.
pub proof fn lemma_data_write_then_read(r: RegionView, desc: FrameDesc, length: usize)
    requires
        r.wf(),
        r.names_frame(desc),
        length <= r.layout.mtu,
    ensures
        r.data_seg(desc.with_data_len(length)) == r.data_head(desc, length),
        r.data_seg(desc.with_data_len(length)).offset == desc.addr,
        r.data_seg(desc.with_data_len(length)).len == length,
        r.names_frame(desc.with_data_len(length)),
{
}

/// After the last `delta` bytes of a frame's headroom have been handed out
/// to be written, reading that tail gives back the same bytes, and the
/// descriptor records a headroom of `delta` bytes.
pub proof fn lemma_headroom_write_then_read(r: RegionView, desc: FrameDesc, delta: usize)
    requires
        r.wf(),
        r.names_frame(desc),
        delta <= r.layout.frame_headroom,
    ensures
        r.headroom_tail(desc.with_headroom_len(delta), delta) == r.headroom_tail(desc, delta),
        r.headroom_seg(desc.with_headroom_len(delta)).len == delta,
        r.headroom_tail(desc.with_headroom_len(delta), delta).offset == desc.addr - delta,
        r.headroom_tail(desc.with_headroom_len(delta), delta).len == delta,
        r.names_frame(desc.with_headroom_len(delta)),
{
}

/// How every frame of the region is cut up: from the frame's first byte,
/// the XDP headroom of `xdp_headroom` bytes, then the writable user headroom
/// of `frame_headroom` bytes, ending where the descriptor's address points,
/// then the writable data segment of `mtu` bytes, ending at the frame's end.
/// The two writable buffers never reach into the XDP headroom.
pub proof fn lemma_frame_parts(r: RegionView, desc: FrameDesc)
    requires
        r.wf(),
        r.names_frame(desc),
    ensures
        r.headroom_buf(desc).offset == r.frame_start(desc) + r.layout.xdp_headroom,
        r.headroom_buf(desc).offset == desc.addr - r.layout.frame_headroom,
        r.headroom_buf(desc).len == r.layout.frame_headroom,
        r.headroom_buf(desc).end() == desc.addr,
        r.data_buf(desc).offset == desc.addr,
        r.data_buf(desc).len == r.layout.mtu,
        r.data_buf(desc).end() == r.frame_start(desc) + r.frame_size(),
        r.headroom_buf(desc).disjoint(
            Segment { offset: r.frame_start(desc) as usize, len: r.layout.xdp_headroom },
        ),
        r.data_buf(desc).disjoint(
            Segment { offset: r.frame_start(desc) as usize, len: r.layout.xdp_headroom },
        ),
{
}

/// The filled headroom and filled data of a frame start where the frame's
/// writable headroom and data segment start, hold as many bytes as the
/// descriptor records, and lie inside those writable buffers.
pub proof fn lemma_filled_segments(r: RegionView, desc: FrameDesc)
    requires
        r.wf(),
        r.owns(desc),
    ensures
        r.headroom_seg(desc).offset == desc.addr - r.layout.frame_headroom,
        r.headroom_seg(desc).offset == r.frame_start(desc) + r.layout.xdp_headroom,
        r.headroom_seg(desc).len == desc.lengths.headroom,
        r.data_seg(desc).offset == desc.addr,
        r.data_seg(desc).len == desc.lengths.data,
        r.headroom_seg(desc).within(
            desc.addr - r.layout.frame_headroom,
            desc.addr as int,
        ),
        r.data_seg(desc).within(desc.addr as int, desc.addr + r.layout.mtu),
{
}

/// The tail of the headroom handed out is exactly `delta` bytes and ends
/// where the data begins; the head of the data handed out is exactly
/// `length` bytes and starts where the data begins. Both lie inside the
/// frame's writable headroom and data segment respectively.
pub proof fn lemma_handed_out_slices(r: RegionView, desc: FrameDesc, delta: usize, length: usize)
    requires
        r.wf(),
        r.names_frame(desc),
        delta <= r.layout.frame_headroom,
        length <= r.layout.mtu,
    ensures
        r.headroom_tail(desc, delta).len == delta,
        r.headroom_tail(desc, delta).offset == desc.addr - delta,
        r.headroom_tail(desc, delta).end() == desc.addr,
        r.headroom_tail(desc, delta).within(
            desc.addr - r.layout.frame_headroom,
            desc.addr as int,
        ),
        r.data_head(desc, length).offset == desc.addr,
        r.data_head(desc, length).len == length,
        r.data_head(desc, length).within(desc.addr as int, desc.addr + r.layout.mtu),
        r.data_head(desc, length).offset == r.frame_start(desc) + r.layout.xdp_headroom
            + r.layout.frame_headroom,
{
}

} // verus!
