use vstd::prelude::*;

verus! {

/// Lengths of the headroom and data segments that a frame currently holds.
#[derive(Clone, Copy, Debug, PartialEq, Eq, Structural)]
pub struct SegmentLengths {
    pub headroom: usize,
    pub data: usize,
}

/// Describes one frame of a UMEM region: `addr` is the offset of the
/// frame's data segment from the start of the region.
#[derive(Clone, Copy, Debug, PartialEq, Eq, Structural)]
pub struct FrameDesc {
    pub addr: usize,
    pub options: u32,
    pub lengths: SegmentLengths,
}

impl FrameDesc {
    /// The descriptor `self` with the headroom length set to `len`.
    pub open spec fn with_headroom_len(self, len: usize) -> FrameDesc {
        FrameDesc { lengths: SegmentLengths { headroom: len, data: self.lengths.data }, ..self }
    }

    /// The descriptor `self` with the data length set to `len`.
    pub open spec fn with_data_len(self, len: usize) -> FrameDesc {
        FrameDesc { lengths: SegmentLengths { headroom: self.lengths.headroom, data: len }, ..self }
    }

    /// A descriptor of the frame whose data segment starts at `addr`, with
    /// empty segments and no options.
    pub fn new(addr: usize) -> (res: FrameDesc)
        ensures
            res.addr == addr,
            res.options == 0,
            res.lengths.headroom == 0,
            res.lengths.data == 0,
    {
        FrameDesc { addr, options: 0, lengths: SegmentLengths { headroom: 0, data: 0 } }
    }

    /// Records that the frame's headroom now holds `len` bytes.
    pub fn adjust_headroom(&mut self, len: usize)
        ensures
            *final(self) == old(self).with_headroom_len(len),
    {
        self.lengths.headroom = len;
    }

    /// Records that the frame's data segment now holds `len` bytes.
    pub fn adjust_data(&mut self, len: usize)
        ensures
            *final(self) == old(self).with_data_len(len),
    {
        self.lengths.data = len;
    }
}

/// How each frame of a region is cut up: first the XDP headroom reserved
/// for the kernel, then the user headroom, then the data segment of `mtu`
/// bytes.
#[derive(Clone, Copy, Debug, PartialEq, Eq, Structural)]
pub struct FrameLayout {
    pub xdp_headroom: usize,
    pub frame_headroom: usize,
    pub mtu: usize,
}

impl FrameLayout {
    /// The size of a whole frame.
    pub open spec fn spec_frame_size(self) -> int {
        self.xdp_headroom + self.frame_headroom + self.mtu
    }

    /// Offset of the data segment from the start of its frame.
    pub open spec fn data_start_in_frame(self) -> int {
        self.xdp_headroom + self.frame_headroom
    }

    /// A layout whose frames are non-empty and whose size fits in a `usize`.
    pub open spec fn wf(self) -> bool {
        0 < self.spec_frame_size() <= usize::MAX
    }

    /// The layout of frames of `frame_size` bytes with `frame_headroom`
    /// bytes of user headroom after `xdp_headroom` bytes of XDP headroom;
    /// the data segment takes the rest. `None` where the frame is empty or
    /// the two headrooms do not fit in it.
    pub fn new(xdp_headroom: usize, frame_headroom: usize, frame_size: usize) -> (res: Option<
        FrameLayout,
    >)
        ensures
            (xdp_headroom + frame_headroom > frame_size || frame_size == 0) <==> res is None,
            res matches Some(l) ==> {
                &&& l.xdp_headroom == xdp_headroom
                &&& l.frame_headroom == frame_headroom
                &&& l.mtu == frame_size - xdp_headroom - frame_headroom
                &&& l.spec_frame_size() == frame_size
                &&& l.wf()
            },
    {
        if frame_size == 0 || frame_headroom > frame_size || xdp_headroom > frame_size
            - frame_headroom {
            None
        } else {
            Some(
                FrameLayout {
                    xdp_headroom,
                    frame_headroom,
                    mtu: frame_size - frame_headroom - xdp_headroom,
                },
            )
        }
    }

    /// The size of a whole frame: both headrooms and the data segment.
    pub fn frame_size(&self) -> (res: usize)
        requires
            self.spec_frame_size() <= usize::MAX,
        ensures
            res == self.spec_frame_size(),
    {
        self.xdp_headroom + self.frame_headroom + self.mtu
    }
}

/// A byte range of a region: `len` bytes from `offset`.
#[derive(Clone, Copy, Debug, PartialEq, Eq, Structural)]
pub struct Segment {
    pub offset: usize,
    pub len: usize,
}

impl Segment {
    /// One past the last byte of the segment.
    pub open spec fn end(self) -> int {
        self.offset + self.len
    }

    /// The segment lies in the byte range `[lo, hi)`.
    pub open spec fn within(self, lo: int, hi: int) -> bool {
        lo <= self.offset && self.end() <= hi
    }

    /// The two segments share no byte.
    pub open spec fn disjoint(self, other: Segment) -> bool {
        self.end() <= other.offset || other.end() <= self.offset || self.len == 0 || other.len
            == 0
    }
}

} // verus!
