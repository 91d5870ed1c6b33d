use xsk_umem::frame::{FrameDesc, FrameLayout, Segment};
use xsk_umem::region::UmemRegion;

fn layout() -> FrameLayout {
    FrameLayout::new(256, 256, 2048).unwrap()
}

fn region() -> UmemRegion {
    UmemRegion::new(3, layout())
}

fn overlap(a: Segment, b: Segment) -> bool {
    a.len > 0 && b.len > 0 && a.offset < b.offset + b.len && b.offset < a.offset + a.len
}

#[test]
fn new_region_spans_all_frames() {
    let r = region();
    assert_eq!(r.len(), 3 * 2048);
    assert_eq!(r.layout(), layout());
}

#[test]
fn frame_descs_name_each_frame_in_order() {
    let r = region();
    let descs = r.frame_descs();
    let addrs: Vec<usize> = descs.iter().map(|d| d.addr).collect();
    assert_eq!(addrs, vec![512, 2560, 4608]);
    for d in &descs {
        assert_eq!(d.lengths.headroom, 0);
        assert_eq!(d.lengths.data, 0);
        assert_eq!(d.options, 0);
    }
}

#[test]
fn new_region_has_no_available_frame() {
    let mut r = region();
    assert_eq!(r.get_frame(), None);
}

#[test]
fn region_queue_is_first_in_first_out() {
    let mut r = region();
    let descs = r.frame_descs();
    r.release_frame(descs[2]);
    r.release_frame(descs[0]);
    assert_eq!(r.get_frame(), Some(descs[2]));
    r.release_frame(descs[1]);
    assert_eq!(r.get_frame(), Some(descs[0]));
    assert_eq!(r.get_frame(), Some(descs[1]));
    assert_eq!(r.get_frame(), None);
}

#[test]
fn offsets_of_a_frame() {
    let r = region();
    let d = r.frame_descs()[1];
    assert_eq!(r.data_ptr(&d), 2560);
    assert_eq!(r.headroom_ptr(&d), 2560 - 256);
    assert_eq!(r.headroom_delta_ptr(&d, 11), 2560 - 11);
    assert_eq!(r.headroom_delta_ptr(&d, 0), 2560);
}

#[test]
fn filled_segments_follow_the_descriptor_lengths() {
    let r = region();
    let mut d = r.frame_descs()[0];
    assert_eq!(r.headroom(&d), Segment { offset: 256, len: 0 });
    assert_eq!(r.data(&d), Segment { offset: 512, len: 0 });
    d.adjust_headroom(20);
    d.adjust_data(100);
    assert_eq!(r.headroom(&d), Segment { offset: 256, len: 20 });
    assert_eq!(r.data(&d), Segment { offset: 512, len: 100 });
    assert_eq!(r.frame(&d), (Segment { offset: 256, len: 20 }, Segment { offset: 512, len: 100 }));
}

#[test]
fn writable_segments_are_whole_headroom_and_data() {
    let r = region();
    let mut d = r.frame_descs()[2];
    let h = Segment { offset: 4608 - 256, len: 256 };
    let m = Segment { offset: 4608, len: 1536 };
    assert_eq!(r.headroom_mut(&mut d).0, h);
    assert_eq!(r.data_mut(&mut d).0, m);
    let (fh, _, fm, _) = r.frame_mut(&mut d);
    assert_eq!((fh, fm), (h, m));
    assert_eq!(h.offset + h.len, m.offset);
    assert_eq!(m.offset + m.len, r.len());
}

#[test]
fn headroom_slices_take_the_tail_of_the_headroom() {
    let r = region();
    let mut d = r.frame_descs()[0];
    let before = d;
    let s = r.get_headroom_IoSliceMut(&mut d, 11);
    assert_eq!(s, Segment { offset: 512 - 11, len: 11 });
    assert_eq!(d.lengths.headroom, 11);
    assert_eq!(d.lengths.data, before.lengths.data);
    assert_eq!(d.addr, before.addr);
    assert_eq!(r.get_headroom_IoSlice(&d, 11), s);
    assert_eq!(r.headroom(&d).len, 11);
}

#[test]
fn data_written_is_the_data_read_back() {
    let r = region();
    let mut d = r.frame_descs()[1];
    let w = r.get_data_IoSliceMut(&mut d, 64);
    assert_eq!(w, Segment { offset: 2560, len: 64 });
    assert_eq!(d.lengths.data, 64);
    assert_eq!(r.get_data_IoSlice(&d), w);
    assert_eq!(r.data(&d), w);
}

#[test]
fn whole_data_segment_can_be_handed_out() {
    let r = region();
    let mut d = r.frame_descs()[2];
    let w = r.get_data_IoSliceMut(&mut d, 1536);
    assert_eq!(w.offset + w.len, r.len());
    let h = r.get_headroom_IoSliceMut(&mut d, 256);
    assert_eq!(h, r.headroom_mut(&mut d).0);
}

#[test]
fn segments_of_distinct_frames_do_not_overlap() {
    let r = region();
    let descs = r.frame_descs();
    let segs = |d: &FrameDesc| {
        let mut d = *d;
        vec![r.headroom_mut(&mut d).0, r.data_mut(&mut d).0]
    };
    for i in 0..descs.len() {
        for j in 0..descs.len() {
            if i != j {
                for a in segs(&descs[i]) {
                    for b in segs(&descs[j]) {
                        assert!(!overlap(a, b));
                    }
                }
            }
        }
        let mut d = descs[i];
        let (h, _, m, _) = r.frame_mut(&mut d);
        assert!(!overlap(h, m));
        assert!(m.offset + m.len <= r.len());
    }
}

#[test]
fn region_with_one_frame() {
    let mut r = UmemRegion::new(1, FrameLayout { xdp_headroom: 0, frame_headroom: 0, mtu: 1 });
    let descs = r.frame_descs();
    assert_eq!(descs.len(), 1);
    assert_eq!(descs[0].addr, 0);
    assert_eq!(r.len(), 1);
    r.release_frame(descs[0]);
    assert_eq!(r.get_frame(), Some(descs[0]));
}

#[test]
fn describes_accepts_own_frames_only() {
    let r = region();
    let descs = r.frame_descs();
    for d in &descs {
        assert!(r.describes(d));
    }
    assert!(!r.describes(&FrameDesc::new(511)));
    assert!(!r.describes(&FrameDesc::new(513)));
    assert!(!r.describes(&FrameDesc::new(0)));
    assert!(!r.describes(&FrameDesc::new(6656)));
    let mut d = descs[0];
    d.adjust_data(1537);
    assert!(!r.describes(&d));
    let mut d = descs[0];
    d.adjust_headroom(257);
    assert!(!r.describes(&d));
    let mut d = descs[0];
    d.adjust_headroom(256);
    d.adjust_data(1536);
    assert!(r.describes(&d));
}

#[test]
fn writable_segments_carry_the_descriptor_lengths() {
    let r = region();
    let mut d = r.frame_descs()[1];
    d.adjust_headroom(3);
    d.adjust_data(4);
    {
        let (_, h_len, _, d_len) = r.frame_mut(&mut d);
        assert_eq!((*h_len, *d_len), (3, 4));
        *h_len = 11;
        *d_len = 100;
    }
    assert_eq!(d.lengths.headroom, 11);
    assert_eq!(d.lengths.data, 100);
    assert_eq!(d.addr, 2560);
    {
        let (_, len) = r.headroom_mut(&mut d);
        assert_eq!(*len, 11);
        *len = 7;
    }
    {
        let (_, len) = r.data_mut(&mut d);
        assert_eq!(*len, 100);
        *len = 5;
    }
    assert_eq!(d.lengths.headroom, 7);
    assert_eq!(d.lengths.data, 5);
    assert_eq!(r.frame(&d), (Segment { offset: 2304, len: 7 }, Segment { offset: 2560, len: 5 }));
}

#[test]
fn names_checks_only_the_address() {
    let r = region();
    let mut d = r.frame_descs()[0];
    d.adjust_data(5000);
    assert!(r.names(&d));
    assert!(!r.describes(&d));
    let s = r.get_data_IoSliceMut(&mut d, 10);
    assert_eq!(s, Segment { offset: 512, len: 10 });
    assert!(r.describes(&d));
    assert!(!r.names(&FrameDesc::new(100)));
    assert_eq!(r.data_ptr(&FrameDesc::new(4608)), 4608);
}
