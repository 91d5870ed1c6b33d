use std::collections::VecDeque;
use xsk_umem::queue::Queue;

fn queue_of(items: &[usize]) -> Queue {
    let mut q = VecDeque::new();
    for &i in items {
        q.push_back(i);
    }
    Queue::init_queue(q)
}

#[test]
fn init_queue_hands_out_frames_front_first() {
    let mut q = queue_of(&[0, 1, 2]);
    assert_eq!(q.get_frame(), Some(0));
    assert_eq!(q.get_frame(), Some(1));
    assert_eq!(q.get_frame(), Some(2));
    assert_eq!(q.get_frame(), None);
}

#[test]
fn default_queue_is_empty() {
    let mut q = Queue::default();
    assert_eq!(q.get_frame(), None);
    assert_eq!(q.get_frame(), None);
}

#[test]
fn release_into_empty_then_get_returns_it() {
    let mut q = Queue::default();
    q.release_frame(5);
    assert_eq!(q.get_frame(), Some(5));
    assert_eq!(q.get_frame(), None);
}

#[test]
fn release_into_nonempty_waits_behind_the_others() {
    let mut q = queue_of(&[3, 4]);
    q.release_frame(9);
    assert_eq!(q.get_frame(), Some(3));
    assert_eq!(q.get_frame(), Some(4));
    assert_eq!(q.get_frame(), Some(9));
    assert_eq!(q.get_frame(), None);
}

#[test]
fn get_then_release_rotates_without_losing_frames() {
    let mut q = queue_of(&[7, 8, 9]);
    let f = q.get_frame().unwrap();
    q.release_frame(f);
    let mut out = Vec::new();
    while let Some(x) = q.get_frame() {
        out.push(x);
    }
    assert_eq!(out, vec![8, 9, 7]);
}

#[test]
fn released_frames_come_back_in_release_order() {
    let mut q = Queue::default();
    for i in [2usize, 0, 1] {
        q.release_frame(i);
    }
    assert_eq!(q.get_frame(), Some(2));
    assert_eq!(q.get_frame(), Some(0));
    assert_eq!(q.get_frame(), Some(1));
}

#[test]
fn cloned_queue_is_independent() {
    let mut q = queue_of(&[1, 2]);
    let mut c = q.clone();
    assert_eq!(q.get_frame(), Some(1));
    assert_eq!(c.get_frame(), Some(1));
    assert_eq!(c.get_frame(), Some(2));
    assert_eq!(q.get_frame(), Some(2));
}

#[test]
fn holds_frames_below_checks_count_and_indices() {
    let q = queue_of(&[0, 1, 2]);
    assert!(q.holds_frames_below(3, 3));
    assert!(q.holds_frames_below(0, 0));
    assert!(!q.holds_frames_below(4, 10));
    assert!(!q.holds_frames_below(3, 2));
    assert!(q.holds_frames_below(2, 2));
    assert!(!Queue::default().holds_frames_below(1, 10));
}

#[test]
fn takes_and_releases_neither_lose_nor_duplicate_frames() {
    let mut q = queue_of(&[0, 1, 2, 3]);
    let mut out = Vec::new();
    out.push(q.get_frame().unwrap());
    out.push(q.get_frame().unwrap());
    q.release_frame(out.remove(0));
    out.push(q.get_frame().unwrap());
    out.push(q.get_frame().unwrap());
    q.release_frame(out.pop().unwrap());
    let mut all = out.clone();
    while let Some(x) = q.get_frame() {
        all.push(x);
    }
    all.sort();
    assert_eq!(all, vec![0, 1, 2, 3]);
}
