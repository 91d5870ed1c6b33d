use xsk_umem::uio::{chunk_lengths, expected_after_write, gather, gen_data, WRITE_LEN};

#[test]
fn gen_data_is_write_len_letters_and_digits() {
    let d = gen_data();
    assert_eq!(d.len(), WRITE_LEN);
    assert!(d.iter().all(|b| b.is_ascii_alphanumeric()));
    assert!(d.iter().any(|&b| b != d[0]));
}

fn check_chunks(len: usize, c: &[usize]) {
    assert_eq!(c.iter().sum::<usize>(), len);
    if len == 0 {
        assert!(c.is_empty());
        return;
    }
    let last = *c.last().unwrap();
    assert!(1 <= last && last <= 64);
    for &x in &c[..c.len() - 1] {
        assert!(64 <= x && x < 256);
    }
}

#[test]
fn chunk_lengths_cover_the_data() {
    for len in [0usize, 1, 63, 64, 65, 128, WRITE_LEN, 255, 256, 257, 1000] {
        let c = chunk_lengths(len);
        check_chunks(len, &c);
    }
}

#[test]
fn chunk_lengths_of_small_data_is_one_chunk() {
    assert_eq!(chunk_lengths(50), vec![50]);
    assert_eq!(chunk_lengths(64), vec![64]);
    assert!(chunk_lengths(0).is_empty());
}

#[test]
fn chunk_lengths_are_drawn_at_random() {
    let c = chunk_lengths(100_000);
    check_chunks(100_000, &c);
    assert!(c[..c.len() - 1].iter().any(|&x| x != 64));
}

#[test]
fn pwritev_at_offset_expected_contents() {
    let to_write: Vec<u8> = (0..128).collect();
    let expected: Vec<u8> = [vec![0; 100], to_write.clone()].concat();
    assert_eq!(expected_after_write(100, &to_write), expected);
}

#[test]
fn pwrite_at_offset_expected_contents() {
    let mut expected = vec![0u8; 8];
    expected.extend(vec![1; 8]);
    assert_eq!(expected_after_write(8, &[1u8; 8]), expected);
    assert_eq!(expected_after_write(0, &[]), Vec::<u8>::new());
    assert_eq!(expected_after_write(3, &[]), vec![0u8; 3]);
}

#[test]
fn gather_concatenates_chunks() {
    let to_write: Vec<u8> = (0..128).collect();
    let chunks = vec![to_write[0..17].to_vec(), to_write[17..64].to_vec(), to_write[64..128].to_vec()];
    assert_eq!(gather(&chunks), to_write);
    assert_eq!(gather(&vec![]), Vec::<u8>::new());
    assert_eq!(gather(&vec![vec![], vec![5], vec![]]), vec![5]);
}
