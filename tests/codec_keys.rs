use placement_center::codec::{log_index, log_key};

#[test]
fn log_key_is_big_endian() {
    assert_eq!(log_key(1), vec![0, 0, 0, 0, 0, 0, 0, 1]);
    assert_eq!(log_key(0x0102030405060708), vec![1, 2, 3, 4, 5, 6, 7, 8]);
    assert_eq!(log_key(u64::MAX), vec![255; 8]);
}

#[test]
fn log_index_reads_back_the_key() {
    for n in [0u64, 1, 255, 256, 70000, u64::MAX - 1] {
        assert_eq!(log_index(&log_key(n)), Some(n));
    }
}

#[test]
fn log_index_refuses_other_lengths() {
    assert_eq!(log_index(&vec![0, 1, 2, 3, 4, 5, 6]), None);
    assert_eq!(log_index(&vec![0; 9]), None);
    assert_eq!(log_index(&Vec::new()), None);
}

#[test]
fn log_keys_sort_like_indexes() {
    let pairs = [(1u64, 2u64), (255, 256), (65535, 65536), (7, 1 << 40)];
    for (a, b) in pairs {
        assert!(log_key(a) < log_key(b));
    }
}
