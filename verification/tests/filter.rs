use bloom_filter::{BloomFilter, FilterError};

fn filter(capacity: i32) -> BloomFilter {
    BloomFilter::new(capacity).unwrap()
}

fn set_slots(filter: &BloomFilter) -> Vec<i32> {
    (0..filter.capacity()).filter(|&i| filter.test_bit(i)).collect()
}

#[test]
fn zero_capacity_is_refused() {
    assert_eq!(BloomFilter::new(0).unwrap_err(), FilterError::InvalidCapacity);
}

#[test]
fn negative_capacity_is_refused() {
    assert_eq!(BloomFilter::new(-1).unwrap_err(), FilterError::InvalidCapacity);
    assert_eq!(BloomFilter::new(-800).unwrap_err(), FilterError::InvalidCapacity);
    assert_eq!(BloomFilter::new(i32::MIN).unwrap_err(), FilterError::InvalidCapacity);
}

#[test]
fn smallest_capacity_is_accepted() {
    let made = BloomFilter::new(1);
    assert!(made.is_ok());
    assert_eq!(made.unwrap().capacity(), 1);
}

#[test]
fn capacity_is_what_was_asked_for() {
    for capacity in [1, 7, 8, 9, 100, 800, 10_000] {
        assert_eq!(filter(capacity).capacity(), capacity);
    }
}

#[test]
fn storage_has_one_byte_per_eight_slots_rounded_up() {
    let expected = [(1, 1), (7, 1), (8, 1), (9, 2), (16, 2), (17, 3), (800, 100), (801, 101), (10_000, 1250)];
    for (capacity, bytes) in expected {
        assert_eq!(filter(capacity).as_bytes().len(), bytes);
    }
}

#[test]
fn fresh_filter_has_no_bit_set() {
    for capacity in [1, 9, 800] {
        let fresh = filter(capacity);
        assert!(fresh.as_bytes().iter().all(|&byte| byte == 0));
        assert_eq!(set_slots(&fresh), Vec::<i32>::new());
    }
}

#[test]
fn fresh_filter_reports_nothing() {
    let fresh = filter(800);
    for key in ["hello", "world", "", "a"] {
        let (_, _, present) = fresh.contains(key.as_bytes());
        assert!(!present);
    }
}

#[test]
fn set_bit_sets_bit_of_byte() {
    let mut bits = filter(20);
    bits.set_bit(3);
    assert_eq!(bits.as_bytes(), &[0b0000_1000, 0, 0]);
    bits.set_bit(0);
    assert_eq!(bits.as_bytes(), &[0b0000_1001, 0, 0]);
    bits.set_bit(8);
    assert_eq!(bits.as_bytes(), &[0b0000_1001, 0b0000_0001, 0]);
    bits.set_bit(15);
    assert_eq!(bits.as_bytes(), &[0b0000_1001, 0b1000_0001, 0]);
    bits.set_bit(19);
    assert_eq!(bits.as_bytes(), &[0b0000_1001, 0b1000_0001, 0b0000_1000]);
    assert_eq!(set_slots(&bits), vec![0, 3, 8, 15, 19]);
}

#[test]
fn set_bit_twice_is_set_bit_once() {
    let mut bits = filter(20);
    bits.set_bit(13);
    let once = bits.as_bytes().to_vec();
    bits.set_bit(13);
    assert_eq!(bits.as_bytes(), &once[..]);
    assert_eq!(once, vec![0, 0b0010_0000, 0]);
}

#[test]
fn test_bit_reads_each_slot() {
    let mut bits = filter(9);
    for index in 0..9 {
        assert!(!bits.test_bit(index));
    }
    bits.set_bit(8);
    for index in 0..8 {
        assert!(!bits.test_bit(index));
    }
    assert!(bits.test_bit(8));
}

#[test]
fn last_slot_of_a_full_byte_can_be_set() {
    let mut bits = filter(8);
    bits.set_bit(7);
    assert_eq!(bits.as_bytes(), &[0b1000_0000]);
    assert!(bits.test_bit(7));
}

#[test]
fn add_sets_the_slot_of_the_key() {
    let mut bloom = filter(800);
    bloom.add(b"hello");
    assert_eq!(set_slots(&bloom), vec![643]);
    let bytes = bloom.as_bytes();
    assert_eq!(bytes[80], 0b0000_1000);
    assert_eq!(bytes.iter().filter(|&&byte| byte != 0).count(), 1);
    bloom.add(b"world");
    assert_eq!(set_slots(&bloom), vec![643, 701]);
    bloom.add(b"");
    assert_eq!(set_slots(&bloom), vec![572, 643, 701]);
}

#[test]
fn add_keeps_the_capacity() {
    let mut bloom = filter(800);
    bloom.add(b"hello");
    bloom.add(b"world");
    assert_eq!(bloom.capacity(), 800);
    assert_eq!(bloom.as_bytes().len(), 100);
}

#[test]
fn add_never_clears_a_bit() {
    let mut bloom = filter(64);
    let mut seen: Vec<i32> = Vec::new();
    for i in 0..200 {
        bloom.add(format!("key-{}", i).as_bytes());
        let now = set_slots(&bloom);
        assert!(seen.iter().all(|slot| now.contains(slot)));
        assert!(now.len() <= seen.len() + 1);
        seen = now;
    }
}

#[test]
fn add_twice_is_add_once() {
    let mut once = filter(800);
    once.add(b"hello");
    let mut twice = filter(800);
    twice.add(b"hello");
    twice.add(b"hello");
    assert_eq!(once.as_bytes(), twice.as_bytes());
    assert_eq!(once.capacity(), twice.capacity());
}

#[test]
fn add_twice_is_add_once_among_other_keys() {
    let mut once = filter(100);
    let mut twice = filter(100);
    for key in ["alpha", "beta", "gamma"] {
        once.add(key.as_bytes());
        twice.add(key.as_bytes());
    }
    twice.add(b"beta");
    assert_eq!(once.as_bytes(), twice.as_bytes());
}

#[test]
fn order_of_insertion_does_not_matter() {
    let mut forward = filter(100);
    let mut backward = filter(100);
    let keys = ["alpha", "beta", "gamma", "delta"];
    for key in keys {
        forward.add(key.as_bytes());
    }
    for key in keys.iter().rev() {
        backward.add(key.as_bytes());
    }
    assert_eq!(forward.as_bytes(), backward.as_bytes());
}

#[test]
fn contains_returns_key_index_and_answer() {
    let mut bloom = filter(800);
    assert_eq!(bloom.contains(b"hello"), (b"hello".to_vec(), 643, false));
    bloom.add(b"hello");
    assert_eq!(bloom.contains(b"hello"), (b"hello".to_vec(), 643, true));
    assert_eq!(bloom.contains(b"world"), (b"world".to_vec(), 701, false));
    assert_eq!(bloom.contains(b""), (Vec::new(), 572, false));
}

#[test]
fn contains_does_not_change_the_filter() {
    let mut bloom = filter(800);
    bloom.add(b"hello");
    let before = bloom.as_bytes().to_vec();
    bloom.contains(b"world");
    bloom.contains(b"hello");
    assert_eq!(bloom.as_bytes(), &before[..]);
}

#[test]
fn keys_need_not_be_text() {
    let key = [0xff, 0xfe, 0x00, 0x80];
    let mut bloom = filter(100);
    bloom.add(&key);
    assert_eq!(bloom.contains(&key), (key.to_vec(), 99, true));
    assert_eq!(set_slots(&bloom), vec![99]);
}

#[test]
fn inserted_key_is_reported() {
    for capacity in [1, 2, 3, 8, 9, 100, 800, 10_000, i32::MAX / 1024] {
        let mut bloom = filter(capacity);
        for i in 0..50 {
            bloom.add(format!("key-{}", i).as_bytes());
        }
        for i in 0..50 {
            let (_, _, present) = bloom.contains(format!("key-{}", i).as_bytes());
            assert!(present);
        }
    }
}

#[test]
fn colliding_key_is_a_false_positive() {
    // In three slots "alpha" and "epsilon" both hash to slot 0, "delta" to slot 2.
    let mut bloom = filter(3);
    bloom.add(b"alpha");
    assert_eq!(bloom.contains(b"epsilon"), (b"epsilon".to_vec(), 0, true));
    assert_eq!(bloom.contains(b"delta"), (b"delta".to_vec(), 2, false));
}

#[test]
fn five_hundred_identifiers_are_all_reported() {
    let mut bloom = filter(800);
    let identifiers: Vec<String> = (0..500).map(|_| uuid::Uuid::new_v4().to_string()).collect();
    for identifier in &identifiers {
        bloom.add(identifier.as_bytes());
    }
    for identifier in &identifiers {
        let (key, index, present) = bloom.contains(identifier.as_bytes());
        assert_eq!(key, identifier.as_bytes());
        assert!(0 <= index && index < 800);
        assert!(present);
    }
}

#[test]
fn false_positive_rate_at_capacity_800() {
    let mut bloom = filter(800);
    for i in 0..500 {
        bloom.add(format!("present-{}", i).as_bytes());
    }
    let mut hits = 0;
    for i in 0..500 {
        let (_, _, present) = bloom.contains(format!("absent-{}", i).as_bytes());
        if present {
            hits += 1;
        }
    }
    assert_eq!(hits, 217);
    let rate = hits as f64 / 500.0;
    let predicted = 1.0 - (1.0 - 1.0 / 800.0_f64).powi(500);
    assert!(0.40 <= rate && rate <= 0.55);
    assert!((rate - predicted).abs() < 0.05);
}

#[test]
fn false_positive_rate_of_random_identifiers() {
    let mut bloom = filter(800);
    for _ in 0..500 {
        bloom.add(uuid::Uuid::new_v4().to_string().as_bytes());
    }
    let mut hits = 0;
    for _ in 0..500 {
        let (_, _, present) = bloom.contains(uuid::Uuid::new_v4().to_string().as_bytes());
        if present {
            hits += 1;
        }
    }
    let rate = hits as f64 / 500.0;
    let predicted = 1.0 - (1.0 - 1.0 / 800.0_f64).powi(500);
    assert!((rate - predicted).abs() < 0.15);
}

#[test]
fn single_slot_filter_is_saturated_by_one_key() {
    let mut bloom = filter(1);
    assert_eq!(bloom.as_bytes(), &[0]);
    bloom.add(b"any key");
    assert_eq!(bloom.as_bytes(), &[1]);
    for key in ["any key", "another", "", "hello", "world"] {
        assert_eq!(bloom.contains(key.as_bytes()), (key.as_bytes().to_vec(), 0, true));
    }
    for _ in 0..100 {
        let identifier = uuid::Uuid::new_v4().to_string();
        let (_, index, present) = bloom.contains(identifier.as_bytes());
        assert_eq!(index, 0);
        assert!(present);
    }
}

#[test]
fn bits_beyond_the_capacity_stay_clear() {
    let mut bloom = filter(9);
    for i in 0..100 {
        bloom.add(format!("key-{}", i).as_bytes());
    }
    assert_eq!(bloom.as_bytes(), &[0xff, 0x01]);
}
