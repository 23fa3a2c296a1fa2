use rand_str_gen::sample::{
    gen_rand_char, gen_rand_string, generate_strings, index_for_byte, sample_from_bytes,
};

#[test]
fn test() {
    // --- SMALLER TESTS ---
    assert_eq!(gen_rand_string(&[], 5).unwrap().as_str(), "");
    assert_eq!(gen_rand_string(&[], 0).unwrap().as_str(), "");
    assert_eq!(gen_rand_string(&['a'], 0).unwrap().as_str(), "");
    for _ in 0..100 {
        assert_eq!(gen_rand_string(&['a'], 1).unwrap().as_str(), "a");
    }

    // --- BIGGER TESTS ---
    println!("\ntesting pool of size 1");

    let pool = ['a'];
    for _ in 0..10_000_000 {
        // every draw from a one-character pool is that character
        let c = gen_rand_char(&pool).unwrap();
        assert_eq!(c, 'a');
    }
    println!("done\ntesting pool of size 2");

    let pool = ['a', 'b'];
    for _ in 0..10_000_000 {
        let c = gen_rand_char(&pool).unwrap();
        assert!(c == 'a' || c == 'b');
    }

    println!("done\nchecking distrobution");

    // the two characters should come out about equally often
    let mut a_count: i32 = 0;
    let mut b_count: i32 = 0;
    for _ in 0..10_000_000 {
        let c = gen_rand_char(&pool).unwrap();
        match c {
            'a' => a_count += 1,
            'b' => b_count += 1,
            _ => unreachable!(),
        }
    }
    let diff = (a_count - b_count).abs();

    println!(" - a_count: {a_count}");
    println!(" - b_count: {b_count}");
    println!(" - diff: {diff}");

    // 10,000 out of 10M draws is 0.1% of the total
    assert!(diff < 10_000);

    println!("done");
}

#[test]
fn byte_index_rounds_to_nearest() {
    assert_eq!(index_for_byte(0, 2), 0);
    assert_eq!(index_for_byte(127, 2), 0);
    assert_eq!(index_for_byte(128, 2), 1);
    assert_eq!(index_for_byte(255, 2), 1);
    assert_eq!(index_for_byte(63, 3), 0);
    assert_eq!(index_for_byte(64, 3), 1);
    assert_eq!(index_for_byte(191, 3), 1);
    assert_eq!(index_for_byte(192, 3), 2);
    assert_eq!(index_for_byte(255, 69), 68);
    assert_eq!(index_for_byte(200, 1), 0);
    assert_eq!(index_for_byte(255, usize::MAX), usize::MAX - 1);
}

#[test]
fn two_pool_splits_bytes_in_half() {
    let low = (0u16..256).filter(|b| index_for_byte(*b as u8, 2) == 0).count();
    assert_eq!(low, 128);
}

#[test]
fn bytes_map_onto_pool() {
    let pool = ['a', 'b', 'c'];
    let bytes = [0u8, 63, 64, 127, 128, 191, 192, 255];
    assert_eq!(sample_from_bytes(&pool, &bytes), "aabbbbcc");
    assert_eq!(sample_from_bytes(&[], &bytes), "");
    assert_eq!(sample_from_bytes(&pool, &[]), "");
}

#[test]
fn sample_has_length_and_members() {
    let pool = ['x', 'y', 'z', '7'];
    for len in [0usize, 1, 17, 300] {
        let s = gen_rand_string(&pool, len).unwrap();
        assert_eq!(s.chars().count(), len);
        assert!(s.chars().all(|c| pool.contains(&c)));
    }
}

#[test]
fn random_bytes_are_drawn() {
    let s = gen_rand_string(&['a', 'b'], 1000).unwrap();
    assert!(s.contains('a'));
    assert!(s.contains('b'));
}

#[test]
fn repeat_gives_independent_strings() {
    let pool: Vec<char> = "0123456789".chars().collect();
    let v = generate_strings(&pool, 12, 3).unwrap();
    assert_eq!(v.len(), 3);
    for s in &v {
        assert_eq!(s.chars().count(), 12);
        assert!(s.chars().all(|c| c.is_ascii_digit()));
    }
    assert!(generate_strings(&pool, 5, 0).unwrap().is_empty());
}

#[test]
fn repeat_without_random_bytes_gives_empty_strings() {
    let v = generate_strings(&vec!['a', 'b'], 0, 4).unwrap();
    assert_eq!(v, vec![String::new(); 4]);
    let v = generate_strings(&Vec::new(), 9, 2).unwrap();
    assert_eq!(v, vec![String::new(); 2]);
}
