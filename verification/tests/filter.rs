use memscan::filter::filter_addresses;

#[test]
fn filter_keeps_addresses_whose_word_is_the_value() {
    let mut addresses = vec![0x10, 0x18, 0x20, 0x28, 0x30];
    filter_addresses(&mut addresses, &[42, 7, 42, 42, 0], 42);
    assert_eq!(addresses, vec![0x10, 0x20, 0x28]);
}

#[test]
fn filter_keeps_the_order() {
    let mut addresses = vec![0x10, 0x18, 0x20, 0x28];
    filter_addresses(&mut addresses, &[0, 1, 1, 1], 1);
    assert_eq!(addresses, vec![0x18, 0x20, 0x28]);
    let mut addresses = vec![0x30, 0x10, 0x20];
    filter_addresses(&mut addresses, &[5, 0, 5], 5);
    assert_eq!(addresses, vec![0x30, 0x20]);
}

#[test]
fn filter_never_makes_the_list_longer() {
    let cases: [(&[usize], usize); 4] =
        [(&[1, 1, 1], 1), (&[1, 2, 3], 2), (&[1, 2, 3], 9), (&[9, 9, 1], 9)];
    for (words, value) in cases {
        let mut addresses = vec![8, 16, 24];
        filter_addresses(&mut addresses, words, value);
        assert!(addresses.len() <= 3);
    }
}

#[test]
fn filter_leaves_a_list_whose_words_all_match() {
    let mut addresses = vec![8, 16, 24];
    filter_addresses(&mut addresses, &[4, 4, 4], 4);
    assert_eq!(addresses, vec![8, 16, 24]);
}

#[test]
fn filter_is_idempotent_while_memory_stays() {
    let memory = |address: usize| if address % 16 == 0 { 42 } else { address };
    let mut addresses: Vec<usize> = (1..=12).map(|k| k * 8).collect();
    let words: Vec<usize> = addresses.iter().map(|a| memory(*a)).collect();
    filter_addresses(&mut addresses, &words, 42);
    assert_eq!(addresses, vec![16, 32, 48, 64, 80, 96]);
    let once = addresses.clone();
    let words: Vec<usize> = addresses.iter().map(|a| memory(*a)).collect();
    filter_addresses(&mut addresses, &words, 42);
    assert_eq!(addresses, once);
}

#[test]
fn filter_may_leave_nothing() {
    let mut addresses = vec![8];
    filter_addresses(&mut addresses, &[1], 2);
    assert!(addresses.is_empty());
}
