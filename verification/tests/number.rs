use memscan::number::{digit, parse_unsigned, Radix};

#[test]
fn decimal_numeral_has_its_value() {
    assert_eq!(parse_unsigned(b"42", Radix::Decimal), Some(42));
    assert_eq!(parse_unsigned(b"0", Radix::Decimal), Some(0));
    assert_eq!(parse_unsigned(b"007", Radix::Decimal), Some(7));
    assert_eq!(parse_unsigned(b"1234567890", Radix::Decimal), Some(1234567890));
}

#[test]
fn hexadecimal_numeral_has_its_value() {
    assert_eq!(parse_unsigned(b"7ffee0000000", Radix::Hexadecimal), Some(0x7ffee0000000));
    assert_eq!(parse_unsigned(b"ff", Radix::Hexadecimal), Some(255));
    assert_eq!(parse_unsigned(b"FF", Radix::Hexadecimal), Some(255));
    assert_eq!(parse_unsigned(b"10", Radix::Hexadecimal), Some(16));
}

#[test]
fn leading_plus_is_allowed() {
    assert_eq!(parse_unsigned(b"+42", Radix::Decimal), Some(42));
    assert_eq!(parse_unsigned(b"+a", Radix::Hexadecimal), Some(10));
}

#[test]
fn text_without_digits_is_no_numeral() {
    assert_eq!(parse_unsigned(b"", Radix::Decimal), None);
    assert_eq!(parse_unsigned(b"+", Radix::Decimal), None);
    assert_eq!(parse_unsigned(b"++1", Radix::Decimal), None);
}

#[test]
fn text_with_other_characters_is_no_numeral() {
    assert_eq!(parse_unsigned(b"-1", Radix::Decimal), None);
    assert_eq!(parse_unsigned(b"4 2", Radix::Decimal), None);
    assert_eq!(parse_unsigned(b"42\n", Radix::Decimal), None);
    assert_eq!(parse_unsigned(b"1f", Radix::Decimal), None);
    assert_eq!(parse_unsigned(b"1g", Radix::Hexadecimal), None);
    assert_eq!(parse_unsigned(b"0x10", Radix::Hexadecimal), None);
}

#[test]
fn largest_word_is_accepted_and_the_next_number_is_not() {
    let max = usize::MAX.to_string();
    assert_eq!(parse_unsigned(max.as_bytes(), Radix::Decimal), Some(usize::MAX));
    let mut beyond = max.into_bytes();
    let last = beyond.len() - 1;
    beyond[last] += 1;
    assert_eq!(parse_unsigned(&beyond, Radix::Decimal), None);
    let ones = vec![b'f'; (usize::BITS / 4) as usize];
    assert_eq!(parse_unsigned(&ones, Radix::Hexadecimal), Some(usize::MAX));
    let mut longer = ones.clone();
    longer.push(b'0');
    assert_eq!(parse_unsigned(&longer, Radix::Hexadecimal), None);
    let mut padded = vec![b'0'; 40];
    padded.extend_from_slice(&ones);
    assert_eq!(parse_unsigned(&padded, Radix::Hexadecimal), Some(usize::MAX));
}

#[test]
fn digits_have_their_values() {
    assert_eq!(digit(b'0', Radix::Decimal), Some(0));
    assert_eq!(digit(b'9', Radix::Decimal), Some(9));
    assert_eq!(digit(b'a', Radix::Decimal), None);
    assert_eq!(digit(b'a', Radix::Hexadecimal), Some(10));
    assert_eq!(digit(b'F', Radix::Hexadecimal), Some(15));
    assert_eq!(digit(b'g', Radix::Hexadecimal), None);
    assert_eq!(digit(b'/', Radix::Hexadecimal), None);
    assert_eq!(digit(b':', Radix::Hexadecimal), None);
    assert_eq!(Radix::Decimal.base(), 10);
    assert_eq!(Radix::Hexadecimal.base(), 16);
}

#[test]
fn numerals_are_read_as_std_reads_them() {
    let alphabet = [b'+', b'-', b'0', b'1', b'9', b'a', b'F', b'g', b' '];
    let mut text = Vec::new();
    for a in alphabet {
        for b in alphabet {
            for c in alphabet {
                for len in 0..=3 {
                    text.clear();
                    text.extend_from_slice(&[a, b, c][..len]);
                    let string = std::str::from_utf8(&text).unwrap();
                    assert_eq!(
                        parse_unsigned(&text, Radix::Decimal),
                        string.parse::<usize>().ok(),
                        "{string:?}"
                    );
                    assert_eq!(
                        parse_unsigned(&text, Radix::Hexadecimal),
                        usize::from_str_radix(string, 16).ok(),
                        "{string:?}"
                    );
                }
            }
        }
    }
}
