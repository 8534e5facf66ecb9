use bytecalc::format::as_bin;

#[test]
fn as_bin_pads_to_whole_bytes() {
    assert_eq!(as_bin(0), "00000000");
    assert_eq!(as_bin(1), "00000001");
    assert_eq!(as_bin(42), "00101010");
    assert_eq!(as_bin(255), "11111111");
}

#[test]
fn as_bin_groups_by_eight() {
    assert_eq!(as_bin(256), "00000001 00000000");
    assert_eq!(as_bin(0xabcd), "10101011 11001101");
    assert_eq!(as_bin(1 << 16), "00000001 00000000 00000000");
    assert_eq!(
        as_bin(u64::MAX),
        "11111111 11111111 11111111 11111111 11111111 11111111 11111111 11111111"
    );
}

#[test]
fn as_bin_agrees_with_binary_formatting() {
    for number in [0u64, 1, 7, 128, 255, 256, 1023, 1024, 65535, 65536, 1 << 40, u64::MAX / 3] {
        let digits: String = as_bin(number).chars().filter(|c| *c != ' ').collect();
        assert_eq!(digits.len() % 8, 0);
        assert_eq!(u64::from_str_radix(&digits, 2), Ok(number));
        let plain = format!("{:b}", number);
        assert!(digits.ends_with(&plain));
        assert!(digits.len() < plain.len() + 8);
    }
}
