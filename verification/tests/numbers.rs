use libreauth::otp::{get_code, get_key, get_output_base, write_code, HashFunction};
use libreauth::pass::decimal::{decimal_string, parse_decimal, parse_u32, parse_usize};
use libreauth::text::{ascii_string, bytes_eq, str_eq};

#[test]
fn numbers_are_read() {
    assert_eq!(parse_usize("0"), Some(0));
    assert_eq!(parse_usize("42"), Some(42));
    assert_eq!(parse_usize("+42"), Some(42));
    assert_eq!(parse_usize("0042"), Some(42));
    assert_eq!(parse_usize(&usize::MAX.to_string()), Some(usize::MAX));
    assert_eq!(parse_u32("4294967295"), Some(u32::MAX));
    assert_eq!(parse_decimal("18446744073709551615", u64::MAX), Some(u64::MAX));
    assert_eq!(parse_decimal("7", 7), Some(7));
}

#[test]
fn what_is_no_number_is_not_read() {
    for s in ["", "+", "-", "-1", "++1", "4a", "a4", " 4", "4 ", "4.0", "١٢"] {
        assert_eq!(parse_usize(s), None, "{:?}", s);
        assert_eq!(parse_usize(s), s.parse::<usize>().ok(), "{:?}", s);
    }
    assert_eq!(parse_u32("4294967296"), None);
    assert_eq!(parse_usize("99999999999999999999999999"), None);
    assert_eq!(parse_decimal("18446744073709551616", u64::MAX), None);
    assert_eq!(parse_decimal("8", 7), None);
    assert_eq!(parse_decimal("10", 7), None);
}

#[test]
fn numbers_are_read_as_the_standard_library_reads_them() {
    for s in ["0", "1", "+1", "007", "65536", "+0", "00", "18446744073709551615", "1e3"] {
        assert_eq!(parse_usize(s), s.parse::<usize>().ok(), "{:?}", s);
        assert_eq!(parse_u32(s), s.parse::<u32>().ok(), "{:?}", s);
    }
}

#[test]
fn numbers_are_written() {
    assert_eq!(decimal_string(0), "0");
    assert_eq!(decimal_string(7), "7");
    assert_eq!(decimal_string(10), "10");
    assert_eq!(decimal_string(45000), "45000");
    assert_eq!(decimal_string(u64::MAX), "18446744073709551615");
    for n in [0u64, 9, 10, 99, 100, 128, 1024, 200000] {
        assert_eq!(parse_decimal(&decimal_string(n), u64::MAX), Some(n));
    }
}

#[test]
fn text_helpers() {
    assert!(str_eq("norm", "norm"));
    assert!(!str_eq("norm", "nor"));
    assert!(!str_eq("pmin", "pmax"));
    assert!(str_eq("", ""));
    assert!(bytes_eq(&[1, 2, 3], &[1, 2, 3]));
    assert!(!bytes_eq(&[1, 2, 3], &[1, 2, 4]));
    assert!(!bytes_eq(&[1, 2, 3], &[1, 2]));
    assert_eq!(ascii_string(b"$argon2$x", 1, 7), "argon2");
    assert_eq!(ascii_string(b"abc", 1, 1), "");
}

#[test]
fn a_code_is_written_with_its_terminator() {
    let mut dest = [0xaau8; 8];
    write_code(&vec![0x31, 0x32, 0x33], &mut dest);
    assert_eq!(dest, [0x31, 0x32, 0x33, 0, 0xaa, 0xaa, 0xaa, 0xaa]);
    let mut dest = [0xaau8; 1];
    write_code(&vec![], &mut dest);
    assert_eq!(dest, [0]);
}

#[test]
fn what_a_caller_hands_over() {
    assert_eq!(get_code(None), Err(3));
    assert_eq!(get_code(Some(&[0xff, 0xfe])), Err(4));
    assert_eq!(get_code(Some(&[0xc3])), Err(4));
    assert_eq!(get_code(Some(b"123456")), Ok("123456".to_string()));
    assert_eq!(get_code(Some(&[0xc3, 0xa9])), Ok("\u{e9}".to_string()));
    assert_eq!(get_code(Some(b"")), Ok(String::new()));

    assert_eq!(get_output_base(None), Ok(b"0123456789".to_vec()));
    assert_eq!(get_output_base(Some(b"")), Err(4));
    assert_eq!(get_output_base(Some(b"01")), Ok(b"01".to_vec()));

    assert_eq!(get_key(None), Err(6));
    assert_eq!(get_key(Some(b"")), Err(5));
    assert_eq!(get_key(Some(&[1, 2, 3])), Ok(vec![1, 2, 3]));
}

#[test]
fn hash_functions_of_codes() {
    let all = [HashFunction::Sha1, HashFunction::Sha256, HashFunction::Sha512];
    assert_ne!(all[0], all[1]);
    assert_ne!(all[1], all[2]);
    assert_eq!(all[2], HashFunction::Sha512);
}
