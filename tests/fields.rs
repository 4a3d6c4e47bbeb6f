use pdb_records::{
    get_charge, get_int, get_opt_char, get_opt_string, get_save_slice, get_string, IntError,
    ParseError,
};

#[test]
fn save_slice_within_line() {
    assert_eq!(get_save_slice("ABCDEFGH", 2, 5), "CDE");
}

#[test]
fn save_slice_past_end() {
    assert_eq!(get_save_slice("ABCDEFGH", 2, 50), "CDEFGH");
    assert_eq!(get_save_slice("ABCDEFGH", 0, 8), "ABCDEFGH");
}

#[test]
fn save_slice_start_past_end() {
    assert_eq!(get_save_slice("ABC", 5, 9), "");
}

#[test]
fn string_is_trimmed() {
    assert_eq!(get_string("ATOM     13  CG2 VAL", 13, 16), "CG2");
    assert_eq!(get_string("X\t yz \u{a0}", 2, 10), "yz");
}

#[test]
fn opt_string_blank_and_filled() {
    assert_eq!(get_opt_string("ABC      ", 4, 9), None);
    assert_eq!(get_opt_string("ABC   D  ", 4, 9), Some("D".to_string()));
}

#[test]
fn opt_char_cases() {
    assert_eq!(get_opt_char("AB D", 3), None);
    assert_eq!(get_opt_char("AB D", 4), Some('D'));
    assert_eq!(get_opt_char("AB D", 9), None);
}

#[test]
fn int_cases() {
    assert_eq!(get_int("  4294967295", 1, 12), Ok(4294967295));
    assert_eq!(
        get_int("  4294967296", 1, 12),
        Err(ParseError::InvalidInt(IntError::Overflow))
    );
    assert_eq!(
        get_int("      ", 1, 6),
        Err(ParseError::InvalidInt(IntError::Empty))
    );
    assert_eq!(
        get_int(" -3", 1, 3),
        Err(ParseError::InvalidInt(IntError::InvalidDigit))
    );
    assert_eq!(get_int("xx0042", 3, 6), Ok(42));
}

#[test]
fn charge_from_field() {
    assert_eq!(get_charge("ab3+", 3, 4), Ok(3));
    assert_eq!(get_charge("ab3-", 3, 4), Ok(-3));
    assert_eq!(get_charge("ab3 ", 3, 4), Ok(0));
    assert_eq!(get_charge("ab3?", 3, 4), Err(ParseError::InvalidCharge("3".to_string())));
}
