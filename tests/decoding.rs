use pdb_records::{Date, Entry, IntError, ParseError};

fn atom_line(tail: &str) -> String {
    let mut line =
        "ATOM     13  CG2 VAL A  97     114.726  77.558 -32.731  1.00 20.45           C".to_string();
    line.push_str(tail);
    line
}

#[test]
fn header_other_date() {
    let line =
        "HEADER    HYDROLASE                               05-SEP-98   1ABC              ";
    let result = Entry::Header(
        "HYDROLASE".to_string(),
        Date { year: 1998, month: 9, day: 5 },
        "1ABC".to_string(),
    );
    assert_eq!(result, Entry::from_str(line).unwrap());
}

#[test]
fn header_bad_date() {
    let line =
        "HEADER    CELL CYCLE                              30-XYZ-12   4AGL              ";
    assert_eq!(
        Entry::from_str(line),
        Err(ParseError::InvalidDate("30-XYZ-12".to_string()))
    );
}

#[test]
fn title_blank_continuation_short_line() {
    assert_eq!(
        Entry::from_str("TITLE     A"),
        Ok(Entry::Title(1, "A".to_string()))
    );
}

#[test]
fn title_bad_continuation() {
    assert_eq!(
        Entry::from_str("TITLE    x SMALL MOLECULE"),
        Err(ParseError::InvalidInt(IntError::InvalidDigit))
    );
}

#[test]
fn seqres_missing_count() {
    let line = "SEQRES   2 A       TYR GLY";
    assert_eq!(
        Entry::from_str(line),
        Err(ParseError::InvalidInt(IntError::Empty))
    );
}

#[test]
fn seqres_truncated_line() {
    let line = "SEQRES   1 C    2  GLY   ALA";
    let result = Entry::Seqres(1, Some('C'), 2, vec!["GLY".to_string(), "ALA".to_string()]);
    assert_eq!(result, Entry::from_str(line).unwrap());
}

#[test]
fn charge_positive() {
    match Entry::from_str(&atom_line("2+")).unwrap() {
        Entry::Atom(_, _, _, _, _, _, _, _, _, _, _, _, element, charge) => {
            assert_eq!(element, "C");
            assert_eq!(charge, 2);
        }
        _ => panic!("not an atom"),
    }
}

#[test]
fn charge_negative() {
    match Entry::from_str(&atom_line("1-")).unwrap() {
        Entry::Atom(_, _, _, _, _, _, _, _, _, _, _, _, _, charge) => assert_eq!(charge, -1),
        _ => panic!("not an atom"),
    }
}

#[test]
fn charge_blank() {
    match Entry::from_str(&atom_line("  ")).unwrap() {
        Entry::Atom(_, _, _, _, _, _, _, _, _, _, _, _, _, charge) => assert_eq!(charge, 0),
        _ => panic!("not an atom"),
    }
}

#[test]
fn charge_invalid_sign() {
    assert_eq!(
        Entry::from_str(&atom_line("2*")),
        Err(ParseError::InvalidCharge("2".to_string()))
    );
}

#[test]
fn charge_sign_without_digit() {
    assert_eq!(
        Entry::from_str(&atom_line(" +")),
        Err(ParseError::InvalidInt(IntError::Empty))
    );
}

#[test]
fn atom_bad_serial() {
    let line =
        "ATOM     1x  CG2 VAL A  97     114.726  77.558 -32.731  1.00 20.45           C  ";
    assert_eq!(
        Entry::from_str(line),
        Err(ParseError::InvalidInt(IntError::InvalidDigit))
    );
}

#[test]
fn master_bad_count() {
    let line = "MASTER      526    0    4    5   22    0    6    6 37z8    2   38   34";
    assert_eq!(
        Entry::from_str(line),
        Err(ParseError::InvalidInt(IntError::InvalidDigit))
    );
}

#[test]
fn unknown_keyword() {
    assert_eq!(
        Entry::from_str("FOOBAR   1 2 3"),
        Err(ParseError::UnknownEntry("FOOBAR".to_string()))
    );
}

#[test]
fn keyword_is_case_sensitive() {
    assert_eq!(
        Entry::from_str("atom     13"),
        Err(ParseError::UnknownEntry("atom  ".to_string()))
    );
}

#[test]
fn model_with_plus_sign() {
    assert_eq!(Entry::from_str("MODEL       +7"), Ok(Entry::Model(7)));
}
