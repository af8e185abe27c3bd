use rustirc::hex::{from_hex, to_hex, BAD_DIGIT, BROKEN_PAIR, ODD_LENGTH};

fn encode(text: &str) -> String {
    let mut out = String::new();
    to_hex(text, &mut out);
    out
}

#[test]
fn to_hex_writes_two_lower_case_digits_per_character() {
    assert_eq!(encode("hi"), "6869");
    assert_eq!(encode("Az~ "), "417a7e20");
    assert_eq!(encode("\n\u{0}\u{7f}"), "0a007f");
    assert_eq!(encode(""), "");
}

#[test]
fn to_hex_appends_to_what_is_there() {
    let mut out = String::from("x-");
    to_hex("ok", &mut out);
    assert_eq!(out, "x-6f6b");
}

#[test]
fn to_hex_keeps_only_the_low_byte() {
    assert_eq!(encode("\u{e9}"), "e9");
    assert_eq!(encode("\u{15f}"), "5f");
    assert_eq!(encode("\u{1f600}"), "00");
}

#[test]
fn from_hex_reads_digits_of_either_case() {
    assert_eq!(from_hex("6869"), Ok(String::from("hi")));
    assert_eq!(from_hex("4A4b"), Ok(String::from("JK")));
    assert_eq!(from_hex(""), Ok(String::new()));
    assert_eq!(from_hex("e9ff00"), Ok(String::from("\u{e9}\u{ff}\u{0}")));
}

#[test]
fn from_hex_refuses_an_odd_length() {
    assert_eq!(from_hex("686"), Err(ODD_LENGTH));
    assert_eq!(from_hex("g"), Err(ODD_LENGTH));
    assert_eq!(
        from_hex("abc"),
        Err("Invalid hexadecimal input: length must be even.")
    );
}

#[test]
fn from_hex_refuses_what_is_no_digit() {
    assert_eq!(from_hex("6g"), Err(BAD_DIGIT));
    assert_eq!(from_hex("68zz69"), Err("Invalid hexadecimal value"));
    assert_eq!(from_hex("  "), Err(BAD_DIGIT));
    assert_eq!(from_hex("+f"), Err(BAD_DIGIT));
    assert_eq!(from_hex("-1"), Err(BAD_DIGIT));
    assert_eq!(from_hex("\u{e9}"), Err(BAD_DIGIT));
}

#[test]
fn from_hex_reports_the_first_fault() {
    assert_eq!(from_hex("a\u{e9}b"), Err(BROKEN_PAIR));
    assert_eq!(from_hex("zz\u{e9}b6"), Err(BAD_DIGIT));
    assert_eq!(from_hex("61\u{20ac}b"), Err("Invalid UTF-8 sequence"));
    assert_eq!(from_hex("\u{20ac}"), Err(ODD_LENGTH));
}

#[test]
fn hex_round_trip_on_printable_ascii() {
    let mut text = String::new();
    let mut code: u8 = 0x20;
    while code < 0x7f {
        text.push(code as char);
        code += 1;
    }
    assert_eq!(from_hex(&encode(&text)), Ok(text));
}

#[test]
fn hex_round_trip_on_every_code_point_below_256() {
    let mut text = String::new();
    let mut code: u32 = 0;
    while code < 256 {
        text.push(char::from_u32(code).unwrap());
        code += 1;
    }
    let hex = encode(&text);
    assert_eq!(hex.len(), 512);
    assert_eq!(from_hex(&hex), Ok(text));
}

#[test]
fn hex_round_trip_loses_what_is_above_the_low_byte() {
    assert_eq!(from_hex(&encode("\u{15f}")), Ok(String::from("_")));
}
