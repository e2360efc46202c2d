use scarlet::hex_code::{parse_hex_code, HexCodeError, Rgb8};

fn rgb(r: u8, g: u8, b: u8) -> Rgb8 {
    Rgb8 { r, g, b }
}

#[test]
fn parses_lower_case_code() {
    assert_eq!(parse_hex_code("#ff0000"), Ok(rgb(255, 0, 0)));
    assert_eq!(parse_hex_code("#0000ff"), Ok(rgb(0, 0, 255)));
}

#[test]
fn parses_upper_and_mixed_case_codes() {
    assert_eq!(parse_hex_code("#CC0000"), Ok(rgb(204, 0, 0)));
    assert_eq!(parse_hex_code("#0000CC"), Ok(rgb(0, 0, 204)));
    assert_eq!(parse_hex_code("#aBcDeF"), Ok(rgb(0xAB, 0xCD, 0xEF)));
    assert_eq!(parse_hex_code("#09afAF"), Ok(rgb(0x09, 0xAF, 0xAF)));
}

#[test]
fn rejects_malformed_codes() {
    let bad = [
        "", "#", "ff0000", "#ff000", "#ff00000", "#gg0000", " #ff0000", "#ff0000 ", "#fff",
        "0#ff000", "#ff00\u{e9}0", "#ff 000", "##ff000",
    ];
    for s in bad.iter() {
        assert_eq!(parse_hex_code(s), Err(HexCodeError::InvalidHexSyntax), "{:?}", s);
    }
}

#[test]
fn writes_upper_case_code() {
    assert_eq!(rgb(238, 0, 17).to_hex_code(), "#EE0011");
    assert_eq!(rgb(204, 0, 51).to_hex_code(), "#CC0033");
    assert_eq!(rgb(136, 0, 68).to_hex_code(), "#880044");
    assert_eq!(rgb(153, 0, 51).to_hex_code(), "#990033");
    assert_eq!(rgb(0, 0, 0).to_hex_code(), "#000000");
    assert_eq!(rgb(255, 255, 255).to_hex_code(), "#FFFFFF");
    assert_eq!(rgb(0x0A, 0xB0, 0x9F).to_hex_code(), "#0AB09F");
}

#[test]
fn hex_code_round_trips() {
    for v in [0u8, 1, 9, 10, 15, 16, 127, 128, 200, 254, 255].iter() {
        let c = rgb(*v, 255 - *v, v.wrapping_mul(7));
        assert_eq!(parse_hex_code(&c.to_hex_code()), Ok(c));
    }
    let upper = parse_hex_code("#ee0011").unwrap().to_hex_code();
    assert_eq!(upper, "#EE0011");
}
