use slide_linker::color::hex_to_rgb;

#[test]
fn reads_six_hex_digits() {
    assert_eq!(hex_to_rgb("#63c8ff"), (99, 200, 255));
    assert_eq!(hex_to_rgb("#ff8000"), (255, 128, 0));
    assert_eq!(hex_to_rgb("#000000"), (0, 0, 0));
    assert_eq!(hex_to_rgb("#FFFFFF"), (255, 255, 255));
    assert_eq!(hex_to_rgb("#AbCdEf"), (0xab, 0xcd, 0xef));
}

#[test]
fn skips_every_leading_hash() {
    assert_eq!(hex_to_rgb("102030"), (0x10, 0x20, 0x30));
    assert_eq!(hex_to_rgb("##102030"), (0x10, 0x20, 0x30));
    assert_eq!(hex_to_rgb("###102030"), (0x10, 0x20, 0x30));
}

#[test]
fn ignores_what_follows_the_sixth_digit() {
    assert_eq!(hex_to_rgb("#10203040"), (0x10, 0x20, 0x30));
    assert_eq!(hex_to_rgb("#102030zz"), (0x10, 0x20, 0x30));
}

#[test]
fn falls_back_per_component() {
    assert_eq!(hex_to_rgb("#zz2030"), (99, 0x20, 0x30));
    assert_eq!(hex_to_rgb("#10zz30"), (0x10, 200, 0x30));
    assert_eq!(hex_to_rgb("#1020zz"), (0x10, 0x20, 255));
    assert_eq!(hex_to_rgb("#zzzzzz"), (99, 200, 255));
    assert_eq!(hex_to_rgb("#1g2030"), (99, 0x20, 0x30));
    assert_eq!(hex_to_rgb("#-12030"), (99, 0x20, 0x30));
}

#[test]
fn falls_back_where_digits_are_missing() {
    assert_eq!(hex_to_rgb(""), (99, 200, 255));
    assert_eq!(hex_to_rgb("#"), (99, 200, 255));
    assert_eq!(hex_to_rgb("#f"), (99, 200, 255));
    assert_eq!(hex_to_rgb("#ff"), (255, 200, 255));
    assert_eq!(hex_to_rgb("#fff"), (255, 200, 255));
    assert_eq!(hex_to_rgb("#ff80"), (255, 128, 255));
    assert_eq!(hex_to_rgb("#ff800"), (255, 128, 255));
}

#[test]
fn takes_a_plus_sign_and_one_digit() {
    assert_eq!(hex_to_rgb("#+f+a+0"), (15, 10, 0));
    assert_eq!(hex_to_rgb("#++2030"), (99, 0x20, 0x30));
}

#[test]
fn agrees_with_the_standard_parser_on_every_pair() {
    let alphabet = b"0123456789abcdefABCDEFgG+-# xz";
    for &a in alphabet.iter() {
        for &b in alphabet.iter() {
            if a == b'#' {
                continue;
            }
            let pair = String::from_utf8(vec![a, b]).unwrap();
            let expected = u8::from_str_radix(&pair, 16).unwrap_or(200);
            let color = format!("#00{}00", pair);
            assert_eq!(hex_to_rgb(&color), (0, expected, 0), "{}", color);
        }
    }
}

#[test]
fn works_on_the_bytes_of_other_scripts() {
    // "é" takes two bytes, so it fills the red component and is no number.
    assert_eq!(hex_to_rgb("#é2030"), (99, 0x20, 0x30));
}
