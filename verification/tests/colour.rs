use symbolab_rs::colour::{background_of, foreground_of, parse_hex_colour, parse_pair, Rgba};

fn as_std_reads(colour: &str) -> Option<Rgba> {
    let hex = colour.trim_start_matches('#');
    let r: u8 = u8::from_str_radix(hex.get(0..2)?, 16).ok()?;
    let g: u8 = u8::from_str_radix(hex.get(2..4)?, 16).ok()?;
    let b: u8 = u8::from_str_radix(hex.get(4..6)?, 16).ok()?;
    let a: u8 = u8::from_str_radix(hex.get(6..8).unwrap_or("ff"), 16).ok()?;
    Some(Rgba { r, g, b, a })
}

#[test]
fn default_colours_are_read() {
    assert_eq!(parse_hex_colour("#000000ff"), Some(Rgba { r: 0, g: 0, b: 0, a: 255 }));
    assert_eq!(parse_hex_colour("#00000000"), Some(Rgba { r: 0, g: 0, b: 0, a: 0 }));
}

#[test]
fn six_digits_are_opaque() {
    assert_eq!(parse_hex_colour("#12aBcD"), Some(Rgba { r: 0x12, g: 0xab, b: 0xcd, a: 255 }));
    assert_eq!(parse_hex_colour("ff8000"), Some(Rgba { r: 255, g: 128, b: 0, a: 255 }));
    assert_eq!(parse_hex_colour("ff80007"), Some(Rgba { r: 255, g: 128, b: 0, a: 255 }));
}

#[test]
fn eight_digits_carry_the_opacity() {
    assert_eq!(parse_hex_colour("#ff800040"), Some(Rgba { r: 255, g: 128, b: 0, a: 0x40 }));
    assert_eq!(parse_hex_colour("###01020304zz"), Some(Rgba { r: 1, g: 2, b: 3, a: 4 }));
}

#[test]
fn what_is_no_colour_is_refused() {
    assert_eq!(parse_hex_colour(""), None);
    assert_eq!(parse_hex_colour("#"), None);
    assert_eq!(parse_hex_colour("red"), None);
    assert_eq!(parse_hex_colour("#12345"), None);
    assert_eq!(parse_hex_colour("#gg0000"), None);
    assert_eq!(parse_hex_colour("#000000zz"), None);
    assert_eq!(parse_hex_colour("#0000 0"), None);
}

#[test]
fn pairs_are_read_as_numbers_in_base_sixteen() {
    assert_eq!(parse_pair('0', '0'), Some(0));
    assert_eq!(parse_pair('f', 'F'), Some(255));
    assert_eq!(parse_pair('1', '0'), Some(16));
    assert_eq!(parse_pair('+', 'a'), Some(10));
    assert_eq!(parse_pair('+', '+'), None);
    assert_eq!(parse_pair('-', '1'), None);
    assert_eq!(parse_pair('1', '+'), None);
    assert_eq!(parse_pair('g', '1'), None);
}

#[test]
fn colours_are_read_as_the_standard_library_reads_them() {
    let cases = [
        "#000000ff",
        "#00000000",
        "#+1+2+3+4",
        "#123456",
        "#1234567",
        "#12345678",
        "#123456789",
        "#123456\u{00e9}",
        "#1234567\u{00e9}",
        "#123456\u{00e9}0",
        "#123456\u{20ac}",
        "#123456\u{20ac}00",
        "#123456\u{1f600}",
        "#1234567\u{20ac}",
        "#12345\u{00e9}",
        "#\u{00e9}23456",
        "#1\u{00e9}3456",
        "\u{00e9}",
        "#12 456",
        "#-1-2-3",
        "1234",
        "####",
        "#abcdefgh",
        "#ABCDEF0g",
    ];
    for case in cases {
        assert_eq!(parse_hex_colour(case), as_std_reads(case), "{}", case);
    }
}

#[test]
fn unreadable_background_is_transparent() {
    assert_eq!(background_of(None, "nonsense"), Rgba { r: 0, g: 0, b: 0, a: 0 });
    assert_eq!(background_of(None, ""), Rgba { r: 0, g: 0, b: 0, a: 0 });
    assert_eq!(background_of(None, "#10203040"), Rgba { r: 16, g: 32, b: 48, a: 64 });
}

#[test]
fn unreadable_foreground_is_black() {
    assert_eq!(foreground_of(None, "nonsense"), Rgba { r: 0, g: 0, b: 0, a: 255 });
    assert_eq!(foreground_of(None, ""), Rgba { r: 0, g: 0, b: 0, a: 255 });
    assert_eq!(foreground_of(None, "#10203040"), Rgba { r: 16, g: 32, b: 48, a: 64 });
}

#[test]
fn default_colours_are_black_on_transparent() {
    assert_eq!(foreground_of(None, "#000000ff"), Rgba { r: 0, g: 0, b: 0, a: 255 });
    assert_eq!(background_of(None, "#00000000"), Rgba { r: 0, g: 0, b: 0, a: 0 });
}

#[test]
fn named_background_is_the_colour_of_its_digits() {
    let white = Rgba { r: 255, g: 255, b: 255, a: 255 };
    assert_eq!(background_of(Some(white), "white"), white);
    assert_eq!(background_of(Some(white), "white"), background_of(None, "#ffffffff"));
    assert_ne!(background_of(Some(white), "white"), Rgba { r: 0, g: 0, b: 0, a: 0 });
}

#[test]
fn named_foreground_is_the_colour_of_its_digits() {
    let red = Rgba { r: 255, g: 0, b: 0, a: 255 };
    assert_eq!(foreground_of(Some(red), "red"), red);
    assert_eq!(foreground_of(Some(red), "red"), foreground_of(None, "#ff0000ff"));
}

#[test]
fn name_comes_before_digits() {
    let named = Rgba { r: 1, g: 2, b: 3, a: 4 };
    assert_eq!(foreground_of(Some(named), "#ffffffff"), named);
    assert_eq!(background_of(Some(named), "#ffffffff"), named);
    assert_eq!(background_of(Some(named), "nonsense"), named);
}
