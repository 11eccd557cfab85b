use mandelbrot::config::{parse_u16, IntErrorKind, NumberType, WindowSize};

fn std_message(text: &str) -> String {
    text.parse::<u16>().unwrap_err().to_string()
}

#[test]
fn window_size_parses_default() {
    let ws = WindowSize::parse("800x600").unwrap();
    assert_eq!(ws.width, 800);
    assert_eq!(ws.height, 600);
}

#[test]
fn window_size_accepts_plus_and_extremes() {
    let ws = WindowSize::parse("+0x65535").unwrap();
    assert_eq!(ws.width, 0);
    assert_eq!(ws.height, 65535);
}

#[test]
fn window_size_without_separator() {
    assert_eq!(
        WindowSize::parse("800").unwrap_err(),
        "no `x` separator found in window size"
    );
    assert_eq!(
        WindowSize::parse("").unwrap_err(),
        "no `x` separator found in window size"
    );
}

#[test]
fn window_size_bad_width() {
    assert_eq!(
        WindowSize::parse("abcx600").unwrap_err(),
        format!("unable to parse abc as window width: {}", std_message("abc"))
    );
    assert_eq!(
        WindowSize::parse("x600").unwrap_err(),
        format!("unable to parse  as window width: {}", std_message(""))
    );
    assert_eq!(
        WindowSize::parse("70000x600").unwrap_err(),
        format!("unable to parse 70000 as window width: {}", std_message("70000"))
    );
}

#[test]
fn window_size_bad_height() {
    assert_eq!(
        WindowSize::parse("800x600x2").unwrap_err(),
        format!("unable to parse 600x2 as window height: {}", std_message("600x2"))
    );
    assert_eq!(
        WindowSize::parse("800x-1").unwrap_err(),
        format!("unable to parse -1 as window height: {}", std_message("-1"))
    );
    assert_eq!(
        WindowSize::parse("800x").unwrap_err(),
        "unable to parse  as window height: cannot parse integer from empty string"
    );
}

#[test]
fn parse_u16_matches_std() {
    let cases = [
        "", "+", "-", "0", "7", "+7", "-7", "65535", "65536", "99999", "70000a", "6553a", "00012",
        "1 2", "１", "++1", "12+", "4294967296", "0065535",
    ];
    for case in cases {
        let expected = case.parse::<u16>();
        let got = parse_u16(case);
        match (expected, got) {
            (Ok(e), Ok(g)) => assert_eq!(e, g, "{case:?}"),
            (Err(e), Err(g)) => assert_eq!(e.to_string(), g.message(), "{case:?}"),
            (e, g) => panic!("{case:?}: std gives {e:?}, the library gives {g:?}"),
        }
    }
}

#[test]
fn parse_error_kinds() {
    assert_eq!(parse_u16(""), Err(IntErrorKind::Empty));
    assert_eq!(parse_u16("+"), Err(IntErrorKind::InvalidDigit));
    assert_eq!(parse_u16("12a"), Err(IntErrorKind::InvalidDigit));
    assert_eq!(parse_u16("65536"), Err(IntErrorKind::PosOverflow));
    assert_eq!(parse_u16("+123"), Ok(123));
}

#[test]
fn window_size_round_trip() {
    for (w, h) in [(0u16, 0u16), (1, 9), (10, 99), (800, 600), (65535, 1234)] {
        let ws = WindowSize::parse(&format!("{w}x{h}")).unwrap();
        assert_eq!((ws.width, ws.height), (w, h));
    }
}

#[test]
fn number_type_default_is_f64() {
    assert_eq!(NumberType::default(), NumberType::F64);
}
