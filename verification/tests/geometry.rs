use tilecap::geometry::{parse_geometry, Rect};

#[test]
fn parse_geometry_full() {
    let r = parse_geometry("1920x1080+0+0").unwrap();
    assert_eq!(r, Rect { w: 1920, h: 1080, x: 0, y: 0 });
}

#[test]
fn parse_geometry_offset() {
    let r = parse_geometry("800x600+100+50").unwrap();
    assert_eq!(r, Rect { w: 800, h: 600, x: 100, y: 50 });
}

#[test]
fn parse_geometry_bad_format() {
    assert!(parse_geometry("1920x1080").is_err());
    assert!(parse_geometry("abc").is_err());
    assert!(parse_geometry("+0+0").is_err());
    assert!(parse_geometry("x+0+0").is_err());
}

#[test]
fn parse_geometry_negative_coords() {
    let r = parse_geometry("100x50+-10+-20").unwrap();
    assert_eq!(r, Rect { w: 100, h: 50, x: -10, y: -20 });
}

#[test]
fn parse_geometry_error_messages() {
    assert_eq!(parse_geometry("1920x1080").unwrap_err(), "bad geometry, expected WxH+X+Y");
    assert_eq!(parse_geometry("1920+0+0").unwrap_err(), "bad geometry, expected WxH+X+Y");
    assert_eq!(parse_geometry("1920x1080+0").unwrap_err(), "bad geometry, expected WxH+X+Y");
    assert_eq!(parse_geometry("x+0+0").unwrap_err(), "bad width");
    assert_eq!(parse_geometry("10x+0+0").unwrap_err(), "bad height");
    assert_eq!(parse_geometry("10x10++0").unwrap_err(), "bad x");
    assert_eq!(parse_geometry("10x10+0+").unwrap_err(), "bad y");
    assert_eq!(parse_geometry("10x10+0+1+2").unwrap_err(), "bad y");
}

#[test]
fn parse_geometry_number_limits() {
    assert_eq!(parse_geometry("65535x1+32767+-32768").unwrap(), Rect { w: 65535, h: 1, x: 32767, y: -32768 });
    assert_eq!(parse_geometry("65536x1+0+0").unwrap_err(), "bad width");
    assert_eq!(parse_geometry("1x1+32768+0").unwrap_err(), "bad x");
    assert_eq!(parse_geometry("1x1+0+-32769").unwrap_err(), "bad y");
    assert_eq!(parse_geometry("-1x1+0+0").unwrap_err(), "bad width");
}

#[test]
fn parse_geometry_plus_signs_and_zeros() {
    // `str::parse` accepts a leading `+` and leading zeros.
    assert_eq!(parse_geometry("1x1+0++5").unwrap(), Rect { w: 1, h: 1, x: 0, y: 5 });
    assert_eq!(parse_geometry("007x0010+-0+00").unwrap(), Rect { w: 7, h: 10, x: 0, y: 0 });
    assert_eq!(parse_geometry("1x2x3+0+0").unwrap_err(), "bad height");
    assert_eq!(parse_geometry("1x1+ 1+0").unwrap_err(), "bad x");
}

#[test]
fn parse_geometry_roundtrip_examples() {
    for r in [
        Rect { w: 0, h: 0, x: 0, y: 0 },
        Rect { w: 1280, h: 720, x: -5, y: 17 },
        Rect { w: 65535, h: 65535, x: -32768, y: 32767 },
    ] {
        let s = format!("{}x{}+{}+{}", r.w, r.h, r.x, r.y);
        assert_eq!(parse_geometry(&s).unwrap(), r);
    }
}
