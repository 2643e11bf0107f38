use gazo::region::Rect;
use gazo::region::RectValueParser;
use gazo::region::Region;
use gazo::region::RegionValueParser;

#[test]
fn test_region_parse_plain() {
    let parsed = RegionValueParser.parse("0,0 100x200").unwrap();
    assert_eq!(parsed, Region { position: (0, 0), size: (100, 200) });
}

#[test]
fn test_region_parse_negative_position() {
    let parsed = RegionValueParser.parse("-10,-20 5x6").unwrap();
    assert_eq!(parsed, Region { position: (-10, -20), size: (5, 6) });
}

#[test]
fn test_region_parse_extremes() {
    let parsed = RegionValueParser.parse("-2147483648,2147483647 2147483647x1").unwrap();
    assert_eq!(parsed, Region { position: (i32::MIN, i32::MAX), size: (i32::MAX, 1) });
}

#[test]
fn test_region_parse_rejects_malformed() {
    assert!(RegionValueParser.parse("").is_none());
    assert!(RegionValueParser.parse("10,20").is_none());
    assert!(RegionValueParser.parse("10,20 30").is_none());
    assert!(RegionValueParser.parse("10,20 30x").is_none());
    assert!(RegionValueParser.parse("10,20,30x40").is_none());
    assert!(RegionValueParser.parse("a,b cxd").is_none());
    assert!(RegionValueParser.parse("10,20 30x40 ").is_none());
    assert!(RegionValueParser.parse("10, 20 30x40").is_none());
    // a negative size field does not match the form
    assert!(RegionValueParser.parse("10,20 -30x40").is_none());
}

#[test]
fn test_region_parse_rejects_overflow() {
    assert!(RegionValueParser.parse("2147483648,0 1x1").is_none());
    assert!(RegionValueParser.parse("0,0 1x2147483648").is_none());
    assert!(RegionValueParser.parse("0,0 99999999999999999999x1").is_none());
}

#[test]
fn test_region_parser_formats() {
    assert_eq!(Region::get_parser_formats(), ["{x},{y} {width}x{height}"]);
}

#[test]
fn test_rect_parse_plain() {
    let parsed = RectValueParser.parse("100x200+10+20").unwrap();
    assert_eq!(parsed, Rect { x: 10, y: 20, w: 100, h: 200 });
}

#[test]
fn test_rect_parse_rejects_malformed() {
    assert!(RectValueParser.parse("").is_none());
    assert!(RectValueParser.parse("100x200").is_none());
    assert!(RectValueParser.parse("100x200+10").is_none());
    assert!(RectValueParser.parse("100x200+10+").is_none());
    assert!(RectValueParser.parse("100x200+-10+20").is_none());
    assert!(RectValueParser.parse("100x200+10+20x").is_none());
    assert!(RectValueParser.parse("2147483648x1+0+0").is_none());
}

#[test]
fn test_rect_parser_formats() {
    assert_eq!(Rect::get_parser_formats(), ["{w}x{h}+{x}+{y}"]);
}
