use screen_gif::platform::Platform;
use screen_gif::screen::{
    detect_screen_size, parse_decimal, parse_size, size_from_xdpyinfo, size_from_xrandr, split_char, split_lines,
    split_words, trim_text,
};

const XDPYINFO: &str = "name of display:    :0\nversion number:    11.0\n\nscreen #0:\n  dimensions:    2560x1440 pixels (677x381 millimeters)\n  resolution:    96x96 dots per inch\n";

const XRANDR: &str = "Screen 0: minimum 320 x 200, current 1920 x 1080, maximum 16384 x 16384\nHDMI-1 disconnected (normal left inverted right x axis y axis)\neDP-1 connected primary 1920x1080+0+0 (normal left inverted right x axis y axis) 344mm x 194mm\n   1920x1080     60.02*+\n";

#[test]
fn xdpyinfo_dimensions_are_read() {
    assert_eq!(size_from_xdpyinfo(XDPYINFO), Some((2560, 1440)));
}

#[test]
fn xdpyinfo_without_dimensions_gives_nothing() {
    assert_eq!(size_from_xdpyinfo("name of display: :0\n"), None);
    assert_eq!(size_from_xdpyinfo(""), None);
}

#[test]
fn xdpyinfo_skips_unreadable_dimensions() {
    let text = "  dimensions:    wide pixels\r\n  dimensions:\t800x600 pixels\r\n";
    assert_eq!(size_from_xdpyinfo(text), Some((800, 600)));
}

#[test]
fn xrandr_connected_output_is_read() {
    assert_eq!(size_from_xrandr(XRANDR), Some((1920, 1080)));
}

#[test]
fn xrandr_disconnected_outputs_are_ignored() {
    let text = "HDMI-1 disconnected 1024x768+0+0\nDP-2 connected 1280x1024+1920+0 (normal)\n";
    assert_eq!(size_from_xrandr(text), Some((1280, 1024)));
}

#[test]
fn detect_prefers_xdpyinfo_then_xrandr_then_fallback() {
    assert_eq!(detect_screen_size(Platform::Linux, Some(XDPYINFO), Some(XRANDR)), (2560, 1440));
    assert_eq!(detect_screen_size(Platform::Linux, Some("garbage"), Some(XRANDR)), (1920, 1080));
    assert_eq!(detect_screen_size(Platform::Linux, None, Some("DP-1 connected 1366x768+0+0")), (1366, 768));
    assert_eq!(detect_screen_size(Platform::Linux, None, None), (1920, 1080));
}

#[test]
fn detect_elsewhere_uses_fallback() {
    assert_eq!(detect_screen_size(Platform::MacOs, Some(XDPYINFO), None), (1920, 1080));
    assert_eq!(detect_screen_size(Platform::Windows, None, Some(XRANDR)), (1920, 1080));
}

#[test]
fn decimal_parsing() {
    assert_eq!(parse_decimal("0"), Some(0));
    assert_eq!(parse_decimal("+42"), Some(42));
    assert_eq!(parse_decimal("4294967295"), Some(u32::MAX));
    assert_eq!(parse_decimal("4294967296"), None);
    assert_eq!(parse_decimal("99999999999999999999"), None);
    assert_eq!(parse_decimal(""), None);
    assert_eq!(parse_decimal("+"), None);
    assert_eq!(parse_decimal("-1"), None);
    assert_eq!(parse_decimal("12a"), None);
}

#[test]
fn size_tokens() {
    assert_eq!(parse_size("1920x1080"), Some((1920, 1080)));
    assert_eq!(parse_size("1920x1080x2"), None);
    assert_eq!(parse_size("1920"), None);
    assert_eq!(parse_size("x1080"), None);
}

#[test]
fn splitting_helpers() {
    assert_eq!(split_char("a+b++c", '+'), vec!["a", "b", "", "c"]);
    assert_eq!(split_char("", '+'), vec![""]);
    assert_eq!(split_lines("a\r\nb\n\nc\n"), vec!["a", "b", "", "c"]);
    assert_eq!(split_lines("x\r"), vec!["x\r"]);
    assert!(split_lines("").is_empty());
    assert_eq!(split_words("  one\ttwo \u{3000}three  "), vec!["one", "two", "three"]);
    assert!(split_words(" \n ").is_empty());
    assert_eq!(trim_text("\t dimensions: 1x1 \r"), "dimensions: 1x1");
    assert_eq!(trim_text("   "), "");
}
