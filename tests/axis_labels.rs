use entui::app::{App, DisplayMode};
use entui::labels::format_offset;

fn text(v: Vec<char>) -> String {
    v.into_iter().collect()
}

#[test]
fn decimal_labels() {
    assert_eq!(text(format_offset(0, DisplayMode::Decimal)), "0");
    assert_eq!(text(format_offset(1024, DisplayMode::Decimal)), "1024");
    assert_eq!(text(format_offset(u64::MAX, DisplayMode::Decimal)), "18446744073709551615");
}

#[test]
fn hex_labels_are_padded_to_eight_digits() {
    assert_eq!(text(format_offset(0, DisplayMode::Hexadecimal)), "0x00000000");
    assert_eq!(text(format_offset(255, DisplayMode::Hexadecimal)), "0x000000ff");
    assert_eq!(text(format_offset(0xdeadbeef, DisplayMode::Hexadecimal)), "0xdeadbeef");
    assert_eq!(text(format_offset(0x123456789, DisplayMode::Hexadecimal)), "0x123456789");
}

#[test]
fn labels_at_start_middle_and_end() {
    let mut a = App::new(Some(9990), 10).unwrap();
    a.on_zoom_in();
    assert_eq!(a.label_offsets(), (500, 5000, 9500));
    let labels: Vec<String> = a.x_labels().into_iter().map(text).collect();
    assert_eq!(labels, vec!["500", "5000", "9500"]);
    a.on_toggle_hex();
    let labels: Vec<String> = a.x_labels().into_iter().map(text).collect();
    assert_eq!(labels, vec!["0x000001f4", "0x00001388", "0x0000251c"]);
}
