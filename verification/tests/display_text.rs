use herbfarm_sensor::display::{init_error_text, status_text, text_anchor, TEXT_OFFSET_Y};
use herbfarm_sensor::text::push_decimal;

#[test]
fn text_anchor_on_landscape_display() {
    assert_eq!(text_anchor(0, 0, 240, 135), (119, 67 + TEXT_OFFSET_Y));
    assert_eq!(text_anchor(0, 0, 240, 135), (119, 82));
}

#[test]
fn text_anchor_follows_rectangle_center() {
    assert_eq!(text_anchor(10, 20, 5, 7), (12, 23 + 15));
    assert_eq!(text_anchor(20, 30, 4, 8), (21, 33 + 15));
    assert_eq!(text_anchor(-5, -5, 0, 0), (-5, 10));
}

#[test]
fn status_line() {
    assert_eq!(status_text(23, 812), "Temp: 23C and Cap: 812");
    assert_eq!(status_text(0, 65535), "Temp: 0C and Cap: 65535");
}

#[test]
fn init_error_line() {
    assert_eq!(
        init_error_text("Couldn't connect to the sensor."),
        "Error in initializing main loop: Couldn't connect to the sensor."
    );
}

#[test]
fn decimal_notation() {
    for n in [0u32, 7, 10, 99, 100, 4096, 65535, 1_000_000, u32::MAX] {
        let mut s = String::new();
        push_decimal(&mut s, n);
        assert_eq!(s, n.to_string());
    }
    let mut s = String::from("x=");
    push_decimal(&mut s, 305);
    assert_eq!(s, "x=305");
}
