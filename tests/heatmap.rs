use g910::color::Color;
use g910::heatmap::{heat_color_of, Heatmap};
use g910::keys::Key;

#[test]
fn fresh_heatmap_is_black() {
    let h = Heatmap::new();
    let colors = h.colors();
    assert_eq!(colors.len(), 122);
    assert!(colors.iter().all(|kc| kc.color == Color::new(0, 0, 0)));
}

#[test]
fn gradient_values() {
    assert_eq!(heat_color_of(0, 10), Color::new(0, 0, 0));
    assert_eq!(heat_color_of(10, 10), Color::new(255, 0, 0));
    assert_eq!(heat_color_of(1, 10), Color::new(0, 0, 127));
    assert_eq!(heat_color_of(2, 10), Color::new(0, 0, 255));
    assert_eq!(heat_color_of(5, 10), Color::new(0, 255, 128));
    assert_eq!(heat_color_of(9, 10), Color::new(255, 128, 0));
}

#[test]
fn increments_drive_colors() {
    let mut h = Heatmap::new();
    let a = Key::Standard(0x04);
    let b = Key::Standard(0x05);
    for _ in 0..10 {
        h.increment(&a);
    }
    h.increment(&b);
    h.increment(&Key::Media(1));
    let colors = h.colors();
    let ca = colors.iter().find(|kc| kc.key == a).unwrap().color;
    let cb = colors.iter().find(|kc| kc.key == b).unwrap().color;
    assert_eq!(ca, Color::new(255, 0, 0));
    assert_eq!(cb, Color::new(0, 0, 127));
    assert!(colors.iter().filter(|kc| kc.key != a && kc.key != b).all(|kc| kc.color == Color::new(0, 0, 0)));
}
