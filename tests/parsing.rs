use g910::color::Color;
use g910::error::Error;
use g910::keyboard::KeyboardInternal;
use g910::keys::{Key, KeyEvent, LEFT_SHIFT, RIGHT_WINDOWS};
use g910::parser::{ControlParser, KeyParser, Packet};
use g910::session::{Dispatch, HandlerRegistry, Session};

const A: u8 = 0x04;
const B: u8 = 0x05;

fn standard(modifiers: u8, codes: &[u8]) -> Packet {
    let mut buf = vec![modifiers, 0x00];
    buf.extend_from_slice(codes);
    buf.resize(8, 0);
    Packet::new(0x81, buf)
}

fn rollover(codes: &[u8]) -> Packet {
    let mut buf = vec![0x01];
    buf.extend_from_slice(codes);
    buf.resize(21, 0);
    Packet::new(0x82, buf)
}

fn sorted(mut v: Vec<KeyEvent>) -> Vec<KeyEvent> {
    v.sort_by_key(|e| format!("{:?}", e));
    v
}

#[test]
fn packet_masks_direction_bit() {
    let p = Packet::new(0x82, vec![1, 2]);
    assert_eq!(p.endpoint, 2);
    assert_eq!(p.buf, vec![1, 2]);
    assert_eq!(Packet::new(0x80, vec![]).endpoint, 0);
}

#[test]
fn key_parser_accepts_the_three_streams() {
    let kp = KeyParser::new();
    assert!(kp.accept(&standard(0, &[])));
    assert!(kp.accept(&rollover(&[])));
    assert!(kp.accept(&Packet::new(0x82, vec![0x02, 0x00])));
    assert!(!kp.accept(&Packet::new(0x81, vec![0, 1, 0, 0, 0, 0, 0, 0])));
    assert!(!kp.accept(&Packet::new(0x82, vec![0x11, 0x00])));
    assert!(!kp.accept(&Packet::new(0x81, vec![0; 7])));
}

#[test]
fn standard_diff() {
    let mut kp = KeyParser::new();
    let e1 = kp.parse(&standard(0, &[A]));
    assert_eq!(e1, vec![KeyEvent::KeyPressed(Key::Standard(A))]);
    let e2 = kp.parse(&standard(0x02, &[A]));
    assert_eq!(e2, vec![KeyEvent::KeyPressed(Key::Standard(LEFT_SHIFT))]);
    let e3 = kp.parse(&standard(0, &[]));
    assert_eq!(
        sorted(e3),
        sorted(vec![
            KeyEvent::KeyReleased(Key::Standard(LEFT_SHIFT)),
            KeyEvent::KeyReleased(Key::Standard(A)),
        ])
    );
}

#[test]
fn pressed_before_released() {
    let mut kp = KeyParser::new();
    kp.parse(&standard(0, &[A]));
    let e = kp.parse(&standard(0x80, &[B]));
    assert_eq!(e.len(), 3);
    assert_eq!(e[2], KeyEvent::KeyReleased(Key::Standard(A)));
    assert!(e[..2].contains(&KeyEvent::KeyPressed(Key::Standard(B))));
    assert!(e[..2].contains(&KeyEvent::KeyPressed(Key::Standard(RIGHT_WINDOWS))));
}

#[test]
fn unknown_and_repeated_codes() {
    let mut kp = KeyParser::new();
    let e = kp.parse(&standard(0, &[0x01, 0x66, A, A, 0x00]));
    assert_eq!(e, vec![KeyEvent::KeyPressed(Key::Standard(A))]);
    assert!(kp.parse(&standard(0, &[A])).is_empty());
}

#[test]
fn stream_independence() {
    let mut kp = KeyParser::new();
    assert_eq!(kp.parse(&standard(0, &[A])), vec![KeyEvent::KeyPressed(Key::Standard(A))]);
    assert_eq!(kp.parse(&rollover(&[B])), vec![KeyEvent::KeyPressed(Key::Standard(B))]);
    assert_eq!(kp.parse(&rollover(&[])), vec![KeyEvent::KeyReleased(Key::Standard(B))]);
    assert_eq!(kp.parse(&Packet::new(0x82, vec![0x02, 0x01])), vec![KeyEvent::KeyPressed(Key::Media(0x01))]);
    assert!(kp.parse(&standard(0, &[A])).is_empty());
    assert_eq!(kp.parse(&standard(0, &[])), vec![KeyEvent::KeyReleased(Key::Standard(A))]);
}

#[test]
fn rollover_ignores_modifier_bits() {
    let mut kp = KeyParser::new();
    let mut buf = vec![0x01u8; 1];
    buf.resize(21, 0);
    buf[20] = B;
    let e = kp.parse(&Packet::new(0x82, buf));
    assert_eq!(e, vec![KeyEvent::KeyPressed(Key::Standard(B))]);
}

#[test]
fn media_bitmap() {
    let mut kp = KeyParser::with_media_codes(vec![0x01, 0x02, 0x04]);
    let e = kp.parse(&Packet::new(0x82, vec![0x02, 0x05]));
    assert_eq!(
        sorted(e),
        sorted(vec![KeyEvent::KeyPressed(Key::Media(0x01)), KeyEvent::KeyPressed(Key::Media(0x04))])
    );
}

#[test]
fn media_codes_match_on_all_bits() {
    let mut kp = KeyParser::with_media_codes(vec![0x01, 0x03]);
    let e = kp.parse(&Packet::new(0x82, vec![0x02, 0x01]));
    assert_eq!(e, vec![KeyEvent::KeyPressed(Key::Media(0x01))]);
    let e = kp.parse(&Packet::new(0x82, vec![0x02, 0x03]));
    assert_eq!(e, vec![KeyEvent::KeyPressed(Key::Media(0x03))]);
}

#[test]
fn control_parser_accepts() {
    let cp = ControlParser::new();
    assert!(cp.accept(&Packet::new(0x80, vec![0x12; 64])));
    assert!(cp.accept(&Packet::new(0x80, vec![0x11; 20])));
    assert!(cp.accept(&Packet::new(0x82, vec![0x11; 20])));
    assert!(!cp.accept(&Packet::new(0x82, vec![0x12; 20])));
    assert!(!cp.accept(&Packet::new(0x82, vec![0x11; 64])));
    assert!(!cp.accept(&Packet::new(0x81, vec![0x11; 20])));
}

#[test]
fn control_parser_errors() {
    let cp = ControlParser::new();
    let mut kb = KeyboardInternal::new();
    assert_eq!(cp.parse(&Packet::new(0x80, vec![0x13; 20]), &mut kb), Err(Error::UnknownControl));
    assert_eq!(cp.parse(&Packet::new(0x82, vec![0x12; 20]), &mut kb), Err(Error::UnknownControl));
    assert_eq!(cp.parse(&Packet::new(0x80, vec![0x12; 64]), &mut kb), Ok(()));
    assert_eq!(cp.parse(&Packet::new(0x82, vec![]), &mut kb), Ok(()));
    assert_eq!(cp.parse(&Packet::new(0x82, vec![0x11; 20]), &mut kb), Err(Error::QueueBroken));
}

#[test]
fn session_dispatch() {
    let mut s = Session::new();
    match s.handle_packet(0x81, vec![0, 0, A, 0, 0, 0, 0, 0]) {
        Ok(Dispatch::Keys(events)) => assert_eq!(events, vec![KeyEvent::KeyPressed(Key::Standard(A))]),
        _ => panic!("a standard report is a key report"),
    }
    assert!(matches!(s.handle_packet(0x83, vec![1, 2, 3]), Ok(Dispatch::Unparsed)));
    s.keyboard.set_all_colors(Color::new(1, 1, 1)).unwrap();
    assert_eq!(s.keyboard.take_submitted().len(), 1);
    let mut ack = vec![0x11u8];
    ack.resize(20, 0);
    assert!(matches!(s.handle_packet(0x82, ack.clone()), Ok(Dispatch::Control)));
    assert_eq!(s.keyboard.take_submitted().len(), 1);
    assert!(matches!(s.handle_packet(0x80, vec![0x12; 64]), Ok(Dispatch::Control)));
    assert!(s.keyboard.take_submitted().is_empty());
    assert!(matches!(s.handle_packet(0x80, vec![0x42; 20]), Err(Error::UnknownControl)));
}

#[test]
fn handler_registry_order_and_removal() {
    let mut reg: HandlerRegistry<&str> = HandlerRegistry::new();
    assert_eq!(reg.add("a"), Some(0));
    assert_eq!(reg.add("b"), Some(1));
    assert_eq!(reg.add("c"), Some(2));
    assert_eq!(reg.remove(1), Some("b"));
    assert_eq!(reg.remove(1), None);
    assert_eq!(reg.len(), 2);
    assert_eq!((reg.id_at(0), *reg.get(0)), (0, "a"));
    assert_eq!((reg.id_at(1), *reg.get(1)), (2, "c"));
    assert_eq!(reg.add("d"), Some(3));
}
