use g910::color::{Color, ColorPacket, FlushPacket, KeyColor, ToControlPacket};
use g910::keys::{Key, KeyType};

fn red() -> Color {
    Color::new(255, 0, 0)
}

#[test]
fn color_new_keeps_channels() {
    let c = Color::new(1, 2, 3);
    assert_eq!(c.red, 1);
    assert_eq!(c.green, 2);
    assert_eq!(c.blue, 3);
    let kc = KeyColor::new(Key::Gaming(4), c);
    assert_eq!(kc.key, Key::Gaming(4));
    assert_eq!(kc.color, c);
}

#[test]
fn empty_batch_encoding() {
    let p = ColorPacket::new(KeyType::Standard);
    assert_eq!(p.len(), 0);
    let pkt = p.to_control_packet();
    let mut expected = vec![0x12, 0xff, 0x0f, 0x3b, 0x00, 0x01, 0x00, 0x00];
    expected.resize(64, 0);
    assert_eq!(pkt.buf, expected);
}

#[test]
fn batch_encoding_entries_in_append_order() {
    let mut p = ColorPacket::new(KeyType::Gaming);
    assert!(p.add(0x01, Color::new(10, 20, 30)).is_none());
    assert!(p.add(0x02, Color::new(40, 50, 60)).is_none());
    let pkt = p.to_control_packet();
    assert_eq!(pkt.buf.len(), 64);
    assert_eq!(&pkt.buf[0..16], &[0x12, 0xff, 0x0f, 0x3b, 0x00, 0x04, 0x00, 0x02, 0x01, 10, 20, 30, 0x02, 40, 50, 60]);
    assert!(pkt.buf[16..].iter().all(|b| *b == 0));
    assert_eq!(pkt.endpoint_direction, 0x80);
    assert_eq!(pkt.request_type, 0x21);
    assert_eq!(pkt.request, 9);
    assert_eq!(pkt.value, 0x0212);
    assert_eq!(pkt.index, 0x0001);
    assert_eq!(pkt.timeout_ms, 10_000);
}

#[test]
fn batch_encoding_every_length() {
    for kind in [KeyType::Standard, KeyType::Gaming, KeyType::Logo] {
        for n in 0..=14u8 {
            let mut p = ColorPacket::new(kind);
            for i in 0..n {
                assert!(p.add(i + 4, Color::new(i, i + 1, i + 2)).is_none());
            }
            let buf = p.to_control_packet().buf;
            assert_eq!(buf.len(), 64);
            assert_eq!(&buf[0..4], &[0x12, 0xff, 0x0f, 0x3b]);
            assert_eq!(u16::from_be_bytes([buf[4], buf[5]]), kind.id());
            assert_eq!(buf[6], 0);
            assert_eq!(buf[7], n);
            for i in 0..n as usize {
                let b = i as u8;
                assert_eq!(&buf[8 + 4 * i..12 + 4 * i], &[b + 4, b, b + 1, b + 2]);
            }
            assert!(buf[8 + 4 * n as usize..].iter().all(|x| *x == 0));
        }
    }
}

#[test]
fn logo_category_id() {
    let buf = ColorPacket::new(KeyType::Logo).to_control_packet().buf;
    assert_eq!(&buf[4..6], &[0x00, 0x10]);
}

#[test]
fn batch_cap_returns_full_batch() {
    let mut p = ColorPacket::new(KeyType::Standard);
    for i in 0..14u8 {
        assert!(p.add(i + 4, red()).is_none());
    }
    assert_eq!(p.len(), 14);
    let full = p.add(0x30, Color::new(1, 2, 3)).expect("the fifteenth entry returns the full batch");
    assert_eq!(full.len(), 14);
    assert_eq!(p.len(), 1);
    assert_eq!(p.key_type(), KeyType::Standard);
    let buf = p.to_control_packet().buf;
    assert_eq!(buf[7], 1);
    assert_eq!(&buf[8..12], &[0x30, 1, 2, 3]);
    let full_buf = full.to_control_packet().buf;
    assert_eq!(full_buf[7], 14);
    assert_eq!(&full_buf[8..12], &[4, 255, 0, 0]);
    assert_eq!(&full_buf[60..64], &[17, 255, 0, 0]);
}

#[test]
fn flush_encoding() {
    let pkt = FlushPacket::new().to_control_packet();
    assert_eq!(pkt.buf.len(), 20);
    assert_eq!(&pkt.buf[0..4], &[0x11, 0xff, 0x0f, 0x5b]);
    assert!(pkt.buf[4..].iter().all(|b| *b == 0));
    assert_eq!(pkt.endpoint_direction, 0x80);
}
