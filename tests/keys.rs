use g910::control::ControlPacket;
use g910::error::Error;
use g910::keys::{media_codes, standard_key, Key, KeyType};

#[test]
fn category_ids() {
    assert_eq!(KeyType::Standard.id(), 0x0001);
    assert_eq!(KeyType::Gaming.id(), 0x0004);
    assert_eq!(KeyType::Logo.id(), 0x0010);
}

#[test]
fn key_code_and_category() {
    assert_eq!(Key::Gaming(7).code(), 7);
    assert_eq!(Key::Standard(0x2c).key_type(), Some(KeyType::Standard));
    assert_eq!(Key::Logo(1).key_type(), Some(KeyType::Logo));
    assert_eq!(Key::Media(0x10).key_type(), None);
    assert_ne!(Key::Gaming(1), Key::Logo(1));
}

#[test]
fn standard_lookup() {
    assert_eq!(standard_key(0x04), Some(Key::Standard(0x04)));
    assert_eq!(standard_key(0xe7), Some(Key::Standard(0xe7)));
    assert_eq!(standard_key(0x8b), Some(Key::Standard(0x8b)));
    assert_eq!(standard_key(0x00), None);
    assert_eq!(standard_key(0x66), None);
    assert_eq!(standard_key(0xe8), None);
}

#[test]
fn catalog_media_codes() {
    assert_eq!(media_codes(), vec![0x01, 0x02, 0x04, 0x08, 0x10, 0x20, 0x40]);
}

#[test]
fn control_packet_fields() {
    let p = ControlPacket::new(vec![9, 8], 0x80, 0x21, 9, 0x0212, 1, 10_000);
    assert_eq!(p.buf, vec![9, 8]);
    assert_eq!((p.endpoint_direction, p.request_type, p.request), (0x80, 0x21, 9));
    assert_eq!((p.value, p.index, p.timeout_ms), (0x0212, 1, 10_000));
}

#[test]
fn recoverable_errors() {
    assert!(Error::Io.is_recoverable());
    assert!(Error::Busy.is_recoverable());
    assert!(Error::DeviceAbsent.is_recoverable());
    assert!(!Error::QueueBroken.is_recoverable());
    assert!(!Error::InvalidTarget.is_recoverable());
}
