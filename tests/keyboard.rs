use g910::color::{Color, KeyColor};
use g910::control::{ControlPacket, ControlQueue};
use g910::error::Error;
use g910::keyboard::KeyboardInternal;
use g910::keys::{programmable_keys, Key};
use g910::parser::ControlParser;
use g910::parser::Packet;

fn payloads(kb: &mut KeyboardInternal, acks: usize) -> Vec<ControlPacket> {
    let mut out = kb.take_submitted();
    for _ in 0..acks {
        kb.send_next_control().unwrap();
        out.extend(kb.take_submitted());
    }
    out
}

fn ack() -> Vec<u8> {
    let mut b = vec![0x11u8, 0xff, 0x0f, 0x5b];
    b.resize(20, 0);
    b
}

#[test]
fn split_by_category() {
    let mut kb = KeyboardInternal::new();
    let c = Color::new(1, 2, 3);
    let mut kcs = Vec::new();
    for i in 0..20u8 {
        kcs.push(KeyColor::new(Key::Standard(0x04 + i), c));
    }
    for i in 0..5u8 {
        kcs.push(KeyColor::new(Key::Gaming(1 + i), c));
    }
    kcs.push(KeyColor::new(Key::Logo(1), c));
    assert_eq!(kb.set_key_colors(kcs), Ok(()));
    assert!(kb.control_in_flight());
    assert_eq!(kb.pending_controls(), 4);
    let sent = payloads(&mut kb, 4);
    assert_eq!(sent.len(), 5);
    assert_eq!((sent[0].buf[5], sent[0].buf[7]), (0x01, 14));
    assert_eq!((sent[1].buf[5], sent[1].buf[7]), (0x01, 6));
    assert_eq!((sent[2].buf[5], sent[2].buf[7]), (0x04, 5));
    assert_eq!((sent[3].buf[5], sent[3].buf[7]), (0x10, 1));
    assert_eq!(&sent[4].buf[0..4], &[0x11, 0xff, 0x0f, 0x5b]);
    assert_eq!(sent[4].buf.len(), 20);
    assert_eq!(sent[1].buf[8], 0x04 + 14);
    assert!(sent.iter().all(|p| p.endpoint_direction == 0x80));
}

#[test]
fn ack_gating() {
    let mut q = ControlQueue::new();
    q.enqueue(ControlPacket::device_control(vec![1]));
    q.enqueue(ControlPacket::device_control(vec![2]));
    let first = q.take_submitted();
    assert_eq!(first.len(), 1);
    assert_eq!(first[0].buf, vec![1]);
    assert!(q.in_flight());
    assert_eq!(q.pending_len(), 1);
    assert!(q.take_submitted().is_empty());
    assert_eq!(q.acknowledge(), Ok(()));
    let second = q.take_submitted();
    assert_eq!(second.len(), 1);
    assert_eq!(second[0].buf, vec![2]);
    assert!(q.in_flight());
    assert_eq!(q.acknowledge(), Ok(()));
    assert!(!q.in_flight());
    assert_eq!(q.pending_len(), 0);
    assert!(q.take_submitted().is_empty());
}

#[test]
fn ack_while_idle_is_queue_broken() {
    let mut q = ControlQueue::new();
    assert_eq!(q.acknowledge(), Err(Error::QueueBroken));
    assert!(!q.in_flight());
}

#[test]
fn media_rejected_by_set_key_colors() {
    let mut kb = KeyboardInternal::new();
    let r = kb.set_key_colors(vec![KeyColor::new(Key::Media(0x01), Color::new(0, 0, 255))]);
    assert_eq!(r, Err(Error::InvalidTarget));
    assert!(kb.take_submitted().is_empty());
    assert!(!kb.control_in_flight());
    assert_eq!(kb.pending_controls(), 0);
}

#[test]
fn media_after_full_batch_keeps_it_queued() {
    let mut kb = KeyboardInternal::new();
    let c = Color::new(9, 9, 9);
    let mut kcs = Vec::new();
    for i in 0..15u8 {
        kcs.push(KeyColor::new(Key::Standard(0x04 + i), c));
    }
    kcs.push(KeyColor::new(Key::Media(0x02), c));
    assert_eq!(kb.set_key_colors(kcs), Err(Error::InvalidTarget));
    let sent = kb.take_submitted();
    assert_eq!(sent.len(), 1);
    assert_eq!(sent[0].buf[7], 14);
    assert_eq!(kb.pending_controls(), 0);
}

#[test]
fn set_color_single_key() {
    let mut kb = KeyboardInternal::new();
    assert_eq!(kb.set_color(KeyColor::new(Key::Logo(2), Color::new(7, 8, 9))), Ok(()));
    let sent = payloads(&mut kb, 1);
    assert_eq!(sent.len(), 2);
    assert_eq!(&sent[0].buf[0..12], &[0x12, 0xff, 0x0f, 0x3b, 0x00, 0x10, 0x00, 0x01, 0x02, 7, 8, 9]);
    assert_eq!(sent[1].buf.len(), 20);
    assert_eq!(kb.set_color(KeyColor::new(Key::Media(4), Color::new(0, 0, 0))), Err(Error::InvalidTarget));
}

#[test]
fn set_all_colors_end_to_end() {
    let mut kb = KeyboardInternal::new();
    assert_eq!(kb.set_all_colors(Color::new(0, 0, 255)), Ok(()));
    let parser = ControlParser::new();
    let mut sent = kb.take_submitted();
    assert_eq!(sent.len(), 1);
    while kb.control_in_flight() {
        assert!(kb.take_submitted().is_empty());
        let p = Packet::new(0x82, ack());
        assert!(parser.accept(&p));
        parser.parse(&p, &mut kb).unwrap();
        let released = kb.take_submitted();
        assert!(released.len() <= 1);
        sent.extend(released);
    }
    assert_eq!(kb.pending_controls(), 0);
    let standard = sent.iter().filter(|p| p.buf.len() == 64 && p.buf[5] == 0x01).count();
    let gaming = sent.iter().filter(|p| p.buf.len() == 64 && p.buf[5] == 0x04).count();
    let logo = sent.iter().filter(|p| p.buf.len() == 64 && p.buf[5] == 0x10).count();
    assert!(standard >= 7);
    assert_eq!(gaming, 1);
    assert_eq!(logo, 1);
    assert_eq!(sent.last().unwrap().buf.len(), 20);
    assert_eq!(sent.len(), standard + gaming + logo + 1);
    let total: usize = sent.iter().filter(|p| p.buf.len() == 64).map(|p| p.buf[7] as usize).sum();
    assert_eq!(total, programmable_keys().len());
    assert!(sent.iter().all(|p| p.buf.len() != 64 || &p.buf[9..12] == &[0, 0, 255]));
}

#[test]
fn catalog_has_no_media_keys() {
    let keys = programmable_keys();
    assert_eq!(keys.len(), 122);
    assert!(keys.iter().all(|k| !matches!(k, Key::Media(_))));
    assert_eq!(keys[0], Key::Standard(0x04));
    assert_eq!(keys[keys.len() - 1], Key::Logo(0x02));
}

#[test]
fn reconnect_settings() {
    let mut kb = KeyboardInternal::new();
    assert_eq!(kb.reconnect_interval_ms(), 1000);
    assert_eq!(kb.reconnect_attempts(), 10);
    assert!(kb.auto_reconnect());
    kb.set_reconnect_interval(250);
    kb.set_reconnect_attempts(3);
    kb.set_auto_reconnect(false);
    assert_eq!(kb.reconnect_interval_ms(), 250);
    assert_eq!(kb.reconnect_attempts(), 3);
    assert!(!kb.auto_reconnect());
}
