use vstd::prelude::*;

use crate::error::Error;
use crate::keyboard::KeyboardInternal;
use crate::keys::{default_media_codes, is_standard_code, media_codes, standard_key, Key, KeyEvent};

verus! {

/// A completed transfer: the endpoint number (direction bit cleared) and the
/// bytes received.
pub struct Packet {
    pub endpoint: u8,
    pub buf: Vec<u8>,
}

impl Packet {
    pub fn new(endpoint_direction: u8, buf: Vec<u8>) -> (r: Packet)
        ensures
            r.endpoint == endpoint_direction & 0x7f,
            r.buf@ == buf@,
    {
        Packet { endpoint: endpoint_direction & 0x7f, buf }
    }
}

/// The three independent input streams.
#[derive(Debug, Clone, Copy, PartialEq, Eq, Structural)]
pub enum Stream {
    /// Endpoint 1: modifier byte, reserved byte, six key codes.
    Standard,
    /// Endpoint 2, first byte 0x01: twenty key codes.
    Rollover,
    /// Endpoint 2, first byte 0x02: a bitmap of media keys.
    Media,
}

/// The stream that a packet belongs to, if it is a key report.
pub open spec fn key_stream(endpoint: u8, buf: Seq<u8>) -> Option<Stream> {
    if endpoint == 1 && buf.len() == 8 && buf[1] == 0x00 {
        Some(Stream::Standard)
    } else if endpoint == 2 && buf.len() == 21 && buf[0] == 0x01 {
        Some(Stream::Rollover)
    } else if endpoint == 2 && buf.len() == 2 && buf[0] == 0x02 {
        Some(Stream::Media)
    } else {
        None
    }
}

/// The bit of the modifier byte that stands for modifier key `c`
/// (left control, shift, alt, windows, then the right ones).
pub open spec fn modifier_mask(c: u8) -> u8 {
    1u8 << ((c - 0xe0) as u8)
}

pub open spec fn modifier_pressed(m: u8, c: u8) -> bool {
    0xe0 <= c <= 0xe7 && m & modifier_mask(c) == modifier_mask(c)
}

/// `c` is a standard key code listed in `buf[lo..hi]`.
pub open spec fn code_listed(buf: Seq<u8>, lo: int, hi: int, c: u8) -> bool {
    is_standard_code(c) && exists|i: int| lo <= i < hi && buf[i] == c
}

/// The keys that a report of `stream` says are held. The standard stream
/// carries modifier bits in byte 0 and codes in bytes 2..8, the rollover
/// stream codes in bytes 1..21 (it has no modifier bits), and the media
/// stream a bitmap in byte 1 in which a media code counts when all its bits
/// are set.
pub open spec fn report_has(stream: Stream, buf: Seq<u8>, media: Seq<u8>, k: Key) -> bool {
    match stream {
        Stream::Standard => match k {
            Key::Standard(c) => modifier_pressed(buf[0], c) || code_listed(buf, 2, 8, c),
            _ => false,
        },
        Stream::Rollover => match k {
            Key::Standard(c) => code_listed(buf, 1, 21, c),
            _ => false,
        },
        Stream::Media => match k {
            Key::Media(c) => media.contains(c) && buf[1] & c == c,
            _ => false,
        },
    }
}

pub open spec fn report_keys(stream: Stream, buf: Seq<u8>, media: Seq<u8>) -> Set<Key> {
    Set::new(|k: Key| report_has(stream, buf, media, k))
}

/// `events` are the edges from `before` to `after`: a press for each key
/// that came in, a release for each key that went away, each once, all
/// presses before all releases.
pub open spec fn is_diff(events: Seq<KeyEvent>, before: Set<Key>, after: Set<Key>) -> bool {
    &&& events.no_duplicates()
    &&& forall|k: Key|
        #![trigger events.contains(KeyEvent::KeyPressed(k))]
        events.contains(KeyEvent::KeyPressed(k)) <==> (after.contains(k) && !before.contains(k))
    &&& forall|k: Key|
        #![trigger events.contains(KeyEvent::KeyReleased(k))]
        events.contains(KeyEvent::KeyReleased(k)) <==> (before.contains(k) && !after.contains(k))
    &&& forall|i: int, j: int|
        0 <= i < j < events.len() && (#[trigger] events[i]) is KeyReleased ==> (#[trigger] events[j]) is KeyReleased
}

/// A prefix one longer holds what the shorter one held and the next element.
proof fn lemma_take_next<T>(s: Seq<T>, i: int)
    requires
        0 <= i < s.len(),
    ensures
        forall|x: T| #[trigger] s.take(i + 1).contains(x) <==> (s.take(i).contains(x) || x == s[i]),
{
    let pre = s.take(i);
    let nxt = s.take(i + 1);
    assert(nxt =~= pre.push(s[i]));
    assert forall|x: T| #[trigger] nxt.contains(x) implies (pre.contains(x) || x == s[i]) by {
        let t = choose|t: int| 0 <= t < nxt.len() && nxt[t] == x;
        if t < i {
            assert(pre[t] == x);
        }
    }
    assert forall|x: T| (pre.contains(x) || x == s[i]) implies #[trigger] nxt.contains(x) by {
        if pre.contains(x) {
            let t = choose|t: int| 0 <= t < pre.len() && pre[t] == x;
            assert(nxt[t] == x);
        } else {
            assert(nxt[i] == x);
        }
    }
}

fn contains_key(v: &Vec<Key>, k: Key) -> (r: bool)
    ensures
        r == v@.contains(k),
{
    let mut i: usize = 0;
    while i < v.len()
        invariant
            i <= v@.len(),
            forall|t: int| 0 <= t < i ==> v@[t] != k,
        decreases v@.len() - i,
    {
        if v[i] == k {
            return true;
        }
        i = i + 1;
    }
    false
}

fn insert_key(v: &mut Vec<Key>, k: Key)
    requires
        old(v)@.no_duplicates(),
    ensures
        final(v)@.no_duplicates(),
        forall|x: Key| #[trigger] final(v)@.contains(x) <==> (old(v)@.contains(x) || x == k),
{
    if !contains_key(v, k) {
        v.push(k);
        assert(forall|x: Key| #[trigger] v@.contains(x) <==> (old(v)@.contains(x) || x == k)) by {
            assert forall|x: Key| #[trigger] v@.contains(x) implies (old(v)@.contains(x) || x == k) by {
                let t = choose|t: int| 0 <= t < v@.len() && v@[t] == x;
                if t < old(v)@.len() {
                    assert(old(v)@[t] == x);
                }
            }
            assert forall|x: Key| old(v)@.contains(x) implies #[trigger] v@.contains(x) by {
                let t = choose|t: int| 0 <= t < old(v)@.len() && old(v)@[t] == x;
                assert(v@[t] == x);
            }
            assert(v@[old(v)@.len() as int] == k);
        }
    }
}

/// Adds the standard keys listed in `buf[lo..hi]`.
fn insert_codes(v: &mut Vec<Key>, buf: &Vec<u8>, lo: usize, hi: usize)
    requires
        old(v)@.no_duplicates(),
        lo <= hi <= buf@.len(),
    ensures
        final(v)@.no_duplicates(),
        forall|x: Key|
            #[trigger] final(v)@.contains(x) <==> (old(v)@.contains(x) || match x {
                Key::Standard(c) => code_listed(buf@, lo as int, hi as int, c),
                _ => false,
            }),
{
    let ghost start = v@;
    let mut i: usize = lo;
    while i < hi
        invariant
            lo <= i <= hi,
            hi <= buf@.len(),
            v@.no_duplicates(),
            forall|x: Key|
                #[trigger] v@.contains(x) <==> (start.contains(x) || match x {
                    Key::Standard(c) => code_listed(buf@, lo as int, i as int, c),
                    _ => false,
                }),
        decreases hi - i,
    {
        let b = buf[i];
        match standard_key(b) {
            Some(k) => insert_key(v, k),
            None => {},
        }
        proof {
            assert forall|x: Key| #[trigger] v@.contains(x) implies (start.contains(x) || match x {
                Key::Standard(c) => code_listed(buf@, lo as int, i + 1, c),
                _ => false,
            }) by {
                if let Key::Standard(c) = x {
                    if !start.contains(x) && !code_listed(buf@, lo as int, i as int, c) {
                        assert(c == b && is_standard_code(b));
                        assert(buf@[i as int] == c);
                    }
                }
            }
            assert forall|x: Key|
                (start.contains(x) || match x {
                    Key::Standard(c) => code_listed(buf@, lo as int, i + 1, c),
                    _ => false,
                }) implies #[trigger] v@.contains(x) by {
                if let Key::Standard(c) = x {
                    if !start.contains(x) && code_listed(buf@, lo as int, i + 1, c) {
                        let t = choose|t: int| lo <= t < i + 1 && buf@[t] == c;
                        if t < i {
                            assert(code_listed(buf@, lo as int, i as int, c));
                        }
                    }
                }
            }
        }
        i = i + 1;
    }
}

/// Adds the modifier keys whose bits are set in `m`.
fn insert_modifiers(v: &mut Vec<Key>, m: u8)
    requires
        old(v)@.no_duplicates(),
    ensures
        final(v)@.no_duplicates(),
        forall|x: Key|
            #[trigger] final(v)@.contains(x) <==> (old(v)@.contains(x) || match x {
                Key::Standard(c) => modifier_pressed(m, c),
                _ => false,
            }),
{
    let ghost start = v@;
    let mut j: u8 = 0;
    while j < 8
        invariant
            j <= 8,
            v@.no_duplicates(),
            forall|x: Key|
                #[trigger] v@.contains(x) <==> (start.contains(x) || match x {
                    Key::Standard(c) => 0xe0 <= c < 0xe0 + j && modifier_pressed(m, c),
                    _ => false,
                }),
        decreases 8 - j,
    {
        let mask: u8 = 1u8 << j;
        let code: u8 = 0xe0 + j;
        assert(modifier_mask(code) == mask) by {
            assert((code - 0xe0) as u8 == j);
        }
        if m & mask == mask {
            insert_key(v, Key::Standard(code));
        }
        j = j + 1;
    }
}

/// Adds the media keys whose bits are all set in `bits`.
fn insert_media(v: &mut Vec<Key>, codes: &Vec<u8>, bits: u8)
    requires
        old(v)@.no_duplicates(),
    ensures
        final(v)@.no_duplicates(),
        forall|x: Key|
            #[trigger] final(v)@.contains(x) <==> (old(v)@.contains(x) || match x {
                Key::Media(c) => codes@.contains(c) && bits & c == c,
                _ => false,
            }),
{
    let ghost start = v@;
    let mut i: usize = 0;
    while i < codes.len()
        invariant
            i <= codes@.len(),
            v@.no_duplicates(),
            forall|x: Key|
                #[trigger] v@.contains(x) <==> (start.contains(x) || match x {
                    Key::Media(c) => codes@.take(i as int).contains(c) && bits & c == c,
                    _ => false,
                }),
        decreases codes@.len() - i,
    {
        let c = codes[i];
        if bits & c == c {
            insert_key(v, Key::Media(c));
        }
        proof {
            lemma_take_next(codes@, i as int);
        }
        i = i + 1;
    }
    assert(codes@.take(codes@.len() as int) =~= codes@);
}

/// The edges from the keys of `before` to those of `after`.
fn diff_keys(before: &Vec<Key>, after: &Vec<Key>) -> (r: Vec<KeyEvent>)
    requires
        before@.no_duplicates(),
        after@.no_duplicates(),
    ensures
        is_diff(r@, before@.to_set(), after@.to_set()),
{
    let mut events: Vec<KeyEvent> = Vec::new();
    let mut i: usize = 0;
    while i < after.len()
        invariant
            i <= after@.len(),
            after@.no_duplicates(),
            events@.no_duplicates(),
            forall|t: int| 0 <= t < events@.len() ==> (#[trigger] events@[t]) is KeyPressed,
            forall|k: Key|
                #![trigger events@.contains(KeyEvent::KeyPressed(k))]
                events@.contains(KeyEvent::KeyPressed(k)) <==> (after@.take(i as int).contains(k)
                    && !before@.contains(k)),
        decreases after@.len() - i,
    {
        let k = after[i];
        let ghost old_events = events@;
        proof {
            assert(!after@.take(i as int).contains(k)) by {
                if after@.take(i as int).contains(k) {
                    let t = choose|t: int| 0 <= t < i && after@.take(i as int)[t] == k;
                    assert(after@[t] == after@[i as int]);
                }
            }
        }
        if !contains_key(before, k) {
            events.push(KeyEvent::KeyPressed(k));
            proof {
                assert(!old_events.contains(KeyEvent::KeyPressed(k)));
                assert forall|a: int, b: int| 0 <= a < b < events@.len() implies events@[a]
                    != events@[b] by {
                    if b == events@.len() - 1 {
                        assert(old_events[a] == events@[a]);
                    } else {
                        assert(old_events[a] == events@[a] && old_events[b] == events@[b]);
                    }
                }
            }
        }
        proof {
            lemma_take_next(after@, i as int);
            assert forall|x: Key| #[trigger]
                events@.contains(KeyEvent::KeyPressed(x)) <==> (old_events.contains(
                    KeyEvent::KeyPressed(x),
                ) || (x == k && !before@.contains(k))) by {
                if events@.contains(KeyEvent::KeyPressed(x)) && !old_events.contains(
                    KeyEvent::KeyPressed(x),
                ) {
                    let t = choose|t: int|
                        0 <= t < events@.len() && events@[t] == KeyEvent::KeyPressed(x);
                    if t < old_events.len() {
                        assert(old_events[t] == events@[t]);
                    }
                }
                if old_events.contains(KeyEvent::KeyPressed(x)) {
                    let t = choose|t: int|
                        0 <= t < old_events.len() && old_events[t] == KeyEvent::KeyPressed(x);
                    assert(events@[t] == old_events[t]);
                }
                if x == k && !before@.contains(k) {
                    assert(events@[events@.len() - 1] == KeyEvent::KeyPressed(k));
                }
            }
        }
        i = i + 1;
    }
    assert(after@.take(after@.len() as int) =~= after@);
    let n_pressed = events.len();
    let mut j: usize = 0;
    while j < before.len()
        invariant
            j <= before@.len(),
            n_pressed <= events@.len(),
            before@.no_duplicates(),
            events@.no_duplicates(),
            forall|t: int| 0 <= t < n_pressed ==> (#[trigger] events@[t]) is KeyPressed,
            forall|t: int| n_pressed <= t < events@.len() ==> (#[trigger] events@[t]) is KeyReleased,
            forall|k: Key|
                #![trigger events@.contains(KeyEvent::KeyPressed(k))]
                events@.contains(KeyEvent::KeyPressed(k)) <==> (after@.contains(k)
                    && !before@.contains(k)),
            forall|k: Key|
                #![trigger events@.contains(KeyEvent::KeyReleased(k))]
                events@.contains(KeyEvent::KeyReleased(k)) <==> (before@.take(j as int).contains(
                    k,
                ) && !after@.contains(k)),
        decreases before@.len() - j,
    {
        let k = before[j];
        let ghost old_events = events@;
        proof {
            assert(!before@.take(j as int).contains(k)) by {
                if before@.take(j as int).contains(k) {
                    let t = choose|t: int| 0 <= t < j && before@.take(j as int)[t] == k;
                    assert(before@[t] == before@[j as int]);
                }
            }
        }
        if !contains_key(after, k) {
            events.push(KeyEvent::KeyReleased(k));
            proof {
                assert(!old_events.contains(KeyEvent::KeyReleased(k)));
                assert forall|a: int, b: int| 0 <= a < b < events@.len() implies events@[a]
                    != events@[b] by {
                    if b == events@.len() - 1 {
                        assert(old_events[a] == events@[a]);
                    } else {
                        assert(old_events[a] == events@[a] && old_events[b] == events@[b]);
                    }
                }
            }
        }
        proof {
            lemma_take_next(before@, j as int);
            assert forall|x: Key| #[trigger]
                events@.contains(KeyEvent::KeyReleased(x)) <==> (old_events.contains(
                    KeyEvent::KeyReleased(x),
                ) || (x == k && !after@.contains(k))) by {
                if events@.contains(KeyEvent::KeyReleased(x)) && !old_events.contains(
                    KeyEvent::KeyReleased(x),
                ) {
                    let t = choose|t: int|
                        0 <= t < events@.len() && events@[t] == KeyEvent::KeyReleased(x);
                    if t < old_events.len() {
                        assert(old_events[t] == events@[t]);
                    }
                }
                if old_events.contains(KeyEvent::KeyReleased(x)) {
                    let t = choose|t: int|
                        0 <= t < old_events.len() && old_events[t] == KeyEvent::KeyReleased(x);
                    assert(events@[t] == old_events[t]);
                }
                if x == k && !after@.contains(k) {
                    assert(events@[events@.len() - 1] == KeyEvent::KeyReleased(k));
                }
            }
            assert forall|x: Key| #[trigger]
                events@.contains(KeyEvent::KeyPressed(x)) <==> old_events.contains(
                    KeyEvent::KeyPressed(x),
                ) by {
                if events@.contains(KeyEvent::KeyPressed(x)) {
                    let t = choose|t: int|
                        0 <= t < events@.len() && events@[t] == KeyEvent::KeyPressed(x);
                    if t < old_events.len() {
                        assert(old_events[t] == events@[t]);
                    }
                }
                if old_events.contains(KeyEvent::KeyPressed(x)) {
                    let t = choose|t: int|
                        0 <= t < old_events.len() && old_events[t] == KeyEvent::KeyPressed(x);
                    assert(events@[t] == old_events[t]);
                }
            }
        }
        j = j + 1;
    }
    assert(before@.take(before@.len() as int) =~= before@);
    proof {
        assert forall|a: int, b: int|
            0 <= a < b < events@.len() && (#[trigger] events@[a]) is KeyReleased implies (
            #[trigger] events@[b]) is KeyReleased by {
            if a < n_pressed {
                assert(events@[a] is KeyPressed);
            }
        }
    }
    events
}

/// The parser of key reports: one pressed-set per input stream.
pub struct KeyParser {
    pressed_keys: Vec<Key>,
    pressed_rollover_keys: Vec<Key>,
    pressed_media_keys: Vec<Key>,
    media_codes: Vec<u8>,
}

impl KeyParser {
    pub closed spec fn wf(&self) -> bool {
        &&& self.pressed_keys@.no_duplicates()
        &&& self.pressed_rollover_keys@.no_duplicates()
        &&& self.pressed_media_keys@.no_duplicates()
    }

    /// The keys currently held according to `stream`.
    pub closed spec fn pressed_set(&self, stream: Stream) -> Set<Key> {
        match stream {
            Stream::Standard => self.pressed_keys@.to_set(),
            Stream::Rollover => self.pressed_rollover_keys@.to_set(),
            Stream::Media => self.pressed_media_keys@.to_set(),
        }
    }

    /// The media key bits this parser recognises.
    pub closed spec fn spec_media_codes(&self) -> Seq<u8> {
        self.media_codes@
    }

    /// A parser with no key held, over the catalog's media keys.
    pub fn new() -> (r: KeyParser)
        ensures
            r.wf(),
            r.spec_media_codes() == default_media_codes(),
            forall|s: Stream| #[trigger] r.pressed_set(s) == Set::<Key>::empty(),
    {
        KeyParser::with_media_codes(media_codes())
    }

    /// A parser with no key held that recognises the media key bits `codes`.
    pub fn with_media_codes(codes: Vec<u8>) -> (r: KeyParser)
        ensures
            r.wf(),
            r.spec_media_codes() == codes@,
            forall|s: Stream| #[trigger] r.pressed_set(s) == Set::<Key>::empty(),
    {
        let r = KeyParser {
            pressed_keys: Vec::new(),
            pressed_rollover_keys: Vec::new(),
            pressed_media_keys: Vec::new(),
            media_codes: codes,
        };
        assert forall|s: Stream| #[trigger] r.pressed_set(s) == Set::<Key>::empty() by {
            assert(r.pressed_set(s) =~= Set::<Key>::empty());
        }
        r
    }

    /// Whether `packet` is a key report.
    pub fn accept(&self, packet: &Packet) -> (r: bool)
        ensures
            r == key_stream(packet.endpoint, packet.buf@) is Some,
    {
        let len = packet.buf.len();
        (len == 8 && packet.endpoint == 1 && packet.buf[1] == 0x00) || (len == 21
            && packet.endpoint == 2 && packet.buf[0] == 0x01) || (len == 2 && packet.endpoint == 2
            && packet.buf[0] == 0x02)
    }

    /// Reads a key report: the report's stream takes the keys the report
    /// holds as its new pressed-set, and the edges from its previous set are
    /// returned. The other streams are untouched.
    pub fn parse(&mut self, packet: &Packet) -> (r: Vec<KeyEvent>)
        requires
            old(self).wf(),
            key_stream(packet.endpoint, packet.buf@) is Some,
        ensures
            final(self).wf(),
            final(self).spec_media_codes() == old(self).spec_media_codes(),
            ({
                let s = key_stream(packet.endpoint, packet.buf@).unwrap();
                let now = report_keys(s, packet.buf@, old(self).spec_media_codes());
                &&& final(self).pressed_set(s) == now
                &&& is_diff(r@, old(self).pressed_set(s), now)
                &&& forall|o: Stream|
                    o != s ==> #[trigger] final(self).pressed_set(o) == old(self).pressed_set(o)
            }),
    {
        let ghost stream = key_stream(packet.endpoint, packet.buf@).unwrap();
        let ghost media = self.media_codes@;
        let buf = &packet.buf;
        let mut state: Vec<Key> = Vec::new();
        let is_standard = packet.endpoint == 1;
        let is_media = packet.endpoint == 2 && buf[0] == 0x02;
        if is_standard {
            insert_modifiers(&mut state, buf[0]);
            insert_codes(&mut state, buf, 2, 8);
        } else if is_media {
            insert_media(&mut state, &self.media_codes, buf[1]);
        } else {
            insert_codes(&mut state, buf, 1, 21);
        }
        assert(state@.to_set() =~= report_keys(stream, packet.buf@, media)) by {
            assert forall|k: Key| state@.to_set().contains(k) == report_keys(
                stream,
                packet.buf@,
                media,
            ).contains(k) by {
                assert(state@.contains(k) == report_has(stream, packet.buf@, media, k));
            }
        }
        if is_standard {
            let events = diff_keys(&self.pressed_keys, &state);
            self.pressed_keys = state;
            events
        } else if is_media {
            let events = diff_keys(&self.pressed_media_keys, &state);
            self.pressed_media_keys = state;
            events
        } else {
            let events = diff_keys(&self.pressed_rollover_keys, &state);
            self.pressed_rollover_keys = state;
            events
        }
    }
}

/// The opcode of an acknowledgement and of a flush.
pub const ACK_OPCODE: u8 = 0x11;

/// The opcode of a color batch.
pub const COLOR_OPCODE: u8 = 0x12;

/// Whether a packet is a control packet: the local echo of an outbound
/// transfer (endpoint 0, 20 or 64 bytes) or a device acknowledgement
/// (endpoint 2, 20 bytes, opcode 0x11).
pub open spec fn is_control(endpoint: u8, buf: Seq<u8>) -> bool {
    ((buf.len() == 20 || buf.len() == 64) && endpoint == 0) || (buf.len() == 20 && endpoint == 2
        && buf[0] == ACK_OPCODE)
}

/// The outcome of parsing a control packet: `None` when it is accepted
/// without effect, `Some(Ok(()))` when it acknowledges the packet in flight,
/// `Some(Err(..))` when its opcode is unknown.
pub open spec fn control_outcome(endpoint: u8, buf: Seq<u8>) -> Option<Result<(), Error>> {
    if buf.len() == 0 {
        None
    } else if endpoint == 0 && !(buf[0] == ACK_OPCODE || buf[0] == COLOR_OPCODE) {
        Some(Err(Error::UnknownControl))
    } else if endpoint == 2 && buf[0] != ACK_OPCODE {
        Some(Err(Error::UnknownControl))
    } else if endpoint == 2 {
        Some(Ok(()))
    } else {
        None
    }
}

/// The parser of control packets: it releases the next queued control
/// packet when the device acknowledges the previous one.
#[derive(Debug, Clone, Copy, PartialEq, Eq, Structural)]
pub struct ControlParser;

impl ControlParser {
    pub fn new() -> (r: ControlParser)
        ensures
            r == ControlParser,
    {
        ControlParser
    }

    /// Whether `packet` is a control packet.
    pub fn accept(&self, packet: &Packet) -> (r: bool)
        ensures
            r == is_control(packet.endpoint, packet.buf@),
    {
        let len = packet.buf.len();
        ((len == 20 || len == 64) && packet.endpoint == 0) || (len == 20 && packet.endpoint == 2
            && packet.buf[0] == ACK_OPCODE)
    }

    /// Reads a control packet: an acknowledgement releases the next queued
    /// control packet; an unknown opcode is an error.
    pub fn parse(&self, packet: &Packet, keyboard: &mut KeyboardInternal) -> (r: Result<
        (),
        Error,
    >)
        requires
            old(keyboard).wf(),
        ensures
            final(keyboard).wf(),
            final(keyboard).spec_reconnect_interval_ms() == old(keyboard).spec_reconnect_interval_ms(),
            final(keyboard).spec_reconnect_attempts() == old(keyboard).spec_reconnect_attempts(),
            final(keyboard).spec_auto_reconnect() == old(keyboard).spec_auto_reconnect(),
            match control_outcome(packet.endpoint, packet.buf@) {
                None => r == Ok::<(), Error>(()) && final(keyboard).queue_state() == old(keyboard).queue_state(),
                Some(Err(e)) => r == Err::<(), Error>(e) && final(keyboard).queue_state() == old(keyboard).queue_state(),
                Some(Ok(())) => {
                    &&& final(keyboard).queue_state() == crate::control::ack_step(
                        old(keyboard).queue_state(),
                    )
                    &&& r == (if old(keyboard).queue_state().in_flight {
                        Ok(())
                    } else {
                        Err(Error::QueueBroken)
                    })
                },
            },
    {
        let buf = &packet.buf;
        if buf.len() == 0 {
            Ok(())
        } else if packet.endpoint == 0 && !(buf[0] == ACK_OPCODE || buf[0] == COLOR_OPCODE) {
            Err(Error::UnknownControl)
        } else if packet.endpoint == 2 && buf[0] != ACK_OPCODE {
            Err(Error::UnknownControl)
        } else if packet.endpoint == 2 {
            keyboard.send_next_control()
        } else {
            Ok(())
        }
    }
}

} // verus!
