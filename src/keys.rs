use vstd::prelude::*;

verus! {

/// Wire bytes of the eight modifier keys of the standard stream, in the bit
/// order of the modifier byte (bit 0 first).
pub const LEFT_CONTROL: u8 = 0xe0;
pub const LEFT_SHIFT: u8 = 0xe1;
pub const LEFT_ALT: u8 = 0xe2;
pub const LEFT_WINDOWS: u8 = 0xe3;
pub const RIGHT_CONTROL: u8 = 0xe4;
pub const RIGHT_SHIFT: u8 = 0xe5;
pub const RIGHT_ALT: u8 = 0xe6;
pub const RIGHT_WINDOWS: u8 = 0xe7;

/// The category of a key whose LED can be programmed; it is sent on the wire
/// as a 16-bit id.
#[derive(Debug, Clone, Copy, PartialEq, Eq, Hash, Structural)]
pub enum KeyType {
    Standard,
    Gaming,
    Logo,
}

impl KeyType {
    pub open spec fn spec_id(self) -> u16 {
        match self {
            KeyType::Standard => 0x0001,
            KeyType::Gaming => 0x0004,
            KeyType::Logo => 0x0010,
        }
    }

    /// The category id written in the header of a color batch.
    pub fn id(&self) -> (r: u16)
        ensures
            r == self.spec_id(),
    {
        match self {
            KeyType::Standard => 0x0001,
            KeyType::Gaming => 0x0004,
            KeyType::Logo => 0x0010,
        }
    }
}

/// A key: its category and its category-local wire byte.
#[derive(Debug, Clone, Copy, PartialEq, Eq, Hash, Structural)]
pub enum Key {
    Standard(u8),
    Gaming(u8),
    Logo(u8),
    Media(u8),
}

/// An edge of a key: it went down or came up.
#[derive(Debug, Clone, Copy, PartialEq, Eq, Hash, Structural)]
pub enum KeyEvent {
    KeyPressed(Key),
    KeyReleased(Key),
}

/// Wire bytes of the standard keys.
pub open spec fn is_standard_code(b: u8) -> bool {
    (0x04 <= b <= 0x65) || (0x87 <= b <= 0x8b) || (0xe0 <= b <= 0xe7)
}

/// Wire bytes of the gaming keys G1..G9.
pub open spec fn is_gaming_code(b: u8) -> bool {
    0x01 <= b <= 0x09
}

/// Wire bytes of the two logo zones.
pub open spec fn is_logo_code(b: u8) -> bool {
    0x01 <= b <= 0x02
}

/// Wire bits of the media keys (next, previous, stop, play/pause, mute,
/// volume up, volume down).
pub open spec fn default_media_codes() -> Seq<u8> {
    seq![0x01u8, 0x02u8, 0x04u8, 0x08u8, 0x10u8, 0x20u8, 0x40u8]
}

impl Key {
    pub open spec fn spec_code(self) -> u8 {
        match self {
            Key::Standard(c) => c,
            Key::Gaming(c) => c,
            Key::Logo(c) => c,
            Key::Media(c) => c,
        }
    }

    pub open spec fn spec_key_type(self) -> Option<KeyType> {
        match self {
            Key::Standard(_) => Some(KeyType::Standard),
            Key::Gaming(_) => Some(KeyType::Gaming),
            Key::Logo(_) => Some(KeyType::Logo),
            Key::Media(_) => None,
        }
    }

    pub open spec fn is_media(self) -> bool {
        self is Media
    }

    /// The key's wire byte.
    pub fn code(&self) -> (r: u8)
        ensures
            r == self.spec_code(),
    {
        match self {
            Key::Standard(c) => *c,
            Key::Gaming(c) => *c,
            Key::Logo(c) => *c,
            Key::Media(c) => *c,
        }
    }

    /// The key's category; media keys have no programmable LED and so none.
    pub fn key_type(&self) -> (r: Option<KeyType>)
        ensures
            r == self.spec_key_type(),
    {
        match self {
            Key::Standard(_) => Some(KeyType::Standard),
            Key::Gaming(_) => Some(KeyType::Gaming),
            Key::Logo(_) => Some(KeyType::Logo),
            Key::Media(_) => None,
        }
    }
}

/// The standard key with wire byte `b`, if the catalog has one.
pub fn standard_key(b: u8) -> (r: Option<Key>)
    ensures
        r == (if is_standard_code(b) {
            Some(Key::Standard(b))
        } else {
            None
        }),
{
    if (0x04 <= b && b <= 0x65) || (0x87 <= b && b <= 0x8b) || (0xe0 <= b && b <= 0xe7) {
        Some(Key::Standard(b))
    } else {
        None
    }
}

/// The keys whose wire bytes run from `lo` to `hi`, in one category.
pub open spec fn key_run(kind: KeyType, lo: u8, hi: u8) -> Seq<Key>
    recommends
        lo <= hi,
{
    Seq::new((hi - lo + 1) as nat, |i: int| key_of(kind, (lo + i) as u8))
}

pub open spec fn key_of(kind: KeyType, code: u8) -> Key {
    match kind {
        KeyType::Standard => Key::Standard(code),
        KeyType::Gaming => Key::Gaming(code),
        KeyType::Logo => Key::Logo(code),
    }
}

/// Every key with a programmable LED: the standard keys in wire order, then
/// the gaming keys, then the logo zones.
pub open spec fn programmable_catalog() -> Seq<Key> {
    key_run(KeyType::Standard, 0x04, 0x65) + key_run(KeyType::Standard, 0x87, 0x8b) + key_run(
        KeyType::Standard,
        0xe0,
        0xe7,
    ) + key_run(KeyType::Gaming, 0x01, 0x09) + key_run(KeyType::Logo, 0x01, 0x02)
}

fn make_key(kind: KeyType, code: u8) -> (r: Key)
    ensures
        r == key_of(kind, code),
{
    match kind {
        KeyType::Standard => Key::Standard(code),
        KeyType::Gaming => Key::Gaming(code),
        KeyType::Logo => Key::Logo(code),
    }
}

fn push_run(v: &mut Vec<Key>, kind: KeyType, lo: u8, hi: u8)
    requires
        lo <= hi < 255,
    ensures
        final(v)@ == old(v)@ + key_run(kind, lo, hi),
{
    let ghost start = v@;
    let mut c: u8 = lo;
    while c <= hi
        invariant
            lo <= c <= hi + 1,
            hi < 255,
            v@ == start + Seq::new((c - lo) as nat, |i: int| key_of(kind, (lo + i) as u8)),
        decreases hi + 1 - c,
    {
        v.push(make_key(kind, c));
        c = c + 1;
        assert(v@ =~= start + Seq::new((c - lo) as nat, |i: int| key_of(kind, (lo + i) as u8)));
    }
    assert(v@ =~= start + key_run(kind, lo, hi));
}

/// The catalog of keys with a programmable LED, in catalog order.
pub fn programmable_keys() -> (r: Vec<Key>)
    ensures
        r@ == programmable_catalog(),
{
    let mut v: Vec<Key> = Vec::new();
    push_run(&mut v, KeyType::Standard, 0x04, 0x65);
    push_run(&mut v, KeyType::Standard, 0x87, 0x8b);
    push_run(&mut v, KeyType::Standard, 0xe0, 0xe7);
    push_run(&mut v, KeyType::Gaming, 0x01, 0x09);
    push_run(&mut v, KeyType::Logo, 0x01, 0x02);
    assert(v@ =~= programmable_catalog());
    v
}

/// The catalog's media key bits.
pub fn media_codes() -> (r: Vec<u8>)
    ensures
        r@ == default_media_codes(),
{
    let r = vec![0x01u8, 0x02u8, 0x04u8, 0x08u8, 0x10u8, 0x20u8, 0x40u8];
    assert(r@ =~= default_media_codes());
    r
}

} // verus!
