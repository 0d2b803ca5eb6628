use vstd::prelude::*;

use byteorder::{BigEndian, WriteBytesExt};

use crate::control::ControlPacket;
use crate::keys::{Key, KeyType};

verus! {

/// Header word of a color batch.
pub const BATCH_MAGIC: u32 = 0x12ff0f3b;

/// Header word of a flush command.
pub const FLUSH_MAGIC: u32 = 0x11ff0f5b;

/// The most entries a color batch holds.
pub const MAX_BATCH_LEN: usize = 14;

/// Size of an encoded color batch.
pub const BATCH_PAYLOAD_LEN: usize = 64;

/// Size of an encoded flush command.
pub const FLUSH_PAYLOAD_LEN: usize = 20;

#[derive(Debug, Clone, Copy, PartialEq, Eq, Structural)]
pub struct Color {
    pub red: u8,
    pub green: u8,
    pub blue: u8,
}

impl Color {
    pub fn new(red: u8, green: u8, blue: u8) -> (r: Color)
        ensures
            r == (Color { red, green, blue }),
    {
        Color { red, green, blue }
    }
}

#[derive(Debug, Clone, Copy, PartialEq, Eq, Structural)]
pub struct KeyColor {
    pub key: Key,
    pub color: Color,
}

impl KeyColor {
    pub fn new(key: Key, color: Color) -> (r: KeyColor)
        ensures
            r == (KeyColor { key, color }),
    {
        KeyColor { key, color }
    }
}

/// The four bytes of `n`, most significant first.
pub open spec fn be_u32(n: u32) -> Seq<u8> {
    seq![(n >> 24u32) as u8, (n >> 16u32) as u8, (n >> 8u32) as u8, n as u8]
}

/// The two bytes of `n`, most significant first.
pub open spec fn be_u16(n: u16) -> Seq<u8> {
    seq![(n >> 8u16) as u8, n as u8]
}

pub open spec fn zeros(n: nat) -> Seq<u8> {
    Seq::new(n, |i: int| 0u8)
}

/// One entry on the wire: code, red, green, blue.
pub open spec fn entry_bytes(e: (u8, Color)) -> Seq<u8> {
    seq![e.0, e.1.red, e.1.green, e.1.blue]
}

/// The entries on the wire, earliest first.
pub open spec fn entries_bytes(s: Seq<(u8, Color)>) -> Seq<u8>
    decreases s.len(),
{
    if s.len() == 0 {
        Seq::empty()
    } else {
        entries_bytes(s.drop_last()) + entry_bytes(s.last())
    }
}

/// Magic, category id, a reserved zero byte and the entry count.
pub open spec fn batch_header(kind: KeyType, n: nat) -> Seq<u8> {
    be_u32(BATCH_MAGIC) + be_u16(kind.spec_id()) + seq![0u8, n as u8]
}

/// The 64-byte payload of a color batch: header, entries, zero padding.
pub open spec fn encode_batch(kind: KeyType, entries: Seq<(u8, Color)>) -> Seq<u8> {
    let body = batch_header(kind, entries.len()) + entries_bytes(entries);
    body + zeros((BATCH_PAYLOAD_LEN - body.len()) as nat)
}

/// The 20-byte payload of a flush command: magic, then zeros.
pub open spec fn encode_flush() -> Seq<u8> {
    be_u32(FLUSH_MAGIC) + zeros((FLUSH_PAYLOAD_LEN - 4) as nat)
}

/// Relies on byteorder's `WriteBytesExt::write_u32::<BigEndian>`, which on a
/// `Vec<u8>` appends the four bytes of `n`, most significant first (appending
/// to a `Vec` does not fail).
#[verifier::external_body]
fn append_u32_be(buf: &mut Vec<u8>, n: u32)
    ensures
        final(buf)@ == old(buf)@ + be_u32(n),
{
    let _ = buf.write_u32::<BigEndian>(n);
}

/// Relies on byteorder's `WriteBytesExt::write_u16::<BigEndian>`, which on a
/// `Vec<u8>` appends the two bytes of `n`, most significant first (appending
/// to a `Vec` does not fail).
#[verifier::external_body]
fn append_u16_be(buf: &mut Vec<u8>, n: u16)
    ensures
        final(buf)@ == old(buf)@ + be_u16(n),
{
    let _ = buf.write_u16::<BigEndian>(n);
}

/// Pads `buf` with zero bytes up to `len`.
fn pad_zeros(buf: &mut Vec<u8>, len: usize)
    requires
        old(buf)@.len() <= len,
    ensures
        final(buf)@ == old(buf)@ + zeros((len - old(buf)@.len()) as nat),
{
    let ghost start = buf@;
    while buf.len() < len
        invariant
            start.len() <= buf@.len() <= len,
            buf@ == start + zeros((buf@.len() - start.len()) as nat),
        decreases len - buf@.len(),
    {
        buf.push(0u8);
        assert(buf@ =~= start + zeros((buf@.len() - start.len()) as nat));
    }
}

/// Conversion of a command into the control transfer that carries it.
pub trait ToControlPacket: Sized {
    /// The bytes of the command on the wire.
    spec fn payload(&self) -> Seq<u8>;

    fn to_control_packet(self) -> (r: ControlPacket)
        ensures
            r.buf@ == self.payload(),
            r.is_device_control(),
    ;
}

/// A batch of up to 14 color entries of one category, in append order.
pub struct ColorPacket {
    key_type: KeyType,
    colors: Vec<(u8, Color)>,
}

impl View for ColorPacket {
    type V = (KeyType, Seq<(u8, Color)>);

    closed spec fn view(&self) -> (KeyType, Seq<(u8, Color)>) {
        (self.key_type, self.colors@)
    }
}

impl ColorPacket {
    #[verifier::type_invariant]
    closed spec fn inv(&self) -> bool {
        self.colors@.len() <= MAX_BATCH_LEN
    }

    /// An empty batch of category `key_type`.
    pub fn new(key_type: KeyType) -> (r: ColorPacket)
        ensures
            r@.0 == key_type,
            r@.1.len() == 0,
    {
        ColorPacket { key_type, colors: Vec::new() }
    }

    /// Appends an entry. When the batch already holds 14 entries, the full
    /// batch is returned and this one starts over with the new entry as its
    /// only content; otherwise `None` is returned.
    pub fn add(&mut self, code: u8, color: Color) -> (r: Option<ColorPacket>)
        ensures
            final(self)@.0 == old(self)@.0,
            match r {
                Some(full) => {
                    &&& old(self)@.1.len() == MAX_BATCH_LEN
                    &&& full@ == old(self)@
                    &&& final(self)@.1 == seq![(code, color)]
                },
                None => {
                    &&& old(self)@.1.len() < MAX_BATCH_LEN
                    &&& final(self)@.1 == old(self)@.1.push((code, color))
                },
            },
    {
        let mut current = ColorPacket::new(self.key_type);
        std::mem::swap(self, &mut current);
        proof {
            use_type_invariant(&current);
        }
        if current.colors.len() == MAX_BATCH_LEN {
            *self = ColorPacket { key_type: current.key_type, colors: vec![(code, color)] };
            Some(current)
        } else {
            let ColorPacket { key_type, mut colors } = current;
            colors.push((code, color));
            *self = ColorPacket { key_type, colors };
            None
        }
    }

    /// The number of entries.
    pub fn len(&self) -> (r: usize)
        ensures
            r == self@.1.len(),
            r <= MAX_BATCH_LEN,
    {
        proof {
            use_type_invariant(self);
        }
        self.colors.len()
    }

    /// The category of the batch.
    pub fn key_type(&self) -> (r: KeyType)
        ensures
            r == self@.0,
    {
        self.key_type
    }
}

impl ToControlPacket for ColorPacket {
    open spec fn payload(&self) -> Seq<u8> {
        encode_batch(self@.0, self@.1)
    }

    fn to_control_packet(self) -> (r: ControlPacket) {
        proof {
            use_type_invariant(&self);
        }
        let mut buf: Vec<u8> = Vec::new();
        append_u32_be(&mut buf, BATCH_MAGIC);
        append_u16_be(&mut buf, self.key_type.id());
        buf.push(0u8);
        buf.push(self.colors.len() as u8);
        let ghost header = buf@;
        assert(header =~= batch_header(self.key_type, self.colors@.len()));
        let n = self.colors.len();
        let mut i: usize = 0;
        while i < n
            invariant
                n == self.colors@.len(),
                n <= MAX_BATCH_LEN,
                i <= n,
                buf@ == header + entries_bytes(self.colors@.take(i as int)),
                buf@.len() == 8 + 4 * i,
            decreases n - i,
        {
            let (code, color) = self.colors[i];
            buf.push(code);
            buf.push(color.red);
            buf.push(color.green);
            buf.push(color.blue);
            proof {
                let s = self.colors@.take(i + 1);
                assert(s.drop_last() =~= self.colors@.take(i as int));
                assert(s.last() == (code, color));
            }
            i = i + 1;
            assert(buf@ =~= header + entries_bytes(self.colors@.take(i as int)));
        }
        assert(self.colors@.take(n as int) =~= self.colors@);
        pad_zeros(&mut buf, BATCH_PAYLOAD_LEN);
        ControlPacket::device_control(buf)
    }
}

/// The command that commits the written color registers to the LEDs.
#[derive(Debug, Clone, Copy, PartialEq, Eq, Structural)]
pub struct FlushPacket;

impl FlushPacket {
    pub fn new() -> (r: FlushPacket)
        ensures
            r == FlushPacket,
    {
        FlushPacket
    }
}

impl ToControlPacket for FlushPacket {
    open spec fn payload(&self) -> Seq<u8> {
        encode_flush()
    }

    fn to_control_packet(self) -> (r: ControlPacket) {
        let mut buf: Vec<u8> = Vec::new();
        append_u32_be(&mut buf, FLUSH_MAGIC);
        pad_zeros(&mut buf, FLUSH_PAYLOAD_LEN);
        ControlPacket::device_control(buf)
    }
}

/// Each entry occupies four consecutive bytes at offset four times its index.
pub proof fn lemma_entries_bytes(s: Seq<(u8, Color)>)
    ensures
        entries_bytes(s).len() == 4 * s.len(),
        forall|i: int, k: int|
            0 <= i < s.len() && 0 <= k < 4 ==> #[trigger] entries_bytes(s)[4 * i + k]
                == entry_bytes(s[i])[k],
    decreases s.len(),
{
    if s.len() > 0 {
        lemma_entries_bytes(s.drop_last());
        assert forall|i: int, k: int| 0 <= i < s.len() && 0 <= k < 4 implies #[trigger] entries_bytes(
            s,
        )[4 * i + k] == entry_bytes(s[i])[k] by {
            if i < s.len() - 1 {
                assert(s.drop_last()[i] == s[i]);
            }
        }
    }
}

/// Layout of an encoded color batch: 64 bytes carrying the magic, the category
/// id, a zero byte, the entry count, the entries in append order as code, red,
/// green, blue, and zeros after the last entry.
pub proof fn lemma_batch_layout(kind: KeyType, entries: Seq<(u8, Color)>)
    requires
        entries.len() <= MAX_BATCH_LEN,
    ensures
        encode_batch(kind, entries).len() == BATCH_PAYLOAD_LEN,
        encode_batch(kind, entries).subrange(0, 4) == seq![0x12u8, 0xffu8, 0x0fu8, 0x3bu8],
        encode_batch(kind, entries)[4] == 0u8,
        encode_batch(kind, entries)[5] == kind.spec_id() as u8,
        encode_batch(kind, entries)[6] == 0u8,
        encode_batch(kind, entries)[7] == entries.len() as u8,
        forall|i: int|
            #![trigger entries[i]]
            0 <= i < entries.len() ==> {
                &&& encode_batch(kind, entries)[8 + 4 * i] == entries[i].0
                &&& encode_batch(kind, entries)[9 + 4 * i] == entries[i].1.red
                &&& encode_batch(kind, entries)[10 + 4 * i] == entries[i].1.green
                &&& encode_batch(kind, entries)[11 + 4 * i] == entries[i].1.blue
            },
        forall|j: int|
            8 + 4 * entries.len() <= j < BATCH_PAYLOAD_LEN ==> #[trigger] encode_batch(
                kind,
                entries,
            )[j] == 0u8,
{
    lemma_entries_bytes(entries);
    lemma_magic_bytes();
    let r = encode_batch(kind, entries);
    let h = batch_header(kind, entries.len());
    let body = h + entries_bytes(entries);
    assert(h.len() == 8);
    assert(r.subrange(0, 4) =~= seq![0x12u8, 0xffu8, 0x0fu8, 0x3bu8]);
    let id = kind.spec_id();
    assert((id >> 8u16) as u8 == 0u8 && id as u8 == id) by {
        assert(id == 1u16 || id == 4u16 || id == 16u16);
        assert(id < 256u16 ==> (id >> 8u16) == 0u16) by (bit_vector);
    }
    assert forall|i: int| #![trigger entries[i]] 0 <= i < entries.len() implies {
        &&& r[8 + 4 * i] == entries[i].0
        &&& r[9 + 4 * i] == entries[i].1.red
        &&& r[10 + 4 * i] == entries[i].1.green
        &&& r[11 + 4 * i] == entries[i].1.blue
    } by {
        assert(entries_bytes(entries)[4 * i + 0] == entry_bytes(entries[i])[0]);
        assert(entries_bytes(entries)[4 * i + 1] == entry_bytes(entries[i])[1]);
        assert(entries_bytes(entries)[4 * i + 2] == entry_bytes(entries[i])[2]);
        assert(entries_bytes(entries)[4 * i + 3] == entry_bytes(entries[i])[3]);
    }
}

/// The header words in bytes.
pub proof fn lemma_magic_bytes()
    ensures
        be_u32(BATCH_MAGIC) == seq![0x12u8, 0xffu8, 0x0fu8, 0x3bu8],
        be_u32(FLUSH_MAGIC) == seq![0x11u8, 0xffu8, 0x0fu8, 0x5bu8],
{
    let b: u32 = BATCH_MAGIC;
    let f: u32 = FLUSH_MAGIC;
    assert((b >> 24u32) as u8 == 0x12u8 && (b >> 16u32) as u8 == 0xffu8 && (b >> 8u32) as u8
        == 0x0fu8 && b as u8 == 0x3bu8) by (bit_vector)
        requires
            b == 0x12ff0f3bu32,
    ;
    assert((f >> 24u32) as u8 == 0x11u8 && (f >> 16u32) as u8 == 0xffu8 && (f >> 8u32) as u8
        == 0x0fu8 && f as u8 == 0x5bu8) by (bit_vector)
        requires
            f == 0x11ff0f5bu32,
    ;
    assert(be_u32(BATCH_MAGIC) =~= seq![0x12u8, 0xffu8, 0x0fu8, 0x3bu8]);
    assert(be_u32(FLUSH_MAGIC) =~= seq![0x11u8, 0xffu8, 0x0fu8, 0x5bu8]);
}

/// Layout of the flush command: 20 bytes, the magic `0x11FF0F5B` first and
/// zeros after it.
pub proof fn lemma_flush_layout()
    ensures
        encode_flush().len() == FLUSH_PAYLOAD_LEN,
        encode_flush().subrange(0, 4) == seq![0x11u8, 0xffu8, 0x0fu8, 0x5bu8],
        forall|j: int| 4 <= j < FLUSH_PAYLOAD_LEN ==> #[trigger] encode_flush()[j] == 0u8,
{
    lemma_magic_bytes();
    assert(encode_flush().subrange(0, 4) =~= seq![0x11u8, 0xffu8, 0x0fu8, 0x5bu8]);
}

} // verus!
