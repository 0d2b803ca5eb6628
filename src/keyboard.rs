use vstd::prelude::*;

use crate::color::{
    encode_batch, encode_flush, Color, ColorPacket, FlushPacket, KeyColor, ToControlPacket,
    MAX_BATCH_LEN,
};
use crate::control::{
    enqueue_all, enqueue_step, packets_carry, ControlPacket, ControlQueue, QueueState,
};
use crate::error::Error;
use crate::keys::{programmable_catalog, programmable_keys, Key, KeyType};

verus! {

/// Default pause between two reconnection attempts, in milliseconds.
pub const DEFAULT_RECONNECT_INTERVAL_MS: u64 = 1000;

/// Default number of reconnection attempts.
pub const DEFAULT_RECONNECT_ATTEMPTS: i32 = 10;

/// The three batch builders of a color request, one per category.
pub struct ColorBuilders {
    pub standard: Seq<(u8, Color)>,
    pub gaming: Seq<(u8, Color)>,
    pub logo: Seq<(u8, Color)>,
}

pub open spec fn empty_builders() -> ColorBuilders {
    ColorBuilders { standard: Seq::empty(), gaming: Seq::empty(), logo: Seq::empty() }
}

pub open spec fn builder_of(b: ColorBuilders, kind: KeyType) -> Seq<(u8, Color)> {
    match kind {
        KeyType::Standard => b.standard,
        KeyType::Gaming => b.gaming,
        KeyType::Logo => b.logo,
    }
}

pub open spec fn with_builder(
    b: ColorBuilders,
    kind: KeyType,
    s: Seq<(u8, Color)>,
) -> ColorBuilders {
    match kind {
        KeyType::Standard => ColorBuilders { standard: s, ..b },
        KeyType::Gaming => ColorBuilders { gaming: s, ..b },
        KeyType::Logo => ColorBuilders { logo: s, ..b },
    }
}

/// One entry of a color request: a full builder of its category is emitted
/// first and started over, then the entry is appended. Media keys change
/// nothing here (the request fails on them).
pub open spec fn color_step(
    st: (Seq<Seq<u8>>, ColorBuilders),
    kc: KeyColor,
) -> (Seq<Seq<u8>>, ColorBuilders) {
    match kc.key.spec_key_type() {
        None => st,
        Some(kind) => {
            let cur = builder_of(st.1, kind);
            let e = (kc.key.spec_code(), kc.color);
            if cur.len() == MAX_BATCH_LEN {
                (st.0.push(encode_batch(kind, cur)), with_builder(st.1, kind, seq![e]))
            } else {
                (st.0, with_builder(st.1, kind, cur.push(e)))
            }
        },
    }
}

/// The payloads emitted while the entries of `r` are appended, and the
/// builders left afterwards.
pub open spec fn color_run(r: Seq<KeyColor>) -> (Seq<Seq<u8>>, ColorBuilders)
    decreases r.len(),
{
    if r.len() == 0 {
        (Seq::empty(), empty_builders())
    } else {
        color_step(color_run(r.drop_last()), r.last())
    }
}

/// The batch of a non-empty builder.
pub open spec fn tail_batch(kind: KeyType, s: Seq<(u8, Color)>) -> Seq<Seq<u8>> {
    if s.len() > 0 {
        seq![encode_batch(kind, s)]
    } else {
        Seq::empty()
    }
}

/// Every payload of a color request without media keys: the full batches in
/// append order, the remaining standard, gaming and logo batches, and a flush.
pub open spec fn color_payloads(r: Seq<KeyColor>) -> Seq<Seq<u8>> {
    let (emitted, b) = color_run(r);
    emitted + tail_batch(KeyType::Standard, b.standard) + tail_batch(KeyType::Gaming, b.gaming)
        + tail_batch(KeyType::Logo, b.logo) + seq![encode_flush()]
}

pub open spec fn has_media(r: Seq<KeyColor>) -> bool {
    exists|i: int| 0 <= i < r.len() && (#[trigger] r[i]).key.is_media()
}

/// `m` is the position of the first media key of `r`.
pub open spec fn first_media_at(r: Seq<KeyColor>, m: int) -> bool {
    &&& 0 <= m < r.len()
    &&& r[m].key.is_media()
    &&& forall|j: int| 0 <= j < m ==> !(#[trigger] r[j]).key.is_media()
}

/// Every key of the catalog with the same color.
pub open spec fn all_colored(c: Color) -> Seq<KeyColor> {
    programmable_catalog().map_values(|k: Key| KeyColor { key: k, color: c })
}

/// The keyboard's command side: the control queue and the reconnection
/// settings.
pub struct KeyboardInternal {
    queue: ControlQueue,
    reconnect_interval_ms: u64,
    reconnect_attempts: i32,
    auto_reconnect: bool,
}

impl KeyboardInternal {
    pub closed spec fn wf(&self) -> bool {
        self.queue.wf()
    }

    /// The state of the control queue.
    pub closed spec fn queue_state(&self) -> QueueState {
        self.queue@
    }

    pub closed spec fn spec_reconnect_interval_ms(&self) -> u64 {
        self.reconnect_interval_ms
    }

    pub closed spec fn spec_reconnect_attempts(&self) -> i32 {
        self.reconnect_attempts
    }

    pub closed spec fn spec_auto_reconnect(&self) -> bool {
        self.auto_reconnect
    }

    /// An idle keyboard with the default reconnection settings.
    pub fn new() -> (r: KeyboardInternal)
        ensures
            r.wf(),
            r.queue_state().submitted.len() == 0,
            r.queue_state().pending.len() == 0,
            !r.queue_state().in_flight,
            r.spec_reconnect_interval_ms() == DEFAULT_RECONNECT_INTERVAL_MS,
            r.spec_reconnect_attempts() == DEFAULT_RECONNECT_ATTEMPTS,
            r.spec_auto_reconnect(),
    {
        KeyboardInternal {
            queue: ControlQueue::new(),
            reconnect_interval_ms: DEFAULT_RECONNECT_INTERVAL_MS,
            reconnect_attempts: DEFAULT_RECONNECT_ATTEMPTS,
            auto_reconnect: true,
        }
    }

    /// Hands a control packet to the queue.
    pub fn queue_control_packet(&mut self, packet: ControlPacket)
        requires
            old(self).wf(),
        ensures
            final(self).wf(),
            final(self).queue_state() == enqueue_step(old(self).queue_state(), packet),
            final(self).spec_reconnect_interval_ms() == old(self).spec_reconnect_interval_ms(),
            final(self).spec_reconnect_attempts() == old(self).spec_reconnect_attempts(),
            final(self).spec_auto_reconnect() == old(self).spec_auto_reconnect(),
    {
        self.queue.enqueue(packet);
    }

    /// Takes the device's acknowledgement of the packet in flight and
    /// releases the next one.
    pub fn send_next_control(&mut self) -> (r: Result<(), Error>)
        requires
            old(self).wf(),
        ensures
            final(self).wf(),
            final(self).queue_state() == crate::control::ack_step(old(self).queue_state()),
            r == (if old(self).queue_state().in_flight {
                Ok(())
            } else {
                Err(Error::QueueBroken)
            }),
            final(self).spec_reconnect_interval_ms() == old(self).spec_reconnect_interval_ms(),
            final(self).spec_reconnect_attempts() == old(self).spec_reconnect_attempts(),
            final(self).spec_auto_reconnect() == old(self).spec_auto_reconnect(),
    {
        self.queue.acknowledge()
    }

    /// The packets released for transmission since the last call, oldest
    /// first; the caller writes them to the device.
    pub fn take_submitted(&mut self) -> (r: Vec<ControlPacket>)
        requires
            old(self).wf(),
        ensures
            final(self).wf(),
            r@ == old(self).queue_state().submitted,
            final(self).queue_state() == (QueueState {
                submitted: Seq::empty(),
                ..old(self).queue_state()
            }),
            final(self).spec_reconnect_interval_ms() == old(self).spec_reconnect_interval_ms(),
            final(self).spec_reconnect_attempts() == old(self).spec_reconnect_attempts(),
            final(self).spec_auto_reconnect() == old(self).spec_auto_reconnect(),
    {
        self.queue.take_submitted()
    }

    /// Whether a control transfer awaits its acknowledgement.
    pub fn control_in_flight(&self) -> (r: bool)
        requires
            self.wf(),
        ensures
            r == self.queue_state().in_flight,
    {
        self.queue.in_flight()
    }

    /// The number of control packets waiting behind the one in flight.
    pub fn pending_controls(&self) -> (r: usize)
        ensures
            r == self.queue_state().pending.len(),
    {
        self.queue.pending_len()
    }

    /// Queues the batch of a builder that holds entries.
    fn queue_tail(
        &mut self,
        b: ColorPacket,
        Ghost(q0): Ghost<QueueState>,
        Ghost(ps): Ghost<Seq<ControlPacket>>,
        Ghost(payloads): Ghost<Seq<Seq<u8>>>,
    ) -> (res: Ghost<Seq<ControlPacket>>)
        requires
            old(self).wf(),
            old(self).queue_state() == enqueue_all(q0, ps),
            packets_carry(ps, payloads),
        ensures
            final(self).wf(),
            final(self).queue_state() == enqueue_all(q0, res@),
            packets_carry(res@, payloads + tail_batch(b@.0, b@.1)),
            final(self).spec_reconnect_interval_ms() == old(self).spec_reconnect_interval_ms(),
            final(self).spec_reconnect_attempts() == old(self).spec_reconnect_attempts(),
            final(self).spec_auto_reconnect() == old(self).spec_auto_reconnect(),
    {
        if b.len() > 0 {
            let ghost view = b@;
            let pkt = b.to_control_packet();
            let ghost ps2 = ps.push(pkt);
            assert(ps2.drop_last() =~= ps);
            self.queue_control_packet(pkt);
            assert(payloads + tail_batch(view.0, view.1) =~= payloads.push(pkt.buf@));
            assert(packets_carry(ps2, payloads + tail_batch(view.0, view.1))) by {
                assert forall|j: int| 0 <= j < ps2.len() implies (#[trigger] ps2[j]).buf@ == (
                payloads + tail_batch(view.0, view.1))[j] by {
                    if j < ps.len() {
                        assert(ps2[j] == ps[j]);
                    }
                }
                assert forall|j: int| 0 <= j < ps2.len() implies (
                #[trigger] ps2[j]).is_device_control() by {
                    if j < ps.len() {
                        assert(ps2[j] == ps[j]);
                    }
                }
            }
            Ghost(ps2)
        } else {
            assert(payloads + tail_batch(b@.0, b@.1) =~= payloads);
            Ghost(ps)
        }
    }

    /// Sets the colors of the given keys: the entries are split by category
    /// into batches of at most 14, which are queued (full batches as they
    /// fill, then the rest in the order standard, gaming, logo), followed by
    /// a flush. A media key fails the request with `InvalidTarget`; the
    /// batches that filled up before it stay queued.
    pub fn set_key_colors(&mut self, key_colors: Vec<KeyColor>) -> (r: Result<(), Error>)
        requires
            old(self).wf(),
        ensures
            final(self).wf(),
            final(self).spec_reconnect_interval_ms() == old(self).spec_reconnect_interval_ms(),
            final(self).spec_reconnect_attempts() == old(self).spec_reconnect_attempts(),
            final(self).spec_auto_reconnect() == old(self).spec_auto_reconnect(),
            r is Ok <==> !has_media(key_colors@),
            r is Ok ==> exists|ps: Seq<ControlPacket>|
                {
                    &&& final(self).queue_state() == enqueue_all(old(self).queue_state(), ps)
                    &&& packets_carry(ps, color_payloads(key_colors@))
                },
            r is Err ==> r == Err::<(), Error>(Error::InvalidTarget),
            r is Err ==> exists|m: int, ps: Seq<ControlPacket>|
                {
                    &&& first_media_at(key_colors@, m)
                    &&& final(self).queue_state() == enqueue_all(old(self).queue_state(), ps)
                    &&& packets_carry(ps, color_run(key_colors@.take(m)).0)
                },
    {
        let ghost q0 = self.queue_state();
        let ghost r = key_colors@;
        let ghost mut ps: Seq<ControlPacket> = Seq::empty();
        let mut standard = ColorPacket::new(KeyType::Standard);
        let mut gaming = ColorPacket::new(KeyType::Gaming);
        let mut logo = ColorPacket::new(KeyType::Logo);
        let n = key_colors.len();
        let mut i: usize = 0;
        assert(r.take(0) =~= Seq::<KeyColor>::empty());
        while i < n
            invariant
                n == r.len(),
                r == key_colors@,
                i <= n,
                self.wf(),
                self.spec_reconnect_interval_ms() == old(self).spec_reconnect_interval_ms(),
                self.spec_reconnect_attempts() == old(self).spec_reconnect_attempts(),
                self.spec_auto_reconnect() == old(self).spec_auto_reconnect(),
                forall|j: int| 0 <= j < i ==> !(#[trigger] r[j]).key.is_media(),
                q0 == old(self).queue_state(),
                self.queue_state() == enqueue_all(q0, ps),
                packets_carry(ps, color_run(r.take(i as int)).0),
                standard@ == (KeyType::Standard, color_run(r.take(i as int)).1.standard),
                gaming@ == (KeyType::Gaming, color_run(r.take(i as int)).1.gaming),
                logo@ == (KeyType::Logo, color_run(r.take(i as int)).1.logo),
            decreases n - i,
        {
            let kc = key_colors[i];
            let ghost before = color_run(r.take(i as int));
            proof {
                assert(r.take(i + 1).drop_last() =~= r.take(i as int));
                assert(r.take(i + 1).last() == kc);
            }
            let full = match kc.key {
                Key::Standard(c) => standard.add(c, kc.color),
                Key::Gaming(c) => gaming.add(c, kc.color),
                Key::Logo(c) => logo.add(c, kc.color),
                Key::Media(_) => {
                    proof {
                        assert(first_media_at(r, i as int));
                        assert(has_media(r));
                        assert(key_colors@.take(i as int) == r.take(i as int));
                        assert(enqueue_all(old(self).queue_state(), ps) == enqueue_all(q0, ps));
                        assert(first_media_at(key_colors@, i as int) && self.queue_state()
                            == enqueue_all(q0, ps) && packets_carry(
                            ps,
                            color_run(key_colors@.take(i as int)).0,
                        ));
                    }
                    return Err(Error::InvalidTarget);
                },
            };
            match full {
                Some(p) => {
                    let pkt = p.to_control_packet();
                    proof {
                        let ps2 = ps.push(pkt);
                        assert(ps2.drop_last() =~= ps);
                        assert(color_run(r.take(i + 1)).0 =~= before.0.push(pkt.buf@));
                        ps = ps2;
                    }
                    self.queue_control_packet(pkt);
                },
                None => {},
            }
            i = i + 1;
            proof {
                assert(color_run(r.take(i as int)).1.standard =~= standard@.1);
                assert(color_run(r.take(i as int)).1.gaming =~= gaming@.1);
                assert(color_run(r.take(i as int)).1.logo =~= logo@.1);
            }
        }
        assert(r.take(n as int) =~= r);
        let ghost run = color_run(r);
        let Ghost(ps) = self.queue_tail(standard, Ghost(q0), Ghost(ps), Ghost(run.0));
        let Ghost(ps) = self.queue_tail(
            gaming,
            Ghost(q0),
            Ghost(ps),
            Ghost(run.0 + tail_batch(KeyType::Standard, run.1.standard)),
        );
        let Ghost(ps) = self.queue_tail(
            logo,
            Ghost(q0),
            Ghost(ps),
            Ghost(
                run.0 + tail_batch(KeyType::Standard, run.1.standard) + tail_batch(
                    KeyType::Gaming,
                    run.1.gaming,
                ),
            ),
        );
        let flush = FlushPacket::new().to_control_packet();
        let ghost before = ps;
        proof {
            let ps2 = ps.push(flush);
            assert(ps2.drop_last() =~= ps);
            ps = ps2;
        }
        self.queue_control_packet(flush);
        proof {
            let pre = run.0 + tail_batch(KeyType::Standard, run.1.standard) + tail_batch(
                KeyType::Gaming,
                run.1.gaming,
            ) + tail_batch(KeyType::Logo, run.1.logo);
            assert(color_payloads(r) =~= pre.push(encode_flush()));
            assert(packets_carry(ps, color_payloads(r))) by {
                assert forall|j: int| 0 <= j < ps.len() implies (#[trigger] ps[j]).buf@
                    == color_payloads(r)[j] by {
                    if j < before.len() {
                        assert(ps[j] == before[j]);
                    }
                }
                assert forall|j: int| 0 <= j < ps.len() implies (
                #[trigger] ps[j]).is_device_control() by {
                    if j < before.len() {
                        assert(ps[j] == before[j]);
                    }
                }
            }
            assert(!has_media(r));
            assert(enqueue_all(old(self).queue_state(), ps) == enqueue_all(q0, ps));
        }
        Ok(())
    }

    /// Sets the color of one key.
    pub fn set_color(&mut self, key_color: KeyColor) -> (r: Result<(), Error>)
        requires
            old(self).wf(),
        ensures
            final(self).wf(),
            final(self).spec_reconnect_interval_ms() == old(self).spec_reconnect_interval_ms(),
            final(self).spec_reconnect_attempts() == old(self).spec_reconnect_attempts(),
            final(self).spec_auto_reconnect() == old(self).spec_auto_reconnect(),
            r is Ok <==> !key_color.key.is_media(),
            r is Ok ==> exists|ps: Seq<ControlPacket>|
                {
                    &&& final(self).queue_state() == enqueue_all(old(self).queue_state(), ps)
                    &&& packets_carry(ps, color_payloads(seq![key_color]))
                },
            r is Err ==> r == Err::<(), Error>(Error::InvalidTarget) && final(self).queue_state()
                == old(self).queue_state(),
    {
        let key_colors = vec![key_color];
        assert(key_colors@ =~= seq![key_color]);
        let r = self.set_key_colors(key_colors);
        proof {
            if r is Err {
                let (m, ps) = choose|m: int, ps: Seq<ControlPacket>|
                    {
                        &&& first_media_at(seq![key_color], m)
                        &&& self.queue_state() == enqueue_all(old(self).queue_state(), ps)
                        &&& packets_carry(ps, color_run(seq![key_color].take(m)).0)
                    };
                assert(m == 0);
                assert(seq![key_color].take(0) =~= Seq::<KeyColor>::empty());
                assert(ps.len() == 0);
            } else {
                assert(!has_media(seq![key_color]));
                assert(seq![key_color][0] == key_color);
            }
        }
        r
    }

    /// Sets every key with a programmable LED to `color`.
    pub fn set_all_colors(&mut self, color: Color) -> (r: Result<(), Error>)
        requires
            old(self).wf(),
        ensures
            final(self).wf(),
            final(self).spec_reconnect_interval_ms() == old(self).spec_reconnect_interval_ms(),
            final(self).spec_reconnect_attempts() == old(self).spec_reconnect_attempts(),
            final(self).spec_auto_reconnect() == old(self).spec_auto_reconnect(),
            r is Ok,
            exists|ps: Seq<ControlPacket>|
                {
                    &&& final(self).queue_state() == enqueue_all(old(self).queue_state(), ps)
                    &&& packets_carry(ps, color_payloads(all_colored(color)))
                },
    {
        let keys = programmable_keys();
        let mut key_colors: Vec<KeyColor> = Vec::new();
        let mut i: usize = 0;
        while i < keys.len()
            invariant
                i <= keys@.len(),
                keys@ == programmable_catalog(),
                key_colors@ == all_colored(color).take(i as int),
            decreases keys@.len() - i,
        {
            key_colors.push(KeyColor::new(keys[i], color));
            i = i + 1;
            assert(key_colors@ =~= all_colored(color).take(i as int));
        }
        assert(key_colors@ =~= all_colored(color));
        proof {
            lemma_catalog_has_no_media(color);
        }
        self.set_key_colors(key_colors)
    }

    pub fn set_reconnect_interval(&mut self, interval_ms: u64)
        ensures
            final(self).spec_reconnect_interval_ms() == interval_ms,
            final(self).spec_reconnect_attempts() == old(self).spec_reconnect_attempts(),
            final(self).spec_auto_reconnect() == old(self).spec_auto_reconnect(),
            final(self).queue_state() == old(self).queue_state(),
            final(self).wf() == old(self).wf(),
    {
        self.reconnect_interval_ms = interval_ms;
    }

    pub fn set_reconnect_attempts(&mut self, attempts: i32)
        ensures
            final(self).spec_reconnect_attempts() == attempts,
            final(self).spec_reconnect_interval_ms() == old(self).spec_reconnect_interval_ms(),
            final(self).spec_auto_reconnect() == old(self).spec_auto_reconnect(),
            final(self).queue_state() == old(self).queue_state(),
            final(self).wf() == old(self).wf(),
    {
        self.reconnect_attempts = attempts;
    }

    pub fn set_auto_reconnect(&mut self, enabled: bool)
        ensures
            final(self).spec_auto_reconnect() == enabled,
            final(self).spec_reconnect_interval_ms() == old(self).spec_reconnect_interval_ms(),
            final(self).spec_reconnect_attempts() == old(self).spec_reconnect_attempts(),
            final(self).queue_state() == old(self).queue_state(),
            final(self).wf() == old(self).wf(),
    {
        self.auto_reconnect = enabled;
    }

    pub fn reconnect_interval_ms(&self) -> (r: u64)
        ensures
            r == self.spec_reconnect_interval_ms(),
    {
        self.reconnect_interval_ms
    }

    pub fn reconnect_attempts(&self) -> (r: i32)
        ensures
            r == self.spec_reconnect_attempts(),
    {
        self.reconnect_attempts
    }

    pub fn auto_reconnect(&self) -> (r: bool)
        ensures
            r == self.spec_auto_reconnect(),
    {
        self.auto_reconnect
    }
}

/// No key of the catalog is a media key.
pub proof fn lemma_catalog_has_no_media(c: Color)
    ensures
        !has_media(all_colored(c)),
{
    let cat = programmable_catalog();
    assert forall|i: int| 0 <= i < cat.len() implies !(#[trigger] cat[i]).is_media() by {}
    assert forall|i: int| 0 <= i < all_colored(c).len() implies !(
    #[trigger] all_colored(c)[i]).key.is_media() by {
        assert(all_colored(c)[i].key == cat[i]);
    }
}

} // verus!
