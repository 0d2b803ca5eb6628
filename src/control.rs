use vstd::prelude::*;

use std::collections::VecDeque;

use crate::error::Error;

verus! {

/// Direction/endpoint byte of the vendor control writes.
pub const CONTROL_ENDPOINT: u8 = 0x80;

/// bmRequestType of the vendor control writes (class request to an interface).
pub const CONTROL_REQUEST_TYPE: u8 = 0x21;

/// bRequest of the vendor control writes (SET_REPORT).
pub const CONTROL_REQUEST: u8 = 9;

/// wValue of the vendor control writes.
pub const CONTROL_VALUE: u16 = 0x0212;

/// wIndex of the vendor control writes.
pub const CONTROL_INDEX: u16 = 0x0001;

/// Per-transfer timeout of the vendor control writes, in milliseconds.
pub const CONTROL_TIMEOUT_MS: u64 = 10_000;

/// One outbound control transfer: its payload and its request parameters.
pub struct ControlPacket {
    pub buf: Vec<u8>,
    pub endpoint_direction: u8,
    pub request_type: u8,
    pub request: u8,
    pub value: u16,
    pub index: u16,
    pub timeout_ms: u64,
}

impl ControlPacket {
    pub fn new(
        buf: Vec<u8>,
        endpoint_direction: u8,
        request_type: u8,
        request: u8,
        value: u16,
        index: u16,
        timeout_ms: u64,
    ) -> (r: ControlPacket)
        ensures
            r.buf@ == buf@,
            r.endpoint_direction == endpoint_direction,
            r.request_type == request_type,
            r.request == request,
            r.value == value,
            r.index == index,
            r.timeout_ms == timeout_ms,
    {
        ControlPacket { buf, endpoint_direction, request_type, request, value, index, timeout_ms }
    }

    /// A packet carrying `buf` with the fixed request parameters of this device.
    pub fn device_control(buf: Vec<u8>) -> (r: ControlPacket)
        ensures
            r.buf@ == buf@,
            r.is_device_control(),
    {
        ControlPacket::new(
            buf,
            CONTROL_ENDPOINT,
            CONTROL_REQUEST_TYPE,
            CONTROL_REQUEST,
            CONTROL_VALUE,
            CONTROL_INDEX,
            CONTROL_TIMEOUT_MS,
        )
    }

    /// The request parameters are those that every command of this device uses.
    pub open spec fn is_device_control(&self) -> bool {
        &&& self.endpoint_direction == CONTROL_ENDPOINT
        &&& self.request_type == CONTROL_REQUEST_TYPE
        &&& self.request == CONTROL_REQUEST
        &&& self.value == CONTROL_VALUE
        &&& self.index == CONTROL_INDEX
        &&& self.timeout_ms == CONTROL_TIMEOUT_MS
    }
}

/// The abstract state of the control queue.
///
/// `submitted` holds the packets released for transmission that the caller
/// has not collected yet, `pending` those waiting for an acknowledgement of
/// their predecessor, and `in_flight` says whether a transmitted packet still
/// awaits its acknowledgement.
pub struct QueueState {
    pub submitted: Seq<ControlPacket>,
    pub pending: Seq<ControlPacket>,
    pub in_flight: bool,
}

impl QueueState {
    /// Nothing waits while nothing is in flight.
    pub open spec fn wf(self) -> bool {
        !self.in_flight ==> self.pending.len() == 0
    }

    /// Every packet in the order it was handed to the queue.
    pub open spec fn all(self) -> Seq<ControlPacket> {
        self.submitted + self.pending
    }
}

/// The state after `p` is handed to the queue: it is released at once when
/// nothing is in flight, and waits otherwise.
pub open spec fn enqueue_step(s: QueueState, p: ControlPacket) -> QueueState {
    if s.in_flight {
        QueueState { submitted: s.submitted, pending: s.pending.push(p), in_flight: true }
    } else {
        QueueState { submitted: s.submitted.push(p), pending: s.pending, in_flight: true }
    }
}

/// The state after the device acknowledged the packet in flight: the next
/// waiting packet is released, or the queue falls idle.
pub open spec fn ack_step(s: QueueState) -> QueueState {
    if !s.in_flight {
        s
    } else if s.pending.len() == 0 {
        QueueState { submitted: s.submitted, pending: s.pending, in_flight: false }
    } else {
        QueueState {
            submitted: s.submitted.push(s.pending[0]),
            pending: s.pending.drop_first(),
            in_flight: true,
        }
    }
}

/// The state after each packet of `ps` is handed to the queue in turn.
pub open spec fn enqueue_all(s: QueueState, ps: Seq<ControlPacket>) -> QueueState
    decreases ps.len(),
{
    if ps.len() == 0 {
        s
    } else {
        enqueue_step(enqueue_all(s, ps.drop_last()), ps.last())
    }
}

/// `ps` are device control packets whose payloads are `payloads`, in order.
pub open spec fn packets_carry(ps: Seq<ControlPacket>, payloads: Seq<Seq<u8>>) -> bool {
    &&& ps.len() == payloads.len()
    &&& forall|i: int| 0 <= i < ps.len() ==> (#[trigger] ps[i]).buf@ == payloads[i]
    &&& forall|i: int| 0 <= i < ps.len() ==> (#[trigger] ps[i]).is_device_control()
}

/// FIFO of control packets with at most one transfer in flight.
///
/// A packet is released for transmission only when the previous one has been
/// acknowledged by the device; released packets are collected with
/// [`ControlQueue::take_submitted`] and written to the device by the caller.
pub struct ControlQueue {
    submitted: Vec<ControlPacket>,
    pending: VecDeque<ControlPacket>,
    in_flight: bool,
}

impl View for ControlQueue {
    type V = QueueState;

    closed spec fn view(&self) -> QueueState {
        QueueState {
            submitted: self.submitted@,
            pending: self.pending@,
            in_flight: self.in_flight,
        }
    }
}

impl ControlQueue {
    pub open spec fn wf(&self) -> bool {
        self@.wf()
    }

    pub fn new() -> (r: ControlQueue)
        ensures
            r.wf(),
            r@.submitted.len() == 0,
            r@.pending.len() == 0,
            !r@.in_flight,
    {
        ControlQueue { submitted: Vec::new(), pending: VecDeque::new(), in_flight: false }
    }

    /// Whether a transmitted packet still awaits its acknowledgement.
    pub fn in_flight(&self) -> (r: bool)
        ensures
            r == self@.in_flight,
    {
        self.in_flight
    }

    /// The number of packets waiting behind the one in flight.
    pub fn pending_len(&self) -> (r: usize)
        ensures
            r == self@.pending.len(),
    {
        self.pending.len()
    }

    /// Hands `packet` to the queue; it is released at once if nothing is in
    /// flight.
    pub fn enqueue(&mut self, packet: ControlPacket)
        requires
            old(self).wf(),
        ensures
            final(self).wf(),
            final(self)@ == enqueue_step(old(self)@, packet),
    {
        if self.in_flight {
            self.pending.push_back(packet);
        } else {
            self.submitted.push(packet);
            self.in_flight = true;
        }
    }

    /// Takes the acknowledgement of the packet in flight: releases the next
    /// waiting packet, or clears the in-flight flag when none waits. An
    /// acknowledgement while nothing is in flight is reported as
    /// `QueueBroken` and changes nothing.
    pub fn acknowledge(&mut self) -> (r: Result<(), Error>)
        requires
            old(self).wf(),
        ensures
            final(self).wf(),
            final(self)@ == ack_step(old(self)@),
            r == (if old(self)@.in_flight {
                Ok(())
            } else {
                Err(Error::QueueBroken)
            }),
    {
        if !self.in_flight {
            return Err(Error::QueueBroken);
        }
        match self.pending.pop_front() {
            Some(next) => {
                self.submitted.push(next);
            },
            None => {
                self.in_flight = false;
            },
        }
        Ok(())
    }

    /// Hands out the released packets, oldest first, for transmission.
    pub fn take_submitted(&mut self) -> (r: Vec<ControlPacket>)
        requires
            old(self).wf(),
        ensures
            final(self).wf(),
            r@ == old(self)@.submitted,
            final(self)@ == (QueueState { submitted: Seq::empty(), ..old(self)@ }),
    {
        let mut r: Vec<ControlPacket> = Vec::new();
        std::mem::swap(&mut r, &mut self.submitted);
        r
    }
}

/// Acknowledgement gating: of two packets handed to an idle queue only the
/// first is released; the first acknowledgement releases the second, and the
/// second acknowledgement leaves the queue empty and idle.
pub proof fn lemma_ack_gating(s: QueueState, first: ControlPacket, second: ControlPacket)
    requires
        !s.in_flight,
        s.pending.len() == 0,
    ensures
        enqueue_step(enqueue_step(s, first), second).submitted == s.submitted.push(first),
        enqueue_step(enqueue_step(s, first), second).in_flight,
        ack_step(enqueue_step(enqueue_step(s, first), second)).submitted == s.submitted.push(first).push(second),
        ack_step(enqueue_step(enqueue_step(s, first), second)).in_flight,
        ack_step(ack_step(enqueue_step(enqueue_step(s, first), second))).pending.len() == 0,
        !ack_step(ack_step(enqueue_step(enqueue_step(s, first), second))).in_flight,
        ack_step(ack_step(enqueue_step(enqueue_step(s, first), second))).submitted == s.submitted.push(
            first,
        ).push(second),
{
    let s2 = enqueue_step(enqueue_step(s, first), second);
    assert(s2.pending =~= seq![second]);
    assert(ack_step(s2).pending =~= Seq::<ControlPacket>::empty());
}

/// At most one in flight: handing a packet to a queue that has one in flight
/// releases nothing, and an acknowledgement releases at most one packet.
pub proof fn lemma_one_in_flight(s: QueueState, p: ControlPacket)
    requires
        s.wf(),
    ensures
        s.in_flight ==> enqueue_step(s, p).submitted == s.submitted,
        ack_step(s).submitted.len() <= s.submitted.len() + 1,
        enqueue_step(s, p).submitted.len() <= s.submitted.len() + 1,
{
}

/// Order is kept: the queue hands packets out in the order they came in, and
/// an acknowledgement does not change that order.
pub proof fn lemma_fifo(s: QueueState, p: ControlPacket)
    requires
        s.wf(),
    ensures
        enqueue_step(s, p).all() == s.all().push(p),
        ack_step(s).all() == s.all(),
        enqueue_step(s, p).wf(),
        ack_step(s).wf(),
{
    if s.in_flight {
        assert(enqueue_step(s, p).all() =~= s.all().push(p));
        if s.pending.len() > 0 {
            assert(ack_step(s).all() =~= s.all());
        }
    } else {
        assert(enqueue_step(s, p).all() =~= s.all().push(p));
    }
}

} // verus!
