use vstd::prelude::*;

use crate::error::Error;
use crate::keyboard::KeyboardInternal;
use crate::keys::{Key, KeyEvent};
use crate::parser::{
    control_outcome, is_control, is_diff, key_stream, report_keys, ControlParser, KeyParser,
    Packet, Stream,
};

verus! {

/// What became of a packet.
pub enum Dispatch {
    /// No parser accepted it.
    Unparsed,
    /// A key report; these are its edges, to be offered to the handlers.
    Keys(Vec<KeyEvent>),
    /// A control packet, taken by the control parser.
    Control,
}

/// The parsers and the command side of one session with the keyboard.
pub struct Session {
    pub keyboard: KeyboardInternal,
    pub key_parser: KeyParser,
    pub control_parser: ControlParser,
}

impl Session {
    pub open spec fn wf(&self) -> bool {
        self.keyboard.wf() && self.key_parser.wf()
    }

    pub fn new() -> (r: Session)
        ensures
            r.wf(),
            !r.keyboard.queue_state().in_flight,
            r.keyboard.queue_state().submitted.len() == 0,
            forall|s: Stream| #[trigger] r.key_parser.pressed_set(s) == Set::<Key>::empty(),
    {
        Session {
            keyboard: KeyboardInternal::new(),
            key_parser: KeyParser::new(),
            control_parser: ControlParser::new(),
        }
    }

    /// Routes a completed transfer to the first parser that accepts it: the
    /// key parser, then the control parser.
    pub fn handle_packet(&mut self, endpoint_direction: u8, buf: Vec<u8>) -> (r: Result<
        Dispatch,
        Error,
    >)
        requires
            old(self).wf(),
        ensures
            final(self).wf(),
            ({
                let ep = endpoint_direction & 0x7f;
                match key_stream(ep, buf@) {
                    Some(s) => {
                        let now = report_keys(s, buf@, old(self).key_parser.spec_media_codes());
                        &&& r matches Ok(Dispatch::Keys(events)) && is_diff(
                            events@,
                            old(self).key_parser.pressed_set(s),
                            now,
                        )
                        &&& final(self).key_parser.pressed_set(s) == now
                        &&& forall|o: Stream|
                            o != s ==> #[trigger] final(self).key_parser.pressed_set(o) == old(self).key_parser.pressed_set(o)
                        &&& final(self).keyboard == old(self).keyboard
                    },
                    None => {
                        &&& final(self).key_parser == old(self).key_parser
                        &&& if is_control(ep, buf@) {
                            match control_outcome(ep, buf@) {
                                None => r matches Ok(Dispatch::Control) && final(self).keyboard.queue_state() == old(self).keyboard.queue_state(),
                                Some(Err(e)) => r == Err::<Dispatch, Error>(e) && final(self).keyboard.queue_state() == old(self).keyboard.queue_state(),
                                Some(Ok(())) => {
                                    &&& final(self).keyboard.queue_state()
                                        == crate::control::ack_step(
                                        old(self).keyboard.queue_state(),
                                    )
                                    &&& if old(self).keyboard.queue_state().in_flight {
                                        r matches Ok(Dispatch::Control)
                                    } else {
                                        r == Err::<Dispatch, Error>(Error::QueueBroken)
                                    }
                                },
                            }
                        } else {
                            r matches Ok(Dispatch::Unparsed) && final(self).keyboard == old(self).keyboard
                        }
                    },
                }
            }),
    {
        let packet = Packet::new(endpoint_direction, buf);
        if self.key_parser.accept(&packet) {
            let events = self.key_parser.parse(&packet);
            Ok(Dispatch::Keys(events))
        } else if self.control_parser.accept(&packet) {
            match self.control_parser.parse(&packet, &mut self.keyboard) {
                Ok(()) => Ok(Dispatch::Control),
                Err(e) => Err(e),
            }
        } else {
            Ok(Dispatch::Unparsed)
        }
    }
}

/// Handlers by id, in registration order.
pub struct HandlerRegistry<T> {
    next_id: u32,
    entries: Vec<(u32, T)>,
}

impl<T> HandlerRegistry<T> {
    /// The registered handlers with their ids, in registration order.
    pub closed spec fn spec_entries(&self) -> Seq<(u32, T)> {
        self.entries@
    }

    /// The id the next handler gets.
    pub closed spec fn spec_next_id(&self) -> u32 {
        self.next_id
    }

    /// Ids grow with registration order and stay below the next id.
    pub open spec fn wf(&self) -> bool {
        &&& forall|a: int, b: int|
            0 <= a < b < self.spec_entries().len() ==> (#[trigger] self.spec_entries()[a]).0 < (
            #[trigger] self.spec_entries()[b]).0
        &&& forall|a: int|
            0 <= a < self.spec_entries().len() ==> (#[trigger] self.spec_entries()[a]).0
                < self.spec_next_id()
    }

    pub fn new() -> (r: HandlerRegistry<T>)
        ensures
            r.wf(),
            r.spec_entries().len() == 0,
            r.spec_next_id() == 0,
    {
        HandlerRegistry { next_id: 0, entries: Vec::new() }
    }

    /// Registers a handler after the others and returns its id; `None` once
    /// the ids are used up.
    pub fn add(&mut self, handler: T) -> (r: Option<u32>)
        requires
            old(self).wf(),
        ensures
            final(self).wf(),
            match r {
                Some(id) => {
                    &&& old(self).spec_next_id() < u32::MAX
                    &&& id == old(self).spec_next_id()
                    &&& final(self).spec_next_id() == id + 1
                    &&& final(self).spec_entries() == old(self).spec_entries().push((id, handler))
                },
                None => {
                    &&& old(self).spec_next_id() == u32::MAX
                    &&& final(self).spec_entries() == old(self).spec_entries()
                    &&& final(self).spec_next_id() == old(self).spec_next_id()
                },
            },
    {
        if self.next_id == u32::MAX {
            return None;
        }
        let id = self.next_id;
        let ghost before = self.entries@;
        self.entries.push((id, handler));
        self.next_id = id + 1;
        proof {
            assert(old(self).spec_entries() == before);
            assert(old(self).spec_next_id() == id);
            assert forall|a: int| 0 <= a < self.entries@.len() implies (
            #[trigger] self.entries@[a]).0 < self.next_id by {
                if a < before.len() {
                    assert(self.entries@[a] == before[a]);
                }
            }
            assert forall|a: int, b: int|
                0 <= a < b < self.entries@.len() implies (#[trigger] self.entries@[a]).0 < (
            #[trigger] self.entries@[b]).0 by {
                assert(self.entries@[a] == before[a]);
                if b < before.len() {
                    assert(self.entries@[b] == before[b]);
                }
            }
        }
        Some(id)
    }

    /// Removes the handler with id `id` and hands it back.
    pub fn remove(&mut self, id: u32) -> (r: Option<T>)
        requires
            old(self).wf(),
        ensures
            final(self).wf(),
            final(self).spec_next_id() == old(self).spec_next_id(),
            match r {
                Some(h) => exists|i: int|
                    0 <= i < old(self).spec_entries().len() && old(self).spec_entries()[i] == (
                    id,
                    h,
                ) && final(self).spec_entries() == old(self).spec_entries().remove(i),
                None => {
                    &&& forall|i: int|
                        0 <= i < old(self).spec_entries().len() ==> (#[trigger] old(self).spec_entries()[i]).0 != id
                    &&& final(self).spec_entries() == old(self).spec_entries()
                },
            },
    {
        let mut i: usize = 0;
        while i < self.entries.len()
            invariant
                i <= self.entries@.len(),
                self.entries@ == old(self).spec_entries(),
                self.next_id == old(self).spec_next_id(),
                old(self).wf(),
                forall|t: int| 0 <= t < i ==> (#[trigger] self.entries@[t]).0 != id,
            decreases self.entries@.len() - i,
        {
            if self.entries[i].0 == id {
                let ghost before = self.entries@;
                let (_, h) = self.entries.remove(i);
                proof {
                    assert forall|a: int, b: int|
                        0 <= a < b < self.entries@.len() implies (
                        #[trigger] self.entries@[a]).0 < (#[trigger] self.entries@[b]).0 by {
                        let a2 = if a < i { a } else { a + 1 };
                        let b2 = if b < i { b } else { b + 1 };
                        assert(self.entries@[a] == before[a2]);
                        assert(self.entries@[b] == before[b2]);
                        assert(before[a2].0 < before[b2].0);
                    }
                    assert forall|a: int| 0 <= a < self.entries@.len() implies (
                    #[trigger] self.entries@[a]).0 < self.next_id by {
                        let a2 = if a < i { a } else { a + 1 };
                        assert(self.entries@[a] == before[a2]);
                    }
                }
                return Some(h);
            }
            i = i + 1;
        }
        None
    }

    /// The number of registered handlers.
    pub fn len(&self) -> (r: usize)
        ensures
            r == self.spec_entries().len(),
    {
        self.entries.len()
    }

    /// The id of the handler at position `index`.
    pub fn id_at(&self, index: usize) -> (r: u32)
        requires
            index < self.spec_entries().len(),
        ensures
            r == self.spec_entries()[index as int].0,
    {
        self.entries[index].0
    }

    /// The handler at position `index`, for a call that may change it.
    pub fn get_mut(&mut self, index: usize) -> (r: &mut T)
        requires
            index < old(self).spec_entries().len(),
        ensures
            *r == old(self).spec_entries()[index as int].1,
            final(self).spec_entries() == old(self).spec_entries().update(
                index as int,
                (old(self).spec_entries()[index as int].0, *final(r)),
            ),
            final(self).spec_next_id() == old(self).spec_next_id(),
            old(self).wf() ==> final(self).wf(),
    {
        &mut self.entries[index].1
    }

    /// The handler at position `index`.
    pub fn get(&self, index: usize) -> (r: &T)
        requires
            index < self.spec_entries().len(),
        ensures
            *r == self.spec_entries()[index as int].1,
    {
        &self.entries[index].1
    }
}

} // verus!
