//! Decoding of the raw bytes that the keypad's event queue hands out.
use vstd::prelude::*;
use crate::index::{linear_index, see_saw_index};

verus! {

/// Event type of a `NeotrellisEvent`.
#[derive(Clone, Copy, Debug, PartialEq, Eq, Structural)]
pub enum NeotrellisEventType {
    /// The event occurred because of a keypad being pressed.
    KeyPress,
    /// The event occurred because of a keypad being released.
    KeyRelease,
}

/// A keypad event: a key was pressed or released.
#[derive(Clone, Copy, Debug, PartialEq, Eq, Structural)]
pub struct NeotrellisEvent {
    /// The index of the keypad key that generated the event, 0-15.
    pub key_index: usize,
    /// The type of the event; KeyPress or KeyRelease.
    pub event_type: NeotrellisEventType,
}

/// The event that a raw queue byte stands for: bit 0 tells a press (1) from a
/// release (0), bits 2 to 7 hold the co-processor's key number.
pub open spec fn decode_event(raw: u8) -> NeotrellisEvent {
    NeotrellisEvent {
        key_index: linear_index((raw >> 2u8) as nat) as usize,
        event_type: if raw & 1u8 == 1u8 {
            NeotrellisEventType::KeyPress
        } else {
            NeotrellisEventType::KeyRelease
        },
    }
}

/// The events that `raw` stands for, one per byte, in order.
pub open spec fn decode_all(raw: Seq<u8>) -> Seq<NeotrellisEvent> {
    raw.map_values(|b: u8| decode_event(b))
}

impl From<u8> for NeotrellisEvent {
    fn from(input: u8) -> (r: Self)
        ensures
            r == decode_event(input),
    {
        let event_type = if input & 0x01 == 0 {
            NeotrellisEventType::KeyRelease
        } else {
            NeotrellisEventType::KeyPress
        };
        assert(input & 1u8 == 0u8 || input & 1u8 == 1u8) by (bit_vector);
        NeotrellisEvent { event_type, key_index: see_saw_index(input >> 2) as usize }
    }
}

impl vstd::std_specs::convert::FromSpecImpl<u8> for NeotrellisEvent {
    open spec fn obeys_from_spec() -> bool {
        true
    }

    open spec fn from_spec(v: u8) -> NeotrellisEvent {
        decode_event(v)
    }
}

/// A byte decodes to a key press exactly when its lowest bit is set.
pub proof fn lemma_press_iff_low_bit(raw: u8)
    ensures
        (decode_event(raw).event_type == NeotrellisEventType::KeyPress) <==> (raw & 1u8 == 1u8),
{
}

/// Every byte decodes to a key index below 36: the key number in bits 2 to 7
/// is below 64.
pub proof fn lemma_decoded_index_bound(raw: u8)
    ensures
        decode_event(raw).key_index < 36,
{
    assert(raw >> 2u8 < 64u8) by (bit_vector);
}

/// A single forward pass over raw event bytes, handing out one decoded event
/// per byte in the order of the bytes.
pub struct NeotrellisEventIterator<'a> {
    index: usize,
    raw_events: &'a [u8],
}

impl<'a> NeotrellisEventIterator<'a> {
    #[verifier::type_invariant]
    spec fn inv(&self) -> bool {
        self.index <= self.raw_events@.len()
    }

    /// The raw bytes not yet handed out.
    pub closed spec fn remaining(&self) -> Seq<u8> {
        self.raw_events@.skip(self.index as int)
    }

    /// The events still to come, in order.
    pub open spec fn remaining_events(&self) -> Seq<NeotrellisEvent> {
        decode_all(self.remaining())
    }

    /// An iterator over all of `raw_events`.
    pub fn over(raw_events: &'a [u8]) -> (r: Self)
        ensures
            r.remaining() == raw_events@,
    {
        let r = NeotrellisEventIterator { index: 0, raw_events };
        assert(r.raw_events@.skip(0) =~= raw_events@);
        r
    }

    /// Decodes the next raw byte, or returns `None` once all are handed out.
    pub fn next(&mut self) -> (r: Option<NeotrellisEvent>)
        ensures
            old(self).remaining().len() == 0 ==> r.is_none() && final(self).remaining()
                == old(self).remaining(),
            old(self).remaining().len() > 0 ==> r == Some(decode_event(old(self).remaining()[0]))
                && final(self).remaining() == old(self).remaining().skip(1),
    {
        proof {
            use_type_invariant(&*self);
        }
        if self.index == self.raw_events.len() {
            return None;
        }
        let event_parsed = NeotrellisEvent::from(self.raw_events[self.index]);
        self.index = self.index + 1;
        assert(self.raw_events@.skip(self.index as int) =~= old(self).remaining().skip(1));
        Some(event_parsed)
    }

    /// Decodes all the remaining bytes at once.
    pub fn collect_events(self) -> (r: Vec<NeotrellisEvent>)
        ensures
            r@ == self.remaining_events(),
    {
        let mut it = self;
        let mut out: Vec<NeotrellisEvent> = Vec::new();
        loop
            invariant
                out@ + it.remaining_events() == self.remaining_events(),
            decreases it.remaining().len(),
        {
            proof {
                use_type_invariant(&it);
            }
            let ghost before = it.remaining();
            match it.next() {
                None => {
                    assert(it.remaining_events() =~= Seq::<NeotrellisEvent>::empty());
                    assert(out@ =~= self.remaining_events());
                    return out;
                },
                Some(e) => {
                    assert(decode_all(before) =~= seq![e] + decode_all(before.skip(1)));
                    out.push(e);
                    assert(out@ + it.remaining_events() =~= self.remaining_events());
                },
            }
        }
    }
}

} // verus!
