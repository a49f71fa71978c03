//! MIDI event timing and the frontend's MIDI interface as the set of entry
//! points it provides.

use vstd::prelude::*;

verus! {

/// Microseconds since the previous MIDI event.
#[derive(Clone, Copy, Debug, Default, PartialEq, Eq, Hash, Structural)]
pub struct MidiDeltaMicros(u32);

impl View for MidiDeltaMicros {
    type V = u32;

    closed spec fn view(&self) -> u32 {
        self.0
    }
}

impl MidiDeltaMicros {
    /// A value is determined by its view: two values are equal exactly
    /// when their views are.
    pub proof fn lemma_view_injective(a: Self, b: Self)
        ensures
            a@ == b@ <==> a == b,
    {
    }
}

impl MidiDeltaMicros {
    pub fn new(micros: u32) -> (delta: Self)
        ensures
            delta@ == micros,
    {
        MidiDeltaMicros(micros)
    }

    pub fn as_micros(self) -> (micros: u32)
        ensures
            micros == self@,
    {
        self.0
    }
}

impl From<u32> for MidiDeltaMicros {
    fn from(micros: u32) -> (delta: Self)
        ensures
            delta@ == micros,
    {
        MidiDeltaMicros::new(micros)
    }
}

impl vstd::std_specs::convert::FromSpecImpl<u32> for MidiDeltaMicros {
    open spec fn obeys_from_spec() -> bool {
        true
    }

    closed spec fn from_spec(micros: u32) -> Self {
        MidiDeltaMicros(micros)
    }
}

/// The frontend's MIDI interface: which of its entry points it provides.
#[derive(Clone, Copy, Debug, Default, PartialEq, Eq, Structural)]
pub struct MidiInterface {
    pub input_enabled: bool,
    pub output_enabled: bool,
    pub read: bool,
    pub write: bool,
    pub flush: bool,
}

impl MidiInterface {
    /// Whether the frontend provides every MIDI entry point.
    pub fn is_available(self) -> (available: bool)
        ensures
            available == (self.input_enabled && self.output_enabled && self.read && self.write
                && self.flush),
    {
        self.input_enabled && self.output_enabled && self.read && self.write && self.flush
    }
}

} // verus!
