//! The state machine that assembles a frame out of three fields.

use crate::field::{Field, FieldModel, Outcome};
use vstd::prelude::*;

verus! {

/// Capacity of field A in bytes.
pub const FIELD_A_CAPACITY: usize = 31;

/// Capacity of field B in bytes.
pub const FIELD_B_CAPACITY: usize = 40;

/// Capacity of field C in bytes.
pub const FIELD_C_CAPACITY: usize = 64;

/// Where the deserializer stands in the frame.
#[derive(Clone, Copy, Debug, PartialEq, Eq, Structural)]
pub enum DeserState {
    /// Bytes go to field A.
    AwaitingA,
    /// Bytes go to field B.
    AwaitingB,
    /// Bytes go to field C.
    AwaitingC,
    /// All three fields are complete. Terminal.
    Complete,
    /// A length byte exceeded its field's capacity. Terminal.
    Error,
}

impl DeserState {
    /// `Complete` and `Error` are terminal: no byte leads out of them.
    pub open spec fn is_terminal(self) -> bool {
        self is Complete || self is Error
    }

    /// The state that takes over once the open field is complete. Fields
    /// are filled in the order A, B, C.
    pub open spec fn following(self) -> DeserState {
        match self {
            DeserState::AwaitingA => DeserState::AwaitingB,
            DeserState::AwaitingB => DeserState::AwaitingC,
            DeserState::AwaitingC => DeserState::Complete,
            DeserState::Complete => DeserState::Complete,
            DeserState::Error => DeserState::Error,
        }
    }
}

/// What the deserializer reports for one byte.
#[derive(Clone, Copy, Debug, PartialEq, Eq, Structural)]
pub enum Signal {
    /// The byte was taken and the frame is still open.
    Continue,
    /// The byte was the last one of the frame.
    FrameComplete,
    /// The byte was a length that exceeds its field's capacity.
    Malformed,
    /// The byte arrived in a terminal state and was ignored.
    AlreadyDone,
}

/// The mathematical content of a deserializer.
pub struct DeserModel {
    pub a: FieldModel,
    pub b: FieldModel,
    pub c: FieldModel,
    pub state: DeserState,
}

impl DeserModel {
    /// A deserializer that has seen no byte.
    pub open spec fn init() -> DeserModel {
        DeserModel {
            a: FieldModel::empty(FIELD_A_CAPACITY as nat),
            b: FieldModel::empty(FIELD_B_CAPACITY as nat),
            c: FieldModel::empty(FIELD_C_CAPACITY as nat),
            state: DeserState::AwaitingA,
        }
    }

    /// The state names the one field that is open. The fields before it are
    /// complete and the fields after it have seen no byte. In `Error` the
    /// field that refused its length, and those after it, have seen none.
    pub open spec fn wf(self) -> bool {
        &&& self.a.wf() && self.a.capacity() == FIELD_A_CAPACITY
        &&& self.b.wf() && self.b.capacity() == FIELD_B_CAPACITY
        &&& self.c.wf() && self.c.capacity() == FIELD_C_CAPACITY
        &&& match self.state {
            DeserState::AwaitingA => !self.a.is_complete() && self.b.is_empty()
                && self.c.is_empty(),
            DeserState::AwaitingB => self.a.is_complete() && !self.b.is_complete()
                && self.c.is_empty(),
            DeserState::AwaitingC => self.a.is_complete() && self.b.is_complete()
                && !self.c.is_complete(),
            DeserState::Complete => self.a.is_complete() && self.b.is_complete()
                && self.c.is_complete(),
            DeserState::Error => {
                ||| self.a.is_empty() && self.b.is_empty() && self.c.is_empty()
                ||| self.a.is_complete() && self.b.is_empty() && self.c.is_empty()
                ||| self.a.is_complete() && self.b.is_complete() && self.c.is_empty()
            },
        }
    }

    /// The number of bytes that the fields have taken: one for each declared
    /// length and one for each value byte.
    pub open spec fn consumed(self) -> nat {
        Self::taken(self.a) + Self::taken(self.b) + Self::taken(self.c)
    }

    /// The number of bytes that one field has taken.
    pub open spec fn taken(field: FieldModel) -> nat {
        if field.declared is Some {
            1 + field.filled
        } else {
            0
        }
    }

    /// The field that a byte is routed to in the given state.
    pub open spec fn field_of(self, state: DeserState) -> FieldModel
        recommends
            !state.is_terminal(),
    {
        match state {
            DeserState::AwaitingA => self.a,
            DeserState::AwaitingB => self.b,
            _ => self.c,
        }
    }

    /// The one field that is open in the current state.
    pub open spec fn active(self) -> FieldModel
        recommends
            !self.state.is_terminal(),
    {
        self.field_of(self.state)
    }

    /// The same deserializer with the open field replaced. In a terminal
    /// state no field is open and nothing is replaced.
    pub open spec fn with_active(self, field: FieldModel) -> DeserModel {
        match self.state {
            DeserState::AwaitingA => DeserModel { a: field, ..self },
            DeserState::AwaitingB => DeserModel { b: field, ..self },
            DeserState::AwaitingC => DeserModel { c: field, ..self },
            DeserState::Complete | DeserState::Error => self,
        }
    }

    /// The deserializer after one more byte.
    ///
    /// In a terminal state nothing changes. Otherwise the byte goes to the
    /// open field, and to no other. A refused length leads to `Error`; a
    /// field that is complete afterwards hands over to the next one, and the
    /// last one to `Complete`.
    pub open spec fn advanced(self, byte: u8) -> DeserModel {
        if self.state.is_terminal() {
            self
        } else {
            let field = self.active().fed(byte);
            let state = if self.active().outcome(byte) is LengthInvalid {
                DeserState::Error
            } else if field.is_complete() {
                self.state.following()
            } else {
                self.state
            };
            DeserModel { state, ..self.with_active(field) }
        }
    }

    /// What the deserializer reports for one more byte. It is read off the
    /// states before and after the byte.
    pub open spec fn signal(self, byte: u8) -> Signal {
        if self.state.is_terminal() {
            Signal::AlreadyDone
        } else {
            match self.advanced(byte).state {
                DeserState::Error => Signal::Malformed,
                DeserState::Complete => Signal::FrameComplete,
                _ => Signal::Continue,
            }
        }
    }

    /// The deserializer after a run of bytes, taken in order.
    pub open spec fn run(self, bytes: Seq<u8>) -> DeserModel
        decreases bytes.len(),
    {
        if bytes.len() == 0 {
            self
        } else {
            self.run(bytes.drop_last()).advanced(bytes.last())
        }
    }
}

/// Decoder of one frame. It owns the three field accumulators and is driven
/// one byte at a time.
#[derive(Debug)]
pub struct Deserializer {
    field_a: Field<31>,
    field_b: Field<40>,
    field_c: Field<64>,
    state: DeserState,
}

impl View for Deserializer {
    type V = DeserModel;

    closed spec fn view(&self) -> DeserModel {
        DeserModel { a: self.field_a@, b: self.field_b@, c: self.field_c@, state: self.state }
    }
}

impl Deserializer {
    /// The invariant of the deserializer, stated on its model.
    pub open spec fn wf(&self) -> bool {
        self@.wf()
    }

    /// A fresh deserializer: it awaits field A and all buffers are zeroed.
    pub fn new() -> (deser: Deserializer)
        ensures
            deser.wf(),
            deser@ == DeserModel::init(),
    {
        Deserializer {
            field_a: Field::new(),
            field_b: Field::new(),
            field_c: Field::new(),
            state: DeserState::AwaitingA,
        }
    }

    /// Takes one byte of the frame and says what it meant.
    ///
    /// * `Continue`: the byte was taken and more are expected.
    /// * `FrameComplete`: the byte completed field C; the state is `Complete`.
    /// * `Malformed`: the byte was a length above its field's capacity;
    ///   nothing was stored and the state is `Error`.
    /// * `AlreadyDone`: the state was terminal; the byte was ignored and
    ///   nothing at all has changed.
    pub fn advance(&mut self, byte: u8) -> (signal: Signal)
        requires
            old(self).wf(),
        ensures
            final(self).wf(),
            final(self)@ == old(self)@.advanced(byte),
            signal == old(self)@.signal(byte),
            old(self)@.state.is_terminal() ==> final(self)@ == old(self)@,
            signal == Signal::AlreadyDone <==> old(self)@.state.is_terminal(),
            signal == Signal::FrameComplete <==> !old(self)@.state.is_terminal()
                && final(self)@.state == DeserState::Complete,
            signal == Signal::Malformed <==> !old(self)@.state.is_terminal()
                && final(self)@.state == DeserState::Error,
            signal == Signal::Malformed ==> final(self)@.a == old(self)@.a
                && final(self)@.b == old(self)@.b
                && final(self)@.c == old(self)@.c,
            signal == Signal::Continue || signal == Signal::FrameComplete
                ==> final(self)@.consumed() == old(self)@.consumed() + 1,
    {
        match self.state {
            DeserState::AwaitingA => {
                let outcome = self.field_a.feed(byte);
                if outcome == Outcome::LengthInvalid {
                    self.state = DeserState::Error;
                    Signal::Malformed
                } else {
                    if self.field_a.is_complete() {
                        self.state = DeserState::AwaitingB;
                    }
                    Signal::Continue
                }
            },
            DeserState::AwaitingB => {
                let outcome = self.field_b.feed(byte);
                if outcome == Outcome::LengthInvalid {
                    self.state = DeserState::Error;
                    Signal::Malformed
                } else {
                    if self.field_b.is_complete() {
                        self.state = DeserState::AwaitingC;
                    }
                    Signal::Continue
                }
            },
            DeserState::AwaitingC => {
                let outcome = self.field_c.feed(byte);
                if outcome == Outcome::LengthInvalid {
                    self.state = DeserState::Error;
                    Signal::Malformed
                } else if self.field_c.is_complete() {
                    self.state = DeserState::Complete;
                    Signal::FrameComplete
                } else {
                    Signal::Continue
                }
            },
            DeserState::Complete | DeserState::Error => Signal::AlreadyDone,
        }
    }

    /// Takes one byte of the frame, as [`advance`](Self::advance) does, and
    /// says only whether the frame is still open: `true` while more bytes
    /// are expected, `false` once the frame is complete or in error.
    pub fn chew(&mut self, byte: u8) -> (working: bool)
        requires
            old(self).wf(),
        ensures
            final(self).wf(),
            final(self)@ == old(self)@.advanced(byte),
            working <==> old(self)@.signal(byte) == Signal::Continue,
            working <==> !final(self)@.state.is_terminal(),
    {
        self.advance(byte) == Signal::Continue
    }

    /// Makes the deserializer ready for the next frame: it awaits field A
    /// again and all buffers are zeroed.
    pub fn reset(&mut self)
        ensures
            final(self).wf(),
            final(self)@ == DeserModel::init(),
    {
        self.field_a.reset();
        self.field_b.reset();
        self.field_c.reset();
        self.state = DeserState::AwaitingA;
    }

    /// Where the deserializer stands in the frame.
    pub fn state(&self) -> (state: DeserState)
        ensures
            state == self@.state,
    {
        self.state
    }

    /// Whether the deserializer has stopped taking bytes.
    pub fn is_terminal(&self) -> (terminal: bool)
        ensures
            terminal == self@.state.is_terminal(),
    {
        self.state == DeserState::Complete || self.state == DeserState::Error
    }

    /// The payloads of fields A, B and C of a complete frame, each cut to
    /// its declared length. `None` unless the state is `Complete`.
    pub fn payloads(&self) -> (frame: Option<(&[u8], &[u8], &[u8])>)
        requires
            self.wf(),
        ensures
            frame is Some <==> self@.state is Complete,
            frame matches Some((a, b, c)) ==> a@ == self@.a.data()
                && b@ == self@.b.data()
                && c@ == self@.c.data(),
    {
        if self.state == DeserState::Complete {
            Some((self.field_a.data(), self.field_b.data(), self.field_c.data()))
        } else {
            None
        }
    }

    /// Field A, for reading.
    pub fn field_a(&self) -> (field: &Field<31>)
        ensures
            field@ == self@.a,
            self.wf() ==> field.wf(),
    {
        &self.field_a
    }

    /// Field B, for reading.
    pub fn field_b(&self) -> (field: &Field<40>)
        ensures
            field@ == self@.b,
            self.wf() ==> field.wf(),
    {
        &self.field_b
    }

    /// Field C, for reading.
    pub fn field_c(&self) -> (field: &Field<64>)
        ensures
            field@ == self@.c,
            self.wf() ==> field.wf(),
    {
        &self.field_c
    }
}

} // verus!
