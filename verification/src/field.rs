//! The accumulator of one length-prefixed field.

use vstd::prelude::*;
use vstd::slice::slice_subrange;

verus! {

/// What a field accumulator reports for one byte.
#[derive(Clone, Copy, Debug, PartialEq, Eq, Structural)]
pub enum Outcome {
    /// The byte was taken and the field is still open.
    NeedsMore,
    /// The field holds all the bytes it declared.
    FieldComplete,
    /// The byte was offered as a length and exceeds the capacity.
    LengthInvalid,
}

/// The mathematical content of a field accumulator.
///
/// `storage` is the whole buffer; its length is the capacity. Only the first
/// `filled` bytes of it are data.
pub struct FieldModel {
    pub declared: Option<u8>,
    pub filled: nat,
    pub storage: Seq<u8>,
}

impl FieldModel {
    /// The fixed number of bytes the buffer can hold.
    pub open spec fn capacity(self) -> nat {
        self.storage.len()
    }

    /// Nothing is counted before a length is declared, and
    /// `filled <= declared <= capacity` afterwards.
    pub open spec fn wf(self) -> bool {
        match self.declared {
            None => self.filled == 0,
            Some(len) => self.filled <= len && len <= self.capacity(),
        }
    }

    /// An accumulator of the given capacity that has seen no byte.
    pub open spec fn empty(capacity: nat) -> FieldModel {
        FieldModel { declared: None, filled: 0, storage: Seq::new(capacity, |i: int| 0u8) }
    }

    /// No length has been declared yet.
    pub open spec fn is_empty(self) -> bool {
        self.declared is None && self.filled == 0
    }

    /// A length is declared and that many value bytes have arrived.
    pub open spec fn is_complete(self) -> bool {
        self.declared matches Some(len) && self.filled == len
    }

    /// The value bytes received so far.
    pub open spec fn data(self) -> Seq<u8> {
        self.storage.take(self.filled as int)
    }

    /// The accumulator after one more byte.
    pub open spec fn fed(self, byte: u8) -> FieldModel {
        match self.declared {
            None => if byte <= self.capacity() {
                FieldModel { declared: Some(byte), ..self }
            } else {
                self
            },
            Some(len) => if self.filled < len {
                FieldModel {
                    filled: self.filled + 1,
                    storage: self.storage.update(self.filled as int, byte),
                    ..self
                }
            } else {
                self
            },
        }
    }

    /// What the accumulator reports for one more byte.
    pub open spec fn outcome(self, byte: u8) -> Outcome {
        match self.declared {
            None => if byte <= self.capacity() {
                Outcome::NeedsMore
            } else {
                Outcome::LengthInvalid
            },
            Some(len) => if self.filled + 1 < len {
                Outcome::NeedsMore
            } else {
                Outcome::FieldComplete
            },
        }
    }

    /// The accumulator after a run of bytes, fed in order.
    pub open spec fn fed_all(self, bytes: Seq<u8>) -> FieldModel
        decreases bytes.len(),
    {
        if bytes.len() == 0 {
            self
        } else {
            self.fed_all(bytes.drop_last()).fed(bytes.last())
        }
    }
}

/// Storage and length bookkeeping of one field of at most `N` bytes.
#[derive(Debug)]
pub struct Field<const N: usize> {
    declared: Option<u8>,
    filled: u8,
    storage: [u8; N],
}

impl<const N: usize> View for Field<N> {
    type V = FieldModel;

    closed spec fn view(&self) -> FieldModel {
        FieldModel { declared: self.declared, filled: self.filled as nat, storage: self.storage@ }
    }
}

impl<const N: usize> Field<N> {
    /// The invariant of the accumulator: its model is well formed and the
    /// buffer has exactly `N` bytes.
    pub open spec fn wf(&self) -> bool {
        self@.wf() && self@.capacity() == N
    }

    /// A fresh accumulator: no length declared, buffer zeroed.
    pub fn new() -> (field: Self)
        ensures
            field.wf(),
            field@ == FieldModel::empty(N as nat),
    {
        let field = Field { declared: None, filled: 0, storage: [0u8; N] };
        assert(field@.storage =~= FieldModel::empty(N as nat).storage);
        field
    }

    /// Takes one byte.
    ///
    /// The first byte ever offered is the field's length: it is accepted if
    /// it does not exceed `N`, and otherwise refused with nothing changed.
    /// Every later byte is a value byte, stored behind the ones before it,
    /// until the declared number has arrived. A complete accumulator takes
    /// no further byte: it reports `FieldComplete` and stays as it is.
    pub fn feed(&mut self, byte: u8) -> (outcome: Outcome)
        requires
            old(self).wf(),
        ensures
            final(self).wf(),
            final(self)@ == old(self)@.fed(byte),
            outcome == old(self)@.outcome(byte),
            outcome == Outcome::LengthInvalid <==> old(self)@.declared is None && byte > N,
            outcome == Outcome::LengthInvalid ==> final(self)@ == old(self)@,
            outcome == Outcome::FieldComplete <==> old(self)@.declared is Some
                && final(self)@.is_complete(),
    {
        match self.declared {
            None => {
                if byte as usize <= N {
                    self.declared = Some(byte);
                    Outcome::NeedsMore
                } else {
                    Outcome::LengthInvalid
                }
            },
            Some(len) => {
                if self.filled < len {
                    self.storage[self.filled as usize] = byte;
                    self.filled = self.filled + 1;
                }
                if self.filled == len {
                    Outcome::FieldComplete
                } else {
                    Outcome::NeedsMore
                }
            },
        }
    }

    /// Forgets everything: no length declared, buffer zeroed.
    pub fn reset(&mut self)
        ensures
            final(self).wf(),
            final(self)@ == FieldModel::empty(N as nat),
    {
        *self = Field::new();
    }

    /// The number of bytes the buffer can hold.
    pub fn capacity(&self) -> (capacity: usize)
        ensures
            capacity == N,
    {
        N
    }

    /// The declared length, once the first byte has been accepted.
    pub fn declared_length(&self) -> (declared: Option<u8>)
        ensures
            declared == self@.declared,
    {
        self.declared
    }

    /// The number of value bytes received so far.
    pub fn filled(&self) -> (filled: u8)
        ensures
            filled == self@.filled,
    {
        self.filled
    }

    /// Whether a length is declared and that many value bytes have arrived.
    pub fn is_complete(&self) -> (complete: bool)
        ensures
            complete == self@.is_complete(),
    {
        match self.declared {
            None => false,
            Some(len) => self.filled == len,
        }
    }

    /// The value bytes received so far, without the unused rest of the
    /// buffer.
    pub fn data(&self) -> (data: &[u8])
        requires
            self.wf(),
        ensures
            data@ == self@.data(),
    {
        slice_subrange(self.storage.as_slice(), 0, self.filled as usize)
    }
}

} // verus!
