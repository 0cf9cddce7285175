//! Theorems about the accumulator, the state machine and the wire format.
//!
//! They are stated on the models ([`FieldModel`], [`DeserModel`]) that the
//! contracts of the executable functions speak of, so each of them holds of
//! every execution.

use crate::deserializer::{
    DeserModel, DeserState, Signal, FIELD_A_CAPACITY, FIELD_B_CAPACITY, FIELD_C_CAPACITY,
};
use crate::field::{FieldModel, Outcome};
use vstd::prelude::*;

verus! {

/// One field on the wire: a length byte, then that many value bytes.
pub open spec fn encode_field(value: Seq<u8>) -> Seq<u8>
    recommends
        value.len() <= u8::MAX,
{
    seq![value.len() as u8] + value
}

/// One frame on the wire, without its checksum: the three fields in the
/// order A, B, C.
pub open spec fn encode_frame(a: Seq<u8>, b: Seq<u8>, c: Seq<u8>) -> Seq<u8> {
    encode_field(a) + encode_field(b) + encode_field(c)
}

/// What a field has taken off the wire: nothing before its length is
/// declared, then the length byte and the value bytes received so far.
pub open spec fn field_image(field: FieldModel) -> Seq<u8> {
    match field.declared {
        None => Seq::empty(),
        Some(len) => seq![len] + field.data(),
    }
}

/// What a deserializer has taken off the wire: the images of its fields in
/// the order A, B, C.
pub open spec fn image(m: DeserModel) -> Seq<u8> {
    field_image(m.a) + field_image(m.b) + field_image(m.c)
}

/// One byte changes an accumulator in one place at most. The capacity is
/// fixed, a declared length never changes, the count grows by one at most,
/// the bytes already received stay as they are, and the invariant is kept.
pub proof fn law_feed_is_local(field: FieldModel, byte: u8)
    requires
        field.wf(),
    ensures
        field.fed(byte).wf(),
        field.fed(byte).capacity() == field.capacity(),
        field.declared is Some ==> field.fed(byte).declared == field.declared,
        field.filled <= field.fed(byte).filled <= field.filled + 1,
        field.fed(byte).data().take(field.filled as int) == field.data(),
        forall|i: int|
            0 <= i < field.capacity() && i != field.filled
                ==> field.fed(byte).storage[i] == field.storage[i],
        field.fed(byte).filled == field.filled + 1
            ==> field.fed(byte).storage[field.filled as int] == byte,
{
    assert(field.fed(byte).data().take(field.filled as int) =~= field.data());
}

/// A length above the capacity is refused by an accumulator that awaits its
/// length, and the accumulator, its buffer included, stays as it was.
pub proof fn law_oversized_length_refused(field: FieldModel, byte: u8)
    requires
        field.declared is None,
        byte > field.capacity(),
    ensures
        field.outcome(byte) == Outcome::LengthInvalid,
        field.fed(byte) == field,
{
}

/// An empty accumulator that is fed a length within its capacity and then
/// the first `k` of that many value bytes holds exactly these `k` bytes. It
/// is complete if and only if `k` is the declared length, so at once for
/// the length zero. The length byte reports `NeedsMore`, and so does every
/// value byte but the last, which reports `FieldComplete`.
pub proof fn law_field_fills_to_declared_length(capacity: nat, value: Seq<u8>, k: int)
    requires
        value.len() <= capacity,
        value.len() <= u8::MAX,
        0 <= k <= value.len(),
    ensures
        FieldModel::empty(capacity).outcome(value.len() as u8) == Outcome::NeedsMore,
        ({
            let field = FieldModel::empty(capacity).fed_all(encode_field(value).take(k + 1));
            &&& field.wf()
            &&& field.capacity() == capacity
            &&& field.declared == Some(value.len() as u8)
            &&& field.filled == k
            &&& field.data() == value.take(k)
            &&& field.is_complete() <==> k == value.len()
            &&& k < value.len() ==> field.outcome(value[k]) == if k + 1 == value.len() {
                Outcome::FieldComplete
            } else {
                Outcome::NeedsMore
            }
        }),
    decreases k,
{
    let empty = FieldModel::empty(capacity);
    let bytes = encode_field(value).take(k + 1);
    if k == 0 {
        assert(bytes.drop_last() =~= Seq::empty());
        assert(empty.fed_all(bytes.drop_last()) == empty);
        assert(empty.fed_all(bytes) == empty.fed(value.len() as u8));
        assert(empty.fed_all(bytes).data() =~= value.take(0));
    } else {
        law_field_fills_to_declared_length(capacity, value, k - 1);
        assert(bytes.drop_last() =~= encode_field(value).take(k));
        assert(bytes.last() == value[k - 1]);
        let before = empty.fed_all(encode_field(value).take(k));
        assert(empty.fed_all(bytes) == before.fed(value[k - 1]));
        assert(before.fed(value[k - 1]).data() =~= value.take(k));
    }
}

/// One byte keeps the invariant of the deserializer: the state still names
/// the one open field, the fields before it are complete and the fields
/// after it untouched.
pub proof fn law_advance_keeps_invariant(m: DeserModel, byte: u8)
    requires
        m.wf(),
    ensures
        m.advanced(byte).wf(),
{
}

/// One byte reaches one field at most, the open one, and the state stays,
/// moves on to the following one, or becomes `Error`: a field that the
/// deserializer has left is never written again.
pub proof fn law_fields_fill_in_order(m: DeserModel, byte: u8)
    requires
        m.wf(),
    ensures
        m.state != DeserState::AwaitingA ==> m.advanced(byte).a == m.a,
        m.state != DeserState::AwaitingB ==> m.advanced(byte).b == m.b,
        m.state != DeserState::AwaitingC ==> m.advanced(byte).c == m.c,
        !m.state.is_terminal() ==> m.advanced(byte).field_of(m.state) == m.active().fed(byte),
        m.advanced(byte).state == m.state || m.advanced(byte).state == m.state.following()
            || m.advanced(byte).state == DeserState::Error,
{
}

/// A length above the capacity of the field that awaits its length gives
/// `Malformed` and the state `Error`, and no field is touched.
pub proof fn law_oversized_length_is_malformed(m: DeserModel, byte: u8)
    requires
        !m.state.is_terminal(),
        m.active().declared is None,
        byte > m.active().capacity(),
    ensures
        m.signal(byte) == Signal::Malformed,
        m.advanced(byte) == (DeserModel { state: DeserState::Error, ..m }),
{
}

/// Terminal states are inert: in `Complete` and in `Error` every byte is
/// answered with `AlreadyDone`, and no run of bytes changes the state, a
/// count or a buffer.
pub proof fn law_terminal_is_inert(m: DeserModel, bytes: Seq<u8>)
    requires
        m.state.is_terminal(),
    ensures
        m.run(bytes) == m,
        forall|byte: u8| m.signal(byte) == Signal::AlreadyDone && m.advanced(byte) == m,
    decreases bytes.len(),
{
    if bytes.len() > 0 {
        law_terminal_is_inert(m, bytes.drop_last());
    }
}

/// Running over a byte sequence keeps the invariant.
pub proof fn law_run_keeps_invariant(m: DeserModel, bytes: Seq<u8>)
    requires
        m.wf(),
    ensures
        m.run(bytes).wf(),
    decreases bytes.len(),
{
    if bytes.len() > 0 {
        law_run_keeps_invariant(m, bytes.drop_last());
    }
}

/// Running over two byte sequences in turn is running over their
/// concatenation.
pub proof fn law_run_concat(m: DeserModel, first: Seq<u8>, second: Seq<u8>)
    ensures
        m.run(first + second) == m.run(first).run(second),
    decreases second.len(),
{
    if second.len() == 0 {
        assert(first + second =~= first);
    } else {
        law_run_concat(m, first, second.drop_last());
        assert((first + second).drop_last() =~= first + second.drop_last());
        assert((first + second).last() == second.last());
    }
}

/// Taking a byte appends it to what the field has taken off the wire, and
/// refusing one leaves that as it was.
proof fn lemma_field_image_grows(field: FieldModel, byte: u8)
    requires
        field.wf(),
        !field.is_complete(),
    ensures
        field_image(field.fed(byte)) == if field.outcome(byte) is LengthInvalid {
            field_image(field)
        } else {
            field_image(field).push(byte)
        },
        DeserModel::taken(field.fed(byte)) == if field.outcome(byte) is LengthInvalid {
            DeserModel::taken(field)
        } else {
            DeserModel::taken(field) + 1
        },
{
    match field.declared {
        None => {
            if byte <= field.capacity() {
                assert(field.fed(byte).data() =~= Seq::empty());
                assert(field_image(field.fed(byte)) =~= field_image(field).push(byte));
            }
        },
        Some(len) => {
            assert(field.fed(byte).data() =~= field.data().push(byte));
            assert(field_image(field.fed(byte)) =~= field_image(field).push(byte));
        },
    }
}

/// A byte that is taken is appended to what the deserializer has taken off
/// the wire; a byte that is refused or ignored changes nothing of it. A byte
/// that leaves the state open, or completes the frame, is taken.
proof fn lemma_image_grows(m: DeserModel, byte: u8)
    requires
        m.wf(),
    ensures
        ({
            let r = m.advanced(byte);
            &&& r.wf()
            &&& r.consumed() == m.consumed() || r.consumed() == m.consumed() + 1
            &&& r.consumed() == m.consumed() ==> image(r) == image(m)
            &&& r.consumed() == m.consumed() + 1 ==> image(r) == image(m).push(byte)
            &&& !r.state.is_terminal() ==> r.consumed() == m.consumed() + 1
            &&& !r.state.is_terminal() ==> !m.state.is_terminal()
            &&& r.state is Complete && !(m.state is Complete) ==> r.consumed() == m.consumed() + 1
            &&& r.state is Complete && !(m.state is Complete) ==> !m.state.is_terminal()
        }),
{
    if !m.state.is_terminal() {
        lemma_field_image_grows(m.active(), byte);
        if !(m.active().outcome(byte) is LengthInvalid) {
            assert(image(m.advanced(byte)) =~= image(m).push(byte));
        }
    }
}

/// What a complete deserializer has taken off the wire is the encoding of
/// the three values it holds.
proof fn lemma_image_of_complete(m: DeserModel)
    requires
        m.wf(),
        m.state is Complete,
    ensures
        image(m) == encode_frame(m.a.data(), m.b.data(), m.c.data()),
        m.consumed() == 3 + m.a.data().len() + m.b.data().len() + m.c.data().len(),
        m.a.declared == Some(m.a.data().len() as u8),
        m.b.declared == Some(m.b.data().len() as u8),
        m.c.declared == Some(m.c.data().len() as u8),
{
}

/// Whatever a deserializer holds was on the wire, in that order: after any
/// byte sequence, what it has taken is the beginning of that sequence. While
/// the state is not terminal it has taken every byte. So a deserializer that
/// is `Complete` holds the frame that the sequence begins with.
pub proof fn law_decoded_was_sent(bytes: Seq<u8>)
    ensures
        ({
            let m = DeserModel::init().run(bytes);
            &&& m.wf()
            &&& m.consumed() <= bytes.len()
            &&& image(m) == bytes.take(m.consumed() as int)
            &&& !m.state.is_terminal() ==> m.consumed() == bytes.len()
            &&& m.state is Complete ==> image(m) == encode_frame(m.a.data(), m.b.data(), m.c.data())
        }),
    decreases bytes.len(),
{
    let m = DeserModel::init().run(bytes);
    if bytes.len() == 0 {
        assert(image(m) =~= bytes.take(0));
    } else {
        let before = DeserModel::init().run(bytes.drop_last());
        let taken = before.consumed() as int;
        law_decoded_was_sent(bytes.drop_last());
        lemma_image_grows(before, bytes.last());
        assert(bytes.drop_last().take(taken) =~= bytes.take(taken));
        if m.consumed() == taken + 1 {
            assert(bytes.take(taken).push(bytes.last()) =~= bytes.take(taken + 1));
        }
    }
    if m.state is Complete {
        lemma_image_of_complete(m);
    }
}

/// A frame takes `3 + len_A + len_B + len_C` bytes: if the state is
/// `Complete` after a byte sequence and was not before its last byte, the
/// sequence has that many bytes, the three lengths being the declared ones,
/// and it is the encoding of the three values that the deserializer holds.
pub proof fn law_complete_after_frame_length(bytes: Seq<u8>)
    requires
        bytes.len() > 0,
        DeserModel::init().run(bytes).state is Complete,
        !(DeserModel::init().run(bytes.drop_last()).state is Complete),
    ensures
        ({
            let m = DeserModel::init().run(bytes);
            &&& m.a.declared is Some && m.b.declared is Some && m.c.declared is Some
            &&& bytes.len() == 3 + m.a.declared->0 + m.b.declared->0 + m.c.declared->0
            &&& bytes == encode_frame(m.a.data(), m.b.data(), m.c.data())
        }),
{
    let m = DeserModel::init().run(bytes);
    let before = DeserModel::init().run(bytes.drop_last());
    law_decoded_was_sent(bytes);
    law_decoded_was_sent(bytes.drop_last());
    lemma_image_grows(before, bytes.last());
    lemma_image_of_complete(m);
    assert(bytes.take(bytes.len() as int) =~= bytes);
}

/// A deserializer whose open field awaits its length takes the length and
/// the first `k` value bytes of an encoded field into that field, and into
/// no other. It stays in its state until the last of them and then moves on
/// to the following one.
proof fn lemma_field_is_decoded(m: DeserModel, value: Seq<u8>, k: int)
    requires
        m.wf(),
        !m.state.is_terminal(),
        m.active().declared is None,
        value.len() <= m.active().capacity(),
        0 <= k <= value.len(),
    ensures
        ({
            let r = m.run(encode_field(value).take(k + 1));
            &&& r.wf()
            &&& r.state == if k == value.len() {
                m.state.following()
            } else {
                m.state
            }
            &&& r.field_of(m.state).declared == Some(value.len() as u8)
            &&& r.field_of(m.state).filled == k
            &&& r.field_of(m.state).data() == value.take(k)
            &&& m.state != DeserState::AwaitingA ==> r.a == m.a
            &&& m.state != DeserState::AwaitingB ==> r.b == m.b
            &&& m.state != DeserState::AwaitingC ==> r.c == m.c
        }),
    decreases k,
{
    let bytes = encode_field(value).take(k + 1);
    if k == 0 {
        assert(bytes.drop_last() =~= Seq::empty());
        assert(m.run(bytes.drop_last()) == m);
        assert(m.run(bytes) == m.advanced(value.len() as u8));
        assert(m.run(bytes).field_of(m.state).data() =~= value.take(0));
    } else {
        lemma_field_is_decoded(m, value, k - 1);
        assert(bytes.drop_last() =~= encode_field(value).take(k));
        assert(bytes.last() == value[k - 1]);
        let before = m.run(encode_field(value).take(k));
        assert(m.run(bytes) == before.advanced(value[k - 1]));
        assert(m.run(bytes).field_of(m.state).data() =~= value.take(k));
    }
}

/// After the encoding of a value within the capacity of field A, the
/// deserializer holds the value in field A and awaits field B.
proof fn lemma_after_field_a(a: Seq<u8>)
    requires
        a.len() <= FIELD_A_CAPACITY,
    ensures
        ({
            let r = DeserModel::init().run(encode_field(a));
            &&& r.wf()
            &&& r.state is AwaitingB
            &&& r.a.data() == a
            &&& r.b.declared is None
        }),
{
    let wire = encode_field(a);
    lemma_field_is_decoded(DeserModel::init(), a, a.len() as int);
    assert(wire.take(wire.len() as int) =~= wire);
    assert(a.take(a.len() as int) =~= a);
}

/// After the encodings of two values within the capacities of fields A and
/// B, the deserializer holds them in these fields and awaits field C.
proof fn lemma_after_field_b(a: Seq<u8>, b: Seq<u8>)
    requires
        a.len() <= FIELD_A_CAPACITY,
        b.len() <= FIELD_B_CAPACITY,
    ensures
        ({
            let r = DeserModel::init().run(encode_field(a) + encode_field(b));
            &&& r == DeserModel::init().run(encode_field(a)).run(encode_field(b))
            &&& r.wf()
            &&& r.state is AwaitingC
            &&& r.a.data() == a
            &&& r.b.data() == b
            &&& r.c.declared is None
        }),
{
    let wire = encode_field(b);
    let after_a = DeserModel::init().run(encode_field(a));
    lemma_after_field_a(a);
    law_run_concat(DeserModel::init(), encode_field(a), wire);
    lemma_field_is_decoded(after_a, b, b.len() as int);
    assert(wire.take(wire.len() as int) =~= wire);
    assert(b.take(b.len() as int) =~= b);
}

/// The state of a fresh deserializer after the first `n` bytes of an encoded
/// frame: it awaits the field that the next byte belongs to, and after the
/// whole frame it is `Complete` and holds the three values.
proof fn lemma_state_within_frame(a: Seq<u8>, b: Seq<u8>, c: Seq<u8>, n: int)
    requires
        a.len() <= FIELD_A_CAPACITY,
        b.len() <= FIELD_B_CAPACITY,
        c.len() <= FIELD_C_CAPACITY,
        0 <= n <= encode_frame(a, b, c).len(),
    ensures
        ({
            let r = DeserModel::init().run(encode_frame(a, b, c).take(n));
            &&& r.state == if n == 3 + a.len() + b.len() + c.len() {
                DeserState::Complete
            } else if n <= a.len() {
                DeserState::AwaitingA
            } else if n <= a.len() + 1 + b.len() {
                DeserState::AwaitingB
            } else {
                DeserState::AwaitingC
            }
            &&& r.state is Complete ==> r.a.data() == a && r.b.data() == b && r.c.data() == c
        }),
{
    let init = DeserModel::init();
    let frame = encode_frame(a, b, c);
    let (wire_a, wire_b, wire_c) = (encode_field(a), encode_field(b), encode_field(c));
    if n == 0 {
        assert(frame.take(0) =~= Seq::empty());
    } else if n <= wire_a.len() {
        assert(frame.take(n) =~= wire_a.take(n));
        lemma_field_is_decoded(init, a, n - 1);
    } else if n <= wire_a.len() + wire_b.len() {
        let k = n - wire_a.len();
        assert(frame.take(n) =~= wire_a + wire_b.take(k));
        lemma_after_field_a(a);
        law_run_concat(init, wire_a, wire_b.take(k));
        lemma_field_is_decoded(init.run(wire_a), b, k - 1);
    } else {
        let k = n - wire_a.len() - wire_b.len();
        assert(frame.take(n) =~= (wire_a + wire_b) + wire_c.take(k));
        lemma_after_field_b(a, b);
        law_run_concat(init, wire_a + wire_b, wire_c.take(k));
        lemma_field_is_decoded(init.run(wire_a + wire_b), c, k - 1);
        if k == wire_c.len() {
            assert(c.take(k - 1) =~= c);
        }
    }
}

/// Every frame is decoded: a deserializer that has seen no byte and is run
/// over the encoding of three values within the capacities ends in
/// `Complete` and holds exactly these values. It is in no terminal state
/// before the last byte, so each byte but the last is answered with
/// `Continue` and the last with `FrameComplete`.
pub proof fn law_frame_is_decoded(a: Seq<u8>, b: Seq<u8>, c: Seq<u8>)
    requires
        a.len() <= FIELD_A_CAPACITY,
        b.len() <= FIELD_B_CAPACITY,
        c.len() <= FIELD_C_CAPACITY,
    ensures
        encode_frame(a, b, c).len() == 3 + a.len() + b.len() + c.len(),
        ({
            let m = DeserModel::init().run(encode_frame(a, b, c));
            &&& m.state is Complete
            &&& m.a.data() == a
            &&& m.b.data() == b
            &&& m.c.data() == c
        }),
        forall|n: int|
            0 <= n < encode_frame(a, b, c).len() ==> !(#[trigger] DeserModel::init().run(
                encode_frame(a, b, c).take(n),
            )).state.is_terminal(),
        forall|n: int|
            0 <= n < encode_frame(a, b, c).len() ==> (#[trigger] DeserModel::init().run(
                encode_frame(a, b, c).take(n),
            )).signal(encode_frame(a, b, c)[n]) == if n + 1 == encode_frame(a, b, c).len() {
                Signal::FrameComplete
            } else {
                Signal::Continue
            },
{
    let init = DeserModel::init();
    let frame = encode_frame(a, b, c);
    lemma_state_within_frame(a, b, c, frame.len() as int);
    assert(frame.take(frame.len() as int) =~= frame);

    assert forall|n: int| 0 <= n < frame.len() implies !(#[trigger] init.run(
        frame.take(n),
    )).state.is_terminal() by {
        lemma_state_within_frame(a, b, c, n);
    }

    assert forall|n: int| 0 <= n < frame.len() implies (#[trigger] init.run(
        frame.take(n),
    )).signal(frame[n]) == if n + 1 == frame.len() {
        Signal::FrameComplete
    } else {
        Signal::Continue
    } by {
        lemma_state_within_frame(a, b, c, n);
        lemma_state_within_frame(a, b, c, n + 1);
        assert(frame.take(n + 1).drop_last() =~= frame.take(n));
        assert(frame.take(n + 1).last() == frame[n]);
        assert(init.run(frame.take(n + 1)) == init.run(frame.take(n)).advanced(frame[n]));
    }
}

} // verus!
