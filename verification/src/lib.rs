//! Incremental, byte-at-a-time decoder for frames made of three
//! length-prefixed fields.
//!
//! A frame on the wire is
//!
//! ```text
//! [len_A] [len_A bytes]  [len_B] [len_B bytes]  [len_C] [len_C bytes]
//! ```
//!
//! with `len_A <= 31`, `len_B <= 40` and `len_C <= 64`. Bytes are pushed in
//! one at a time; the decoder says after each byte whether the frame is still
//! being assembled, has just been completed, or is malformed. All storage is
//! of fixed capacity and lives inside the decoder.
//!
//! [`field`] holds the accumulator of a single field, [`deserializer`] the
//! state machine that sequences three of them, and [`laws`] the theorems that
//! relate the two to the wire format.

pub mod deserializer;
pub mod field;
pub mod laws;
