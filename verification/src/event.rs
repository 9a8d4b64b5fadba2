//! The input-event record: its layout on the wire and the predicates that
//! classify an event.
//!
//! A record is 24 bytes, little-endian, without padding. The two parts of the
//! timestamp are machine words of eight bytes each:
//!
//! | bytes  | field     | type  |
//! |--------|-----------|-------|
//! | 0..8   | `tv_sec`  | `i64` |
//! | 8..16  | `tv_usec` | `i64` |
//! | 16..18 | `type_`   | `u16` |
//! | 18..20 | `code`    | `u16` |
//! | 20..24 | `value`   | `i32` |

use crate::wire::{
    from_twos_complement, le_bytes, le_value, lemma_le_bytes_len, lemma_le_bytes_of_value,
    lemma_le_value_bound, lemma_le_value_of_bytes, lemma_radix_pow_values, read_le, signed_32,
    signed_64, to_twos_complement, unsigned_32, unsigned_64, write_le,
};
use vstd::prelude::*;

verus! {

/// Length of one record in bytes.
pub const EVENT_SIZE: usize = 24;

/// The event type of key events.
pub const EV_KEY: u16 = 1;

/// The `value` of a key event that reports a release.
pub const KEY_RELEASE: i32 = 0;

/// The `value` of a key event that reports a press.
pub const KEY_PRESS: i32 = 1;

/// The `value` of a key event that the kernel repeats while a key is held.
pub const KEY_AUTOREPEAT: i32 = 2;

/// Scancode of the left shift key.
pub const KEY_LEFTSHIFT: u16 = 42;

/// Scancode of the right shift key.
pub const KEY_RIGHTSHIFT: u16 = 54;

/// One event as the input subsystem reports it.
#[derive(Clone, Copy, Debug, PartialEq, Eq, Structural)]
pub struct InputEvent {
    /// Seconds of the timestamp.
    pub tv_sec: i64,
    /// Microseconds of the timestamp.
    pub tv_usec: i64,
    /// Category of the event; [`EV_KEY`] for keys.
    pub type_: u16,
    /// Scancode of the key.
    pub code: u16,
    /// [`KEY_RELEASE`], [`KEY_PRESS`] or [`KEY_AUTOREPEAT`] for key events.
    pub value: i32,
}

/// A record could not be decoded because the input ended early.
#[derive(Clone, Copy, Debug, PartialEq, Eq, Structural)]
pub struct DecodeError {
    /// Number of bytes that were there, fewer than [`EVENT_SIZE`].
    pub available: usize,
}

/// The unsigned number in the `width` bytes of `bytes` that start at `start`.
pub open spec fn field(bytes: Seq<u8>, start: int, width: int) -> nat {
    le_value(bytes.subrange(start, start + width))
}

/// The event that the first 24 bytes of `bytes` denote.
pub open spec fn decode(bytes: Seq<u8>) -> InputEvent
    recommends
        bytes.len() >= EVENT_SIZE,
{
    InputEvent {
        tv_sec: from_twos_complement(field(bytes, 0, 8), 8) as i64,
        tv_usec: from_twos_complement(field(bytes, 8, 8), 8) as i64,
        type_: field(bytes, 16, 2) as u16,
        code: field(bytes, 18, 2) as u16,
        value: from_twos_complement(field(bytes, 20, 4), 4) as i32,
    }
}

/// The 24 bytes that denote `event`.
pub open spec fn encode(event: InputEvent) -> Seq<u8> {
    le_bytes(to_twos_complement(event.tv_sec as int, 8), 8) + le_bytes(
        to_twos_complement(event.tv_usec as int, 8),
        8,
    ) + le_bytes(event.type_ as nat, 2) + le_bytes(event.code as nat, 2) + le_bytes(
        to_twos_complement(event.value as int, 4),
        4,
    )
}

/// Whether an event of this type is a key event.
pub open spec fn key_event_type(type_: u16) -> bool {
    type_ == EV_KEY
}

/// Whether this value reports a press.
pub open spec fn press_value(value: i32) -> bool {
    value == KEY_PRESS
}

/// Whether this value reports a release.
pub open spec fn release_value(value: i32) -> bool {
    value == KEY_RELEASE
}

/// Whether this scancode is one of the two shift keys.
pub open spec fn shift_code(code: u16) -> bool {
    code == KEY_LEFTSHIFT || code == KEY_RIGHTSHIFT
}

/// True iff `type_` is the key-event category.
#[verifier::when_used_as_spec(key_event_type)]
pub fn is_key_event(type_: u16) -> (b: bool)
    ensures
        b == key_event_type(type_),
{
    type_ == EV_KEY
}

/// True iff `value` reports a press. Autorepeat is not a press.
#[verifier::when_used_as_spec(press_value)]
pub fn is_key_press(value: i32) -> (b: bool)
    ensures
        b == press_value(value),
{
    value == KEY_PRESS
}

/// True iff `value` reports a release. Autorepeat is not a release.
#[verifier::when_used_as_spec(release_value)]
pub fn is_key_release(value: i32) -> (b: bool)
    ensures
        b == release_value(value),
{
    value == KEY_RELEASE
}

/// True iff `code` is the left or the right shift key.
#[verifier::when_used_as_spec(shift_code)]
pub fn is_shift(code: u16) -> (b: bool)
    ensures
        b == shift_code(code),
{
    code == KEY_LEFTSHIFT || code == KEY_RIGHTSHIFT
}

/// No value is both a press and a release, and autorepeat is neither.
pub proof fn lemma_press_release_exclusive(value: i32)
    ensures
        !(is_key_press(value) && is_key_release(value)),
        value == KEY_AUTOREPEAT ==> !is_key_press(value) && !is_key_release(value),
{
}

/// An encoded event is one record long.
pub proof fn lemma_encode_len(event: InputEvent)
    ensures
        encode(event).len() == EVENT_SIZE,
{
    lemma_le_bytes_len(to_twos_complement(event.tv_sec as int, 8), 8);
    lemma_le_bytes_len(to_twos_complement(event.tv_usec as int, 8), 8);
    lemma_le_bytes_len(event.type_ as nat, 2);
    lemma_le_bytes_len(event.code as nat, 2);
    lemma_le_bytes_len(to_twos_complement(event.value as int, 4), 4);
}

/// Decoding a record and encoding the event again gives the record back,
/// byte for byte.
pub proof fn lemma_encode_decode(bytes: Seq<u8>)
    requires
        bytes.len() == EVENT_SIZE,
    ensures
        encode(decode(bytes)) == bytes,
{
    lemma_radix_pow_values();
    let sec = bytes.subrange(0, 8);
    let usec = bytes.subrange(8, 16);
    let type_ = bytes.subrange(16, 18);
    let code = bytes.subrange(18, 20);
    let value = bytes.subrange(20, 24);
    lemma_le_value_bound(sec);
    lemma_le_value_bound(usec);
    lemma_le_value_bound(type_);
    lemma_le_value_bound(code);
    lemma_le_value_bound(value);
    lemma_le_bytes_of_value(sec);
    lemma_le_bytes_of_value(usec);
    lemma_le_bytes_of_value(type_);
    lemma_le_bytes_of_value(code);
    lemma_le_bytes_of_value(value);
}

/// Encoding an event and decoding the record gives the event back.
pub proof fn lemma_decode_encode(event: InputEvent)
    ensures
        decode(encode(event)) == event,
{
    lemma_radix_pow_values();
    let sec = to_twos_complement(event.tv_sec as int, 8);
    let usec = to_twos_complement(event.tv_usec as int, 8);
    let value = to_twos_complement(event.value as int, 4);
    let bytes = encode(event);
    lemma_le_bytes_len(sec, 8);
    lemma_le_bytes_len(usec, 8);
    lemma_le_bytes_len(event.type_ as nat, 2);
    lemma_le_bytes_len(event.code as nat, 2);
    lemma_le_bytes_len(value, 4);
    lemma_le_value_of_bytes(sec, 8);
    lemma_le_value_of_bytes(usec, 8);
    lemma_le_value_of_bytes(event.type_ as nat, 2);
    lemma_le_value_of_bytes(event.code as nat, 2);
    lemma_le_value_of_bytes(value, 4);
    assert(bytes.subrange(0, 8) =~= le_bytes(sec, 8));
    assert(bytes.subrange(8, 16) =~= le_bytes(usec, 8));
    assert(bytes.subrange(16, 18) =~= le_bytes(event.type_ as nat, 2));
    assert(bytes.subrange(18, 20) =~= le_bytes(event.code as nat, 2));
    assert(bytes.subrange(20, 24) =~= le_bytes(value, 4));
}

/// Only the first record of a longer input is read.
pub proof fn lemma_decode_reads_prefix(bytes: Seq<u8>)
    requires
        bytes.len() >= EVENT_SIZE,
    ensures
        decode(bytes) == decode(bytes.subrange(0, EVENT_SIZE as int)),
{
    let head = bytes.subrange(0, EVENT_SIZE as int);
    assert(head.subrange(0, 8) =~= bytes.subrange(0, 8));
    assert(head.subrange(8, 16) =~= bytes.subrange(8, 16));
    assert(head.subrange(16, 18) =~= bytes.subrange(16, 18));
    assert(head.subrange(18, 20) =~= bytes.subrange(18, 20));
    assert(head.subrange(20, 24) =~= bytes.subrange(20, 24));
}

/// Decodes the record at the start of `buffer`.
///
/// Fails exactly when fewer than [`EVENT_SIZE`] bytes are there; bytes after
/// the first record are left alone.
pub fn read_input_event(buffer: &[u8]) -> (result: Result<InputEvent, DecodeError>)
    ensures
        buffer.len() >= EVENT_SIZE ==> result == Ok::<InputEvent, DecodeError>(decode(buffer@)),
        buffer.len() < EVENT_SIZE ==> result == Err::<InputEvent, DecodeError>(
            (DecodeError { available: buffer.len() }),
        ),
{
    if buffer.len() < EVENT_SIZE {
        return Err(DecodeError { available: buffer.len() });
    }
    proof {
        lemma_radix_pow_values();
        lemma_le_value_bound(buffer@.subrange(0, 8));
        lemma_le_value_bound(buffer@.subrange(8, 16));
        lemma_le_value_bound(buffer@.subrange(16, 18));
        lemma_le_value_bound(buffer@.subrange(18, 20));
        lemma_le_value_bound(buffer@.subrange(20, 24));
    }
    let tv_sec = signed_64(read_le(buffer, 0, 8));
    let tv_usec = signed_64(read_le(buffer, 8, 8));
    let type_ = read_le(buffer, 16, 2) as u16;
    let code = read_le(buffer, 18, 2) as u16;
    let value = signed_32(read_le(buffer, 20, 4) as u32);
    Ok(InputEvent { tv_sec, tv_usec, type_, code, value })
}

impl InputEvent {
    /// The record that denotes this event.
    pub fn to_bytes(&self) -> (bytes: Vec<u8>)
        ensures
            bytes@ == encode(*self),
            bytes.len() == EVENT_SIZE,
    {
        let mut bytes: Vec<u8> = Vec::new();
        write_le(&mut bytes, unsigned_64(self.tv_sec), 8);
        write_le(&mut bytes, unsigned_64(self.tv_usec), 8);
        write_le(&mut bytes, self.type_ as u64, 2);
        write_le(&mut bytes, self.code as u64, 2);
        write_le(&mut bytes, unsigned_32(self.value) as u64, 4);
        proof {
            lemma_encode_len(*self);
        }
        bytes
    }

    /// Whether this is a key event that reports a press.
    pub open spec fn is_press(self) -> bool {
        is_key_event(self.type_) && is_key_press(self.value)
    }

    /// Whether this is a key event that reports a release.
    pub open spec fn is_release(self) -> bool {
        is_key_event(self.type_) && is_key_release(self.value)
    }
}

} // verus!
