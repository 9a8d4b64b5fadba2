//! The acquisition loop, without its reads and writes.
//!
//! The loop takes one record at a time, lets the modifier tracker take note of
//! it and appends what the key types to the log. [`process_event`] is one turn
//! of that loop, [`acquire`] is the whole loop over a stream that is already in
//! memory, and [`check_write`] judges what the log sink reports of a write.

use crate::event::{
    decode, is_key_event, is_key_press, lemma_decode_reads_prefix, read_input_event, DecodeError,
    InputEvent, EVENT_SIZE, KEY_AUTOREPEAT,
};
use crate::keymap::{get_key_text, key_text};
use crate::modifier::{
    count_after, count_after_all, is_shift_press, lemma_count_after_concat,
    lemma_count_grows_by_events, ModifierTracker,
};
use vstd::prelude::*;
use vstd::slice::slice_subrange;
use vstd::string::StringExecFns;

verus! {

/// The log sink took fewer bytes than it was given.
#[derive(Clone, Copy, Debug, PartialEq, Eq, Structural)]
pub struct WriteShortfall {
    /// Number of bytes handed to the sink.
    pub requested: usize,
    /// Number of bytes the sink reported as written.
    pub written: usize,
}

/// What the loop leaves behind when its stream ends.
pub struct Acquisition {
    /// The text of all records that were whole, in their order.
    pub text: String,
    /// The modifier state after those records.
    pub tracker: ModifierTracker,
    /// The failed read that ended the loop.
    pub fault: DecodeError,
}

/// The text that `event` appends to the log, where `count` shift keys were
/// held before it.
///
/// Only a press types. A press of a shift key counts before the table is
/// asked, so the key is looked up with the state it brings about.
pub open spec fn emitted(count: nat, event: InputEvent) -> Seq<char> {
    if event.is_press() {
        key_text(event.code, count_after(count, event) > 0)
    } else {
        Seq::empty()
    }
}

/// The text that `events` append to the log one after the other, where
/// `count` shift keys were held before the first.
pub open spec fn transcript(count: nat, events: Seq<InputEvent>) -> Seq<char>
    decreases events.len(),
{
    if events.len() == 0 {
        Seq::empty()
    } else {
        transcript(count, events.drop_last()) + emitted(
            count_after_all(count, events.drop_last()),
            events.last(),
        )
    }
}

/// The records that `stream` holds in full, decoded.
pub open spec fn records(stream: Seq<u8>) -> Seq<InputEvent> {
    Seq::new(
        (stream.len() / EVENT_SIZE as nat) as nat,
        |i: int| decode(stream.subrange(EVENT_SIZE * i, EVENT_SIZE * i + EVENT_SIZE)),
    )
}

/// One turn of the loop: the tracker takes note of `event`, and the result is
/// the text to append to the log (empty where the event types nothing).
pub fn process_event(tracker: &mut ModifierTracker, event: &InputEvent) -> (text: &'static str)
    requires
        is_shift_press(*event) ==> old(tracker)@ < u64::MAX,
    ensures
        final(tracker)@ == count_after(old(tracker)@, *event),
        text@ == emitted(old(tracker)@, *event),
{
    tracker.update(event);
    if is_key_event(event.type_) && is_key_press(event.value) {
        get_key_text(event.code, tracker.is_shifted())
    } else {
        proof {
            reveal_strlit("");
        }
        ""
    }
}

/// Judges a write of `text` of which the sink took `written` bytes: anything
/// but the whole text is a fault.
pub fn check_write(text: &str, written: usize) -> (result: Result<(), WriteShortfall>)
    ensures
        written == text.len() ==> result == Ok::<(), WriteShortfall>(()),
        written != text.len() ==> result == Err::<(), WriteShortfall>(
            (WriteShortfall { requested: text.len(), written }),
        ),
{
    let requested = text.len();
    if written == requested {
        Ok(())
    } else {
        Err(WriteShortfall { requested, written })
    }
}

/// Autorepeat is inert: it types nothing and leaves the count as it is,
/// whatever the key and however many shift keys are held.
pub proof fn lemma_autorepeat_is_inert(count: nat, event: InputEvent)
    requires
        event.value == KEY_AUTOREPEAT,
    ensures
        emitted(count, event) == Seq::<char>::empty(),
        count_after(count, event) == count,
{
}

/// A release types nothing, and so does every event that is no key event.
pub proof fn lemma_only_presses_type(count: nat, event: InputEvent)
    requires
        !event.is_press(),
    ensures
        emitted(count, event) == Seq::<char>::empty(),
{
}

/// The text of `first` and then `second` is the text of `first` followed by
/// the text of `second`, started from the count that `first` leaves: a
/// stream may be processed in parts.
pub proof fn lemma_transcript_concat(
    count: nat,
    first: Seq<InputEvent>,
    second: Seq<InputEvent>,
)
    ensures
        transcript(count, first + second) == transcript(count, first) + transcript(
            count_after_all(count, first),
            second,
        ),
    decreases second.len(),
{
    if second.len() > 0 {
        let head = second.drop_last();
        lemma_transcript_concat(count, first, head);
        lemma_count_after_concat(count, first, head);
        assert((first + second).drop_last() =~= first + head);
    }
}

/// Runs the loop over `stream` from a tracker with no shift key down.
///
/// Every whole record is processed in order. The loop ends, as it always
/// does, with a read that finds less than one record: `fault` tells how many
/// bytes that read found, and nothing of those bytes reaches the text.
pub fn acquire(stream: &[u8]) -> (out: Acquisition)
    ensures
        out.text@ == transcript(0, records(stream@)),
        out.tracker@ == count_after_all(0, records(stream@)),
        out.fault.available == stream.len() % EVENT_SIZE,
{
    let mut tracker = ModifierTracker::new();
    let mut text = String::new();
    let mut at: usize = 0;
    let ghost all = records(stream@);
    loop
        invariant
            all == records(stream@),
            at <= stream.len(),
            at % EVENT_SIZE == 0,
            text@ == transcript(0, all.take((at / EVENT_SIZE) as int)),
            tracker@ == count_after_all(0, all.take((at / EVENT_SIZE) as int)),
        decreases stream.len() - at,
    {
        let ghost done = (at / EVENT_SIZE) as int;
        let rest = slice_subrange(stream, at, stream.len());
        match read_input_event(rest) {
            Err(fault) => {
                assert(all.take(done) =~= all);
                return Acquisition { text, tracker, fault };
            },
            Ok(event) => {
                proof {
                    let seen = all.take(done);
                    let next = all.take(done + 1);
                    lemma_decode_reads_prefix(rest@);
                    assert(rest@.subrange(0, EVENT_SIZE as int) =~= stream@.subrange(
                        EVENT_SIZE * done,
                        EVENT_SIZE * done + EVENT_SIZE,
                    ));
                    assert(next.drop_last() =~= seen);
                    lemma_count_grows_by_events(0, seen);
                }
                let piece = process_event(&mut tracker, &event);
                text.append(piece);
                at = at + EVENT_SIZE;
            },
        }
    }
}

} // verus!
