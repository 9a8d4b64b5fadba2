//! The modifier tracker: how many shift keys are held down.
//!
//! The state is a count, not a flag: with both shift keys down, releasing one
//! of them leaves the other in effect. Its model is a natural number, and the
//! rules of this module are stated over that number: [`count_after`] for one
//! event, [`count_after_all`] for a sequence of events.

use crate::event::{is_key_event, is_key_press, is_key_release, is_shift, InputEvent};
use vstd::prelude::*;

verus! {

/// Whether `event` is a press of a shift key.
pub open spec fn is_shift_press(event: InputEvent) -> bool {
    event.is_press() && is_shift(event.code)
}

/// Whether `event` is a release of a shift key.
pub open spec fn is_shift_release(event: InputEvent) -> bool {
    event.is_release() && is_shift(event.code)
}

/// The count of held shift keys after `event`, where it was `count` before.
///
/// A press of a shift key adds one, a release of a shift key takes one away
/// unless the count is zero already, and no other event changes it.
pub open spec fn count_after(count: nat, event: InputEvent) -> nat {
    if is_shift_press(event) {
        count + 1
    } else if is_shift_release(event) && count > 0 {
        (count - 1) as nat
    } else {
        count
    }
}

/// The count of held shift keys after all of `events`, in their order.
pub open spec fn count_after_all(count: nat, events: Seq<InputEvent>) -> nat
    decreases events.len(),
{
    if events.len() == 0 {
        count
    } else {
        count_after(count_after_all(count, events.drop_last()), events.last())
    }
}

/// Whether none of `events` is a press or a release of a shift key.
pub open spec fn no_shift_events(events: Seq<InputEvent>) -> bool {
    forall|i: int|
        0 <= i < events.len() ==> !is_shift_press(#[trigger] events[i]) && !is_shift_release(
            events[i],
        )
}

/// Whether none of `events` is a press of a shift key.
pub open spec fn no_shift_presses(events: Seq<InputEvent>) -> bool {
    forall|i: int| 0 <= i < events.len() ==> !is_shift_press(#[trigger] events[i])
}

/// The number of shift keys that are held down.
#[derive(Clone, Copy, Debug, PartialEq, Eq, Structural)]
pub struct ModifierTracker {
    count: u64,
}

impl View for ModifierTracker {
    type V = nat;

    closed spec fn view(&self) -> nat {
        self.count as nat
    }
}

impl ModifierTracker {
    /// A tracker with no shift key down.
    pub fn new() -> (tracker: Self)
        ensures
            tracker@ == 0,
    {
        ModifierTracker { count: 0 }
    }

    /// The number of shift keys that are down.
    pub fn count(&self) -> (count: u64)
        ensures
            count == self@,
    {
        self.count
    }

    /// Whether a shift key is down.
    pub fn is_shifted(&self) -> (shifted: bool)
        ensures
            shifted == (self@ > 0),
    {
        self.count > 0
    }

    /// Whether the tracker can count one more shift key.
    pub fn has_room(&self) -> (room: bool)
        ensures
            room == (self@ < u64::MAX),
    {
        self.count < u64::MAX
    }

    /// Takes note of `event`.
    ///
    /// The count is held in 64 bits, so a press of a shift key needs room for
    /// one more.
    pub fn update(&mut self, event: &InputEvent)
        requires
            is_shift_press(*event) ==> old(self)@ < u64::MAX,
        ensures
            final(self)@ == count_after(old(self)@, *event),
    {
        if is_key_event(event.type_) && is_shift(event.code) {
            if is_key_press(event.value) {
                self.count = self.count + 1;
            } else if is_key_release(event.value) && self.count > 0 {
                self.count = self.count - 1;
            }
        }
    }
}

/// An event that is neither a press nor a release of a key leaves the count
/// as it is; autorepeat is such an event.
pub proof fn lemma_inert_event(count: nat, event: InputEvent)
    requires
        !event.is_press() && !event.is_release(),
    ensures
        count_after(count, event) == count,
{
}

/// The count after `first` and then `second` is the count after `second`,
/// started from the count after `first`.
pub proof fn lemma_count_after_concat(count: nat, first: Seq<InputEvent>, second: Seq<InputEvent>)
    ensures
        count_after_all(count, first + second) == count_after_all(
            count_after_all(count, first),
            second,
        ),
    decreases second.len(),
{
    if second.len() > 0 {
        lemma_count_after_concat(count, first, second.drop_last());
        assert((first + second).drop_last() =~= first + second.drop_last());
    }
}

/// The count after a single event.
pub proof fn lemma_count_after_one(count: nat, event: InputEvent)
    ensures
        count_after_all(count, seq![event]) == count_after(count, event),
{
    assert(count_after_all(count, seq![event].drop_last()) == count);
}

/// Events that are no shift presses or releases leave the count as it is.
pub proof fn lemma_no_shift_events_keep_count(count: nat, events: Seq<InputEvent>)
    requires
        no_shift_events(events),
    ensures
        count_after_all(count, events) == count,
    decreases events.len(),
{
    if events.len() > 0 {
        lemma_no_shift_events_keep_count(count, events.drop_last());
    }
}

/// The count never falls below zero and never rises without a shift press:
/// through events that hold no shift press it does not grow, so from zero it
/// stays zero, however many releases arrive.
pub proof fn lemma_releases_stop_at_zero(count: nat, events: Seq<InputEvent>)
    requires
        no_shift_presses(events),
    ensures
        0 <= count_after_all(count, events) <= count,
        count == 0 ==> count_after_all(count, events) == 0,
    decreases events.len(),
{
    if events.len() > 0 {
        lemma_releases_stop_at_zero(count, events.drop_last());
    }
}

/// Each event adds at most one to the count.
pub proof fn lemma_count_grows_by_events(count: nat, events: Seq<InputEvent>)
    ensures
        count_after_all(count, events) <= count + events.len(),
    decreases events.len(),
{
    if events.len() > 0 {
        lemma_count_grows_by_events(count, events.drop_last());
    }
}

/// With two shift keys pressed one after the other, the release of the first
/// leaves the state shifted, with one key more on the count than before the
/// two, until the second is released too. Events that are no shift presses or
/// releases (`before`, `between`, `after`) may come in between. From a count
/// of zero the count in between is one.
pub proof fn lemma_two_shifts(
    count: nat,
    press_first: InputEvent,
    press_second: InputEvent,
    release_first: InputEvent,
    release_second: InputEvent,
    before: Seq<InputEvent>,
    between: Seq<InputEvent>,
    after: Seq<InputEvent>,
)
    requires
        is_shift_press(press_first),
        is_shift_press(press_second),
        is_shift_release(release_first),
        is_shift_release(release_second),
        no_shift_events(before),
        no_shift_events(between),
        no_shift_events(after),
    ensures
        ({
            let held = seq![press_first] + before + seq![press_second] + between + seq![
                release_first,
            ] + after;
            &&& count_after_all(count, held) == count + 1
            &&& count_after_all(count, held) > 0
            &&& count_after_all(count, held + seq![release_second]) == count
        }),
{
    let s1 = seq![press_first];
    let s2 = s1 + before;
    let s3 = s2 + seq![press_second];
    let s4 = s3 + between;
    let s5 = s4 + seq![release_first];
    let s6 = s5 + after;
    lemma_count_after_one(count, press_first);
    lemma_count_after_concat(count, s1, before);
    lemma_no_shift_events_keep_count(count + 1, before);
    lemma_count_after_concat(count, s2, seq![press_second]);
    lemma_count_after_one(count + 1, press_second);
    lemma_count_after_concat(count, s3, between);
    lemma_no_shift_events_keep_count(count + 2, between);
    lemma_count_after_concat(count, s4, seq![release_first]);
    lemma_count_after_one(count + 2, release_first);
    lemma_count_after_concat(count, s5, after);
    lemma_no_shift_events_keep_count(count + 1, after);
    lemma_count_after_concat(count, s6, seq![release_second]);
    lemma_count_after_one(count + 1, release_second);
}

} // verus!
