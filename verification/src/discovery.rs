//! Picking the keyboard to read where none was named.
//!
//! The system is asked for the event devices that look like keyboards, and
//! answers with a listing: one name such as `event3` per line. This module
//! turns that listing into device paths and picks the device if it is the
//! only one.

use vstd::prelude::*;
use vstd::string::{StrSliceExecFns, StringExecFns};

verus! {

/// No single keyboard could be picked.
#[derive(Debug)]
pub enum DeviceError {
    /// No keyboard device was detected.
    NoneDetected,
    /// More than one keyboard device was detected; one of them has to be
    /// named by hand.
    Ambiguous(Vec<String>),
}

/// The directory that holds the event devices, with its closing slash.
pub open spec fn device_directory() -> Seq<char> {
    "/dev/input/"@
}

/// Whether `c` is white space: a character with the Unicode property
/// `White_Space`.
pub open spec fn whitespace(c: char) -> bool {
    ||| '\u{9}' <= c <= '\u{d}'
    ||| c == ' '
    ||| c == '\u{85}'
    ||| c == '\u{a0}'
    ||| c == '\u{1680}'
    ||| '\u{2000}' <= c <= '\u{200a}'
    ||| c == '\u{2028}'
    ||| c == '\u{2029}'
    ||| c == '\u{202f}'
    ||| c == '\u{205f}'
    ||| c == '\u{3000}'
}

/// `text` without the white space at its start.
pub open spec fn trim_start(text: Seq<char>) -> Seq<char>
    decreases text.len(),
{
    if text.len() > 0 && whitespace(text[0]) {
        trim_start(text.drop_first())
    } else {
        text
    }
}

/// `text` without the white space at its end.
pub open spec fn trim_end(text: Seq<char>) -> Seq<char>
    decreases text.len(),
{
    if text.len() > 0 && whitespace(text.last()) {
        trim_end(text.drop_last())
    } else {
        text
    }
}

/// `text` without the white space at its start and at its end.
pub open spec fn trim(text: Seq<char>) -> Seq<char> {
    trim_end(trim_start(text))
}

/// The pieces of `text` between its line feeds: one more piece than there
/// are line feeds, and a piece is empty where two of them meet.
pub open spec fn split_lines(text: Seq<char>) -> Seq<Seq<char>>
    decreases text.len(),
{
    if text.len() == 0 {
        seq![Seq::empty()]
    } else {
        let before = split_lines(text.drop_last());
        if text.last() == '\n' {
            before.push(Seq::empty())
        } else {
            before.drop_last().push(before.last().push(text.last()))
        }
    }
}

/// The device names of a listing: the lines of the trimmed listing, and none
/// at all where nothing but white space is listed.
pub open spec fn device_names(listing: Seq<char>) -> Seq<Seq<char>> {
    if trim(listing).len() == 0 {
        Seq::empty()
    } else {
        split_lines(trim(listing))
    }
}

/// The device paths of a listing: each device name behind the directory of
/// the event devices.
pub open spec fn device_paths(listing: Seq<char>) -> Seq<Seq<char>> {
    Seq::new(device_names(listing).len(), |i: int| device_directory() + device_names(listing)[i])
}

/// True iff `c` is white space.
#[verifier::when_used_as_spec(whitespace)]
pub fn is_whitespace(c: char) -> (b: bool)
    ensures
        b == whitespace(c),
{
    ('\u{9}' <= c && c <= '\u{d}') || c == ' ' || c == '\u{85}' || c == '\u{a0}' || c == '\u{1680}'
        || ('\u{2000}' <= c && c <= '\u{200a}') || c == '\u{2028}' || c == '\u{2029}' || c
        == '\u{202f}' || c == '\u{205f}' || c == '\u{3000}'
}

/// The paths of the keyboard devices that `listing` names.
///
/// The listing is trimmed and cut at its line feeds, and each piece is put
/// behind `/dev/input/`. A listing of white space alone names no device.
pub fn get_keyboard_device_filenames(listing: &str) -> (filenames: Vec<String>)
    ensures
        filenames@.map_values(|name: String| name@) == device_paths(listing@),
{
    let len = listing.unicode_len();
    let mut start: usize = 0;
    assert(listing@.subrange(0, len as int) =~= listing@);
    while start < len && is_whitespace(listing.get_char(start))
        invariant
            start <= len == listing@.len(),
            trim_start(listing@) == trim_start(listing@.subrange(start as int, len as int)),
        decreases len - start,
    {
        assert(listing@.subrange(start as int, len as int).drop_first() =~= listing@.subrange(
            start + 1,
            len as int,
        ));
        start += 1;
    }
    let mut end: usize = len;
    while end > start && is_whitespace(listing.get_char(end - 1))
        invariant
            start <= end <= len == listing@.len(),
            trim(listing@) == trim_end(listing@.subrange(start as int, end as int)),
        decreases end,
    {
        assert(listing@.subrange(start as int, end as int).drop_last() =~= listing@.subrange(
            start as int,
            end - 1,
        ));
        end -= 1;
    }
    let mut filenames: Vec<String> = Vec::new();
    if start == end {
        return filenames;
    }
    let mut from: usize = start;
    let mut at: usize = start;
    while at < end
        invariant
            start <= from <= at <= end <= len == listing@.len(),
            filenames.len() + 1 == split_lines(listing@.subrange(start as int, at as int)).len(),
            forall|i: int|
                0 <= i < filenames.len() ==> (#[trigger] filenames[i])@ == device_directory()
                    + split_lines(listing@.subrange(start as int, at as int))[i],
            split_lines(listing@.subrange(start as int, at as int)).last() == listing@.subrange(
                from as int,
                at as int,
            ),
        decreases end - at,
    {
        let c = listing.get_char(at);
        assert(listing@.subrange(start as int, at + 1).drop_last() =~= listing@.subrange(
            start as int,
            at as int,
        ));
        if c == '\n' {
            let mut filename = "/dev/input/".to_owned();
            filename.append(listing.substring_char(from, at));
            filenames.push(filename);
            from = at + 1;
        }
        at += 1;
    }
    let mut filename = "/dev/input/".to_owned();
    filename.append(listing.substring_char(from, end));
    filenames.push(filename);
    filenames
}

/// Picks the device to read where none was named: the one keyboard among the
/// detected devices. With none or with several there is nothing to pick.
pub fn get_default_device(filenames: Vec<String>) -> (result: Result<String, DeviceError>)
    ensures
        filenames.len() == 1 ==> result == Ok::<String, DeviceError>(filenames[0]),
        filenames.len() == 0 ==> result == Err::<String, DeviceError>(DeviceError::NoneDetected),
        filenames.len() > 1 ==> result == Err::<String, DeviceError>(
            DeviceError::Ambiguous(filenames),
        ),
{
    let mut filenames = filenames;
    if filenames.len() == 1 {
        Ok(filenames.swap_remove(0))
    } else if filenames.len() == 0 {
        Err(DeviceError::NoneDetected)
    } else {
        Err(DeviceError::Ambiguous(filenames))
    }
}

} // verus!
