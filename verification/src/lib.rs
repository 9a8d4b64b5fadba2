//! A key logger's core: it decodes the event records of a Linux input device
//! and turns key presses into the text that was typed.
//!
//! * [`event`] holds the record, its 24-byte layout and the predicates that
//!   classify an event.
//! * [`wire`] gives the little-endian fields of a record their meaning.
//! * [`modifier`] counts the shift keys that are held down.
//! * [`keymap`] is the table from scancode to text.
//! * [`acquisition`] is the loop that ties them together: record in, text out.
//! * [`config`] and [`discovery`] settle which device is read and which log is
//!   written.
//!
//! Reading the device and writing the log are left to the caller.

pub mod acquisition;
pub mod config;
pub mod discovery;
pub mod event;
pub mod keymap;
pub mod modifier;
pub mod wire;
