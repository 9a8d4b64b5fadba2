//! The keycode table: which text a key types, with and without shift.
//!
//! The table covers the four rows of character keys, the space bar and three
//! editing keys. Every other scancode (escape, function keys, modifiers,
//! navigation, codes of hardware not yet built) is absent from it and types
//! nothing.
//!
//! | scancodes | without shift  | with shift     |
//! |-----------|----------------|----------------|
//! | 2..=13    | `1234567890-=` | `!@#$%^&*()_+` |
//! | 16..=27   | `qwertyuiop[]` | `QWERTYUIOP{}` |
//! | 30..=41   | ``asdfghjkl;'` `` | `ASDFGHJKL:"~` |
//! | 43..=53   | `\zxcvbnm,./`  | `\|ZXCVBNM<>?` |
//! | 57        | one space      | one space      |
//! | 14        | `<Backspace>`  | `<Backspace>`  |
//! | 15        | `<Tab>`        | `<Tab>`        |
//! | 28        | `<Enter>`      | `<Enter>`      |

use vstd::prelude::*;
use vstd::string::StrSliceExecFns;

verus! {

/// Scancode of the backspace key.
pub const KEY_BACKSPACE: u16 = 14;

/// Scancode of the tab key.
pub const KEY_TAB: u16 = 15;

/// Scancode of the enter key.
pub const KEY_ENTER: u16 = 28;

/// Scancode of the space bar.
pub const KEY_SPACE: u16 = 57;

/// A run of character keys with consecutive scancodes.
pub struct KeyRow {
    /// Scancode of the first key of the row.
    pub first: u16,
    /// What the keys type without shift, one character per key.
    pub plain: Seq<char>,
    /// What the keys type with shift, one character per key.
    pub shifted: Seq<char>,
}

impl KeyRow {
    /// Whether `code` is a key of this row.
    pub open spec fn holds(self, code: u16) -> bool {
        self.first <= code < self.first + self.plain.len()
    }

    /// The one-character texts of the key `code` of this row.
    pub open spec fn entry(self, code: u16) -> (Seq<char>, Seq<char>)
        recommends
            self.holds(code),
    {
        let at = code - self.first;
        (self.plain.subrange(at, at + 1), self.shifted.subrange(at, at + 1))
    }
}

/// The row of digits.
pub open spec fn digit_row() -> KeyRow {
    KeyRow { first: 2, plain: "1234567890-="@, shifted: "!@#$%^&*()_+"@ }
}

/// The upper row of letters.
pub open spec fn upper_row() -> KeyRow {
    KeyRow { first: 16, plain: "qwertyuiop[]"@, shifted: "QWERTYUIOP{}"@ }
}

/// The home row.
pub open spec fn home_row() -> KeyRow {
    KeyRow { first: 30, plain: "asdfghjkl;'`"@, shifted: "ASDFGHJKL:\"~"@ }
}

/// The lower row of letters.
pub open spec fn lower_row() -> KeyRow {
    KeyRow { first: 43, plain: "\\zxcvbnm,./"@, shifted: "|ZXCVBNM<>?"@ }
}

/// Whether `code` is a character key: a key of one of the four rows.
pub open spec fn is_character_key(code: u16) -> bool {
    2 <= code <= 13 || 16 <= code <= 27 || 30 <= code <= 41 || 43 <= code <= 53
}

/// The table. `None` for a scancode that is absent from it, else the text
/// without shift and the text with shift.
pub open spec fn key_entry(code: u16) -> Option<(Seq<char>, Seq<char>)> {
    if 2 <= code <= 13 {
        Some(digit_row().entry(code))
    } else if 16 <= code <= 27 {
        Some(upper_row().entry(code))
    } else if 30 <= code <= 41 {
        Some(home_row().entry(code))
    } else if 43 <= code <= 53 {
        Some(lower_row().entry(code))
    } else if code == KEY_SPACE {
        Some((" "@, " "@))
    } else if code == KEY_BACKSPACE {
        Some(("<Backspace>"@, "<Backspace>"@))
    } else if code == KEY_TAB {
        Some(("<Tab>"@, "<Tab>"@))
    } else if code == KEY_ENTER {
        Some(("<Enter>"@, "<Enter>"@))
    } else {
        None
    }
}

/// The text that the key `code` types while shift is held (`shifted`) or not.
pub open spec fn key_text(code: u16, shifted: bool) -> Seq<char> {
    match key_entry(code) {
        Some((plain, with_shift)) => if shifted {
            with_shift
        } else {
            plain
        },
        None => Seq::empty(),
    }
}

/// The rows are as long as their scancode ranges and hold ASCII only.
pub proof fn lemma_rows_well_formed()
    ensures
        digit_row().plain.len() == 12 && digit_row().shifted.len() == 12,
        upper_row().plain.len() == 12 && upper_row().shifted.len() == 12,
        home_row().plain.len() == 12 && home_row().shifted.len() == 12,
        lower_row().plain.len() == 11 && lower_row().shifted.len() == 11,
        vstd::utf8::is_ascii_chars(digit_row().plain),
        vstd::utf8::is_ascii_chars(digit_row().shifted),
        vstd::utf8::is_ascii_chars(upper_row().plain),
        vstd::utf8::is_ascii_chars(upper_row().shifted),
        vstd::utf8::is_ascii_chars(home_row().plain),
        vstd::utf8::is_ascii_chars(home_row().shifted),
        vstd::utf8::is_ascii_chars(lower_row().plain),
        vstd::utf8::is_ascii_chars(lower_row().shifted),
{
    reveal_strlit("1234567890-=");
    reveal_strlit("!@#$%^&*()_+");
    reveal_strlit("qwertyuiop[]");
    reveal_strlit("QWERTYUIOP{}");
    reveal_strlit("asdfghjkl;'`");
    reveal_strlit("ASDFGHJKL:\"~");
    reveal_strlit("\\zxcvbnm,./");
    reveal_strlit("|ZXCVBNM<>?");
}

/// No key of a row types the same character with shift as without.
pub proof fn lemma_rows_differ()
    ensures
        forall|at: int| 0 <= at < 12 ==> digit_row().plain[at] != digit_row().shifted[at],
        forall|at: int| 0 <= at < 12 ==> upper_row().plain[at] != upper_row().shifted[at],
        forall|at: int| 0 <= at < 12 ==> home_row().plain[at] != home_row().shifted[at],
        forall|at: int| 0 <= at < 11 ==> lower_row().plain[at] != lower_row().shifted[at],
{
    reveal_strlit("1234567890-=");
    reveal_strlit("!@#$%^&*()_+");
    reveal_strlit("qwertyuiop[]");
    reveal_strlit("QWERTYUIOP{}");
    reveal_strlit("asdfghjkl;'`");
    reveal_strlit("ASDFGHJKL:\"~");
    reveal_strlit("\\zxcvbnm,./");
    reveal_strlit("|ZXCVBNM<>?");
}

/// Shift changes what a key types exactly where the table holds the key with
/// two different texts, and those are the character keys. A key that the
/// table does not hold types nothing either way.
pub proof fn lemma_shift_sensitivity(code: u16)
    ensures
        key_text(code, false) != key_text(code, true) <==> (key_entry(code) matches Some(entry)
            && entry.0 != entry.1),
        key_text(code, false) != key_text(code, true) <==> is_character_key(code),
        key_entry(code) is None ==> key_text(code, false) == Seq::<char>::empty() && key_text(
            code,
            true,
        ) == Seq::<char>::empty(),
{
    lemma_rows_well_formed();
    lemma_rows_differ();
    if is_character_key(code) {
        let row = if code <= 13 {
            digit_row()
        } else if code <= 27 {
            upper_row()
        } else if code <= 41 {
            home_row()
        } else {
            lower_row()
        };
        let at = code - row.first;
        assert(row.plain.subrange(at, at + 1)[0] == row.plain[at]);
        assert(row.shifted.subrange(at, at + 1)[0] == row.shifted[at]);
    }
}

/// Every text of the table is ASCII, so it is as many bytes long as it has
/// characters.
pub proof fn lemma_key_text_is_ascii(code: u16, shifted: bool)
    ensures
        vstd::utf8::is_ascii_chars(key_text(code, shifted)),
{
    lemma_rows_well_formed();
    reveal_strlit(" ");
    reveal_strlit("<Backspace>");
    reveal_strlit("<Tab>");
    reveal_strlit("<Enter>");
}

/// The text that the key `code` types.
///
/// Empty for every scancode that the table does not hold.
pub fn get_key_text(code: u16, shifted: bool) -> (text: &'static str)
    ensures
        text@ == key_text(code, shifted),
        text.is_ascii(),
{
    proof {
        lemma_rows_well_formed();
        lemma_key_text_is_ascii(code, shifted);
        reveal_strlit("");
    }
    if 2 <= code && code <= 13 {
        let row: &'static str = if shifted {
            "!@#$%^&*()_+"
        } else {
            "1234567890-="
        };
        let at: usize = (code - 2) as usize;
        row.substring_ascii(at, at + 1)
    } else if 16 <= code && code <= 27 {
        let row: &'static str = if shifted {
            "QWERTYUIOP{}"
        } else {
            "qwertyuiop[]"
        };
        let at: usize = (code - 16) as usize;
        row.substring_ascii(at, at + 1)
    } else if 30 <= code && code <= 41 {
        let row: &'static str = if shifted {
            "ASDFGHJKL:\"~"
        } else {
            "asdfghjkl;'`"
        };
        let at: usize = (code - 30) as usize;
        row.substring_ascii(at, at + 1)
    } else if 43 <= code && code <= 53 {
        let row: &'static str = if shifted {
            "|ZXCVBNM<>?"
        } else {
            "\\zxcvbnm,./"
        };
        let at: usize = (code - 43) as usize;
        row.substring_ascii(at, at + 1)
    } else if code == KEY_SPACE {
        " "
    } else if code == KEY_BACKSPACE {
        "<Backspace>"
    } else if code == KEY_TAB {
        "<Tab>"
    } else if code == KEY_ENTER {
        "<Enter>"
    } else {
        ""
    }
}

} // verus!
