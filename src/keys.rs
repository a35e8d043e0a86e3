//! Symbolic key names: the mapping from raw key identifiers, the modifier set,
//! and the classification of a key or chord into a category.
use vstd::prelude::*;
use vstd::string::*;
use crate::text::{contains_seq, contains_str, starts_with_seq, starts_with_str, str_eq};

verus! {

/// Names in the first group of fixed mappings.
pub open spec fn system_name(raw: Seq<char>) -> Option<Seq<char>> {
    if raw == "ControlLeft"@ || raw == "ControlRight"@ {
        Some("Ctrl"@)
    } else if raw == "ShiftLeft"@ || raw == "ShiftRight"@ {
        Some("Shift"@)
    } else if raw == "MetaLeft"@ || raw == "MetaRight"@ {
        Some("Win"@)
    } else if raw == "Alt"@ || raw == "AltGr"@ {
        Some("Alt"@)
    } else if raw == "Enter"@ || raw == "Return"@ {
        Some("Enter"@)
    } else if raw == "Space"@ {
        Some("Space"@)
    } else if raw == "Tab"@ {
        Some("Tab"@)
    } else if raw == "Backspace"@ {
        Some("Backspace"@)
    } else if raw == "CapsLock"@ {
        Some("CapsLock"@)
    } else if raw == "Escape"@ {
        Some("Esc"@)
    } else if raw == "UpArrow"@ {
        Some("↑"@)
    } else if raw == "DownArrow"@ {
        Some("↓"@)
    } else if raw == "LeftArrow"@ {
        Some("←"@)
    } else if raw == "RightArrow"@ {
        Some("→"@)
    } else if raw == "Home"@ {
        Some("Home"@)
    } else if raw == "End"@ {
        Some("End"@)
    } else if raw == "PageUp"@ {
        Some("PageUp"@)
    } else if raw == "PageDown"@ {
        Some("PageDown"@)
    } else if raw == "Insert"@ {
        Some("Insert"@)
    } else if raw == "Delete"@ {
        Some("Delete"@)
    } else if raw == "NumLock"@ {
        Some("NumLock"@)
    } else if raw == "ScrollLock"@ {
        Some("ScrollLock"@)
    } else if raw == "PrintScreen"@ {
        Some("PrintScreen"@)
    } else if raw == "Pause"@ {
        Some("Pause"@)
    } else {
        None
    }
}

/// Names in the second group of fixed mappings: punctuation and keypad.
pub open spec fn symbol_name(raw: Seq<char>) -> Option<Seq<char>> {
    if raw == "BackQuote"@ || raw == "Grave"@ {
        Some("`"@)
    } else if raw == "Minus"@ || raw == "KpMinus"@ {
        Some("-"@)
    } else if raw == "Equal"@ {
        Some("="@)
    } else if raw == "LeftBracket"@ {
        Some("["@)
    } else if raw == "RightBracket"@ {
        Some("]"@)
    } else if raw == "SemiColon"@ {
        Some(";"@)
    } else if raw == "BackSlash"@ {
        Some("\\"@)
    } else if raw == "Quote"@ {
        Some("'"@)
    } else if raw == "Comma"@ {
        Some(","@)
    } else if raw == "Dot"@ || raw == "NumpadDecimal"@ {
        Some("."@)
    } else if raw == "Slash"@ || raw == "KpDivide"@ {
        Some("/"@)
    } else if raw == "Numpad0"@ {
        Some("0"@)
    } else if raw == "Numpad1"@ {
        Some("1"@)
    } else if raw == "Numpad2"@ {
        Some("2"@)
    } else if raw == "Numpad3"@ {
        Some("3"@)
    } else if raw == "Numpad4"@ {
        Some("4"@)
    } else if raw == "Numpad5"@ || raw == "Unknown(12)"@ {
        Some("5"@)
    } else if raw == "Numpad6"@ {
        Some("6"@)
    } else if raw == "Numpad7"@ {
        Some("7"@)
    } else if raw == "Numpad8"@ {
        Some("8"@)
    } else if raw == "Numpad9"@ {
        Some("9"@)
    } else if raw == "KpPlus"@ {
        Some("+"@)
    } else if raw == "KpMultiply"@ {
        Some("*"@)
    } else if raw == "NumpadEnter"@ {
        Some("Enter"@)
    } else {
        None
    }
}

/// The symbolic name of a raw key identifier. Total: an identifier that no
/// rule covers is its own name.
pub open spec fn key_name(raw: Seq<char>) -> Seq<char> {
    if system_name(raw) is Some {
        system_name(raw)->0
    } else if starts_with_seq(raw, "Key"@) {
        raw.subrange(3, raw.len() as int)
    } else if starts_with_seq(raw, "Num"@) && raw.len() == 4 {
        raw.subrange(3, 4)
    } else if symbol_name(raw) is Some {
        symbol_name(raw)->0
    } else {
        raw
    }
}

fn owned(s: &str) -> (r: String)
    ensures
        r@ == s@,
{
    s.to_owned()
}

fn system_name_exec(raw: &str) -> (r: Option<String>)
    ensures
        r is Some <==> system_name(raw@) is Some,
        r is Some ==> r->0@ == system_name(raw@)->0,
{
    if str_eq(raw, "ControlLeft") || str_eq(raw, "ControlRight") {
        Some(owned("Ctrl"))
    } else if str_eq(raw, "ShiftLeft") || str_eq(raw, "ShiftRight") {
        Some(owned("Shift"))
    } else if str_eq(raw, "MetaLeft") || str_eq(raw, "MetaRight") {
        Some(owned("Win"))
    } else if str_eq(raw, "Alt") || str_eq(raw, "AltGr") {
        Some(owned("Alt"))
    } else if str_eq(raw, "Enter") || str_eq(raw, "Return") {
        Some(owned("Enter"))
    } else if str_eq(raw, "Space") {
        Some(owned("Space"))
    } else if str_eq(raw, "Tab") {
        Some(owned("Tab"))
    } else if str_eq(raw, "Backspace") {
        Some(owned("Backspace"))
    } else if str_eq(raw, "CapsLock") {
        Some(owned("CapsLock"))
    } else if str_eq(raw, "Escape") {
        Some(owned("Esc"))
    } else if str_eq(raw, "UpArrow") {
        Some(owned("↑"))
    } else if str_eq(raw, "DownArrow") {
        Some(owned("↓"))
    } else if str_eq(raw, "LeftArrow") {
        Some(owned("←"))
    } else if str_eq(raw, "RightArrow") {
        Some(owned("→"))
    } else if str_eq(raw, "Home") {
        Some(owned("Home"))
    } else if str_eq(raw, "End") {
        Some(owned("End"))
    } else if str_eq(raw, "PageUp") {
        Some(owned("PageUp"))
    } else if str_eq(raw, "PageDown") {
        Some(owned("PageDown"))
    } else if str_eq(raw, "Insert") {
        Some(owned("Insert"))
    } else if str_eq(raw, "Delete") {
        Some(owned("Delete"))
    } else if str_eq(raw, "NumLock") {
        Some(owned("NumLock"))
    } else if str_eq(raw, "ScrollLock") {
        Some(owned("ScrollLock"))
    } else if str_eq(raw, "PrintScreen") {
        Some(owned("PrintScreen"))
    } else if str_eq(raw, "Pause") {
        Some(owned("Pause"))
    } else {
        None
    }
}

fn symbol_name_exec(raw: &str) -> (r: Option<String>)
    ensures
        r is Some <==> symbol_name(raw@) is Some,
        r is Some ==> r->0@ == symbol_name(raw@)->0,
{
    if str_eq(raw, "BackQuote") || str_eq(raw, "Grave") {
        Some(owned("`"))
    } else if str_eq(raw, "Minus") || str_eq(raw, "KpMinus") {
        Some(owned("-"))
    } else if str_eq(raw, "Equal") {
        Some(owned("="))
    } else if str_eq(raw, "LeftBracket") {
        Some(owned("["))
    } else if str_eq(raw, "RightBracket") {
        Some(owned("]"))
    } else if str_eq(raw, "SemiColon") {
        Some(owned(";"))
    } else if str_eq(raw, "BackSlash") {
        Some(owned("\\"))
    } else if str_eq(raw, "Quote") {
        Some(owned("'"))
    } else if str_eq(raw, "Comma") {
        Some(owned(","))
    } else if str_eq(raw, "Dot") || str_eq(raw, "NumpadDecimal") {
        Some(owned("."))
    } else if str_eq(raw, "Slash") || str_eq(raw, "KpDivide") {
        Some(owned("/"))
    } else if str_eq(raw, "Numpad0") {
        Some(owned("0"))
    } else if str_eq(raw, "Numpad1") {
        Some(owned("1"))
    } else if str_eq(raw, "Numpad2") {
        Some(owned("2"))
    } else if str_eq(raw, "Numpad3") {
        Some(owned("3"))
    } else if str_eq(raw, "Numpad4") {
        Some(owned("4"))
    } else if str_eq(raw, "Numpad5") || str_eq(raw, "Unknown(12)") {
        Some(owned("5"))
    } else if str_eq(raw, "Numpad6") {
        Some(owned("6"))
    } else if str_eq(raw, "Numpad7") {
        Some(owned("7"))
    } else if str_eq(raw, "Numpad8") {
        Some(owned("8"))
    } else if str_eq(raw, "Numpad9") {
        Some(owned("9"))
    } else if str_eq(raw, "KpPlus") {
        Some(owned("+"))
    } else if str_eq(raw, "KpMultiply") {
        Some(owned("*"))
    } else if str_eq(raw, "NumpadEnter") {
        Some(owned("Enter"))
    } else {
        None
    }
}

/// Maps a raw key identifier (the name the input source gives a key)
/// to its symbolic name. No identifier is rejected.
pub fn key_to_string(raw: &str) -> (r: String)
    ensures
        r@ == key_name(raw@),
{
    if let Some(name) = system_name_exec(raw) {
        return name;
    }
    let n = raw.unicode_len();
    if starts_with_str(raw, "Key") {
        proof {
            reveal_strlit("Key");
        }
        return owned(raw.substring_char(3, n));
    }
    if n == 4 && starts_with_str(raw, "Num") {
        proof {
            reveal_strlit("Num");
        }
        return owned(raw.substring_char(3, 4));
    }
    if let Some(name) = symbol_name_exec(raw) {
        return name;
    }
    owned(raw)
}

/// The fixed modifier set.
pub open spec fn is_modifier_name(k: Seq<char>) -> bool {
    k == "Ctrl"@ || k == "Shift"@ || k == "Alt"@ || k == "Win"@
}

/// Whether a symbolic key name is one of the modifiers.
pub fn is_modifier(k: &str) -> (r: bool)
    ensures
        r == is_modifier_name(k@),
{
    str_eq(k, "Ctrl") || str_eq(k, "Shift") || str_eq(k, "Alt") || str_eq(k, "Win")
}

/// The category of a key or chord name.
#[derive(Clone, Copy, Debug, PartialEq, Eq, Structural)]
pub enum KeyCategory {
    Letter,
    Digit,
    Symbol,
    Modifier,
    Function,
    Navigation,
    Editing,
    Other,
}

/// A name made of one ASCII character (one byte long).
pub open spec fn single_ascii(k: Seq<char>) -> bool {
    k.len() == 1 && (k[0] as u32) < 128
}

pub open spec fn ascii_letter(c: char) -> bool {
    ('a' <= c && c <= 'z') || ('A' <= c && c <= 'Z')
}

pub open spec fn ascii_digit(c: char) -> bool {
    '0' <= c && c <= '9'
}

/// `F` followed by one or more decimal digits.
pub open spec fn function_key_name(k: Seq<char>) -> bool {
    k.len() >= 2 && k[0] == 'F' && forall|i: int| 1 <= i < k.len() ==> ascii_digit(#[trigger] k[i])
}

pub open spec fn mentions_modifier(k: Seq<char>) -> bool {
    contains_seq(k, "Ctrl"@) || contains_seq(k, "Alt"@) || contains_seq(k, "Shift"@)
        || contains_seq(k, "Win"@)
}

pub open spec fn navigation_name(k: Seq<char>) -> bool {
    contains_seq(k, "Arrow"@) || k == "Home"@ || k == "End"@ || k == "PageUp"@ || k == "PageDown"@
        || k == "↑"@ || k == "↓"@ || k == "←"@ || k == "→"@
}

pub open spec fn editing_name(k: Seq<char>) -> bool {
    k == "Enter"@ || k == "Space"@ || k == "Tab"@ || k == "Backspace"@ || k == "Delete"@
}

/// Ordered classification rules: the first that matches decides.
pub open spec fn category_of(k: Seq<char>) -> KeyCategory {
    if single_ascii(k) && ascii_letter(k[0]) {
        KeyCategory::Letter
    } else if single_ascii(k) && ascii_digit(k[0]) {
        KeyCategory::Digit
    } else if single_ascii(k) {
        KeyCategory::Symbol
    } else if mentions_modifier(k) {
        KeyCategory::Modifier
    } else if function_key_name(k) {
        KeyCategory::Function
    } else if navigation_name(k) {
        KeyCategory::Navigation
    } else if editing_name(k) {
        KeyCategory::Editing
    } else {
        KeyCategory::Other
    }
}

fn is_function_key(k: &str) -> (r: bool)
    ensures
        r == function_key_name(k@),
{
    let n = k.unicode_len();
    if n < 2 || k.get_char(0) != 'F' {
        return false;
    }
    let mut i: usize = 1;
    while i < n
        invariant
            n == k@.len(),
            1 <= i <= n,
            forall|j: int| 1 <= j < i ==> ascii_digit(#[trigger] k@[j]),
        decreases n - i,
    {
        let c = k.get_char(i);
        if !('0' <= c && c <= '9') {
            return false;
        }
        i = i + 1;
    }
    true
}

/// Classifies a key or chord name.
pub fn categorize_key(k: &str) -> (r: KeyCategory)
    ensures
        r == category_of(k@),
{
    let n = k.unicode_len();
    if n == 1 {
        let c = k.get_char(0);
        if (c as u32) < 128 {
            if ('a' <= c && c <= 'z') || ('A' <= c && c <= 'Z') {
                return KeyCategory::Letter;
            } else if '0' <= c && c <= '9' {
                return KeyCategory::Digit;
            } else {
                return KeyCategory::Symbol;
            }
        }
    }
    if contains_str(k, "Ctrl") || contains_str(k, "Alt") || contains_str(k, "Shift")
        || contains_str(k, "Win") {
        KeyCategory::Modifier
    } else if is_function_key(k) {
        KeyCategory::Function
    } else if contains_str(k, "Arrow") || str_eq(k, "Home") || str_eq(k, "End") || str_eq(
        k,
        "PageUp",
    ) || str_eq(k, "PageDown") || str_eq(k, "↑") || str_eq(k, "↓") || str_eq(k, "←")
        || str_eq(k, "→") {
        KeyCategory::Navigation
    } else if str_eq(k, "Enter") || str_eq(k, "Space") || str_eq(k, "Tab") || str_eq(
        k,
        "Backspace",
    ) || str_eq(k, "Delete") {
        KeyCategory::Editing
    } else {
        KeyCategory::Other
    }
}

} // verus!
