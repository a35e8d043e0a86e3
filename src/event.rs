//! A key event as the capture side reports it.
use vstd::prelude::*;

verus! {

/// A key event with its time in milliseconds and whether it is a modifier.
#[derive(Clone, Debug)]
pub struct KeyEvent {
    pub key_code: String,
    pub timestamp: i64,
    pub app_name: String,
    pub is_modifier: bool,
}

impl KeyEvent {
    pub fn new(key_code: String, timestamp: i64, app_name: String, is_modifier: bool) -> (r: Self)
        ensures
            r.key_code == key_code,
            r.timestamp == timestamp,
            r.app_name == app_name,
            r.is_modifier == is_modifier,
    {
        KeyEvent { key_code, timestamp, app_name, is_modifier }
    }
}

} // verus!
