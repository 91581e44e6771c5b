//! The browser settings dialog: the value it saves for the Chromium
//! override, the messages it shows, and the temporary file it writes
//! through.

use vstd::prelude::*;
use crate::text::{decimal, push_decimal, push_str, str_is_empty, string_from_chars, string_of, trim, trim_str};

verus! {

/// The override that the dialog saves for the entry text `raw`: the
/// trimmed text, or no override when it is empty.
pub open spec fn override_model(raw: Seq<char>) -> Option<Seq<char>> {
    if trim(raw).len() > 0 {
        Some(trim(raw))
    } else {
        None
    }
}

pub fn override_value(raw: &str) -> (r: Option<String>)
    ensures
        match r {
            Some(v) => override_model(raw@) == Some(v@),
            None => override_model(raw@) is None,
        },
{
    let t = trim_str(raw);
    if str_is_empty(t.as_str()) {
        None
    } else {
        Some(t)
    }
}

/// The warning for an override that is not a file, which is saved anyway.
pub fn not_a_file_message(path: &str) -> (r: String)
    ensures
        r@ == "Path is not a file: "@ + path@ + " (saved anyway — fix before next browser open)"@,
{
    let mut m: Vec<char> = Vec::new();
    push_str(&mut m, "Path is not a file: ");
    push_str(&mut m, path);
    push_str(&mut m, " (saved anyway — fix before next browser open)");
    string_from_chars(&m)
}

/// The status after saving: the confirmation, or the error.
pub fn save_status(outcome: Result<(), &str>) -> (r: String)
    ensures
        r@ == match outcome {
            Ok(()) => "Saved. Close any open browser pane to apply."@,
            Err(e) => "Failed to save: "@ + e@,
        },
{
    match outcome {
        Ok(()) => string_of("Saved. Close any open browser pane to apply."),
        Err(e) => {
            let mut m: Vec<char> = Vec::new();
            push_str(&mut m, "Failed to save: ");
            push_str(&mut m, e);
            string_from_chars(&m)
        },
    }
}

/// The name of the temporary file written beside the configuration file
/// before it is renamed over it: `.<name>.cmux-settings.<pid>.tmp`, with
/// `config` standing for a name that is missing or not UTF-8.
pub open spec fn temp_name_model(file_name: Option<Seq<char>>, pid: u32) -> Seq<char> {
    let n = match file_name {
        Some(f) => f,
        None => "config"@,
    };
    "."@ + n + ".cmux-settings."@ + decimal(pid as nat) + ".tmp"@
}

pub fn atomic_temp_name(file_name: Option<&str>, pid: u32) -> (r: String)
    ensures
        r@ == temp_name_model(
            match file_name {
                Some(f) => Some(f@),
                None => None,
            },
            pid,
        ),
{
    let mut m: Vec<char> = Vec::new();
    push_str(&mut m, ".");
    match file_name {
        Some(f) => push_str(&mut m, f),
        None => push_str(&mut m, "config"),
    }
    push_str(&mut m, ".cmux-settings.");
    push_decimal(&mut m, pid as u64);
    push_str(&mut m, ".tmp");
    string_from_chars(&m)
}

} // verus!
