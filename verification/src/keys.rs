//! Mapping of GDK key events onto Chrome DevTools Protocol key names,
//! codes and modifier masks.

use vstd::prelude::*;
use crate::text::{decimal, push_decimal, push_str, string_from_chars, string_of};

verus! {

/// GDK modifier bits (`GdkModifierType`).
pub open spec fn gdk_shift() -> u32 {
    1
}

pub open spec fn gdk_control() -> u32 {
    4
}

pub open spec fn gdk_alt() -> u32 {
    8
}

pub open spec fn gdk_meta() -> u32 {
    0x1000_0000
}

pub open spec fn has_modifier(mask: u32, bit: u32) -> bool {
    mask & bit != 0
}

/// The CDP modifier mask for a GDK modifier mask: Alt is 1, Ctrl is 2,
/// Meta is 4 and Shift is 8.
pub open spec fn cdp_mask(mask: u32) -> int {
    (if has_modifier(mask, gdk_alt()) { 1int } else { 0int }) + (if has_modifier(mask, gdk_control()) {
        2int
    } else {
        0int
    }) + (if has_modifier(mask, gdk_meta()) { 4int } else { 0int }) + (if has_modifier(
        mask,
        gdk_shift(),
    ) {
        8int
    } else {
        0int
    })
}

pub fn cdp_modifiers(mask: u32) -> (m: i32)
    ensures
        m == cdp_mask(mask),
{
    let mut m: i32 = 0;
    if mask & 8 != 0 {
        m = m + 1;
    }
    if mask & 4 != 0 {
        m = m + 2;
    }
    if mask & 0x1000_0000 != 0 {
        m = m + 4;
    }
    if mask & 1 != 0 {
        m = m + 8;
    }
    m
}

/// Whether Ctrl is held in a GDK modifier mask.
pub fn ctrl_held(mask: u32) -> (b: bool)
    ensures
        b == has_modifier(mask, gdk_control()),
{
    mask & 4 != 0
}

/// GDK keysyms of the keys that have CDP names of their own.
pub open spec fn named_key(k: u32) -> Option<(Seq<char>, Seq<char>)> {
    if k == 0xff0d || k == 0xff8d {
        Some(("Enter"@, "Enter"@))
    } else if k == 0xff09 {
        Some(("Tab"@, "Tab"@))
    } else if k == 0xff1b {
        Some(("Escape"@, "Escape"@))
    } else if k == 0xff08 {
        Some(("Backspace"@, "Backspace"@))
    } else if k == 0xffff {
        Some(("Delete"@, "Delete"@))
    } else if k == 0xff50 {
        Some(("Home"@, "Home"@))
    } else if k == 0xff57 {
        Some(("End"@, "End"@))
    } else if k == 0xff55 {
        Some(("PageUp"@, "PageUp"@))
    } else if k == 0xff56 {
        Some(("PageDown"@, "PageDown"@))
    } else if k == 0xff51 {
        Some(("ArrowLeft"@, "ArrowLeft"@))
    } else if k == 0xff53 {
        Some(("ArrowRight"@, "ArrowRight"@))
    } else if k == 0xff52 {
        Some(("ArrowUp"@, "ArrowUp"@))
    } else if k == 0xff54 {
        Some(("ArrowDown"@, "ArrowDown"@))
    } else if k == 0x20 {
        Some((" "@, "Space"@))
    } else if 0xffbe <= k <= 0xffc9 {
        let f = "F"@ + decimal((k - 0xffbd) as nat);
        Some((f, f))
    } else {
        None
    }
}

pub open spec fn is_ascii_alpha(c: char) -> bool {
    ('a' <= c && c <= 'z') || ('A' <= c && c <= 'Z')
}

pub open spec fn is_ascii_digit(c: char) -> bool {
    '0' <= c && c <= '9'
}

pub open spec fn ascii_upper(c: char) -> char {
    if 'a' <= c && c <= 'z' {
        ((c as u32) - 32) as char
    } else {
        c
    }
}

/// The CDP key and code of a key press: the named keys above; otherwise,
/// for a key that produces the character `ch`, the character as the key,
/// and `Key<upper-case letter>`, `Digit<digit>` or the character itself as
/// the code; for any other key, two empty strings.
pub open spec fn cdp_key(k: u32, unicode: Option<char>) -> (Seq<char>, Seq<char>) {
    match named_key(k) {
        Some(p) => p,
        None => match unicode {
            Some(ch) => {
                let s = seq![ch];
                let code = if is_ascii_alpha(ch) {
                    "Key"@.push(ascii_upper(ch))
                } else if is_ascii_digit(ch) {
                    "Digit"@.push(ch)
                } else {
                    s
                };
                (s, code)
            },
            None => (seq![], seq![]),
        },
    }
}

fn pair(a: &str, b: &str) -> (r: (String, String))
    ensures
        r.0@ == a@,
        r.1@ == b@,
{
    (string_of(a), string_of(b))
}

/// The CDP key and code for the GDK keysym `keyval`, given the character
/// that GDK maps the keysym to, if any.
pub fn keyval_to_cdp(keyval: u32, unicode: Option<char>) -> (r: (String, String))
    ensures
        (r.0@, r.1@) == cdp_key(keyval, unicode),
{
    if keyval == 0xff0d || keyval == 0xff8d {
        pair("Enter", "Enter")
    } else if keyval == 0xff09 {
        pair("Tab", "Tab")
    } else if keyval == 0xff1b {
        pair("Escape", "Escape")
    } else if keyval == 0xff08 {
        pair("Backspace", "Backspace")
    } else if keyval == 0xffff {
        pair("Delete", "Delete")
    } else if keyval == 0xff50 {
        pair("Home", "Home")
    } else if keyval == 0xff57 {
        pair("End", "End")
    } else if keyval == 0xff55 {
        pair("PageUp", "PageUp")
    } else if keyval == 0xff56 {
        pair("PageDown", "PageDown")
    } else if keyval == 0xff51 {
        pair("ArrowLeft", "ArrowLeft")
    } else if keyval == 0xff53 {
        pair("ArrowRight", "ArrowRight")
    } else if keyval == 0xff52 {
        pair("ArrowUp", "ArrowUp")
    } else if keyval == 0xff54 {
        pair("ArrowDown", "ArrowDown")
    } else if keyval == 0x20 {
        pair(" ", "Space")
    } else if 0xffbe <= keyval && keyval <= 0xffc9 {
        let mut f: Vec<char> = Vec::new();
        push_str(&mut f, "F");
        push_decimal(&mut f, (keyval - 0xffbd) as u64);
        let a = string_from_chars(&f);
        let b = string_from_chars(&f);
        (a, b)
    } else {
        match unicode {
            Some(ch) => {
                let mut s: Vec<char> = Vec::new();
                s.push(ch);
                let mut code: Vec<char> = Vec::new();
                if ('a' <= ch && ch <= 'z') || ('A' <= ch && ch <= 'Z') {
                    push_str(&mut code, "Key");
                    let up = if 'a' <= ch && ch <= 'z' {
                        ((ch as u32) - 32) as u8 as char
                    } else {
                        ch
                    };
                    code.push(up);
                } else if '0' <= ch && ch <= '9' {
                    push_str(&mut code, "Digit");
                    code.push(ch);
                } else {
                    code.push(ch);
                }
                assert(s@ =~= seq![ch]);
                (string_from_chars(&s), string_from_chars(&code))
            },
            None => {
                let e: Vec<char> = Vec::new();
                (string_from_chars(&e), string_from_chars(&e))
            },
        }
    }
}

/// The arrow-key directions in GDK keysym order, from `Left` (0xff51).
pub open spec fn arrow_direction(i: int) -> Seq<char> {
    seq!["Left"@, "Up"@, "Right"@, "Down"@][i]
}

/// The GDK key table: each named keysym has its own CDP key and code,
/// whatever character GDK reports with it. Return and keypad Enter are
/// `Enter`; Tab, Escape, BackSpace, Delete, Home, End, Page_Up and
/// Page_Down have their CDP names; the four arrow keys 0xff51..0xff54
/// (Left, Up, Right, Down) are `Arrow` and their direction; space is the
/// key `" "` with code `Space`; F1..F12 (0xffbe..0xffc9) are `F` and their
/// number.
pub proof fn lemma_key_table(u: Option<char>)
    ensures
        cdp_key(0xff0d, u) == ("Enter"@, "Enter"@),
        cdp_key(0xff8d, u) == ("Enter"@, "Enter"@),
        cdp_key(0xff09, u) == ("Tab"@, "Tab"@),
        cdp_key(0xff1b, u) == ("Escape"@, "Escape"@),
        cdp_key(0xff08, u) == ("Backspace"@, "Backspace"@),
        cdp_key(0xffff, u) == ("Delete"@, "Delete"@),
        cdp_key(0xff50, u) == ("Home"@, "Home"@),
        cdp_key(0xff57, u) == ("End"@, "End"@),
        cdp_key(0xff55, u) == ("PageUp"@, "PageUp"@),
        cdp_key(0xff56, u) == ("PageDown"@, "PageDown"@),
        forall|k: u32|
            0xff51 <= k <= 0xff54 ==> #[trigger] cdp_key(k, u) == (
                "Arrow"@ + arrow_direction(k - 0xff51),
                "Arrow"@ + arrow_direction(k - 0xff51),
            ),
        cdp_key(0x20, u) == (" "@, "Space"@),
        forall|n: int|
            1 <= n <= 12 ==> #[trigger] cdp_key((0xffbd + n) as u32, u) == (
                "F"@ + decimal(n as nat),
                "F"@ + decimal(n as nat),
            ),
{
    reveal_strlit("Arrow");
    reveal_strlit("Left");
    reveal_strlit("Up");
    reveal_strlit("Right");
    reveal_strlit("Down");
    reveal_strlit("ArrowLeft");
    reveal_strlit("ArrowUp");
    reveal_strlit("ArrowRight");
    reveal_strlit("ArrowDown");
    assert("Arrow"@ + "Left"@ =~= "ArrowLeft"@);
    assert("Arrow"@ + "Up"@ =~= "ArrowUp"@);
    assert("Arrow"@ + "Right"@ =~= "ArrowRight"@);
    assert("Arrow"@ + "Down"@ =~= "ArrowDown"@);
    assert forall|k: u32|
        0xff51 <= k <= 0xff54 implies #[trigger] cdp_key(k, u) == (
            "Arrow"@ + arrow_direction(k - 0xff51),
            "Arrow"@ + arrow_direction(k - 0xff51),
        ) by {
        if k == 0xff51 {
        } else if k == 0xff52 {
        } else if k == 0xff53 {
        } else {
        }
    }
}

} // verus!
