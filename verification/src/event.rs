use vstd::prelude::*;
use crate::keymap::{is_typed_key, Keymap, XK_BACKSPACE, XK_ESCAPE, XK_LEFT, XK_RETURN, XK_RIGHT};

verus! {

/// What the user did, free of key codes.
#[derive(Clone, Copy, Debug, PartialEq, Eq, Structural)]
pub enum Event {
    Char(char),
    Backspace,
    Left,
    Right,
    Enter,
    Escape,
}

/// The event that a key press stands for, given the keysym of the key and
/// the character that the keyboard layout types for it, if any. The keys
/// that steer the strip are told first, so a character that the layout
/// gives for one of them is not typed. A key that neither steers nor types
/// stands for no event.
pub open spec fn event_of(keysym: u32, typed: Option<char>) -> Option<Event> {
    if keysym == XK_ESCAPE {
        Some(Event::Escape)
    } else if keysym == XK_RETURN {
        Some(Event::Enter)
    } else if keysym == XK_LEFT {
        Some(Event::Left)
    } else if keysym == XK_RIGHT {
        Some(Event::Right)
    } else if keysym == XK_BACKSPACE {
        Some(Event::Backspace)
    } else {
        match typed {
            Some(c) => Some(Event::Char(c)),
            None => None,
        }
    }
}

/// The event of a key press, given the keysym of the key and the character
/// that the keyboard layout types for it.
pub fn classify(keysym: u32, typed: Option<char>) -> (r: Option<Event>)
    ensures
        r == event_of(keysym, typed),
{
    if keysym == XK_ESCAPE {
        Some(Event::Escape)
    } else if keysym == XK_RETURN {
        Some(Event::Enter)
    } else if keysym == XK_LEFT {
        Some(Event::Left)
    } else if keysym == XK_RIGHT {
        Some(Event::Right)
    } else if keysym == XK_BACKSPACE {
        Some(Event::Backspace)
    } else {
        match typed {
            Some(c) => Some(Event::Char(c)),
            None => None,
        }
    }
}

/// The character that a keysym types: what `xkeysym::Keysym::key_char`
/// returns for the keysym with this raw value.
pub uninterp spec fn keysym_char(keysym: u32) -> Option<char>;

/// `xkeysym::Keysym::key_char` on the keysym that `xkeysym::Keysym::new`
/// makes of `keysym`. This is the `Keysym` that `xkbcommon` hands out
/// under `xkb::Keysym`. The result is a function of the keysym alone: a
/// few ranges that map to code points directly, then a lookup in a table
/// that the crate holds.
#[verifier::external_body]
fn key_char(keysym: u32) -> (r: Option<char>)
    ensures
        r == keysym_char(keysym),
{
    xkeysym::Keysym::new(keysym).key_char()
}

/// The event of a key press whose keysym the keyboard state gave, with the
/// character that the keysym types.
pub fn decode(keysym: u32) -> (r: Option<Event>)
    ensures
        r == event_of(keysym, keysym_char(keysym)),
{
    classify(keysym, key_char(keysym))
}

/// The character that a keysym of the core keyboard mapping types: its
/// own code point for the space bar, a digit or an ASCII letter.
pub open spec fn typed_char(keysym: u32) -> Option<char> {
    if is_typed_key(keysym) {
        Some(keysym as char)
    } else {
        None
    }
}

impl Keymap {
    /// The event of a key press whose keysym the mapping gave.
    pub fn event(&self, keysym: u32) -> (r: Option<Event>)
        ensures
            r == event_of(keysym, typed_char(keysym)),
    {
        let key = self.get_key(keysym);
        let typed = if key.unicode_len() == 1 {
            Some(key.get_char(0))
        } else {
            None
        };
        classify(keysym, typed)
    }
}

} // verus!
