//! The title-entry popup: spell a project's name one character at a time.

use vstd::prelude::*;
use crate::action::Action;
use crate::text::{chars_of, push_char, string_of};

verus! {

/// First and last capital letter, digit and small letter.
pub const CAPS_MIN: u8 = 65;
pub const CAPS_MAX: u8 = 90;
pub const NUM_MIN: u8 = 48;
pub const NUM_MAX: u8 = 57;
pub const LOWER_MIN: u8 = 97;
pub const LOWER_MAX: u8 = 122;

/// The popup's state: the title spelled so far and the character offered next.
#[derive(Debug)]
pub struct SaveState {
    pub title_str: String,
    pub last_char: u8,
}

/// The character offered after an action: Up and Down cycle through the
/// capital letters, the digits or the small letters; yellow, pink and green
/// jump to the first capital, small letter or digit.
pub open spec fn char_after(c: u8, a: Action) -> int {
    match a {
        Action::Up => if c == CAPS_MAX { CAPS_MIN as int } else if c == NUM_MAX { NUM_MIN as int }
            else if c == LOWER_MAX { LOWER_MIN as int } else { c + 1 },
        Action::Down => if c == CAPS_MIN { CAPS_MAX as int } else if c == NUM_MIN { NUM_MAX as int }
            else if c == LOWER_MIN { LOWER_MAX as int } else { c - 1 },
        Action::SelectY => CAPS_MIN as int,
        Action::SelectP => LOWER_MIN as int,
        Action::SelectG => NUM_MIN as int,
        _ => c as int,
    }
}

/// The title after an action: Right appends the offered character, Left
/// takes off the last one.
pub open spec fn title_after(t: Seq<char>, c: u8, a: Action) -> Seq<char> {
    match a {
        Action::Right => t.push(c as char),
        Action::Left => if t.len() > 0 { t.drop_last() } else { t },
        _ => t,
    }
}

/// The action can be applied: the offered character stays a byte, and
/// taking off the last character takes off one byte.
pub open spec fn save_defined(s: SaveState, a: Action) -> bool {
    &&& 0 <= char_after(s.last_char, a) <= u8::MAX
    &&& (a is Left && s.title_str@.len() > 0 ==> (s.title_str@.last() as u32) < 0x80)
}

/// Applies an action to the popup's state.
pub fn reduce(state: SaveState, action: &Action) -> (r: SaveState)
    requires
        save_defined(state, *action),
    ensures
        r.title_str@ == title_after(state.title_str@, state.last_char, *action),
        r.last_char == char_after(state.last_char, *action),
{
    let title_str = match action {
        Action::Right => {
            let mut t = state.title_str;
            push_char(&mut t, state.last_char as char);
            t
        },
        Action::Left => {
            let cs = chars_of(state.title_str.as_str());
            if cs.len() > 0 {
                let mut cs = cs;
                cs.pop();
                string_of(&cs)
            } else {
                state.title_str
            }
        },
        _ => state.title_str,
    };
    let c = state.last_char;
    let last_char = match action {
        Action::Up => if c == CAPS_MAX { CAPS_MIN } else if c == NUM_MAX { NUM_MIN }
            else if c == LOWER_MAX { LOWER_MIN } else { c + 1 },
        Action::Down => if c == CAPS_MIN { CAPS_MAX } else if c == NUM_MIN { NUM_MAX }
            else if c == LOWER_MIN { LOWER_MAX } else { c - 1 },
        Action::SelectY => CAPS_MIN,
        Action::SelectP => LOWER_MIN,
        Action::SelectG => NUM_MIN,
        _ => c,
    };
    SaveState { title_str, last_char }
}

/// The title-entry popup.
#[derive(Debug)]
pub struct Save {
    pub x: u16,
    pub y: u16,
    pub width: u16,
    pub height: u16,
    pub state: SaveState,
}

impl Save {
    /// The popup, starting from a title whose last character (a single
    /// byte) is the one offered.
    pub fn new(x: u16, y: u16, width: u16, height: u16, initial: String) -> (r: Self)
        requires
            initial@.len() > 0,
            (initial@.last() as u32) < 0x80,
        ensures
            r.x == x && r.y == y && r.width == width && r.height == height,
            r.state.title_str@ == initial@.drop_last(),
            r.state.last_char == initial@.last() as u32,
    {
        let mut cs = chars_of(initial.as_str());
        let last = cs.pop().unwrap();
        let code: u32 = last as u32;
        let last_char: u8 = code as u8;
        Save { x, y, width, height, state: SaveState { title_str: string_of(&cs), last_char } }
    }

    /// Edits the title; blue saves under the title and the offered
    /// character, Back cancels.
    pub fn dispatch(&mut self, action: Action) -> (r: Action)
        requires
            save_defined(old(self).state, action),
        ensures
            final(self).state.title_str@ == title_after(old(self).state.title_str@, old(self).state.last_char, action),
            final(self).state.last_char == char_after(old(self).state.last_char, action),
            action is Back ==> r is Cancel,
            action is SelectB ==> (r matches Action::SaveAs(t)
                && t@ == final(self).state.title_str@.push(final(self).state.last_char as char)),
            !(action is Back || action is SelectB) ==> r is Noop,
            final(self).x == old(self).x && final(self).y == old(self).y,
            final(self).width == old(self).width && final(self).height == old(self).height,
    {
        let mut state = SaveState { title_str: String::new(), last_char: 0 };
        std::mem::swap(&mut state, &mut self.state);
        self.state = reduce(state, &action);
        match action {
            Action::Back => Action::Cancel,
            Action::SelectB => {
                let mut t = self.state.title_str.clone();
                push_char(&mut t, self.state.last_char as char);
                Action::SaveAs(t)
            },
            _ => Action::Noop,
        }
    }

    /// Whether `dispatch` can take this action: the offered character
    /// stays a byte, and taking off the last character takes off one byte.
    pub fn can_dispatch(&self, action: &Action) -> (r: bool)
        ensures
            r == save_defined(self.state, *action),
    {
        let c = self.state.last_char;
        let char_ok = match action {
            Action::Up => c == CAPS_MAX || c == NUM_MAX || c == LOWER_MAX || c < 255,
            Action::Down => c == CAPS_MIN || c == NUM_MIN || c == LOWER_MIN || c > 0,
            _ => true,
        };
        let left_ok = match action {
            Action::Left => {
                let cs = chars_of(self.state.title_str.as_str());
                cs.len() == 0 || (cs[cs.len() - 1] as u32) < 0x80
            },
            _ => true,
        };
        char_ok && left_ok
    }

    /// The popup lets what is under it show.
    pub fn alpha(&self) -> (r: bool)
        ensures
            r,
    {
        true
    }
}

/// Within the capital letters, the digits or the small letters, Down undoes
/// Up and Up undoes Down.
pub proof fn law_save_cycle_inverse(c: u8)
    requires
        CAPS_MIN <= c <= CAPS_MAX || NUM_MIN <= c <= NUM_MAX || LOWER_MIN <= c <= LOWER_MAX,
    ensures
        char_after(char_after(c, Action::Up) as u8, Action::Down) == c,
        char_after(char_after(c, Action::Down) as u8, Action::Up) == c,
{
}

/// Left takes off what Right appended.
pub proof fn law_save_append_remove(t: Seq<char>, c: u8)
    ensures
        title_after(title_after(t, c, Action::Right), c, Action::Left) == t,
{
    assert(t.push(c as char).drop_last() =~= t);
}

/// Saving right after the popup is built, from a title whose last
/// character is a single byte, saves under that title and leaves the
/// popup's state as it was.
pub proof fn law_save_right_after_new(initial: Seq<char>, s: SaveState)
    requires
        initial.len() > 0,
        (initial.last() as u32) < 0x80,
        s.title_str@ == initial.drop_last(),
        s.last_char == initial.last() as u32,
    ensures
        save_defined(s, Action::SelectB),
        title_after(s.title_str@, s.last_char, Action::SelectB) == s.title_str@,
        char_after(s.last_char, Action::SelectB) == s.last_char,
        title_after(s.title_str@, s.last_char, Action::SelectB).push(
            char_after(s.last_char, Action::SelectB) as u8 as char) == initial,
{
    let c = initial.last();
    let u: u32 = c as u32;
    vstd::utf8::char_u32_cast(c, u);
    assert(s.last_char as int == u as int);
    assert((s.last_char as char) == (u as char));
    assert(initial.drop_last().push(c) =~= initial);
}

} // verus!
