//! What the main loop tells the sound engine, and which view a project's
//! module element opens in.

use vstd::prelude::*;
use crate::action::{Action, Level};
use crate::text::{decimal, joined, str_eq, u32_to_string};

verus! {

/// `name`, then each number after a colon, then a space: "PATCH_IN:3:0:1 ".
pub open spec fn message(name: Seq<char>, nums: Seq<nat>) -> Seq<char>
    decreases nums.len(),
{
    if nums.len() == 0 {
        name + " "@
    } else {
        message(name, nums.drop_last()).drop_last() + ":"@ + decimal(nums.last()) + " "@
    }
}

/// The message for the sound engine that an action handed back by layer
/// `target` calls for, if any; a note's velocity is written by `vel_text`.
pub open spec fn sound_for<H: Fn(Level) -> String>(a: Action, target: u16, vel_text: H, m: Option<String>) -> bool {
    match a {
        Action::Play => m matches Some(s) && s@ == message("PLAY"@, seq![target as nat]),
        Action::Stop => m matches Some(s) && s@ == message("STOP"@, seq![target as nat]),
        Action::NoteOn(key, vel) => m matches Some(s) && exists|v: String| #[trigger] vel_text.ensures((vel,), v)
            && s@ == message("NOTE_ON_AT"@, seq![target as nat, key as nat]).drop_last() + ":"@ + v@ + " "@,
        Action::NoteOff(key) => m matches Some(s) && s@ == message("NOTE_OFF_AT"@, seq![target as nat, key as nat]),
        Action::PatchOut(mid, aid, rid) => m matches Some(s) && s@ == message("PATCH_OUT"@, seq![mid as nat, aid as nat, rid as nat]),
        Action::PatchIn(mid, aid, rid) => m matches Some(s) && s@ == message("PATCH_IN"@, seq![mid as nat, aid as nat, rid as nat]),
        Action::DelPatch(mid, aid, _) => m matches Some(s) && s@ == message("DEL_PATCH"@, seq![mid as nat, aid as nat]),
        Action::DelRoute(rid) => m matches Some(s) && s@ == message("DEL_ROUTE"@, seq![rid as nat]),
        Action::AddRoute(rid) => m matches Some(s) && s@ == message("ADD_ROUTE"@, seq![rid as nat]),
        Action::OpenProject(title) => m matches Some(s) && s@ == "OPEN_PROJECT:"@ + title@ + " "@,
        _ => m is None,
    }
}

proof fn lemma_message_step(name: Seq<char>, nums: Seq<nat>, n: nat)
    ensures
        message(name, nums.push(n)) == message(name, nums).drop_last() + ":"@ + decimal(n) + " "@,
        message(name, nums).len() > 0,
        message(name, nums).last() == ' ',
    decreases nums.len(),
{
    reveal_strlit(" ");
    assert(nums.push(n).drop_last() =~= nums);
    if nums.len() > 0 {
        lemma_message_step(name, nums.drop_last(), nums.last());
    }
}

/// `s` without its last character, then a colon, the number and a space.
fn add_number(s: String, n: u32) -> (r: String)
    requires
        s@.len() > 0,
    ensures
        r@ == s@.drop_last() + ":"@ + decimal(n as nat) + " "@,
{
    let mut cs = crate::text::chars_of(s.as_str());
    cs.pop();
    let head = crate::text::string_of(&cs);
    let with_colon = joined(head.as_str(), ":");
    let with_num = joined(with_colon.as_str(), u32_to_string(n).as_str());
    joined(with_num.as_str(), " ")
}

/// The message for the sound engine; see `sound_for`.
pub fn sound_message<H: Fn(Level) -> String>(a: &Action, target: u16, vel_text: &H) -> (r: Option<String>)
    requires
        forall|v: Level| vel_text.requires((v,)),
    ensures
        sound_for(*a, target, *vel_text, r),
{
    let ghost e: Seq<nat> = Seq::empty();
    proof { reveal_strlit(" "); }
    match a {
        Action::Play => {
            proof { lemma_message_step("PLAY"@, e, target as nat); }
            Some(add_number(joined("PLAY", " "), target as u32))
        },
        Action::Stop => {
            proof { lemma_message_step("STOP"@, e, target as nat); }
            Some(add_number(joined("STOP", " "), target as u32))
        },
        Action::NoteOn(key, vel) => {
            proof {
                lemma_message_step("NOTE_ON_AT"@, e, target as nat);
                lemma_message_step("NOTE_ON_AT"@, seq![target as nat], *key as nat);
                assert(seq![target as nat] =~= e.push(target as nat));
                assert(seq![target as nat, *key as nat] =~= seq![target as nat].push(*key as nat));
            }
            let s = add_number(add_number(joined("NOTE_ON_AT", " "), target as u32), *key as u32);
            let v = vel_text(*vel);
            proof { lemma_message_step("NOTE_ON_AT"@, seq![target as nat], *key as nat); }
            let r = joined(joined(joined(add_number_head(s).as_str(), ":").as_str(), v.as_str()).as_str(), " ");
            assert((*vel_text).ensures((*vel,), v));
            Some(r)
        },
        Action::NoteOff(key) => {
            proof {
                lemma_message_step("NOTE_OFF_AT"@, e, target as nat);
                lemma_message_step("NOTE_OFF_AT"@, seq![target as nat], *key as nat);
                assert(seq![target as nat] =~= e.push(target as nat));
                assert(seq![target as nat, *key as nat] =~= seq![target as nat].push(*key as nat));
            }
            Some(add_number(add_number(joined("NOTE_OFF_AT", " "), target as u32), *key as u32))
        },
        Action::PatchOut(mid, aid, rid) => Some(three("PATCH_OUT", *mid, *aid, *rid)),
        Action::PatchIn(mid, aid, rid) => Some(three("PATCH_IN", *mid, *aid, *rid)),
        Action::DelPatch(mid, aid, _) => {
            proof {
                lemma_message_step("DEL_PATCH"@, e, *mid as nat);
                lemma_message_step("DEL_PATCH"@, seq![*mid as nat], *aid as nat);
                assert(seq![*mid as nat] =~= e.push(*mid as nat));
                assert(seq![*mid as nat, *aid as nat] =~= seq![*mid as nat].push(*aid as nat));
            }
            Some(add_number(add_number(joined("DEL_PATCH", " "), *mid as u32), *aid as u32))
        },
        Action::DelRoute(rid) => {
            proof { lemma_message_step("DEL_ROUTE"@, e, *rid as nat); }
            Some(add_number(joined("DEL_ROUTE", " "), *rid as u32))
        },
        Action::AddRoute(rid) => {
            proof { lemma_message_step("ADD_ROUTE"@, e, *rid as nat); }
            Some(add_number(joined("ADD_ROUTE", " "), *rid as u32))
        },
        Action::OpenProject(title) => Some(joined(joined("OPEN_PROJECT:", title.as_str()).as_str(), " ")),
        _ => None,
    }
}

/// `s` without its last character.
fn add_number_head(s: String) -> (r: String)
    requires
        s@.len() > 0,
    ensures
        r@ == s@.drop_last(),
{
    let mut cs = crate::text::chars_of(s.as_str());
    cs.pop();
    crate::text::string_of(&cs)
}

/// A message with three numbers.
fn three(name: &str, a: u16, b: u16, c: u16) -> (r: String)
    ensures
        r@ == message(name@, seq![a as nat, b as nat, c as nat]),
{
    let ghost e: Seq<nat> = Seq::empty();
    proof {
        reveal_strlit(" ");
        lemma_message_step(name@, e, a as nat);
        lemma_message_step(name@, seq![a as nat], b as nat);
        lemma_message_step(name@, seq![a as nat, b as nat], c as nat);
        assert(seq![a as nat] =~= e.push(a as nat));
        assert(seq![a as nat, b as nat] =~= seq![a as nat].push(b as nat));
        assert(seq![a as nat, b as nat, c as nat] =~= seq![a as nat, b as nat].push(c as nat));
    }
    add_number(add_number(add_number(joined(name, " "), a as u32), b as u32), c as u32)
}

/// The view a project's module element opens in.
#[derive(Clone, Copy, Debug, PartialEq, Eq, Structural)]
pub enum ModuleKind {
    Timeline,
    Organ,
    Keyboard,
    Patch,
    Unknown,
}

/// The view for a module element's name: the timeline, the organ for a
/// "hammond" module, the keyboard, or the patch bay.
pub open spec fn kind_of(name: Seq<char>) -> ModuleKind {
    if name == "timeline"@ { ModuleKind::Timeline }
    else if name == "hammond"@ { ModuleKind::Organ }
    else if name == "keyboard"@ { ModuleKind::Keyboard }
    else if name == "patch"@ { ModuleKind::Patch }
    else { ModuleKind::Unknown }
}

/// The view for a module element's name; see `kind_of`.
pub fn module_kind(name: &str) -> (r: ModuleKind)
    ensures
        r == kind_of(name@),
{
    if str_eq(name, "timeline") { ModuleKind::Timeline }
    else if str_eq(name, "hammond") { ModuleKind::Organ }
    else if str_eq(name, "keyboard") { ModuleKind::Keyboard }
    else if str_eq(name, "patch") { ModuleKind::Patch }
    else { ModuleKind::Unknown }
}

} // verus!
