//! Held notes: the list of note-on actions a view keeps while keys are down.

use vstd::prelude::*;
use crate::action::Action;

verus! {

/// The note-on actions of `keys` whose key is not `k`.
pub open spec fn others(keys: Seq<Action>, k: u16) -> Seq<Action> {
    keys.filter(|a: Action| a matches Action::NoteOn(k2, _) && k2 != k)
}

/// The note-on actions of `keys` whose key is `k`.
pub open spec fn same(keys: Seq<Action>, k: u16) -> Seq<Action> {
    keys.filter(|a: Action| a matches Action::NoteOn(k2, _) && k2 == k)
}

/// The held notes after an action: a note-on is added at the end, a
/// note-off lets go of every note with its key.
pub open spec fn keys_after(keys: Seq<Action>, a: Action) -> Seq<Action> {
    match a {
        Action::NoteOn(k, v) => keys.push(Action::NoteOn(k, v)),
        Action::NoteOff(k) => others(keys, k),
        _ => keys,
    }
}

proof fn lemma_filter_push<A>(s: Seq<A>, x: A, p: spec_fn(A) -> bool)
    ensures
        s.push(x).filter(p) == if p(x) { s.filter(p).push(x) } else { s.filter(p) },
{
    reveal(Seq::filter);
    assert(s.push(x).drop_last() =~= s);
}

/// Keeps the note-on actions whose key is (`equal`) or is not (`!equal`) `k`, in order.
pub fn keep_notes(keys: &Vec<Action>, k: u16, equal: bool) -> (r: Vec<Action>)
    ensures
        r@ == if equal { same(keys@, k) } else { others(keys@, k) },
{
    let mut r: Vec<Action> = Vec::new();
    let ghost po = |a: Action| a matches Action::NoteOn(k2, _) && k2 != k;
    let ghost ps = |a: Action| a matches Action::NoteOn(k2, _) && k2 == k;
    for i in 0..keys.len()
        invariant
            po == (|a: Action| a matches Action::NoteOn(k2, _) && k2 != k),
            ps == (|a: Action| a matches Action::NoteOn(k2, _) && k2 == k),
            r@ == if equal { keys@.take(i as int).filter(ps) } else { keys@.take(i as int).filter(po) },
    {
        assert(keys@.take(i + 1) =~= keys@.take(i as int).push(keys@[i as int]));
        proof {
            lemma_filter_push(keys@.take(i as int), keys@[i as int], po);
            lemma_filter_push(keys@.take(i as int), keys@[i as int], ps);
        }
        match &keys[i] {
            Action::NoteOn(k2, v) => {
                if (*k2 == k) == equal {
                    r.push(Action::NoteOn(*k2, *v));
                }
            },
            _ => {},
        }
    }
    assert(keys@.take(keys@.len() as int) =~= keys@);
    r
}

/// The held notes after an action; see `keys_after`.
pub fn press(keys: Vec<Action>, action: &Action) -> (r: Vec<Action>)
    ensures
        r@ == keys_after(keys@, *action),
{
    match action {
        Action::NoteOn(k, v) => {
            let mut keys = keys;
            keys.push(Action::NoteOn(*k, *v));
            keys
        },
        Action::NoteOff(k) => keep_notes(&keys, *k, false),
        _ => keys,
    }
}

/// Releasing a key lets go of what pressing it held: a note-on followed by
/// the note-off of the same key leaves the notes of the other keys, as a
/// note-off alone would.
pub proof fn law_press_release(keys: Seq<Action>, k: u16, v: crate::action::Level)
    ensures
        keys_after(keys_after(keys, Action::NoteOn(k, v)), Action::NoteOff(k)) == keys_after(keys, Action::NoteOff(k)),
        forall|i: int| 0 <= i < keys_after(keys, Action::NoteOff(k)).len() ==>
            ((#[trigger] keys_after(keys, Action::NoteOff(k))[i]) matches Action::NoteOn(k2, _) && k2 != k),
{
    let p = |a: Action| a matches Action::NoteOn(k2, _) && k2 != k;
    lemma_filter_push(keys, Action::NoteOn(k, v), p);
    assert forall|i: int| 0 <= i < keys.filter(p).len() implies p(#[trigger] keys.filter(p)[i]) by {
        keys.lemma_filter_pred(p, i);
    }
}

} // verus!
