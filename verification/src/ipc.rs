//! The controller's messages: space-separated words, each a key name with
//! colon-separated arguments, read into actions.

use vstd::prelude::*;
use crate::action::{Action, Level};
use crate::text::{chars_of, parse_u16, spec_u16, str_eq, string_of};

verus! {

/// `s` cut at every `sep` (as `str::split` does: `n` separators give `n + 1`
/// pieces, some possibly empty).
pub open spec fn split(s: Seq<char>, sep: char) -> Seq<Seq<char>>
    decreases s.len(),
{
    if s.len() == 0 {
        seq![Seq::empty()]
    } else {
        let prev = split(s.drop_last(), sep);
        if s.last() == sep {
            prev.push(Seq::empty())
        } else {
            prev.update(prev.len() - 1, prev.last().push(s.last()))
        }
    }
}

/// The action of a key name that takes no arguments (`None` for an
/// unknown name, which is dropped).
pub open spec fn key_action(name: Seq<char>) -> Option<Action> {
    if name == "ROUTE"@ { Some(Action::Route) }
    else if name == "TICK"@ { Some(Action::Tick) }
    else if name == "1"@ { Some(Action::Help) }
    else if name == "2"@ { Some(Action::Back) }
    else if name == "PLAY"@ { Some(Action::Play) }
    else if name == "STOP"@ { Some(Action::Stop) }
    else if name == "M"@ { Some(Action::SelectG) }
    else if name == "R"@ { Some(Action::SelectY) }
    else if name == "V"@ { Some(Action::SelectP) }
    else if name == "I"@ { Some(Action::SelectB) }
    else if name == "SPC"@ { Some(Action::SelectR) }
    else if name == "UP"@ { Some(Action::Up) }
    else if name == "DN"@ { Some(Action::Down) }
    else if name == "LT"@ { Some(Action::Left) }
    else if name == "RT"@ { Some(Action::Right) }
    else if name == "EXIT"@ { Some(Action::Exit) }
    else if name == "DESELECT"@ { Some(Action::Deselect) }
    else { None }
}

/// The controller's name for an action that a key word gives.
spec fn key_name(a: Action) -> Seq<char> {
    match a {
        Action::Route => "ROUTE"@,
        Action::Tick => "TICK"@,
        Action::Help => "1"@,
        Action::Back => "2"@,
        Action::Play => "PLAY"@,
        Action::Stop => "STOP"@,
        Action::SelectG => "M"@,
        Action::SelectY => "R"@,
        Action::SelectP => "V"@,
        Action::SelectB => "I"@,
        Action::SelectR => "SPC"@,
        Action::Up => "UP"@,
        Action::Down => "DN"@,
        Action::Left => "LT"@,
        Action::Right => "RT"@,
        Action::Exit => "EXIT"@,
        Action::Deselect => "DESELECT"@,
        _ => Seq::empty(),
    }
}

proof fn lemma_key_name(name: Seq<char>)
    ensures
        key_action(name) matches Some(a) ==> name == key_name(a),
{
}

/// Different key words give different actions: no two names of the
/// controller stand for the same key.
pub proof fn law_key_names_distinct(n1: Seq<char>, n2: Seq<char>)
    ensures
        key_action(n1) is Some && key_action(n1) == key_action(n2) ==> n1 == n2,
{
    lemma_key_name(n1);
    lemma_key_name(n2);
}

/// The arrow keys: UP and DN read as the opposite vertical arrows Up and
/// Down, LT and RT as the opposite horizontal arrows Left and Right.
pub proof fn law_arrow_keys()
    ensures
        key_action("UP"@) == Some(Action::Up),
        key_action("DN"@) == Some(Action::Down),
        key_action("LT"@) == Some(Action::Left),
        key_action("RT"@) == Some(Action::Right),
{
    reveal_strlit("ROUTE");
    reveal_strlit("TICK");
    reveal_strlit("1");
    reveal_strlit("2");
    reveal_strlit("PLAY");
    reveal_strlit("STOP");
    reveal_strlit("M");
    reveal_strlit("R");
    reveal_strlit("V");
    reveal_strlit("I");
    reveal_strlit("SPC");
    reveal_strlit("UP");
    reveal_strlit("DN");
    reveal_strlit("LT");
    reveal_strlit("RT");
    assert("UP"@ != "ROUTE"@) by { assert("UP"@.len() != "ROUTE"@.len()); }
    assert("UP"@ != "TICK"@) by { assert("UP"@.len() != "TICK"@.len()); }
    assert("UP"@ != "1"@) by { assert("UP"@.len() != "1"@.len()); }
    assert("UP"@ != "2"@) by { assert("UP"@.len() != "2"@.len()); }
    assert("UP"@ != "PLAY"@) by { assert("UP"@.len() != "PLAY"@.len()); }
    assert("UP"@ != "STOP"@) by { assert("UP"@.len() != "STOP"@.len()); }
    assert("UP"@ != "M"@) by { assert("UP"@.len() != "M"@.len()); }
    assert("UP"@ != "R"@) by { assert("UP"@.len() != "R"@.len()); }
    assert("UP"@ != "V"@) by { assert("UP"@.len() != "V"@.len()); }
    assert("UP"@ != "I"@) by { assert("UP"@.len() != "I"@.len()); }
    assert("UP"@ != "SPC"@) by { assert("UP"@.len() != "SPC"@.len()); }
    assert("DN"@ != "ROUTE"@) by { assert("DN"@.len() != "ROUTE"@.len()); }
    assert("DN"@ != "TICK"@) by { assert("DN"@.len() != "TICK"@.len()); }
    assert("DN"@ != "1"@) by { assert("DN"@.len() != "1"@.len()); }
    assert("DN"@ != "2"@) by { assert("DN"@.len() != "2"@.len()); }
    assert("DN"@ != "PLAY"@) by { assert("DN"@.len() != "PLAY"@.len()); }
    assert("DN"@ != "STOP"@) by { assert("DN"@.len() != "STOP"@.len()); }
    assert("DN"@ != "M"@) by { assert("DN"@.len() != "M"@.len()); }
    assert("DN"@ != "R"@) by { assert("DN"@.len() != "R"@.len()); }
    assert("DN"@ != "V"@) by { assert("DN"@.len() != "V"@.len()); }
    assert("DN"@ != "I"@) by { assert("DN"@.len() != "I"@.len()); }
    assert("DN"@ != "SPC"@) by { assert("DN"@.len() != "SPC"@.len()); }
    assert("DN"@ != "UP"@) by { assert("DN"@[0] != "UP"@[0]); }
    assert("LT"@ != "ROUTE"@) by { assert("LT"@.len() != "ROUTE"@.len()); }
    assert("LT"@ != "TICK"@) by { assert("LT"@.len() != "TICK"@.len()); }
    assert("LT"@ != "1"@) by { assert("LT"@.len() != "1"@.len()); }
    assert("LT"@ != "2"@) by { assert("LT"@.len() != "2"@.len()); }
    assert("LT"@ != "PLAY"@) by { assert("LT"@.len() != "PLAY"@.len()); }
    assert("LT"@ != "STOP"@) by { assert("LT"@.len() != "STOP"@.len()); }
    assert("LT"@ != "M"@) by { assert("LT"@.len() != "M"@.len()); }
    assert("LT"@ != "R"@) by { assert("LT"@.len() != "R"@.len()); }
    assert("LT"@ != "V"@) by { assert("LT"@.len() != "V"@.len()); }
    assert("LT"@ != "I"@) by { assert("LT"@.len() != "I"@.len()); }
    assert("LT"@ != "SPC"@) by { assert("LT"@.len() != "SPC"@.len()); }
    assert("LT"@ != "UP"@) by { assert("LT"@[0] != "UP"@[0]); }
    assert("LT"@ != "DN"@) by { assert("LT"@[0] != "DN"@[0]); }
    assert("RT"@ != "ROUTE"@) by { assert("RT"@.len() != "ROUTE"@.len()); }
    assert("RT"@ != "TICK"@) by { assert("RT"@.len() != "TICK"@.len()); }
    assert("RT"@ != "1"@) by { assert("RT"@.len() != "1"@.len()); }
    assert("RT"@ != "2"@) by { assert("RT"@.len() != "2"@.len()); }
    assert("RT"@ != "PLAY"@) by { assert("RT"@.len() != "PLAY"@.len()); }
    assert("RT"@ != "STOP"@) by { assert("RT"@.len() != "STOP"@.len()); }
    assert("RT"@ != "M"@) by { assert("RT"@.len() != "M"@.len()); }
    assert("RT"@ != "R"@) by { assert("RT"@.len() != "R"@.len()); }
    assert("RT"@ != "V"@) by { assert("RT"@.len() != "V"@.len()); }
    assert("RT"@ != "I"@) by { assert("RT"@.len() != "I"@.len()); }
    assert("RT"@ != "SPC"@) by { assert("RT"@.len() != "SPC"@.len()); }
    assert("RT"@ != "UP"@) by { assert("RT"@[0] != "UP"@[0]); }
    assert("RT"@ != "DN"@) by { assert("RT"@[0] != "DN"@[0]); }
    assert("RT"@ != "LT"@) by { assert("RT"@[0] != "LT"@[0]); }
}

/// A word is well formed: a note-on has a key that reads as a `u16` and a
/// velocity, a note-off a key that reads as a `u16`.
pub open spec fn word_ok(w: Seq<Seq<char>>) -> bool {
    if w[0] == "NOTE_ON"@ {
        w.len() >= 3 && spec_u16(w[1]) is Some
    } else if w[0] == "NOTE_OFF"@ {
        w.len() >= 2 && spec_u16(w[1]) is Some
    } else {
        true
    }
}

/// The action a well-formed word gives, if any: for a note-on, with the
/// velocity `level` made of the third field.
pub open spec fn word_action<G: Fn(&String) -> Option<Level>>(w: Seq<Seq<char>>, level: G, a: Action) -> bool {
    if w[0] == "NOTE_ON"@ {
        a matches Action::NoteOn(k, v) && k == spec_u16(w[1]).unwrap() && velocity_read(w[2], level, v)
    } else if w[0] == "NOTE_OFF"@ {
        a == Action::NoteOff(spec_u16(w[1]).unwrap())
    } else {
        key_action(w[0]) == Some(a)
    }
}

/// `v` is what `level` made of a text that reads `text`.
pub open spec fn velocity_read<G: Fn(&String) -> Option<Level>>(text: Seq<char>, level: G, v: Level) -> bool {
    exists|t: String| t@ == text && #[trigger] level.ensures((&t,), Some(v))
}

/// Whether a well-formed word gives an action.
pub open spec fn word_acts(w: Seq<Seq<char>>) -> bool {
    w[0] == "NOTE_ON"@ || w[0] == "NOTE_OFF"@ || key_action(w[0]) is Some
}

/// The words of a message, each cut into its fields.
pub open spec fn words(buf: Seq<char>) -> Seq<Seq<Seq<char>>> {
    split(buf, ' ').map_values(|t: Seq<char>| split(t, ':'))
}

/// The words that give actions, in order.
pub open spec fn acting(ws: Seq<Seq<Seq<char>>>) -> Seq<Seq<Seq<char>>> {
    ws.filter(|w: Seq<Seq<char>>| word_acts(w))
}

/// `cs` cut at every `sep`; see `split`.
pub fn split_chars(cs: &Vec<char>, sep: char) -> (r: Vec<Vec<char>>)
    ensures
        r@.map_values(|v: Vec<char>| v@) == split(cs@, sep),
        r@.len() >= 1,
{
    let mut pieces: Vec<Vec<char>> = Vec::new();
    let mut cur: Vec<char> = Vec::new();
    for i in 0..cs.len()
        invariant
            pieces@.map_values(|v: Vec<char>| v@).push(cur@) == split(cs@.take(i as int), sep),
    {
        let ghost pv = pieces@.map_values(|v: Vec<char>| v@);
        assert(cs@.take(i + 1).drop_last() =~= cs@.take(i as int));
        assert(cs@.take(i + 1).last() == cs@[i as int]);
        if cs[i] == sep {
            let done = cur;
            cur = Vec::new();
            pieces.push(done);
            assert(pieces@.map_values(|v: Vec<char>| v@) =~= pv.push(done@));
        } else {
            let ghost old_cur = cur@;
            cur.push(cs[i]);
            assert(pv.push(cur@) =~= pv.push(old_cur).update(pv.len() as int, old_cur.push(cs@[i as int])));
        }
    }
    assert(cs@.take(cs@.len() as int) =~= cs@);
    let ghost pv = pieces@.map_values(|v: Vec<char>| v@);
    let last = cur;
    pieces.push(last);
    assert(pieces@.map_values(|v: Vec<char>| v@) =~= pv.push(last@));
    pieces
}

/// The action of a key name that takes no arguments; see `key_action`.
pub fn key_of(name: &str) -> (r: Option<Action>)
    ensures
        r == key_action(name@),
{
    if str_eq(name, "ROUTE") { Some(Action::Route) }
    else if str_eq(name, "TICK") { Some(Action::Tick) }
    else if str_eq(name, "1") { Some(Action::Help) }
    else if str_eq(name, "2") { Some(Action::Back) }
    else if str_eq(name, "PLAY") { Some(Action::Play) }
    else if str_eq(name, "STOP") { Some(Action::Stop) }
    else if str_eq(name, "M") { Some(Action::SelectG) }
    else if str_eq(name, "R") { Some(Action::SelectY) }
    else if str_eq(name, "V") { Some(Action::SelectP) }
    else if str_eq(name, "I") { Some(Action::SelectB) }
    else if str_eq(name, "SPC") { Some(Action::SelectR) }
    else if str_eq(name, "UP") { Some(Action::Up) }
    else if str_eq(name, "DN") { Some(Action::Down) }
    else if str_eq(name, "LT") { Some(Action::Left) }
    else if str_eq(name, "RT") { Some(Action::Right) }
    else if str_eq(name, "EXIT") { Some(Action::Exit) }
    else if str_eq(name, "DESELECT") { Some(Action::Deselect) }
    else { None }
}

proof fn lemma_filter_push<A>(s: Seq<A>, x: A, p: spec_fn(A) -> bool)
    ensures
        s.push(x).filter(p) == if p(x) { s.filter(p).push(x) } else { s.filter(p) },
{
    reveal(Seq::filter);
    assert(s.push(x).drop_last() =~= s);
}

/// Reads a message from the controller into actions, dropping unknown
/// words; `level` reads a note's velocity. A note-on or note-off word
/// without a key that reads as a `u16` (or a note-on without a velocity)
/// gives `None`; so does a velocity `level` cannot read.
pub fn ipc_action<G: Fn(&String) -> Option<Level>>(buf: &str, level: &G) -> (r: Option<Vec<Action>>)
    requires
        forall|t: &String| level.requires((t,)),
    ensures
        (exists|i: int| 0 <= i < words(buf@).len() && !word_ok(#[trigger] words(buf@)[i])) ==> r is None,
        (forall|i: int| 0 <= i < words(buf@).len() ==> word_ok(#[trigger] words(buf@)[i]))
            && (forall|t: &String, v: Option<Level>| level.ensures((t,), v) ==> v is Some) ==> r is Some,
        r matches Some(v) ==> v@.len() == acting(words(buf@)).len()
            && forall|j: int| 0 <= j < v@.len() ==> word_action(acting(words(buf@))[j], *level, #[trigger] v@[j]),
{
    let cs = chars_of(buf);
    let toks = split_chars(&cs, ' ');
    let ghost ws = words(buf@);
    assert(ws =~= toks@.map_values(|v: Vec<char>| v@).map_values(|t: Seq<char>| split(t, ':')));
    let ghost p = |w: Seq<Seq<char>>| word_acts(w);
    let mut out: Vec<Action> = Vec::new();
    for i in 0..toks.len()
        invariant
            ws == words(buf@),
            ws.len() == toks@.len(),
            forall|j: int| 0 <= j < toks@.len() ==> #[trigger] ws[j] == split(toks@[j]@, ':'),
            p == (|w: Seq<Seq<char>>| word_acts(w)),
            forall|t: &String| level.requires((t,)),
            forall|j: int| 0 <= j < i ==> word_ok(#[trigger] ws[j]),
            out@.len() == ws.take(i as int).filter(p).len(),
            forall|j: int| 0 <= j < out@.len() ==> word_action(ws.take(i as int).filter(p)[j], *level, #[trigger] out@[j]),
    {
        let fields = split_chars(&toks[i], ':');
        let ghost w = ws[i as int];
        assert(fields@.map_values(|v: Vec<char>| v@) == w);
        assert(fields@[0]@ == w[0]);
        assert(ws.take(i + 1) =~= ws.take(i as int).push(w));
        proof { lemma_filter_push(ws.take(i as int), w, p); }
        let name = string_of(&fields[0]);
        if str_eq(name.as_str(), "NOTE_ON") {
            if fields.len() < 3 {
                assert(!word_ok(ws[i as int]));
                return None;
            }
            assert(fields@[1]@ == w[1] && fields@[2]@ == w[2]);
            let key_text = string_of(&fields[1]);
            let key = match parse_u16(key_text.as_str()) {
                Some(k) => k,
                None => {
                    assert(!word_ok(ws[i as int]));
                    return None;
                },
            };
            let vel_text = string_of(&fields[2]);
            let vel = match level(&vel_text) {
                Some(v) => v,
                None => return None,
            };
            assert(vel_text@ == w[2]);
            assert(level.ensures((&vel_text,), Some(vel)));
            assert(w[0] == "NOTE_ON"@);
            assert(key == spec_u16(w[1]).unwrap());
            assert(velocity_read(w[2], *level, vel));
            assert(word_action(w, *level, Action::NoteOn(key, vel)));
            out.push(Action::NoteOn(key, vel));
        } else if str_eq(name.as_str(), "NOTE_OFF") {
            if fields.len() < 2 {
                assert(!word_ok(ws[i as int]));
                return None;
            }
            assert(fields@[1]@ == w[1]);
            let key_text = string_of(&fields[1]);
            let key = match parse_u16(key_text.as_str()) {
                Some(k) => k,
                None => {
                    assert(!word_ok(ws[i as int]));
                    return None;
                },
            };
            out.push(Action::NoteOff(key));
        } else {
            match key_of(name.as_str()) {
                Some(a) => out.push(a),
                None => {},
            }
        }
    }
    assert(ws.take(ws.len() as int) =~= ws);
    Some(out)
}

} // verus!
