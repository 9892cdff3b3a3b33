use palit_client::action::{Action, Anchor, Level};
use palit_client::document::XmlElement;
use palit_client::engine::{module_kind, sound_message, ModuleKind};
use palit_client::modules::timeline;
use palit_client::routes::Routes;
use palit_client::timeline::Timeline;
use palit_client::views::home::Home;
use palit_client::views::keyboard::Keyboard;
use palit_client::views::piano::Piano;
use palit_client::views::save::Save;

fn lv(v: f32) -> Level {
    Level { bits: v.to_bits() }
}

fn vel_text(l: Level) -> String {
    format!("{}", f32::from_bits(l.bits))
}

fn level(t: &String) -> Option<Level> {
    t.parse::<f32>().ok().map(lv)
}

fn el(name: &str, attrs: &[(&str, &str)], children: Vec<XmlElement>) -> XmlElement {
    XmlElement {
        name: name.to_string(),
        attributes: attrs.iter().map(|(k, v)| (k.to_string(), v.to_string())).collect(),
        children,
        text: None,
    }
}

fn message(a: Action, target: u16) -> Option<String> {
    sound_message(&a, target, &vel_text)
}

#[test]
fn transport_messages_name_the_target() {
    assert_eq!(message(Action::Play, 3).as_deref(), Some("PLAY:3 "));
    assert_eq!(message(Action::Stop, 29201).as_deref(), Some("STOP:29201 "));
}

#[test]
fn note_messages_carry_key_and_velocity() {
    assert_eq!(message(Action::NoteOn(60, lv(0.5)), 2).as_deref(), Some("NOTE_ON_AT:2:60:0.5 "));
    assert_eq!(message(Action::NoteOff(61), 2).as_deref(), Some("NOTE_OFF_AT:2:61 "));
}

#[test]
fn patch_messages_carry_module_anchor_and_route() {
    assert_eq!(message(Action::PatchOut(5, 0, 1), 9).as_deref(), Some("PATCH_OUT:5:0:1 "));
    assert_eq!(message(Action::PatchIn(7, 2, 10), 9).as_deref(), Some("PATCH_IN:7:2:10 "));
    assert_eq!(message(Action::DelPatch(5, 0, true), 9).as_deref(), Some("DEL_PATCH:5:0 "));
    assert_eq!(message(Action::AddRoute(4), 9).as_deref(), Some("ADD_ROUTE:4 "));
    assert_eq!(message(Action::DelRoute(4), 9).as_deref(), Some("DEL_ROUTE:4 "));
}

#[test]
fn opening_a_project_is_announced() {
    assert_eq!(message(Action::OpenProject("song.xml".to_string()), 1).as_deref(), Some("OPEN_PROJECT:song.xml "));
}

#[test]
fn other_actions_send_nothing() {
    assert!(message(Action::Up, 1).is_none());
    assert!(message(Action::Noop, 1).is_none());
    assert!(message(Action::SetTempo(120), 1).is_none());
}

#[test]
fn module_names_choose_their_view() {
    assert_eq!(module_kind("timeline"), ModuleKind::Timeline);
    assert_eq!(module_kind("hammond"), ModuleKind::Organ);
    assert_eq!(module_kind("keyboard"), ModuleKind::Keyboard);
    assert_eq!(module_kind("patch"), ModuleKind::Patch);
    assert_eq!(module_kind("arpeggio"), ModuleKind::Unknown);
    assert_eq!(module_kind("Timeline"), ModuleKind::Unknown);
}

#[test]
fn home_needs_a_project_to_open() {
    let empty = Home::new(1, 1, 80, 24, vec![]);
    assert!(!empty.can_dispatch(&Action::SelectY));
    assert!(empty.can_dispatch(&Action::SelectP));
    let one = Home::new(1, 1, 80, 24, vec!["a".to_string()]);
    assert!(one.can_dispatch(&Action::SelectY));
}

#[test]
fn keyboard_octave_stays_in_range() {
    let k = Keyboard::new(1, 1, 80, 24, 0, 0, lv(0.5));
    assert!(!k.can_dispatch(&Action::PitchDown));
    assert!(k.can_dispatch(&Action::PitchUp));
    let top = Keyboard::new(1, 1, 80, 24, usize::MAX, 0, lv(0.5));
    assert!(!top.can_dispatch(&Action::PitchUp));
}

#[test]
fn title_character_stays_a_byte() {
    let s = Save::new(23, 5, 36, 23, "A".to_string());
    assert!(s.can_dispatch(&Action::Up));
    assert!(s.can_dispatch(&Action::Left));
    let mut odd = Save::new(23, 5, 36, 23, "A".to_string());
    odd.state.last_char = 255;
    assert!(!odd.can_dispatch(&Action::Up));
    assert!(odd.can_dispatch(&Action::Down));
    odd.state.last_char = 0;
    assert!(!odd.can_dispatch(&Action::Down));
    odd.state.title_str = "é".to_string();
    assert!(!odd.can_dispatch(&Action::Left));
}

fn organ() -> Piano {
    let names = ["16", "5.3", "8", "4", "2.6", "2", "1.6", "1.3", "1"];
    let doc = el(
        "hammond",
        &[],
        names.iter().map(|k| el("param", &[("name", k), ("value", "32767")], vec![])).collect(),
    );
    Piano::new(5, 5, 100, 40, doc).unwrap()
}

#[test]
fn organ_drawbar_step_stays_in_range() {
    let mut p = organ();
    assert!(p.can_dispatch(&Action::Up));
    p.dispatch(Action::SelectG);
    assert!(!p.can_dispatch(&Action::Up));
    assert!(p.can_dispatch(&Action::Down));
}

#[test]
fn patch_bay_needs_its_anchors() {
    let mut r = Routes::new(4, 2, 72, 20, None);
    assert!(r.can_dispatch(&Action::PatchAnchor(3)) == false);
    assert!(r.can_dispatch(&Action::Up));
    r.dispatch(Action::ShowAnchors(vec![Anchor { index: 3, module_id: 5, name: "Out".to_string(), input: false }]));
    assert!(r.can_dispatch(&Action::PatchAnchor(3)));
    assert!(!r.can_dispatch(&Action::PatchOut(5, 3, 1)));
    r.dispatch(Action::Down);
    r.dispatch(Action::SelectR);
    r.dispatch(Action::Deselect);
    assert!(r.can_dispatch(&Action::PatchOut(5, 3, 1)));
}

fn timeline_view() -> Timeline {
    let track = el(
        "track",
        &[("id", "1")],
        vec![el("audio", &[("id", "2"), ("asset", "5"), ("offset", "0"), ("in", "0"), ("duration", "48000")], vec![])],
    );
    let doc = el("timeline", &[], vec![el("param", &[("name", "bpm"), ("value", "120")], vec![]), track]);
    let whole = |t: &String| t.parse::<f32>().ok().map(|v| v as u16);
    let state = timeline::read(doc, &whole, &level).unwrap();
    Timeline::new(1, 1, 80, 24, state)
}

#[test]
fn timeline_checks_the_held_control() {
    let mut tl = timeline_view();
    assert!(tl.can_dispatch(&Action::Down));
    assert!(tl.can_dispatch(&Action::Goto(96000)));
    tl.dispatch(Action::Down);
    tl.dispatch(Action::Right);
    // the audio region's green control moves it a beat left or right
    assert!(tl.can_dispatch(&Action::SelectG));
    tl.dispatch(Action::SelectG);
    assert!(tl.can_dispatch(&Action::Right));
    tl.state.regions.get(102).unwrap();
    let mut far = tl.state.regions.remove(102).unwrap();
    far.offset = u32::MAX;
    tl.state.regions.insert(102, far);
    assert!(!tl.can_dispatch(&Action::Right));
}

#[test]
fn timeline_needs_a_tempo() {
    let mut tl = timeline_view();
    tl.state.tempo = 0;
    assert!(!tl.can_dispatch(&Action::Play));
    let mut tl = timeline_view();
    tl.state.focus = (7, 7);
    assert!(!tl.can_dispatch(&Action::Play));
}
