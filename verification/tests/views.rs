use palit_client::action::{Action, Level, Module};
use palit_client::components::piano::key_mark;
use palit_client::document::XmlElement;
use palit_client::views::arpeggio::Arpeggio;
use palit_client::views::hammond::Hammond;
use palit_client::views::help::Help;
use palit_client::views::home::Home;
use palit_client::views::keyboard::Keyboard;
use palit_client::views::modules::{module_names, module_of, Modules};
use palit_client::views::pepper::Pepper;
use palit_client::views::piano::Piano;
use palit_client::views::plugin::{FaustParam, Plugin};
use palit_client::views::project::Project;
use palit_client::views::save::Save;
use palit_client::views::splash::Splash;

fn el(name: &str, attrs: &[(&str, &str)], children: Vec<XmlElement>) -> XmlElement {
    XmlElement {
        name: name.to_string(),
        attributes: attrs.iter().map(|(k, v)| (k.to_string(), v.to_string())).collect(),
        children,
        text: None,
    }
}

fn lv(v: f32) -> Level {
    Level { bits: v.to_bits() }
}

fn val(l: Level) -> f32 {
    f32::from_bits(l.bits)
}

fn projects(n: usize) -> Vec<String> {
    (0..n).map(|i| format!("p{}", i)).collect()
}

#[test]
fn home_pages_turn_round() {
    let mut home = Home::new(1, 1, 80, 24, projects(9));
    assert_eq!(home.x, 1 + 40 - 17);
    assert_eq!(home.y, 1 + 12 - 7);
    assert_eq!(home.state.scroll(), 0);
    home.dispatch(Action::Left);
    assert_eq!(home.state.scroll(), 2);
    home.dispatch(Action::Right);
    assert_eq!(home.state.scroll(), 0);
    home.dispatch(Action::Right);
    assert_eq!(home.state.scroll(), 1);
}

#[test]
fn home_select_keys_open_projects_on_the_page() {
    let mut home = Home::new(1, 1, 80, 24, projects(6));
    home.dispatch(Action::Right);
    match home.dispatch(Action::SelectY) {
        Action::OpenProject(p) => assert_eq!(p, "p4"),
        a => panic!("{:?}", a),
    }
    match home.dispatch(Action::SelectP) {
        Action::OpenProject(p) => assert_eq!(p, "p5"),
        a => panic!("{:?}", a),
    }
    assert!(matches!(home.dispatch(Action::SelectB), Action::Noop));
    assert!(matches!(home.dispatch(Action::SelectR), Action::InputTitle));
    assert!(matches!(home.dispatch(Action::Up), Action::Up));
    assert!(matches!(home.dispatch(Action::Play), Action::Noop));
    assert!(!home.alpha());
}

#[test]
fn help_records_notes_and_closes() {
    let mut help = Help::new(8, 4, 64, 16);
    assert_eq!(help.state.title, "KEYBOARD");
    assert!(matches!(help.dispatch(Action::NoteOn(60, lv(0.5))), Action::Noop));
    assert!(matches!(help.dispatch(Action::NoteOff(60)), Action::Noop));
    assert_eq!(help.state.active.len(), 1);
    assert!(matches!(help.dispatch(Action::Back), Action::Cancel));
    assert!(matches!(help.dispatch(Action::SelectR), Action::Cancel));
    assert!(help.alpha());
}

#[test]
fn keyboard_holds_and_releases_notes() {
    let mut k = Keyboard::new(1, 1, 80, 24, 3, -1, lv(0.5));
    k.dispatch(Action::NoteOn(60, lv(0.5)));
    k.dispatch(Action::NoteOn(62, lv(0.5)));
    k.dispatch(Action::NoteOn(60, lv(0.7)));
    assert_eq!(k.state.keys_active.len(), 3);
    k.dispatch(Action::NoteOff(60));
    assert_eq!(k.state.keys_active.len(), 1);
    assert!(matches!(k.state.keys_active[0], Action::NoteOn(62, _)));
    k.dispatch(Action::PitchUp);
    k.dispatch(Action::PitchUp);
    k.dispatch(Action::PitchDown);
    assert_eq!(k.state.octave, 4);
    match k.dispatch(Action::Route) {
        Action::ShowAnchors(v) => {
            assert_eq!(v.len(), 1);
            assert_eq!(v[0].name, "Keys");
            assert!(!v[0].input);
        },
        a => panic!("{:?}", a),
    }
    assert!(matches!(k.dispatch(Action::Down), Action::Down));
}

#[test]
fn save_spells_a_title() {
    let mut s = Save::new(1, 1, 40, 12, "My".to_string());
    assert_eq!(s.state.title_str, "M");
    assert_eq!(s.state.last_char, b'y');
    s.dispatch(Action::Right);
    assert_eq!(s.state.title_str, "My");
    s.dispatch(Action::SelectY);
    assert_eq!(s.state.last_char, b'A');
    s.dispatch(Action::Down);
    assert_eq!(s.state.last_char, b'Z');
    s.dispatch(Action::Up);
    assert_eq!(s.state.last_char, b'A');
    s.dispatch(Action::SelectG);
    s.dispatch(Action::Down);
    assert_eq!(s.state.last_char, b'9');
    s.dispatch(Action::SelectP);
    s.dispatch(Action::Up);
    assert_eq!(s.state.last_char, b'b');
    match s.dispatch(Action::SelectB) {
        Action::SaveAs(t) => assert_eq!(t, "Myb"),
        a => panic!("{:?}", a),
    }
    s.dispatch(Action::Left);
    s.dispatch(Action::Left);
    s.dispatch(Action::Left);
    assert_eq!(s.state.title_str, "");
    assert!(matches!(s.dispatch(Action::Back), Action::Cancel));
}

#[test]
fn pepper_game_moves_and_leaves() {
    let mut p = Pepper::new(1, 1, 40, 20);
    assert_eq!(p.state.credits.len(), 3);
    assert_eq!(p.state.artist_x, 4);
    assert_eq!(p.state.health, 5);
    p.dispatch(Action::Right);
    p.dispatch(Action::Right);
    p.dispatch(Action::Left);
    assert_eq!(p.state.pepper_x, 1);
    p.dispatch(Action::Tick);
    assert_eq!(p.state.artist_x, 5);
    assert!(matches!(p.dispatch(Action::SelectR), Action::Back));
    assert_eq!(p.state.pepper, usize::MAX);
}

fn piano_doc(with_all: bool) -> XmlElement {
    let names = ["16", "5.3", "8", "4", "2.6", "2", "1.6", "1.3", "1"];
    let n = if with_all { 9 } else { 8 };
    el("hammond", &[], names[..n].iter().enumerate().map(|(i, k)| {
        let v = format!("{}", i as i16 - 4);
        el("param", &[("name", k), ("value", v.as_str())], vec![])
    }).collect())
}

#[test]
fn piano_reads_drawbars_and_steps_them() {
    assert!(Piano::new(5, 5, 100, 40, piano_doc(false)).is_none());
    let mut p = Piano::new(5, 5, 100, 40, piano_doc(true)).unwrap();
    assert_eq!(p.x, 5 + 50 - 35);
    assert_eq!(p.y, 5 + 40 - 30);
    assert_eq!(p.state.eq, [-4, -3, -2, -1, 0, 1, 2, 3, 4]);
    // hold green on the first cell (drawbar 16') and step it up
    assert!(matches!(p.dispatch(Action::SelectG), Action::Noop));
    match p.dispatch(Action::Up) {
        Action::SetIntParam(k, v) => {
            assert_eq!(k, "16");
            assert_eq!(v, -3);
        },
        a => panic!("{:?}", a),
    }
    assert_eq!(p.state.eq[0], -3);
    // release, move to the second cell, hold red (drawbar 1') and step down
    p.dispatch(Action::Deselect);
    assert!(matches!(p.dispatch(Action::Right), Action::Noop));
    assert_eq!(p.state.focus, (1, 0));
    p.dispatch(Action::SelectR);
    p.dispatch(Action::Down);
    assert_eq!(p.state.eq[8], 3);
    p.dispatch(Action::Deselect);
    assert!(matches!(p.dispatch(Action::Right), Action::Noop));
    assert!(matches!(p.dispatch(Action::Route), Action::ShowAnchors(_)));
}

#[test]
fn piano_note_off_keeps_its_own_key() {
    let mut p = Piano::new(5, 5, 100, 40, piano_doc(true)).unwrap();
    p.dispatch(Action::NoteOn(60, lv(0.5)));
    p.dispatch(Action::NoteOn(62, lv(0.5)));
    p.dispatch(Action::NoteOff(60));
    assert_eq!(p.state.notes.len(), 1);
    assert!(matches!(p.state.notes[0], Action::NoteOn(60, _)));
}

fn step(l: Level, up: bool) -> Level {
    lv(if up { val(l) + 0.001 } else { val(l) - 0.001 })
}

#[test]
fn hammond_levels_default_and_step() {
    let read = |t: &String| t.parse::<f32>().ok().map(lv);
    let doc = el("hammond", &[], vec![el("param", &[("name", "8"), ("value", "0.5")], vec![])]);
    let mut h = Hammond::new(1, 1, 50, 20, doc, &read, lv(0.01)).unwrap();
    assert_eq!(h.x, 1);
    assert_eq!(h.y, 1);
    assert_eq!(val(h.state.eq[2]), 0.5);
    assert_eq!(val(h.state.eq[0]), 0.01);
    // hold pink on the first cell: drawbar 8'
    h.dispatch(Action::SelectP, &step);
    match h.dispatch(Action::Up, &step) {
        Action::SetParam(k, v) => {
            assert_eq!(k, "8");
            assert_eq!(val(v), 0.5 + 0.001);
        },
        a => panic!("{:?}", a),
    }
    assert_eq!(val(h.state.eq[2]), 0.5 + 0.001);
    h.dispatch(Action::Deselect, &step);
    h.dispatch(Action::NoteOn(64, lv(1.0)), &step);
    h.dispatch(Action::NoteOff(64), &step);
    assert!(h.state.notes.is_empty());
    assert!(matches!(h.dispatch(Action::Left, &step), Action::Left));
}

#[test]
fn arpeggio_length_and_pattern() {
    let read = |t: &String| t.parse::<f32>().ok().map(lv);
    let index_of = |l: Level| val(l) as usize;
    let stretch = |l: Level, up: bool| {
        let x = val(l);
        lv(if up { if x >= 1.0 { x + 1.0 } else { x * 2.0 } } else if x <= 1.0 { x / 2.0 } else { x - 1.0 })
    };
    let doc = el("arpeggio", &[], vec![el("param", &[("name", "pattern"), ("value", "2")], vec![])]);
    let mut a = Arpeggio::new(1, 1, 40, 20, doc, &read, &index_of).unwrap();
    assert_eq!(val(a.state.length), 4.0);
    assert_eq!(a.state.pattern, 2);
    a.dispatch(Action::SelectR, &stretch, &index_of);
    a.dispatch(Action::Down, &stretch, &index_of);
    assert_eq!(val(a.state.length), 3.0);
    a.dispatch(Action::Deselect, &stretch, &index_of);
    match a.dispatch(Action::SelectB, &stretch, &index_of) {
        Action::SetParam(k, v) => {
            assert_eq!(k, "pattern");
            assert_eq!(val(v), 0.0);
        },
        x => panic!("{:?}", x),
    }
    assert_eq!(a.state.pattern, 0);
    a.dispatch(Action::Deselect, &stretch, &index_of);
    assert!(matches!(a.dispatch(Action::Route, &stretch, &index_of), Action::ShowAnchors(_)));
}

fn nudge(p: &FaustParam, up: bool) -> Level {
    let v = if up { (val(p.value) + val(p.step)).min(val(p.max)) } else { (val(p.value) - val(p.step)).max(val(p.min)) };
    lv(v)
}

#[test]
fn plugin_declares_params_and_anchors() {
    let mut p = Plugin::new(1, 1, 60, 20, el("faust", &[], vec![])).unwrap();
    p.dispatch(Action::DeclareParam("freq".to_string(), lv(440.0), lv(20.0), lv(500.0), lv(50.0)), &nudge);
    p.dispatch(Action::DeclareParam("gain".to_string(), lv(0.5), lv(0.0), lv(1.0), lv(0.1)), &nudge);
    p.dispatch(Action::DeclareParam("gate".to_string(), lv(0.0), lv(0.0), lv(1.0), lv(1.0)), &nudge);
    assert_eq!(p.state.params.len(), 3);
    assert_eq!(p.focii.len(), 1);
    p.dispatch(Action::DeclareAnchors(2, 4), &nudge);
    let names: Vec<&str> = p.state.faust_anchors.iter().map(|a| a.0.as_str()).collect();
    assert_eq!(names, vec!["Audio Out 0", "Audio Out 1", "Audio In 0"]);
    match p.dispatch(Action::Route, &nudge) {
        Action::ShowAnchors(v) => {
            assert_eq!(v.len(), 4);
            assert_eq!(v[3].name, "MIDI In");
            assert_eq!(v[3].index, 3);
        },
        a => panic!("{:?}", a),
    }
    // hold red: freq, step up within its bounds
    p.dispatch(Action::SelectR, &nudge);
    match p.dispatch(Action::Up, &nudge) {
        Action::SetParam(k, v) => {
            assert_eq!(k, "freq");
            assert_eq!(val(v), 490.0);
        },
        a => panic!("{:?}", a),
    }
    p.dispatch(Action::Right, &nudge);
    assert_eq!(val(p.state.params[0].value), 500.0);
}

#[test]
fn module_names_keep_core_modules_and_dsp_sources() {
    assert_eq!(module_of(&"reverb.dsp".to_string()), Some("reverb".to_string()));
    assert_eq!(module_of(&"reverb.so".to_string()), None);
    assert_eq!(module_of(&"plain".to_string()), Some("plain".to_string()));
    assert_eq!(module_of(&"a.dsp.bak".to_string()), Some("a".to_string()));
    assert_eq!(module_of(&"a.".to_string()), None);
    let files = vec!["echo.dsp".to_string(), "echo.so".to_string()];
    assert_eq!(module_names(&files), vec!["timeline", "hammond", "arpeggio", "keyboard", "echo"]);
}

#[test]
fn module_picker_tries_out_and_adds() {
    let files = vec!["echo.dsp".to_string(), "drums.dsp".to_string()];
    let mut m = Modules::new(4, 2, 40, 20, &files);
    assert_eq!(m.focii.len(), 2);
    assert!(matches!(m.dispatch(Action::SelectG), Action::Noop));
    assert_eq!(m.state.current, Some(1));
    match m.dispatch(Action::Deselect) {
        Action::AddModule(0, name) => assert_eq!(name, "hammond"),
        a => panic!("{:?}", a),
    }
    assert!(matches!(m.dispatch(Action::Deselect), Action::Cancel));
    assert!(matches!(m.dispatch(Action::Back), Action::Cancel));
}

#[test]
fn project_shows_modules_and_deletes() {
    let mut p = Project::new(4, 2, 40, 20);
    let modules = vec![Module { id: 7, name: "timeline".to_string() }, Module { id: 9, name: "patch".to_string() }];
    assert!(matches!(p.dispatch(Action::ShowProject("Song".to_string(), modules)), Action::Noop));
    assert_eq!(p.state.title, "Song");
    assert_eq!(p.focii.len(), 2);
    p.dispatch(Action::Down);
    assert_eq!(p.state.focus, (0, 1));
    p.dispatch(Action::SelectR);
    assert!(matches!(p.dispatch(Action::SelectR), Action::DelModule(9)));
    p.dispatch(Action::Deselect);
    assert!(matches!(p.dispatch(Action::Back), Action::Cancel));
}

#[test]
fn splash_size_follows_the_logo() {
    let s = Splash::new("hi", "ab\r\ncdé\n".to_string());
    assert_eq!(s.required_size(), (2, 4));
    let quiet = Splash::new("", "éé\nx".to_string());
    assert_eq!(quiet.required_size(), (4, 2));
}

#[test]
fn hammond_levels_read_back_from_a_save() {
    let read = |t: &String| t.parse::<f32>().ok().map(lv);
    let text = |l: Level| format!("{}", val(l));
    let doc = el("hammond", &[], vec![
        el("param", &[("name", "16"), ("value", "0.75")], vec![]),
        el("param", &[("name", "1.3"), ("value", "0.125")], vec![]),
    ]);
    let mut h = Hammond::new(1, 1, 50, 20, doc, &read, lv(0.5)).unwrap();
    h.dispatch(Action::SelectP, &step);
    h.dispatch(Action::Up, &step);
    h.dispatch(Action::Deselect, &step);
    let saved = h.save(&text);
    let back = Hammond::new(1, 1, 50, 20, saved, &read, lv(0.0)).unwrap();
    let before: Vec<u32> = h.state.eq.iter().map(|l| l.bits).collect();
    let after: Vec<u32> = back.state.eq.iter().map(|l| l.bits).collect();
    assert_eq!(before, after);
    assert_eq!(val(back.state.eq[0]), 0.75);
    assert_eq!(val(back.state.eq[7]), 0.125);
}

#[test]
fn hammond_saves_its_drawbars_in_order() {
    let read = |t: &String| t.parse::<f32>().ok().map(lv);
    let doc = el("hammond", &[], vec![el("param", &[("name", "8"), ("value", "0.5")], vec![])]);
    let h = Hammond::new(1, 1, 50, 20, doc, &read, lv(0.25)).unwrap();
    let text = |l: Level| format!("{}", val(l));
    let e = h.save(&text);
    assert_eq!(e.name, "hammond");
    assert_eq!(e.children.len(), 9);
    let names: Vec<&str> = e.children.iter().map(|c| c.attributes[0].1.as_str()).collect();
    assert_eq!(names, vec!["16", "5.3", "8", "4", "2.6", "2", "1.6", "1.3", "1"]);
    assert_eq!(e.children[2].attributes[1].1, "0.5");
    assert_eq!(e.children[0].attributes[1].1, "0.25");
    assert!(e.children.iter().all(|c| c.name == "param" && c.attributes[0].0 == "name" && c.attributes[1].0 == "value"));
}

#[test]
fn arpeggio_saves_length_and_pattern() {
    let read = |t: &String| t.parse::<f32>().ok().map(lv);
    let index_of = |l: Level| val(l) as usize;
    let doc = el("arpeggio", &[], vec![el("param", &[("name", "pattern"), ("value", "2")], vec![])]);
    let a = Arpeggio::new(1, 1, 40, 20, doc, &read, &index_of).unwrap();
    let text = |l: Level| format!("{}", val(l));
    let e = a.save(&text);
    assert_eq!(e.name, "arpeggio");
    assert_eq!(e.children.len(), 2);
    assert_eq!(e.children[0].attributes[0].1, "length");
    assert_eq!(e.children[0].attributes[1].1, "4");
    assert_eq!(e.children[1].attributes[0].1, "pattern");
    assert_eq!(e.children[1].attributes[1].1, "2");
}

#[test]
fn pepper_stays_on_screen() {
    let mut p = Pepper::new(1, 1, 40, 20);
    assert!(!p.can_dispatch(&Action::Left));
    assert!(p.can_dispatch(&Action::Right));
    assert!(p.can_dispatch(&Action::Tick));
    p.dispatch(Action::Right);
    assert!(p.can_dispatch(&Action::Left));
}

#[test]
fn hammond_needs_its_drawbar_names() {
    let read = |t: &String| t.parse::<f32>().ok().map(lv);
    let mut h = Hammond::new(1, 1, 50, 20, el("hammond", &[], vec![]), &read, lv(0.0)).unwrap();
    assert!(h.can_dispatch(&Action::Up));
    h.state.names.pop();
    assert!(!h.can_dispatch(&Action::Up));
}

#[test]
fn project_delete_names_a_listed_module() {
    let mut p = Project::new(4, 2, 40, 20);
    assert!(p.can_dispatch(&Action::SelectR));
    let modules = vec![Module { id: 7, name: "timeline".to_string() }, Module { id: 9, name: "patch".to_string() }];
    p.dispatch(Action::ShowProject("Song".to_string(), modules));
    p.dispatch(Action::Down);
    assert!(p.can_dispatch(&Action::SelectR));
    p.dispatch(Action::SelectR);
    p.state.modules.pop();
    assert!(!p.can_dispatch(&Action::SelectR));
}

#[test]
fn modules_release_needs_a_listed_module() {
    let files = vec!["hammond.so".to_string()];
    let mut m = Modules::new(4, 2, 40, 20, &files);
    assert!(m.can_dispatch(&Action::Deselect));
    m.dispatch(Action::SelectG);
    assert!(m.can_dispatch(&Action::Deselect));
    m.state.modules.clear();
    assert!(!m.can_dispatch(&Action::Deselect));
}

#[test]
fn plugin_arrow_names_a_parameter() {
    let nudge = |p: &FaustParam, up: bool| lv(if up { val(p.value) + val(p.step) } else { val(p.value) - val(p.step) });
    let mut p = Plugin::new(1, 1, 60, 20, el("faust", &[], vec![])).unwrap();
    assert!(p.can_dispatch(&Action::Up));
    p.dispatch(Action::DeclareParam("freq".to_string(), lv(440.0), lv(20.0), lv(500.0), lv(50.0)), &nudge);
    p.dispatch(Action::SelectR, &nudge);
    assert!(p.can_dispatch(&Action::Up));
    p.state.params.clear();
    assert!(!p.can_dispatch(&Action::Up));
}

#[test]
fn arpeggio_grid_is_its_one_cell() {
    let read = |t: &String| t.parse::<f32>().ok().map(lv);
    let index_of = |l: Level| val(l) as usize;
    let mut a = Arpeggio::new(1, 1, 40, 20, el("arpeggio", &[], vec![]), &read, &index_of).unwrap();
    assert!(a.can_dispatch(&Action::SelectB));
    a.state.pattern = usize::MAX;
    a.dispatch(Action::SelectR, &|l: Level, _up: bool| l, &index_of);
    assert!(a.can_dispatch(&Action::SelectR));
    a.dispatch(Action::Deselect, &|l: Level, _up: bool| l, &index_of);
    assert!(!a.can_dispatch(&Action::SelectB));
    a.focii.push(vec![]);
    assert!(!a.can_dispatch(&Action::Up));
}

#[test]
fn save_right_after_new_keeps_the_title() {
    let mut s = Save::new(0, 0, 40, 12, "Song 7".to_string());
    match s.dispatch(Action::SelectB) {
        Action::SaveAs(t) => assert_eq!(t, "Song 7"),
        a => panic!("{:?}", a),
    }
    assert_eq!(s.state.title_str, "Song ");
    assert_eq!(s.state.last_char, b'7');
}

#[test]
fn key_mark_places_played_keys_on_the_keyboard_art() {
    assert_eq!(key_mark(&Action::NoteOn(24, lv(1.0))), (6, 10, 1));
    assert_eq!(key_mark(&Action::NoteOn(60, lv(1.0))), (27, 10, 1));
    assert_eq!(key_mark(&Action::NoteOn(61, lv(1.0))), (28, 9, 1));
    assert_eq!(key_mark(&Action::NoteOn(63, lv(1.0))), (29, 9, 2));
    assert_eq!(key_mark(&Action::NoteOn(70, lv(1.0))), (33, 9, 2));
    assert_eq!(key_mark(&Action::NoteOn(78, lv(1.0))), (37, 9, 1));
    assert_eq!(key_mark(&Action::NoteOn(80, lv(1.0))), (49, 9, 1));
    assert_eq!(key_mark(&Action::NoteOn(107, lv(1.0))), (54, 10, 1));
    assert_eq!(key_mark(&Action::NoteOn(23, lv(1.0))), (0, 0, 0));
    assert_eq!(key_mark(&Action::NoteOn(108, lv(1.0))), (0, 0, 0));
    assert_eq!(key_mark(&Action::NoteOff(60)), (0, 0, 0));
}
