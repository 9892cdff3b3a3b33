use palit_client::action::{Action, Anchor, Level};
use palit_client::document::XmlElement;
use palit_client::events::{anchors_for, on_answer, on_event, Command, FollowUp};
use palit_client::focus::{shift_focus, Focus, FocusType, MultiFocus, ID};
use palit_client::idmap::IdMap;
use palit_client::ipc::ipc_action;
use palit_client::layers::{fill_anchors, render_bottom, LayerStack, DEFAULT_HOME_ID, DEFAULT_ROUTE_ID};
use palit_client::modules::timeline;
use palit_client::routes::Routes;
use palit_client::sort::sort_by_key;
use palit_client::timeline::Timeline;

fn cell(id: u16) -> MultiFocus<u8> {
    let v = ID(FocusType::Void, 0);
    MultiFocus { kind: 0, w_id: ID(FocusType::Button, id), r_id: v, g_id: v, y_id: v, p_id: v, b_id: v, active: None }
}

fn level(t: &String) -> Option<Level> {
    t.parse::<f32>().ok().map(|v| Level { bits: v.to_bits() })
}

#[test]
fn shift_focus_moves_and_clamps() {
    let g = vec![vec![cell(0), cell(1), cell(2)], vec![cell(3)]];
    let (f, d) = shift_focus((2, 0), &g, Action::Down);
    assert_eq!(f, (0, 1));
    assert!(d.is_none());
    let (f, d) = shift_focus((0, 1), &g, Action::Down);
    assert_eq!(f, (0, 1));
    assert!(matches!(d, Some(Action::Down)));
    let (f, _) = shift_focus((1, 0), &g, Action::Left);
    assert_eq!(f, (0, 0));
    let (f, _) = shift_focus(f, &g, Action::Right);
    assert_eq!(f, (1, 0));
    let (f, d) = shift_focus((9, 9), &g, Action::Up);
    assert_eq!(f, (9, 9));
    assert!(matches!(d, Some(Action::Up)));
}

#[test]
fn unmoved_focus_hands_the_arrow_back() {
    let g = vec![vec![cell(0), cell(1)], vec![cell(2), cell(3), cell(4)]];
    for y in 0..g.len() {
        for x in 0..g[y].len() {
            for k in 0..4 {
                let arrow = |k: usize| match k {
                    0 => Action::Up,
                    1 => Action::Down,
                    2 => Action::Left,
                    _ => Action::Right,
                };
                let (f, d) = shift_focus((x, y), &g, arrow(k));
                assert!(f.1 < g.len() && f.0 < g[f.1].len());
                let handed_back = match (d, arrow(k)) {
                    (Some(Action::Up), Action::Up)
                    | (Some(Action::Down), Action::Down)
                    | (Some(Action::Left), Action::Left)
                    | (Some(Action::Right), Action::Right) => true,
                    (None, _) => false,
                    (other, _) => panic!("{:?} was handed back", other),
                };
                assert_eq!(handed_back, f == (x, y));
            }
        }
    }
}

#[test]
fn held_control_pins_the_focus() {
    let mut c = cell(0);
    c.active = Some(Focus::Red);
    let g = vec![vec![c, cell(1)]];
    let (f, d) = shift_focus((0, 0), &g, Action::Right);
    assert_eq!(f, (0, 0));
    assert!(d.is_none());
}

#[test]
fn layers_turn_and_slide() {
    let mut s: LayerStack<&str> = LayerStack::new();
    s.add_layer("home", DEFAULT_HOME_ID);
    s.add_layer("timeline", 1);
    s.add_layer("organ", 2);
    assert_eq!(s.target(), (2, 2));
    s.back();
    let ids: Vec<u16> = s.layers.iter().map(|l| l.0).collect();
    assert_eq!(ids, vec![2, DEFAULT_HOME_ID, 1]);
    s.back();
    s.back();
    let ids: Vec<u16> = s.layers.iter().map(|l| l.0).collect();
    assert_eq!(ids, vec![DEFAULT_HOME_ID, 1, 2]);
    let pinned = s.slide(None, 2, true);
    assert!(pinned.is_none());
    let ids: Vec<u16> = s.layers.iter().map(|l| l.0).collect();
    assert_eq!(ids, vec![DEFAULT_HOME_ID, 2, 1]);
}

#[test]
fn slide_hands_back_a_patch_bay_on_show() {
    let mut s: LayerStack<&str> = LayerStack::new();
    s.add_layer("home", DEFAULT_HOME_ID);
    s.add_layer("timeline", 1);
    s.add_layer("organ", 2);
    s.add_layer("patch", DEFAULT_ROUTE_ID);
    let pinned = s.slide(Some(DEFAULT_ROUTE_ID), DEFAULT_ROUTE_ID, false);
    assert_eq!(pinned.map(|l| l.0), Some(DEFAULT_ROUTE_ID));
    let ids: Vec<u16> = s.layers.iter().map(|l| l.0).collect();
    assert_eq!(ids, vec![DEFAULT_HOME_ID, 2, 1]);
    s.add_layer("patch", DEFAULT_ROUTE_ID);
    let kept = s.slide(Some(DEFAULT_ROUTE_ID), 1, true);
    assert!(kept.is_none());
    let ids: Vec<u16> = s.layers.iter().map(|l| l.0).collect();
    assert_eq!(ids, vec![DEFAULT_ROUTE_ID, DEFAULT_HOME_ID, 1, 2]);
}

#[test]
fn render_starts_at_the_topmost_opaque_layer() {
    assert_eq!(render_bottom(&vec![]), 0);
    assert_eq!(render_bottom(&vec![false, false, true, true]), 1);
    assert_eq!(render_bottom(&vec![false]), 0);
}

#[test]
fn anchors_get_the_module_id() {
    let v = vec![Anchor { index: 0, module_id: 0, name: "Keys".to_string(), input: false }];
    let f = fill_anchors(&v, 12);
    assert_eq!(f[0].module_id, 12);
    assert_eq!(f[0].name, "Keys");
}

#[test]
fn patch_bay_patches_an_anchor_into_a_route() {
    let mut r = Routes::new(4, 2, 72, 20, None);
    let anchors = vec![Anchor { index: 0, module_id: 5, name: "Keys".to_string(), input: false }];
    assert!(matches!(r.dispatch(Action::ShowAnchors(anchors)), Action::Noop));
    assert_eq!(r.focii.len(), 2);
    assert!(r.state.anchors.contains_key(0));
    assert!(matches!(r.dispatch(Action::Down), Action::Noop));
    assert_eq!(r.state.focus, (0, 1));
    assert!(matches!(r.dispatch(Action::SelectR), Action::AddRoute(1)));
    assert!(r.state.routes.contains_key(1));
    r.dispatch(Action::Deselect);
    assert!(matches!(r.dispatch(Action::Up), Action::Noop));
    assert_eq!(r.state.focus, (0, 0));
    assert!(matches!(r.dispatch(Action::SelectR), Action::DelPatch(5, 0, false)));
    assert_eq!(r.state.selected_anchor, Some(0));
    assert!(matches!(r.dispatch(Action::Right), Action::PatchRoute(1)));
    assert!(matches!(r.dispatch(Action::Deselect), Action::PatchOut(5, 0, 1)));
    assert_eq!(r.state.routes.get(1).unwrap().patch.len(), 1);
    assert!(r.state.selected_anchor.is_none());
}

#[test]
fn patch_bay_deletes_the_last_route() {
    let mut r = Routes::new(4, 2, 72, 20, None);
    r.dispatch(Action::ShowAnchors(vec![]));
    assert!(matches!(r.dispatch(Action::SelectR), Action::AddRoute(1)));
    r.dispatch(Action::Deselect);
    assert!(matches!(r.dispatch(Action::SelectR), Action::AddRoute(2)));
    r.dispatch(Action::Deselect);
    assert!(matches!(r.dispatch(Action::SelectY), Action::DelRoute(2)));
    assert!(!r.state.routes.contains_key(2));
    assert!(r.state.routes.contains_key(1));
}

fn el(name: &str, attrs: &[(&str, &str)]) -> XmlElement {
    XmlElement {
        name: name.to_string(),
        attributes: attrs.iter().map(|(k, v)| (k.to_string(), v.to_string())).collect(),
        children: vec![],
        text: None,
    }
}

#[test]
fn timeline_lays_out_tracks_and_regions() {
    let mut track = el("track", &[("id", "1")]);
    track.children.push(el("audio", &[("id", "2"), ("asset", "5"), ("offset", "0"), ("in", "0"), ("duration", "48000")]));
    let mut doc = el("timeline", &[("x", "y")]);
    doc.children.push(el("param", &[("name", "bpm"), ("value", "120")]));
    doc.children.push(track);
    let whole = |t: &String| t.parse::<f32>().ok().map(|v| v as u16);
    let state = timeline::read(doc, &whole, &level).unwrap();
    let mut tl = Timeline::new(1, 1, 80, 24, state);
    assert_eq!(tl.state.scroll_mid, 34);
    assert_eq!(tl.focii.len(), 2);
    assert_eq!(tl.focii[0].len(), 2);
    assert_eq!(tl.focii[1].len(), 2);
    assert!(!tl.alpha());
    let (a, _) = tl.dispatch(Action::Down);
    assert!(matches!(a, Action::Noop));
    assert_eq!(tl.state.focus, (0, 1));
    let (_, _) = tl.dispatch(Action::Right);
    assert_eq!(tl.state.focus, (1, 1));
    let (a, _) = tl.dispatch(Action::Right);
    assert!(matches!(a, Action::Scrub(true)));
}

#[test]
fn ipc_reads_key_words_and_notes() {
    let v = ipc_action("UP DN LT RT SPC M R V I 1 2 PLAY STOP EXIT DESELECT ROUTE TICK ? FOO", &level).unwrap();
    assert_eq!(v.len(), 17);
    assert!(matches!(v[0], Action::Up));
    assert!(matches!(v[4], Action::SelectR));
    assert!(matches!(v[5], Action::SelectG));
    assert!(matches!(v[9], Action::Help));
    assert!(matches!(v[16], Action::Tick));
    let n = ipc_action("NOTE_ON:60:0.5 NOTE_OFF:60", &level).unwrap();
    assert_eq!(n.len(), 2);
    match n[0] {
        Action::NoteOn(k, v) => {
            assert_eq!(k, 60);
            assert_eq!(v, Level { bits: 0.5f32.to_bits() });
        },
        ref a => panic!("{:?}", a),
    }
    assert!(matches!(n[1], Action::NoteOff(60)));
    assert!(ipc_action("", &level).unwrap().is_empty());
}

#[test]
fn ipc_refuses_notes_without_a_key() {
    assert!(ipc_action("NOTE_ON:60", &level).is_none());
    assert!(ipc_action("UP NOTE_OFF:x", &level).is_none());
    assert!(ipc_action("NOTE_ON:60:loud", &level).is_none());
}

#[test]
fn id_map_keeps_ids_in_order() {
    let mut m: IdMap<&str> = IdMap::new();
    assert!(m.insert(5, "e").is_none());
    assert!(m.insert(1, "a").is_none());
    assert_eq!(m.insert(5, "E"), Some("e"));
    assert_eq!(m.len(), 2);
    let keys: Vec<u16> = m.entries().iter().map(|e| e.0).collect();
    assert_eq!(keys, vec![1, 5]);
    assert_eq!(m.get(5), Some(&"E"));
    assert_eq!(m.remove(1), Some("a"));
    assert!(!m.contains_key(1));
    assert!(m.remove(1).is_none());
}

#[test]
fn sort_by_key_orders_entries() {
    let v = sort_by_key(vec![(3, 'c'), (1, 'a'), (2, 'b')]);
    assert_eq!(v, vec![(1, 'a'), (2, 'b'), (3, 'c')]);
}

fn ids(s: &LayerStack<&str>) -> Vec<u16> {
    s.layers.iter().map(|l| l.0).collect()
}

#[test]
fn events_reach_the_top_layer_or_turn_the_stack() {
    let mut s: LayerStack<&str> = LayerStack::new();
    s.add_layer("home", DEFAULT_HOME_ID);
    s.add_layer("timeline", 1);
    s.add_layer("organ", 2);
    assert!(matches!(on_event(&mut s, Action::Exit), Command::Quit));
    assert!(matches!(on_event(&mut s, Action::Help), Command::AddHelp));
    assert_eq!(ids(&s), vec![DEFAULT_HOME_ID, 1, 2]);
    match on_event(&mut s, Action::SelectR) {
        Command::Deliver(i, id, Action::SelectR) => assert_eq!((i, id), (2, 2)),
        c => panic!("{:?}", c),
    }
    assert!(matches!(on_event(&mut s, Action::Back), Command::Done));
    assert_eq!(ids(&s), vec![2, DEFAULT_HOME_ID, 1]);
    let mut empty: LayerStack<&str> = LayerStack::new();
    assert!(matches!(on_event(&mut empty, Action::Back), Command::Done));
    assert!(empty.layers.is_empty());
}

#[test]
fn answers_bring_up_titles_projects_and_slides() {
    let mut s: LayerStack<&str> = LayerStack::new();
    s.add_layer("home", DEFAULT_HOME_ID);
    s.add_layer("timeline", 1);
    s.add_layer("organ", 2);
    s.add_layer("patch", DEFAULT_ROUTE_ID);
    assert!(matches!(on_answer(&mut s, Some(DEFAULT_ROUTE_ID), 2, Action::InputTitle), FollowUp::AddTitle));
    match on_answer(&mut s, None, 2, Action::OpenProject("song".to_string())) {
        FollowUp::Open(t) => assert_eq!(t, "song"),
        f => panic!("{:?}", f),
    }
    assert!(matches!(on_answer(&mut s, None, 2, Action::Noop), FollowUp::Done));
    assert_eq!(ids(&s), vec![DEFAULT_HOME_ID, 1, 2, DEFAULT_ROUTE_ID]);
    match on_answer(&mut s, Some(DEFAULT_ROUTE_ID), DEFAULT_ROUTE_ID, Action::Down) {
        FollowUp::AskAnchors(r) => assert_eq!(r.0, DEFAULT_ROUTE_ID),
        f => panic!("{:?}", f),
    }
    assert_eq!(ids(&s), vec![DEFAULT_HOME_ID, 2, 1]);
    assert!(matches!(on_answer(&mut s, None, 2, Action::Up), FollowUp::Done));
    assert_eq!(ids(&s), vec![DEFAULT_HOME_ID, 1, 2]);
    let a = Anchor { index: 1, module_id: 0, name: "In 1".to_string(), input: true };
    match on_answer(&mut s, None, 2, Action::ShowAnchors(vec![a])) {
        FollowUp::ShowAnchors(v) => assert_eq!(v.len(), 1),
        f => panic!("{:?}", f),
    }
}

#[test]
fn slid_in_module_gives_the_patch_bay_its_anchors() {
    let a = Anchor { index: 3, module_id: 0, name: "Out 3".to_string(), input: false };
    let filled = anchors_for(Action::ShowAnchors(vec![a]), 7).unwrap();
    assert_eq!(filled[0].module_id, 7);
    assert_eq!(filled[0].index, 3);
    assert!(anchors_for(Action::Noop, 7).is_none());
}
