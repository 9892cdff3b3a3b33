use palit_client::action::{Anchor, Level, Route};
use palit_client::document::{take_children, XmlElement};
use palit_client::idmap::IdMap;
use palit_client::modules::{document_ready, lookup_value, mark_map, param_map, patch, read_document, read_project, timeline};
use palit_client::routes::RoutesState;

fn el(name: &str, attrs: &[(&str, &str)], children: Vec<XmlElement>) -> XmlElement {
    XmlElement {
        name: name.to_string(),
        attributes: attrs.iter().map(|(k, v)| (k.to_string(), v.to_string())).collect(),
        children,
        text: None,
    }
}

fn whole(t: &String) -> Option<u16> {
    t.parse::<f32>().ok().map(|v| v as u16)
}

fn level(t: &String) -> Option<Level> {
    t.parse::<f32>().ok().map(|v| Level { bits: v.to_bits() })
}

#[test]
fn element_attributes_and_children() {
    let mut e = XmlElement::new("route");
    e.set_attr("id", "4".to_string());
    e.set_attr("id", "5".to_string());
    assert_eq!(e.attributes.len(), 1);
    assert_eq!(e.attr("id").map(|s| s.as_str()), Some("5"));
    assert!(e.attr("x").is_none());
    e.children.push(el("input", &[("index", "1")], vec![]));
    e.children.push(el("output", &[("index", "2")], vec![]));
    e.children.push(el("input", &[("index", "3")], vec![]));
    assert_eq!(e.child("input").unwrap().attr("index").unwrap(), "1");
    let first = e.take_child("input").unwrap();
    assert_eq!(first.attr("index").unwrap(), "1");
    assert_eq!(e.children.len(), 2);
    let rest = take_children(&mut e, "input");
    assert_eq!(rest.len(), 1);
    assert_eq!(rest[0].attr("index").unwrap(), "3");
    assert_eq!(e.children.len(), 1);
    assert_eq!(e.children[0].name, "output");
}

#[test]
fn param_map_lists_params_in_order() {
    let doc = el("hammond", &[], vec![
        el("param", &[("name", "16"), ("value", "0.5")], vec![]),
        el("other", &[], vec![]),
        el("param", &[("name", "8"), ("value", "0.25")], vec![]),
        el("param", &[("name", "16"), ("value", "0.75")], vec![]),
    ]);
    let (rest, pairs) = param_map(doc).unwrap();
    assert_eq!(rest.children.len(), 1);
    assert_eq!(pairs.len(), 3);
    assert_eq!(pairs[1], ("8".to_string(), "0.25".to_string()));
    assert_eq!(lookup_value(&pairs, "16").unwrap(), "0.75");
    assert!(lookup_value(&pairs, "4").is_none());
}

#[test]
fn param_map_refuses_a_param_without_value() {
    let doc = el("hammond", &[], vec![el("param", &[("name", "16")], vec![])]);
    assert!(param_map(doc).is_none());
}

#[test]
fn mark_map_reads_numeric_marks() {
    let doc = el("timeline", &[], vec![el("mark", &[("name", "seq_in"), ("value", "480")], vec![])]);
    let (_, marks) = mark_map(doc).unwrap();
    assert_eq!(marks, vec![("seq_in".to_string(), 480)]);
    let bad = el("timeline", &[], vec![el("mark", &[("name", "seq_in"), ("value", "-1")], vec![])]);
    assert!(mark_map(bad).is_none());
}

#[test]
fn read_document_defaults_and_modules() {
    let doc = el("project", &[], vec![el("modules", &[], vec![
        el("timeline", &[("id", "1")], vec![]),
        el("patch", &[("id", "2")], vec![]),
        el("hammond", &[("id", "1")], vec![]),
    ])]);
    let d = read_document(doc);
    assert_eq!(d.title, "Untitled");
    assert_eq!(d.sample_rate, 48000);
    assert_eq!(d.modules.len(), 2);
    assert_eq!(d.modules.get(1).unwrap().name, "hammond");
    assert_eq!(d.modules.get(2).unwrap().name, "patch");
}

#[test]
fn read_document_title_and_rate() {
    let mut title = el("title", &[], vec![]);
    title.text = Some("Song".to_string());
    let doc = el("project", &[], vec![title, el("meta", &[("samplerate", "44100")], vec![]), el("modules", &[], vec![])]);
    let d = read_document(doc);
    assert_eq!(d.title, "Song");
    assert_eq!(d.sample_rate, 44100);
    assert_eq!(d.modules.len(), 0);
}

#[test]
fn read_document_refuses_malformed_documents() {
    assert!(!document_ready(&el("project", &[], vec![])));
    let no_id = el("project", &[], vec![el("modules", &[], vec![el("timeline", &[], vec![])])]);
    assert!(!document_ready(&no_id));
    let bad_rate = el("project", &[], vec![el("meta", &[("samplerate", "fast")], vec![]), el("modules", &[], vec![])]);
    assert!(!document_ready(&bad_rate));
    let untitled = el("project", &[], vec![el("title", &[], vec![]), el("modules", &[], vec![])]);
    assert!(!document_ready(&untitled));
    let fine = el("project", &[], vec![el("modules", &[], vec![el("timeline", &[("id", "3")], vec![])])]);
    assert!(document_ready(&fine));
}

#[test]
fn patch_read_puts_inputs_before_outputs() {
    let doc = el("patch", &[], vec![el("route", &[("id", "2")], vec![
        el("input", &[("index", "3"), ("module", "7")], vec![]),
        el("output", &[("index", "4"), ("module", "7")], vec![]),
        el("input", &[("index", "5"), ("module", "8")], vec![]),
    ])]);
    let s = patch::read(doc).unwrap();
    let route = s.routes.get(2).unwrap();
    assert_eq!(route.id, 2);
    let names: Vec<&str> = route.patch.iter().map(|a| a.name.as_str()).collect();
    assert_eq!(names, vec!["In 3", "In 5", "Out 4"]);
    assert!(route.patch[2].input == false && route.patch[2].module_id == 7);
    assert_eq!(s.anchors.len(), 3);
    assert_eq!(s.anchors.get(5).unwrap().module_id, 8);
    assert!(s.selected_route.is_none() && s.selected_anchor.is_none());
}

#[test]
fn patch_read_refuses_an_anchor_without_module() {
    let doc = el("patch", &[], vec![el("route", &[("id", "2")], vec![el("input", &[("index", "3")], vec![])])]);
    assert!(patch::read(doc).is_none());
    let bad_id = el("patch", &[], vec![el("route", &[("id", "x")], vec![])]);
    assert!(patch::read(bad_id).is_none());
}

#[test]
fn patch_write_adds_the_master_route() {
    let mut routes = IdMap::new();
    routes.insert(2, Route { id: 2, patch: vec![Anchor { index: 3, module_id: 7, name: "Keys".to_string(), input: true }] });
    let state = RoutesState { routes, anchors: IdMap::new(), focus: (0, 0), selected_route: None, selected_anchor: None };
    let e = patch::write(state);
    assert_eq!(e.name, "patch");
    assert_eq!(e.children.len(), 2);
    assert_eq!(e.children[0].attr("id").unwrap(), "2");
    let a = &e.children[0].children[0];
    assert_eq!(a.name, "input");
    assert_eq!(a.attr("module").unwrap(), "7");
    assert_eq!(a.attr("index").unwrap(), "3");
    assert_eq!(e.children[1].attr("id").unwrap(), "1");
    assert!(e.children[1].children.is_empty());
}

#[test]
fn patch_write_then_read_keeps_routes() {
    let mut routes = IdMap::new();
    routes.insert(1, Route { id: 1, patch: vec![] });
    routes.insert(3, Route { id: 3, patch: vec![Anchor { index: 0, module_id: 9, name: "Speaker".to_string(), input: false }] });
    let state = RoutesState { routes, anchors: IdMap::new(), focus: (0, 0), selected_route: None, selected_anchor: None };
    let back = patch::read(patch::write(state)).unwrap();
    assert_eq!(back.routes.len(), 2);
    assert_eq!(back.routes.get(3).unwrap().patch[0].name, "Out 0");
    assert_eq!(back.routes.get(3).unwrap().patch[0].module_id, 9);
}

#[test]
fn patch_read_back_keeps_each_routes_anchors() {
    let mut routes = IdMap::new();
    routes.insert(4, Route { id: 4, patch: vec![
        Anchor { index: 2, module_id: 5, name: "Out 2".to_string(), input: false },
        Anchor { index: 0, module_id: 6, name: "Keys".to_string(), input: true },
        Anchor { index: 1, module_id: 5, name: "Out 1".to_string(), input: false },
    ] });
    routes.insert(2, Route { id: 2, patch: vec![] });
    let state = RoutesState { routes, anchors: IdMap::new(), focus: (3, 1), selected_route: Some(4), selected_anchor: None };
    let back = patch::read(patch::write(state)).unwrap();
    let ids: Vec<u16> = back.routes.entries().iter().map(|(id, _)| *id).collect();
    assert_eq!(ids, vec![1, 2, 4]);
    assert!(back.routes.get(1).unwrap().patch.is_empty());
    assert!(back.routes.get(2).unwrap().patch.is_empty());
    let p: Vec<(u16, u16, bool)> = back.routes.get(4).unwrap().patch.iter().map(|a| (a.index, a.module_id, a.input)).collect();
    assert_eq!(p, vec![(0, 6, true), (2, 5, false), (1, 5, false)]);
    assert_eq!(back.routes.get(4).unwrap().patch[0].name, "In 0");
    assert_eq!(back.focus, (0, 0));
    assert!(back.selected_route.is_none());
    assert!(back.selected_anchor.is_none());
}

fn timeline_doc() -> XmlElement {
    el("timeline", &[], vec![
        el("param", &[("name", "bpm"), ("value", "120.5")], vec![]),
        el("mark", &[("name", "seq_out"), ("value", "96000")], vec![]),
        el("track", &[("id", "1")], vec![
            el("audio", &[("id", "2"), ("asset", "5"), ("offset", "100"), ("in", "0"), ("duration", "500")], vec![]),
            el("midi", &[("id", "3"), ("offset", "0"), ("duration", "1000")], vec![
                el("note", &[("id", "1"), ("key", "60"), ("vel", "0.5"), ("t_in", "0"), ("t_out", "10")], vec![]),
            ]),
        ]),
        el("track", &[("id", "4")], vec![]),
        el("asset", &[("id", "5"), ("size", "500"), ("src", "take1.wav")], vec![]),
    ])
}

#[test]
fn timeline_read_builds_the_state() {
    let s = timeline::read(timeline_doc(), &whole, &level).unwrap();
    assert_eq!(s.tempo, 120);
    assert_eq!(s.meter_beat, 4);
    assert_eq!(s.meter_note, 4);
    assert_eq!(s.seq_in, 0);
    assert_eq!(s.seq_out, 96000);
    assert_eq!(s.sample_rate, 48000);
    assert_eq!(s.zoom, 1);
    assert_eq!(s.tracks.len(), 2);
    assert_eq!(s.tracks.get(1).unwrap().index, 0);
    assert_eq!(s.tracks.get(4).unwrap().index, 1);
    let r = s.regions.get(102).unwrap();
    assert_eq!((r.asset_id, r.offset, r.duration, r.track), (5, 100, 500, 1));
    let m = s.midi_regions.get(103).unwrap();
    assert_eq!(m.notes.len(), 1);
    assert_eq!(m.notes[0].r_id, 3);
    assert_eq!(m.notes[0].note, 60);
    assert_eq!(m.notes[0].vel, Level { bits: 0.5f32.to_bits() });
    assert_eq!(s.assets.get(5).unwrap().src, "take1.wav");
    assert_eq!(s.assets.get(5).unwrap().channels, 2);
}

#[test]
fn timeline_read_refuses_malformed_elements() {
    let doc = el("timeline", &[], vec![el("track", &[], vec![])]);
    assert!(timeline::read(doc, &whole, &level).is_none());
    let bad_param = el("timeline", &[], vec![el("param", &[("name", "bpm"), ("value", "fast")], vec![])]);
    assert!(timeline::read(bad_param, &whole, &level).is_none());
    let far = el("timeline", &[], vec![el("track", &[("id", "700")], vec![
        el("audio", &[("id", "0"), ("asset", "5"), ("offset", "0"), ("in", "0"), ("duration", "5")], vec![]),
    ])]);
    assert!(timeline::read(far, &whole, &level).is_none());
}

#[test]
fn timeline_write_lists_params_marks_assets_and_tracks() {
    let s = timeline::read(timeline_doc(), &whole, &level).unwrap();
    let vel = |l: Level| f32::from_bits(l.bits).to_string();
    let e = timeline::write(&s, &vel);
    assert_eq!(e.name, "timeline");
    assert_eq!(e.children.len(), 7 + 1 + 2);
    assert_eq!(e.children[0].attr("name").unwrap(), "bpm");
    assert_eq!(e.children[0].attr("value").unwrap(), "120");
    assert_eq!(e.children[4].attr("value").unwrap(), "96000");
    assert_eq!(e.children[7].attr("src").unwrap(), "take1.wav");
    let track = &e.children[8];
    assert_eq!(track.attr("id").unwrap(), "1");
    assert_eq!(track.children.len(), 2);
    assert_eq!(track.children[0].attr("id").unwrap(), "2");
    let midi = &track.children[1];
    assert_eq!(midi.children[0].attr("vel").unwrap(), "0.5");
    // every track lists every region whose track matches its global id
    assert_eq!(e.children[9].children.len(), 2);
}

#[test]
fn timeline_write_then_read_keeps_regions() {
    let s = timeline::read(timeline_doc(), &whole, &level).unwrap();
    let vel = |l: Level| f32::from_bits(l.bits).to_string();
    let again = timeline::read(timeline::write(&s, &vel), &whole, &level).unwrap();
    assert_eq!(again.tempo, 120);
    assert_eq!(again.regions.get(102).unwrap().duration, 500);
    assert_eq!(again.midi_regions.get(103).unwrap().notes[0].vel, Level { bits: 0.5f32.to_bits() });
}

#[test]
fn timeline_write_then_read_keeps_marks_and_assets() {
    let mut s = timeline::read(timeline_doc(), &whole, &level).unwrap();
    s.seq_in = 10;
    s.loop_in = 20;
    s.loop_out = 30;
    s.meter_beat = 3;
    let vel = |l: Level| f32::from_bits(l.bits).to_string();
    let again = timeline::read(timeline::write(&s, &vel), &whole, &level).unwrap();
    assert_eq!((again.seq_in, again.seq_out, again.loop_in, again.loop_out), (10, 96000, 20, 30));
    assert_eq!((again.tempo, again.meter_beat, again.meter_note), (120, 3, 4));
    let a = again.assets.get(5).unwrap();
    assert_eq!((a.src.as_str(), a.duration, a.channels), ("take1.wav", 500, 2));
    assert!(a.waveform.is_empty());
}

#[test]
fn read_project_parses_and_reads_the_text() {
    let text = "<project><title>Song <![CDATA[two]]></title><meta samplerate=\"44100\"/>\
        <!-- modules --><modules><timeline id=\"1\"><param name=\"bpm\" value=\"90\"/></timeline>\
        <patch id=\"2\"/></modules></project>";
    let d = read_project(text).unwrap();
    assert_eq!(d.title, "Song two");
    assert_eq!(d.sample_rate, 44100);
    assert_eq!(d.modules.len(), 2);
    let t = d.modules.get(1).unwrap();
    assert_eq!(t.name, "timeline");
    assert_eq!(t.children.len(), 1);
    assert_eq!(t.children[0].attr("value").unwrap(), "90");
    assert_eq!(d.modules.get(2).unwrap().name, "patch");
}

#[test]
fn read_project_refuses_bad_text_and_unready_documents() {
    assert!(read_project("<project><modules>").is_none());
    assert!(read_project("not xml").is_none());
    assert!(read_project("<project/>").is_none());
    assert!(read_project("<project><modules><timeline/></modules></project>").is_none());
    assert!(read_project("<project><modules/></project>").is_some());
}

#[test]
fn timeline_write_then_read_keeps_track_ids() {
    let s = timeline::read(timeline_doc(), &whole, &level).unwrap();
    let vel = |l: Level| f32::from_bits(l.bits).to_string();
    let before: Vec<u16> = s.tracks.entries().iter().map(|(id, _)| *id).collect();
    let again = timeline::read(timeline::write(&s, &vel), &whole, &level).unwrap();
    let after: Vec<u16> = again.tracks.entries().iter().map(|(id, _)| *id).collect();
    assert_eq!(before, after);
    assert!(after.len() >= 2);
}
