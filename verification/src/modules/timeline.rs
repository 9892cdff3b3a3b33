//! The timeline module of a project document: tempo and meter parameters,
//! sequence and loop marks, tracks with their audio and MIDI regions, and
//! the assets they play, read into the timeline's state.

use vstd::prelude::*;
use crate::action::{Level, Note};
use crate::common::REGIONS_PER_TRACK;
use crate::document::{XmlElement, attr_value, named, unnamed, take_children, lemma_named_unnamed, lemma_named_concat, lemma_attr_prefix,
    lemma_all_named};
use crate::idmap::{IdMap, as_map, has_key, key_index, keys_increasing, lemma_key_index};
use crate::modules::{param_map, mark_map, pairs_of, marks_of, lookup, lookup_value};
use crate::text::{decimal, owned, parse_u16, parse_u32, spec_u16, spec_u32, str_eq, u32_to_string};
use crate::modules::patch::attr_is;
use crate::timeline::{Asset, AssetView, AudioRegion, MidiRegion, MidiRegionView, TimelineState, Track,
    assets_of, midi_of, global_id};

verus! {

/// A note element, read but for its velocity, which is kept as text.
pub struct NoteShape {
    pub id: u16,
    pub key: u16,
    pub vel: String,
    pub t_in: u32,
    pub t_out: u32,
}

/// A MIDI region element, read but for its notes' velocities.
pub struct MidiShape {
    pub duration: u32,
    pub offset: u32,
    pub track: u16,
    pub local: u16,
    pub notes: Seq<NoteShape>,
}

/// The tracks, audio regions and MIDI regions read so far.
pub struct TracksRead {
    pub tracks: Map<u16, Track>,
    pub regions: Map<u16, AudioRegion>,
    pub midi: Map<u16, MidiShape>,
}

/// A `note` element: its `id`, `key`, `t_in` and `t_out` read as numbers,
/// and its `vel` text.
pub open spec fn note_read(e: XmlElement) -> Option<NoteShape> {
    let a = e.attributes@;
    match (attr_value(a, "id"@), attr_value(a, "key"@), attr_value(a, "vel"@), attr_value(a, "t_in"@),
        attr_value(a, "t_out"@)) {
        (Some(i), Some(k), Some(v), Some(ti), Some(to)) => match (spec_u16(i@), spec_u16(k@), spec_u32(ti@),
            spec_u32(to@)) {
            (Some(id), Some(key), Some(t_in), Some(t_out)) => Some(NoteShape { id, key, vel: v, t_in, t_out }),
            _ => None,
        },
        _ => None,
    }
}

/// The notes of a list of `note` elements, in order.
pub open spec fn notes_read(es: Seq<XmlElement>) -> Option<Seq<NoteShape>>
    decreases es.len(),
{
    if es.len() == 0 {
        Some(Seq::empty())
    } else {
        match (notes_read(es.drop_last()), note_read(es.last())) {
            (Some(p), Some(n)) => Some(p.push(n)),
            _ => None,
        }
    }
}

/// Region `local` of track `t` has a global id that fits in 16 bits.
pub open spec fn global_fits(t: u16, local: u16) -> bool {
    global_id(t, local) <= u16::MAX
}

/// An `audio` element of track `t`, by global id.
pub open spec fn audio_read(e: XmlElement, t: u16) -> Option<(u16, AudioRegion)> {
    let a = e.attributes@;
    match (attr_value(a, "id"@), attr_value(a, "asset"@), attr_value(a, "offset"@), attr_value(a, "in"@),
        attr_value(a, "duration"@)) {
        (Some(r), Some(asset), Some(off), Some(a_in), Some(dur)) => match (spec_u16(r@), spec_u16(asset@),
            spec_u32(a_in@), spec_u32(dur@), spec_u32(off@)) {
            (Some(local), Some(asset_id), Some(asset_in), Some(duration), Some(offset)) =>
                if global_fits(t, local) {
                    Some((global_id(t, local) as u16, AudioRegion { asset_id, asset_in, duration, offset, track: t }))
                } else {
                    None
                },
            _ => None,
        },
        _ => None,
    }
}

/// A `midi` element of track `t`, by global id.
pub open spec fn midi_read(e: XmlElement, t: u16) -> Option<(u16, MidiShape)> {
    let a = e.attributes@;
    match (attr_value(a, "id"@), attr_value(a, "duration"@), attr_value(a, "offset"@)) {
        (Some(r), Some(dur), Some(off)) => match (spec_u16(r@), spec_u32(dur@), spec_u32(off@),
            notes_read(named(e.children@, "note"@))) {
            (Some(local), Some(duration), Some(offset), Some(notes)) =>
                if global_fits(t, local) {
                    Some((global_id(t, local) as u16, MidiShape { duration, offset, track: t, local, notes }))
                } else {
                    None
                },
            _ => None,
        },
        _ => None,
    }
}

/// The audio regions of track `t` added to `m`, in order.
pub open spec fn audio_fold(es: Seq<XmlElement>, t: u16, m: Map<u16, AudioRegion>) -> Option<Map<u16, AudioRegion>>
    decreases es.len(),
{
    if es.len() == 0 {
        Some(m)
    } else {
        match (audio_fold(es.drop_last(), t, m), audio_read(es.last(), t)) {
            (Some(p), Some((id, r))) => Some(p.insert(id, r)),
            _ => None,
        }
    }
}

/// The MIDI regions of track `t` added to `m`, in order.
pub open spec fn midi_fold(es: Seq<XmlElement>, t: u16, m: Map<u16, MidiShape>) -> Option<Map<u16, MidiShape>>
    decreases es.len(),
{
    if es.len() == 0 {
        Some(m)
    } else {
        match (midi_fold(es.drop_last(), t, m), midi_read(es.last(), t)) {
            (Some(p), Some((id, r))) => Some(p.insert(id, r)),
            _ => None,
        }
    }
}

/// A fresh track with this id at this vertical position.
pub open spec fn new_track(id: u16, index: u16) -> Track {
    Track { id, record: 0, mute: false, solo: false, monitor: true, index }
}

/// One `track` element, the `index`-th, read on top of `prev`.
pub open spec fn track_read(e: XmlElement, index: u16, prev: TracksRead) -> Option<TracksRead> {
    match attr_value(e.attributes@, "id"@) {
        Some(t) => match spec_u16(t@) {
            Some(id) => match (audio_fold(named(e.children@, "audio"@), id, prev.regions),
                midi_fold(named(e.children@, "midi"@), id, prev.midi)) {
                (Some(regions), Some(midi)) => Some(TracksRead {
                    tracks: prev.tracks.insert(id, new_track(id, index)),
                    regions,
                    midi,
                }),
                _ => None,
            },
            None => None,
        },
        None => None,
    }
}

/// The `track` elements read in order, each at its position.
pub open spec fn tracks_read(ts: Seq<XmlElement>) -> Option<TracksRead>
    decreases ts.len(),
{
    if ts.len() == 0 {
        Some(TracksRead { tracks: Map::empty(), regions: Map::empty(), midi: Map::empty() })
    } else {
        match tracks_read(ts.drop_last()) {
            Some(prev) => track_read(ts.last(), (ts.len() - 1) as u16, prev),
            None => None,
        }
    }
}

/// An `asset` element, by id.
pub open spec fn asset_read(e: XmlElement) -> Option<(u16, AssetView)> {
    let a = e.attributes@;
    match (attr_value(a, "id"@), attr_value(a, "size"@), attr_value(a, "src"@)) {
        (Some(i), Some(size), Some(src)) => match (spec_u16(i@), spec_u32(size@)) {
            (Some(id), Some(duration)) => Some((id, AssetView {
                src: src@,
                duration,
                channels: 2,
                waveform: Seq::empty(),
            })),
            _ => None,
        },
        _ => None,
    }
}

/// The `asset` elements read in order.
pub open spec fn assets_read(es: Seq<XmlElement>) -> Option<Map<u16, AssetView>>
    decreases es.len(),
{
    if es.len() == 0 {
        Some(Map::empty())
    } else {
        match (assets_read(es.drop_last()), asset_read(es.last())) {
            (Some(m), Some((id, a))) => Some(m.insert(id, a)),
            _ => None,
        }
    }
}

/// The children of a timeline element once its parameters and marks are out.
pub open spec fn timeline_rest(doc: XmlElement) -> Seq<XmlElement> {
    unnamed(unnamed(doc.children@, "param"@), "mark"@)
}

/// The parameters of a timeline element.
pub open spec fn timeline_params(doc: XmlElement) -> Seq<(String, String)> {
    pairs_of(named(doc.children@, "param"@)).unwrap()
}

/// The marks of a timeline element.
pub open spec fn timeline_marks(doc: XmlElement) -> Seq<(String, u32)> {
    marks_of(named(unnamed(doc.children@, "param"@), "mark"@)).unwrap()
}

/// A timeline element is well formed: parameters and marks have names and
/// values, marks are numbers, there are fewer than 65536 tracks, and every
/// track, region, note and asset has its numeric attributes.
pub open spec fn timeline_readable(doc: XmlElement) -> bool {
    &&& pairs_of(named(doc.children@, "param"@)) is Some
    &&& marks_of(named(unnamed(doc.children@, "param"@), "mark"@)) is Some
    &&& named(timeline_rest(doc), "track"@).len() < 0x10000
    &&& tracks_read(named(timeline_rest(doc), "track"@)) is Some
    &&& assets_read(named(timeline_rest(doc), "asset"@)) is Some
}

/// The position of the last pair named `name`.
pub open spec fn lookup_index<V>(pairs: Seq<(String, V)>, name: Seq<char>) -> Option<int>
    decreases pairs.len(),
{
    if pairs.len() == 0 {
        None
    } else if pairs.last().0@ == name {
        Some(pairs.len() - 1)
    } else {
        lookup_index(pairs.drop_last(), name)
    }
}

/// A whole-number parameter: what `whole` made of the last value given to
/// `name`, or `default` when there is none.
pub open spec fn whole_param<F: Fn(&String) -> Option<u16>>(
    params: Seq<(String, String)>, name: Seq<char>, default: u16, whole: F, v: u16,
) -> bool {
    match lookup_index(params, name) {
        Some(i) => whole.ensures((&params[i].1,), Some(v)),
        None => v == default,
    }
}

/// A mark: the last value given to `name`, or `default` when there is none.
pub open spec fn mark_or(marks: Seq<(String, u32)>, name: Seq<char>, default: u32) -> u32 {
    match lookup(marks, name) {
        Some(v) => v,
        None => default,
    }
}

/// The MIDI regions read: the same regions, each note as its element says,
/// with a velocity that `level` made of its text.
pub open spec fn midi_matches<G: Fn(&String) -> Option<Level>>(
    m: Map<u16, MidiRegionView>, shapes: Map<u16, MidiShape>, level: G,
) -> bool {
    &&& m.dom() == shapes.dom()
    &&& forall|k: u16| #[trigger] shapes.contains_key(k) ==> {
        let r = m[k];
        let sh = shapes[k];
        &&& r.duration == sh.duration
        &&& r.offset == sh.offset
        &&& r.track == sh.track
        &&& r.notes.len() == sh.notes.len()
        &&& forall|i: int| 0 <= i < sh.notes.len() ==> {
            let n = #[trigger] r.notes[i];
            &&& n.id == sh.notes[i].id
            &&& n.r_id == sh.local
            &&& n.note == sh.notes[i].key
            &&& n.t_in == sh.notes[i].t_in
            &&& n.t_out == sh.notes[i].t_out
            &&& level.ensures((&sh.notes[i].vel,), Some(n.vel))
        }
    }
}

/// What reading a timeline element gives, when it succeeds.
pub open spec fn timeline_read<F: Fn(&String) -> Option<u16>, G: Fn(&String) -> Option<Level>>(
    doc: XmlElement, whole: F, level: G, s: TimelineState,
) -> bool {
    let params = timeline_params(doc);
    let marks = timeline_marks(doc);
    let tr = tracks_read(named(timeline_rest(doc), "track"@)).unwrap();
    &&& whole_param(params, "bpm"@, 127, whole, s.tempo)
    &&& whole_param(params, "meter_beat"@, 4, whole, s.meter_beat)
    &&& whole_param(params, "meter_note"@, 4, whole, s.meter_note)
    &&& s.seq_in == mark_or(marks, "seq_in"@, 0)
    &&& s.seq_out == mark_or(marks, "seq_out"@, 48000)
    &&& s.loop_in == mark_or(marks, "loop_in"@, 0)
    &&& s.loop_out == mark_or(marks, "loop_out"@, 0)
    &&& s.sample_rate == 48000
    &&& s.tracks@ == tr.tracks
    &&& s.regions@ == tr.regions
    &&& midi_matches(midi_of(s), tr.midi, level)
    &&& assets_of(s) == assets_read(named(timeline_rest(doc), "asset"@)).unwrap()
    &&& !s.loop_mode && s.tick && s.playhead == 0 && s.zoom == 1
    &&& s.scroll_x == 0 && s.scroll_y == 0 && s.scroll_mid == 0
    &&& s.temp_tempo is None && s.temp_zoom is None
    &&& s.focus == (0usize, 0usize)
}

/// `whole` and `level` read every text they are given.
pub open spec fn readers_total<F: Fn(&String) -> Option<u16>, G: Fn(&String) -> Option<Level>>(
    whole: F, level: G,
) -> bool {
    &&& forall|t: &String, v: Option<u16>| whole.ensures((t,), v) ==> v is Some
    &&& forall|t: &String, v: Option<Level>| level.ensures((t,), v) ==> v is Some
}

pub proof fn lemma_lookup_index<V>(pairs: Seq<(String, V)>, name: Seq<char>)
    ensures
        lookup_index(pairs, name) matches Some(i) ==> 0 <= i < pairs.len() && pairs[i].0@ == name,
    decreases pairs.len(),
{
    if pairs.len() > 0 {
        lemma_lookup_index(pairs.drop_last(), name);
    }
}

/// The position of the last pair named `name`.
pub fn last_index<V>(pairs: &Vec<(String, V)>, name: &str) -> (r: Option<usize>)
    ensures
        match lookup_index(pairs@, name@) {
            Some(i) => r == Some(i as usize),
            None => r is None,
        },
{
    let mut i = pairs.len();
    assert(pairs@.take(i as int) =~= pairs@);
    while i > 0
        invariant
            i <= pairs@.len(),
            lookup_index(pairs@, name@) == lookup_index(pairs@.take(i as int), name@),
        decreases i,
    {
        assert(pairs@.take(i as int).drop_last() =~= pairs@.take(i - 1));
        if str_eq(pairs[i - 1].0.as_str(), name) {
            return Some(i - 1);
        }
        i = i - 1;
    }
    None
}

proof fn lemma_notes_prefix(es: Seq<XmlElement>, k: int)
    requires
        0 <= k <= es.len(),
        notes_read(es.take(k)) is None,
    ensures
        notes_read(es) is None,
    decreases es.len() - k,
{
    if k < es.len() {
        assert(es.take(k + 1).drop_last() =~= es.take(k));
        lemma_notes_prefix(es, k + 1);
    } else {
        assert(es.take(k) =~= es);
    }
}

/// The notes of a MIDI region (`local` within its track), in order.
fn read_notes<G: Fn(&String) -> Option<Level>>(es: &Vec<XmlElement>, local: u16, level: &G) -> (r: Option<Vec<Note>>)
    requires
        forall|t: &String| level.requires((t,)),
    ensures
        notes_read(es@) is None ==> r is None,
        notes_read(es@) is Some && (forall|t: &String, v: Option<Level>| level.ensures((t,), v) ==> v is Some)
            ==> r is Some,
        r matches Some(v) ==> notes_read(es@) matches Some(sh) && v@.len() == sh.len()
            && forall|i: int| 0 <= i < sh.len() ==> {
                let n = #[trigger] v@[i];
                &&& n.id == sh[i].id
                &&& n.r_id == local
                &&& n.note == sh[i].key
                &&& n.t_in == sh[i].t_in
                &&& n.t_out == sh[i].t_out
                &&& level.ensures((&sh[i].vel,), Some(n.vel))
            },
{
    let mut notes: Vec<Note> = Vec::new();
    for i in 0..es.len()
        invariant
            forall|t: &String| level.requires((t,)),
            notes_read(es@.take(i as int)) matches Some(sh) && notes@.len() == sh.len()
                && forall|j: int| 0 <= j < sh.len() ==> {
                    let n = #[trigger] notes@[j];
                    &&& n.id == sh[j].id
                    &&& n.r_id == local
                    &&& n.note == sh[j].key
                    &&& n.t_in == sh[j].t_in
                    &&& n.t_out == sh[j].t_out
                    &&& level.ensures((&sh[j].vel,), Some(n.vel))
                },
    {
        let e = &es[i];
        assert(es@.take(i + 1).drop_last() =~= es@.take(i as int));
        assert(es@.take(i + 1).last() == es@[i as int]);
        let fields = match (e.attr("id"), e.attr("key"), e.attr("vel"), e.attr("t_in"), e.attr("t_out")) {
            (Some(a), Some(b), Some(c), Some(d), Some(f)) => Some((a, b, c, d, f)),
            _ => None,
        };
        let (a, b, c, d, f) = match fields {
            Some(x) => x,
            None => {
                assert(notes_read(es@.take(i + 1)) is None);
                proof { lemma_notes_prefix(es@, i + 1); }
                return None;
            },
        };
        let nums = match (parse_u16(a.as_str()), parse_u16(b.as_str()), parse_u32(d.as_str()), parse_u32(f.as_str())) {
            (Some(id), Some(key), Some(t_in), Some(t_out)) => Some((id, key, t_in, t_out)),
            _ => None,
        };
        let (id, key, t_in, t_out) = match nums {
            Some(x) => x,
            None => {
                assert(notes_read(es@.take(i + 1)) is None);
                proof { lemma_notes_prefix(es@, i + 1); }
                return None;
            },
        };
        let vel = match level(c) {
            Some(v) => v,
            None => return None,
        };
        let ghost sh = notes_read(es@.take(i as int)).unwrap();
        let ghost ns = note_read(es@[i as int]).unwrap();
        assert(notes_read(es@.take(i + 1)) == Some(sh.push(ns)));
        notes.push(Note { id, r_id: local, note: key, vel, t_in, t_out });
    }
    assert(es@.take(es@.len() as int) =~= es@);
    Some(notes)
}

proof fn lemma_audio_prefix(es: Seq<XmlElement>, t: u16, m: Map<u16, AudioRegion>, k: int)
    requires
        0 <= k <= es.len(),
        audio_fold(es.take(k), t, m) is None,
    ensures
        audio_fold(es, t, m) is None,
    decreases es.len() - k,
{
    if k < es.len() {
        assert(es.take(k + 1).drop_last() =~= es.take(k));
        lemma_audio_prefix(es, t, m, k + 1);
    } else {
        assert(es.take(k) =~= es);
    }
}

proof fn lemma_midi_prefix(es: Seq<XmlElement>, t: u16, m: Map<u16, MidiShape>, k: int)
    requires
        0 <= k <= es.len(),
        midi_fold(es.take(k), t, m) is None,
    ensures
        midi_fold(es, t, m) is None,
    decreases es.len() - k,
{
    if k < es.len() {
        assert(es.take(k + 1).drop_last() =~= es.take(k));
        lemma_midi_prefix(es, t, m, k + 1);
    } else {
        assert(es.take(k) =~= es);
    }
}

proof fn lemma_assets_prefix(es: Seq<XmlElement>, k: int)
    requires
        0 <= k <= es.len(),
        assets_read(es.take(k)) is None,
    ensures
        assets_read(es) is None,
    decreases es.len() - k,
{
    if k < es.len() {
        assert(es.take(k + 1).drop_last() =~= es.take(k));
        lemma_assets_prefix(es, k + 1);
    } else {
        assert(es.take(k) =~= es);
    }
}

/// The global id of region `local` of track `t`, if it fits in 16 bits.
fn global_of(t: u16, local: u16) -> (r: Option<u16>)
    ensures
        global_fits(t, local) ==> r == Some(global_id(t, local) as u16),
        !global_fits(t, local) ==> r is None,
{
    assert(REGIONS_PER_TRACK == 100);
    let g: u32 = (t as u32) * 100 + (local as u32);
    if g <= 0xffff { Some(g as u16) } else { None }
}

/// Adds the audio regions of track `t` to `regions`.
fn read_audio(es: &Vec<XmlElement>, t: u16, regions: &mut IdMap<AudioRegion>) -> (ok: bool)
    ensures
        ok == audio_fold(es@, t, old(regions)@) is Some,
        ok ==> final(regions)@ == audio_fold(es@, t, old(regions)@).unwrap(),
{
    let ghost m0 = regions@;
    for i in 0..es.len()
        invariant
            m0 == old(regions)@,
            audio_fold(es@.take(i as int), t, m0) == Some(regions@),
    {
        let e = &es[i];
        assert(es@.take(i + 1).drop_last() =~= es@.take(i as int));
        assert(es@.take(i + 1).last() == es@[i as int]);
        let fields = match (e.attr("id"), e.attr("asset"), e.attr("offset"), e.attr("in"), e.attr("duration")) {
            (Some(a), Some(b), Some(c), Some(d), Some(f)) => Some((a, b, c, d, f)),
            _ => None,
        };
        let region = match fields {
            Some((r, asset, off, a_in, dur)) => match (parse_u16(r.as_str()), parse_u16(asset.as_str()),
                parse_u32(a_in.as_str()), parse_u32(dur.as_str()), parse_u32(off.as_str())) {
                (Some(local), Some(asset_id), Some(asset_in), Some(duration), Some(offset)) =>
                    match global_of(t, local) {
                        Some(g) => Some((g, AudioRegion { asset_id, asset_in, duration, offset, track: t })),
                        None => None,
                    },
                _ => None,
            },
            None => None,
        };
        match region {
            Some((g, r)) => {
                regions.insert(g, r);
            },
            None => {
                assert(audio_fold(es@.take(i + 1), t, m0) is None);
                proof { lemma_audio_prefix(es@, t, m0, i + 1); }
                return false;
            },
        }
    }
    assert(es@.take(es@.len() as int) =~= es@);
    true
}

/// Adds the MIDI regions of track `t` to `midi`, notes and all.
fn read_midi<G: Fn(&String) -> Option<Level>>(
    es: Vec<XmlElement>,
    t: u16,
    midi: &mut IdMap<MidiRegion>,
    level: &G,
    Ghost(shapes): Ghost<Map<u16, MidiShape>>,
) -> (ok: bool)
    requires
        forall|t: &String| level.requires((t,)),
        midi_matches(old(midi)@.map_values(|m: MidiRegion| m@), shapes, *level),
    ensures
        midi_fold(es@, t, shapes) is None ==> !ok,
        midi_fold(es@, t, shapes) is Some && (forall|t: &String, v: Option<Level>| level.ensures((t,), v) ==> v is Some)
            ==> ok,
        ok ==> (midi_fold(es@, t, shapes) matches Some(m2)
            && midi_matches(final(midi)@.map_values(|m: MidiRegion| m@), m2, *level)),
{
    let ghost all = es@;
    let mut left = es;
    let ghost mut k: int = 0;
    while left.len() > 0
        invariant
            all == es@,
            0 <= k <= all.len(),
            left@ == all.skip(k),
            forall|t: &String| level.requires((t,)),
            midi_fold(all.take(k), t, shapes) matches Some(m2)
                && midi_matches(midi@.map_values(|m: MidiRegion| m@), m2, *level),
        decreases left@.len(),
    {
        let mut e = left.remove(0);
        assert(e == all[k]);
        assert(all.take(k + 1).drop_last() =~= all.take(k));
        assert(all.take(k + 1).last() == e);
        let ghost e0 = e;
        let ghost prev = midi_fold(all.take(k), t, shapes).unwrap();
        let notes_els = take_children(&mut e, "note");
        let fields = match (e.attr("id"), e.attr("duration"), e.attr("offset")) {
            (Some(a), Some(b), Some(c)) => match (parse_u16(a.as_str()), parse_u32(b.as_str()), parse_u32(c.as_str())) {
                (Some(local), Some(duration), Some(offset)) => match global_of(t, local) {
                    Some(g) => Some((g, local, duration, offset)),
                    None => None,
                },
                _ => None,
            },
            _ => None,
        };
        let (g, local, duration, offset) = match fields {
            Some(x) => x,
            None => {
                assert(midi_fold(all.take(k + 1), t, shapes) is None);
                proof { lemma_midi_prefix(all, t, shapes, k + 1); }
                return false;
            },
        };
        let notes = match read_notes(&notes_els, local, level) {
            Some(n) => n,
            None => {
                proof {
                    if notes_read(named(e0.children@, "note"@)) is None {
                        assert(midi_fold(all.take(k + 1), t, shapes) is None);
                        lemma_midi_prefix(all, t, shapes, k + 1);
                    }
                }
                return false;
            },
        };
        let ghost sh = midi_read(e0, t).unwrap().1;
        let ghost mv = midi@.map_values(|m: MidiRegion| m@);
        let region = MidiRegion { duration, offset, notes, track: t };
        let ghost rv = region@;
        midi.insert(g, region);
        assert(midi@.map_values(|m: MidiRegion| m@) =~= mv.insert(g, rv));
        assert(midi_matches(mv.insert(g, rv), prev.insert(g, sh), *level)) by {
            assert(mv.insert(g, rv).dom() =~= prev.insert(g, sh).dom());
        }
        proof { k = k + 1; }
    }
    assert(all.skip(k).len() == 0);
    assert(all.take(all.len() as int) =~= all);
    true
}

proof fn lemma_tracks_prefix(ts: Seq<XmlElement>, k: int)
    requires
        0 <= k <= ts.len(),
        tracks_read(ts.take(k)) is None,
    ensures
        tracks_read(ts) is None,
    decreases ts.len() - k,
{
    if k < ts.len() {
        assert(ts.take(k + 1).drop_last() =~= ts.take(k));
        lemma_tracks_prefix(ts, k + 1);
    } else {
        assert(ts.take(k) =~= ts);
    }
}

/// Reads a timeline element into the timeline's state. `whole` reads a
/// parameter's value as a whole number and `level` a note's velocity (both
/// are real numbers in the document). A malformed element gives `None`; so
/// does a value that `whole` or `level` cannot read.
pub fn read<F: Fn(&String) -> Option<u16>, G: Fn(&String) -> Option<Level>>(
    doc: XmlElement,
    whole: &F,
    level: &G,
) -> (r: Option<TimelineState>)
    requires
        forall|t: &String| whole.requires((t,)),
        forall|t: &String| level.requires((t,)),
    ensures
        !timeline_readable(doc) ==> r is None,
        timeline_readable(doc) && readers_total(*whole, *level) ==> r is Some,
        r matches Some(s) ==> timeline_read(doc, *whole, *level, s),
{
    let rest = match param_map(doc) {
        Some(x) => x,
        None => return None,
    };
    let (rest, params) = rest;
    let mut vals: Vec<u16> = Vec::new();
    for i in 0..params.len()
        invariant
            forall|t: &String| whole.requires((t,)),
            vals@.len() == i,
            forall|j: int| 0 <= j < i ==> whole.ensures((&params@[j].1,), Some(#[trigger] vals@[j])),
    {
        match whole(&params[i].1) {
            Some(v) => vals.push(v),
            None => return None,
        }
    }
    proof {
        lemma_lookup_index(params@, "bpm"@);
        lemma_lookup_index(params@, "meter_beat"@);
        lemma_lookup_index(params@, "meter_note"@);
    }
    let tempo = match last_index(&params, "bpm") { Some(i) => vals[i], None => 127 };
    let meter_beat = match last_index(&params, "meter_beat") { Some(i) => vals[i], None => 4 };
    let meter_note = match last_index(&params, "meter_note") { Some(i) => vals[i], None => 4 };
    let (mut rest, marks) = match mark_map(rest) {
        Some(x) => x,
        None => return None,
    };
    let seq_in = match lookup_value(&marks, "seq_in") { Some(v) => *v, None => 0 };
    let seq_out = match lookup_value(&marks, "seq_out") { Some(v) => *v, None => 48000 };
    let loop_in = match lookup_value(&marks, "loop_in") { Some(v) => *v, None => 0 };
    let loop_out = match lookup_value(&marks, "loop_out") { Some(v) => *v, None => 0 };
    let ghost rest0 = rest.children@;
    assert(rest0 == timeline_rest(doc));
    let track_els = take_children(&mut rest, "track");
    let asset_els = take_children(&mut rest, "asset");
    proof {
        reveal_strlit("track");
        reveal_strlit("asset");
        assert("track"@[0] != "asset"@[0]);
        lemma_named_unnamed(rest0, "track"@, "asset"@);
    }
    let ghost ts = track_els@;
    let mut tracks: IdMap<Track> = IdMap::new();
    let mut regions: IdMap<AudioRegion> = IdMap::new();
    let mut midi: IdMap<MidiRegion> = IdMap::new();
    assert(midi@.map_values(|m: MidiRegion| m@) =~= Map::<u16, MidiRegionView>::empty());
    let mut left = track_els;
    let mut counter: u16 = 0;
    while left.len() > 0
        invariant
            forall|t: &String| level.requires((t,)),
            counter <= ts.len(),
            left@ == ts.skip(counter as int),
            ts == named(timeline_rest(doc), "track"@),
            pairs_of(named(doc.children@, "param"@)) is Some,
            marks_of(named(unnamed(doc.children@, "param"@), "mark"@)) is Some,
            tracks_read(ts.take(counter as int)) matches Some(tr) && tracks@ == tr.tracks && regions@ == tr.regions
                && midi_matches(midi@.map_values(|m: MidiRegion| m@), tr.midi, *level),
        decreases left@.len(),
    {
        if counter == 0xffff {
            return None;
        }
        let mut e = left.remove(0);
        let ghost k = counter as int;
        assert(e == ts[k]);
        assert(ts.take(k + 1).drop_last() =~= ts.take(k));
        assert(ts.take(k + 1).last() == e);
        let ghost e0 = e;
        let ghost prev = tracks_read(ts.take(k)).unwrap();
        let id = match e.attr("id") {
            Some(t) => parse_u16(t.as_str()),
            None => None,
        };
        let id = match id {
            Some(i) => i,
            None => {
                assert(tracks_read(ts.take(k + 1)) is None);
                proof { lemma_tracks_prefix(ts, k + 1); }
                return None;
            },
        };
        let audio_els = take_children(&mut e, "audio");
        let midi_els = take_children(&mut e, "midi");
        proof {
            reveal_strlit("audio");
            reveal_strlit("midi");
            assert("audio"@.len() != "midi"@.len());
            lemma_named_unnamed(e0.children@, "audio"@, "midi"@);
        }
        if !read_audio(&audio_els, id, &mut regions) {
            assert(tracks_read(ts.take(k + 1)) is None);
            proof { lemma_tracks_prefix(ts, k + 1); }
            return None;
        }
        if !read_midi(midi_els, id, &mut midi, level, Ghost(prev.midi)) {
            proof {
                if midi_fold(named(e0.children@, "midi"@), id, prev.midi) is None {
                    assert(tracks_read(ts.take(k + 1)) is None);
                    lemma_tracks_prefix(ts, k + 1);
                }
            }
            return None;
        }
        tracks.insert(id, Track { id, record: 0, mute: false, solo: false, monitor: true, index: counter });
        counter = counter + 1;
    }
    assert(ts.skip(counter as int).len() == 0);
    assert(ts.take(ts.len() as int) =~= ts);
    let mut assets: IdMap<Asset> = IdMap::new();
    let ghost es = asset_els@;
    assert(assets@.map_values(|a: Asset| a@) =~= Map::<u16, AssetView>::empty());
    for i in 0..asset_els.len()
        invariant
            es == asset_els@,
            es == named(timeline_rest(doc), "asset"@),
            assets_read(es.take(i as int)) == Some(assets@.map_values(|a: Asset| a@)),
    {
        let e = &asset_els[i];
        assert(es.take(i + 1).drop_last() =~= es.take(i as int));
        assert(es.take(i + 1).last() == es[i as int]);
        let asset = match (e.attr("id"), e.attr("size"), e.attr("src")) {
            (Some(a), Some(b), Some(c)) => match (parse_u16(a.as_str()), parse_u32(b.as_str())) {
                (Some(id), Some(duration)) => Some((id, Asset { src: c.clone(), duration, channels: 2, waveform: Vec::new() })),
                _ => None,
            },
            _ => None,
        };
        match asset {
            Some((id, a)) => {
                let ghost av = assets@.map_values(|a: Asset| a@);
                let ghost v = a@;
                assert(v.waveform =~= Seq::<(u8, u8)>::empty());
                assets.insert(id, a);
                assert(assets@.map_values(|a: Asset| a@) =~= av.insert(id, v));
            },
            None => {
                assert(assets_read(es.take(i + 1)) is None);
                proof { lemma_assets_prefix(es, i + 1); }
                return None;
            },
        }
    }
    assert(es.take(es.len() as int) =~= es);
    Some(TimelineState {
        tempo,
        zoom: 1,
        temp_tempo: None,
        temp_zoom: None,
        meter_beat,
        meter_note,
        loop_mode: false,
        seq_in,
        seq_out,
        loop_in,
        loop_out,
        sample_rate: 48000,
        tracks,
        assets,
        regions,
        midi_regions: midi,
        tick: true,
        playhead: 0,
        scroll_mid: 0,
        scroll_x: 0,
        scroll_y: 0,
        focus: (0, 0),
    })
}

/// `e` is a `name` element (`param` or `mark`) naming `key` with this numeric value.
pub open spec fn named_value(e: XmlElement, name: Seq<char>, key: Seq<char>, value: nat) -> bool {
    &&& e.name@ == name
    &&& e.attributes@.len() == 2
    &&& attr_is(e.attributes@, 0, "name"@, key)
    &&& attr_is(e.attributes@, 1, "value"@, decimal(value))
    &&& e.children@.len() == 0
    &&& e.text is None
}

/// `e` is the element written for asset `id`.
pub open spec fn asset_element(e: XmlElement, id: u16, a: AssetView) -> bool {
    &&& e.name@ == "asset"@
    &&& e.attributes@.len() == 3
    &&& attr_is(e.attributes@, 0, "id"@, decimal(id as nat))
    &&& attr_is(e.attributes@, 1, "size"@, decimal(a.duration as nat))
    &&& attr_is(e.attributes@, 2, "src"@, a.src)
    &&& e.children@.len() == 0
    &&& e.text is None
}

/// A region whose track is the one its global id names.
pub open spec fn in_own_track(id: u16, track: u16) -> bool {
    track == id / REGIONS_PER_TRACK
}

/// The audio regions, in id order, whose track matches their global id.
pub open spec fn own_audio(es: Seq<(u16, AudioRegion)>) -> Seq<(u16, AudioRegion)> {
    es.filter(|e: (u16, AudioRegion)| in_own_track(e.0, e.1.track))
}

/// The MIDI regions, in id order, whose track matches their global id.
pub open spec fn own_midi(es: Seq<(u16, MidiRegion)>) -> Seq<(u16, MidiRegion)> {
    es.filter(|e: (u16, MidiRegion)| in_own_track(e.0, e.1.track))
}

/// `e` is the element written for audio region `id`: its id within its track.
pub open spec fn audio_element(e: XmlElement, id: u16, r: AudioRegion) -> bool {
    &&& e.name@ == "audio"@
    &&& e.attributes@.len() == 5
    &&& attr_is(e.attributes@, 0, "id"@, decimal((id % REGIONS_PER_TRACK) as nat))
    &&& attr_is(e.attributes@, 1, "asset"@, decimal(r.asset_id as nat))
    &&& attr_is(e.attributes@, 2, "in"@, decimal(r.asset_in as nat))
    &&& attr_is(e.attributes@, 3, "duration"@, decimal(r.duration as nat))
    &&& attr_is(e.attributes@, 4, "offset"@, decimal(r.offset as nat))
    &&& e.children@.len() == 0
    &&& e.text is None
}

/// `e` is the element written for a note, its velocity written by `vel_text`.
pub open spec fn note_element<H: Fn(Level) -> String>(e: XmlElement, n: Note, vel_text: H) -> bool {
    &&& e.name@ == "note"@
    &&& e.attributes@.len() == 5
    &&& attr_is(e.attributes@, 0, "id"@, decimal(n.id as nat))
    &&& attr_is(e.attributes@, 1, "key"@, decimal(n.note as nat))
    &&& e.attributes@[2].0@ == "vel"@ && vel_text.ensures((n.vel,), e.attributes@[2].1)
    &&& attr_is(e.attributes@, 3, "t_in"@, decimal(n.t_in as nat))
    &&& attr_is(e.attributes@, 4, "t_out"@, decimal(n.t_out as nat))
    &&& e.children@.len() == 0
    &&& e.text is None
}

/// `e` is the element written for MIDI region `id` and its notes.
pub open spec fn midi_element<H: Fn(Level) -> String>(e: XmlElement, id: u16, r: MidiRegion, vel_text: H) -> bool {
    &&& e.name@ == "midi"@
    &&& e.attributes@.len() == 3
    &&& attr_is(e.attributes@, 0, "id"@, decimal((id % REGIONS_PER_TRACK) as nat))
    &&& attr_is(e.attributes@, 1, "offset"@, decimal(r.offset as nat))
    &&& attr_is(e.attributes@, 2, "duration"@, decimal(r.duration as nat))
    &&& e.children@.len() == r.notes@.len()
    &&& forall|i: int| 0 <= i < r.notes@.len() ==> note_element(#[trigger] e.children@[i], r.notes@[i], vel_text)
    &&& e.text is None
}

/// `e` is the element written for track `id`: every audio region, then
/// every MIDI region, whose track matches its global id.
pub open spec fn track_element<H: Fn(Level) -> String>(
    e: XmlElement, id: u16, audio: Seq<(u16, AudioRegion)>, midi: Seq<(u16, MidiRegion)>, vel_text: H,
) -> bool {
    let a = own_audio(audio);
    let m = own_midi(midi);
    &&& e.name@ == "track"@
    &&& e.attributes@.len() == 1
    &&& attr_is(e.attributes@, 0, "id"@, decimal(id as nat))
    &&& e.children@.len() == a.len() + m.len()
    &&& forall|i: int| 0 <= i < a.len() ==> audio_element(#[trigger] e.children@[i], a[i].0, a[i].1)
    &&& forall|i: int| 0 <= i < m.len() ==> midi_element(#[trigger] e.children@[a.len() + i], m[i].0, m[i].1, vel_text)
    &&& e.text is None
}

/// A `name` element naming `key` with this numeric value.
fn value_element(name: &str, key: &str, value: u32) -> (e: XmlElement)
    ensures
        named_value(e, name@, key@, value as nat),
{
    let mut attributes: Vec<(String, String)> = Vec::new();
    attributes.push((owned("name"), owned(key)));
    attributes.push((owned("value"), u32_to_string(value)));
    XmlElement { name: owned(name), attributes, children: Vec::new(), text: None }
}

/// The element written for an audio region.
fn write_audio(id: u16, r: &AudioRegion) -> (e: XmlElement)
    ensures
        audio_element(e, id, *r),
{
    assert(REGIONS_PER_TRACK == 100);
    let mut attributes: Vec<(String, String)> = Vec::new();
    attributes.push((owned("id"), u32_to_string((id % 100) as u32)));
    attributes.push((owned("asset"), u32_to_string(r.asset_id as u32)));
    attributes.push((owned("in"), u32_to_string(r.asset_in)));
    attributes.push((owned("duration"), u32_to_string(r.duration)));
    attributes.push((owned("offset"), u32_to_string(r.offset)));
    XmlElement { name: owned("audio"), attributes, children: Vec::new(), text: None }
}

/// The element written for a MIDI region.
fn write_midi<H: Fn(Level) -> String>(id: u16, r: &MidiRegion, vel_text: &H) -> (e: XmlElement)
    requires
        forall|v: Level| vel_text.requires((v,)),
    ensures
        midi_element(e, id, *r, *vel_text),
{
    assert(REGIONS_PER_TRACK == 100);
    let mut attributes: Vec<(String, String)> = Vec::new();
    attributes.push((owned("id"), u32_to_string((id % 100) as u32)));
    attributes.push((owned("offset"), u32_to_string(r.offset)));
    attributes.push((owned("duration"), u32_to_string(r.duration)));
    let mut children: Vec<XmlElement> = Vec::new();
    for i in 0..r.notes.len()
        invariant
            forall|v: Level| vel_text.requires((v,)),
            children@.len() == i,
            forall|j: int| 0 <= j < i ==> note_element(#[trigger] children@[j], r.notes@[j], *vel_text),
    {
        let n = r.notes[i];
        let mut na: Vec<(String, String)> = Vec::new();
        na.push((owned("id"), u32_to_string(n.id as u32)));
        na.push((owned("key"), u32_to_string(n.note as u32)));
        na.push((owned("vel"), vel_text(n.vel)));
        na.push((owned("t_in"), u32_to_string(n.t_in)));
        na.push((owned("t_out"), u32_to_string(n.t_out)));
        children.push(XmlElement { name: owned("note"), attributes: na, children: Vec::new(), text: None });
    }
    XmlElement { name: owned("midi"), attributes, children, text: None }
}

/// The element written for a track.
fn write_track<H: Fn(Level) -> String>(
    id: u16,
    audio: &Vec<(u16, AudioRegion)>,
    midi: &Vec<(u16, MidiRegion)>,
    vel_text: &H,
) -> (e: XmlElement)
    requires
        forall|v: Level| vel_text.requires((v,)),
    ensures
        track_element(e, id, audio@, midi@, *vel_text),
{
    assert(REGIONS_PER_TRACK == 100);
    let mut attributes: Vec<(String, String)> = Vec::new();
    attributes.push((owned("id"), u32_to_string(id as u32)));
    let mut children: Vec<XmlElement> = Vec::new();
    for i in 0..audio.len()
        invariant
            children@.len() == own_audio(audio@.take(i as int)).len(),
            forall|j: int| 0 <= j < children@.len() ==> audio_element(#[trigger] children@[j],
                own_audio(audio@.take(i as int))[j].0, own_audio(audio@.take(i as int))[j].1),
    {
        let (r_id, region) = audio[i];
        let ghost pre = audio@.take(i as int);
        assert(audio@.take(i + 1) =~= pre.push(audio@[i as int]));
        proof { lemma_filter_push(pre, audio@[i as int], |e: (u16, AudioRegion)| in_own_track(e.0, e.1.track)); }
        if region.track == r_id / 100 {
            children.push(write_audio(r_id, &region));
        }
    }
    assert(audio@.take(audio@.len() as int) =~= audio@);
    let ghost na = children@.len();
    for i in 0..midi.len()
        invariant
            forall|v: Level| vel_text.requires((v,)),
            na == own_audio(audio@).len(),
            children@.len() == na + own_midi(midi@.take(i as int)).len(),
            forall|j: int| 0 <= j < na ==> audio_element(#[trigger] children@[j],
                own_audio(audio@)[j].0, own_audio(audio@)[j].1),
            forall|j: int| 0 <= j < own_midi(midi@.take(i as int)).len() ==> midi_element(#[trigger] children@[na + j],
                own_midi(midi@.take(i as int))[j].0, own_midi(midi@.take(i as int))[j].1, *vel_text),
    {
        let r_id = midi[i].0;
        let region = &midi[i].1;
        let ghost pre = midi@.take(i as int);
        assert(midi@.take(i + 1) =~= pre.push(midi@[i as int]));
        proof { lemma_filter_push(pre, midi@[i as int], |e: (u16, MidiRegion)| in_own_track(e.0, e.1.track)); }
        if region.track == r_id / 100 {
            children.push(write_midi(r_id, region, vel_text));
        }
    }
    assert(midi@.take(midi@.len() as int) =~= midi@);
    XmlElement { name: owned("track"), attributes, children, text: None }
}

proof fn lemma_filter_push<A>(s: Seq<A>, x: A, p: spec_fn(A) -> bool)
    ensures
        s.push(x).filter(p) == if p(x) { s.filter(p).push(x) } else { s.filter(p) },
{
    reveal(Seq::filter);
    assert(s.push(x).drop_last() =~= s);
}

/// `r` is the timeline element written for this state; see `write`.
pub open spec fn timeline_written<H: Fn(Level) -> String>(state: TimelineState, vel_text: H, r: XmlElement) -> bool {
    &&& r.name@ == "timeline"@
    &&& r.attributes@.len() == 0
    &&& r.text is None
    &&& r.children@.len() == 7 + state.assets.seq().len() + state.tracks.seq().len()
    &&& named_value(r.children@[0], "param"@, "bpm"@, state.tempo as nat)
    &&& named_value(r.children@[1], "param"@, "meter_beat"@, state.meter_beat as nat)
    &&& named_value(r.children@[2], "param"@, "meter_note"@, state.meter_note as nat)
    &&& named_value(r.children@[3], "mark"@, "seq_in"@, state.seq_in as nat)
    &&& named_value(r.children@[4], "mark"@, "seq_out"@, state.seq_out as nat)
    &&& named_value(r.children@[5], "mark"@, "loop_in"@, state.loop_in as nat)
    &&& named_value(r.children@[6], "mark"@, "loop_out"@, state.loop_out as nat)
    &&& forall|i: int| 0 <= i < state.assets.seq().len() ==> asset_element(#[trigger] r.children@[7 + i],
        state.assets.seq()[i].0, state.assets.seq()[i].1@)
    &&& forall|i: int| 0 <= i < state.tracks.seq().len() ==> track_element(
        #[trigger] r.children@[7 + state.assets.seq().len() + i], state.tracks.seq()[i].0,
        state.regions.seq(), state.midi_regions.seq(), vel_text)
}

/// Writes the timeline's state as a timeline element: tempo and meter
/// parameters, the sequence and loop marks, the assets in id order, then
/// the tracks in id order. Every track element lists every audio and MIDI
/// region whose track is the one its global id names; `vel_text` writes a
/// note's velocity.
pub fn write<H: Fn(Level) -> String>(state: &TimelineState, vel_text: &H) -> (r: XmlElement)
    requires
        forall|v: Level| vel_text.requires((v,)),
    ensures
        timeline_written(*state, *vel_text, r),
{
    let mut children: Vec<XmlElement> = Vec::new();
    children.push(value_element("param", "bpm", state.tempo as u32));
    children.push(value_element("param", "meter_beat", state.meter_beat as u32));
    children.push(value_element("param", "meter_note", state.meter_note as u32));
    children.push(value_element("mark", "seq_in", state.seq_in));
    children.push(value_element("mark", "seq_out", state.seq_out));
    children.push(value_element("mark", "loop_in", state.loop_in));
    children.push(value_element("mark", "loop_out", state.loop_out));
    let assets = state.assets.entries();
    for i in 0..assets.len()
        invariant
            assets@ == state.assets.seq(),
            children@.len() == 7 + i,
            named_value(children@[0], "param"@, "bpm"@, state.tempo as nat),
            named_value(children@[1], "param"@, "meter_beat"@, state.meter_beat as nat),
            named_value(children@[2], "param"@, "meter_note"@, state.meter_note as nat),
            named_value(children@[3], "mark"@, "seq_in"@, state.seq_in as nat),
            named_value(children@[4], "mark"@, "seq_out"@, state.seq_out as nat),
            named_value(children@[5], "mark"@, "loop_in"@, state.loop_in as nat),
            named_value(children@[6], "mark"@, "loop_out"@, state.loop_out as nat),
            forall|j: int| 0 <= j < i ==> asset_element(#[trigger] children@[7 + j], assets@[j].0, assets@[j].1@),
    {
        let a = &assets[i].1;
        let mut attributes: Vec<(String, String)> = Vec::new();
        attributes.push((owned("id"), u32_to_string(assets[i].0 as u32)));
        attributes.push((owned("size"), u32_to_string(a.duration)));
        attributes.push((owned("src"), a.src.clone()));
        children.push(XmlElement { name: owned("asset"), attributes, children: Vec::new(), text: None });
    }
    let tracks = state.tracks.entries();
    let regions = state.regions.entries();
    let midi = state.midi_regions.entries();
    let na = assets.len();
    for i in 0..tracks.len()
        invariant
            forall|v: Level| vel_text.requires((v,)),
            assets@ == state.assets.seq(),
            tracks@ == state.tracks.seq(),
            regions@ == state.regions.seq(),
            midi@ == state.midi_regions.seq(),
            na == assets@.len(),
            children@.len() == 7 + na + i,
            named_value(children@[0], "param"@, "bpm"@, state.tempo as nat),
            named_value(children@[1], "param"@, "meter_beat"@, state.meter_beat as nat),
            named_value(children@[2], "param"@, "meter_note"@, state.meter_note as nat),
            named_value(children@[3], "mark"@, "seq_in"@, state.seq_in as nat),
            named_value(children@[4], "mark"@, "seq_out"@, state.seq_out as nat),
            named_value(children@[5], "mark"@, "loop_in"@, state.loop_in as nat),
            named_value(children@[6], "mark"@, "loop_out"@, state.loop_out as nat),
            forall|j: int| 0 <= j < na ==> asset_element(#[trigger] children@[7 + j], assets@[j].0, assets@[j].1@),
            forall|j: int| 0 <= j < i ==> track_element(#[trigger] children@[7 + na + j], tracks@[j].0,
                regions@, midi@, *vel_text),
    {
        children.push(write_track(tracks[i].0, regions, midi, vel_text));
    }
    XmlElement { name: owned("timeline"), attributes: Vec::new(), children, text: None }
}

/// An asset as reading gives it back: its source and length, two
/// channels, and no sketch yet.
pub open spec fn asset_read_back(a: Asset) -> AssetView {
    AssetView { src: a.src@, duration: a.duration, channels: 2, waveform: Seq::empty() }
}

/// The assets reading gives back for assets written in this order.
pub open spec fn assets_back(es: Seq<(u16, Asset)>) -> Map<u16, AssetView>
    decreases es.len(),
{
    if es.len() == 0 {
        Map::empty()
    } else {
        assets_back(es.drop_last()).insert(es.last().0, asset_read_back(es.last().1))
    }
}

proof fn lemma_as_map_push<V>(es: Seq<(u16, V)>)
    requires
        keys_increasing(es),
        es.len() > 0,
    ensures
        as_map(es) == as_map(es.drop_last()).insert(es.last().0, es.last().1),
{
    let d = es.drop_last();
    assert(keys_increasing(d));
    let n = es.len() - 1;
    lemma_key_index(es, n);
    assert forall|k: u16| #[trigger] as_map(es).contains_key(k) <==> as_map(d).insert(es.last().0, es.last().1).contains_key(k) by {
        if has_key(es, k) && k != es.last().0 {
            let j = key_index(es, k);
            assert(0 <= j < n && d[j].0 == k);
        }
        if has_key(d, k) {
            let j = key_index(d, k);
            assert(es[j].0 == k);
        }
    }
    assert forall|k: u16| #[trigger] as_map(es).contains_key(k) implies as_map(es)[k] == as_map(d).insert(es.last().0, es.last().1)[k] by {
        if k != es.last().0 {
            let j = key_index(es, k);
            assert(0 <= j < n && d[j] == es[j]);
            lemma_key_index(es, j);
            lemma_key_index(d, j);
        }
    }
    assert(as_map(es) =~= as_map(d).insert(es.last().0, es.last().1));
}

proof fn lemma_assets_back_map(es: Seq<(u16, Asset)>)
    requires
        keys_increasing(es),
    ensures
        assets_back(es) == as_map(es).map_values(|a: Asset| asset_read_back(a)),
    decreases es.len(),
{
    if es.len() == 0 {
        assert(as_map(es).map_values(|a: Asset| asset_read_back(a)) =~= Map::<u16, AssetView>::empty());
    } else {
        let d = es.drop_last();
        assert(keys_increasing(d));
        lemma_assets_back_map(d);
        lemma_as_map_push(es);
        assert(as_map(es).map_values(|a: Asset| asset_read_back(a)) =~=
            as_map(d).map_values(|a: Asset| asset_read_back(a)).insert(es.last().0, asset_read_back(es.last().1)));
    }
}

proof fn lemma_asset_read(e: XmlElement, id: u16, a: Asset)
    requires
        asset_element(e, id, a@),
    ensures
        asset_read(e) == Some((id, asset_read_back(a))),
{
    reveal_strlit("id");
    reveal_strlit("size");
    reveal_strlit("src");
    let at = e.attributes@;
    assert("id"@ != "size"@) by { assert("id"@.len() != "size"@.len()); }
    assert("id"@ != "src"@) by { assert("id"@.len() != "src"@.len()); }
    assert("size"@ != "src"@) by { assert("size"@.len() != "src"@.len()); }
    assert(at.drop_first()[0] == at[1]);
    assert(at.drop_first().drop_first()[0] == at[2]);
    assert(attr_value(at.drop_first().drop_first(), "src"@) == Some(at[2].1));
    assert(attr_value(at.drop_first(), "src"@) == Some(at[2].1));
    assert(attr_value(at.drop_first(), "size"@) == Some(at[1].1));
    crate::text::law_decimal_read_back(id as nat);
    crate::text::law_decimal_read_back(a.duration as nat);
}

proof fn lemma_assets_read(xs: Seq<XmlElement>, es: Seq<(u16, Asset)>)
    requires
        xs.len() == es.len(),
        forall|i: int| 0 <= i < es.len() ==> asset_element(#[trigger] xs[i], es[i].0, es[i].1@),
    ensures
        assets_read(xs) == Some(assets_back(es)),
    decreases xs.len(),
{
    if xs.len() > 0 {
        lemma_assets_read(xs.drop_last(), es.drop_last());
        assert(asset_element(xs.last(), es.last().0, es.last().1@));
        lemma_asset_read(xs.last(), es.last().0, es.last().1);
    }
}

proof fn lemma_value_pair(e: XmlElement, name: Seq<char>, key: Seq<char>, value: nat)
    requires
        named_value(e, name, key, value),
    ensures
        attr_value(e.attributes@, "name"@) == Some(e.attributes@[0].1),
        attr_value(e.attributes@, "value"@) == Some(e.attributes@[1].1),
{
    reveal_strlit("name");
    reveal_strlit("value");
    assert("name"@ != "value"@) by { assert("name"@.len() != "value"@.len()); }
    assert(e.attributes@.drop_first()[0] == e.attributes@[1]);
    assert(attr_value(e.attributes@.drop_first(), "value"@) == Some(e.attributes@[1].1));
}

/// Every track id, read as the track a written region is read under, keeps
/// that region's global id within 16 bits: each region is written under
/// every track.
pub open spec fn regions_fit_tracks(state: TimelineState) -> bool {
    let ts = state.tracks.seq();
    let a = own_audio(state.regions.seq());
    let m = own_midi(state.midi_regions.seq());
    &&& forall|i: int, j: int| 0 <= i < ts.len() && 0 <= j < a.len()
        ==> global_fits(#[trigger] ts[i].0, (#[trigger] a[j].0 % REGIONS_PER_TRACK) as u16)
    &&& forall|i: int, j: int| 0 <= i < ts.len() && 0 <= j < m.len()
        ==> global_fits(#[trigger] ts[i].0, (#[trigger] m[j].0 % REGIONS_PER_TRACK) as u16)
}

proof fn lemma_audio_read(e: XmlElement, id: u16, r: AudioRegion, t: u16)
    requires
        audio_element(e, id, r),
        global_fits(t, (id % REGIONS_PER_TRACK) as u16),
    ensures
        audio_read(e, t) is Some,
{
    reveal_strlit("id");
    reveal_strlit("asset");
    reveal_strlit("in");
    reveal_strlit("duration");
    reveal_strlit("offset");
    let at = e.attributes@;
    assert("asset"@ != "id"@) by { assert("asset"@.len() != "id"@.len()); }
    assert("in"@ != "id"@) by { assert("in"@[1] != "id"@[1]); }
    assert("in"@ != "asset"@) by { assert("in"@.len() != "asset"@.len()); }
    assert("duration"@ != "id"@) by { assert("duration"@.len() != "id"@.len()); }
    assert("duration"@ != "asset"@) by { assert("duration"@.len() != "asset"@.len()); }
    assert("duration"@ != "in"@) by { assert("duration"@.len() != "in"@.len()); }
    assert("offset"@ != "id"@) by { assert("offset"@.len() != "id"@.len()); }
    assert("offset"@ != "asset"@) by { assert("offset"@.len() != "asset"@.len()); }
    assert("offset"@ != "in"@) by { assert("offset"@.len() != "in"@.len()); }
    assert("offset"@ != "duration"@) by { assert("offset"@.len() != "duration"@.len()); }
    lemma_attr_prefix(at, "id"@, 0);
    lemma_attr_prefix(at, "asset"@, 1);
    lemma_attr_prefix(at, "in"@, 2);
    lemma_attr_prefix(at, "duration"@, 3);
    lemma_attr_prefix(at, "offset"@, 4);
    crate::text::law_decimal_read_back((id % REGIONS_PER_TRACK) as nat);
    crate::text::law_decimal_read_back(r.asset_id as nat);
    crate::text::law_decimal_read_back(r.asset_in as nat);
    crate::text::law_decimal_read_back(r.duration as nat);
    crate::text::law_decimal_read_back(r.offset as nat);
}

proof fn lemma_note_read<H: Fn(Level) -> String>(e: XmlElement, n: Note, vel_text: H)
    requires
        note_element(e, n, vel_text),
    ensures
        note_read(e) is Some,
{
    reveal_strlit("id");
    reveal_strlit("key");
    reveal_strlit("vel");
    reveal_strlit("t_in");
    reveal_strlit("t_out");
    let at = e.attributes@;
    assert("key"@ != "id"@) by { assert("key"@.len() != "id"@.len()); }
    assert("vel"@ != "id"@) by { assert("vel"@.len() != "id"@.len()); }
    assert("vel"@ != "key"@) by { assert("vel"@[0] != "key"@[0]); }
    assert("t_in"@ != "id"@) by { assert("t_in"@.len() != "id"@.len()); }
    assert("t_in"@ != "key"@) by { assert("t_in"@.len() != "key"@.len()); }
    assert("t_in"@ != "vel"@) by { assert("t_in"@.len() != "vel"@.len()); }
    assert("t_out"@ != "id"@) by { assert("t_out"@.len() != "id"@.len()); }
    assert("t_out"@ != "key"@) by { assert("t_out"@.len() != "key"@.len()); }
    assert("t_out"@ != "vel"@) by { assert("t_out"@.len() != "vel"@.len()); }
    assert("t_out"@ != "t_in"@) by { assert("t_out"@.len() != "t_in"@.len()); }
    lemma_attr_prefix(at, "id"@, 0);
    lemma_attr_prefix(at, "key"@, 1);
    lemma_attr_prefix(at, "vel"@, 2);
    lemma_attr_prefix(at, "t_in"@, 3);
    lemma_attr_prefix(at, "t_out"@, 4);
    crate::text::law_decimal_read_back(n.id as nat);
    crate::text::law_decimal_read_back(n.note as nat);
    crate::text::law_decimal_read_back(n.t_in as nat);
    crate::text::law_decimal_read_back(n.t_out as nat);
}

proof fn lemma_notes_read<H: Fn(Level) -> String>(es: Seq<XmlElement>, ns: Seq<Note>, vel_text: H)
    requires
        es.len() == ns.len(),
        forall|i: int| 0 <= i < es.len() ==> note_element(#[trigger] es[i], ns[i], vel_text),
    ensures
        notes_read(es) is Some,
    decreases es.len(),
{
    if es.len() > 0 {
        lemma_notes_read(es.drop_last(), ns.drop_last(), vel_text);
        assert(note_element(es[es.len() - 1], ns[ns.len() - 1], vel_text));
        lemma_note_read(es.last(), ns.last(), vel_text);
    }
}

proof fn lemma_midi_read<H: Fn(Level) -> String>(e: XmlElement, id: u16, r: MidiRegion, vel_text: H, t: u16)
    requires
        midi_element(e, id, r, vel_text),
        global_fits(t, (id % REGIONS_PER_TRACK) as u16),
    ensures
        midi_read(e, t) is Some,
{
    reveal_strlit("id");
    reveal_strlit("offset");
    reveal_strlit("duration");
    reveal_strlit("note");
    reveal_strlit("midi");
    let at = e.attributes@;
    let ch = e.children@;
    assert("offset"@ != "id"@) by { assert("offset"@.len() != "id"@.len()); }
    assert("duration"@ != "id"@) by { assert("duration"@.len() != "id"@.len()); }
    assert("duration"@ != "offset"@) by { assert("duration"@.len() != "offset"@.len()); }
    lemma_attr_prefix(at, "id"@, 0);
    lemma_attr_prefix(at, "offset"@, 1);
    lemma_attr_prefix(at, "duration"@, 2);
    crate::text::law_decimal_read_back((id % REGIONS_PER_TRACK) as nat);
    crate::text::law_decimal_read_back(r.offset as nat);
    crate::text::law_decimal_read_back(r.duration as nat);
    assert forall|i: int| 0 <= i < ch.len() implies (#[trigger] ch[i]).name@ == "note"@ by {
        assert(note_element(ch[i], r.notes@[i], vel_text));
    }
    assert("note"@ != "midi"@) by { assert("note"@[0] != "midi"@[0]); }
    lemma_all_named(ch, "note"@, "midi"@);
    lemma_notes_read(ch, r.notes@, vel_text);
}

proof fn lemma_audio_fold(es: Seq<XmlElement>, rs: Seq<(u16, AudioRegion)>, t: u16, m: Map<u16, AudioRegion>)
    requires
        es.len() == rs.len(),
        forall|i: int| 0 <= i < es.len() ==> audio_element(#[trigger] es[i], rs[i].0, rs[i].1),
        forall|i: int| 0 <= i < rs.len() ==> global_fits(t, (#[trigger] rs[i].0 % REGIONS_PER_TRACK) as u16),
    ensures
        audio_fold(es, t, m) is Some,
    decreases es.len(),
{
    if es.len() > 0 {
        lemma_audio_fold(es.drop_last(), rs.drop_last(), t, m);
        let k = es.len() - 1;
        assert(audio_element(es[k], rs[k].0, rs[k].1));
        assert(global_fits(t, (rs[k].0 % REGIONS_PER_TRACK) as u16));
        lemma_audio_read(es.last(), rs[k].0, rs[k].1, t);
    }
}

proof fn lemma_midi_fold<H: Fn(Level) -> String>(
    es: Seq<XmlElement>, rs: Seq<(u16, MidiRegion)>, vel_text: H, t: u16, m: Map<u16, MidiShape>,
)
    requires
        es.len() == rs.len(),
        forall|i: int| 0 <= i < es.len() ==> midi_element(#[trigger] es[i], rs[i].0, rs[i].1, vel_text),
        forall|i: int| 0 <= i < rs.len() ==> global_fits(t, (#[trigger] rs[i].0 % REGIONS_PER_TRACK) as u16),
    ensures
        midi_fold(es, t, m) is Some,
    decreases es.len(),
{
    if es.len() > 0 {
        lemma_midi_fold(es.drop_last(), rs.drop_last(), vel_text, t, m);
        let k = es.len() - 1;
        assert(midi_element(es[k], rs[k].0, rs[k].1, vel_text));
        assert(global_fits(t, (rs[k].0 % REGIONS_PER_TRACK) as u16));
        lemma_midi_read(es.last(), rs[k].0, rs[k].1, vel_text, t);
    }
}

proof fn lemma_track_read<H: Fn(Level) -> String>(
    e: XmlElement, id: u16, audio: Seq<(u16, AudioRegion)>, midi: Seq<(u16, MidiRegion)>, vel_text: H,
    index: u16, prev: TracksRead,
)
    requires
        track_element(e, id, audio, midi, vel_text),
        forall|j: int| 0 <= j < own_audio(audio).len() ==> global_fits(id, (#[trigger] own_audio(audio)[j].0 % REGIONS_PER_TRACK) as u16),
        forall|j: int| 0 <= j < own_midi(midi).len() ==> global_fits(id, (#[trigger] own_midi(midi)[j].0 % REGIONS_PER_TRACK) as u16),
    ensures
        track_read(e, index, prev) matches Some(tr) && tr.tracks == prev.tracks.insert(id, new_track(id, index)),
{
    reveal_strlit("id");
    reveal_strlit("audio");
    reveal_strlit("midi");
    let a = own_audio(audio);
    let m = own_midi(midi);
    let ch = e.children@;
    let ca = ch.subrange(0, a.len() as int);
    let cm = ch.subrange(a.len() as int, ch.len() as int);
    assert(ch =~= ca + cm);
    assert forall|i: int| 0 <= i < ca.len() implies audio_element(#[trigger] ca[i], a[i].0, a[i].1) by {
        assert(ca[i] == ch[i]);
    }
    assert forall|i: int| 0 <= i < cm.len() implies midi_element(#[trigger] cm[i], m[i].0, m[i].1, vel_text) by {
        assert(cm[i] == ch[a.len() + i]);
    }
    assert forall|i: int| 0 <= i < ca.len() implies (#[trigger] ca[i]).name@ == "audio"@ by {
        assert(audio_element(ca[i], a[i].0, a[i].1));
    }
    assert forall|i: int| 0 <= i < cm.len() implies (#[trigger] cm[i]).name@ == "midi"@ by {
        assert(midi_element(cm[i], m[i].0, m[i].1, vel_text));
    }
    assert("audio"@ != "midi"@) by { assert("audio"@.len() != "midi"@.len()); }
    lemma_all_named(ca, "audio"@, "midi"@);
    lemma_all_named(cm, "midi"@, "audio"@);
    lemma_named_concat(ca, cm, "audio"@);
    lemma_named_concat(ca, cm, "midi"@);
    assert(named(ch, "audio"@) =~= ca);
    assert(named(ch, "midi"@) =~= cm);
    lemma_attr_prefix(e.attributes@, "id"@, 0);
    crate::text::law_decimal_read_back(id as nat);
    lemma_audio_fold(ca, a, id, prev.regions);
    lemma_midi_fold(cm, m, vel_text, id, prev.midi);
}

/// The tracks read from track elements written for these tracks (in this
/// order): every id among them, each at its position.
proof fn lemma_tracks_read<H: Fn(Level) -> String>(
    es: Seq<XmlElement>, ts: Seq<(u16, Track)>, audio: Seq<(u16, AudioRegion)>, midi: Seq<(u16, MidiRegion)>, vel_text: H,
)
    requires
        es.len() == ts.len(),
        forall|i: int| 0 <= i < es.len() ==> track_element(#[trigger] es[i], ts[i].0, audio, midi, vel_text),
        forall|i: int, j: int| 0 <= i < ts.len() && 0 <= j < own_audio(audio).len()
            ==> global_fits(#[trigger] ts[i].0, (#[trigger] own_audio(audio)[j].0 % REGIONS_PER_TRACK) as u16),
        forall|i: int, j: int| 0 <= i < ts.len() && 0 <= j < own_midi(midi).len()
            ==> global_fits(#[trigger] ts[i].0, (#[trigger] own_midi(midi)[j].0 % REGIONS_PER_TRACK) as u16),
    ensures
        tracks_read(es) matches Some(tr) && tr.tracks.dom() == Set::new(|k: u16| has_key(ts, k)),
    decreases es.len(),
{
    if es.len() == 0 {
        assert(Set::new(|k: u16| has_key(ts, k)) =~= Set::<u16>::empty());
    } else {
        let n = es.len() - 1;
        let d = ts.drop_last();
        lemma_tracks_read(es.drop_last(), d, audio, midi, vel_text);
        let prev = tracks_read(es.drop_last()).unwrap();
        assert(track_element(es[n], ts[n].0, audio, midi, vel_text));
        assert forall|j: int| 0 <= j < own_audio(audio).len() implies global_fits(ts[n].0, (#[trigger] own_audio(audio)[j].0 % REGIONS_PER_TRACK) as u16) by {
            assert(global_fits(ts[n].0, (own_audio(audio)[j].0 % REGIONS_PER_TRACK) as u16));
        }
        assert forall|j: int| 0 <= j < own_midi(midi).len() implies global_fits(ts[n].0, (#[trigger] own_midi(midi)[j].0 % REGIONS_PER_TRACK) as u16) by {
            assert(global_fits(ts[n].0, (own_midi(midi)[j].0 % REGIONS_PER_TRACK) as u16));
        }
        lemma_track_read(es.last(), ts[n].0, audio, midi, vel_text, n as u16, prev);
        assert forall|k: u16| #[trigger] has_key(ts, k) <==> (has_key(d, k) || k == ts[n].0) by {
            if has_key(ts, k) {
                let i = choose|i: int| 0 <= i < ts.len() && ts[i].0 == k;
                if i < n {
                    assert(d[i] == ts[i]);
                }
            }
            if has_key(d, k) {
                let i = choose|i: int| 0 <= i < d.len() && d[i].0 == k;
                assert(ts[i] == d[i]);
            }
        }
        assert(Set::new(|k: u16| has_key(ts, k)) =~= Set::new(|k: u16| has_key(d, k)).insert(ts[n].0));
    }
}

/// Reading back a written timeline gives back its marks and its assets
/// (each with two channels and no sketch yet), and finds its tempo and
/// meter under their names, written as numerals. When every region's
/// global id still fits under every track (each region is written under
/// every track) and there are fewer than 65536 tracks, the whole element
/// reads back, with the same track ids.
pub proof fn law_timeline_read_back<H: Fn(Level) -> String>(state: TimelineState, vel_text: H, w: XmlElement)
    requires
        timeline_written(state, vel_text, w),
        keys_increasing(state.assets.seq()),
    ensures
        pairs_of(named(w.children@, "param"@)) is Some,
        marks_of(named(unnamed(w.children@, "param"@), "mark"@)) is Some,
        lookup_index(timeline_params(w), "bpm"@) == Some(0int),
        timeline_params(w)[0].1@ == decimal(state.tempo as nat),
        lookup_index(timeline_params(w), "meter_beat"@) == Some(1int),
        timeline_params(w)[1].1@ == decimal(state.meter_beat as nat),
        lookup_index(timeline_params(w), "meter_note"@) == Some(2int),
        timeline_params(w)[2].1@ == decimal(state.meter_note as nat),
        mark_or(timeline_marks(w), "seq_in"@, 0) == state.seq_in,
        mark_or(timeline_marks(w), "seq_out"@, 48000) == state.seq_out,
        mark_or(timeline_marks(w), "loop_in"@, 0) == state.loop_in,
        mark_or(timeline_marks(w), "loop_out"@, 0) == state.loop_out,
        assets_read(named(timeline_rest(w), "asset"@)) == Some(state.assets@.map_values(|a: Asset| asset_read_back(a))),
        regions_fit_tracks(state) && state.tracks.seq().len() < 0x10000 ==> {
            &&& timeline_readable(w)
            &&& tracks_read(named(timeline_rest(w), "track"@)).unwrap().tracks.dom() == state.tracks@.dom()
        },
{
    reveal_strlit("param");
    reveal_strlit("mark");
    reveal_strlit("asset");
    reveal_strlit("track");
    reveal_strlit("bpm");
    reveal_strlit("meter_beat");
    reveal_strlit("meter_note");
    reveal_strlit("seq_in");
    reveal_strlit("seq_out");
    reveal_strlit("loop_in");
    reveal_strlit("loop_out");
    let ch = w.children@;
    let na = state.assets.seq().len();
    let p = ch.subrange(0, 3);
    let m = ch.subrange(3, 7);
    let a = ch.subrange(7, 7 + na as int);
    let t = ch.subrange(7 + na as int, ch.len() as int);
    assert(ch =~= p + m + a + t);
    assert(forall|i: int| 0 <= i < p.len() ==> (#[trigger] p[i]).name@ == "param"@);
    assert(forall|i: int| 0 <= i < m.len() ==> (#[trigger] m[i]).name@ == "mark"@);
    assert forall|i: int| 0 <= i < a.len() implies (#[trigger] a[i]).name@ == "asset"@ by {
        assert(a[i] == ch[7 + i]);
        assert(asset_element(ch[7 + i], state.assets.seq()[i].0, state.assets.seq()[i].1@));
    }
    assert forall|i: int| 0 <= i < t.len() implies (#[trigger] t[i]).name@ == "track"@ by {
        assert(t[i] == ch[7 + na + i]);
        assert(track_element(ch[7 + na + i], state.tracks.seq()[i].0, state.regions.seq(), state.midi_regions.seq(), vel_text));
    }
    assert("param"@ != "mark"@) by { assert("param"@.len() != "mark"@.len()); }
    assert("param"@ != "asset"@) by { assert("param"@[0] != "asset"@[0]); }
    assert("param"@ != "track"@) by { assert("param"@[0] != "track"@[0]); }
    assert("mark"@ != "asset"@) by { assert("mark"@.len() != "asset"@.len()); }
    assert("mark"@ != "track"@) by { assert("mark"@.len() != "track"@.len()); }
    assert("asset"@ != "track"@) by { assert("asset"@[0] != "track"@[0]); }
    lemma_all_named(p, "param"@, "mark"@);
    lemma_all_named(m, "mark"@, "param"@);
    lemma_all_named(a, "asset"@, "param"@);
    lemma_all_named(a, "asset"@, "mark"@);
    lemma_all_named(t, "track"@, "param"@);
    lemma_all_named(t, "track"@, "mark"@);
    lemma_all_named(t, "track"@, "asset"@);
    lemma_named_concat(p + m + a, t, "param"@);
    lemma_named_concat(p + m, a, "param"@);
    lemma_named_concat(p, m, "param"@);
    assert(named(ch, "param"@) == p);
    assert(unnamed(ch, "param"@) == m + a + t);
    lemma_named_concat(m + a, t, "mark"@);
    lemma_named_concat(m, a, "mark"@);
    assert(named(m + a + t, "mark"@) =~= m);
    assert(unnamed(m + a + t, "mark"@) =~= a + t);
    lemma_named_concat(a, t, "asset"@);
    assert(named(a + t, "asset"@) =~= a);
    assert(timeline_rest(w) == a + t);
    // parameters
    lemma_value_pair(p[0], "param"@, "bpm"@, state.tempo as nat);
    lemma_value_pair(p[1], "param"@, "meter_beat"@, state.meter_beat as nat);
    lemma_value_pair(p[2], "param"@, "meter_note"@, state.meter_note as nat);
    let kv0 = (p[0].attributes@[0].1, p[0].attributes@[1].1);
    let kv1 = (p[1].attributes@[0].1, p[1].attributes@[1].1);
    let kv2 = (p[2].attributes@[0].1, p[2].attributes@[1].1);
    assert(p.take(1).drop_last() =~= Seq::<XmlElement>::empty());
    assert(p.take(1).last() == p[0]);
    assert(pairs_of(Seq::<XmlElement>::empty()) == Some(Seq::<(String, String)>::empty()));
    assert(Seq::<(String, String)>::empty().push(kv0) =~= seq![kv0]);
    assert(pairs_of(p.take(1)) == Some(seq![kv0]));
    assert(p.take(2).drop_last() =~= p.take(1));
    assert(p.take(2).last() == p[1]);
    assert(pairs_of(p.take(2)) == Some(seq![kv0].push(kv1)));
    assert(p.drop_last() =~= p.take(2));
    assert(pairs_of(p) == Some(seq![kv0].push(kv1).push(kv2)));
    let pairs = pairs_of(p).unwrap();
    assert(pairs =~= seq![kv0, kv1, kv2]);
    assert(pairs.len() == 3);
    assert(pairs[0].0@ == "bpm"@ && pairs[1].0@ == "meter_beat"@ && pairs[2].0@ == "meter_note"@);
    assert("meter_note"@ != "bpm"@) by { assert("meter_note"@.len() != "bpm"@.len()); }
    assert("meter_beat"@ != "bpm"@) by { assert("meter_beat"@.len() != "bpm"@.len()); }
    assert("meter_note"@ != "meter_beat"@) by { assert("meter_note"@[6] != "meter_beat"@[6]); }
    assert(pairs.drop_last().last() == pairs[1]);
    assert(pairs.drop_last().drop_last().last() == pairs[0]);
    assert(lookup_index(pairs.drop_last().drop_last(), "bpm"@) == Some(0int));
    assert(lookup_index(pairs.drop_last(), "bpm"@) == Some(0int));
    assert(lookup_index(pairs, "bpm"@) == Some(0int));
    assert(lookup_index(pairs.drop_last(), "meter_beat"@) == Some(1int));
    assert(lookup_index(pairs, "meter_beat"@) == Some(1int));
    // marks
    lemma_value_pair(m[0], "mark"@, "seq_in"@, state.seq_in as nat);
    lemma_value_pair(m[1], "mark"@, "seq_out"@, state.seq_out as nat);
    lemma_value_pair(m[2], "mark"@, "loop_in"@, state.loop_in as nat);
    lemma_value_pair(m[3], "mark"@, "loop_out"@, state.loop_out as nat);
    crate::text::law_decimal_read_back(state.seq_in as nat);
    crate::text::law_decimal_read_back(state.seq_out as nat);
    crate::text::law_decimal_read_back(state.loop_in as nat);
    crate::text::law_decimal_read_back(state.loop_out as nat);
    let mv0 = (m[0].attributes@[0].1, state.seq_in);
    let mv1 = (m[1].attributes@[0].1, state.seq_out);
    let mv2 = (m[2].attributes@[0].1, state.loop_in);
    let mv3 = (m[3].attributes@[0].1, state.loop_out);
    assert(m.take(1).drop_last() =~= Seq::<XmlElement>::empty());
    assert(m.take(1).last() == m[0]);
    assert(marks_of(Seq::<XmlElement>::empty()) == Some(Seq::<(String, u32)>::empty()));
    assert(Seq::<(String, u32)>::empty().push(mv0) =~= seq![mv0]);
    assert(marks_of(m.take(1)) == Some(seq![mv0]));
    assert(m.take(2).drop_last() =~= m.take(1));
    assert(m.take(2).last() == m[1]);
    assert(marks_of(m.take(2)) == Some(seq![mv0].push(mv1)));
    assert(m.take(3).drop_last() =~= m.take(2));
    assert(m.take(3).last() == m[2]);
    assert(marks_of(m.take(3)) == Some(seq![mv0].push(mv1).push(mv2)));
    assert(m.drop_last() =~= m.take(3));
    assert(marks_of(m) == Some(seq![mv0].push(mv1).push(mv2).push(mv3)));
    let marks = marks_of(m).unwrap();
    assert(marks =~= seq![mv0, mv1, mv2, mv3]);
    assert(marks.len() == 4);
    assert(marks[0].0@ == "seq_in"@ && marks[1].0@ == "seq_out"@ && marks[2].0@ == "loop_in"@ && marks[3].0@ == "loop_out"@);
    assert(marks[0].1 == state.seq_in && marks[1].1 == state.seq_out && marks[2].1 == state.loop_in && marks[3].1 == state.loop_out);
    assert("seq_in"@ != "seq_out"@) by { assert("seq_in"@.len() != "seq_out"@.len()); }
    assert("seq_in"@ != "loop_in"@) by { assert("seq_in"@.len() != "loop_in"@.len()); }
    assert("seq_in"@ != "loop_out"@) by { assert("seq_in"@.len() != "loop_out"@.len()); }
    assert("seq_out"@ != "loop_in"@) by { assert("seq_out"@[0] != "loop_in"@[0]); }
    assert("seq_out"@ != "loop_out"@) by { assert("seq_out"@.len() != "loop_out"@.len()); }
    assert("loop_in"@ != "loop_out"@) by { assert("loop_in"@.len() != "loop_out"@.len()); }
    let k2 = marks.drop_last();
    let k1 = k2.drop_last();
    let k0 = k1.drop_last();
    assert(k2.last() == marks[2] && k1.last() == marks[1] && k0.last() == marks[0]);
    assert(lookup(k0, "seq_in"@) == Some(state.seq_in));
    assert(lookup(k1, "seq_in"@) == Some(state.seq_in));
    assert(lookup(k2, "seq_in"@) == Some(state.seq_in));
    assert(lookup(marks, "seq_in"@) == Some(state.seq_in));
    assert(lookup(k1, "seq_out"@) == Some(state.seq_out));
    assert(lookup(k2, "seq_out"@) == Some(state.seq_out));
    assert(lookup(marks, "seq_out"@) == Some(state.seq_out));
    assert(lookup(k2, "loop_in"@) == Some(state.loop_in));
    assert(lookup(marks, "loop_in"@) == Some(state.loop_in));
    assert(lookup(marks, "loop_out"@) == Some(state.loop_out));
    // assets
    assert forall|i: int| 0 <= i < na implies asset_element(#[trigger] a[i], state.assets.seq()[i].0, state.assets.seq()[i].1@) by {
        assert(a[i] == ch[7 + i]);
    }
    lemma_assets_read(a, state.assets.seq());
    lemma_assets_back_map(state.assets.seq());
    // tracks
    lemma_all_named(a, "asset"@, "track"@);
    lemma_named_concat(a, t, "track"@);
    assert(named(timeline_rest(w), "track"@) =~= t);
    if regions_fit_tracks(state) && state.tracks.seq().len() < 0x10000 {
        let ts = state.tracks.seq();
        assert forall|i: int| 0 <= i < t.len() implies track_element(#[trigger] t[i], ts[i].0,
            state.regions.seq(), state.midi_regions.seq(), vel_text) by {
            assert(t[i] == ch[7 + na + i]);
        }
        lemma_tracks_read(t, ts, state.regions.seq(), state.midi_regions.seq(), vel_text);
        assert(Set::new(|k: u16| has_key(ts, k)) =~= state.tracks@.dom());
    }
}

} // verus!
