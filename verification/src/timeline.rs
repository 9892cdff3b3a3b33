//! The timeline view: tracks, audio and MIDI regions, loop markers, tempo and zoom.

use vstd::prelude::*;
use crate::action::{Action, Anchor, Note};
use crate::common::{REGIONS_PER_TRACK, REGIONS_X};
use crate::focus::{FocusTransform, FocusType, Focus, ID, MultiFocus, shift_focus, grid, in_grid, spec_shift, shift_defined, spec_cell_transform, grid_after, held_after, shift_ready};
use crate::idmap::{IdMap, as_map, has_key, keys_increasing, key_index, lemma_key_index};
use crate::sort::{sort_by_key, strictly_sorted, distinct_keys};
use crate::timing::{char_offset, offset_char, samples_per_beat};

verus! {

/// Which component of the timeline a focus cell belongs to.
#[derive(Clone, Copy, Debug, PartialEq, Eq, Structural)]
pub enum TimelineFocus {
    Nav,
    Meter,
    TrackHeader,
    AudioRegion,
    MidiRegion,
}

/// A track of the timeline.
#[derive(Clone, Copy, Debug, PartialEq, Eq, Structural)]
pub struct Track {
    pub mute: bool,
    pub solo: bool,
    pub record: u8,
    pub monitor: bool,
    pub index: u16,
    pub id: u16,
}

/// A recorded sound file and its waveform sketch (pairs of levels 0..=4).
#[derive(Debug)]
pub struct Asset {
    pub src: String,
    pub duration: u32,
    pub channels: usize,
    pub waveform: Vec<(u8, u8)>,
}

/// A stretch of an asset placed on a track.
#[derive(Clone, Copy, Debug, PartialEq, Eq, Structural)]
pub struct AudioRegion {
    pub asset_id: u16,
    pub asset_in: u32,
    pub duration: u32,
    pub offset: u32,
    pub track: u16,
}

/// A stretch of recorded notes placed on a track.
#[derive(Debug)]
pub struct MidiRegion {
    pub duration: u32,
    pub offset: u32,
    pub notes: Vec<Note>,
    pub track: u16,
}

/// Everything the timeline shows.
#[derive(Debug)]
pub struct TimelineState {
    pub tempo: u16,
    pub zoom: usize,
    pub temp_tempo: Option<u16>,
    pub temp_zoom: Option<usize>,
    pub meter_beat: u16,
    pub meter_note: u16,
    pub loop_mode: bool,
    pub seq_in: u32,
    pub seq_out: u32,
    pub loop_in: u32,
    pub loop_out: u32,
    pub sample_rate: u32,
    pub tracks: IdMap<Track>,
    pub assets: IdMap<Asset>,
    pub regions: IdMap<AudioRegion>,
    pub midi_regions: IdMap<MidiRegion>,
    pub tick: bool,
    pub playhead: u32,
    pub scroll_mid: u16,
    pub scroll_x: u16,
    pub scroll_y: u16,
    pub focus: (usize, usize),
}

/// The waveform sketches that must be redrawn from the sound files after a change.
#[derive(Debug)]
pub enum WaveformWork {
    Nothing,
    /// Redraw one asset's sketch from `src`, covering `duration` samples.
    Partial { asset_id: u16, src: String, duration: u32 },
    /// Redraw every asset's sketch at a new tempo and zoom.
    All { tempo: u16, zoom: usize },
}

/// The global id of region `r` of track `t`.
pub open spec fn global_id(t: u16, r: u16) -> int {
    t * REGIONS_PER_TRACK + r
}

/// `char_offset` is defined for these arguments.
pub open spec fn char_offset_defined(offset: u32, rate: u32, bpm: u16, zoom: usize) -> bool {
    &&& 60 * rate <= u32::MAX
    &&& bpm > 0
    &&& samples_per_beat(rate as int, bpm as int) > 0
    &&& (zoom as u32) * (offset as int / samples_per_beat(rate as int, bpm as int)) <= u32::MAX
}

/// What `char_offset` computes.
pub open spec fn spec_char_offset(offset: u32, rate: u32, bpm: u16, zoom: usize) -> int {
    ((zoom as u32) * (offset as int / samples_per_beat(rate as int, bpm as int))) % 0x10000
}

/// Samples in one beat of this state, which must fit in 32 bits.
pub open spec fn beat_samples(s: TimelineState) -> int {
    samples_per_beat(s.sample_rate as int, s.tempo as int)
}

/// One beat can be measured at this state's rate and tempo.
pub open spec fn beat_defined(s: TimelineState) -> bool {
    60 * s.sample_rate <= u32::MAX && s.tempo > 0
}

/// Whether one beat can be measured at this state's rate and tempo.
pub fn beat_ready(s: &TimelineState) -> (r: bool)
    ensures
        r == beat_defined(*s),
{
    s.sample_rate <= u32::MAX / 60 && s.tempo > 0
}

/// The samples in one beat of this state.
pub fn beat_length(s: &TimelineState) -> (r: u32)
    requires
        beat_defined(*s),
    ensures
        r == beat_samples(*s),
{
    offset_char(1, s.sample_rate, s.tempo, s.zoom)
}

/// The scroll that centres a column, given the middle column of the view.
pub open spec fn scroll_to(col: int, mid: u16) -> int {
    if col > mid { col - mid } else { 0 }
}

/// Note times shifted by `diff`, computed in 32-bit signed arithmetic.
pub open spec fn shift_note(n: Note, diff: i32) -> Note {
    Note {
        t_in: ((n.t_in as i32) + diff) as u32,
        t_out: ((n.t_out as i32) + diff) as u32,
        ..n
    }
}

/// The shifts of all notes stay within 32-bit signed range.
pub open spec fn notes_shift_defined(notes: Seq<Note>, diff: i32) -> bool {
    forall|i: int| #![trigger notes[i]] 0 <= i < notes.len() ==> {
        &&& i32::MIN <= (notes[i].t_in as i32) + diff <= i32::MAX
        &&& i32::MIN <= (notes[i].t_out as i32) + diff <= i32::MAX
    }
}

/// The offset difference of a move, in 32-bit signed arithmetic.
pub open spec fn move_diff(to: u32, from: u32) -> int {
    (to as i32) - (from as i32)
}

/// The reducer can run on this state and action without an arithmetic or lookup failure.
pub open spec fn reduce_defined(s: TimelineState, a: Action) -> bool {
    &&& beat_defined(s)
    &&& match a {
        Action::SoloTrack(id, _) | Action::MuteTrack(id, _) | Action::MonitorTrack(id, _) =>
            s.tracks@.contains_key(id),
        Action::RecordTrack(id, _) => s.tracks@.contains_key(id),
        Action::AddRegion(t, r, _, _, _, _, _) => global_id(t, r) <= u16::MAX,
        Action::SplitRegion(t, r, _) | Action::DelRegion(t, r) | Action::AddMidiRegion(t, r, _, _) =>
            global_id(t, r) <= u16::MAX,
        Action::MoveRegion(t, r, offset) => global_id(t, r) <= u16::MAX && {
            let g = global_id(t, r) as u16;
            s.midi_regions@.contains_key(g) ==> {
                let m = s.midi_regions@[g];
                &&& i32::MIN <= move_diff(offset, m.offset) <= i32::MAX
                &&& notes_shift_defined(m.notes@, move_diff(offset, m.offset) as i32)
            }
        },
        Action::AddNote(t, n) => global_id(t, n.r_id) <= u16::MAX,
        Action::Deselect => s.temp_zoom matches Some(z) ==> char_offset_defined(
            s.playhead,
            s.sample_rate,
            s.tempo,
            z,
        ),
        Action::Goto(o) => char_offset_defined(o, s.sample_rate, s.tempo, s.zoom),
        _ => true,
    }
}

/// Tracks after an action: the solo, record, mute and monitor switches.
pub open spec fn reduced_tracks(t: Map<u16, Track>, a: Action) -> Map<u16, Track> {
    match a {
        Action::SoloTrack(id, on) => t.insert(id, Track { solo: on, ..t[id] }),
        Action::RecordTrack(id, v) => t.insert(id, Track { record: v, ..t[id] }),
        Action::MuteTrack(id, on) => t.insert(id, Track { mute: on, ..t[id] }),
        Action::MonitorTrack(id, on) => t.insert(id, Track { monitor: on, ..t[id] }),
        _ => t,
    }
}

/// Audio regions after an action.
pub open spec fn reduced_regions(m: Map<u16, AudioRegion>, a: Action) -> Map<u16, AudioRegion> {
    match a {
        Action::AddRegion(t, r, asset_id, offset, duration, asset_in, _) => m.insert(
            global_id(t, r) as u16,
            AudioRegion { asset_id, asset_in, duration, offset, track: t },
        ),
        Action::MoveRegion(t, r, offset) => {
            let g = global_id(t, r) as u16;
            if m.contains_key(g) { m.insert(g, AudioRegion { offset, ..m[g] }) } else { m }
        },
        Action::SplitRegion(t, r, _) | Action::DelRegion(t, r) => m.remove(global_id(t, r) as u16),
        _ => m,
    }
}

/// The tempo that takes effect on release: the one being dialled in, if any.
pub open spec fn effective_tempo(s: TimelineState) -> u16 {
    match s.temp_tempo { Some(t) => t, None => s.tempo }
}

/// The zoom that takes effect on release: the one being dialled in, if any.
pub open spec fn effective_zoom(s: TimelineState) -> usize {
    match s.temp_zoom { Some(z) => z, None => s.zoom }
}

/// The scalar fields of the state after an action.
pub open spec fn scalars_reduced(s: TimelineState, a: Action, r: TimelineState) -> bool {
    &&& r.tempo == (if a is Deselect { effective_tempo(s) } else { s.tempo })
    &&& r.temp_tempo == (match a { Action::SetTempo(t) => Some(if t > 0 { t } else { 1 }), _ => None::<u16> })
    &&& r.zoom == (if a is Deselect { effective_zoom(s) } else { s.zoom })
    &&& r.temp_zoom == (match a { Action::Zoom(z) => Some(z), _ => None::<usize> })
    &&& r.meter_beat == (match a { Action::SetMeter(b, _) => if b > 0 { b } else { 1 }, _ => s.meter_beat })
    &&& r.meter_note == (match a { Action::SetMeter(_, n) => if n > 0 { n } else { 1 }, _ => s.meter_note })
    &&& r.loop_mode == (match a { Action::LoopMode(on) => on, _ => s.loop_mode })
    &&& r.loop_in == (match a { Action::SetLoop(i, o) => if i < o { i } else { s.loop_in }, _ => s.loop_in })
    &&& r.loop_out == (match a { Action::SetLoop(i, o) => if o > i { o } else { s.loop_out }, _ => s.loop_out })
    &&& r.seq_in == s.seq_in
    &&& r.seq_out == s.seq_out
    &&& r.sample_rate == s.sample_rate
    &&& r.tick == (if a is Tick { !s.tick } else { s.tick })
    &&& r.playhead == (match a { Action::Goto(o) => o, _ => s.playhead })
    &&& r.scroll_x == (match a {
        Action::Deselect => match s.temp_zoom {
            Some(z) => scroll_to(spec_char_offset(s.playhead, s.sample_rate, s.tempo, z), s.scroll_mid),
            None => s.scroll_x as int,
        },
        Action::Goto(o) => scroll_to(spec_char_offset(o, s.sample_rate, s.tempo, s.zoom), s.scroll_mid),
        _ => s.scroll_x as int,
    })
    &&& r.scroll_y == s.scroll_y
    &&& r.scroll_mid == s.scroll_mid
}

/// The whole state after an action, apart from the focus.
pub open spec fn state_reduced(s: TimelineState, a: Action, r: TimelineState) -> bool {
    &&& scalars_reduced(s, a, r)
    &&& r.tracks@ == reduced_tracks(s.tracks@, a)
    &&& r.regions@ == reduced_regions(s.regions@, a)
    &&& midi_of(r) == reduced_midi(midi_of(s), a)
    &&& assets_of(r) == reduced_assets(assets_of(s), a)
}

/// What an asset holds, as plain values.
pub struct AssetView {
    pub src: Seq<char>,
    pub duration: u32,
    pub channels: usize,
    pub waveform: Seq<(u8, u8)>,
}

impl View for Asset {
    type V = AssetView;

    open spec fn view(&self) -> AssetView {
        AssetView { src: self.src@, duration: self.duration, channels: self.channels, waveform: self.waveform@ }
    }
}

/// What a MIDI region holds, as plain values.
pub struct MidiRegionView {
    pub duration: u32,
    pub offset: u32,
    pub notes: Seq<Note>,
    pub track: u16,
}

impl View for MidiRegion {
    type V = MidiRegionView;

    open spec fn view(&self) -> MidiRegionView {
        MidiRegionView { duration: self.duration, offset: self.offset, notes: self.notes@, track: self.track }
    }
}

/// The assets of a state, by id.
pub open spec fn assets_of(s: TimelineState) -> Map<u16, AssetView> {
    s.assets@.map_values(|a: Asset| a@)
}

/// The MIDI regions of a state, by global id.
pub open spec fn midi_of(s: TimelineState) -> Map<u16, MidiRegionView> {
    s.midi_regions@.map_values(|m: MidiRegion| m@)
}

/// MIDI regions after an action: notes recorded, regions moved (with their
/// notes), created or lengthened, split or deleted.
pub open spec fn reduced_midi(m: Map<u16, MidiRegionView>, a: Action) -> Map<u16, MidiRegionView> {
    match a {
        Action::AddNote(t, n) => {
            let g = global_id(t, n.r_id) as u16;
            if m.contains_key(g) { m.insert(g, MidiRegionView { notes: m[g].notes.push(n), ..m[g] }) } else { m }
        },
        Action::MoveRegion(t, r, offset) => {
            let g = global_id(t, r) as u16;
            if m.contains_key(g) {
                let diff = move_diff(offset, m[g].offset) as i32;
                m.insert(g, MidiRegionView {
                    offset,
                    notes: m[g].notes.map_values(|n: Note| shift_note(n, diff)),
                    ..m[g]
                })
            } else {
                m
            }
        },
        Action::AddMidiRegion(t, r, offset, duration) => {
            let g = global_id(t, r) as u16;
            if m.contains_key(g) {
                m.insert(g, MidiRegionView { duration, offset, ..m[g] })
            } else {
                m.insert(g, MidiRegionView { duration, offset, notes: Seq::empty(), track: t })
            }
        },
        Action::SplitRegion(t, r, _) | Action::DelRegion(t, r) => m.remove(global_id(t, r) as u16),
        _ => m,
    }
}

/// Assets after an action: a recorded region creates its asset or lengthens
/// it (never shortens it); the sketch is left for the waveform work to redraw.
pub open spec fn reduced_assets(m: Map<u16, AssetView>, a: Action) -> Map<u16, AssetView> {
    match a {
        Action::AddRegion(_, _, asset_id, _, duration, _, src) => if m.contains_key(asset_id) {
            if m[asset_id].duration < duration {
                m.insert(asset_id, AssetView { duration, ..m[asset_id] })
            } else {
                m
            }
        } else {
            m.insert(asset_id, AssetView { src: src@, duration, channels: 2, waveform: Seq::empty() })
        },
        _ => m,
    }
}

/// The waveform work an action calls for.
pub open spec fn waveform_work(s: TimelineState, a: Action, w: WaveformWork) -> bool {
    match a {
        Action::AddRegion(_, _, asset_id, _, duration, _, src) => {
            if !s.assets@.contains_key(asset_id) || s.assets@[asset_id].duration < duration {
                w matches WaveformWork::Partial { asset_id: id, src: wsrc, duration: d }
                    && id == asset_id && wsrc@ == src@ && d == duration
            } else {
                w is Nothing
            }
        },
        Action::Deselect => {
            if effective_zoom(s) != s.zoom || effective_tempo(s) != s.tempo {
                w == WaveformWork::All { tempo: effective_tempo(s), zoom: effective_zoom(s) }
            } else {
                w is Nothing
            }
        },
        _ => w is Nothing,
    }
}

fn global(t: u16, r: u16) -> (g: u16)
    requires
        global_id(t, r) <= u16::MAX,
    ensures
        g == global_id(t, r),
{
    t * REGIONS_PER_TRACK + r
}

fn reduce_tracks(tracks: &mut IdMap<Track>, a: &Action)
    requires
        match *a {
            Action::SoloTrack(id, _) | Action::MuteTrack(id, _) | Action::MonitorTrack(id, _) =>
                old(tracks)@.contains_key(id),
            Action::RecordTrack(id, _) => old(tracks)@.contains_key(id),
            _ => true,
        },
    ensures
        final(tracks)@ == reduced_tracks(old(tracks)@, *a),
        final(tracks).seq().len() == old(tracks).seq().len(),
        !(a is SoloTrack || a is RecordTrack || a is MuteTrack || a is MonitorTrack) ==> final(tracks).seq() == old(tracks).seq(),
{
    match a {
        Action::SoloTrack(id, on) => {
            let mut t = *tracks.get(*id).unwrap();
            t.solo = *on;
            tracks.insert(*id, t);
        },
        Action::RecordTrack(id, v) => {
            let mut t = *tracks.get(*id).unwrap();
            t.record = *v;
            tracks.insert(*id, t);
        },
        Action::MuteTrack(id, on) => {
            let mut t = *tracks.get(*id).unwrap();
            t.mute = *on;
            tracks.insert(*id, t);
        },
        Action::MonitorTrack(id, on) => {
            let mut t = *tracks.get(*id).unwrap();
            t.monitor = *on;
            tracks.insert(*id, t);
        },
        _ => {},
    }
}

fn reduce_regions(regions: &mut IdMap<AudioRegion>, a: &Action)
    requires
        match *a {
            Action::AddRegion(t, r, _, _, _, _, _) => global_id(t, r) <= u16::MAX,
            Action::SplitRegion(t, r, _) | Action::DelRegion(t, r) | Action::MoveRegion(t, r, _) =>
                global_id(t, r) <= u16::MAX,
            _ => true,
        },
    ensures
        final(regions)@ == reduced_regions(old(regions)@, *a),
{
    match a {
        Action::AddRegion(t, r, asset_id, offset, duration, asset_in, _) => {
            let g = global(*t, *r);
            regions.insert(g, AudioRegion {
                asset_id: *asset_id,
                asset_in: *asset_in,
                duration: *duration,
                offset: *offset,
                track: *t,
            });
        },
        Action::MoveRegion(t, r, offset) => {
            let g = global(*t, *r);
            match regions.get(g) {
                Some(old_region) => {
                    let mut moved = *old_region;
                    moved.offset = *offset;
                    regions.insert(g, moved);
                },
                None => {},
            }
        },
        Action::SplitRegion(t, r, _) | Action::DelRegion(t, r) => {
            let g = global(*t, *r);
            regions.remove(g);
        },
        _ => {},
    }
}

/// The notes of a region moved to `to` from `from`.
fn shift_notes(notes: &Vec<Note>, diff: i32) -> (r: Vec<Note>)
    requires
        notes_shift_defined(notes@, diff),
    ensures
        r@ == notes@.map_values(|n: Note| shift_note(n, diff)),
{
    let mut r: Vec<Note> = Vec::new();
    for i in 0..notes.len()
        invariant
            notes_shift_defined(notes@, diff),
            r@ == notes@.take(i as int).map_values(|n: Note| shift_note(n, diff)),
    {
        let n = notes[i];
        assert(i32::MIN <= (n.t_in as i32) + diff <= i32::MAX);
        assert(i32::MIN <= (n.t_out as i32) + diff <= i32::MAX);
        let t_in: i32 = (n.t_in as i32) + diff;
        let t_out: i32 = (n.t_out as i32) + diff;
        r.push(Note { t_in: t_in as u32, t_out: t_out as u32, ..n });
        assert(notes@.take(i + 1).map_values(|n: Note| shift_note(n, diff)) =~= notes@.take(i as int).map_values(
            |n: Note| shift_note(n, diff),
        ).push(shift_note(n, diff)));
    }
    assert(notes@.take(notes@.len() as int) =~= notes@);
    r
}

fn reduce_midi(m: &mut IdMap<MidiRegion>, a: &Action)
    requires
        match *a {
            Action::SplitRegion(t, r, _) | Action::DelRegion(t, r) | Action::AddMidiRegion(t, r, _, _) =>
                global_id(t, r) <= u16::MAX,
            Action::MoveRegion(t, r, offset) => global_id(t, r) <= u16::MAX && {
                let g = global_id(t, r) as u16;
                old(m)@.contains_key(g) ==> {
                    let reg = old(m)@[g];
                    &&& i32::MIN <= move_diff(offset, reg.offset) <= i32::MAX
                    &&& notes_shift_defined(reg.notes@, move_diff(offset, reg.offset) as i32)
                }
            },
            Action::AddNote(t, n) => global_id(t, n.r_id) <= u16::MAX,
            _ => true,
        },
    ensures
        final(m)@.map_values(|x: MidiRegion| x@) == reduced_midi(old(m)@.map_values(|x: MidiRegion| x@), *a),
{
    let ghost m0 = m@.map_values(|x: MidiRegion| x@);
    match a {
        Action::AddNote(t, n) => {
            let g = global(*t, n.r_id);
            match m.remove(g) {
                Some(mut region) => {
                    region.notes.push(*n);
                    m.insert(g, region);
                    assert(m@.map_values(|x: MidiRegion| x@) =~= reduced_midi(m0, *a));
                },
                None => {
                    assert(m@.map_values(|x: MidiRegion| x@) =~= reduced_midi(m0, *a));
                },
            }
        },
        Action::MoveRegion(t, r, offset) => {
            let g = global(*t, *r);
            match m.remove(g) {
                Some(region) => {
                    let diff: i32 = (*offset as i32) - (region.offset as i32);
                    let notes = shift_notes(&region.notes, diff);
                    m.insert(g, MidiRegion { duration: region.duration, offset: *offset, notes, track: region.track });
                    assert(m@.map_values(|x: MidiRegion| x@) =~= reduced_midi(m0, *a));
                },
                None => {
                    assert(m@.map_values(|x: MidiRegion| x@) =~= reduced_midi(m0, *a));
                },
            }
        },
        Action::AddMidiRegion(t, r, offset, duration) => {
            let g = global(*t, *r);
            match m.remove(g) {
                Some(region) => {
                    m.insert(g, MidiRegion { duration: *duration, offset: *offset, notes: region.notes, track: region.track });
                },
                None => {
                    m.insert(g, MidiRegion { duration: *duration, offset: *offset, notes: Vec::new(), track: *t });
                },
            }
            assert(m@.map_values(|x: MidiRegion| x@) =~= reduced_midi(m0, *a));
        },
        Action::SplitRegion(t, r, _) | Action::DelRegion(t, r) => {
            let g = global(*t, *r);
            m.remove(g);
            assert(m@.map_values(|x: MidiRegion| x@) =~= reduced_midi(m0, *a));
        },
        _ => {},
    }
}

fn reduce_assets(assets: &mut IdMap<Asset>, a: &Action) -> (w: WaveformWork)
    ensures
        final(assets)@.map_values(|x: Asset| x@) == reduced_assets(old(assets)@.map_values(|x: Asset| x@), *a),
        match *a {
            Action::AddRegion(_, _, asset_id, _, duration, _, src) => {
                if !old(assets)@.contains_key(asset_id) || old(assets)@[asset_id].duration < duration {
                    w matches WaveformWork::Partial { asset_id: id, src: wsrc, duration: d }
                        && id == asset_id && wsrc@ == src@ && d == duration
                } else {
                    w is Nothing
                }
            },
            _ => w is Nothing,
        },
{
    let ghost m0 = assets@.map_values(|x: Asset| x@);
    match a {
        Action::AddRegion(_, _, asset_id, _, duration, _, src) => {
            match assets.remove(*asset_id) {
                Some(old_asset) => {
                    if old_asset.duration < *duration {
                        assets.insert(*asset_id, Asset {
                            src: old_asset.src,
                            duration: *duration,
                            channels: old_asset.channels,
                            waveform: old_asset.waveform,
                        });
                        assert(assets@.map_values(|x: Asset| x@) =~= reduced_assets(m0, *a));
                        WaveformWork::Partial { asset_id: *asset_id, src: src.clone(), duration: *duration }
                    } else {
                        assets.insert(*asset_id, old_asset);
                        assert(assets@.map_values(|x: Asset| x@) =~= reduced_assets(m0, *a));
                        WaveformWork::Nothing
                    }
                },
                None => {
                    assets.insert(*asset_id, Asset {
                        src: src.clone(),
                        duration: *duration,
                        channels: 2,
                        waveform: Vec::new(),
                    });
                    assert(assets@.map_values(|x: Asset| x@) =~= reduced_assets(m0, *a));
                    WaveformWork::Partial { asset_id: *asset_id, src: src.clone(), duration: *duration }
                },
            }
        },
        _ => WaveformWork::Nothing,
    }
}

/// The next timeline state for an action, and the waveform sketches to redraw.
pub fn reduce(state: TimelineState, action: &Action) -> (r: (TimelineState, WaveformWork))
    requires
        reduce_defined(state, *action),
    ensures
        state_reduced(state, *action, r.0),
        r.0.focus == state.focus,
        r.0.tracks.seq().len() == state.tracks.seq().len(),
        !(action is SoloTrack || action is RecordTrack || action is MuteTrack || action is MonitorTrack)
            ==> r.0.tracks.seq() == state.tracks.seq(),
        waveform_work(state, *action, r.1),
{
    let mut state = state;
    let work = reduce_state(&mut state, action);
    (state, work)
}

fn reduce_state(state: &mut TimelineState, action: &Action) -> (work: WaveformWork)
    requires
        reduce_defined(*old(state), *action),
    ensures
        state_reduced(*old(state), *action, *final(state)),
        final(state).focus == old(state).focus,
        final(state).tracks.seq().len() == old(state).tracks.seq().len(),
        !(action is SoloTrack || action is RecordTrack || action is MuteTrack || action is MonitorTrack)
            ==> final(state).tracks.seq() == old(state).tracks.seq(),
        waveform_work(*old(state), *action, work),
{
    let ghost s0 = *state;
    let tempo = match action {
        Action::Deselect => match state.temp_tempo { Some(t) => t, None => state.tempo },
        _ => state.tempo,
    };
    let temp_tempo = match action {
        Action::SetTempo(t) => if *t > 0 { Some(*t) } else { Some(1) },
        _ => None,
    };
    let zoom = match action {
        Action::Deselect => match state.temp_zoom { Some(z) => z, None => state.zoom },
        _ => state.zoom,
    };
    let temp_zoom = match action {
        Action::Zoom(z) => Some(*z),
        _ => None,
    };
    let meter_beat = match action {
        Action::SetMeter(beat, _) => if *beat > 0 { *beat } else { 1 },
        _ => state.meter_beat,
    };
    let meter_note = match action {
        Action::SetMeter(_, note) => if *note > 0 { *note } else { 1 },
        _ => state.meter_note,
    };
    let loop_mode = match action {
        Action::LoopMode(on) => *on,
        _ => state.loop_mode,
    };
    let loop_in = match action {
        Action::SetLoop(mark_in, mark_out) => if *mark_in < *mark_out { *mark_in } else { state.loop_in },
        _ => state.loop_in,
    };
    let loop_out = match action {
        Action::SetLoop(mark_in, mark_out) => if *mark_out > *mark_in { *mark_out } else { state.loop_out },
        _ => state.loop_out,
    };
    let tick = match action {
        Action::Tick => !state.tick,
        _ => state.tick,
    };
    let playhead = match action {
        Action::Goto(o) => *o,
        _ => state.playhead,
    };
    let scroll_x = match action {
        Action::Deselect => match state.temp_zoom {
            Some(z) => {
                let playhead_offset = char_offset(state.playhead, state.sample_rate, state.tempo, z);
                if playhead_offset > state.scroll_mid { playhead_offset - state.scroll_mid } else { 0 }
            },
            None => state.scroll_x,
        },
        Action::Goto(o) => {
            let playhead_offset = char_offset(*o, state.sample_rate, state.tempo, state.zoom);
            if playhead_offset > state.scroll_mid { playhead_offset - state.scroll_mid } else { 0 }
        },
        _ => state.scroll_x,
    };
    let work = match action {
        Action::Deselect => {
            if zoom != state.zoom || tempo != state.tempo {
                WaveformWork::All { tempo, zoom }
            } else {
                WaveformWork::Nothing
            }
        },
        _ => reduce_assets(&mut state.assets, action),
    };
    reduce_tracks(&mut state.tracks, action);
    reduce_regions(&mut state.regions, action);
    reduce_midi(&mut state.midi_regions, action);
    state.tempo = tempo;
    state.temp_tempo = temp_tempo;
    state.zoom = zoom;
    state.temp_zoom = temp_zoom;
    state.meter_beat = meter_beat;
    state.meter_note = meter_note;
    state.loop_mode = loop_mode;
    state.loop_in = loop_in;
    state.loop_out = loop_out;
    state.tick = tick;
    state.playhead = playhead;
    state.scroll_x = scroll_x;
    proof {
        if action is Deselect {
            assert(assets_of(*state) =~= reduced_assets(assets_of(s0), *action));
        }
    }
    work
}

impl FocusTransform<TimelineFocus> for TimelineState {
    open spec fn spec_transform(&self, kind: TimelineFocus, slot: Focus, id: ID, a: Action) -> Action {
        match kind {
            TimelineFocus::Nav => crate::components::timeline_nav::spec_transform(slot, a, *self),
            TimelineFocus::Meter => crate::components::timeline_meter::spec_transform(slot, a, *self),
            TimelineFocus::TrackHeader => crate::components::track_header::spec_transform(slot, id, a, *self),
            TimelineFocus::AudioRegion => crate::components::region_audio::spec_transform(slot, id, a, *self),
            TimelineFocus::MidiRegion => crate::components::region_midi::spec_transform(slot, id, a, *self),
        }
    }

    open spec fn transform_defined(&self, kind: TimelineFocus, slot: Focus, id: ID, a: Action) -> bool {
        match kind {
            TimelineFocus::Nav => crate::components::timeline_nav::transform_defined(slot, a, *self),
            TimelineFocus::Meter => crate::components::timeline_meter::transform_defined(slot, a, *self),
            TimelineFocus::TrackHeader => crate::components::track_header::transform_defined(slot, id, a, *self),
            TimelineFocus::AudioRegion => crate::components::region_audio::transform_defined(slot, id, a, *self),
            TimelineFocus::MidiRegion => crate::components::region_midi::transform_defined(slot, id, a, *self),
        }
    }

    fn transform(&self, kind: &TimelineFocus, slot: Focus, id: ID, a: Action) -> (r: Action) {
        match kind {
            TimelineFocus::Nav => crate::components::timeline_nav::transform(slot, a, self),
            TimelineFocus::Meter => crate::components::timeline_meter::transform(slot, a, self),
            TimelineFocus::TrackHeader => crate::components::track_header::transform(slot, id, a, self),
            TimelineFocus::AudioRegion => crate::components::region_audio::transform(slot, id, a, self),
            TimelineFocus::MidiRegion => crate::components::region_midi::transform(slot, id, a, self),
        }
    }
}

impl TimelineState {
    /// What the held control `slot` of a cell of this kind makes of an
    /// action; `None` when it hands the action on unchanged.
    fn transform_ref(&self, kind: &TimelineFocus, slot: Focus, id: ID, a: &Action) -> (r: Option<Action>)
        requires
            self.transform_defined(*kind, slot, id, *a),
        ensures
            match r {
                Some(t) => t == self.spec_transform(*kind, slot, id, *a),
                None => self.spec_transform(*kind, slot, id, *a) == *a,
            },
    {
        match kind {
            TimelineFocus::Nav => crate::components::timeline_nav::transform_ref(slot, a, self),
            TimelineFocus::Meter => crate::components::timeline_meter::transform_ref(slot, a, self),
            TimelineFocus::TrackHeader => crate::components::track_header::transform_ref(slot, id, a, self),
            TimelineFocus::AudioRegion => crate::components::region_audio::transform_ref(slot, id, a, self),
            TimelineFocus::MidiRegion => crate::components::region_midi::transform_ref(slot, id, a, self),
        }
    }

    /// Whether the held control `slot` of a cell of this kind can act.
    fn transform_ok(&self, kind: &TimelineFocus, slot: Focus, id: ID, a: &Action) -> (r: bool)
        ensures
            r == self.transform_defined(*kind, slot, id, *a),
    {
        match kind {
            TimelineFocus::Nav => crate::components::timeline_nav::transform_ok(slot, a, self),
            TimelineFocus::Meter => crate::components::timeline_meter::transform_ok(slot, a, self),
            TimelineFocus::TrackHeader => crate::components::track_header::transform_ok(slot, id, a, self),
            TimelineFocus::AudioRegion => crate::components::region_audio::transform_ok(slot, id, a, self),
            TimelineFocus::MidiRegion => crate::components::region_midi::transform_ok(slot, id, a, self),
        }
    }
}

/// Whether `char_offset` is defined for these arguments.
fn char_offset_ok(offset: u32, rate: u32, bpm: u16, zoom: usize) -> (r: bool)
    ensures
        r == char_offset_defined(offset, rate, bpm, zoom),
{
    if rate > u32::MAX / 60 || bpm == 0 {
        return false;
    }
    let spb = (60 * rate) / (bpm as u32);
    if spb == 0 {
        return false;
    }
    let beats: u32 = offset / spb;
    let z: u32 = zoom as u32;
    match (z as u64).checked_mul(beats as u64) {
        Some(p) => p <= u32::MAX as u64,
        None => false,
    }
}

/// Whether region `(t, r)` has a 16-bit global id.
fn global_fits(t: u16, r: u16) -> (b: bool)
    ensures
        b == (global_id(t, r) <= u16::MAX),
{
    (t as u32) * 100 + (r as u32) <= 0xffff
}

/// Whether the notes can all be shifted by `diff` within 32-bit signed range.
fn notes_shift_ok(notes: &Vec<Note>, diff: i32) -> (r: bool)
    ensures
        r == notes_shift_defined(notes@, diff),
{
    for i in 0..notes.len()
        invariant
            forall|j: int| #![trigger notes@[j]] 0 <= j < i ==> {
                &&& i32::MIN <= (notes@[j].t_in as i32) + diff <= i32::MAX
                &&& i32::MIN <= (notes@[j].t_out as i32) + diff <= i32::MAX
            },
    {
        let a: i64 = (notes[i].t_in as i32) as i64 + diff as i64;
        let b: i64 = (notes[i].t_out as i32) as i64 + diff as i64;
        if a < i32::MIN as i64 || a > i32::MAX as i64 || b < i32::MIN as i64 || b > i32::MAX as i64 {
            assert(notes@[i as int] == notes@[i as int]);
            return false;
        }
    }
    true
}

/// Whether every audio region but the one under `skip` lies on a track up to `n`.
fn audio_within(m: &IdMap<AudioRegion>, n: usize, skip: Option<u16>) -> (r: bool)
    ensures
        r == (forall|id: u16| m@.contains_key(id) && skip != Some(id) ==> m@[id].track <= n),
{
    let es = m.entries();
    for i in 0..es.len()
        invariant
            es@ == m.seq(),
            keys_increasing(m.seq()),
            forall|j: int| 0 <= j < i ==> skip != Some(#[trigger] es@[j].0) ==> es@[j].1.track <= n,
    {
        let skipped = match skip {
            Some(k) => k == es[i].0,
            None => false,
        };
        if !skipped && es[i].1.track as usize > n {
            proof {
                lemma_key_index(m.seq(), i as int);
                let k = es@[i as int].0;
                assert(m@.contains_key(k) && skip != Some(k) && !(m@[k].track <= n));
            }
            return false;
        }
    }
    proof {
        assert forall|id: u16| m@.contains_key(id) && skip != Some(id) implies m@[id].track <= n by {
            assert(has_key(m.seq(), id));
            let j = key_index(m.seq(), id);
            assert(0 <= j < es@.len() && es@[j].0 == id);
            lemma_key_index(m.seq(), j);
            assert(skip != Some(es@[j].0));
        }
    }
    true
}

/// Whether every MIDI region but the one under `skip` lies on a track up to `n`.
fn midi_within(m: &IdMap<MidiRegion>, n: usize, skip: Option<u16>) -> (r: bool)
    ensures
        r == (forall|id: u16| m@.contains_key(id) && skip != Some(id) ==> m@[id].track <= n),
{
    let es = m.entries();
    for i in 0..es.len()
        invariant
            es@ == m.seq(),
            keys_increasing(m.seq()),
            forall|j: int| 0 <= j < i ==> skip != Some(#[trigger] es@[j].0) ==> es@[j].1.track <= n,
    {
        let skipped = match skip {
            Some(k) => k == es[i].0,
            None => false,
        };
        if !skipped && es[i].1.track as usize > n {
            proof {
                lemma_key_index(m.seq(), i as int);
                let k = es@[i as int].0;
                assert(m@.contains_key(k) && skip != Some(k) && !(m@[k].track <= n));
            }
            return false;
        }
    }
    proof {
        assert forall|id: u16| m@.contains_key(id) && skip != Some(id) implies m@[id].track <= n by {
            assert(has_key(m.seq(), id));
            let j = key_index(m.seq(), id);
            assert(0 <= j < es@.len() && es@[j].0 == id);
            lemma_key_index(m.seq(), j);
            assert(skip != Some(es@[j].0));
        }
    }
    true
}

impl TimelineState {
    /// Whether the reducer can take this action; see `reduce_defined`.
    fn reduce_ok(&self, t: &Action) -> (r: bool)
        ensures
            r == reduce_defined(*self, *t),
    {
        if !beat_ready(self) {
            return false;
        }
        match t {
            Action::SoloTrack(id, _) => self.tracks.contains_key(*id),
            Action::MuteTrack(id, _) => self.tracks.contains_key(*id),
            Action::MonitorTrack(id, _) => self.tracks.contains_key(*id),
            Action::RecordTrack(id, _) => self.tracks.contains_key(*id),
            Action::AddRegion(tk, rg, _, _, _, _, _) => global_fits(*tk, *rg),
            Action::SplitRegion(tk, rg, _) => global_fits(*tk, *rg),
            Action::DelRegion(tk, rg) => global_fits(*tk, *rg),
            Action::AddMidiRegion(tk, rg, _, _) => global_fits(*tk, *rg),
            Action::MoveRegion(tk, rg, offset) => {
                if !global_fits(*tk, *rg) {
                    return false;
                }
                let g = global(*tk, *rg);
                match self.midi_regions.get(g) {
                    Some(m) => {
                        let d: i64 = (*offset as i32) as i64 - (m.offset as i32) as i64;
                        if d < i32::MIN as i64 || d > i32::MAX as i64 {
                            false
                        } else {
                            notes_shift_ok(&m.notes, d as i32)
                        }
                    },
                    None => true,
                }
            },
            Action::AddNote(tk, n) => global_fits(*tk, n.r_id),
            Action::Deselect => match self.temp_zoom {
                Some(z) => char_offset_ok(self.playhead, self.sample_rate, self.tempo, z),
                None => true,
            },
            Action::Goto(o) => char_offset_ok(*o, self.sample_rate, self.tempo, self.zoom),
            _ => true,
        }
    }

    /// Whether the regions still lie on existing tracks after an action
    /// that lays the grid out again; see `placeable_after`.
    fn placeable_after_ok(&self, t: &Action) -> (r: bool)
        requires
            reduce_defined(*self, *t),
            *t is DelRegion || *t is SplitRegion || *t is LoopRegion || *t is AddMidiRegion
                || *t is AddRegion || *t is Deselect,
        ensures
            r == placeable_after(*self, *t),
    {
        let n = self.tracks.len();
        let ghost m0 = midi_of(*self);
        let ghost ra = reduced_regions(self.regions@, *t);
        let ghost rm = reduced_midi(m0, *t);
        let (skip_audio, skip_midi, extra): (Option<u16>, Option<u16>, bool) = match t {
            Action::DelRegion(tk, rg) => {
                let g = global(*tk, *rg);
                (Some(g), Some(g), true)
            },
            Action::SplitRegion(tk, rg, _) => {
                let g = global(*tk, *rg);
                (Some(g), Some(g), true)
            },
            Action::AddRegion(tk, rg, _, _, _, _, _) => {
                let g = global(*tk, *rg);
                (Some(g), None, (*tk as usize) <= n)
            },
            Action::AddMidiRegion(tk, rg, _, _) => {
                let g = global(*tk, *rg);
                let last = match self.midi_regions.get(g) {
                    Some(m) => (m.track as usize) <= n,
                    None => (*tk as usize) <= n,
                };
                (None, Some(g), last)
            },
            _ => (None, None, true),
        };
        let aw = audio_within(&self.regions, n, skip_audio);
        let mw = midi_within(&self.midi_regions, n, skip_midi);
        proof {
            assert(forall|id: u16| #[trigger] m0.contains_key(id) <==> self.midi_regions@.contains_key(id));
            assert(forall|id: u16| #[trigger] m0.contains_key(id) ==> m0[id].track == self.midi_regions@[id].track);
            // Outside the skipped id, the reduced maps are the old ones.
            assert(forall|id: u16| skip_audio != Some(id) ==> (#[trigger] ra.contains_key(id) <==> self.regions@.contains_key(id)));
            assert(forall|id: u16| skip_audio != Some(id) && ra.contains_key(id) ==> #[trigger] ra[id].track == self.regions@[id].track);
            assert(forall|id: u16| skip_midi != Some(id) ==> (#[trigger] rm.contains_key(id) <==> m0.contains_key(id)));
            assert(forall|id: u16| skip_midi != Some(id) && rm.contains_key(id) ==> #[trigger] rm[id].track == m0[id].track);
            if !aw {
                let id = choose|id: u16| self.regions@.contains_key(id) && skip_audio != Some(id) && !(self.regions@[id].track <= n);
                assert(ra.contains_key(id));
            }
            if !mw {
                let id = choose|id: u16| self.midi_regions@.contains_key(id) && skip_midi != Some(id) && !(self.midi_regions@[id].track <= n);
                assert(rm.contains_key(id));
            }
            match skip_audio {
                Some(g) => if *t is AddRegion {
                    assert(ra.contains_key(g));
                },
                None => {},
            }
            match skip_midi {
                Some(g) => if *t is AddMidiRegion {
                    assert(rm.contains_key(g));
                },
                None => {},
            }
        }
        aw && mw && extra
    }
}

/// Whether every region of the row ends within 32 bits; see `row_ends_fit`.
fn row_ends_ok(row: &Vec<MultiFocus<TimelineFocus>>, regions: &IdMap<AudioRegion>, midi: &IdMap<MidiRegion>) -> (r: bool)
    ensures
        r == row_ends_fit(row@, regions@, midi@),
{
    for i in 0..row.len()
        invariant
            forall|j: int| 0 <= j < i ==> {
                &&& regions@.contains_key((#[trigger] row@[j]).w_id.1) ==> regions@[row@[j].w_id.1].offset
                    + regions@[row@[j].w_id.1].duration <= u32::MAX
                &&& midi@.contains_key(row@[j].w_id.1) ==> midi@[row@[j].w_id.1].offset
                    + midi@[row@[j].w_id.1].duration <= u32::MAX
            },
    {
        let k = row[i].w_id.1;
        let audio_ok = match regions.get(k) {
            Some(reg) => reg.offset <= u32::MAX - reg.duration,
            None => true,
        };
        let midi_ok = match midi.get(k) {
            Some(reg) => reg.offset <= u32::MAX - reg.duration,
            None => true,
        };
        if !audio_ok || !midi_ok {
            assert(row@[i as int].w_id.1 == k);
            return false;
        }
    }
    true
}

/// The order of track rows: by index, then by id.
pub open spec fn track_key(t: Track, id: u16) -> int {
    t.index * 0x10000 + id
}

/// The order of region cells within a track row: by offset; at equal offsets
/// MIDI regions come before audio regions; then by id.
pub open spec fn region_key(offset: u32, midi: bool, id: u16) -> int {
    offset * 0x20000 + (if midi { 0int } else { 0x10000int }) + id
}

/// `c` is the cell of an audio or MIDI region of the maps.
pub open spec fn is_region_cell(c: MultiFocus<TimelineFocus>, audio: Map<u16, AudioRegion>, midi: Map<u16, MidiRegion>) -> bool {
    ||| c == crate::components::region_audio::spec_new(c.w_id.1) && audio.contains_key(c.w_id.1)
    ||| c == crate::components::region_midi::spec_new(c.w_id.1) && midi.contains_key(c.w_id.1)
}

/// The track a region cell belongs on.
pub open spec fn cell_track(c: MultiFocus<TimelineFocus>, audio: Map<u16, AudioRegion>, midi: Map<u16, MidiRegion>) -> u16 {
    if c.kind == TimelineFocus::AudioRegion { audio[c.w_id.1].track } else { midi[c.w_id.1].track }
}

/// The position key of a region cell within its row.
pub open spec fn cell_key(c: MultiFocus<TimelineFocus>, audio: Map<u16, AudioRegion>, midi: Map<u16, MidiRegion>) -> int {
    if c.kind == TimelineFocus::AudioRegion {
        region_key(audio[c.w_id.1].offset, false, c.w_id.1)
    } else {
        region_key(midi[c.w_id.1].offset, true, c.w_id.1)
    }
}

/// Number of leading cells of row `k` that are not regions.
pub open spec fn row_prefix(k: int) -> int {
    if k == 0 { 2 } else { 1 }
}

/// The region cells of row `k`, in order.
pub open spec fn row_regions(g: Seq<Seq<MultiFocus<TimelineFocus>>>, k: int) -> Seq<MultiFocus<TimelineFocus>> {
    g[k].skip(row_prefix(k))
}

/// The focus grid of the timeline: the transport and meter cells, then one
/// row per track ordered by index (the header cell first), and every region
/// cell on the row numbered by its track, ordered by `region_key`.
pub open spec fn timeline_grid(
    g: Seq<Seq<MultiFocus<TimelineFocus>>>,
    tracks: Map<u16, Track>,
    ntracks: int,
    audio: Map<u16, AudioRegion>,
    midi: Map<u16, MidiRegion>,
) -> bool {
    &&& g.len() == ntracks + 1
    &&& g[0].len() >= 2
    &&& g[0][0] == crate::components::timeline_nav::spec_new()
    &&& g[0][1] == crate::components::timeline_meter::spec_new()
    &&& forall|k: int| 1 <= k < g.len() ==> g[k].len() >= 1
        && #[trigger] g[k][0] == crate::components::track_header::spec_new(g[k][0].w_id.1)
        && tracks.contains_key(g[k][0].w_id.1)
    &&& forall|k: int, l: int| 1 <= k < l < g.len() ==> track_key(tracks[g[k][0].w_id.1], g[k][0].w_id.1)
        < track_key(tracks[g[l][0].w_id.1], g[l][0].w_id.1)
    &&& forall|id: u16| tracks.contains_key(id) ==> exists|k: int| 1 <= k < g.len() && #[trigger] g[k][0].w_id.1 == id
    &&& forall|k: int, i: int, j: int| 0 <= k < g.len() && 0 <= i < j < row_regions(g, k).len()
        ==> cell_key(row_regions(g, k)[i], audio, midi) < cell_key(row_regions(g, k)[j], audio, midi)
    &&& forall|k: int, c: MultiFocus<TimelineFocus>| 0 <= k < g.len() ==> (#[trigger] row_regions(g, k).contains(c)
        <==> is_region_cell(c, audio, midi) && cell_track(c, audio, midi) == k)
}

/// Every region sits on a track that has a row.
pub open spec fn regions_placeable(ntracks: int, audio: Map<u16, AudioRegion>, midi: Map<u16, MidiRegion>) -> bool {
    &&& forall|id: u16| audio.contains_key(id) ==> audio[id].track <= ntracks
    &&& forall|id: u16| midi.contains_key(id) ==> midi[id].track <= ntracks
}

proof fn lemma_key_split(o1: int, r1: int, o2: int, r2: int, c: int)
    by (nonlinear_arith)
    requires
        c > 0,
        0 <= r1 < c,
        0 <= r2 < c,
        o1 >= 0,
        o2 >= 0,
        o1 * c + r1 == o2 * c + r2,
    ensures
        o1 == o2,
        r1 == r2,
{
    if o1 > o2 {
        assert((o1 - o2) * c >= c);
    } else if o2 > o1 {
        assert((o2 - o1) * c >= c);
    }
}

proof fn lemma_region_key_injective(o1: u32, m1: bool, id1: u16, o2: u32, m2: bool, id2: u16)
    requires
        region_key(o1, m1, id1) == region_key(o2, m2, id2),
    ensures
        o1 == o2,
        m1 == m2,
        id1 == id2,
{
    let f1: int = if m1 { 0 } else { 0x10000 };
    let f2: int = if m2 { 0 } else { 0x10000 };
    lemma_key_split(o1 as int, f1 + id1, o2 as int, f2 + id2, 0x20000);
}

proof fn lemma_track_key_injective(t1: Track, id1: u16, t2: Track, id2: u16)
    requires
        track_key(t1, id1) == track_key(t2, id2),
    ensures
        id1 == id2,
{
    lemma_key_split(t1.index as int, id1 as int, t2.index as int, id2 as int, 0x10000);
}

/// Track ids in row order: by index, then by id.
fn track_order(tracks: &IdMap<Track>) -> (r: Vec<(u64, u16)>)
    ensures
        strictly_sorted(r@),
        forall|i: int| 0 <= i < r@.len() ==> tracks@.contains_key(#[trigger] r@[i].1)
            && r@[i].0 == track_key(tracks@[r@[i].1], r@[i].1),
        forall|id: u16| tracks@.contains_key(id) ==> exists|i: int| 0 <= i < r@.len() && #[trigger] r@[i].1 == id,
        r@.len() == tracks.seq().len(),
{
    let entries = tracks.entries();
    let mut keyed: Vec<(u64, u16)> = Vec::new();
    for i in 0..entries.len()
        invariant
            entries@ == tracks.seq(),
            keys_increasing(tracks.seq()),
            keyed@.len() == i,
            forall|j: int| 0 <= j < i ==> keyed@[j].1 == entries@[j].0
                && keyed@[j].0 == track_key(entries@[j].1, entries@[j].0),
    {
        let (id, t) = (entries[i].0, entries[i].1);
        keyed.push((t.index as u64 * 0x10000 + id as u64, id));
    }
    proof {
        assert forall|i: int, j: int| 0 <= i < keyed@.len() && 0 <= j < keyed@.len() && i != j
            implies keyed@[i].0 != keyed@[j].0 by {
            if keyed@[i].0 == keyed@[j].0 {
                lemma_track_key_injective(entries@[i].1, entries@[i].0, entries@[j].1, entries@[j].0);
            }
        }
        assert forall|i: int| 0 <= i < keyed@.len() implies tracks@.contains_key(keyed@[i].1)
            && keyed@[i].0 == track_key(tracks@[keyed@[i].1], keyed@[i].1) by {
            lemma_key_index(tracks.seq(), i);
        }
    }
    let ghost k0 = keyed@;
    let r = sort_by_key(keyed);
    proof {
        assert forall|i: int| 0 <= i < r@.len() implies tracks@.contains_key(#[trigger] r@[i].1)
            && r@[i].0 == track_key(tracks@[r@[i].1], r@[i].1) by {
            assert(r@.contains(r@[i]));
            assert(k0.contains(r@[i]));
        }
        assert forall|id: u16| tracks@.contains_key(id) implies exists|i: int| 0 <= i < r@.len() && #[trigger] r@[i].1 == id by {
            let j = crate::idmap::key_index(tracks.seq(), id);
            assert(k0[j].1 == id);
            assert(k0.contains(k0[j]));
            assert(r@.contains(k0[j]));
        }
    }
    r
}

/// An entry of the region list: its key, its track and its cell.
pub open spec fn entry_ok(x: (u64, (u16, MultiFocus<TimelineFocus>)), audio: Map<u16, AudioRegion>, midi: Map<u16, MidiRegion>) -> bool {
    &&& is_region_cell(x.1.1, audio, midi)
    &&& x.1.0 == cell_track(x.1.1, audio, midi)
    &&& x.0 == cell_key(x.1.1, audio, midi)
}

/// The cells of all regions, keyed by their place in a row.
fn region_entries(audio: &IdMap<AudioRegion>, midi: &IdMap<MidiRegion>) -> (r: Vec<(u64, (u16, MultiFocus<TimelineFocus>))>)
    ensures
        distinct_keys(r@),
        forall|i: int| 0 <= i < r@.len() ==> entry_ok(#[trigger] r@[i], audio@, midi@),
        forall|c: MultiFocus<TimelineFocus>| is_region_cell(c, audio@, midi@) ==> exists|i: int|
            0 <= i < r@.len() && #[trigger] r@[i].1.1 == c,
{
    let ae = audio.entries();
    let me = midi.entries();
    let mut r: Vec<(u64, (u16, MultiFocus<TimelineFocus>))> = Vec::new();
    for i in 0..ae.len()
        invariant
            ae@ == audio.seq(),
            keys_increasing(audio.seq()),
            r@.len() == i,
            forall|j: int| 0 <= j < i ==> (#[trigger] r@[j]).1.1 == crate::components::region_audio::spec_new(ae@[j].0)
                && r@[j].1.0 == ae@[j].1.track && r@[j].0 == region_key(ae@[j].1.offset, false, ae@[j].0),
    {
        let (id, reg) = (ae[i].0, ae[i].1);
        let cell = crate::components::region_audio::new(id);
        r.push((reg.offset as u64 * 0x20000 + 0x10000 + id as u64, (reg.track, cell)));
    }
    let na = r.len();
    for i in 0..me.len()
        invariant
            me@ == midi.seq(),
            keys_increasing(midi.seq()),
            na == ae@.len(),
            r@.len() == na + i,
            forall|j: int| 0 <= j < na ==> (#[trigger] r@[j]).1.1 == crate::components::region_audio::spec_new(ae@[j].0)
                && r@[j].1.0 == ae@[j].1.track && r@[j].0 == region_key(ae@[j].1.offset, false, ae@[j].0),
            forall|j: int| 0 <= j < i ==> (#[trigger] r@[na + j]).1.1 == crate::components::region_midi::spec_new(me@[j].0)
                && r@[na + j].1.0 == me@[j].1.track && r@[na + j].0 == region_key(me@[j].1.offset, true, me@[j].0),
    {
        let id = me[i].0;
        let offset = me[i].1.offset;
        let track = me[i].1.track;
        let cell = crate::components::region_midi::new(id);
        r.push((offset as u64 * 0x20000 + id as u64, (track, cell)));
    }
    proof {
        let n = r@.len();
        assert forall|i: int| 0 <= i < n implies entry_ok(#[trigger] r@[i], audio@, midi@) by {
            if i < na {
                lemma_key_index(audio.seq(), i);
            } else {
                assert(r@[na + (i - na)] == r@[i]);
                lemma_key_index(midi.seq(), i - na);
            }
        }
        assert forall|i: int, j: int| 0 <= i < n && 0 <= j < n && i != j implies r@[i].0 != r@[j].0 by {
            if r@[i].0 == r@[j].0 {
                let (oi, mi, di) = if i < na { (ae@[i].1.offset, false, ae@[i].0) } else {
                    assert(r@[na + (i - na)] == r@[i]);
                    (me@[i - na].1.offset, true, me@[i - na].0)
                };
                let (oj, mj, dj) = if j < na { (ae@[j].1.offset, false, ae@[j].0) } else {
                    assert(r@[na + (j - na)] == r@[j]);
                    (me@[j - na].1.offset, true, me@[j - na].0)
                };
                lemma_region_key_injective(oi, mi, di, oj, mj, dj);
            }
        }
        assert forall|c: MultiFocus<TimelineFocus>| is_region_cell(c, audio@, midi@) implies exists|i: int|
            0 <= i < r@.len() && #[trigger] r@[i].1.1 == c by {
            if c == crate::components::region_audio::spec_new(c.w_id.1) && audio@.contains_key(c.w_id.1) {
                let j = crate::idmap::key_index(audio.seq(), c.w_id.1);
                assert(r@[j].1.1 == c);
            } else {
                let j = crate::idmap::key_index(midi.seq(), c.w_id.1);
                assert(r@[na + j].1.1 == c);
            }
        }
    }
    r
}

/// The focus grid of the timeline; see `timeline_grid`.
pub fn generate_focii(tracks: &IdMap<Track>, audio: &IdMap<AudioRegion>, midi: &IdMap<MidiRegion>)
    -> (r: Vec<Vec<MultiFocus<TimelineFocus>>>)
    requires
        regions_placeable(tracks.seq().len() as int, audio@, midi@),
    ensures
        timeline_grid(grid(r), tracks@, tracks.seq().len() as int, audio@, midi@),
{
    let order = track_order(tracks);
    let mut focii: Vec<Vec<MultiFocus<TimelineFocus>>> = Vec::new();
    let mut head: Vec<MultiFocus<TimelineFocus>> = Vec::new();
    head.push(crate::components::timeline_nav::new());
    head.push(crate::components::timeline_meter::new());
    focii.push(head);
    for i in 0..order.len()
        invariant
            focii@.len() == i + 1,
            focii@[0]@ == seq![crate::components::timeline_nav::spec_new(), crate::components::timeline_meter::spec_new()],
            forall|k: int| 1 <= k <= i ==> #[trigger] focii@[k]@ == seq![crate::components::track_header::spec_new(order@[k - 1].1)],
    {
        let mut row: Vec<MultiFocus<TimelineFocus>> = Vec::new();
        row.push(crate::components::track_header::new(order[i].1));
        focii.push(row);
    }
    let unsorted = region_entries(audio, midi);
    let ghost u = unsorted@;
    let entries = sort_by_key(unsorted);
    let ghost n: int = order@.len() as int;
    let ghost e = entries@;
    proof {
        assert forall|i: int| 0 <= i < e.len() implies entry_ok(#[trigger] e[i], audio@, midi@) by {
            assert(e.contains(e[i]));
        }
        assert forall|k: int, c: MultiFocus<TimelineFocus>| 0 <= k < focii@.len() implies
            !(#[trigger] row_regions(grid(focii), k).contains(c)) by {
            assert(row_regions(grid(focii), k).len() == 0);
        }
    }
    for i in 0..entries.len()
        invariant
            e == entries@,
            strictly_sorted(e),
            forall|i: int| 0 <= i < e.len() ==> entry_ok(#[trigger] e[i], audio@, midi@),
            forall|x: (u64, (u16, MultiFocus<TimelineFocus>))| e.contains(x) <==> u.contains(x),
            forall|c: MultiFocus<TimelineFocus>| is_region_cell(c, audio@, midi@) ==> exists|j: int|
                0 <= j < u.len() && #[trigger] u[j].1.1 == c,
            regions_placeable(n, audio@, midi@),
            focii@.len() == n + 1,
            grid(focii)[0].len() >= 2,
            grid(focii)[0][0] == crate::components::timeline_nav::spec_new(),
            grid(focii)[0][1] == crate::components::timeline_meter::spec_new(),
            forall|k: int| 1 <= k <= n ==> grid(focii)[k].len() >= 1
                && #[trigger] grid(focii)[k][0] == crate::components::track_header::spec_new(order@[k - 1].1),
            forall|k: int, c: MultiFocus<TimelineFocus>| 0 <= k < focii@.len() ==> (#[trigger] row_regions(grid(focii), k).contains(c)
                <==> exists|j: int| 0 <= j < i && e[j].1.1 == c && e[j].1.0 == k),
            forall|k: int, a: int, b: int| 0 <= k < focii@.len() && 0 <= a < b < row_regions(grid(focii), k).len()
                ==> cell_key(row_regions(grid(focii), k)[a], audio@, midi@) < cell_key(row_regions(grid(focii), k)[b], audio@, midi@),
    {
        let x = entries[i];
        let t = (x.1).0;
        let cell = (x.1).1;
        let ghost g0 = grid(focii);
        assert(entry_ok(e[i as int], audio@, midi@));
        assert(t <= n);
        let mut row = focii.remove(t as usize);
        row.push(cell);
        focii.insert(t as usize, row);
        proof {
            let g1 = grid(focii);
            assert forall|k: int| 0 <= k < g1.len() && k != t implies g1[k] == g0[k] by {}
            assert(g1[t as int] =~= g0[t as int].push(cell));
            if t > 0 {
                assert(g0[t as int][0] == crate::components::track_header::spec_new(order@[t - 1].1));
            }
            assert(g0[t as int].len() >= row_prefix(t as int));
            assert(row_regions(g1, t as int) =~= row_regions(g0, t as int).push(cell));
            assert forall|k: int, c: MultiFocus<TimelineFocus>| 0 <= k < focii@.len() implies (#[trigger] row_regions(g1, k).contains(c)
                <==> exists|j: int| 0 <= j < i + 1 && e[j].1.1 == c && e[j].1.0 == k) by {
                if k != t {
                    assert(row_regions(g1, k) == row_regions(g0, k));
                } else {
                    if row_regions(g1, k).contains(c) && c != cell {
                        let m = choose|m: int| 0 <= m < row_regions(g1, k).len() && row_regions(g1, k)[m] == c;
                        assert(row_regions(g0, k)[m] == c);
                        assert(row_regions(g0, k).contains(c));
                    }
                    if exists|j: int| 0 <= j < i + 1 && e[j].1.1 == c && e[j].1.0 == k {
                        let j = choose|j: int| 0 <= j < i + 1 && e[j].1.1 == c && e[j].1.0 == k;
                        if j < i {
                            assert(row_regions(g0, k).contains(c));
                            let m = choose|m: int| 0 <= m < row_regions(g0, k).len() && row_regions(g0, k)[m] == c;
                            assert(row_regions(g1, k)[m] == c);
                        } else {
                            assert(row_regions(g1, k)[row_regions(g1, k).len() - 1] == c);
                        }
                    }
                }
            }
            assert forall|k: int, a: int, b: int| 0 <= k < focii@.len() && 0 <= a < b < row_regions(g1, k).len()
                implies cell_key(row_regions(g1, k)[a], audio@, midi@) < cell_key(row_regions(g1, k)[b], audio@, midi@) by {
                if k == t && b == row_regions(g1, k).len() - 1 {
                    let ca = row_regions(g0, k)[a];
                    assert(row_regions(g0, k).contains(ca));
                    let j = choose|j: int| 0 <= j < i && e[j].1.1 == ca && e[j].1.0 == k;
                    assert(entry_ok(e[j], audio@, midi@));
                    assert(e[j].0 < e[i as int].0);
                } else if k == t {
                    assert(row_regions(g1, k)[a] == row_regions(g0, k)[a]);
                    assert(row_regions(g1, k)[b] == row_regions(g0, k)[b]);
                } else {
                    assert(row_regions(g1, k) == row_regions(g0, k));
                }
            }
        }
    }
    proof {
        let g = grid(focii);
        assert forall|k: int| 1 <= k < g.len() implies g[k].len() >= 1
            && #[trigger] g[k][0] == crate::components::track_header::spec_new(g[k][0].w_id.1)
            && tracks@.contains_key(g[k][0].w_id.1) by {
            assert(g[k][0] == crate::components::track_header::spec_new(order@[k - 1].1));
        }
        assert forall|k: int, l: int| 1 <= k < l < g.len() implies track_key(tracks@[g[k][0].w_id.1], g[k][0].w_id.1)
            < track_key(tracks@[g[l][0].w_id.1], g[l][0].w_id.1) by {
            assert(g[k][0] == crate::components::track_header::spec_new(order@[k - 1].1));
            assert(g[l][0] == crate::components::track_header::spec_new(order@[l - 1].1));
        }
        assert forall|id: u16| tracks@.contains_key(id) implies exists|k: int| 1 <= k < g.len() && #[trigger] g[k][0].w_id.1 == id by {
            let i = choose|i: int| 0 <= i < order@.len() && #[trigger] order@[i].1 == id;
            assert(g[i + 1][0] == crate::components::track_header::spec_new(order@[i].1));
        }
        assert forall|k: int, c: MultiFocus<TimelineFocus>| 0 <= k < g.len() implies (#[trigger] row_regions(g, k).contains(c)
            <==> is_region_cell(c, audio@, midi@) && cell_track(c, audio@, midi@) == k) by {
            if row_regions(g, k).contains(c) {
                let j = choose|j: int| 0 <= j < e.len() && e[j].1.1 == c && e[j].1.0 == k;
                assert(entry_ok(e[j], audio@, midi@));
            }
            if is_region_cell(c, audio@, midi@) && cell_track(c, audio@, midi@) == k {
                let j = choose|j: int| 0 <= j < u.len() && #[trigger] u[j].1.1 == c;
                assert(u.contains(u[j]));
                assert(e.contains(u[j]));
                let m = choose|m: int| 0 <= m < e.len() && e[m] == u[j];
                assert(entry_ok(e[m], audio@, midi@));
                assert(e[m].1.1 == c && e[m].1.0 == k);
            }
        }
    }
    focii
}

/// The playhead at `time` lies within region cell `c` (audio or MIDI).
pub open spec fn cell_hit(c: MultiFocus<TimelineFocus>, regions: Map<u16, AudioRegion>, midi: Map<u16, MidiRegion>, time: u32) -> bool {
    ||| regions.contains_key(c.w_id.1) && regions[c.w_id.1].offset <= time
        < regions[c.w_id.1].offset + regions[c.w_id.1].duration
    ||| midi.contains_key(c.w_id.1) && midi[c.w_id.1].offset <= time
        < midi[c.w_id.1].offset + midi[c.w_id.1].duration
}

/// The ends of the regions named by the row's cells fit in 32 bits.
pub open spec fn row_ends_fit(row: Seq<MultiFocus<TimelineFocus>>, regions: Map<u16, AudioRegion>, midi: Map<u16, MidiRegion>) -> bool {
    forall|i: int| 0 <= i < row.len() ==> {
        &&& regions.contains_key((#[trigger] row[i]).w_id.1) ==> regions[row[i].w_id.1].offset
            + regions[row[i].w_id.1].duration <= u32::MAX
        &&& midi.contains_key(row[i].w_id.1) ==> midi[row[i].w_id.1].offset
            + midi[row[i].w_id.1].duration <= u32::MAX
    }
}

/// The last cell of the row whose region lies under the playhead, or `dflt`.
pub open spec fn goto_index(row: Seq<MultiFocus<TimelineFocus>>, regions: Map<u16, AudioRegion>, midi: Map<u16, MidiRegion>, time: u32, dflt: int) -> int
    decreases row.len(),
{
    if row.len() == 0 {
        dflt
    } else if cell_hit(row.last(), regions, midi, time) {
        row.len() - 1
    } else {
        goto_index(row.drop_last(), regions, midi, time, dflt)
    }
}

/// Finds the cell under the playhead in a row.
fn goto_focus(row: &Vec<MultiFocus<TimelineFocus>>, s: &TimelineState, time: u32, dflt: usize) -> (r: usize)
    requires
        row_ends_fit(row@, s.regions@, s.midi_regions@),
    ensures
        r == goto_index(row@, s.regions@, s.midi_regions@, time, dflt as int),
{
    let mut found = dflt;
    for i in 0..row.len()
        invariant
            row_ends_fit(row@, s.regions@, s.midi_regions@),
            found == goto_index(row@.take(i as int), s.regions@, s.midi_regions@, time, dflt as int),
    {
        let c = row[i];
        assert(row@.take(i + 1).drop_last() =~= row@.take(i as int));
        assert(row@[i as int] == c);
        let mut hit = false;
        match s.regions.get(c.w_id.1) {
            Some(r) => {
                if time >= r.offset && time < r.offset + r.duration {
                    hit = true;
                }
            },
            None => {},
        }
        match s.midi_regions.get(c.w_id.1) {
            Some(m) => {
                if time >= m.offset && time < m.offset + m.duration {
                    hit = true;
                }
            },
            None => {},
        }
        if hit {
            found = i;
        }
    }
    assert(row@.take(row@.len() as int) =~= row@);
    found
}

/// The first index in a row of a cell with the given white id.
pub open spec fn first_in_row(row: Seq<MultiFocus<TimelineFocus>>, id: ID) -> Option<int>
    decreases row.len(),
{
    if row.len() == 0 {
        None
    } else {
        match first_in_row(row.drop_last(), id) {
            Some(i) => Some(i),
            None => if row.last().w_id == id { Some(row.len() - 1) } else { None },
        }
    }
}

/// The first cell, row by row, with the given white id.
pub open spec fn find_cell(g: Seq<Seq<MultiFocus<TimelineFocus>>>, id: ID) -> Option<(usize, usize)>
    decreases g.len(),
{
    if g.len() == 0 {
        None
    } else {
        match find_cell(g.drop_last(), id) {
            Some(p) => Some(p),
            None => match first_in_row(g.last(), id) {
                Some(i) => Some((i as usize, (g.len() - 1) as usize)),
                None => None,
            },
        }
    }
}

fn search_row(row: &Vec<MultiFocus<TimelineFocus>>, id: ID) -> (r: Option<usize>)
    ensures
        r matches Some(i) ==> first_in_row(row@, id) == Some(i as int),
        r is None ==> first_in_row(row@, id) is None,
{
    for i in 0..row.len()
        invariant
            first_in_row(row@.take(i as int), id) is None,
    {
        assert(row@.take(i + 1).drop_last() =~= row@.take(i as int));
        if row[i].w_id == id {
            proof { lemma_first_prefix(row@, id, i + 1); }
            return Some(i);
        }
    }
    assert(row@.take(row@.len() as int) =~= row@);
    None
}

proof fn lemma_first_prefix(row: Seq<MultiFocus<TimelineFocus>>, id: ID, n: int)
    requires
        0 <= n <= row.len(),
        first_in_row(row.take(n), id) is Some,
    ensures
        first_in_row(row, id) == first_in_row(row.take(n), id),
    decreases row.len() - n,
{
    if n < row.len() {
        assert(row.take(n + 1).drop_last() =~= row.take(n));
        lemma_first_prefix(row, id, n + 1);
    } else {
        assert(row.take(n) =~= row);
    }
}

proof fn lemma_find_prefix(g: Seq<Seq<MultiFocus<TimelineFocus>>>, id: ID, n: int)
    requires
        0 <= n <= g.len(),
        find_cell(g.take(n), id) is Some,
    ensures
        find_cell(g, id) == find_cell(g.take(n), id),
    decreases g.len() - n,
{
    if n < g.len() {
        assert(g.take(n + 1).drop_last() =~= g.take(n));
        lemma_find_prefix(g, id, n + 1);
    } else {
        assert(g.take(n) =~= g);
    }
}

/// Finds the first cell with the given white id.
fn search_grid(focii: &Vec<Vec<MultiFocus<TimelineFocus>>>, id: ID) -> (r: Option<(usize, usize)>)
    ensures
        r == find_cell(grid(*focii), id),
{
    let ghost g = grid(*focii);
    for j in 0..focii.len()
        invariant
            g == grid(*focii),
            find_cell(g.take(j as int), id) is None,
    {
        assert(g.take(j + 1).drop_last() =~= g.take(j as int));
        assert(g.take(j + 1).last() == focii@[j as int]@);
        match search_row(&focii[j], id) {
            Some(i) => {
                proof { lemma_find_prefix(g, id, j + 1); }
                return Some((i, j));
            },
            None => {},
        }
    }
    assert(g.take(g.len() as int) =~= g);
    None
}

/// An anchor of track `id`: its index, direction and name.
pub open spec fn track_anchor(a: Anchor, index: int, input: bool, id: u16) -> bool {
    &&& a.index == index
    &&& a.module_id == 0
    &&& a.input == input
    &&& a.name@ == seq!['T', 'r', 'a', 'c', 'k', ' '] + crate::text::decimal(id as nat)
}

/// The anchors a timeline offers for patching: an output then an input per
/// track, in track id order, both named after the track.
pub open spec fn track_anchors_ok(v: Seq<Anchor>, tracks: Seq<(u16, Track)>) -> bool {
    &&& v.len() == 2 * tracks.len()
    &&& forall|k: int| #![trigger tracks[k]] 0 <= k < tracks.len() ==> track_anchor(v[2 * k], 2 * k, false, tracks[k].0)
        && track_anchor(v[2 * k + 1], 2 * k + 1, true, tracks[k].0)
}

/// The anchors a timeline offers for patching.
fn track_anchors(tracks: &IdMap<Track>) -> (r: Vec<Anchor>)
    requires
        2 * tracks.seq().len() <= u16::MAX + 1,
    ensures
        track_anchors_ok(r@, tracks.seq()),
{
    let entries = tracks.entries();
    let mut anchors: Vec<Anchor> = Vec::new();
    let mut counter: u32 = 0;
    for k in 0..entries.len()
        invariant
            entries@ == tracks.seq(),
            2 * entries@.len() <= u16::MAX + 1,
            counter == 2 * k,
            track_anchors_ok(anchors@, entries@.take(k as int)),
    {
        let id = entries[k].0;
        proof { reveal_strlit("Track "); }
        let ghost label = seq!['T', 'r', 'a', 'c', 'k', ' '] + crate::text::decimal(id as nat);
        let ghost before = anchors@;
        let out_name = crate::text::labeled("Track ", id);
        let in_name = crate::text::labeled("Track ", id);
        assert(out_name@ == label);
        assert(in_name@ == label);
        anchors.push(Anchor { name: out_name, index: counter as u16, module_id: 0, input: false });
        counter = counter + 1;
        anchors.push(Anchor { name: in_name, index: counter as u16, module_id: 0, input: true });
        counter = counter + 1;
        proof {
            let t = entries@.take(k + 1);
            assert(t[k as int].0 == id);
            assert forall|m: int| #![trigger t[m]] 0 <= m < t.len() implies track_anchor(anchors@[2 * m], 2 * m, false, t[m].0)
                && track_anchor(anchors@[2 * m + 1], 2 * m + 1, true, t[m].0) by {
                if m < k {
                    assert(entries@.take(k as int)[m] == t[m]);
                    assert(anchors@[2 * m] == before[2 * m]);
                    assert(anchors@[2 * m + 1] == before[2 * m + 1]);
                }
            }
            assert(anchors@.len() == 2 * t.len());
            assert(track_anchors_ok(anchors@, t));
        }
    }
    assert(entries@.take(entries@.len() as int) =~= entries@);
    anchors
}

/// The state after `t` can be laid out as a grid again.
pub open spec fn placeable_after(s: TimelineState, t: Action) -> bool {
    let n = s.tracks.seq().len() as int;
    &&& forall|id: u16| reduced_regions(s.regions@, t).contains_key(id) ==> reduced_regions(s.regions@, t)[id].track <= n
    &&& forall|id: u16| reduced_midi(midi_of(s), t).contains_key(id) ==> reduced_midi(midi_of(s), t)[id].track <= n
}

/// The transformed action makes the timeline lay out its focus grid again.
pub open spec fn regenerates(t: Action, cell: MultiFocus<TimelineFocus>) -> bool {
    ||| t is DelRegion || t is SplitRegion || t is LoopRegion || t is AddMidiRegion || t is AddRegion
    ||| t is Deselect && cell.w_id.0 == FocusType::Region
}

/// The timeline can handle the action without an arithmetic or lookup failure.
pub open spec fn dispatch_defined(tl: Timeline, a: Action) -> bool {
    let f = tl.state.focus;
    let g = grid(tl.focii);
    in_grid(f, g) && {
        let cell = g[f.1 as int][f.0 as int];
        let t = spec_cell_transform(cell, a, tl.state);
        &&& crate::focus::cell_transform_defined(cell, a, tl.state)
        &&& reduce_defined(tl.state, t)
        &&& regenerates(t, cell) ==> placeable_after(tl.state, t)
        &&& (t is DelRegion || t is SplitRegion) ==> f.0 >= 1
        &&& (t is Goto && cell.w_id.0 == FocusType::Region) ==> row_ends_fit(g[f.1 as int], tl.state.regions@, tl.state.midi_regions@)
        &&& t is Route ==> 2 * tl.state.tracks.seq().len() <= u16::MAX + 1
        &&& crate::action::is_arrow(t) ==> shift_defined(f, grid_after(f, g, a), t)
    }
}

/// Where the focus goes and what is handed back, for a transformed action
/// `t` (other than the patching request and a release over a region):
/// deleting or splitting a region moves the focus left; the playhead jumping
/// selects the region under it; arrows over a region scrub the playhead
/// (left moves the focus once the playhead is at the start); settings and
/// transport requests are handed back.
pub open spec fn dispatch_outcome(
    f: (usize, usize),
    ga: Seq<Seq<MultiFocus<TimelineFocus>>>,
    cell: MultiFocus<TimelineFocus>,
    t: Action,
    s1: TimelineState,
) -> ((usize, usize), Option<Action>) {
    let on_region = cell.w_id.0 == FocusType::Region;
    match t {
        Action::DelRegion(_, _) | Action::SplitRegion(_, _, _) => ((((f.0 - 1) as usize), f.1), Some(t)),
        Action::LoopRegion(_, _) => (f, Some(t)),
        Action::AddMidiRegion(_, _, _, _) | Action::AddRegion(_, _, _, _, _, _, _) => (f, None),
        Action::Goto(time) => if on_region {
            ((goto_index(ga[f.1 as int], s1.regions@, s1.midi_regions@, time, f.0 as int) as usize, f.1), Some(Action::Noop))
        } else {
            (f, Some(Action::Noop))
        },
        Action::Left => if on_region && s1.playhead != 0 {
            (f, Some(Action::Scrub(false)))
        } else {
            spec_shift(f, ga, Action::Left)
        },
        Action::Right => if on_region { (f, Some(Action::Scrub(true))) } else { spec_shift(f, ga, Action::Right) },
        Action::Up | Action::Down => spec_shift(f, ga, t),
        Action::MoveRegion(_, _, _) | Action::Zoom(_) | Action::SetLoop(_, _) | Action::LoopMode(_)
        | Action::SetMeter(_, _) | Action::SetTempo(_) | Action::RecordTrack(_, _) | Action::MuteTrack(_, _)
        | Action::SoloTrack(_, _) | Action::MonitorTrack(_, _) | Action::Record | Action::Play
        | Action::Stop => (f, Some(t)),
        _ => (f, None),
    }
}

/// The timeline view: where it sits on screen, its state and its focus grid.
pub struct Timeline {
    pub x: u16,
    pub y: u16,
    pub height: u16,
    pub width: u16,
    pub state: TimelineState,
    pub focii: Vec<Vec<MultiFocus<TimelineFocus>>>,
}

/// The focus grid of a timeline state.
pub open spec fn grid_of(g: Seq<Seq<MultiFocus<TimelineFocus>>>, s: TimelineState) -> bool {
    timeline_grid(g, s.tracks@, s.tracks.seq().len() as int, s.regions@, s.midi_regions@)
}

/// A state whose grid can be laid out.
pub open spec fn placeable(s: TimelineState) -> bool {
    regions_placeable(s.tracks.seq().len() as int, s.regions@, s.midi_regions@)
}

impl Timeline {
    /// A timeline over a state read from a project document; the playhead is
    /// kept in the middle of the region area when scrolling.
    pub fn new(x: u16, y: u16, width: u16, height: u16, state: TimelineState) -> (r: Self)
        requires
            width >= REGIONS_X,
            placeable(state),
        ensures
            r.x == x && r.y == y && r.width == width && r.height == height,
            r.state == (TimelineState { scroll_mid: ((width - REGIONS_X) / 2) as u16, ..state }),
            grid_of(grid(r.focii), r.state),
    {
        let mut state = state;
        state.scroll_mid = (width - REGIONS_X) / 2;
        let focii = generate_focii(&state.tracks, &state.regions, &state.midi_regions);
        Timeline { x, y, width, height, state, focii }
    }

    /// Runs an action through the focused cell, the reducer and the focus
    /// grid. Returns the action handed back to the main loop and the waveform
    /// sketches to redraw; see `dispatch_outcome`.
    pub fn dispatch(&mut self, action: Action) -> (r: (Action, WaveformWork))
        requires
            dispatch_defined(*old(self), action),
        ensures
            ({
                let f = old(self).state.focus;
                let g = grid(old(self).focii);
                let cell = g[f.1 as int][f.0 as int];
                let t = spec_cell_transform(cell, action, old(self).state);
                let ga = grid_after(f, g, action);
                &&& state_reduced(old(self).state, t, final(self).state)
                &&& waveform_work(old(self).state, t, r.1)
                &&& final(self).x == old(self).x && final(self).y == old(self).y
                &&& final(self).width == old(self).width && final(self).height == old(self).height
                &&& if regenerates(t, cell) {
                    grid_of(grid(final(self).focii), final(self).state)
                } else {
                    grid(final(self).focii) == ga
                }
                &&& if t is Route {
                    &&& final(self).state.focus == f
                    &&& r.0 matches Action::ShowAnchors(v) && track_anchors_ok(v@, final(self).state.tracks.seq())
                } else if t is Deselect && cell.w_id.0 == FocusType::Region {
                    &&& final(self).state.focus == (match find_cell(grid(final(self).focii), cell.w_id) {
                        Some(p) => p,
                        None => f,
                    })
                    &&& r.0 is Noop
                } else {
                    let o = dispatch_outcome(f, ga, cell, t, final(self).state);
                    &&& final(self).state.focus == o.0
                    &&& r.0 == (match o.1 { Some(x) => x, None => Action::Noop })
                }
            }),
    {
        let f = self.state.focus;
        let ghost g = grid(self.focii);
        let ghost s0 = self.state;
        let mut cell = self.focii[f.1][f.0];
        let t = cell.transform(action, &self.state);
        let mut row = self.focii.remove(f.1);
        row.set(f.0, cell);
        self.focii.insert(f.1, row);
        assert(grid(self.focii) =~= grid_after(f, g, action)) by {
            assert(grid(self.focii)[f.1 as int] =~= grid_after(f, g, action)[f.1 as int]);
        }
        let kind = cell.w_id.0;
        let work = reduce_state(&mut self.state, &t);
        proof {
            if regenerates(t, g[f.1 as int][f.0 as int]) {
                assert(placeable(self.state)) by {
                    assert forall|id: u16| self.state.midi_regions@.contains_key(id) implies
                        self.state.midi_regions@[id].track <= self.state.tracks.seq().len() by {
                        assert(midi_of(self.state).contains_key(id));
                        assert(midi_of(self.state)[id].track == self.state.midi_regions@[id].track);
                    }
                }
            }
        }
        let (focus, default): ((usize, usize), Option<Action>) = match t {
            Action::DelRegion(_, _) | Action::SplitRegion(_, _, _) => {
                self.focii = generate_focii(&self.state.tracks, &self.state.regions, &self.state.midi_regions);
                ((f.0 - 1, f.1), Some(t))
            },
            Action::LoopRegion(_, _) => {
                self.focii = generate_focii(&self.state.tracks, &self.state.regions, &self.state.midi_regions);
                (f, Some(t))
            },
            Action::AddMidiRegion(_, _, _, _) | Action::AddRegion(_, _, _, _, _, _, _) => {
                self.focii = generate_focii(&self.state.tracks, &self.state.regions, &self.state.midi_regions);
                (f, None)
            },
            Action::Goto(time) => match kind {
                FocusType::Region => {
                    assert(self.focii@[f.1 as int]@ == grid(self.focii)[f.1 as int]);
                    proof {
                        let row = grid(self.focii)[f.1 as int];
                        assert(self.state.regions@ == s0.regions@);
                        assert(midi_of(self.state) == midi_of(s0));
                        assert forall|i: int| 0 <= i < row.len() implies {
                            &&& self.state.regions@.contains_key((#[trigger] row[i]).w_id.1) ==> self.state.regions@[row[i].w_id.1].offset
                                + self.state.regions@[row[i].w_id.1].duration <= u32::MAX
                            &&& self.state.midi_regions@.contains_key(row[i].w_id.1) ==> self.state.midi_regions@[row[i].w_id.1].offset
                                + self.state.midi_regions@[row[i].w_id.1].duration <= u32::MAX
                        } by {
                            assert(row[i].w_id == g[f.1 as int][i].w_id);
                            assert(self.state.midi_regions@.contains_key(row[i].w_id.1) == midi_of(self.state).contains_key(row[i].w_id.1));
                            assert(s0.midi_regions@.contains_key(row[i].w_id.1) == midi_of(s0).contains_key(row[i].w_id.1));
                            if self.state.midi_regions@.contains_key(row[i].w_id.1) {
                                assert(midi_of(self.state)[row[i].w_id.1] == midi_of(s0)[row[i].w_id.1]);
                            }
                            assert(g[f.1 as int][i] == g[f.1 as int][i]);
                        }
                    }
                    let new_focus = goto_focus(&self.focii[f.1], &self.state, time, f.0);
                    ((new_focus, f.1), Some(Action::Noop))
                },
                _ => (f, Some(Action::Noop)),
            },
            Action::Left => match kind {
                FocusType::Region => if self.state.playhead == 0 {
                    shift_focus(f, &self.focii, Action::Left)
                } else {
                    (f, Some(Action::Scrub(false)))
                },
                _ => shift_focus(f, &self.focii, Action::Left),
            },
            Action::Right => match kind {
                FocusType::Region => (f, Some(Action::Scrub(true))),
                _ => shift_focus(f, &self.focii, Action::Right),
            },
            Action::Up => shift_focus(f, &self.focii, Action::Up),
            Action::Down => shift_focus(f, &self.focii, Action::Down),
            Action::Deselect => match kind {
                FocusType::Region => {
                    self.focii = generate_focii(&self.state.tracks, &self.state.regions, &self.state.midi_regions);
                    let found = search_grid(&self.focii, cell.w_id);
                    match found {
                        Some(p) => (p, None),
                        None => (f, None),
                    }
                },
                _ => (f, None),
            },
            Action::Route => (f, Some(Action::ShowAnchors(track_anchors(&self.state.tracks)))),
            Action::MoveRegion(_, _, _) | Action::Zoom(_) | Action::SetLoop(_, _) | Action::LoopMode(_)
            | Action::SetMeter(_, _) | Action::SetTempo(_) | Action::RecordTrack(_, _) | Action::MuteTrack(_, _)
            | Action::SoloTrack(_, _) | Action::MonitorTrack(_, _) | Action::Record | Action::Play
            | Action::Stop => (f, Some(t)),
            _ => (f, None),
        };
        self.state.focus = focus;
        let out = match default {
            Some(a) => a,
            None => Action::Noop,
        };
        (out, work)
    }

    /// Whether `dispatch` can take this action; see `dispatch_defined`. The
    /// focused cell's held control is asked what it makes of the action,
    /// and that is checked against the state and the grid.
    pub fn can_dispatch(&self, action: &Action) -> (r: bool)
        ensures
            r == dispatch_defined(*self, *action),
    {
        let f = self.state.focus;
        if f.1 >= self.focii.len() || f.0 >= self.focii[f.1].len() {
            return false;
        }
        let ghost g = grid(self.focii);
        let cell = self.focii[f.1][f.0];
        assert(cell == g[f.1 as int][f.0 as int]);
        let fresh: Option<Action> = match held_after(&cell, action) {
            Some(c) => {
                if !self.state.transform_ok(&cell.kind, c, cell.id_of(c), action) {
                    return false;
                }
                self.state.transform_ref(&cell.kind, c, cell.id_of(c), action)
            },
            None => None,
        };
        let t: &Action = match &fresh {
            Some(x) => x,
            None => action,
        };
        assert(*t == spec_cell_transform(cell, *action, self.state));
        if !self.state.reduce_ok(t) {
            return false;
        }
        let on_region = cell.w_id.0 == FocusType::Region;
        let regen = match t {
            Action::DelRegion(_, _) | Action::SplitRegion(_, _, _) | Action::LoopRegion(_, _)
            | Action::AddMidiRegion(_, _, _, _) | Action::AddRegion(_, _, _, _, _, _, _) => true,
            Action::Deselect => on_region,
            _ => false,
        };
        if regen && !self.state.placeable_after_ok(t) {
            return false;
        }
        match t {
            Action::DelRegion(_, _) | Action::SplitRegion(_, _, _) => f.0 >= 1,
            Action::Goto(_) => !on_region || row_ends_ok(&self.focii[f.1], &self.state.regions, &self.state.midi_regions),
            Action::Route => self.state.tracks.len() <= 0x8000,
            Action::Up | Action::Down | Action::Left | Action::Right => shift_ready(f, &self.focii, &self.state, action),
            _ => true,
        }
    }

    /// A timeline never lets the layers below show through.
    pub fn alpha(&self) -> (r: bool)
        ensures
            !r,
    {
        false
    }
}

/// Shifting a time by the distance between two offsets, in 32-bit signed
/// arithmetic, moves it by that distance (modulo 2^32).
proof fn lemma_shift_time(a: u32, to: u32, from: u32)
    requires
        i32::MIN <= (to as i32) - (from as i32) <= i32::MAX,
        i32::MIN <= (a as i32) + (((to as i32) - (from as i32)) as i32) <= i32::MAX,
    ensures
        ((((a as i32) + (((to as i32) - (from as i32)) as i32)) as i32) as u32) as int
            == (a + to - from) % 0x1_0000_0000,
{
    assert(((((a as i32) + (((to as i32) - (from as i32)) as i32)) as i32) as u32) as int
        == (a + to - from) % 0x1_0000_0000) by (bit_vector)
        requires
            i32::MIN <= (to as i32) - (from as i32) <= i32::MAX,
            i32::MIN <= (a as i32) + (((to as i32) - (from as i32)) as i32) <= i32::MAX,
    ;
}

/// Moving a MIDI region moves its notes with it: the region starts at the
/// new offset, keeps its length and track, and every note keeps its key,
/// velocity and id and is moved by the distance the region moved (times
/// are 32-bit, so modulo 2^32), staying where it was relative to the
/// region's start. Other regions are left as they were.
pub proof fn law_move_midi_region_moves_notes(s: TimelineState, t: u16, r: u16, offset: u32, s2: TimelineState)
    requires
        reduce_defined(s, Action::MoveRegion(t, r, offset)),
        state_reduced(s, Action::MoveRegion(t, r, offset), s2),
        midi_of(s).contains_key(global_id(t, r) as u16),
    ensures
        ({
            let g = global_id(t, r) as u16;
            let old = midi_of(s)[g];
            let new = midi_of(s2)[g];
            &&& midi_of(s2).contains_key(g)
            &&& new.offset == offset
            &&& new.duration == old.duration
            &&& new.track == old.track
            &&& new.notes.len() == old.notes.len()
            &&& forall|i: int| 0 <= i < old.notes.len() ==> {
                let n0 = #[trigger] old.notes[i];
                let n1 = new.notes[i];
                &&& n1.t_in as int == (n0.t_in + offset - old.offset) % 0x1_0000_0000
                &&& n1.t_out as int == (n0.t_out + offset - old.offset) % 0x1_0000_0000
                &&& n1.id == n0.id && n1.r_id == n0.r_id && n1.note == n0.note && n1.vel == n0.vel
            }
            &&& forall|k: u16| k != g ==> midi_of(s2).contains_key(k) == midi_of(s).contains_key(k)
                && (midi_of(s).contains_key(k) ==> #[trigger] midi_of(s2)[k] == midi_of(s)[k])
        }),
{
    let g = global_id(t, r) as u16;
    let old = midi_of(s)[g];
    assert(s.midi_regions@.contains_key(g));
    assert(old == s.midi_regions@[g]@);
    let diff = move_diff(offset, old.offset);
    assert forall|i: int| 0 <= i < old.notes.len() implies {
        let n0 = #[trigger] old.notes[i];
        let n1 = midi_of(s2)[g].notes[i];
        &&& n1.t_in as int == (n0.t_in + offset - old.offset) % 0x1_0000_0000
        &&& n1.t_out as int == (n0.t_out + offset - old.offset) % 0x1_0000_0000
        &&& n1.id == n0.id && n1.r_id == n0.r_id && n1.note == n0.note && n1.vel == n0.vel
    } by {
        let n0 = old.notes[i];
        assert(notes_shift_defined(old.notes, diff as i32));
        assert(i32::MIN <= (n0.t_in as i32) + (diff as i32) <= i32::MAX);
        assert(i32::MIN <= (n0.t_out as i32) + (diff as i32) <= i32::MAX);
        lemma_shift_time(n0.t_in, offset, old.offset);
        lemma_shift_time(n0.t_out, offset, old.offset);
    }
}

/// Moving an audio region puts it at the new offset and changes nothing
/// else of it (its asset, the part of the asset it plays, its length and
/// track); other regions are left as they were.
pub proof fn law_move_audio_region(s: TimelineState, t: u16, r: u16, offset: u32, s2: TimelineState)
    requires
        state_reduced(s, Action::MoveRegion(t, r, offset), s2),
        global_id(t, r) <= u16::MAX,
        s.regions@.contains_key(global_id(t, r) as u16),
    ensures
        ({
            let g = global_id(t, r) as u16;
            let old = s.regions@[g];
            let new = s2.regions@[g];
            &&& s2.regions@.contains_key(g)
            &&& new.offset == offset
            &&& new.asset_id == old.asset_id && new.asset_in == old.asset_in
            &&& new.duration == old.duration && new.track == old.track
            &&& forall|k: u16| k != g ==> s2.regions@.contains_key(k) == s.regions@.contains_key(k)
                && (s.regions@.contains_key(k) ==> #[trigger] s2.regions@[k] == s.regions@[k])
        }),
{
}

/// Moving an audio region and moving it back to where it was gives back
/// the regions there were.
pub proof fn law_move_region_back(m: Map<u16, AudioRegion>, t: u16, r: u16, offset: u32)
    requires
        global_id(t, r) <= u16::MAX,
        m.contains_key(global_id(t, r) as u16),
    ensures
        reduced_regions(reduced_regions(m, Action::MoveRegion(t, r, offset)), Action::MoveRegion(t, r,
            m[global_id(t, r) as u16].offset)) == m,
{
    let g = global_id(t, r) as u16;
    assert(reduced_regions(reduced_regions(m, Action::MoveRegion(t, r, offset)), Action::MoveRegion(t, r,
        m[g].offset)) =~= m);
}

/// Deleting a region just added gives back the regions there were, when
/// its id was free.
pub proof fn law_add_then_delete_region(
    m: Map<u16, AudioRegion>, t: u16, r: u16, asset_id: u16, offset: u32, duration: u32, asset_in: u32, src: String,
)
    requires
        global_id(t, r) <= u16::MAX,
        !m.contains_key(global_id(t, r) as u16),
    ensures
        reduced_regions(reduced_regions(m, Action::AddRegion(t, r, asset_id, offset, duration, asset_in, src)),
            Action::DelRegion(t, r)) == m,
{
    assert(reduced_regions(reduced_regions(m, Action::AddRegion(t, r, asset_id, offset, duration, asset_in, src)),
        Action::DelRegion(t, r)) =~= m);
}

/// A tempo or zoom being dialled in takes effect when the keys are
/// released: after SetTempo(t) (or Zoom(z)) and then Deselect, the tempo is
/// t (at least 1) and the zoom z.
pub proof fn law_dial_then_release(s: TimelineState, r1: TimelineState, r2: TimelineState, t: u16,
    q1: TimelineState, q2: TimelineState, z: usize)
    requires
        scalars_reduced(s, Action::SetTempo(t), r1),
        scalars_reduced(r1, Action::Deselect, r2),
        scalars_reduced(s, Action::Zoom(z), q1),
        scalars_reduced(q1, Action::Deselect, q2),
    ensures
        r2.tempo == (if t > 0 { t } else { 1 }),
        r2.temp_tempo is None,
        q2.zoom == z,
        q2.temp_zoom is None,
{
}

} // verus!
