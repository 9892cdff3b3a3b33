//! The actions that flow between the input pipe, the views and the sound engine.

use vstd::prelude::*;

verus! {

/// A real-valued quantity (a note velocity, a parameter value) carried as the
/// bit pattern of its IEEE-754 single-precision value; the library only moves
/// such values around and never computes with them.
#[derive(Clone, Copy, Debug, PartialEq, Eq, Structural)]
pub struct Level {
    pub bits: u32,
}

/// A patch point of a module: an input or an output that can be connected to a route.
#[derive(Debug)]
pub struct Anchor {
    pub index: u16,
    pub module_id: u16,
    pub name: String,
    pub input: bool,
}

impl Clone for Anchor {
    fn clone(&self) -> (r: Self)
        ensures
            r == *self,
    {
        Anchor { index: self.index, module_id: self.module_id, name: self.name.clone(), input: self.input }
    }
}

/// What an anchor holds, as plain values.
pub struct AnchorView {
    pub index: u16,
    pub module_id: u16,
    pub name: Seq<char>,
    pub input: bool,
}

impl View for Anchor {
    type V = AnchorView;

    open spec fn view(&self) -> AnchorView {
        AnchorView { index: self.index, module_id: self.module_id, name: self.name@, input: self.input }
    }
}

/// A route (a bus) and the anchors patched into it.
#[derive(Debug)]
pub struct Route {
    pub id: u16,
    pub patch: Vec<Anchor>,
}

/// A recorded MIDI note of a region.
#[derive(Clone, Copy, Debug, PartialEq, Eq, Structural)]
pub struct Note {
    pub id: u16,
    pub r_id: u16,
    pub note: u16,
    pub vel: Level,
    pub t_in: u32,
    pub t_out: u32,
}

/// A module of a project, as listed by the project view.
#[derive(Debug)]
pub struct Module {
    pub id: u16,
    pub name: String,
}

/// Everything that can happen: key presses from the controller, requests a
/// view hands back to the main loop, and messages for the sound engine.
#[derive(Debug)]
pub enum Action {
    // Controller keys
    Up,
    Down,
    Left,
    Right,
    SelectR,
    SelectB,
    SelectG,
    SelectY,
    SelectP,
    Deselect,
    Back,
    Help,
    Exit,
    Play,
    Stop,
    Record,
    Tick,
    PitchUp,
    PitchDown,
    Noop,
    Cancel,
    InputTitle,
    // Transport and timeline
    Goto(u32),
    Scrub(bool),
    LoopMode(bool),
    SetLoop(u32, u32),
    SetMeter(u16, u16),
    SetTempo(u16),
    Zoom(usize),
    // Patching
    Route,
    ShowAnchors(Vec<Anchor>),
    PatchAnchor(u16),
    PatchRoute(u16),
    AddRoute(u16),
    DelRoute(u16),
    PatchOut(u16, u16, u16),
    PatchIn(u16, u16, u16),
    DelPatch(u16, u16, bool),
    // Notes and parameters
    NoteOn(u16, Level),
    NoteOff(u16),
    SetParam(String, Level),
    SetIntParam(String, i16),
    DeclareParam(String, Level, Level, Level, Level),
    DeclareAnchors(u16, u16),
    // Tracks and regions
    MoveRegion(u16, u16, u32),
    SplitRegion(u16, u16, u32),
    DelRegion(u16, u16),
    LoopRegion(u16, u16),
    AddRegion(u16, u16, u16, u32, u32, u32, String),
    AddMidiRegion(u16, u16, u32, u32),
    AddNote(u16, Note),
    SoloTrack(u16, bool),
    RecordTrack(u16, u8),
    MuteTrack(u16, bool),
    MonitorTrack(u16, bool),
    // Projects and modules
    AddModule(u16, String),
    TryoutModule(u16),
    DelModule(u16),
    OpenProject(String),
    ShowProject(String, Vec<Module>),
    SaveAs(String),
    Error(String),
}

/// The four arrow keys.
pub open spec fn is_arrow(a: Action) -> bool {
    a is Up || a is Down || a is Left || a is Right
}

} // verus!
