//! The main loop's decisions: what an incoming event does to the stack of
//! layers, and what follows from the answer the top layer gives. Sending an
//! action to a layer, reading files and drawing are the loop's own work.

use vstd::prelude::*;
use crate::action::{Action, Anchor};
use crate::layers::{LayerStack, DEFAULT_HOME_ID, last_index, spec_rotate, spec_slide, spec_fill_anchors, fill_anchors};

verus! {

/// What the loop does with an incoming event.
#[derive(Debug)]
pub enum Command {
    /// Stop the client.
    Quit,
    /// Put the help layer on top.
    AddHelp,
    /// Send the action to the top layer (its index and id).
    Deliver(usize, u16, Action),
    /// Nothing more to do.
    Done,
}

/// Takes an incoming event: Exit stops, Help asks for the help layer, Back
/// sends the top layer to the bottom, and anything else goes to the top
/// layer.
pub fn on_event<T>(layers: &mut LayerStack<T>, event: Action) -> (r: Command)
    requires
        event is Exit || event is Help || event is Back || old(layers).layers@.len() > 0,
    ensures
        event is Back ==> r is Done && final(layers).layers@ == spec_rotate(old(layers).layers@, false),
        !(event is Back) ==> final(layers).layers@ == old(layers).layers@,
        event is Exit ==> r is Quit,
        event is Help ==> r is AddHelp,
        !(event is Exit || event is Help || event is Back) ==> (r matches Command::Deliver(i, id, a)
            && i == old(layers).layers@.len() - 1
            && id == old(layers).layers@.last().0
            && a == event),
{
    match event {
        Action::Exit => Command::Quit,
        Action::Help => Command::AddHelp,
        Action::Back => {
            layers.back();
            Command::Done
        },
        a => {
            let (i, id) = layers.target();
            Command::Deliver(i, id, a)
        },
    }
}

/// What follows from the top layer's answer.
#[derive(Debug)]
pub enum FollowUp<T> {
    /// Put the title-entry popup on top.
    AddTitle,
    /// The modules slid while the patch bay was on show: ask the new top
    /// layer for its anchors (with `anchors_for`) and put the patch bay
    /// back on top with them.
    AskAnchors((u16, T)),
    /// Open the project with this title.
    Open(String),
    /// Show these anchors in the patch bay, bringing one up if there is none.
    ShowAnchors(Vec<Anchor>),
    /// Nothing more to do.
    Done,
}

/// Takes the top layer's answer: the title popup for InputTitle, a slide of
/// the modules under the home layer for Up and Down (see `spec_slide`),
/// the project to open, or the anchors to show.
pub fn on_answer<T>(layers: &mut LayerStack<T>, routes_id: Option<u16>, target_id: u16, answer: Action)
    -> (r: FollowUp<T>)
    requires
        answer is Up || answer is Down ==> last_index(old(layers).layers@, DEFAULT_HOME_ID) is Some,
    ensures
        answer is Up || answer is Down ==> {
            let (s, routes) = spec_slide(old(layers).layers@, routes_id, target_id, answer is Up);
            &&& final(layers).layers@ == s
            &&& match routes {
                Some(rv) => r == FollowUp::AskAnchors(rv),
                None => r is Done,
            }
        },
        !(answer is Up || answer is Down) ==> final(layers).layers@ == old(layers).layers@,
        answer is InputTitle ==> r is AddTitle,
        answer matches Action::OpenProject(t) ==> r == FollowUp::<T>::Open(t),
        answer matches Action::ShowAnchors(a) ==> r == FollowUp::<T>::ShowAnchors(a),
        !(answer is Up || answer is Down || answer is InputTitle || answer is OpenProject || answer is ShowAnchors)
            ==> r is Done,
{
    match answer {
        Action::InputTitle => FollowUp::AddTitle,
        Action::Up => match layers.slide(routes_id, target_id, true) {
            Some(rv) => FollowUp::AskAnchors(rv),
            None => FollowUp::Done,
        },
        Action::Down => match layers.slide(routes_id, target_id, false) {
            Some(rv) => FollowUp::AskAnchors(rv),
            None => FollowUp::Done,
        },
        Action::OpenProject(t) => FollowUp::Open(t),
        Action::ShowAnchors(a) => FollowUp::ShowAnchors(a),
        _ => FollowUp::Done,
    }
}

/// The anchors the patch bay is told of once the modules slid: those the
/// new top layer (module `module_id`) answered Route with, each given that
/// module's id. `None` when it answered anything else; the patch bay then
/// stays off the stack.
pub fn anchors_for(answer: Action, module_id: u16) -> (r: Option<Vec<Anchor>>)
    ensures
        answer matches Action::ShowAnchors(a) ==> (r matches Some(v) && v@ == spec_fill_anchors(a@, module_id)),
        !(answer is ShowAnchors) ==> r is None,
{
    match answer {
        Action::ShowAnchors(a) => Some(fill_anchors(&a, module_id)),
        _ => None,
    }
}

} // verus!
