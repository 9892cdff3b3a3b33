//! The home screen: pick a project to open, four to a page, or start a new one.

use vstd::prelude::*;
use crate::action::Action;

verus! {

/// Projects shown per page.
pub const NUM_PROJECTS: usize = 4;

/// Width and height of the home screen's content.
pub const HOME_SIZE: (u16, u16) = (34, 15);

/// Number of pages needed for `n` projects (one page when there are none).
pub open spec fn pages(n: nat) -> nat {
    (if n == 0 { 0 } else { (n - 1) as nat }) / 4 + 1
}

/// The home screen's state: a greeting, the project names and the page shown.
#[derive(Debug)]
pub struct HomeState {
    motd: String,
    projects: Vec<String>,
    scroll_x: usize,
}

impl HomeState {
    /// The page shown is one of the pages.
    #[verifier::type_invariant]
    spec fn wf(self) -> bool {
        self.scroll_x < pages(self.projects@.len())
    }

    pub closed spec fn motd(self) -> Seq<char> {
        self.motd@
    }

    pub closed spec fn projects(self) -> Seq<String> {
        self.projects@
    }

    pub closed spec fn page(self) -> nat {
        self.scroll_x as nat
    }

    /// The greeting.
    pub fn motd_text(&self) -> (r: &String)
        ensures
            r@ == self.motd(),
    {
        &self.motd
    }

    /// The project names.
    pub fn project_names(&self) -> (r: &Vec<String>)
        ensures
            r@ == self.projects(),
    {
        &self.projects
    }

    /// The page shown.
    pub fn scroll(&self) -> (r: usize)
        ensures
            r == self.page(),
            r < pages(self.projects().len()),
    {
        proof { use_type_invariant(self); }
        self.scroll_x
    }
}

/// The page shown after an action: Left and Right turn the pages round.
pub open spec fn page_after(page: nat, n: nat, a: Action) -> nat {
    let m = pages(n);
    match a {
        Action::Left => if page == 0 { (m - 1) as nat } else { ((page - 1) as nat) % m },
        Action::Right => (page + 1) % m,
        _ => page,
    }
}

/// Applies an action to the home screen's state.
pub fn reduce(state: HomeState, action: &Action) -> (r: HomeState)
    ensures
        r.motd() == state.motd(),
        r.projects() == state.projects(),
        r.page() == page_after(state.page(), state.projects().len(), *action),
{
    proof { use_type_invariant(&state); }
    let n = state.projects.len();
    let scroll_max: usize = (if n == 0 { 0 } else { n - 1 }) / 4 + 1;
    let scroll_x = match action {
        Action::Left => if state.scroll_x == 0 { scroll_max - 1 } else { (state.scroll_x - 1) % scroll_max },
        Action::Right => (state.scroll_x + 1) % scroll_max,
        _ => state.scroll_x,
    };
    HomeState { motd: state.motd, projects: state.projects, scroll_x }
}

/// The home screen.
#[derive(Debug)]
pub struct Home {
    pub x: u16,
    pub y: u16,
    pub width: u16,
    pub height: u16,
    pub state: HomeState,
}

/// Centring the home screen in this window stays on the screen.
pub open spec fn home_fits(x: u16, y: u16, width: u16, height: u16) -> bool {
    &&& 17 <= x + width / 2 <= u16::MAX
    &&& 7 <= y + height / 2 <= u16::MAX
}

/// The project opened by the `k`-th select key on this page, if there is one.
pub open spec fn pick(s: HomeState, k: int) -> Option<String> {
    let i = s.page() * 4 + k;
    if i < s.projects().len() { Some(s.projects()[i]) } else { None }
}

/// What the home screen hands back for an action.
pub open spec fn home_answer(s: HomeState, a: Action) -> Action {
    match a {
        Action::SelectR => Action::InputTitle,
        Action::SelectY => Action::OpenProject(s.projects()[(s.page() * 4) as int]),
        Action::SelectP => match pick(s, 1) { Some(p) => Action::OpenProject(p), None => Action::Noop },
        Action::SelectB => match pick(s, 2) { Some(p) => Action::OpenProject(p), None => Action::Noop },
        Action::SelectG => match pick(s, 3) { Some(p) => Action::OpenProject(p), None => Action::Noop },
        Action::Up => Action::Up,
        Action::Down => Action::Down,
        _ => Action::Noop,
    }
}

impl Home {
    /// The home screen, centred in the window, listing these projects from the first page.
    pub fn new(x: u16, y: u16, width: u16, height: u16, projects: Vec<String>) -> (r: Self)
        requires
            home_fits(x, y, width, height),
        ensures
            r.x == x + width / 2 - 17,
            r.y == y + height / 2 - 7,
            r.width == width,
            r.height == height,
            r.state.motd() == "It's Fun!"@,
            r.state.projects() == projects@,
            r.state.page() == 0,
    {
        let state = HomeState { motd: crate::text::owned("It's Fun!"), projects, scroll_x: 0 };
        Home { x: x + width / 2 - HOME_SIZE.0 / 2, y: y + height / 2 - HOME_SIZE.1 / 2, width, height, state }
    }

    /// Turns the pages for Left and Right; the select keys open the project
    /// shown at their place on the page (yellow the first, then pink, blue,
    /// green) or, red, ask for a new project's title.
    pub fn dispatch(&mut self, action: Action) -> (r: Action)
        requires
            action is SelectY ==> old(self).state.projects().len() > 0,
        ensures
            final(self).state.motd() == old(self).state.motd(),
            final(self).state.projects() == old(self).state.projects(),
            final(self).state.page() == page_after(old(self).state.page(), old(self).state.projects().len(), action),
            r == home_answer(final(self).state, action),
            final(self).x == old(self).x && final(self).y == old(self).y,
            final(self).width == old(self).width && final(self).height == old(self).height,
    {
        let mut state = HomeState { motd: String::new(), projects: Vec::new(), scroll_x: 0 };
        std::mem::swap(&mut state, &mut self.state);
        self.state = reduce(state, &action);
        proof { use_type_invariant(&self.state); }
        let n = self.state.projects.len();
        let ghost top: int = if n == 0 { 0 } else { n - 1 };
        assert(self.state.scroll_x * 4 <= top) by (nonlinear_arith)
            requires
                self.state.scroll_x < top / 4 + 1,
                top >= 0;
        let page = self.state.scroll_x * 4;
        match action {
            Action::SelectR => Action::InputTitle,
            Action::SelectY => Action::OpenProject(self.state.projects[page].clone()),
            Action::SelectP => if page + 1 < n {
                Action::OpenProject(self.state.projects[page + 1].clone())
            } else {
                Action::Noop
            },
            Action::SelectB => if page + 2 < n {
                Action::OpenProject(self.state.projects[page + 2].clone())
            } else {
                Action::Noop
            },
            Action::SelectG => if page + 3 < n {
                Action::OpenProject(self.state.projects[page + 3].clone())
            } else {
                Action::Noop
            },
            Action::Up => Action::Up,
            Action::Down => Action::Down,
            _ => Action::Noop,
        }
    }

    /// Whether `dispatch` can take this action: yellow opens the first
    /// project of the page, so there must be a project.
    pub fn can_dispatch(&self, action: &Action) -> (r: bool)
        ensures
            r == (action is SelectY ==> self.state.projects().len() > 0),
    {
        match action {
            Action::SelectY => self.state.project_names().len() > 0,
            _ => true,
        }
    }

    /// The home screen hides what is under it.
    pub fn alpha(&self) -> (r: bool)
        ensures
            !r,
    {
        false
    }
}

/// Left undoes Right on the home screen, and Right undoes Left.
pub proof fn law_home_pages_inverse(page: nat, n: nat)
    requires
        page < pages(n),
    ensures
        page_after(page_after(page, n, Action::Right), n, Action::Left) == page,
        page_after(page_after(page, n, Action::Left), n, Action::Right) == page,
{
    let m = pages(n);
    if page + 1 < m {
        vstd::arithmetic::div_mod::lemma_small_mod((page + 1) as nat, m);
        vstd::arithmetic::div_mod::lemma_small_mod(page, m);
    } else {
        vstd::arithmetic::div_mod::lemma_mod_self_0(m as int);
    }
    if page > 0 {
        vstd::arithmetic::div_mod::lemma_small_mod((page - 1) as nat, m);
        vstd::arithmetic::div_mod::lemma_small_mod(page, m);
    } else {
        vstd::arithmetic::div_mod::lemma_mod_self_0(m as int);
    }
}

} // verus!
