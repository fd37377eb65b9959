//! The state of the hub: its sessions, the one on the screen, and what is open over it.

use crate::connections::ClientKeybindings;
use crate::effects::{effect_views, Effect, EffectView};
use crate::frame::{frame_view, FrameData, FrameView};
use crate::names::NameSet;
use crate::protocol::{
    summary_view, text_view, SessionSidebarSummary, SessionSummary, SidebarView, SummaryView,
};
use vstd::prelude::*;

verus! {

/// A session as its host lists it.
#[derive(Debug, PartialEq, Eq)]
pub struct RemoteSessionDescriptor {
    pub name: String,
    pub running: bool,
}

/// A session in the hub's list.
#[derive(Debug)]
pub struct HubSession {
    pub name: String,
    pub running: bool,
    pub summary: Option<SessionSummary>,
    /// The generation of the connection that summaries are taken from.
    pub summary_generation: u64,
    /// Whether a connection for summaries is open.
    pub summary_connected: bool,
    /// The generation of the connection that sidebar frames are taken from.
    pub sidebar_generation: u64,
    /// Whether a connection for sidebar frames is open.
    pub sidebar_connected: bool,
    pub sidebar_frame: Option<FrameData>,
}

/// What a [`HubSession`] says.
pub struct SessionView {
    pub name: Seq<char>,
    pub running: bool,
    pub summary: Option<SummaryView>,
    pub summary_generation: u64,
    pub summary_connected: bool,
    pub sidebar_generation: u64,
    pub sidebar_connected: bool,
    pub sidebar_frame: Option<FrameView>,
}

impl View for HubSession {
    type V = SessionView;

    open spec fn view(&self) -> SessionView {
        SessionView {
            name: self.name@,
            running: self.running,
            summary: summary_view(self.summary),
            summary_generation: self.summary_generation,
            summary_connected: self.summary_connected,
            sidebar_generation: self.sidebar_generation,
            sidebar_connected: self.sidebar_connected,
            sidebar_frame: frame_view(self.sidebar_frame),
        }
    }
}

/// What a list of sessions says.
pub open spec fn session_views(sessions: Seq<HubSession>) -> Seq<SessionView> {
    sessions.map_values(|session: HubSession| session@)
}

/// The session on the screen.
#[derive(Debug)]
pub struct ActiveSession {
    pub name: String,
    pub generation: u64,
    pub frame: Option<FrameData>,
}

/// What an [`ActiveSession`] says.
pub struct ActiveView {
    pub name: Seq<char>,
    pub generation: u64,
    pub frame: Option<FrameView>,
}

impl View for ActiveSession {
    type V = ActiveView;

    open spec fn view(&self) -> ActiveView {
        ActiveView {
            name: self.name@,
            generation: self.generation,
            frame: frame_view(self.frame),
        }
    }
}

/// The dialog for a new session.
#[derive(Debug)]
pub struct NewSessionModal {
    pub name: String,
    pub error: Option<String>,
}

/// A dialog about a session.
#[derive(Debug)]
pub enum SessionModal {
    Create(NewSessionModal),
    Rename { session: String, name: String, error: Option<String> },
    ConfirmClose { session: String, error: Option<String> },
}

/// What a [`SessionModal`] says.
pub enum ModalView {
    Create { name: Seq<char>, error: Option<Seq<char>> },
    Rename { session: Seq<char>, name: Seq<char>, error: Option<Seq<char>> },
    ConfirmClose { session: Seq<char>, error: Option<Seq<char>> },
}

impl View for SessionModal {
    type V = ModalView;

    open spec fn view(&self) -> ModalView {
        match *self {
            SessionModal::Create(modal) => {
                ModalView::Create { name: modal.name@, error: text_view(modal.error) }
            },
            SessionModal::Rename { session, name, error } => {
                ModalView::Rename { session: session@, name: name@, error: text_view(error) }
            },
            SessionModal::ConfirmClose { session, error } => {
                ModalView::ConfirmClose { session: session@, error: text_view(error) }
            },
        }
    }
}

/// The menu of a session in the sidebar.
#[derive(Debug)]
pub struct SessionContextMenu {
    pub session: String,
    pub x: u16,
    pub y: u16,
    pub highlighted: usize,
}

/// What a [`SessionContextMenu`] says.
pub struct MenuView {
    pub session: Seq<char>,
    pub x: u16,
    pub y: u16,
    pub highlighted: usize,
}

impl View for SessionContextMenu {
    type V = MenuView;

    open spec fn view(&self) -> MenuView {
        MenuView {
            session: self.session@,
            x: self.x,
            y: self.y,
            highlighted: self.highlighted,
        }
    }
}

/// The hub.
#[derive(Debug)]
pub struct HubState {
    pub sessions: Vec<HubSession>,
    /// The sessions whose workspaces the sidebar does not show.
    pub collapsed: NameSet,
    pub active: ActiveSession,
    /// The generation that the next connection gets.
    pub next_generation: u64,
    pub modal: Option<SessionModal>,
    pub session_menu: Option<SessionContextMenu>,
    pub status: Option<String>,
    pub cols: u16,
    pub rows: u16,
    /// Whether the screen is out of date.
    pub repaint: bool,
    /// Whether the whole screen is to be written again.
    pub full_repaint: bool,
    pub keybindings: ClientKeybindings,
    /// The session that shows something over its screen and takes all input.
    pub server_overlay_session: Option<String>,
    /// Whether that session has told of it.
    pub server_overlay_seen: bool,
    /// What the program around the hub has yet to do, in order.
    pub effects: Vec<Effect>,
}

/// What a [`HubState`] says.
#[verifier::ext_equal]
pub struct HubView {
    pub sessions: Seq<SessionView>,
    pub collapsed: Set<Seq<char>>,
    pub active: ActiveView,
    pub next_generation: u64,
    pub modal: Option<ModalView>,
    pub session_menu: Option<MenuView>,
    pub status: Option<Seq<char>>,
    pub cols: u16,
    pub rows: u16,
    pub repaint: bool,
    pub full_repaint: bool,
    pub keybindings: Seq<u8>,
    pub server_overlay_session: Option<Seq<char>>,
    pub server_overlay_seen: bool,
    pub effects: Seq<EffectView>,
}

impl View for HubState {
    type V = HubView;

    open spec fn view(&self) -> HubView {
        HubView {
            sessions: session_views(self.sessions@),
            collapsed: self.collapsed@,
            active: self.active@,
            next_generation: self.next_generation,
            modal: match self.modal {
                Some(modal) => Some(modal@),
                None => None,
            },
            session_menu: match self.session_menu {
                Some(menu) => Some(menu@),
                None => None,
            },
            status: text_view(self.status),
            cols: self.cols,
            rows: self.rows,
            repaint: self.repaint,
            full_repaint: self.full_repaint,
            keybindings: self.keybindings@,
            server_overlay_session: text_view(self.server_overlay_session),
            server_overlay_seen: self.server_overlay_seen,
            effects: effect_views(self.effects@),
        }
    }
}

/// Whether the session at the given place is the first of its list with the given name.
pub open spec fn is_first_named(sessions: Seq<SessionView>, name: Seq<char>, at: int) -> bool {
    &&& 0 <= at < sessions.len()
    &&& sessions[at].name == name
    &&& forall|i: int| 0 <= i < at ==> (#[trigger] sessions[i]).name != name
}

/// The place of the first session with the given name.
pub open spec fn place_of(sessions: Seq<SessionView>, name: Seq<char>) -> Option<int> {
    if exists|at: int| is_first_named(sessions, name, at) {
        Some(choose|at: int| is_first_named(sessions, name, at))
    } else {
        None
    }
}

/// The first session with the given name.
pub open spec fn session_named(sessions: Seq<SessionView>, name: Seq<char>) -> Option<SessionView> {
    match place_of(sessions, name) {
        Some(at) => Some(sessions[at]),
        None => None,
    }
}

/// The list with its first session of the given name replaced.
pub open spec fn with_session(
    sessions: Seq<SessionView>,
    name: Seq<char>,
    session: SessionView,
) -> Seq<SessionView> {
    match place_of(sessions, name) {
        Some(at) => sessions.update(at, session),
        None => sessions,
    }
}

/// Whether a session of the given name is listed.
pub open spec fn is_listed(sessions: Seq<SessionView>, name: Seq<char>) -> bool {
    exists|i: int| 0 <= i < sessions.len() && (#[trigger] sessions[i]).name == name
}

/// The first session with a name is where it is.
pub proof fn lemma_place_of(sessions: Seq<SessionView>, name: Seq<char>, at: int)
    requires
        is_first_named(sessions, name, at),
    ensures
        place_of(sessions, name) == Some(at),
{
    let found = choose|at: int| is_first_named(sessions, name, at);
    assert(is_first_named(sessions, name, found));
    if found < at {
        assert(sessions[found].name != name);
    }
    if at < found {
        assert(sessions[at].name != name);
    }
}

/// A name has a place in the list exactly where a session of that name is listed.
pub proof fn lemma_listed_has_place(sessions: Seq<SessionView>, name: Seq<char>)
    ensures
        is_listed(sessions, name) == (place_of(sessions, name) is Some),
        place_of(sessions, name) matches Some(at) ==> is_first_named(sessions, name, at),
{
    if is_listed(sessions, name) {
        let some = choose|i: int| 0 <= i < sessions.len() && (#[trigger] sessions[i]).name == name;
        lemma_first_at_most(sessions, name, some);
    }
}

proof fn lemma_first_at_most(sessions: Seq<SessionView>, name: Seq<char>, some: int)
    requires
        0 <= some < sessions.len(),
        sessions[some].name == name,
    ensures
        exists|at: int| is_first_named(sessions, name, at),
    decreases some,
{
    if exists|i: int| 0 <= i < some && (#[trigger] sessions[i]).name == name {
        let earlier = choose|i: int| 0 <= i < some && (#[trigger] sessions[i]).name == name;
        lemma_first_at_most(sessions, name, earlier);
    } else {
        assert(is_first_named(sessions, name, some));
    }
}

impl HubView {
    /// What the session on the screen tells of itself.
    pub open spec fn active_summary(self) -> Option<SummaryView> {
        match session_named(self.sessions, self.active.name) {
            Some(session) => session.summary,
            None => None,
        }
    }

    /// How the session on the screen lays out its sidebar.
    pub open spec fn sidebar_layout(self) -> Option<SidebarView> {
        match self.active_summary() {
            Some(summary) => summary.sidebar,
            None => None,
        }
    }

    /// How many columns the sidebar takes.
    pub open spec fn sidebar_width(self) -> u16 {
        match self.sidebar_layout() {
            Some(layout) => layout.width,
            None => 0,
        }
    }

    /// The frame that shows the given session.
    pub open spec fn session_frame(self, name: Seq<char>) -> Option<FrameView> {
        if name == self.active.name {
            self.active.frame
        } else {
            match session_named(self.sessions, name) {
                Some(session) => session.sidebar_frame,
                None => None,
            }
        }
    }
}

impl HubState {
    /// Finds the first session with the given name.
    pub fn find_session(&self, name: &str) -> (place: Option<usize>)
        ensures
            match place {
                Some(at) => at < self.sessions.len() && is_first_named(
                    self@.sessions,
                    name@,
                    at as int,
                ) && place_of(self@.sessions, name@) == Some(at as int),
                None => place_of(self@.sessions, name@) is None && !is_listed(
                    self@.sessions,
                    name@,
                ),
            },
    {
        let mut at: usize = 0;
        while at < self.sessions.len()
            invariant
                at <= self.sessions.len(),
                forall|i: int| 0 <= i < at ==> (#[trigger] self@.sessions[i]).name != name@,
            decreases self.sessions.len() - at,
        {
            assert(self@.sessions[at as int] == self.sessions@[at as int]@);
            if *self.sessions[at].name.as_str() == *name {
                proof {
                    lemma_place_of(self@.sessions, name@, at as int);
                }
                return Some(at);
            }
            at = at + 1;
        }
        proof {
            lemma_listed_has_place(self@.sessions, name@);
        }
        None
    }

    /// What the session on the screen tells of itself.
    pub fn active_summary(&self) -> (summary: Option<&SessionSummary>)
        ensures
            match summary {
                Some(summary) => self@.active_summary() == Some(summary@),
                None => self@.active_summary() is None,
            },
    {
        match self.find_session(self.active.name.as_str()) {
            Some(at) => {
                assert(self@.sessions[at as int] == self.sessions@[at as int]@);
                self.sessions[at].summary.as_ref()
            },
            None => None,
        }
    }

    /// How the session on the screen lays out its sidebar.
    pub fn sidebar_layout(&self) -> (layout: Option<&SessionSidebarSummary>)
        ensures
            match layout {
                Some(layout) => self@.sidebar_layout() == Some(layout@),
                None => self@.sidebar_layout() is None,
            },
    {
        match self.active_summary() {
            Some(summary) => summary.sidebar.as_ref(),
            None => None,
        }
    }

    /// How many columns the sidebar takes.
    pub fn sidebar_width(&self) -> (width: u16)
        ensures
            width == self@.sidebar_width(),
    {
        match self.sidebar_layout() {
            Some(layout) => layout.width,
            None => 0,
        }
    }

    /// The frame that shows the given session.
    pub fn session_frame(&self, name: &str) -> (frame: Option<&FrameData>)
        ensures
            match frame {
                Some(frame) => self@.session_frame(name@) == Some(frame@),
                None => self@.session_frame(name@) is None,
            },
    {
        if *name == *self.active.name.as_str() {
            return self.active.frame.as_ref();
        }
        match self.find_session(name) {
            Some(at) => {
                assert(self@.sessions[at as int] == self.sessions@[at as int]@);
                self.sessions[at].sidebar_frame.as_ref()
            },
            None => None,
        }
    }

    /// Adds an effect to those that the program around the hub has yet to perform.
    pub fn ask(&mut self, effect: Effect)
        ensures
            final(self)@ == (HubView { effects: old(self)@.effects.push(effect@), ..old(self)@ }),
    {
        let ghost before = self@.effects;
        self.effects.push(effect);
        assert(self@.effects =~= before.push(effect@));
    }
}

} // verus!
