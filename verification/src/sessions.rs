//! A session's connections: when the hub needs one, and what it does once it has it.
//!
//! A connection may fail. So the hub first asks for it, which changes nothing of what it shows, and
//! takes note of it once it is there. After a failure nothing more happens to the hub.

use crate::connections::{
    handshake, handshake_of, ClientKeybindings, ConnectionRequest, ConnectionView,
};
use crate::effects::{ConnectionRole, Effect, EffectView, RoleView};
use crate::frame::text_views;
use crate::protocol::{ClientMessage, MessageView};
use crate::state::{
    is_listed, session_named, with_session, ActiveSession, ActiveView, HubState, HubView,
    SessionView,
};
use crate::text::joined;
use vstd::prelude::*;

verus! {

/// The generation after the given one; the last one stays.
pub open spec fn next_of(generation: u64) -> u64 {
    if generation == u64::MAX {
        generation
    } else {
        (generation + 1) as u64
    }
}

/// A farewell over a connection, whose failure is of no account.
pub open spec fn farewell(role: RoleView) -> EffectView {
    EffectView::Send { role, message: MessageView::Detach, required: false }
}

impl HubView {
    /// The hub with one more effect to perform.
    pub open spec fn asking(self, effect: EffectView) -> HubView {
        HubView { effects: self.effects.push(effect), ..self }
    }

    /// The hub with an effect more to perform, if the condition holds.
    pub open spec fn asking_if(self, condition: bool, effect: EffectView) -> HubView {
        if condition {
            self.asking(effect)
        } else {
            self
        }
    }

    /// The hub with its next generation handed out.
    pub open spec fn past_next_generation(self) -> HubView {
        HubView { next_generation: next_of(self.next_generation), ..self }
    }

    /// Whether the named session has no connection for summaries.
    pub open spec fn lacks_summary(self, name: Seq<char>) -> bool {
        match session_named(self.sessions, name) {
            Some(session) => !session.summary_connected,
            None => true,
        }
    }

    /// The connection for summaries of the named session.
    pub open spec fn summary_request(self, name: Seq<char>) -> ConnectionView {
        ConnectionView {
            role: RoleView::Summary(name),
            session: name,
            generation: self.next_generation,
            workspace: None,
            handshake: handshake_of(RoleView::Summary(name), 1, 1, self.keybindings),
        }
    }

    /// The hub once the named session is connected for summaries; a connection that no listed
    /// session has a use for is let go.
    pub open spec fn summary_established(self, name: Seq<char>, generation: u64) -> HubView {
        match session_named(self.sessions, name) {
            Some(session) => HubView {
                sessions: with_session(
                    self.sessions,
                    name,
                    SessionView {
                        running: true,
                        summary_generation: generation,
                        summary_connected: true,
                        ..session
                    },
                ),
                ..self
            },
            None => self.asking(EffectView::Close { role: RoleView::Summary(name) }),
        }
    }

    /// Whether the named session is to be connected for sidebar frames: it is not on the screen
    /// and has no such connection.
    pub open spec fn lacks_sidebar(self, name: Seq<char>) -> bool {
        name != self.active.name && match session_named(self.sessions, name) {
            Some(session) => !session.sidebar_connected,
            None => true,
        }
    }

    /// The connection for sidebar frames of the named session.
    pub open spec fn sidebar_request(self, name: Seq<char>) -> ConnectionView {
        ConnectionView {
            role: RoleView::Sidebar(name),
            session: name,
            generation: self.next_generation,
            workspace: None,
            handshake: handshake_of(
                RoleView::Sidebar(name),
                self.cols,
                self.rows,
                self.keybindings,
            ),
        }
    }

    /// The hub once the named session is connected for sidebar frames; a connection that no listed
    /// session has a use for is let go.
    pub open spec fn sidebar_established(self, name: Seq<char>, generation: u64) -> HubView {
        match session_named(self.sessions, name) {
            Some(session) => HubView {
                sessions: with_session(
                    self.sessions,
                    name,
                    SessionView {
                        running: true,
                        sidebar_generation: generation,
                        sidebar_connected: true,
                        sidebar_frame: None,
                        ..session
                    },
                ),
                ..self
            },
            None => self.asking(EffectView::Close { role: RoleView::Sidebar(name) }),
        }
    }

    /// The hub with the named session's connection for sidebar frames given up.
    pub open spec fn without_sidebar(self, name: Seq<char>) -> HubView {
        let role = RoleView::Sidebar(name);
        match session_named(self.sessions, name) {
            Some(session) => HubView {
                sessions: with_session(
                    self.sessions,
                    name,
                    SessionView {
                        sidebar_generation: 0,
                        sidebar_connected: false,
                        sidebar_frame: None,
                        ..session
                    },
                ),
                ..self.asking_if(session.sidebar_connected, farewell(role)).asking_if(
                    session.sidebar_connected,
                    EffectView::Close { role },
                )
            },
            None => self,
        }
    }

    /// The hub with both of the named session's connections given up.
    pub open spec fn without_observers(self, name: Seq<char>) -> HubView {
        let summary = RoleView::Summary(name);
        let sidebar = RoleView::Sidebar(name);
        match session_named(self.sessions, name) {
            Some(session) => HubView {
                sessions: with_session(
                    self.sessions,
                    name,
                    SessionView {
                        summary_connected: false,
                        sidebar_connected: false,
                        sidebar_frame: None,
                        ..session
                    },
                ),
                ..self.asking_if(session.summary_connected, farewell(summary)).asking_if(
                    session.sidebar_connected,
                    farewell(sidebar),
                ).asking_if(session.summary_connected, EffectView::Close { role: summary }).asking_if(
                    session.sidebar_connected,
                    EffectView::Close { role: sidebar },
                )
            },
            None => self,
        }
    }

    /// The connection that puts the named session on the screen.
    pub open spec fn switch_request(
        self,
        name: Seq<char>,
        workspace: Option<Seq<char>>,
    ) -> ConnectionView {
        active_request(
            name,
            self.next_generation,
            self.cols,
            self.rows,
            workspace,
            self.keybindings,
        )
    }

    /// The hub once the named session is connected for the screen: it is on the screen, fresh, in
    /// place of the one before, which is told farewell.
    pub open spec fn switch_established(self, name: Seq<char>, generation: u64) -> HubView {
        HubView {
            active: ActiveView { name, generation, frame: None },
            ..self.asking(farewell(RoleView::PreviousActive))
        }
    }

    /// Whether the session that leaves the screen stays in the sidebar with its workspaces.
    pub open spec fn keeps_watching(self, previous: Seq<char>, name: Seq<char>) -> bool {
        &&& previous != name
        &&& !self.collapsed.contains(previous)
        &&& is_listed(self.sessions, previous)
    }

    /// Whether the named session is listed and has no connection for summaries.
    pub open spec fn awaits_summary(self, name: Seq<char>) -> bool {
        session_named(self.sessions, name) matches Some(session) && !session.summary_connected
    }
}

/// The names of the running ones among the given sessions.
pub open spec fn running_names(sessions: Seq<SessionView>) -> Seq<Seq<char>>
    decreases sessions.len(),
{
    if sessions.len() == 0 {
        Seq::empty()
    } else if sessions.last().running {
        running_names(sessions.drop_last()).push(sessions.last().name)
    } else {
        running_names(sessions.drop_last())
    }
}

/// The connection of the session on the screen.
pub open spec fn active_request(
    session: Seq<char>,
    generation: u64,
    cols: u16,
    rows: u16,
    workspace: Option<Seq<char>>,
    keybindings: Seq<u8>,
) -> ConnectionView {
    ConnectionView {
        role: RoleView::Active,
        session,
        generation,
        workspace,
        handshake: handshake_of(RoleView::Active, cols, rows, keybindings),
    }
}

/// What an optional borrowed text says.
pub open spec fn str_view(text: Option<&str>) -> Option<Seq<char>> {
    match text {
        Some(text) => Some(text@),
        None => None,
    }
}

/// A connection that puts a session on the screen, and the session as it is once connected.
pub fn connect_active(
    session: &str,
    generation: u64,
    cols: u16,
    rows: u16,
    workspace_id: Option<&str>,
    keybindings: &ClientKeybindings,
) -> (connection: (ConnectionRequest, ActiveSession))
    ensures
        connection.0@ == active_request(
            session@,
            generation,
            cols,
            rows,
            str_view(workspace_id),
            keybindings@,
        ),
        connection.1@ == (ActiveView { name: session@, generation, frame: None }),
{
    let workspace = match workspace_id {
        Some(workspace_id) => Some(workspace_id.to_owned()),
        None => None,
    };
    let request = ConnectionRequest {
        role: ConnectionRole::Active,
        session: session.to_owned(),
        generation,
        workspace,
        handshake: handshake(&ConnectionRole::Active, cols, rows, keybindings),
    };
    (request, ActiveSession { name: session.to_owned(), generation, frame: None })
}

impl HubState {
    /// Hands out the next generation.
    fn take_generation(&mut self) -> (generation: u64)
        ensures
            generation == old(self)@.next_generation,
            final(self)@ == old(self)@.past_next_generation(),
    {
        let generation = self.next_generation;
        self.next_generation = generation.saturating_add(1);
        generation
    }

    /// Decides whether a session needs a connection for summaries, and which.
    pub fn request_summary(&mut self, session: &str) -> (request: Option<ConnectionRequest>)
        ensures
            match request {
                Some(request) => old(self)@.lacks_summary(session@) && request@
                    == old(self)@.summary_request(session@) && final(self)@
                    == old(self)@.past_next_generation(),
                None => !old(self)@.lacks_summary(session@) && final(self)@ == old(self)@,
            },
    {
        if let Some(at) = self.find_session(session) {
            assert(self@.sessions[at as int] == self.sessions@[at as int]@);
            if self.sessions[at].summary_connected {
                return None;
            }
        }
        let generation = self.take_generation();
        let role = ConnectionRole::Summary(session.to_owned());
        let shake = handshake(&role, 1, 1, &self.keybindings);
        Some(
            ConnectionRequest {
                role,
                session: session.to_owned(),
                generation,
                workspace: None,
                handshake: shake,
            },
        )
    }

    /// Takes note of a session's connection for summaries.
    pub fn summary_established(&mut self, session: &str, generation: u64)
        ensures
            final(self)@ == old(self)@.summary_established(session@, generation),
    {
        let ghost before = self@;
        match self.find_session(session) {
            Some(at) => {
                assert(self@.sessions[at as int] == self.sessions@[at as int]@);
                self.sessions[at].running = true;
                self.sessions[at].summary_generation = generation;
                self.sessions[at].summary_connected = true;
                assert(self@.sessions =~= before.summary_established(
                    session@,
                    generation,
                ).sessions);
            },
            None => {
                self.ask(Effect::Close { role: ConnectionRole::Summary(session.to_owned()) });
            },
        }
    }

    /// Decides whether a session needs a connection for sidebar frames, and which.
    pub fn request_sidebar(&mut self, session: &str) -> (request: Option<ConnectionRequest>)
        ensures
            match request {
                Some(request) => old(self)@.lacks_sidebar(session@) && request@
                    == old(self)@.sidebar_request(session@) && final(self)@
                    == old(self)@.past_next_generation(),
                None => !old(self)@.lacks_sidebar(session@) && final(self)@ == old(self)@,
            },
    {
        if *session == *self.active.name.as_str() {
            return None;
        }
        if let Some(at) = self.find_session(session) {
            assert(self@.sessions[at as int] == self.sessions@[at as int]@);
            if self.sessions[at].sidebar_connected {
                return None;
            }
        }
        let generation = self.take_generation();
        let role = ConnectionRole::Sidebar(session.to_owned());
        let shake = handshake(&role, self.cols, self.rows, &self.keybindings);
        Some(
            ConnectionRequest {
                role,
                session: session.to_owned(),
                generation,
                workspace: None,
                handshake: shake,
            },
        )
    }

    /// Takes note of a session's connection for sidebar frames.
    pub fn sidebar_established(&mut self, session: &str, generation: u64)
        ensures
            final(self)@ == old(self)@.sidebar_established(session@, generation),
    {
        let ghost before = self@;
        match self.find_session(session) {
            Some(at) => {
                assert(self@.sessions[at as int] == self.sessions@[at as int]@);
                self.sessions[at].running = true;
                self.sessions[at].sidebar_generation = generation;
                self.sessions[at].sidebar_connected = true;
                self.sessions[at].sidebar_frame = None;
                assert(self@.sessions =~= before.sidebar_established(
                    session@,
                    generation,
                ).sessions);
            },
            None => {
                self.ask(Effect::Close { role: ConnectionRole::Sidebar(session.to_owned()) });
            },
        }
    }

    /// Gives up a session's connection for sidebar frames.
    pub fn drop_sidebar(&mut self, session: &str)
        ensures
            final(self)@ == old(self)@.without_sidebar(session@),
    {
        let ghost before = self@;
        if let Some(at) = self.find_session(session) {
            assert(self@.sessions[at as int] == self.sessions@[at as int]@);
            if self.sessions[at].sidebar_connected {
                self.ask(
                    Effect::Send {
                        role: ConnectionRole::Sidebar(session.to_owned()),
                        message: ClientMessage::Detach,
                        required: false,
                    },
                );
                self.ask(Effect::Close { role: ConnectionRole::Sidebar(session.to_owned()) });
            }
            assert(self@.sessions[at as int] == self.sessions@[at as int]@);
            self.sessions[at].sidebar_connected = false;
            self.sessions[at].sidebar_frame = None;
            self.sessions[at].sidebar_generation = 0;
            assert(self@.sessions =~= before.without_sidebar(session@).sessions);
        }
    }

    /// Gives up both of a session's connections.
    pub fn detach_session_observers(&mut self, session: &str)
        ensures
            final(self)@ == old(self)@.without_observers(session@),
    {
        let ghost before = self@;
        if let Some(at) = self.find_session(session) {
            assert(self@.sessions[at as int] == self.sessions@[at as int]@);
            let summary = self.sessions[at].summary_connected;
            let sidebar = self.sessions[at].sidebar_connected;
            if summary {
                self.ask(
                    Effect::Send {
                        role: ConnectionRole::Summary(session.to_owned()),
                        message: ClientMessage::Detach,
                        required: false,
                    },
                );
            }
            if sidebar {
                self.ask(
                    Effect::Send {
                        role: ConnectionRole::Sidebar(session.to_owned()),
                        message: ClientMessage::Detach,
                        required: false,
                    },
                );
            }
            if summary {
                self.ask(Effect::Close { role: ConnectionRole::Summary(session.to_owned()) });
            }
            if sidebar {
                self.ask(Effect::Close { role: ConnectionRole::Sidebar(session.to_owned()) });
            }
            assert(self@.sessions[at as int] == self.sessions@[at as int]@);
            self.sessions[at].summary_connected = false;
            self.sessions[at].sidebar_connected = false;
            self.sessions[at].sidebar_frame = None;
            assert(self@.sessions =~= before.without_observers(session@).sessions);
        }
    }

    /// Asks for the connection that puts a session on the screen. The session needs no sidebar
    /// frames any more; what is on the screen stays there.
    pub fn request_switch(&mut self, session: &str, workspace_id: Option<&str>) -> (request:
        ConnectionRequest)
        ensures
            request@ == old(self)@.switch_request(session@, str_view(workspace_id)),
            final(self)@ == old(self)@.without_sidebar(session@).past_next_generation(),
            final(self)@.active == old(self)@.active,
            final(self)@.repaint == old(self)@.repaint,
    {
        self.drop_sidebar(session);
        let generation = self.take_generation();
        let (request, _) = connect_active(
            session,
            generation,
            self.cols,
            self.rows,
            workspace_id,
            &self.keybindings,
        );
        request
    }

    /// Puts a session on the screen, once it is connected, and tells the one before farewell.
    pub fn switch_established(&mut self, session: &str, generation: u64)
        ensures
            final(self)@ == old(self)@.switch_established(session@, generation),
    {
        self.active = ActiveSession { name: session.to_owned(), generation, frame: None };
        self.ask(
            Effect::Send {
                role: ConnectionRole::PreviousActive,
                message: ClientMessage::Detach,
                required: false,
            },
        );
    }

    /// Tells whether a session that leaves the screen for another stays in the sidebar with its
    /// workspaces.
    pub fn keeps_watching(&self, previous: &str, session: &str) -> (keeps: bool)
        ensures
            keeps == self@.keeps_watching(previous@, session@),
    {
        *previous != *session && !self.collapsed.contains(previous) && self.find_session(
            previous,
        ).is_some()
    }

    /// Tells whether a session is listed and has no connection for summaries.
    pub fn awaits_summary(&self, session: &str) -> (awaits: bool)
        ensures
            awaits == self@.awaits_summary(session@),
    {
        match self.find_session(session) {
            Some(at) => {
                assert(self@.sessions[at as int] == self.sessions@[at as int]@);
                !self.sessions[at].summary_connected
            },
            None => false,
        }
    }

    /// Lists the names of the running sessions, which the hub connects for summaries when it
    /// starts.
    pub fn running_sessions(&self) -> (names: Vec<String>)
        ensures
            text_views(names@) == running_names(self@.sessions),
    {
        let mut names: Vec<String> = Vec::new();
        let mut at: usize = 0;
        let ghost sessions = self@.sessions;
        assert(text_views(names@) =~= running_names(sessions.take(0)));
        while at < self.sessions.len()
            invariant
                at <= self.sessions.len(),
                sessions == self@.sessions,
                text_views(names@) == running_names(sessions.take(at as int)),
            decreases self.sessions.len() - at,
        {
            assert(sessions[at as int] == self.sessions@[at as int]@);
            assert(sessions.take(at + 1).drop_last() =~= sessions.take(at as int));
            let ghost before = names@;
            if self.sessions[at].running {
                names.push(self.sessions[at].name.clone());
                assert(text_views(names@) =~= text_views(before).push(sessions[at as int].name));
            }
            at = at + 1;
        }
        assert(sessions.take(at as int) =~= sessions);
        names
    }

    /// Takes note that a session could not be connected for summaries when the hub started.
    pub fn summary_refused(&mut self, session: &str, reason: &str)
        ensures
            final(self)@ == (HubView {
                status: Some(session@ + ": "@ + reason@),
                ..old(self)@
            }),
    {
        self.status = Some(joined(session, ": ", reason));
    }
}

} // verus!
