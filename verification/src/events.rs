//! What the hub does with what it hears from session servers and of the terminal's size.

use crate::effects::{effect_views, ConnectionRole, Effect, EffectView, HubStreamKind, RoleView};
use crate::input::to_active;
use crate::protocol::{ClientMessage, MessageView, ServerMessage, ServerView};
use crate::sessions::farewell;
use crate::state::{session_named, with_session, ActiveView, HubState, HubView, SessionView};
use crate::text::joined;
use vstd::prelude::*;

verus! {

/// How a server is told of the terminal's size; sizes of cells in pixels are not passed on.
pub open spec fn resize_message(cols: u16, rows: u16) -> MessageView {
    MessageView::Resize { cols, rows, cell_width_px: 0, cell_height_px: 0 }
}

/// A message to each of the given sessions that is connected for sidebar frames, which the hub
/// cannot do without.
pub open spec fn to_sidebars(sessions: Seq<SessionView>, message: MessageView) -> Seq<EffectView>
    decreases sessions.len(),
{
    if sessions.len() == 0 {
        Seq::empty()
    } else {
        let before = to_sidebars(sessions.drop_last(), message);
        if sessions.last().sidebar_connected {
            before.push(
                EffectView::Send {
                    role: RoleView::Sidebar(sessions.last().name),
                    message,
                    required: true,
                },
            )
        } else {
            before
        }
    }
}

impl HubView {
    /// The hub on a terminal of the given size, of which all that show a screen are told.
    pub open spec fn resized(self, cols: u16, rows: u16) -> HubView {
        let message = resize_message(cols, rows);
        HubView {
            cols,
            rows,
            repaint: true,
            full_repaint: true,
            effects: self.effects.push(to_active(message)) + to_sidebars(self.sessions, message),
            ..self
        }
    }

    /// Whether what comes over a stream is what the hub listens to: the stream belongs to the last
    /// connection of its kind to its session.
    pub open spec fn accepts(
        self,
        session: Seq<char>,
        generation: u64,
        kind: HubStreamKind,
    ) -> bool {
        match kind {
            HubStreamKind::App => session == self.active.name && generation
                == self.active.generation,
            HubStreamKind::Summary => session_named(self.sessions, session) matches Some(item)
                && generation == item.summary_generation,
            HubStreamKind::Sidebar => session_named(self.sessions, session) matches Some(item)
                && generation == item.sidebar_generation,
        }
    }

    /// The hub after a message from the session on the screen.
    pub open spec fn active_told(self, message: ServerView) -> HubView {
        match message {
            ServerView::Frame(frame) => HubView {
                active: ActiveView { frame: Some(frame), ..self.active },
                repaint: true,
                ..self
            },
            ServerView::Notify { kind, message, body } => self.asking(
                EffectView::Notify { kind, text: message, body },
            ),
            ServerView::Clipboard { data } => self.asking(EffectView::Clipboard { data }),
            ServerView::WindowTitle { title } => self.asking(EffectView::WindowTitle { title }),
            ServerView::MouseCapture { enabled } => self.asking(
                EffectView::MouseCapture { enabled, sgr_pixels: false },
            ),
            ServerView::ServerShutdown { reason } => HubView {
                active: ActiveView { frame: None, ..self.active },
                status: Some(
                    match reason {
                        Some(reason) => reason,
                        None => "session stopped"@,
                    },
                ),
                repaint: true,
                ..self
            },
            ServerView::SessionSummary(_) | ServerView::CompressedFrame | ServerView::Unused => self,
        }
    }

    /// The hub after a session told whether it shows something over its screen that takes all
    /// input. The one that is known to, or about to, takes all input until it tells that it does
    /// not any more; where there is none, the session on the screen can become it.
    pub open spec fn overlay_told(self, session: Seq<char>, overlay_active: bool) -> HubView {
        let owned = self.server_overlay_session == Some(session);
        if owned && overlay_active {
            HubView { server_overlay_seen: true, ..self }
        } else if owned && self.server_overlay_seen {
            HubView { server_overlay_session: None, server_overlay_seen: false, ..self }
        } else if self.server_overlay_session is None && session == self.active.name
            && overlay_active {
            HubView {
                server_overlay_session: Some(session),
                server_overlay_seen: true,
                ..self
            }
        } else {
            self
        }
    }

    /// The hub after a message over the named session's connection for summaries.
    pub open spec fn summary_told(self, session: Seq<char>, message: ServerView) -> HubView {
        match (session_named(self.sessions, session), message) {
            (Some(item), ServerView::SessionSummary(summary)) => HubView {
                sessions: with_session(
                    self.sessions,
                    session,
                    SessionView { summary: Some(summary), running: true, ..item },
                ),
                repaint: true,
                ..self
            }.overlay_told(session, summary.overlay_active),
            _ => self,
        }
    }

    /// The hub after a message over the named session's connection for sidebar frames.
    pub open spec fn sidebar_told(self, session: Seq<char>, message: ServerView) -> HubView {
        match (session_named(self.sessions, session), message) {
            (Some(item), ServerView::Frame(frame)) => HubView {
                sessions: with_session(
                    self.sessions,
                    session,
                    SessionView { sidebar_frame: Some(frame), ..item },
                ),
                repaint: true,
                ..self
            },
            (Some(item), ServerView::ServerShutdown { .. }) => HubView {
                sessions: with_session(
                    self.sessions,
                    session,
                    SessionView {
                        sidebar_frame: None,
                        sidebar_connected: false,
                        running: false,
                        ..item
                    },
                ),
                repaint: true,
                ..self.asking_if(
                    item.sidebar_connected,
                    EffectView::Close { role: RoleView::Sidebar(session) },
                )
            },
            _ => self,
        }
    }

    /// The hub after a message from a session server.
    pub open spec fn told(
        self,
        session: Seq<char>,
        generation: u64,
        kind: HubStreamKind,
        message: ServerView,
    ) -> HubView {
        if !self.accepts(session, generation, kind) {
            self
        } else {
            match kind {
                HubStreamKind::App => self.active_told(message),
                HubStreamKind::Summary => self.summary_told(session, message),
                HubStreamKind::Sidebar => self.sidebar_told(session, message),
            }
        }
    }

    /// The hub after a stream from a session server ended.
    pub open spec fn disconnected(
        self,
        session: Seq<char>,
        generation: u64,
        kind: HubStreamKind,
    ) -> HubView {
        if !self.accepts(session, generation, kind) {
            self
        } else {
            match (kind, session_named(self.sessions, session)) {
                (HubStreamKind::App, _) => HubView {
                    active: ActiveView { frame: None, ..self.active },
                    status: Some("session "@ + session + " disconnected"@),
                    repaint: true,
                    ..self
                },
                (HubStreamKind::Summary, Some(item)) => HubView {
                    sessions: with_session(
                        self.sessions,
                        session,
                        SessionView { summary_connected: false, running: false, ..item },
                    ),
                    repaint: true,
                    ..self.asking_if(
                        item.summary_connected,
                        EffectView::Close { role: RoleView::Summary(session) },
                    )
                },
                (HubStreamKind::Sidebar, Some(item)) => HubView {
                    sessions: with_session(
                        self.sessions,
                        session,
                        SessionView { sidebar_connected: false, sidebar_frame: None, ..item },
                    ),
                    repaint: true,
                    ..self.asking_if(
                        item.sidebar_connected,
                        EffectView::Close { role: RoleView::Sidebar(session) },
                    )
                },
                _ => self,
            }
        }
    }
}

impl HubState {
    /// Takes note of the terminal's size.
    pub fn resize(&mut self, cols: u16, rows: u16)
        ensures
            final(self)@ == old(self)@.resized(cols, rows),
    {
        let ghost before = self@;
        let ghost message = resize_message(cols, rows);
        self.cols = cols;
        self.rows = rows;
        self.repaint = true;
        self.full_repaint = true;
        self.ask(
            Effect::Send {
                role: ConnectionRole::Active,
                message: ClientMessage::Resize { cols, rows, cell_width_px: 0, cell_height_px: 0 },
                required: true,
            },
        );
        let mut at: usize = 0;
        let ghost base = before.effects.push(to_active(message));
        let ghost goal = before.resized(cols, rows);
        assert(self@.effects =~= base + to_sidebars(before.sessions.take(0), message));
        while at < self.sessions.len()
            invariant
                at <= self.sessions.len(),
                message == resize_message(cols, rows),
                goal == before.resized(cols, rows),
                self@ == (HubView { effects: self@.effects, ..goal }),
                self@.effects == base + to_sidebars(before.sessions.take(at as int), message),
            decreases self.sessions.len() - at,
        {
            let ghost shorter = before.sessions.take(at as int);
            let ghost longer = before.sessions.take(at + 1);
            proof {
                assert(longer.drop_last() =~= shorter);
                assert(before.sessions[at as int] == self@.sessions[at as int]);
                assert(self@.sessions[at as int] == self.sessions@[at as int]@);
            }
            if self.sessions[at].sidebar_connected {
                let name = self.sessions[at].name.clone();
                self.ask(
                    Effect::Send {
                        role: ConnectionRole::Sidebar(name),
                        message: ClientMessage::Resize {
                            cols,
                            rows,
                            cell_width_px: 0,
                            cell_height_px: 0,
                        },
                        required: true,
                    },
                );
            }
            assert(self@.effects =~= base + to_sidebars(longer, message));
            at = at + 1;
        }
        assert(before.sessions.take(at as int) =~= before.sessions);
    }

    /// Tells whether what comes over a stream is what the hub listens to.
    pub fn accepts(&self, session: &str, generation: u64, kind: HubStreamKind) -> (heard: bool)
        ensures
            heard == self@.accepts(session@, generation, kind),
    {
        match kind {
            HubStreamKind::App => *session == *self.active.name.as_str() && generation
                == self.active.generation,
            HubStreamKind::Summary => match self.find_session(session) {
                Some(at) => {
                    assert(self@.sessions[at as int] == self.sessions@[at as int]@);
                    generation == self.sessions[at].summary_generation
                },
                None => false,
            },
            HubStreamKind::Sidebar => match self.find_session(session) {
                Some(at) => {
                    assert(self@.sessions[at as int] == self.sessions@[at as int]@);
                    generation == self.sessions[at].sidebar_generation
                },
                None => false,
            },
        }
    }

    /// Takes a message from the session on the screen. Frames come uncompressed.
    pub fn handle_active_message(&mut self, message: ServerMessage)
        requires
            !(message is CompressedFrame),
        ensures
            final(self)@ == old(self)@.active_told(message@),
    {
        match message {
            ServerMessage::Frame(frame) => {
                self.active.frame = Some(frame);
                self.repaint = true;
            },
            ServerMessage::Notify { kind, message, body } => {
                self.ask(Effect::Notify { kind, text: message, body });
            },
            ServerMessage::Clipboard { data } => {
                self.ask(Effect::Clipboard { data });
            },
            ServerMessage::WindowTitle { title } => {
                self.ask(Effect::WindowTitle { title });
            },
            ServerMessage::MouseCapture { enabled } => {
                // The sidebar is as wide as some cells, so the mouse is reported in cells.
                self.ask(Effect::MouseCapture { enabled, sgr_pixels: false });
            },
            ServerMessage::ServerShutdown { reason } => {
                self.status = Some(
                    match reason {
                        Some(reason) => reason,
                        None => "session stopped".to_owned(),
                    },
                );
                self.active.frame = None;
                self.repaint = true;
            },
            _ => {},
        }
    }

    /// Takes what a session told of something over its screen that takes all input.
    fn note_overlay(&mut self, session: &str, overlay_active: bool)
        ensures
            final(self)@ == old(self)@.overlay_told(session@, overlay_active),
    {
        let owned = match &self.server_overlay_session {
            Some(owner) => *owner.as_str() == *session,
            None => false,
        };
        if owned && overlay_active {
            self.server_overlay_seen = true;
        } else if owned && self.server_overlay_seen {
            self.server_overlay_session = None;
            self.server_overlay_seen = false;
        } else if self.server_overlay_session.is_none() && *session == *self.active.name.as_str()
            && overlay_active {
            self.server_overlay_session = Some(session.to_owned());
            self.server_overlay_seen = true;
        }
    }

    /// Takes a message over a session's connection for summaries.
    fn handle_summary_message(&mut self, session: &str, message: ServerMessage)
        ensures
            final(self)@ == old(self)@.summary_told(session@, message@),
    {
        let ghost before = self@;
        if let ServerMessage::SessionSummary(summary) = message {
            if let Some(at) = self.find_session(session) {
                assert(self@.sessions[at as int] == self.sessions@[at as int]@);
                let overlay_active = summary.overlay_active;
                let ghost view = summary@;
                self.sessions[at].summary = Some(summary);
                self.sessions[at].running = true;
                self.repaint = true;
                assert(self@.sessions =~= before.sessions.update(
                    at as int,
                    SessionView {
                        summary: Some(view),
                        running: true,
                        ..before.sessions[at as int]
                    },
                ));
                self.note_overlay(session, overlay_active);
            }
        }
    }

    /// Takes a message over a session's connection for sidebar frames.
    fn handle_sidebar_message(&mut self, session: &str, message: ServerMessage)
        ensures
            final(self)@ == old(self)@.sidebar_told(session@, message@),
    {
        let ghost before = self@;
        if let Some(at) = self.find_session(session) {
            assert(self@.sessions[at as int] == self.sessions@[at as int]@);
            match message {
                ServerMessage::Frame(frame) => {
                    let ghost view = frame@;
                    self.sessions[at].sidebar_frame = Some(frame);
                    self.repaint = true;
                    assert(self@.sessions =~= before.sessions.update(
                        at as int,
                        SessionView { sidebar_frame: Some(view), ..before.sessions[at as int] },
                    ));
                },
                ServerMessage::ServerShutdown { .. } => {
                    let connected = self.sessions[at].sidebar_connected;
                    self.sessions[at].sidebar_frame = None;
                    self.sessions[at].sidebar_connected = false;
                    self.sessions[at].running = false;
                    self.repaint = true;
                    assert(self@.sessions =~= before.sessions.update(
                        at as int,
                        SessionView {
                            sidebar_frame: None,
                            sidebar_connected: false,
                            running: false,
                            ..before.sessions[at as int]
                        },
                    ));
                    if connected {
                        self.ask(
                            Effect::Close { role: ConnectionRole::Sidebar(session.to_owned()) },
                        );
                    }
                },
                _ => {},
            }
        }
    }

    /// Takes a message from a session server. Frames that the hub listens to come uncompressed.
    pub fn handle_server_message(
        &mut self,
        session: &str,
        generation: u64,
        kind: HubStreamKind,
        message: ServerMessage,
    )
        requires
            kind == HubStreamKind::App && old(self)@.accepts(session@, generation, kind) ==> !(
            message is CompressedFrame),
        ensures
            final(self)@ == old(self)@.told(session@, generation, kind, message@),
    {
        if !self.accepts(session, generation, kind) {
            return ;
        }
        match kind {
            HubStreamKind::App => self.handle_active_message(message),
            HubStreamKind::Summary => self.handle_summary_message(session, message),
            HubStreamKind::Sidebar => self.handle_sidebar_message(session, message),
        }
    }

    /// Takes note that a stream from a session server ended.
    pub fn handle_disconnect(&mut self, session: &str, generation: u64, kind: HubStreamKind)
        ensures
            final(self)@ == old(self)@.disconnected(session@, generation, kind),
    {
        if !self.accepts(session, generation, kind) {
            return ;
        }
        let ghost before = self@;
        match kind {
            HubStreamKind::App => {
                self.active.frame = None;
                self.status = Some(joined("session ", session, " disconnected"));
                self.repaint = true;
            },
            HubStreamKind::Summary => {
                if let Some(at) = self.find_session(session) {
                    assert(self@.sessions[at as int] == self.sessions@[at as int]@);
                    let connected = self.sessions[at].summary_connected;
                    self.sessions[at].summary_connected = false;
                    self.sessions[at].running = false;
                    self.repaint = true;
                    assert(self@.sessions =~= before.disconnected(
                        session@,
                        generation,
                        kind,
                    ).sessions);
                    if connected {
                        self.ask(
                            Effect::Close { role: ConnectionRole::Summary(session.to_owned()) },
                        );
                    }
                }
            },
            HubStreamKind::Sidebar => {
                if let Some(at) = self.find_session(session) {
                    assert(self@.sessions[at as int] == self.sessions@[at as int]@);
                    let connected = self.sessions[at].sidebar_connected;
                    self.sessions[at].sidebar_connected = false;
                    self.sessions[at].sidebar_frame = None;
                    self.repaint = true;
                    assert(self@.sessions =~= before.disconnected(
                        session@,
                        generation,
                        kind,
                    ).sessions);
                    if connected {
                        self.ask(
                            Effect::Close { role: ConnectionRole::Sidebar(session.to_owned()) },
                        );
                    }
                }
            },
        }
    }

    /// Takes note that the screen is up to date.
    pub fn painted(&mut self)
        ensures
            final(self)@ == (HubView { repaint: false, full_repaint: false, ..old(self)@ }),
    {
        self.repaint = false;
        self.full_repaint = false;
    }

    /// Says farewell to the session on the screen when the hub ends.
    pub fn leave(&mut self)
        ensures
            final(self)@ == old(self)@.asking(farewell(RoleView::Active)),
    {
        self.ask(
            Effect::Send {
                role: ConnectionRole::Active,
                message: ClientMessage::Detach,
                required: false,
            },
        );
    }

    /// Hands out the effects that the program has yet to perform.
    pub fn take_effects(&mut self) -> (effects: Vec<Effect>)
        ensures
            effect_views(effects@) == old(self)@.effects,
            final(self)@ == (HubView { effects: Seq::empty(), ..old(self)@ }),
    {
        let mut effects: Vec<Effect> = Vec::new();
        std::mem::swap(&mut effects, &mut self.effects);
        assert(self@.effects =~= Seq::empty());
        effects
    }
}

/// What reading from a session server came to.
#[derive(Debug, Clone, Copy, PartialEq, Eq, Structural)]
pub enum ReadOutcome {
    Message,
    EndOfStream,
    Failure,
}

/// What a reader does next.
#[derive(Debug, Clone, Copy, PartialEq, Eq, Structural)]
pub enum ReaderStep {
    /// Hand the message to the hub and read on.
    Deliver,
    /// Write the failure to the log and tell the hub that the stream ended.
    ReportAndEnd,
    /// Tell the hub that the stream ended.
    End,
}

/// What a reader does after it read.
pub open spec fn reader_step_of(outcome: ReadOutcome) -> ReaderStep {
    match outcome {
        ReadOutcome::Message => ReaderStep::Deliver,
        ReadOutcome::EndOfStream => ReaderStep::End,
        ReadOutcome::Failure => ReaderStep::ReportAndEnd,
    }
}

/// Decides what a reader does after it read.
pub fn reader_step(outcome: ReadOutcome) -> (step: ReaderStep)
    ensures
        step == reader_step_of(outcome),
{
    match outcome {
        ReadOutcome::Message => ReaderStep::Deliver,
        ReadOutcome::EndOfStream => ReaderStep::End,
        ReadOutcome::Failure => ReaderStep::ReportAndEnd,
    }
}

/// The largest message that is read from a stream of the given kind: streams that carry frames
/// have the limit for frames.
pub open spec fn read_limit_of(kind: HubStreamKind, plain: usize, render: usize) -> usize {
    match kind {
        HubStreamKind::App | HubStreamKind::Sidebar => render,
        HubStreamKind::Summary => plain,
    }
}

/// Decides how large a message may be that is read from a stream of the given kind.
pub fn read_limit(kind: HubStreamKind, plain: usize, render: usize) -> (limit: usize)
    ensures
        limit == read_limit_of(kind, plain, render),
{
    match kind {
        HubStreamKind::App => render,
        HubStreamKind::Sidebar => render,
        HubStreamKind::Summary => plain,
    }
}

/// Decides whether a compressed frame is unpacked: only where the hub listens to it, and not where
/// it has no use for frames.
pub fn unpacks(kind: HubStreamKind, accepted: bool) -> (yes: bool)
    ensures
        yes == (accepted && kind != HubStreamKind::Summary),
{
    accepted && kind != HubStreamKind::Summary
}

/// What comes over a stream that the hub does not listen to changes nothing.
pub proof fn stale_streams_change_nothing(
    hub: HubView,
    session: Seq<char>,
    generation: u64,
    kind: HubStreamKind,
    message: ServerView,
)
    requires
        !hub.accepts(session, generation, kind),
    ensures
        hub.told(session, generation, kind, message) == hub,
        hub.disconnected(session, generation, kind) == hub,
{
}

/// A session that was right-clicked takes all input until it has told of something over its screen
/// and then that it is gone. That it tells of nothing before changes nothing.
pub proof fn overlay_is_released_once_seen(hub: HubView, session: Seq<char>)
    requires
        hub.server_overlay_session == Some(session),
    ensures
        hub.overlay_told(session, true).overlay_told(session, false).server_overlay_session is None,
        !hub.server_overlay_seen ==> hub.overlay_told(session, false) == hub,
        forall|other: Seq<char>, active: bool|
            other != session ==> #[trigger] hub.overlay_told(other, active) == hub,
{
}

} // verus!
