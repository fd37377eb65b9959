//! What the hub asks of the program around it.
//!
//! The hub decides and the program acts: it performs the effects that the hub lists, in their
//! order, and stops where one of them fails that must not.

use crate::protocol::{
    text_view, ClientError, ClientMessage, ErrorView, FailureView, IoFailure, MessageView,
};
use vstd::prelude::*;

verus! {

/// Which of a session's streams a message comes from.
#[derive(Debug, Clone, Copy, PartialEq, Eq, Structural)]
pub enum HubStreamKind {
    App,
    Sidebar,
    Summary,
}

/// A connection by what the hub keeps it for.
#[derive(Debug, Clone, PartialEq, Eq)]
pub enum ConnectionRole {
    /// The session on the screen.
    Active,
    /// The session that was on the screen until the last connection to [`ConnectionRole::Active`],
    /// as long as the hub has not let go of it.
    PreviousActive,
    /// What the named session tells of itself.
    Summary(String),
    /// The screen of the named session, for its rows in the sidebar.
    Sidebar(String),
}

/// What a [`ConnectionRole`] says.
pub enum RoleView {
    Active,
    PreviousActive,
    Summary(Seq<char>),
    Sidebar(Seq<char>),
}

impl View for ConnectionRole {
    type V = RoleView;

    open spec fn view(&self) -> RoleView {
        match *self {
            ConnectionRole::Active => RoleView::Active,
            ConnectionRole::PreviousActive => RoleView::PreviousActive,
            ConnectionRole::Summary(session) => RoleView::Summary(session@),
            ConnectionRole::Sidebar(session) => RoleView::Sidebar(session@),
        }
    }
}

/// One thing for the program around the hub to do.
#[derive(Debug, PartialEq, Eq)]
pub enum Effect {
    /// Send a message; where it is not required, a failure is of no account.
    Send { role: ConnectionRole, message: ClientMessage, required: bool },
    /// Let go of a connection.
    Close { role: ConnectionRole },
    /// Show a notification.
    Notify { kind: u8, text: String, body: Option<String> },
    /// Put data on the local clipboard.
    Clipboard { data: Vec<u8> },
    /// Set the title of the terminal's window.
    WindowTitle { title: Option<String> },
    /// Turn the terminal's mouse reports on or off, in pixels or in cells.
    MouseCapture { enabled: bool, sgr_pixels: bool },
}

/// What an [`Effect`] says.
pub enum EffectView {
    Send { role: RoleView, message: MessageView, required: bool },
    Close { role: RoleView },
    Notify { kind: u8, text: Seq<char>, body: Option<Seq<char>> },
    Clipboard { data: Seq<u8> },
    WindowTitle { title: Option<Seq<char>> },
    MouseCapture { enabled: bool, sgr_pixels: bool },
}

impl View for Effect {
    type V = EffectView;

    open spec fn view(&self) -> EffectView {
        match *self {
            Effect::Send { role, message, required } => {
                EffectView::Send { role: role@, message: message@, required }
            },
            Effect::Close { role } => EffectView::Close { role: role@ },
            Effect::Notify { kind, text, body } => {
                EffectView::Notify { kind, text: text@, body: text_view(body) }
            },
            Effect::Clipboard { data } => EffectView::Clipboard { data: data@ },
            Effect::WindowTitle { title } => EffectView::WindowTitle { title: text_view(title) },
            Effect::MouseCapture { enabled, sgr_pixels } => {
                EffectView::MouseCapture { enabled, sgr_pixels }
            },
        }
    }
}

/// What a list of effects says.
pub open spec fn effect_views(effects: Seq<Effect>) -> Seq<EffectView> {
    effects.map_values(|effect: Effect| effect@)
}

/// Why the hub stops when the effect fails in the given way, if it stops.
pub open spec fn failure_of(effect: EffectView, failure: FailureView) -> Option<ErrorView> {
    match effect {
        EffectView::MouseCapture { .. } => Some(ErrorView::ConnectionFailed(failure)),
        EffectView::Send { required: true, .. } => Some(ErrorView::ConnectionLost(failure)),
        _ => None,
    }
}

/// Decides what a failed effect means for the hub.
pub fn effect_failed(effect: &Effect, failure: IoFailure) -> (error: Option<ClientError>)
    ensures
        match error {
            Some(error) => failure_of(effect@, failure@) == Some(error@),
            None => failure_of(effect@, failure@) is None,
        },
{
    match effect {
        Effect::MouseCapture { .. } => Some(ClientError::ConnectionFailed(failure)),
        Effect::Send { required, .. } => if *required {
            Some(ClientError::ConnectionLost(failure))
        } else {
            None
        },
        _ => None,
    }
}

} // verus!
