//! Connections to session servers: what the hub asks for when it needs one.

use crate::effects::{ConnectionRole, HubStreamKind, RoleView};
use crate::protocol::text_view;
use vstd::prelude::*;

verus! {

/// How a connection introduces itself to a session server.
#[derive(Debug, Clone, Copy, PartialEq, Eq, Structural)]
pub enum ClientLaunchMode {
    App,
    AppSidebar,
    SessionSummary,
}

/// How a session server sends what it shows.
#[derive(Debug, Clone, Copy, PartialEq, Eq, Structural)]
pub enum RenderEncoding {
    /// Frames of cells.
    SemanticFrame,
}

/// The client's key bindings, encoded as session servers take them.
#[derive(Debug, PartialEq, Eq)]
pub struct ClientKeybindings {
    pub encoded: Vec<u8>,
}

impl View for ClientKeybindings {
    type V = Seq<u8>;

    open spec fn view(&self) -> Seq<u8> {
        self.encoded@
    }
}

impl Clone for ClientKeybindings {
    fn clone(&self) -> (copy: ClientKeybindings)
        ensures
            copy@ == self@,
    {
        let encoded = self.encoded.clone();
        assert(encoded@ =~= self.encoded@);
        ClientKeybindings { encoded }
    }
}

/// What a connection tells a session server at its start.
#[derive(Debug, Clone, PartialEq, Eq)]
pub struct Handshake {
    pub cols: u16,
    pub rows: u16,
    pub cell_width_px: u32,
    pub cell_height_px: u32,
    pub encoding: RenderEncoding,
    pub keybindings: ClientKeybindings,
    pub mode: ClientLaunchMode,
}

/// What a [`Handshake`] says.
pub struct HandshakeView {
    pub cols: u16,
    pub rows: u16,
    pub cell_width_px: u32,
    pub cell_height_px: u32,
    pub encoding: RenderEncoding,
    pub keybindings: Seq<u8>,
    pub mode: ClientLaunchMode,
}

impl View for Handshake {
    type V = HandshakeView;

    open spec fn view(&self) -> HandshakeView {
        HandshakeView {
            cols: self.cols,
            rows: self.rows,
            cell_width_px: self.cell_width_px,
            cell_height_px: self.cell_height_px,
            encoding: self.encoding,
            keybindings: self.keybindings@,
            mode: self.mode,
        }
    }
}

/// A connection for the program to open: it focuses the workspace where one is given, connects to
/// the session, shakes hands and starts to read. The connection is then kept under its role; one
/// that was [`ConnectionRole::Active`] becomes [`ConnectionRole::PreviousActive`].
#[derive(Debug, Clone, PartialEq, Eq)]
pub struct ConnectionRequest {
    pub role: ConnectionRole,
    pub session: String,
    pub generation: u64,
    pub workspace: Option<String>,
    pub handshake: Handshake,
}

/// What a [`ConnectionRequest`] says.
pub struct ConnectionView {
    pub role: RoleView,
    pub session: Seq<char>,
    pub generation: u64,
    pub workspace: Option<Seq<char>>,
    pub handshake: HandshakeView,
}

impl View for ConnectionRequest {
    type V = ConnectionView;

    open spec fn view(&self) -> ConnectionView {
        ConnectionView {
            role: self.role@,
            session: self.session@,
            generation: self.generation,
            workspace: text_view(self.workspace),
            handshake: self.handshake@,
        }
    }
}

/// How a connection of the given role introduces itself.
pub open spec fn launch_mode_of(role: RoleView) -> ClientLaunchMode {
    match role {
        RoleView::Active | RoleView::PreviousActive => ClientLaunchMode::App,
        RoleView::Summary(_) => ClientLaunchMode::SessionSummary,
        RoleView::Sidebar(_) => ClientLaunchMode::AppSidebar,
    }
}

/// Tells how a connection of the given role introduces itself.
pub fn launch_mode(role: &ConnectionRole) -> (mode: ClientLaunchMode)
    ensures
        mode == launch_mode_of(role@),
{
    match role {
        ConnectionRole::Active => ClientLaunchMode::App,
        ConnectionRole::PreviousActive => ClientLaunchMode::App,
        ConnectionRole::Summary(_) => ClientLaunchMode::SessionSummary,
        ConnectionRole::Sidebar(_) => ClientLaunchMode::AppSidebar,
    }
}

/// The kind of the messages that come over a connection of the given role.
pub open spec fn stream_kind_of(role: RoleView) -> HubStreamKind {
    match role {
        RoleView::Active | RoleView::PreviousActive => HubStreamKind::App,
        RoleView::Summary(_) => HubStreamKind::Summary,
        RoleView::Sidebar(_) => HubStreamKind::Sidebar,
    }
}

/// Tells of what kind the messages are that come over a connection of the given role.
pub fn stream_kind(role: &ConnectionRole) -> (kind: HubStreamKind)
    ensures
        kind == stream_kind_of(role@),
{
    match role {
        ConnectionRole::Active => HubStreamKind::App,
        ConnectionRole::PreviousActive => HubStreamKind::App,
        ConnectionRole::Summary(_) => HubStreamKind::Summary,
        ConnectionRole::Sidebar(_) => HubStreamKind::Sidebar,
    }
}

/// The handshake of a connection of the given role: at the given size in cells, of which the size
/// in pixels is not told, for frames of cells, and with the client's key bindings.
pub open spec fn handshake_of(
    role: RoleView,
    cols: u16,
    rows: u16,
    keybindings: Seq<u8>,
) -> HandshakeView {
    HandshakeView {
        cols,
        rows,
        cell_width_px: 0,
        cell_height_px: 0,
        encoding: RenderEncoding::SemanticFrame,
        keybindings,
        mode: launch_mode_of(role),
    }
}

/// The handshake of a connection of the given role.
pub fn handshake(
    role: &ConnectionRole,
    cols: u16,
    rows: u16,
    keybindings: &ClientKeybindings,
) -> (shake: Handshake)
    ensures
        shake@ == handshake_of(role@, cols, rows, keybindings@),
{
    Handshake {
        cols,
        rows,
        cell_width_px: 0,
        cell_height_px: 0,
        encoding: RenderEncoding::SemanticFrame,
        keybindings: keybindings.clone(),
        mode: launch_mode(role),
    }
}

} // verus!
