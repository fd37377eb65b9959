//! What travels between the hub, its terminal and the session servers.

use crate::frame::{FrameData, FrameView};
use vstd::prelude::*;

verus! {

/// What an optional text says.
pub open spec fn text_view(text: Option<String>) -> Option<Seq<char>> {
    match text {
        Some(text) => Some(text@),
        None => None,
    }
}

/// A button of the mouse.
#[derive(Debug, Clone, Copy, PartialEq, Eq, Structural)]
pub enum MouseButton {
    Left,
    Right,
    Middle,
}

/// What the mouse did.
#[derive(Debug, Clone, Copy, PartialEq, Eq, Structural)]
pub enum MouseEventKind {
    Down(MouseButton),
    Up(MouseButton),
    Drag(MouseButton),
    Moved,
    ScrollDown,
    ScrollUp,
    ScrollLeft,
    ScrollRight,
}

/// A mouse event as a session server is told of it.
#[derive(Debug, Clone, Copy, PartialEq, Eq, Structural)]
pub enum ClientMouseKind {
    Down(MouseButton),
    Up(MouseButton),
    Drag(MouseButton),
    Moved,
    ScrollDown,
    ScrollUp,
    ScrollLeft,
    ScrollRight,
}

/// A mouse event on the local terminal.
#[derive(Debug, Clone, Copy, PartialEq, Eq, Structural)]
pub struct MouseEvent {
    pub kind: MouseEventKind,
    /// How a session server is told of it, where it is told at all.
    pub wire_kind: Option<ClientMouseKind>,
    pub column: u16,
    pub row: u16,
    /// Held modifier keys as bits.
    pub modifiers: u8,
}

/// The keys that the hub tells apart.
#[derive(Debug, Clone, Copy, PartialEq, Eq, Structural)]
pub enum KeyCode {
    Esc,
    Up,
    Down,
    Enter,
    Backspace,
    Char(char),
    Other,
}

/// What happened to a key.
#[derive(Debug, Clone, Copy, PartialEq, Eq, Structural)]
pub enum KeyEventKind {
    Press,
    Repeat,
    Release,
}

/// A key event on the local terminal.
#[derive(Debug, Clone, Copy, PartialEq, Eq, Structural)]
pub struct TerminalKey {
    pub code: KeyCode,
    /// Held modifier keys as bits.
    pub modifiers: u8,
    pub kind: KeyEventKind,
}

/// An event read from the local terminal.
#[derive(Debug, Clone, Copy, PartialEq, Eq, Structural)]
pub enum RawInputEvent {
    Key(TerminalKey),
    Mouse(MouseEvent),
    Other,
}

/// An input event as a session server is told of it.
#[derive(Debug, Clone, Copy, PartialEq, Eq, Structural)]
pub enum ClientInputEvent {
    Mouse { kind: ClientMouseKind, column: u16, row: u16, modifiers: u8 },
}

/// A message to a session server.
#[derive(Debug, PartialEq, Eq)]
pub enum ClientMessage {
    Resize { cols: u16, rows: u16, cell_width_px: u32, cell_height_px: u32 },
    Input { data: Vec<u8> },
    InputEvents { events: Vec<ClientInputEvent> },
    ClipboardImage { extension: String, data: Vec<u8> },
    Detach,
}

/// What a [`ClientMessage`] says.
pub enum MessageView {
    Resize { cols: u16, rows: u16, cell_width_px: u32, cell_height_px: u32 },
    Input { data: Seq<u8> },
    InputEvents { events: Seq<ClientInputEvent> },
    ClipboardImage { extension: Seq<char>, data: Seq<u8> },
    Detach,
}

impl View for ClientMessage {
    type V = MessageView;

    open spec fn view(&self) -> MessageView {
        match *self {
            ClientMessage::Resize { cols, rows, cell_width_px, cell_height_px } => {
                MessageView::Resize { cols, rows, cell_width_px, cell_height_px }
            },
            ClientMessage::Input { data } => MessageView::Input { data: data@ },
            ClientMessage::InputEvents { events } => MessageView::InputEvents { events: events@ },
            ClientMessage::ClipboardImage { extension, data } => {
                MessageView::ClipboardImage { extension: extension@, data: data@ }
            },
            ClientMessage::Detach => MessageView::Detach,
        }
    }
}

/// How a server is told of one mouse event.
pub open spec fn mouse_message(
    kind: ClientMouseKind,
    column: u16,
    row: u16,
    modifiers: u8,
) -> MessageView {
    MessageView::InputEvents {
        events: seq![ClientInputEvent::Mouse { kind, column, row, modifiers }],
    }
}

/// The message that tells a server of one mouse event.
pub fn mouse_input(kind: ClientMouseKind, column: u16, row: u16, modifiers: u8) -> (message:
    ClientMessage)
    ensures
        message@ == mouse_message(kind, column, row, modifiers),
{
    let mut events: Vec<ClientInputEvent> = Vec::new();
    events.push(ClientInputEvent::Mouse { kind, column, row, modifiers });
    assert(events@ =~= seq![ClientInputEvent::Mouse { kind, column, row, modifiers }]);
    ClientMessage::InputEvents { events }
}

/// Where a session's own screen shows one of its workspaces.
#[derive(Debug, PartialEq, Eq)]
pub struct WorkspaceCard {
    pub workspace_id: String,
    pub y: u16,
    pub height: u16,
}

/// What a [`WorkspaceCard`] says.
pub struct CardView {
    pub workspace_id: Seq<char>,
    pub y: u16,
    pub height: u16,
}

impl View for WorkspaceCard {
    type V = CardView;

    open spec fn view(&self) -> CardView {
        CardView { workspace_id: self.workspace_id@, y: self.y, height: self.height }
    }
}

/// How a session's own screen lays out its sidebar.
#[derive(Debug, PartialEq, Eq)]
pub struct SessionSidebarSummary {
    pub width: u16,
    pub spaces_y: u16,
    pub spaces_height: u16,
    pub footer_y: u16,
    pub workspace_cards: Vec<WorkspaceCard>,
}

/// What a [`SessionSidebarSummary`] says.
#[verifier::ext_equal]
pub struct SidebarView {
    pub width: u16,
    pub spaces_y: u16,
    pub spaces_height: u16,
    pub footer_y: u16,
    pub cards: Seq<CardView>,
}

/// What a list of cards says.
pub open spec fn card_views(cards: Seq<WorkspaceCard>) -> Seq<CardView> {
    cards.map_values(|card: WorkspaceCard| card@)
}

impl View for SessionSidebarSummary {
    type V = SidebarView;

    open spec fn view(&self) -> SidebarView {
        SidebarView {
            width: self.width,
            spaces_y: self.spaces_y,
            spaces_height: self.spaces_height,
            footer_y: self.footer_y,
            cards: card_views(self.workspace_cards@),
        }
    }
}

/// What a session tells of itself.
#[derive(Debug, PartialEq, Eq)]
pub struct SessionSummary {
    /// Whether the session shows something over its screen that takes all input.
    pub overlay_active: bool,
    pub sidebar: Option<SessionSidebarSummary>,
}

/// What a [`SessionSummary`] says.
pub struct SummaryView {
    pub overlay_active: bool,
    pub sidebar: Option<SidebarView>,
}

impl View for SessionSummary {
    type V = SummaryView;

    open spec fn view(&self) -> SummaryView {
        SummaryView {
            overlay_active: self.overlay_active,
            sidebar: match self.sidebar {
                Some(sidebar) => Some(sidebar@),
                None => None,
            },
        }
    }
}

/// What a summary that may be missing says.
pub open spec fn summary_view(summary: Option<SessionSummary>) -> Option<SummaryView> {
    match summary {
        Some(summary) => Some(summary@),
        None => None,
    }
}

/// A message from a session server.
#[derive(Debug, PartialEq, Eq)]
pub enum ServerMessage {
    Welcome,
    Frame(FrameData),
    CompressedFrame,
    SessionSummary(SessionSummary),
    Notify { kind: u8, message: String, body: Option<String> },
    Clipboard { data: Vec<u8> },
    WindowTitle { title: Option<String> },
    MouseCapture { enabled: bool },
    ServerShutdown { reason: Option<String> },
    ReloadSoundConfig,
    KittyKeyboardReportAll,
    PrefixInputSource,
    Graphics,
    GraphicsFile,
    GraphicsTransmissionRetired,
    TerminalBell,
    Terminal,
}

/// What a [`ServerMessage`] says to the hub.
pub enum ServerView {
    Frame(FrameView),
    CompressedFrame,
    SessionSummary(SummaryView),
    Notify { kind: u8, message: Seq<char>, body: Option<Seq<char>> },
    Clipboard { data: Seq<u8> },
    WindowTitle { title: Option<Seq<char>> },
    MouseCapture { enabled: bool },
    ServerShutdown { reason: Option<Seq<char>> },
    /// A message that the hub has no use for.
    Unused,
}

impl View for ServerMessage {
    type V = ServerView;

    open spec fn view(&self) -> ServerView {
        match *self {
            ServerMessage::Frame(frame) => ServerView::Frame(frame@),
            ServerMessage::CompressedFrame => ServerView::CompressedFrame,
            ServerMessage::SessionSummary(summary) => ServerView::SessionSummary(summary@),
            ServerMessage::Notify { kind, message, body } => {
                ServerView::Notify { kind, message: message@, body: text_view(body) }
            },
            ServerMessage::Clipboard { data } => ServerView::Clipboard { data: data@ },
            ServerMessage::WindowTitle { title } => {
                ServerView::WindowTitle { title: text_view(title) }
            },
            ServerMessage::MouseCapture { enabled } => ServerView::MouseCapture { enabled },
            ServerMessage::ServerShutdown { reason } => {
                ServerView::ServerShutdown { reason: text_view(reason) }
            },
            ServerMessage::Welcome => ServerView::Unused,
            ServerMessage::ReloadSoundConfig => ServerView::Unused,
            ServerMessage::KittyKeyboardReportAll => ServerView::Unused,
            ServerMessage::PrefixInputSource => ServerView::Unused,
            ServerMessage::Graphics => ServerView::Unused,
            ServerMessage::GraphicsFile => ServerView::Unused,
            ServerMessage::GraphicsTransmissionRetired => ServerView::Unused,
            ServerMessage::TerminalBell => ServerView::Unused,
            ServerMessage::Terminal => ServerView::Unused,
        }
    }
}

/// Of what kind a failure of input or output is; `Other` is any kind that is not named here.
#[derive(Debug, Clone, Copy, PartialEq, Eq, Structural)]
pub enum IoErrorKind {
    NotFound,
    PermissionDenied,
    ConnectionRefused,
    ConnectionReset,
    ConnectionAborted,
    NotConnected,
    AddrInUse,
    AddrNotAvailable,
    BrokenPipe,
    AlreadyExists,
    WouldBlock,
    InvalidInput,
    InvalidData,
    TimedOut,
    WriteZero,
    Interrupted,
    Unsupported,
    UnexpectedEof,
    OutOfMemory,
    Other,
}

/// A failure of input or output.
#[derive(Debug, PartialEq, Eq)]
pub struct IoFailure {
    pub kind: IoErrorKind,
    pub reason: String,
}

/// What an [`IoFailure`] says.
pub struct FailureView {
    pub kind: IoErrorKind,
    pub reason: Seq<char>,
}

impl View for IoFailure {
    type V = FailureView;

    open spec fn view(&self) -> FailureView {
        FailureView { kind: self.kind, reason: self.reason@ }
    }
}

/// Why the hub stops.
#[derive(Debug, PartialEq, Eq)]
pub enum ClientError {
    ConnectionFailed(IoFailure),
    ConnectionLost(IoFailure),
}

/// What a [`ClientError`] says.
pub enum ErrorView {
    ConnectionFailed(FailureView),
    ConnectionLost(FailureView),
}

impl View for ClientError {
    type V = ErrorView;

    open spec fn view(&self) -> ErrorView {
        match *self {
            ClientError::ConnectionFailed(failure) => ErrorView::ConnectionFailed(failure@),
            ClientError::ConnectionLost(failure) => ErrorView::ConnectionLost(failure@),
        }
    }
}

} // verus!
