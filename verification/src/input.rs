//! What the hub does with input from the local terminal.

use crate::dialogs::{pressed, pressed_key, ModalProgress, ProgressView};
use crate::effects::{ConnectionRole, Effect, EffectView, RoleView};
use crate::frame::{lesser, min16, sat_add, sat_sub, Rect};
use crate::lifecycle::DEFAULT_SESSION_NAME;
use crate::protocol::{
    mouse_input, mouse_message, ClientError, ClientMessage, ErrorView, FailureView, IoErrorKind,
    IoFailure, KeyCode, MessageView, MouseButton, MouseEvent, MouseEventKind, RawInputEvent,
};
use crate::rows::{row_views, rows_lie_apart, HubRow, HubRowTarget, RowView, TargetView};
use crate::state::{
    session_named, HubState, HubView, MenuView, ModalView, SessionContextMenu, SessionModal,
};
use crate::steps::{step_view, switch_plan, HubStep, StepView};
use crate::text::joined;
use vstd::prelude::*;

verus! {

/// What came of input from the terminal.
#[derive(Debug, PartialEq, Eq)]
pub enum InputStep {
    /// The hub took it; it is done with it after the step.
    Taken(HubStep),
    /// The open dialog took it.
    Modal(ModalProgress),
    /// It is for the session on the screen; the program looks for an image that goes with it and
    /// hands both to [`HubState::route_terminal_input`].
    Terminal,
}

/// What an [`InputStep`] says.
pub enum InputView {
    Taken(StepView),
    Modal(ProgressView),
    Terminal,
}

impl View for InputStep {
    type V = InputView;

    open spec fn view(&self) -> InputView {
        match *self {
            InputStep::Taken(step) => InputView::Taken(step@),
            InputStep::Modal(progress) => InputView::Modal(progress@),
            InputStep::Terminal => InputView::Terminal,
        }
    }
}

/// What came of input, or why the hub stops.
pub open spec fn input_view(step: Result<InputStep, ClientError>) -> Result<InputView, ErrorView> {
    match step {
        Ok(step) => Ok(step@),
        Err(error) => Err(error@),
    }
}

/// Nothing, or why the hub stops.
pub open spec fn outcome_view(outcome: Result<(), ClientError>) -> Result<(), ErrorView> {
    match outcome {
        Ok(_) => Ok(()),
        Err(error) => Err(error@),
    }
}

/// An image that goes with input.
#[derive(Debug, PartialEq, Eq)]
pub struct ClipboardImage {
    pub extension: String,
    pub bytes: Vec<u8>,
}

/// The image that goes with input from the terminal.
#[derive(Debug, PartialEq, Eq)]
pub enum ImageSource {
    /// The input asks to paste, and the image is on the local clipboard.
    Pasted(ClipboardImage),
    /// The input names a file that was dropped on the terminal, and this is what it holds.
    Dropped(ClipboardImage),
    /// There is none.
    Absent,
}

/// Where the program looks for an image that goes with input.
#[derive(Debug, Clone, Copy, PartialEq, Eq, Structural)]
pub enum ImageLook {
    /// On the local clipboard.
    Clipboard,
    /// In a file that the input names.
    Drop,
}

/// What comes of looking for an image.
#[derive(Debug, PartialEq, Eq)]
pub enum LookStep {
    /// The program looks there.
    Look(ImageLook),
    /// This is what goes with the input.
    Found(ImageSource),
}

/// Where the program looks first: on the clipboard only where the input asks to paste.
pub open spec fn first_look_of(asks_to_paste: bool) -> ImageLook {
    if asks_to_paste {
        ImageLook::Clipboard
    } else {
        ImageLook::Drop
    }
}

/// Decides where the program looks first for an image.
pub fn first_look(asks_to_paste: bool) -> (look: ImageLook)
    ensures
        look == first_look_of(asks_to_paste),
{
    if asks_to_paste {
        ImageLook::Clipboard
    } else {
        ImageLook::Drop
    }
}

/// What comes of an image that was or was not found: one on the clipboard comes before one in a
/// file.
pub open spec fn look_step_of(look: ImageLook, image: Option<ClipboardImage>) -> LookStep {
    match (look, image) {
        (ImageLook::Clipboard, Some(image)) => LookStep::Found(ImageSource::Pasted(image)),
        (ImageLook::Clipboard, None) => LookStep::Look(ImageLook::Drop),
        (ImageLook::Drop, Some(image)) => LookStep::Found(ImageSource::Dropped(image)),
        (ImageLook::Drop, None) => LookStep::Found(ImageSource::Absent),
    }
}

/// Decides what comes of an image that was or was not found.
pub fn look_step(look: ImageLook, image: Option<ClipboardImage>) -> (step: LookStep)
    ensures
        step == look_step_of(look, image),
{
    match (look, image) {
        (ImageLook::Clipboard, Some(image)) => LookStep::Found(ImageSource::Pasted(image)),
        (ImageLook::Clipboard, None) => LookStep::Look(ImageLook::Drop),
        (ImageLook::Drop, Some(image)) => LookStep::Found(ImageSource::Dropped(image)),
        (ImageLook::Drop, None) => LookStep::Found(ImageSource::Absent),
    }
}

/// The message that carries an image.
pub open spec fn image_message(image: ClipboardImage) -> MessageView {
    MessageView::ClipboardImage { extension: image.extension@, data: image.bytes@ }
}

/// A message to the session on the screen, which the hub cannot do without.
pub open spec fn to_active(message: MessageView) -> EffectView {
    EffectView::Send { role: RoleView::Active, message, required: true }
}

/// That a session is neither on the screen nor connected for sidebar frames.
pub open spec fn not_connected(session: Seq<char>) -> FailureView {
    FailureView {
        kind: IoErrorKind::NotConnected,
        reason: "session "@ + session + " sidebar is not connected"@,
    }
}

/// The mouse event that a list of events consists of.
pub open spec fn lone_mouse(events: Seq<RawInputEvent>) -> Option<MouseEvent> {
    if events.len() == 1 {
        match events[0] {
            RawInputEvent::Mouse(mouse) => Some(mouse),
            _ => None,
        }
    } else {
        None
    }
}

/// What the first row at the given height stands for.
pub open spec fn target_at(rows: Seq<RowView>, y: u16) -> Option<TargetView>
    decreases rows.len(),
{
    if rows.len() == 0 {
        None
    } else if rows.first().y == y {
        Some(rows.first().target)
    } else {
        target_at(rows.drop_first(), y)
    }
}

/// At least one.
pub open spec fn positive(size: u16) -> u16 {
    if size == 0 {
        1
    } else {
        size
    }
}

/// How many columns the menu of a session takes, where the screen has them.
pub const MENU_WIDTH: u16 = 16;

/// How many rows the menu of a session takes, where the screen has them.
pub const MENU_HEIGHT: u16 = 4;

/// The place of a menu that was opened at the given cell: there, or as near as it is whole on the
/// screen.
pub open spec fn menu_rect(menu: MenuView, cols: u16, rows: u16) -> Rect {
    let width = min16(MENU_WIDTH, positive(cols));
    let height = min16(MENU_HEIGHT, positive(rows));
    Rect {
        x: min16(menu.x, sat_sub(cols, width)),
        y: min16(menu.y, sat_sub(rows, height)),
        width,
        height,
    }
}

/// Which of the two entries of a menu at the given place a click is on.
pub open spec fn entry_at(rect: Rect, column: u16, row: u16) -> Option<usize> {
    let top = sat_add(rect.y, 1);
    if rect.x < column < sat_sub(sat_add(rect.x, rect.width), 1) && top <= row < sat_add(top, 2) {
        Some((row - top) as usize)
    } else {
        None
    }
}

impl HubView {
    /// Where the open menu is.
    pub open spec fn session_menu_rect(self) -> Option<Rect> {
        match self.session_menu {
            Some(menu) => Some(menu_rect(menu, self.cols, self.rows)),
            None => None,
        }
    }

    /// The hub with the given entry of its menu highlighted.
    pub open spec fn highlighting(self, entry: usize) -> HubView {
        HubView {
            session_menu: match self.session_menu {
                Some(menu) => Some(MenuView { highlighted: entry, ..menu }),
                None => None,
            },
            ..self
        }
    }

    /// The hub with the dialog that the highlighted entry of its menu opens, in place of the menu.
    pub open spec fn menu_chosen(self) -> HubView {
        match self.session_menu {
            None => self,
            Some(menu) => HubView {
                session_menu: None,
                modal: Some(
                    if menu.highlighted == 0 {
                        ModalView::Rename { session: menu.session, name: menu.session, error: None }
                    } else {
                        ModalView::ConfirmClose { session: menu.session, error: None }
                    },
                ),
                ..self
            },
        }
    }

    /// The hub after a key was pressed with its menu open.
    pub open spec fn menu_key(self, code: KeyCode) -> HubView {
        match code {
            KeyCode::Esc => HubView { session_menu: None, ..self },
            KeyCode::Up | KeyCode::Down => match self.session_menu {
                Some(menu) => self.highlighting(
                    if menu.highlighted == 0 {
                        1
                    } else {
                        0
                    },
                ),
                None => self,
            },
            KeyCode::Enter => self.menu_chosen(),
            _ => self,
        }
    }

    /// The hub after a click with its menu open: on an entry, or beside them.
    pub open spec fn menu_click(self, column: u16, row: u16) -> HubView {
        match self.session_menu_rect() {
            None => HubView { session_menu: None, ..self },
            Some(rect) => match entry_at(rect, column, row) {
                Some(entry) => self.highlighting(entry).menu_chosen(),
                None => HubView { session_menu: None, ..self },
            },
        }
    }

    /// The hub after input with its menu open. The first event counts.
    pub open spec fn menu_input(self, events: Seq<RawInputEvent>) -> HubView {
        if events.len() == 0 {
            self
        } else {
            match (pressed(events[0]), events[0]) {
                (Some(key), _) => self.menu_key(key.code),
                (None, RawInputEvent::Mouse(mouse)) => if mouse.kind == MouseEventKind::Down(
                    MouseButton::Left,
                ) {
                    self.menu_click(mouse.column, mouse.row)
                } else {
                    self
                },
                _ => self,
            }
        }
    }

    /// The hub with a message on its way to a session, over the connection that the session has:
    /// as the one on the screen, or as one that the sidebar shows.
    pub open spec fn telling(self, session: Seq<char>, message: MessageView) -> (
        HubView,
        Result<(), ErrorView>,
    ) {
        if session == self.active.name {
            (self.asking(to_active(message)), Ok(()))
        } else if session_named(self.sessions, session) matches Some(item)
            && item.sidebar_connected {
            (
                self.asking(
                    EffectView::Send { role: RoleView::Sidebar(session), message, required: true },
                ),
                Ok(()),
            )
        } else {
            (self, Err(ErrorView::ConnectionLost(not_connected(session))))
        }
    }

    /// The hub with a mouse event on its way to a session, as if it had been in the given row.
    pub open spec fn telling_mouse(self, session: Seq<char>, mouse: MouseEvent, row: u16) -> (
        HubView,
        Result<(), ErrorView>,
    ) {
        match mouse.wire_kind {
            Some(kind) => self.telling(
                session,
                mouse_message(kind, mouse.column, row, mouse.modifiers),
            ),
            None => (self, Ok(())),
        }
    }

    /// The hub with all of some input on its way to a session.
    pub open spec fn forwarding(
        self,
        session: Seq<char>,
        data: Seq<u8>,
        events: Seq<RawInputEvent>,
    ) -> (HubView, Result<(), ErrorView>) {
        match lone_mouse(events) {
            Some(mouse) => self.telling_mouse(session, mouse, mouse.row),
            None => self.telling(session, MessageView::Input { data }),
        }
    }

    /// The hub after a mouse event in a row of a workspace: the session hears of it as in its own
    /// row. A left click brings another session's workspace to the screen; after a right click the
    /// session may show something that takes all input.
    pub open spec fn space_input(
        self,
        session: Seq<char>,
        workspace_id: Seq<char>,
        original_y: u16,
        mouse: MouseEvent,
    ) -> (HubView, Result<StepView, ErrorView>) {
        if session != self.active.name && mouse.kind == MouseEventKind::Down(MouseButton::Left) {
            let (hub, step) = self.following(switch_plan(session, Some(workspace_id)));
            (hub, Ok(step))
        } else {
            let (told, outcome) = self.telling_mouse(session, mouse, original_y);
            if outcome is Ok && mouse.wire_kind is Some && mouse.kind == MouseEventKind::Down(
                MouseButton::Right,
            ) {
                (
                    HubView {
                        server_overlay_session: Some(session),
                        server_overlay_seen: false,
                        ..told
                    },
                    settled(outcome),
                )
            } else {
                (told, settled(outcome))
            }
        }
    }

    /// What a mouse event is on, where it is on a row of the sidebar.
    pub open spec fn mouse_target(self, mouse: MouseEvent) -> Option<TargetView> {
        if mouse.column < self.sidebar_width() {
            target_at(self.rows(), mouse.row)
        } else {
            None
        }
    }

    /// The hub after a mouse event on a row of the sidebar.
    pub open spec fn row_input(self, target: TargetView, mouse: MouseEvent) -> (
        HubView,
        Result<StepView, ErrorView>,
    ) {
        match target {
            TargetView::SpaceRow { session, workspace_id, original_y } => self.space_input(
                session,
                workspace_id,
                original_y,
                mouse,
            ),
            TargetView::SpaceGapRow { session, original_y } => {
                let (told, outcome) = self.telling_mouse(session, mouse, original_y);
                (told, settled(outcome))
            },
            TargetView::Session(session) => self.heading_input(session, mouse),
            TargetView::NewSession => self.click_input(target, mouse),
        }
    }

    /// The hub after a mouse event on a row that a left click chooses, after which the screen is
    /// out of date.
    pub open spec fn click_input(self, target: TargetView, mouse: MouseEvent) -> (
        HubView,
        Result<StepView, ErrorView>,
    ) {
        if mouse.kind == MouseEventKind::Down(MouseButton::Left) {
            let (hub, step) = self.activated(target, true);
            (hub, Ok(step))
        } else {
            (self, Ok(StepView::Settled))
        }
    }

    /// The hub after a mouse event on the heading of a session: a right click opens the session's
    /// menu, but for the default session; a left click chooses the row.
    pub open spec fn heading_input(self, session: Seq<char>, mouse: MouseEvent) -> (
        HubView,
        Result<StepView, ErrorView>,
    ) {
        if session != DEFAULT_SESSION_NAME@ && mouse.kind == MouseEventKind::Down(
            MouseButton::Right,
        ) {
            (
                HubView {
                    session_menu: Some(
                        MenuView { session, x: mouse.column, y: mouse.row, highlighted: 0 },
                    ),
                    repaint: true,
                    ..self
                },
                Ok(StepView::Settled),
            )
        } else {
            self.click_input(TargetView::Session(session), mouse)
        }
    }

    /// The hub after a lone mouse event: on a row of the sidebar, or for the session on the screen.
    pub open spec fn mouse_handled(self, mouse: MouseEvent) -> (
        HubView,
        Result<StepView, ErrorView>,
    ) {
        match self.mouse_target(mouse) {
            Some(target) => self.row_input(target, mouse),
            None => {
                let (told, outcome) = self.telling_mouse(self.active.name, mouse, mouse.row);
                (told, settled(outcome))
            },
        }
    }

    /// The hub after input from the terminal, and what came of it. An open dialog takes the input,
    /// else an open menu, else the session that shows something over its screen, else, if it is
    /// the mouse, what is under the mouse. What is left is for the session on the screen.
    pub open spec fn local_input(self, data: Seq<u8>, events: Seq<RawInputEvent>) -> (
        HubView,
        Result<InputView, ErrorView>,
    ) {
        if self.modal is Some {
            match self.typed(events, 0) {
                (hub, Ok(progress)) => (hub, Ok(InputView::Modal(progress))),
                (hub, Err(error)) => (hub, Err(error)),
            }
        } else if self.session_menu is Some {
            let hub = self.menu_input(events);
            (
                HubView { repaint: hub.repaint || events.len() > 0, ..hub },
                Ok(InputView::Taken(StepView::Settled)),
            )
        } else {
            match (self.server_overlay_session, lone_mouse(events)) {
                (Some(session), _) => {
                    let (hub, outcome) = self.forwarding(session, data, events);
                    (hub, taken(settled(outcome)))
                },
                (None, Some(mouse)) => {
                    let (hub, step) = self.mouse_handled(mouse);
                    (hub, taken(step))
                },
                (None, None) => (self, Ok(InputView::Terminal)),
            }
        }
    }

    /// The hub after input that is for the session on the screen: an image goes in its place, but
    /// for a pasted one over the limit.
    pub open spec fn routed(self, data: Seq<u8>, source: ImageSource, limit: usize) -> HubView {
        match source {
            ImageSource::Pasted(image) => self.asking_if(
                image.bytes@.len() <= limit,
                to_active(image_message(image)),
            ),
            ImageSource::Dropped(image) => self.asking(to_active(image_message(image))),
            ImageSource::Absent => self.asking(to_active(MessageView::Input { data })),
        }
    }
}

/// No step but that the hub may stop.
pub open spec fn settled(outcome: Result<(), ErrorView>) -> Result<StepView, ErrorView> {
    match outcome {
        Ok(_) => Ok(StepView::Settled),
        Err(error) => Err(error),
    }
}

/// Input that the hub took, unless it stops.
pub open spec fn taken(step: Result<StepView, ErrorView>) -> Result<InputView, ErrorView> {
    match step {
        Ok(step) => Ok(InputView::Taken(step)),
        Err(error) => Err(error),
    }
}

/// Takes the mouse event out of a list of events that consists of it.
fn only_mouse(events: &[RawInputEvent]) -> (mouse: Option<MouseEvent>)
    ensures
        mouse == lone_mouse(events@),
{
    if events.len() == 1 {
        match events[0] {
            RawInputEvent::Mouse(mouse) => Some(mouse),
            _ => None,
        }
    } else {
        None
    }
}

/// Takes the target of the first row at the given height out of a list of rows.
fn take_target(rows: Vec<HubRow>, y: u16) -> (target: Option<HubRowTarget>)
    ensures
        match target {
            Some(target) => target_at(row_views(rows@), y) == Some(target@),
            None => target_at(row_views(rows@), y) is None,
        },
{
    let ghost views = row_views(rows@);
    let mut left = rows;
    let mut at: usize = 0;
    assert(views.skip(0) =~= views);
    while at < left.len()
        invariant
            at <= left.len(),
            left@ == rows@,
            views == row_views(rows@),
            target_at(views, y) == target_at(views.skip(at as int), y),
        decreases left.len() - at,
    {
        assert(views[at as int] == rows@[at as int]@);
        assert(views.skip(at as int).drop_first() =~= views.skip(at + 1));
        if left[at].y == y {
            return Some(left.remove(at).target);
        }
        at = at + 1;
    }
    None
}

impl HubState {
    /// Where the open menu is.
    pub fn session_menu_rect(&self) -> (rect: Option<Rect>)
        ensures
            rect == self@.session_menu_rect(),
    {
        match &self.session_menu {
            Some(menu) => {
                let cols: u16 = if self.cols == 0 {
                    1
                } else {
                    self.cols
                };
                let rows: u16 = if self.rows == 0 {
                    1
                } else {
                    self.rows
                };
                let width: u16 = lesser(MENU_WIDTH, cols);
                let height: u16 = lesser(MENU_HEIGHT, rows);
                Some(
                    Rect {
                        x: lesser(menu.x, self.cols.saturating_sub(width)),
                        y: lesser(menu.y, self.rows.saturating_sub(height)),
                        width,
                        height,
                    },
                )
            },
            None => None,
        }
    }

    /// Highlights an entry of the open menu.
    fn highlight(&mut self, entry: usize)
        ensures
            final(self)@ == old(self)@.highlighting(entry),
    {
        self.session_menu = match self.session_menu.take() {
            Some(menu) => Some(
                SessionContextMenu {
                    session: menu.session,
                    x: menu.x,
                    y: menu.y,
                    highlighted: entry,
                },
            ),
            None => None,
        };
    }

    /// Opens the dialog of the highlighted entry of the menu.
    pub fn open_session_menu_action(&mut self)
        ensures
            final(self)@ == old(self)@.menu_chosen(),
    {
        if let Some(menu) = self.session_menu.take() {
            self.modal = Some(
                if menu.highlighted == 0 {
                    SessionModal::Rename {
                        name: menu.session.clone(),
                        session: menu.session,
                        error: None,
                    }
                } else {
                    SessionModal::ConfirmClose { session: menu.session, error: None }
                },
            );
        }
    }

    /// Takes input with the menu open, and tells whether there was any.
    pub fn handle_session_menu_input(&mut self, events: &[RawInputEvent]) -> (any: bool)
        ensures
            any == (events@.len() > 0),
            final(self)@ == old(self)@.menu_input(events@),
    {
        if events.len() == 0 {
            return false;
        }
        if let Some(key) = pressed_key(&events[0]) {
            match key.code {
                KeyCode::Esc => {
                    self.session_menu = None;
                },
                KeyCode::Up | KeyCode::Down => {
                    let entry: Option<usize> = match &self.session_menu {
                        Some(menu) => Some(
                            if menu.highlighted == 0 {
                                1
                            } else {
                                0
                            },
                        ),
                        None => None,
                    };
                    if let Some(entry) = entry {
                        self.highlight(entry);
                    }
                },
                KeyCode::Enter => self.open_session_menu_action(),
                _ => {},
            }
            return true;
        }
        if let RawInputEvent::Mouse(mouse) = events[0] {
            if mouse.kind == MouseEventKind::Down(MouseButton::Left) {
                self.click_menu(mouse.column, mouse.row);
            }
        }
        true
    }

    /// Takes a click with the menu open.
    fn click_menu(&mut self, column: u16, row: u16)
        ensures
            final(self)@ == old(self)@.menu_click(column, row),
    {
        if let Some(rect) = self.session_menu_rect() {
            let top: u16 = rect.y.saturating_add(1);
            let right: u16 = rect.x.saturating_add(rect.width).saturating_sub(1);
            let bottom: u16 = top.saturating_add(2);
            if column > rect.x && column < right && row >= top && row < bottom {
                self.highlight((row - top) as usize);
                self.open_session_menu_action();
                return ;
            }
        }
        self.session_menu = None;
    }

    /// Sends a message to a session over the connection that it has.
    pub fn write_to_session(&mut self, session: &str, message: ClientMessage) -> (outcome: Result<
        (),
        ClientError,
    >)
        ensures
            final(self)@ == old(self)@.telling(session@, message@).0,
            outcome_view(outcome) == old(self)@.telling(session@, message@).1,
    {
        if *session == *self.active.name.as_str() {
            self.ask(Effect::Send { role: ConnectionRole::Active, message, required: true });
            return Ok(());
        }
        if let Some(at) = self.find_session(session) {
            assert(self@.sessions[at as int] == self.sessions@[at as int]@);
            if self.sessions[at].sidebar_connected {
                self.ask(
                    Effect::Send {
                        role: ConnectionRole::Sidebar(session.to_owned()),
                        message,
                        required: true,
                    },
                );
                return Ok(());
            }
        }
        Err(
            ClientError::ConnectionLost(
                IoFailure {
                    kind: IoErrorKind::NotConnected,
                    reason: joined("session ", session, " sidebar is not connected"),
                },
            ),
        )
    }

    /// Sends a mouse event to a session, as if it had been in the given row.
    fn write_mouse(&mut self, session: &str, mouse: MouseEvent, row: u16) -> (outcome: Result<
        (),
        ClientError,
    >)
        ensures
            final(self)@ == old(self)@.telling_mouse(session@, mouse, row).0,
            outcome_view(outcome) == old(self)@.telling_mouse(session@, mouse, row).1,
    {
        match mouse.wire_kind {
            Some(kind) => self.write_to_session(
                session,
                mouse_input(kind, mouse.column, row, mouse.modifiers),
            ),
            None => Ok(()),
        }
    }

    /// Sends all of some input to a session.
    pub fn forward_input_to_session(
        &mut self,
        session: &str,
        data: Vec<u8>,
        events: &[RawInputEvent],
    ) -> (outcome: Result<(), ClientError>)
        ensures
            final(self)@ == old(self)@.forwarding(session@, data@, events@).0,
            outcome_view(outcome) == old(self)@.forwarding(session@, data@, events@).1,
    {
        match only_mouse(events) {
            Some(mouse) => self.write_mouse(session, mouse, mouse.row),
            None => self.write_to_session(session, ClientMessage::Input { data }),
        }
    }

    /// Takes a mouse event on a row that a left click chooses.
    fn click_row(&mut self, target: HubRowTarget, mouse: MouseEvent) -> (step: HubStep)
        ensures
            final(self)@ == old(self)@.click_input(target@, mouse).0,
            Ok::<StepView, ErrorView>(step@) == old(self)@.click_input(target@, mouse).1,
    {
        if mouse.kind == MouseEventKind::Down(MouseButton::Left) {
            self.activate_row(target, true)
        } else {
            HubStep::Settled
        }
    }

    /// Takes a mouse event on a row of the sidebar.
    fn handle_row_input(&mut self, target: HubRowTarget, mouse: MouseEvent) -> (step: Result<
        HubStep,
        ClientError,
    >)
        ensures
            final(self)@ == old(self)@.row_input(target@, mouse).0,
            step_view(step) == old(self)@.row_input(target@, mouse).1,
    {
        let left = mouse.kind == MouseEventKind::Down(MouseButton::Left);
        let right = mouse.kind == MouseEventKind::Down(MouseButton::Right);
        match target {
            HubRowTarget::SpaceRow { session, workspace_id, original_y } => {
                if left && *session.as_str() != *self.active.name.as_str() {
                    return Ok(self.switch_active(session.as_str(), Some(workspace_id.as_str())));
                }
                if mouse.wire_kind.is_none() {
                    return Ok(HubStep::Settled);
                }
                self.write_mouse(session.as_str(), mouse, original_y)?;
                if right {
                    self.server_overlay_session = Some(session);
                    self.server_overlay_seen = false;
                }
                Ok(HubStep::Settled)
            },
            HubRowTarget::SpaceGapRow { session, original_y } => {
                self.write_mouse(session.as_str(), mouse, original_y)?;
                Ok(HubStep::Settled)
            },
            HubRowTarget::Session(session) => {
                if right && *session.as_str() != *DEFAULT_SESSION_NAME {
                    self.session_menu = Some(
                        SessionContextMenu {
                            session,
                            x: mouse.column,
                            y: mouse.row,
                            highlighted: 0,
                        },
                    );
                    self.repaint = true;
                    return Ok(HubStep::Settled);
                }
                Ok(self.click_row(HubRowTarget::Session(session), mouse))
            },
            HubRowTarget::NewSession => Ok(self.click_row(HubRowTarget::NewSession, mouse)),
        }
    }

    /// Takes a lone mouse event.
    fn handle_mouse(&mut self, mouse: MouseEvent) -> (step: Result<HubStep, ClientError>)
        ensures
            final(self)@ == old(self)@.mouse_handled(mouse).0,
            step_view(step) == old(self)@.mouse_handled(mouse).1,
    {
        if mouse.column < self.sidebar_width() {
            if let Some(target) = take_target(self.rows(), mouse.row) {
                return self.handle_row_input(target, mouse);
            }
        }
        let session = self.active.name.clone();
        self.write_mouse(session.as_str(), mouse, mouse.row)?;
        Ok(HubStep::Settled)
    }

    /// Takes input from the terminal.
    pub fn handle_local_input(&mut self, data: &Vec<u8>, events: &[RawInputEvent]) -> (step: Result<
        InputStep,
        ClientError,
    >)
        ensures
            final(self)@ == old(self)@.local_input(data@, events@).0,
            input_view(step) == old(self)@.local_input(data@, events@).1,
    {
        if self.modal.is_some() {
            let progress = self.handle_modal_input(events, 0)?;
            return Ok(InputStep::Modal(progress));
        }
        if self.session_menu.is_some() {
            if self.handle_session_menu_input(events) {
                self.repaint = true;
            }
            return Ok(InputStep::Taken(HubStep::Settled));
        }
        if self.server_overlay_session.is_some() {
            let session = match &self.server_overlay_session {
                Some(session) => session.clone(),
                None => String::new(),
            };
            self.forward_input_to_session(session.as_str(), data.clone(), events)?;
            return Ok(InputStep::Taken(HubStep::Settled));
        }
        match only_mouse(events) {
            Some(mouse) => {
                let step = self.handle_mouse(mouse)?;
                Ok(InputStep::Taken(step))
            },
            None => Ok(InputStep::Terminal),
        }
    }

    /// Sends input, or the image that goes with it, to the session on the screen, and tells whether
    /// it was sent: a pasted image over the limit is not.
    pub fn route_terminal_input(
        &mut self,
        data: Vec<u8>,
        source: ImageSource,
        limit: usize,
    ) -> (sent: bool)
        ensures
            final(self)@ == old(self)@.routed(data@, source, limit),
            sent == !(source matches ImageSource::Pasted(image) && image.bytes@.len() > limit),
    {
        let message = match source {
            ImageSource::Pasted(image) => {
                if image.bytes.len() > limit {
                    return false;
                }
                ClientMessage::ClipboardImage { extension: image.extension, data: image.bytes }
            },
            ImageSource::Dropped(image) => ClientMessage::ClipboardImage {
                extension: image.extension,
                data: image.bytes,
            },
            ImageSource::Absent => ClientMessage::Input { data },
        };
        self.ask(Effect::Send { role: ConnectionRole::Active, message, required: true });
        true
    }
}

/// The mouse finds each row of the sidebar where it is.
pub proof fn mouse_finds_each_row(hub: HubView, i: int)
    requires
        0 <= i < hub.rows().len(),
    ensures
        target_at(hub.rows(), hub.rows()[i].y) == Some(hub.rows()[i].target),
{
    let rows = hub.rows();
    let layout = hub.sidebar_layout()->0;
    assert forall|j: int, k: int| 0 <= j < k < rows.len() implies (#[trigger] rows[j]).y < (
    #[trigger] rows[k]).y by {
        rows_lie_apart(hub, layout, j);
    }
    lemma_target_at(rows, i);
}

proof fn lemma_target_at(rows: Seq<RowView>, i: int)
    requires
        0 <= i < rows.len(),
        forall|j: int, k: int|
            0 <= j < k < rows.len() ==> (#[trigger] rows[j]).y < (#[trigger] rows[k]).y,
    ensures
        target_at(rows, rows[i].y) == Some(rows[i].target),
    decreases i,
{
    if i > 0 {
        let rest = rows.drop_first();
        assert(rows[0].y < rows[i].y);
        assert(rest[i - 1] == rows[i]);
        assert forall|j: int, k: int| 0 <= j < k < rest.len() implies (#[trigger] rest[j]).y < (
        #[trigger] rest[k]).y by {
            assert(rest[j] == rows[j + 1]);
            assert(rest[k] == rows[k + 1]);
        }
        lemma_target_at(rest, i - 1);
    }
}

} // verus!
