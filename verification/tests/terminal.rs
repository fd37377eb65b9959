use session_hub::compose::{modal_cursor, modal_rect};
use session_hub::connections::ClientKeybindings;
use session_hub::effects::{ConnectionRole, Effect, HubStreamKind};
use session_hub::events::{read_limit, reader_step, unpacks, ReadOutcome, ReaderStep};
use session_hub::frame::{write_frame_text, FrameData, Rect};
use session_hub::input::{
    first_look, look_step, ClipboardImage, ImageLook, ImageSource, InputStep, LookStep,
};
use session_hub::protocol::{
    ClientError, ClientInputEvent, ClientMessage, ClientMouseKind, IoErrorKind, IoFailure, KeyCode,
    KeyEventKind, MouseButton, MouseEvent, MouseEventKind, RawInputEvent, ServerMessage,
    SessionSidebarSummary, SessionSummary, TerminalKey, WorkspaceCard,
};
use session_hub::rows::{HubRow, HubRowTarget};
use session_hub::state::{
    HubState, RemoteSessionDescriptor, SessionContextMenu, SessionModal,
};
use session_hub::steps::HubStep;
use session_hub::terminal::{pack_color, Color};

fn descriptor(name: &str) -> RemoteSessionDescriptor {
    RemoteSessionDescriptor { name: name.to_owned(), running: true }
}

fn card(id: &str, y: u16, height: u16) -> WorkspaceCard {
    WorkspaceCard { workspace_id: id.to_owned(), y, height }
}

fn layout(cards: Vec<WorkspaceCard>) -> SessionSidebarSummary {
    SessionSidebarSummary {
        width: 10,
        spaces_y: 1,
        spaces_height: 8,
        footer_y: 9,
        workspace_cards: cards,
    }
}

fn summary_of(overlay_active: bool, cards: Vec<WorkspaceCard>) -> ServerMessage {
    ServerMessage::SessionSummary(SessionSummary { overlay_active, sidebar: Some(layout(cards)) })
}

/// A frame whose rows show a letter each, from the given one on.
fn lettered(first: char, width: u16, height: u16) -> FrameData {
    let mut frame = FrameData::empty(width, height);
    let template = frame.cells[0].clone();
    for y in 0..height {
        let letter = char::from_u32(first as u32 + y as u32).unwrap();
        let text: String = std::iter::repeat(letter).take(width as usize).collect();
        write_frame_text(&mut frame, 0, y, width, &text, &template);
    }
    frame
}

fn row_text(frame: &FrameData, y: u16) -> String {
    let start = y as usize * frame.width as usize;
    frame.cells[start..start + frame.width as usize]
        .iter()
        .map(|cell| cell.symbol.as_str())
        .collect()
}

/// Opens connections until the hub needs something else, and returns the effects on the way.
fn settle(hub: &mut HubState, step: HubStep) -> Vec<Effect> {
    let mut effects = Vec::new();
    let mut step = step;
    loop {
        effects.extend(hub.take_effects());
        match step {
            HubStep::Connect { connection, plan } => {
                step = hub.connection_attempted(connection, plan, Ok(())).unwrap();
            }
            _ => return effects,
        }
    }
}

fn pick(hub: &mut HubState, target: HubRowTarget) {
    let step = hub.activate_row(target, false);
    settle(hub, step);
}

/// The default session on the screen, with its summary and a frame, and two sessions beside it.
fn hub() -> HubState {
    let mut hub = HubState::start(
        vec![descriptor("default"), descriptor("alpha"), descriptor("beta")],
        "default",
        30,
        12,
        ClientKeybindings { encoded: vec![] },
    );
    let step = hub.connect_summary("default");
    settle(&mut hub, step);
    hub.handle_server_message(
        "default",
        2,
        HubStreamKind::Summary,
        summary_of(false, vec![card("w1", 2, 2), card("w2", 5, 1)]),
    );
    hub.handle_server_message(
        "default",
        1,
        HubStreamKind::App,
        ServerMessage::Frame(lettered('a', 30, 12)),
    );
    hub.painted();
    hub
}

/// The same, with the session alpha expanded.
fn expanded() -> HubState {
    let mut hub = hub();
    pick(&mut hub, HubRowTarget::Session("default".to_owned()));
    pick(&mut hub, HubRowTarget::Session("alpha".to_owned()));
    hub.handle_server_message(
        "alpha",
        3,
        HubStreamKind::Summary,
        summary_of(false, vec![card("v1", 4, 1), card("v2", 6, 2)]),
    );
    hub.handle_server_message(
        "alpha",
        4,
        HubStreamKind::Sidebar,
        ServerMessage::Frame(lettered('A', 30, 12)),
    );
    hub.painted();
    hub
}

const DONE: Result<InputStep, ClientError> = Ok(InputStep::Taken(HubStep::Settled));

fn mouse_at(kind: MouseEventKind, column: u16, row: u16) -> RawInputEvent {
    let wire_kind = match kind {
        MouseEventKind::Down(button) => Some(ClientMouseKind::Down(button)),
        MouseEventKind::ScrollDown => Some(ClientMouseKind::ScrollDown),
        _ => None,
    };
    RawInputEvent::Mouse(MouseEvent { kind, wire_kind, column, row, modifiers: 3 })
}

fn left(column: u16, row: u16) -> RawInputEvent {
    mouse_at(MouseEventKind::Down(MouseButton::Left), column, row)
}

fn right(column: u16, row: u16) -> RawInputEvent {
    mouse_at(MouseEventKind::Down(MouseButton::Right), column, row)
}

fn mouse_message(kind: ClientMouseKind, column: u16, row: u16) -> ClientMessage {
    ClientMessage::InputEvents {
        events: vec![ClientInputEvent::Mouse { kind, column, row, modifiers: 3 }],
    }
}

fn send(role: ConnectionRole, message: ClientMessage) -> Effect {
    Effect::Send { role, message, required: true }
}

fn alpha_sidebar() -> ConnectionRole {
    ConnectionRole::Sidebar("alpha".to_owned())
}

fn key(code: KeyCode) -> RawInputEvent {
    RawInputEvent::Key(TerminalKey { code, modifiers: 0, kind: KeyEventKind::Press })
}

fn input(hub: &mut HubState, event: RawInputEvent) -> Result<InputStep, ClientError> {
    hub.handle_local_input(&vec![1, 2], &[event])
}

#[test]
fn rows_follow_the_layout() {
    let hub = hub();
    let session = || "default".to_owned();
    let space = |id: &str, original_y| HubRowTarget::SpaceRow {
        session: session(),
        workspace_id: id.to_owned(),
        original_y,
    };
    assert_eq!(
        hub.rows(),
        vec![
            HubRow { y: 2, target: HubRowTarget::Session(session()) },
            HubRow { y: 3, target: space("w1", 2) },
            HubRow { y: 4, target: space("w1", 3) },
            HubRow {
                y: 5,
                target: HubRowTarget::SpaceGapRow { session: session(), original_y: 4 }
            },
            HubRow { y: 6, target: space("w2", 5) },
            HubRow { y: 7, target: HubRowTarget::Session("alpha".to_owned()) },
            HubRow { y: 8, target: HubRowTarget::NewSession },
        ]
    );
    assert_eq!(hub.sidebar_width(), 10);
}

#[test]
fn rows_of_other_sessions_come_from_their_own_layout() {
    let hub = expanded();
    let rows = hub.rows();
    assert_eq!(rows.len(), 7);
    assert_eq!(
        rows[2].target,
        HubRowTarget::SpaceRow {
            session: "alpha".to_owned(),
            workspace_id: "v1".to_owned(),
            original_y: 4
        }
    );
    assert_eq!(
        rows[3].target,
        HubRowTarget::SpaceGapRow { session: "alpha".to_owned(), original_y: 5 }
    );
    assert_eq!(rows[5].y, 7);
    assert_eq!(rows[6].target, HubRowTarget::NewSession);
}

#[test]
fn folding_hides_the_workspaces_of_a_session() {
    let mut hub = hub();
    hub.collapsed.insert("default".to_owned());
    assert_eq!(
        hub.rows(),
        vec![
            HubRow { y: 2, target: HubRowTarget::Session("default".to_owned()) },
            HubRow { y: 3, target: HubRowTarget::Session("alpha".to_owned()) },
            HubRow { y: 4, target: HubRowTarget::Session("beta".to_owned()) },
            HubRow { y: 8, target: HubRowTarget::NewSession },
        ]
    );
}

#[test]
fn less_room_cuts_the_last_rows_off() {
    let mut hub = hub();
    let mut expected = hub.rows();
    expected.truncate(3);
    expected.push(HubRow { y: 5, target: HubRowTarget::NewSession });
    let summary = hub.sessions[0].summary.as_mut().unwrap();
    summary.sidebar.as_mut().unwrap().footer_y = 6;
    assert_eq!(hub.rows(), expected);
}

#[test]
fn without_a_layout_there_is_no_sidebar() {
    let mut hub = hub();
    hub.sessions[0].summary = None;
    assert!(hub.rows().is_empty());
    assert_eq!(hub.sidebar_width(), 0);
    let frame = hub.compose_frame();
    assert_eq!(row_text(&frame, 3), "d".repeat(30));
}

#[test]
fn the_new_session_row_needs_the_screen() {
    let mut hub = hub();
    hub.rows = 8;
    assert!(!hub.rows().iter().any(|row| row.target == HubRowTarget::NewSession));
}

#[test]
fn the_sidebar_is_painted_over_the_frame() {
    let frame = hub().compose_frame();
    assert_eq!(row_text(&frame, 1), "b".repeat(30));
    assert_eq!(row_text(&frame, 2), format!(" ▼ defaul{}", "c".repeat(21)));
    assert_eq!(row_text(&frame, 3), format!("{}{}", "c".repeat(9), "d".repeat(21)));
    assert_eq!(row_text(&frame, 5), format!("{}{}", "e".repeat(9), "f".repeat(21)));
    assert_eq!(row_text(&frame, 7), format!(" ▶ alpha {}", "h".repeat(21)));
    assert_eq!(row_text(&frame, 8), format!(" + new na{}", "i".repeat(21)));
    assert_eq!(row_text(&frame, 9), "j".repeat(30));
}

#[test]
fn composing_preserves_content_columns() {
    let hub = expanded();
    let frame = hub.compose_frame();
    let original = hub.active.frame.as_ref().unwrap();
    for y in 0..12 {
        for x in 9..30 {
            let index = y * 30 + x;
            assert_eq!(frame.cells[index], original.cells[index]);
        }
    }
    assert_eq!(row_text(&frame, 4), format!("{}{}", "E".repeat(9), "e".repeat(21)));
}

#[test]
fn an_overlay_session_is_shown_as_it_is() {
    let mut hub = expanded();
    hub.server_overlay_session = Some("alpha".to_owned());
    assert_eq!(hub.compose_frame(), lettered('A', 30, 12));
    hub.server_overlay_session = Some("beta".to_owned());
    assert_eq!(row_text(&hub.compose_frame(), 2), format!(" ▶ defaul{}", "c".repeat(21)));
}

#[test]
fn an_empty_screen_waits_for_a_frame() {
    let mut hub = hub();
    hub.active.frame = None;
    assert_eq!(hub.compose_frame(), FrameData::empty(30, 12));
}

#[test]
fn an_empty_frame_of_a_session_is_composed() {
    let mut hub = hub();
    hub.active.frame = Some(FrameData::empty(0, 0));
    assert_eq!(hub.compose_frame(), FrameData::empty(0, 0));
}

#[test]
fn the_menu_is_drawn_over_the_frame() {
    let mut hub = hub();
    hub.session_menu = Some(SessionContextMenu {
        session: "alpha".to_owned(),
        x: 2,
        y: 7,
        highlighted: 1,
    });
    assert_eq!(hub.session_menu_rect(), Some(Rect { x: 2, y: 7, width: 16, height: 4 }));
    let frame = hub.compose_frame();
    assert_eq!(row_text(&frame, 7), format!(" ▶┌──────────────┐{}", "h".repeat(12)));
    assert_eq!(row_text(&frame, 8), format!(" +│ Rename       │{}", "i".repeat(12)));
    assert_eq!(row_text(&frame, 9), format!("jj│ Close        │{}", "j".repeat(12)));
    assert_eq!(row_text(&frame, 10), format!("kk└──────────────┘{}", "k".repeat(12)));
    let cell = &frame.cells[9 * 30 + 5];
    assert_eq!((cell.fg, cell.bg), (pack_color(Color::Black), pack_color(Color::Cyan)));
    let cell = &frame.cells[8 * 30 + 5];
    assert_eq!((cell.fg, cell.bg), (pack_color(Color::White), pack_color(Color::Black)));
    let cell = &frame.cells[7 * 30 + 2];
    assert_eq!((cell.fg, cell.bg), (pack_color(Color::Cyan), pack_color(Color::Black)));
}

#[test]
fn the_menu_stays_on_the_screen() {
    let mut hub = hub();
    let menu = |x, y| Some(SessionContextMenu {
        session: "alpha".to_owned(),
        x,
        y,
        highlighted: 0,
    });
    hub.session_menu = menu(29, 11);
    assert_eq!(hub.session_menu_rect(), Some(Rect { x: 14, y: 8, width: 16, height: 4 }));
    hub.cols = 5;
    hub.rows = 0;
    assert_eq!(hub.session_menu_rect(), Some(Rect { x: 0, y: 0, width: 5, height: 1 }));
    hub.session_menu = None;
    assert_eq!(hub.session_menu_rect(), None);
}

#[test]
fn a_dialog_is_drawn_in_the_middle() {
    let mut hub = hub();
    hub.active.frame = Some(lettered('a', 40, 12));
    hub.modal = Some(SessionModal::Rename {
        session: "alpha".to_owned(),
        name: "new".to_owned(),
        error: Some("taken".to_owned()),
    });
    assert_eq!(modal_rect(40, 12, true), Rect { x: 2, y: 2, width: 36, height: 7 });
    let frame = hub.compose_frame();
    let top = row_text(&frame, 2);
    assert!(top.contains("┌ Rename named session ─"));
    assert_eq!(row_text(&frame, 4), format!("dd│ Name: new_{}│ee", " ".repeat(23)));
    assert_eq!(row_text(&frame, 5), format!("ee│ taken{}│ff", " ".repeat(28)));
    assert_eq!(row_text(&frame, 6), "ff│ Renaming alpha stops and restore │gg");
    let cursor = frame.cursor.unwrap();
    assert_eq!((cursor.x, cursor.y, cursor.visible, cursor.shape), (13, 4, true, 6));
    let error = &frame.cells[5 * 40 + 4];
    assert_eq!((error.fg, error.bg), (pack_color(Color::Red), pack_color(Color::Black)));
}

#[test]
fn dialogs_fit_small_and_large_screens() {
    assert_eq!(modal_rect(0, 0, false), Rect { x: 0, y: 0, width: 20, height: 0 });
    assert_eq!(modal_rect(200, 50, false), Rect { x: 74, y: 22, width: 52, height: 6 });
    assert_eq!(modal_rect(30, 3, true), Rect { x: 2, y: 0, width: 26, height: 3 });
    let rect = modal_rect(30, 12, false);
    assert_eq!(modal_cursor(rect, 0).x, rect.x + 8);
    assert_eq!(modal_cursor(rect, 500).x, rect.x + rect.width - 2);
}

#[test]
fn a_close_dialog_hides_the_cursor() {
    let mut hub = hub();
    hub.modal = Some(SessionModal::ConfirmClose { session: "alpha".to_owned(), error: None });
    let frame = hub.compose_frame();
    assert_eq!(frame.cursor, None);
    let all: String = (0..12).map(|y| row_text(&frame, y)).collect();
    assert!(all.contains("Close named session"));
    assert!(all.contains("Close alpha? Enter con"));
}

#[test]
fn a_create_dialog_explains_itself() {
    let mut hub = hub();
    pick(&mut hub, HubRowTarget::NewSession);
    let frame = hub.compose_frame();
    let all: String = (0..12).map(|y| row_text(&frame, y)).collect();
    assert!(all.contains("New named session"));
    assert!(all.contains("Enter create  Esc canc"));
    assert!(all.contains("Name: _"));
}

#[test]
fn the_mouse_beside_the_sidebar_goes_to_the_screen() {
    let mut hub = hub();
    assert_eq!(input(&mut hub, left(10, 3)), DONE);
    assert_eq!(
        hub.take_effects(),
        vec![send(
            ConnectionRole::Active,
            mouse_message(ClientMouseKind::Down(MouseButton::Left), 10, 3)
        )]
    );
    assert_eq!(input(&mut hub, mouse_at(MouseEventKind::Moved, 10, 3)), DONE);
    assert_eq!(input(&mut hub, mouse_at(MouseEventKind::Moved, 3, 3)), DONE);
    assert!(hub.take_effects().is_empty());
    assert!(!hub.repaint);
    assert_eq!(input(&mut hub, left(3, 0)), DONE);
    assert_eq!(hub.take_effects().len(), 1);
}

#[test]
fn the_mouse_on_a_workspace_is_moved_to_its_own_row() {
    let mut hub = hub();
    input(&mut hub, left(3, 4)).unwrap();
    assert_eq!(
        hub.take_effects(),
        vec![send(
            ConnectionRole::Active,
            mouse_message(ClientMouseKind::Down(MouseButton::Left), 3, 3)
        )]
    );
    input(&mut hub, left(3, 5)).unwrap();
    assert_eq!(
        hub.take_effects(),
        vec![send(
            ConnectionRole::Active,
            mouse_message(ClientMouseKind::Down(MouseButton::Left), 3, 4)
        )]
    );
    assert_eq!(hub.server_overlay_session, None);
    input(&mut hub, right(3, 4)).unwrap();
    assert_eq!(hub.server_overlay_session.as_deref(), Some("default"));
    assert!(!hub.server_overlay_seen);
}

#[test]
fn a_click_on_another_workspace_switches_to_it() {
    let mut hub = expanded();
    let Ok(InputStep::Taken(HubStep::Connect { connection, plan })) =
        input(&mut hub, left(3, 4))
    else {
        panic!("a switch needs a connection");
    };
    assert_eq!(connection.role, ConnectionRole::Active);
    assert_eq!((connection.session.as_str(), connection.generation), ("alpha", 5));
    assert_eq!(connection.workspace.as_deref(), Some("v1"));
    assert_eq!((connection.handshake.cols, connection.handshake.rows), (30, 12));
    assert_eq!(hub.active.name, "default");
    assert!(!hub.repaint);
    let step = hub.connection_attempted(connection, plan, Ok(())).unwrap();
    settle(&mut hub, step);
    assert_eq!(hub.active.name, "alpha");
    assert!(hub.repaint);
}

#[test]
fn a_right_click_on_another_workspace_goes_to_its_sidebar() {
    let mut hub = expanded();
    input(&mut hub, right(3, 4)).unwrap();
    assert_eq!(
        hub.take_effects(),
        vec![send(
            alpha_sidebar(),
            mouse_message(ClientMouseKind::Down(MouseButton::Right), 3, 4)
        )]
    );
    assert_eq!(hub.server_overlay_session.as_deref(), Some("alpha"));
    hub.handle_local_input(&vec![7, 8], &[]).unwrap();
    assert_eq!(
        hub.take_effects(),
        vec![send(alpha_sidebar(), ClientMessage::Input { data: vec![7, 8] })]
    );
    input(&mut hub, mouse_at(MouseEventKind::ScrollDown, 3, 9)).unwrap();
    assert_eq!(
        hub.take_effects(),
        vec![send(alpha_sidebar(), mouse_message(ClientMouseKind::ScrollDown, 3, 9))]
    );
}

#[test]
fn a_message_to_an_unconnected_session_stops_the_hub() {
    let mut hub = expanded();
    hub.handle_disconnect("alpha", 4, HubStreamKind::Sidebar);
    hub.take_effects();
    let lost = |reason: &str| IoFailure {
        kind: IoErrorKind::NotConnected,
        reason: reason.to_owned(),
    };
    assert_eq!(
        input(&mut hub, right(3, 4)),
        Err(ClientError::ConnectionLost(lost("session alpha sidebar is not connected")))
    );
    assert_eq!(hub.server_overlay_session, None);
    assert_eq!(
        hub.write_to_session("gone", ClientMessage::Detach),
        Err(ClientError::ConnectionLost(lost("session gone sidebar is not connected")))
    );
    assert!(hub.take_effects().is_empty());
}

#[test]
fn headings_open_menus_and_rows() {
    let mut hub = hub();
    input(&mut hub, right(3, 2)).unwrap();
    assert!(hub.session_menu.is_none());
    input(&mut hub, right(3, 7)).unwrap();
    let menu = hub.session_menu.take().unwrap();
    assert_eq!((menu.session.as_str(), menu.x, menu.y, menu.highlighted), ("alpha", 3, 7, 0));
    assert!(hub.repaint);
    hub.painted();
    input(&mut hub, left(3, 8)).unwrap();
    assert!(matches!(hub.modal, Some(SessionModal::Create(_))));
    assert!(hub.repaint);
    hub.modal = None;
    input(&mut hub, left(3, 2)).unwrap();
    assert!(hub.collapsed.contains("default"));
}

#[test]
fn keys_walk_the_menu() {
    let mut hub = hub();
    input(&mut hub, right(3, 7)).unwrap();
    hub.painted();
    input(&mut hub, key(KeyCode::Down)).unwrap();
    assert_eq!(hub.session_menu.as_ref().unwrap().highlighted, 1);
    assert!(hub.repaint);
    input(&mut hub, key(KeyCode::Up)).unwrap();
    assert_eq!(hub.session_menu.as_ref().unwrap().highlighted, 0);
    input(&mut hub, key(KeyCode::Char('q'))).unwrap();
    assert!(hub.session_menu.is_some());
    input(&mut hub, key(KeyCode::Enter)).unwrap();
    assert!(hub.session_menu.is_none());
    assert!(
        matches!(&hub.modal, Some(SessionModal::Rename { session, name, error: None }) if session == "alpha" && name == "alpha")
    );
    hub.modal = None;
    input(&mut hub, right(3, 7)).unwrap();
    input(&mut hub, key(KeyCode::Esc)).unwrap();
    assert!(hub.session_menu.is_none() && hub.modal.is_none());
    assert!(!hub.handle_session_menu_input(&[]));
}

#[test]
fn clicks_choose_an_entry_of_the_menu() {
    let mut hub = hub();
    input(&mut hub, right(3, 7)).unwrap();
    input(&mut hub, left(4, 9)).unwrap();
    assert!(
        matches!(&hub.modal, Some(SessionModal::ConfirmClose { session, error: None }) if session == "alpha")
    );
    hub.modal = None;
    for (column, row) in [(3, 8), (18, 8), (4, 7), (4, 10)] {
        input(&mut hub, right(3, 7)).unwrap();
        input(&mut hub, left(column, row)).unwrap();
        assert!(hub.session_menu.is_none() && hub.modal.is_none());
    }
    input(&mut hub, right(3, 7)).unwrap();
    input(&mut hub, right(4, 8)).unwrap();
    assert!(hub.session_menu.is_some());
}

#[test]
fn a_dialog_takes_all_input() {
    let mut hub = hub();
    pick(&mut hub, HubRowTarget::NewSession);
    hub.painted();
    let step = input(&mut hub, left(20, 3)).unwrap();
    assert_eq!(step, InputStep::Modal(session_hub::dialogs::ModalProgress::Finished));
    assert!(hub.repaint);
    assert!(hub.take_effects().is_empty());
}

#[test]
fn other_input_is_for_the_session_on_the_screen() {
    let mut hub = hub();
    assert_eq!(input(&mut hub, key(KeyCode::Enter)), Ok(InputStep::Terminal));
    assert!(hub.take_effects().is_empty());
    assert!(hub.route_terminal_input(vec![13], ImageSource::Absent, 4));
    let image = || ClipboardImage { extension: "png".to_owned(), bytes: vec![1, 2, 3, 4] };
    assert!(hub.route_terminal_input(vec![13], ImageSource::Pasted(image()), 4));
    assert!(!hub.route_terminal_input(vec![13], ImageSource::Pasted(image()), 3));
    assert!(hub.route_terminal_input(vec![13], ImageSource::Dropped(image()), 3));
    let sent = || {
        send(
            ConnectionRole::Active,
            ClientMessage::ClipboardImage { extension: "png".to_owned(), data: vec![1, 2, 3, 4] },
        )
    };
    assert_eq!(
        hub.take_effects(),
        vec![
            send(ConnectionRole::Active, ClientMessage::Input { data: vec![13] }),
            sent(),
            sent()
        ]
    );
}

#[test]
fn all_that_show_a_screen_hear_of_a_resize() {
    let mut hub = expanded();
    hub.resize(50, 20);
    assert_eq!((hub.cols, hub.rows), (50, 20));
    assert!(hub.repaint && hub.full_repaint);
    let resize = || ClientMessage::Resize {
        cols: 50,
        rows: 20,
        cell_width_px: 0,
        cell_height_px: 0,
    };
    assert_eq!(
        hub.take_effects(),
        vec![send(ConnectionRole::Active, resize()), send(alpha_sidebar(), resize())]
    );
}

#[test]
fn messages_to_the_screen_become_effects() {
    let mut hub = hub();
    let tell = |hub: &mut HubState, message| {
        hub.handle_server_message("default", 1, HubStreamKind::App, message);
        hub.take_effects()
    };
    assert_eq!(
        tell(&mut hub, ServerMessage::Notify { kind: 2, message: "m".to_owned(), body: None }),
        vec![Effect::Notify { kind: 2, text: "m".to_owned(), body: None }]
    );
    assert_eq!(
        tell(&mut hub, ServerMessage::Clipboard { data: vec![1] }),
        vec![Effect::Clipboard { data: vec![1] }]
    );
    assert_eq!(
        tell(&mut hub, ServerMessage::WindowTitle { title: Some("t".to_owned()) }),
        vec![Effect::WindowTitle { title: Some("t".to_owned()) }]
    );
    assert_eq!(
        tell(&mut hub, ServerMessage::MouseCapture { enabled: true }),
        vec![Effect::MouseCapture { enabled: true, sgr_pixels: false }]
    );
    assert!(!hub.repaint);
    assert!(tell(&mut hub, ServerMessage::TerminalBell).is_empty());
    tell(&mut hub, ServerMessage::ServerShutdown { reason: None });
    assert_eq!(hub.status.as_deref(), Some("session stopped"));
    assert!(hub.active.frame.is_none() && hub.repaint);
    tell(&mut hub, ServerMessage::ServerShutdown { reason: Some("bye".to_owned()) });
    assert_eq!(hub.status.as_deref(), Some("bye"));
}

#[test]
fn stale_messages_are_ignored() {
    let mut hub = expanded();
    assert!(hub.accepts("default", 1, HubStreamKind::App));
    assert!(hub.accepts("alpha", 4, HubStreamKind::Sidebar));
    assert!(hub.accepts("alpha", 3, HubStreamKind::Summary));
    assert!(!hub.accepts("gone", 0, HubStreamKind::Summary));
    let step = hub.switch_active("beta", None);
    settle(&mut hub, step);
    hub.painted();
    assert!(!hub.accepts("default", 1, HubStreamKind::App));
    hub.handle_server_message(
        "default",
        1,
        HubStreamKind::App,
        ServerMessage::Frame(lettered('q', 30, 12)),
    );
    hub.handle_disconnect("default", 1, HubStreamKind::App);
    hub.handle_server_message(
        "alpha",
        3,
        HubStreamKind::Sidebar,
        ServerMessage::Frame(lettered('q', 30, 12)),
    );
    hub.handle_disconnect("alpha", 4, HubStreamKind::Summary);
    assert!(hub.active.frame.is_none() && !hub.repaint);
    assert_eq!(hub.status, None);
    assert!(hub.take_effects().is_empty());
}

#[test]
fn sessions_that_stop_are_let_go() {
    let mut hub = expanded();
    hub.handle_server_message(
        "alpha",
        4,
        HubStreamKind::Sidebar,
        ServerMessage::ServerShutdown { reason: None },
    );
    let alpha = &hub.sessions[1];
    assert!(!alpha.running && !alpha.sidebar_connected && alpha.sidebar_frame.is_none());
    assert_eq!(hub.take_effects(), vec![Effect::Close { role: alpha_sidebar() }]);
    hub.handle_disconnect("alpha", 3, HubStreamKind::Summary);
    assert!(!hub.sessions[1].summary_connected);
    assert_eq!(
        hub.take_effects(),
        vec![Effect::Close { role: ConnectionRole::Summary("alpha".to_owned()) }]
    );
    hub.handle_disconnect("alpha", 4, HubStreamKind::Sidebar);
    assert!(hub.take_effects().is_empty());
    hub.handle_disconnect("default", 1, HubStreamKind::App);
    assert_eq!(hub.status.as_deref(), Some("session default disconnected"));
    assert!(hub.active.frame.is_none());
}

#[test]
fn an_overlay_is_kept_until_it_was_seen() {
    let mut hub = hub();
    input(&mut hub, right(3, 4)).unwrap();
    let tell = |hub: &mut HubState, active| {
        hub.handle_server_message("default", 2, HubStreamKind::Summary, summary_of(active, vec![]));
    };
    tell(&mut hub, false);
    assert_eq!(hub.server_overlay_session.as_deref(), Some("default"));
    tell(&mut hub, true);
    assert!(hub.server_overlay_seen);
    tell(&mut hub, false);
    assert_eq!(hub.server_overlay_session, None);
    assert!(!hub.server_overlay_seen);
    tell(&mut hub, true);
    assert_eq!(hub.server_overlay_session.as_deref(), Some("default"));
    assert!(hub.server_overlay_seen);
}

#[test]
fn an_overlay_of_another_session_is_not_taken_up() {
    let mut hub = expanded();
    hub.handle_server_message("alpha", 3, HubStreamKind::Summary, summary_of(true, vec![]));
    assert_eq!(hub.server_overlay_session, None);
    assert!(hub.repaint);
    hub.handle_server_message("alpha", 3, HubStreamKind::Summary, ServerMessage::Welcome);
    assert!(hub.sessions[1].summary.is_some());
}

#[test]
fn the_hub_says_farewell() {
    let mut hub = hub();
    hub.leave();
    assert_eq!(
        hub.take_effects(),
        vec![Effect::Send {
            role: ConnectionRole::Active,
            message: ClientMessage::Detach,
            required: false
        }]
    );
}

#[test]
fn readers_end_with_their_stream() {
    assert_eq!(reader_step(ReadOutcome::Message), ReaderStep::Deliver);
    assert_eq!(reader_step(ReadOutcome::EndOfStream), ReaderStep::End);
    assert_eq!(reader_step(ReadOutcome::Failure), ReaderStep::ReportAndEnd);
    assert_eq!(read_limit(HubStreamKind::App, 1, 2), 2);
    assert_eq!(read_limit(HubStreamKind::Sidebar, 1, 2), 2);
    assert_eq!(read_limit(HubStreamKind::Summary, 1, 2), 1);
    assert!(unpacks(HubStreamKind::App, true) && unpacks(HubStreamKind::Sidebar, true));
    assert!(!unpacks(HubStreamKind::App, false) && !unpacks(HubStreamKind::Summary, true));
}

#[test]
fn a_pasted_image_comes_before_a_dropped_one() {
    let image = || ClipboardImage { extension: "png".to_owned(), bytes: vec![1] };
    assert_eq!(first_look(true), ImageLook::Clipboard);
    assert_eq!(first_look(false), ImageLook::Drop);
    assert_eq!(
        look_step(ImageLook::Clipboard, Some(image())),
        LookStep::Found(ImageSource::Pasted(image()))
    );
    assert_eq!(look_step(ImageLook::Clipboard, None), LookStep::Look(ImageLook::Drop));
    assert_eq!(
        look_step(ImageLook::Drop, Some(image())),
        LookStep::Found(ImageSource::Dropped(image()))
    );
    assert_eq!(look_step(ImageLook::Drop, None), LookStep::Found(ImageSource::Absent));
}

#[test]
fn a_wide_layout_leaves_the_last_column() {
    let mut hub = hub();
    hub.active.frame = Some(lettered('a', 6, 12));
    let frame = hub.compose_frame();
    assert_eq!(row_text(&frame, 2), " ▼ dec");
    assert_eq!(row_text(&frame, 3), "cccccd");
}
