use session_hub::connections::{
    launch_mode, stream_kind, ClientKeybindings, ClientLaunchMode, ConnectionRequest, Handshake,
    RenderEncoding,
};
use session_hub::dialogs::{ModalProgress, ALT, CONTROL, NAME_LIMIT};
use session_hub::effects::{effect_failed, ConnectionRole, Effect, HubStreamKind};
use session_hub::lifecycle::initial_connection;
use session_hub::protocol::{
    ClientError, ClientMessage, IoErrorKind, IoFailure, KeyCode, KeyEventKind, RawInputEvent,
    TerminalKey,
};
use session_hub::rows::HubRowTarget;
use session_hub::sessions::connect_active;
use session_hub::state::{HubState, RemoteSessionDescriptor, SessionModal};
use session_hub::steps::{BackendRequest, HubStep};

/// What the program does for the hub.
#[derive(Debug, PartialEq)]
enum Act {
    Do(Effect),
    Open(ConnectionRequest),
}

/// Performs effects and opens connections until the hub needs something else.
fn drive(hub: &mut HubState, step: HubStep) -> (Vec<Act>, HubStep) {
    let mut acts = Vec::new();
    let mut step = step;
    loop {
        acts.extend(hub.take_effects().into_iter().map(Act::Do));
        match step {
            HubStep::Connect { connection, plan } => {
                acts.push(Act::Open(connection.clone()));
                step = hub.connection_attempted(connection, plan, Ok(())).unwrap();
            }
            other => return (acts, other),
        }
    }
}

/// The same, to the end.
fn settle(hub: &mut HubState, step: HubStep) -> Vec<Act> {
    let (acts, step) = drive(hub, step);
    assert_eq!(step, HubStep::Settled);
    acts
}

fn pick(hub: &mut HubState, target: HubRowTarget) -> Vec<Act> {
    let step = hub.activate_row(target, false);
    settle(hub, step)
}

fn switch(hub: &mut HubState, session: &str) -> Vec<Act> {
    let step = hub.switch_active(session, None);
    settle(hub, step)
}

fn failure(kind: IoErrorKind, reason: &str) -> IoFailure {
    IoFailure { kind, reason: reason.to_owned() }
}

fn refused(reason: &str) -> IoFailure {
    failure(IoErrorKind::ConnectionRefused, reason)
}

fn bindings() -> ClientKeybindings {
    ClientKeybindings { encoded: vec![4, 2] }
}

fn acts(hub: &mut HubState) -> Vec<Act> {
    settle(hub, HubStep::Settled)
}

fn descriptor(name: &str, running: bool) -> RemoteSessionDescriptor {
    RemoteSessionDescriptor { name: name.to_owned(), running }
}

fn hub() -> HubState {
    HubState::start(
        vec![descriptor("beta", true), descriptor("default", true), descriptor("alpha", false)],
        "default",
        80,
        24,
        bindings(),
    )
}

fn names(hub: &HubState) -> Vec<&str> {
    hub.sessions.iter().map(|session| session.name.as_str()).collect()
}

fn key(code: KeyCode) -> RawInputEvent {
    RawInputEvent::Key(TerminalKey { code, modifiers: 0, kind: KeyEventKind::Press })
}

fn detach(role: ConnectionRole) -> Act {
    Act::Do(Effect::Send { role, message: ClientMessage::Detach, required: false })
}

fn close(role: ConnectionRole) -> Act {
    Act::Do(Effect::Close { role })
}

fn request(role: ConnectionRole, session: &str, generation: u64) -> ConnectionRequest {
    let (cols, rows, mode) = match role {
        ConnectionRole::Summary(_) => (1, 1, ClientLaunchMode::SessionSummary),
        ConnectionRole::Sidebar(_) => (80, 24, ClientLaunchMode::AppSidebar),
        _ => (80, 24, ClientLaunchMode::App),
    };
    ConnectionRequest {
        role,
        session: session.to_owned(),
        generation,
        workspace: None,
        handshake: Handshake {
            cols,
            rows,
            cell_width_px: 0,
            cell_height_px: 0,
            encoding: RenderEncoding::SemanticFrame,
            keybindings: bindings(),
            mode,
        },
    }
}

fn connect(role: ConnectionRole, session: &str, generation: u64) -> Act {
    Act::Open(request(role, session, generation))
}

fn summary(name: &str) -> ConnectionRole {
    ConnectionRole::Summary(name.to_owned())
}

fn sidebar(name: &str) -> ConnectionRole {
    ConnectionRole::Sidebar(name.to_owned())
}

fn heading(name: &str) -> HubRowTarget {
    HubRowTarget::Session(name.to_owned())
}

#[test]
fn the_hub_starts_with_the_default_session_first() {
    let mut hub = HubState::start(
        vec![descriptor("zeta", false), descriptor("default", false), descriptor("Alpha", true)],
        "work",
        80,
        24,
        bindings(),
    );
    assert_eq!(names(&hub), vec!["default", "Alpha", "work", "zeta"]);
    let running: Vec<bool> = hub.sessions.iter().map(|session| session.running).collect();
    assert_eq!(running, vec![false, true, true, false]);
    assert!(hub.collapsed.contains("default"));
    assert!(hub.collapsed.contains("Alpha"));
    assert!(hub.collapsed.contains("zeta"));
    assert!(!hub.collapsed.contains("work"));
    assert_eq!((hub.active.name.as_str(), hub.active.generation), ("work", 1));
    assert_eq!(hub.next_generation, 2);
    assert!(hub.repaint && hub.full_repaint);
    assert!(hub.take_effects().is_empty());
    assert_eq!(hub.running_sessions(), vec!["Alpha", "work"]);
    assert_eq!(
        initial_connection("work", 80, 24, &bindings()),
        request(ConnectionRole::Active, "work", 1)
    );
}

#[test]
fn a_connection_carries_its_handshake() {
    let (connection, active) = connect_active("work", 7, 33, 11, Some("w"), &bindings());
    assert_eq!(
        connection,
        ConnectionRequest {
            role: ConnectionRole::Active,
            session: "work".to_owned(),
            generation: 7,
            workspace: Some("w".to_owned()),
            handshake: Handshake {
                cols: 33,
                rows: 11,
                cell_width_px: 0,
                cell_height_px: 0,
                encoding: RenderEncoding::SemanticFrame,
                keybindings: ClientKeybindings { encoded: vec![4, 2] },
                mode: ClientLaunchMode::App,
            },
        }
    );
    assert_eq!((active.name.as_str(), active.generation), ("work", 7));
    assert!(active.frame.is_none());
}

#[test]
fn sessions_of_one_name_stay_in_order() {
    let hub = HubState::start(
        vec![descriptor("b", true), descriptor("a", false), descriptor("b", false)],
        "a",
        80,
        24,
        bindings(),
    );
    assert_eq!(names(&hub), vec!["a", "b", "b"]);
    assert!(hub.sessions[1].running);
    assert!(!hub.sessions[2].running);
    assert_eq!(hub.find_session("b"), Some(1));
    assert_eq!(hub.find_session("c"), None);
}

#[test]
fn summaries_are_requested_once() {
    let mut hub = hub();
    assert_eq!(hub.request_summary("beta"), Some(request(summary("beta"), "beta", 2)));
    assert_eq!(hub.next_generation, 3);
    assert!(!hub.sessions[2].summary_connected);
    hub.summary_established("beta", 2);
    assert!(hub.sessions[2].summary_connected);
    assert_eq!(hub.sessions[2].summary_generation, 2);
    assert_eq!(hub.request_summary("beta"), None);
    assert_eq!(hub.connect_summary("beta"), HubStep::Settled);
    assert_eq!(hub.next_generation, 3);
    let connection = hub.request_summary("alpha").unwrap();
    hub.summary_attempted(&connection, Err(refused("no route")));
    assert_eq!(hub.status.as_deref(), Some("alpha: no route"));
    assert!(!hub.sessions[1].summary_connected && !hub.sessions[1].running);
    let connection = hub.request_summary("alpha").unwrap();
    hub.summary_attempted(&connection, Ok(()));
    assert!(hub.sessions[1].summary_connected && hub.sessions[1].running);
    assert_eq!(hub.sessions[1].summary_generation, 4);
    assert!(hub.take_effects().is_empty());
    hub.summary_established("gone", 9);
    assert_eq!(acts(&mut hub), vec![close(summary("gone"))]);
}

#[test]
fn sidebars_are_connected_beside_the_screen() {
    let mut hub = hub();
    assert_eq!(hub.connect_sidebar("default"), HubStep::Settled);
    assert_eq!(hub.request_sidebar("default"), None);
    let step = hub.connect_sidebar("beta");
    assert!(!hub.sessions[2].sidebar_connected);
    assert_eq!(settle(&mut hub, step), vec![connect(sidebar("beta"), "beta", 2)]);
    assert!(hub.sessions[2].sidebar_connected);
    assert_eq!(hub.sessions[2].sidebar_generation, 2);
    assert_eq!(hub.connect_sidebar("beta"), HubStep::Settled);
    let step = hub.connect_sidebar("gone");
    assert_eq!(
        settle(&mut hub, step),
        vec![connect(sidebar("gone"), "gone", 3), close(sidebar("gone"))]
    );
}

#[test]
fn generations_stop_at_the_last_one() {
    let mut hub = hub();
    hub.next_generation = u64::MAX;
    let step = hub.connect_summary("alpha");
    assert_eq!(settle(&mut hub, step), vec![connect(summary("alpha"), "alpha", u64::MAX)]);
    assert_eq!(hub.next_generation, u64::MAX);
}

#[test]
fn a_heading_expands_and_folds_its_session() {
    let mut hub = hub();
    hub.painted();
    assert_eq!(
        pick(&mut hub, heading("alpha")),
        vec![connect(summary("alpha"), "alpha", 2), connect(sidebar("alpha"), "alpha", 3)]
    );
    assert!(!hub.collapsed.contains("alpha"));
    assert!(hub.sessions[1].running);
    assert_eq!(
        pick(&mut hub, heading("alpha")),
        vec![detach(sidebar("alpha")), close(sidebar("alpha"))]
    );
    assert!(hub.collapsed.contains("alpha"));
    assert!(!hub.sessions[1].sidebar_connected);
    assert_eq!(hub.sessions[1].sidebar_generation, 0);
    assert_eq!(
        pick(&mut hub, heading("alpha")),
        vec![connect(sidebar("alpha"), "alpha", 4)]
    );
    assert!(!hub.collapsed.contains("alpha"));
    assert!(!hub.repaint);
}

#[test]
fn a_heading_without_a_connection_connects_first() {
    let mut hub = hub();
    assert_eq!(
        pick(&mut hub, heading("default")),
        vec![connect(summary("default"), "default", 2)]
    );
    assert!(!hub.collapsed.contains("default"));
    assert_eq!(pick(&mut hub, heading("default")), vec![]);
    assert!(hub.collapsed.contains("default"));
    assert_eq!(pick(&mut hub, heading("default")), vec![]);
    assert!(!hub.collapsed.contains("default"));
}

#[test]
fn rows_of_workspaces_do_nothing_when_chosen() {
    let mut hub = hub();
    let space = HubRowTarget::SpaceRow {
        session: "alpha".to_owned(),
        workspace_id: "w".to_owned(),
        original_y: 1,
    };
    assert_eq!(pick(&mut hub, space), vec![]);
    let gap = HubRowTarget::SpaceGapRow { session: "alpha".to_owned(), original_y: 1 };
    assert_eq!(pick(&mut hub, gap), vec![]);
    assert!(hub.modal.is_none());
    assert_eq!(pick(&mut hub, HubRowTarget::NewSession), vec![]);
    assert!(matches!(&hub.modal, Some(SessionModal::Create(modal)) if modal.name.is_empty()));
}

#[test]
fn switching_watches_the_session_that_leaves() {
    let mut hub = hub();
    pick(&mut hub, heading("alpha"));
    hub.painted();
    let step = hub.switch_active("alpha", Some("w1"));
    let done = settle(&mut hub, step);
    assert_eq!((hub.active.name.as_str(), hub.active.generation), ("alpha", 4));
    assert!(hub.active.frame.is_none());
    assert!(hub.repaint);
    assert!(!hub.sessions[1].sidebar_connected);
    assert!(hub.sessions[0].sidebar_connected);
    let active = ConnectionRequest {
        workspace: Some("w1".to_owned()),
        ..request(ConnectionRole::Active, "alpha", 4)
    };
    assert_eq!(
        done,
        vec![
            detach(sidebar("alpha")),
            close(sidebar("alpha")),
            Act::Open(active),
            detach(ConnectionRole::PreviousActive),
            connect(sidebar("default"), "default", 5),
            close(ConnectionRole::PreviousActive),
        ]
    );
}

#[test]
fn switching_from_a_collapsed_session_does_not_watch_it() {
    let mut hub = hub();
    pick(&mut hub, heading("default"));
    pick(&mut hub, heading("default"));
    assert_eq!(
        switch(&mut hub, "beta"),
        vec![
            connect(ConnectionRole::Active, "beta", 3),
            detach(ConnectionRole::PreviousActive),
            close(ConnectionRole::PreviousActive),
        ]
    );
}

#[test]
fn a_failed_switch_leaves_the_screen_as_it_was() {
    let mut hub = hub();
    pick(&mut hub, heading("alpha"));
    rename_dialog(&mut hub, "alpha", "x");
    hub.status = Some("old".to_owned());
    hub.painted();
    let HubStep::Connect { connection, plan } = hub.switch_active("alpha", Some("w1")) else {
        panic!("a switch needs a connection");
    };
    assert_eq!(hub.active.name, "default");
    assert_eq!(
        hub.connection_attempted(connection, plan, Err(refused("no route"))),
        Err(ClientError::ConnectionFailed(refused("no route")))
    );
    assert_eq!((hub.active.name.as_str(), hub.active.generation), ("default", 1));
    assert!(!hub.repaint);
    assert_eq!(names(&hub), vec!["default", "alpha", "beta"]);
    assert!(!hub.collapsed.contains("alpha") && hub.collapsed.contains("beta"));
    assert!(matches!(&hub.modal, Some(SessionModal::Rename { name, .. }) if name == "x"));
    assert_eq!(hub.status.as_deref(), Some("old"));
    assert!(!hub.sessions[0].sidebar_connected);
    assert_eq!(acts(&mut hub), vec![detach(sidebar("alpha")), close(sidebar("alpha"))]);
}

#[test]
fn a_failed_sidebar_connection_comes_after_the_switch() {
    let mut hub = hub();
    hub.painted();
    let HubStep::Connect { connection, plan } = hub.switch_active("beta", None) else {
        panic!("a switch needs a connection");
    };
    let step = hub.connection_attempted(connection, plan, Ok(())).unwrap();
    let HubStep::Connect { connection, plan } = step else {
        panic!("the session that left the screen is watched");
    };
    assert_eq!(connection, request(sidebar("default"), "default", 3));
    let failed = hub.connection_attempted(connection, plan, Err(refused("gone")));
    assert_eq!(failed, Err(ClientError::ConnectionFailed(refused("gone"))));
    assert_eq!(hub.active.name, "beta");
    assert!(!hub.repaint);
    assert_eq!(acts(&mut hub), vec![detach(ConnectionRole::PreviousActive)]);
}

#[test]
fn a_failed_connection_leaves_the_dialog_open() {
    let mut hub = hub();
    pick(&mut hub, HubRowTarget::NewSession);
    hub.painted();
    let HubStep::Connect { connection, plan } = hub.create_named_session("new") else {
        panic!("a new session needs a connection");
    };
    assert_eq!(connection, request(summary("new"), "new", 2));
    let step = hub.connection_attempted(connection, plan, Ok(())).unwrap();
    let HubStep::Connect { connection, plan } = step else {
        panic!("a new session goes on the screen");
    };
    assert_eq!(connection, request(ConnectionRole::Active, "new", 3));
    assert!(hub.connection_attempted(connection, plan, Err(refused("gone"))).is_err());
    assert!(matches!(hub.modal, Some(SessionModal::Create(_))));
    assert_eq!(hub.status, None);
    assert_eq!(hub.active.name, "default");
    assert!(!hub.repaint);
}

#[test]
fn observers_are_detached_before_they_are_closed() {
    let mut hub = hub();
    pick(&mut hub, heading("beta"));
    hub.detach_session_observers("beta");
    assert_eq!(
        acts(&mut hub),
        vec![
            detach(summary("beta")),
            detach(sidebar("beta")),
            close(summary("beta")),
            close(sidebar("beta")),
        ]
    );
    hub.detach_session_observers("beta");
    hub.detach_session_observers("gone");
    assert!(hub.take_effects().is_empty());
}

#[test]
fn a_session_is_created_in_steps() {
    let mut hub = hub();
    pick(&mut hub, HubRowTarget::NewSession);
    let events: Vec<RawInputEvent> =
        " new ".chars().map(KeyCode::Char).map(key).chain([key(KeyCode::Enter)]).collect();
    hub.painted();
    let progress = hub.handle_modal_input(&events, 0);
    let step = HubStep::ParseName { requested: "new".to_owned() };
    assert_eq!(progress, Ok(ModalProgress::Waiting { next: 6, step }));
    assert!(!hub.repaint);
    let step = hub.name_parsed(Ok(Some("new".to_owned())));
    let create = BackendRequest::Create { session: "new".to_owned() };
    assert_eq!(step, HubStep::Ask { request: create });
    let create = BackendRequest::Create { session: "new".to_owned() };
    let step = hub.backend_answered(&create, Ok(()));
    assert_eq!(
        settle(&mut hub, step),
        vec![
            connect(summary("new"), "new", 2),
            connect(ConnectionRole::Active, "new", 3),
            detach(ConnectionRole::PreviousActive),
            connect(sidebar("default"), "default", 4),
            close(ConnectionRole::PreviousActive),
        ]
    );
    assert_eq!(names(&hub), vec!["alpha", "beta", "default", "new"]);
    assert_eq!(hub.active.name, "new");
    assert!(hub.modal.is_none());
    assert_eq!(hub.status.as_deref(), Some("created session new"));
    assert_eq!(hub.handle_modal_input(&events, 6), Ok(ModalProgress::Finished));
    assert!(hub.repaint);
}

fn modal_error(hub: &HubState) -> Option<&str> {
    match &hub.modal {
        Some(SessionModal::Create(modal)) => modal.error.as_deref(),
        Some(SessionModal::Rename { error, .. }) => error.as_deref(),
        Some(SessionModal::ConfirmClose { error, .. }) => error.as_deref(),
        None => None,
    }
}

#[test]
fn faulty_names_are_told_in_the_dialog() {
    let mut hub = hub();
    pick(&mut hub, HubRowTarget::NewSession);
    assert_eq!(hub.name_parsed(Ok(None)), HubStep::Settled);
    assert_eq!(modal_error(&hub), Some("use a named session, not default"));
    assert_eq!(hub.name_parsed(Err("bad name".to_owned())), HubStep::Settled);
    assert_eq!(modal_error(&hub), Some("bad name"));
    assert_eq!(hub.name_parsed(Ok(Some("alpha".to_owned()))), HubStep::Settled);
    assert_eq!(modal_error(&hub), Some("session alpha already exists"));
    assert_eq!(
        hub.validated_new_session_name(Ok(Some("new".to_owned()))),
        Some("new".to_owned())
    );
    assert_eq!(modal_error(&hub), Some("session alpha already exists"));
    assert_eq!(names(&hub), vec!["default", "alpha", "beta"]);
    assert!(hub.take_effects().is_empty());
}

#[test]
fn a_refused_request_is_told_in_the_dialog() {
    let mut hub = hub();
    pick(&mut hub, HubRowTarget::NewSession);
    let create = BackendRequest::Create { session: "new".to_owned() };
    let step = hub.backend_answered(&create, Err("host is full".to_owned()));
    assert_eq!(step, HubStep::Settled);
    assert_eq!(modal_error(&hub), Some("host is full"));
    assert_eq!(names(&hub), vec!["default", "alpha", "beta"]);
    assert!(hub.take_effects().is_empty());
    hub.modal = None;
    hub.backend_answered(&create, Err("host is full".to_owned()));
    assert!(hub.modal.is_none());
}

fn rename_dialog(hub: &mut HubState, session: &str, name: &str) {
    hub.modal = Some(SessionModal::Rename {
        session: session.to_owned(),
        name: name.to_owned(),
        error: None,
    });
}

fn rename_beta() -> BackendRequest {
    BackendRequest::Rename { session: "beta".to_owned(), new_name: "gamma".to_owned() }
}

#[test]
fn renaming_keeps_a_collapsed_session_collapsed() {
    let mut hub = hub();
    let step = hub.connect_summary("beta");
    settle(&mut hub, step);
    rename_dialog(&mut hub, "beta", "gamma ");
    assert_eq!(
        hub.submit_session_modal(),
        Ok(HubStep::ParseName { requested: "gamma".to_owned() })
    );
    let step = hub.name_parsed(Ok(Some("gamma".to_owned())));
    let (done, step) = drive(&mut hub, step);
    assert_eq!(done, vec![detach(summary("beta")), close(summary("beta"))]);
    assert_eq!(step, HubStep::Ask { request: rename_beta() });
    let step = hub.backend_answered(&rename_beta(), Ok(()));
    assert_eq!(settle(&mut hub, step), vec![connect(summary("gamma"), "gamma", 3)]);
    assert_eq!(names(&hub), vec!["alpha", "default", "gamma"]);
    assert!(hub.collapsed.contains("gamma"));
    assert!(!hub.collapsed.contains("beta"));
    assert_eq!(hub.active.name, "default");
    assert_eq!(hub.status.as_deref(), Some("renamed session beta to gamma"));
    assert!(hub.modal.is_none());
}

#[test]
fn renaming_an_expanded_session_watches_it_again() {
    let mut hub = hub();
    pick(&mut hub, heading("beta"));
    rename_dialog(&mut hub, "beta", "gamma");
    hub.name_parsed(Ok(Some("gamma".to_owned())));
    acts(&mut hub);
    let step = hub.rename_named_session("beta", "gamma");
    assert_eq!(
        settle(&mut hub, step),
        vec![connect(summary("gamma"), "gamma", 4), connect(sidebar("gamma"), "gamma", 5)]
    );
    assert!(!hub.collapsed.contains("gamma"));
}

#[test]
fn renaming_the_session_on_the_screen_reconnects_it() {
    let mut hub = hub();
    switch(&mut hub, "beta");
    rename_dialog(&mut hub, "beta", "gamma");
    hub.name_parsed(Ok(Some("gamma".to_owned())));
    acts(&mut hub);
    let step = hub.rename_named_session("beta", "gamma");
    assert_eq!(
        settle(&mut hub, step),
        vec![
            connect(summary("gamma"), "gamma", 4),
            connect(ConnectionRole::Active, "gamma", 5),
            detach(ConnectionRole::PreviousActive),
            close(ConnectionRole::PreviousActive),
        ]
    );
    assert_eq!(hub.active.name, "gamma");
}

#[test]
fn renaming_to_the_same_name_leaves_the_dialog() {
    let mut hub = hub();
    rename_dialog(&mut hub, "beta", " beta");
    assert_eq!(hub.submit_session_modal(), Ok(HubStep::Settled));
    assert!(hub.modal.is_none());
    assert!(hub.take_effects().is_empty());
}

fn close_dialog(hub: &mut HubState, session: &str) {
    hub.modal = Some(SessionModal::ConfirmClose { session: session.to_owned(), error: None });
}

#[test]
fn closing_the_session_on_the_screen_falls_back() {
    let mut hub = hub();
    switch(&mut hub, "beta");
    close_dialog(&mut hub, "beta");
    let Ok(ModalProgress::Waiting { next: 1, step }) =
        hub.handle_modal_input(&[key(KeyCode::Enter)], 0)
    else {
        panic!("the fallback has to be connected");
    };
    assert_eq!(hub.active.name, "beta");
    let (done, step) = drive(&mut hub, step);
    assert_eq!(
        done,
        vec![
            detach(sidebar("default")),
            close(sidebar("default")),
            connect(ConnectionRole::Active, "default", 4),
            detach(ConnectionRole::PreviousActive),
            close(ConnectionRole::PreviousActive),
        ]
    );
    let closing = BackendRequest::Close { session: "beta".to_owned() };
    assert_eq!(step, HubStep::Ask { request: closing });
    assert_eq!(hub.active.name, "default");
    let closing = BackendRequest::Close { session: "beta".to_owned() };
    assert_eq!(hub.backend_answered(&closing, Ok(())), HubStep::Settled);
    assert_eq!(names(&hub), vec!["default", "alpha"]);
    assert!(!hub.collapsed.contains("beta"));
    assert!(hub.modal.is_none());
    assert_eq!(hub.status.as_deref(), Some("closed session beta"));
}

#[test]
fn a_refused_close_leaves_the_session_collapsed() {
    let mut hub = hub();
    pick(&mut hub, heading("alpha"));
    close_dialog(&mut hub, "alpha");
    let closing = || BackendRequest::Close { session: "alpha".to_owned() };
    assert_eq!(hub.submit_session_modal(), Ok(HubStep::Ask { request: closing() }));
    hub.backend_answered(&closing(), Err("busy".to_owned()));
    assert_eq!(modal_error(&hub), Some("busy"));
    assert!(hub.collapsed.contains("alpha"));
    assert_eq!(names(&hub), vec!["default", "alpha", "beta"]);
    assert!(!hub.sessions[1].summary_connected);
}

#[test]
fn the_only_session_cannot_be_closed() {
    let mut hub = HubState::start(vec![descriptor("solo", true)], "solo", 80, 24, bindings());
    close_dialog(&mut hub, "solo");
    assert_eq!(
        hub.submit_session_modal(),
        Err(ClientError::ConnectionLost(failure(IoErrorKind::Other, "no fallback session")))
    );
    assert!(hub.collapsed.contains("solo"));
}

#[test]
fn keys_edit_the_name_in_a_dialog() {
    let mut hub = hub();
    pick(&mut hub, HubRowTarget::NewSession);
    hub.set_modal_error("old".to_owned());
    let held = |modifiers| {
        RawInputEvent::Key(TerminalKey {
            code: KeyCode::Char('x'),
            modifiers,
            kind: KeyEventKind::Repeat,
        })
    };
    let events = [
        key(KeyCode::Char('a')),
        held(CONTROL),
        held(ALT),
        held(1),
        RawInputEvent::Other,
        RawInputEvent::Key(TerminalKey {
            code: KeyCode::Char('y'),
            modifiers: 0,
            kind: KeyEventKind::Release,
        }),
        key(KeyCode::Char('é')),
        key(KeyCode::Up),
        key(KeyCode::Backspace),
    ];
    assert_eq!(hub.handle_modal_input(&events, 0), Ok(ModalProgress::Finished));
    assert!(
        matches!(&hub.modal, Some(SessionModal::Create(modal)) if modal.name == "ax" && modal.error.is_none())
    );
    let erase = [key(KeyCode::Backspace), key(KeyCode::Backspace), key(KeyCode::Backspace)];
    hub.handle_modal_input(&erase, 0).unwrap();
    assert!(matches!(&hub.modal, Some(SessionModal::Create(modal)) if modal.name.is_empty()));
    let leave = [key(KeyCode::Esc), key(KeyCode::Char('z'))];
    assert_eq!(hub.handle_modal_input(&leave, 0), Ok(ModalProgress::Finished));
    assert!(hub.modal.is_none());
}

#[test]
fn modifier_bits_are_those_of_the_terminal() {
    assert_eq!(CONTROL, crossterm::event::KeyModifiers::CONTROL.bits());
    assert_eq!(ALT, crossterm::event::KeyModifiers::ALT.bits());
}

#[test]
fn names_stop_growing_at_the_limit() {
    let mut hub = hub();
    rename_dialog(&mut hub, "beta", "");
    let events: Vec<RawInputEvent> =
        std::iter::repeat(key(KeyCode::Char('é'))).take(40).collect();
    hub.handle_modal_input(&events, 0).unwrap();
    assert!(
        matches!(&hub.modal, Some(SessionModal::Rename { name, .. }) if name.len() == NAME_LIMIT)
    );
    rename_dialog(&mut hub, "beta", &"a".repeat(63));
    let events: Vec<RawInputEvent> =
        std::iter::repeat(key(KeyCode::Char('😀'))).take(2).collect();
    hub.handle_modal_input(&events, 0).unwrap();
    assert!(matches!(&hub.modal, Some(SessionModal::Rename { name, .. }) if name.len() == 67));
    close_dialog(&mut hub, "beta");
    hub.handle_modal_input(&[key(KeyCode::Char('a')), key(KeyCode::Backspace)], 0).unwrap();
    assert!(matches!(&hub.modal, Some(SessionModal::ConfirmClose { session, .. }) if session == "beta"));
}

#[test]
fn failures_of_effects_mean_what_they_cost() {
    let lost = || failure(IoErrorKind::BrokenPipe, "gone");
    assert_eq!(
        effect_failed(&Effect::MouseCapture { enabled: true, sgr_pixels: false }, lost()),
        Some(ClientError::ConnectionFailed(lost()))
    );
    let send = Effect::Send {
        role: ConnectionRole::Active,
        message: ClientMessage::Detach,
        required: true,
    };
    assert_eq!(effect_failed(&send, lost()), Some(ClientError::ConnectionLost(lost())));
    let farewell = Effect::Send {
        role: ConnectionRole::Active,
        message: ClientMessage::Detach,
        required: false,
    };
    assert_eq!(effect_failed(&farewell, lost()), None);
    assert_eq!(effect_failed(&Effect::WindowTitle { title: None }, lost()), None);
}

#[test]
fn roles_decide_how_a_connection_is_made() {
    assert_eq!(launch_mode(&ConnectionRole::Active), ClientLaunchMode::App);
    assert_eq!(launch_mode(&sidebar("a")), ClientLaunchMode::AppSidebar);
    assert_eq!(launch_mode(&summary("a")), ClientLaunchMode::SessionSummary);
    assert_eq!(stream_kind(&ConnectionRole::PreviousActive), HubStreamKind::App);
    assert_eq!(stream_kind(&sidebar("a")), HubStreamKind::Sidebar);
    assert_eq!(stream_kind(&summary("a")), HubStreamKind::Summary);
}

/// Acts on a list of open connections, and fails where an act makes no sense.
fn replay(open: &mut Vec<String>, acts: Vec<Act>) {
    for act in acts {
        match act {
            Act::Open(connection) => {
                let role = match connection.role {
                    ConnectionRole::Active => "PreviousActive".to_owned(),
                    role => format!("{role:?}"),
                };
                assert!(!open.contains(&role));
                open.push(role);
            }
            Act::Do(Effect::Send { role, .. }) => assert!(open.contains(&format!("{role:?}"))),
            Act::Do(Effect::Close { role }) => {
                let at = open.iter().position(|name| *name == format!("{role:?}"));
                open.remove(at.unwrap());
            }
            Act::Do(_) => {}
        }
    }
}

fn held(hub: &HubState) -> Vec<String> {
    let mut held = vec!["Active".to_owned()];
    for session in &hub.sessions {
        if session.summary_connected {
            held.push(format!("{:?}", summary(&session.name)));
        }
        if session.sidebar_connected {
            held.push(format!("{:?}", sidebar(&session.name)));
        }
    }
    held.sort();
    held
}

#[test]
fn effects_lead_to_the_connections_that_the_hub_holds() {
    let mut hub = hub();
    let mut open = vec!["Active".to_owned()];
    let mut check = |hub: &mut HubState, step: HubStep| {
        let (acts, step) = drive(hub, step);
        replay(&mut open, acts);
        open.sort();
        assert_eq!(open, held(hub));
        step
    };
    for name in ["alpha", "beta", "default", "alpha"] {
        let step = hub.activate_row(heading(name), true);
        check(&mut hub, step);
    }
    let step = hub.switch_active("beta", None);
    check(&mut hub, step);
    hub.resize(100, 30);
    check(&mut hub, HubStep::Settled);
    rename_dialog(&mut hub, "beta", "gamma");
    let step = hub.name_parsed(Ok(Some("gamma".to_owned())));
    check(&mut hub, step);
    let step = hub.rename_named_session("beta", "gamma");
    check(&mut hub, step);
    let step = hub.create_named_session("delta");
    check(&mut hub, step);
    close_dialog(&mut hub, "delta");
    let step = hub.submit_session_modal().unwrap();
    let step = check(&mut hub, step);
    assert!(matches!(step, HubStep::Ask { request: BackendRequest::Close { .. } }));
    hub.close_named_session("delta");
    check(&mut hub, HubStep::Settled);
    assert_eq!(names(&hub), vec!["alpha", "default", "gamma"]);
}

#[test]
fn names_lose_white_space_at_their_ends() {
    let mut hub = hub();
    rename_dialog(&mut hub, "beta", "\t\u{3000}\u{a0}a b\u{200b}\u{2009}\n");
    assert_eq!(
        hub.submit_session_modal(),
        Ok(HubStep::ParseName { requested: "a b\u{200b}".to_owned() })
    );
    rename_dialog(&mut hub, "beta", " \u{85} ");
    assert_eq!(
        hub.submit_session_modal(),
        Ok(HubStep::ParseName { requested: String::new() })
    );
}
