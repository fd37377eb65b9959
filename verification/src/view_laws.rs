//! What views say of the values that they are views of: all of it.

use crate::connections::{ConnectionRequest, Handshake};
use crate::dialogs::{parsed_view, progress_view, ModalProgress, ParsedName, ProgressView};
use crate::effects::{effect_views, ConnectionRole, Effect, EffectView, RoleView};
use crate::frame::{text_views, CellData, FrameData};
use crate::input::{input_view, outcome_view, InputStep, InputView};
use crate::protocol::{
    text_view, ClientError, ClientMessage, ErrorView, FailureView, IoFailure, MessageView,
    ServerMessage, ServerView, SessionSidebarSummary, SessionSummary, WorkspaceCard,
};
use crate::rows::{row_views, HubRow, HubRowTarget, TargetView};
use crate::sessions::str_view;
use crate::state::{
    session_views, ActiveSession, HubSession, HubState, ModalView, SessionContextMenu, SessionModal,
};
use crate::steps::{
    answer_view, attempt_view, step_view, BackendRequest, HubStep, Plan, RequestView, StepView,
    Switch,
};
use vstd::prelude::*;

verus! {

/// The view of the hub says all that the hub holds.
pub proof fn the_view_of_the_hub(hub: HubState)
    ensures
        hub@.sessions.len() == hub.sessions@.len(),
        forall|i: int|
            0 <= i < hub.sessions@.len() ==> #[trigger] hub@.sessions[i] == hub.sessions@[i]@,
        hub@.collapsed == hub.collapsed@,
        hub@.active == hub.active@,
        hub@.next_generation == hub.next_generation,
        hub@.modal is Some == hub.modal is Some,
        hub.modal matches Some(modal) ==> hub@.modal == Some(modal@),
        hub@.session_menu is Some == hub.session_menu is Some,
        hub.session_menu matches Some(menu) ==> hub@.session_menu == Some(menu@),
        hub@.status is Some == hub.status is Some,
        hub.status matches Some(status) ==> hub@.status == Some(status@),
        hub@.cols == hub.cols,
        hub@.rows == hub.rows,
        hub@.repaint == hub.repaint,
        hub@.full_repaint == hub.full_repaint,
        hub@.keybindings == hub.keybindings.encoded@,
        hub@.server_overlay_session is Some == hub.server_overlay_session is Some,
        hub.server_overlay_session matches Some(session) ==> hub@.server_overlay_session == Some(
            session@,
        ),
        hub@.server_overlay_seen == hub.server_overlay_seen,
        hub@.effects.len() == hub.effects@.len(),
        forall|i: int|
            0 <= i < hub.effects@.len() ==> #[trigger] hub@.effects[i] == hub.effects@[i]@,
{
}

/// The views of sessions, dialogs and menus say all that these hold.
pub proof fn the_views_of_sessions_and_dialogs(
    session: HubSession,
    active: ActiveSession,
    menu: SessionContextMenu,
    modal: SessionModal,
)
    ensures
        session@.name == session.name@,
        session@.running == session.running,
        session@.summary is Some == session.summary is Some,
        session.summary matches Some(summary) ==> session@.summary == Some(summary@),
        session@.summary_generation == session.summary_generation,
        session@.summary_connected == session.summary_connected,
        session@.sidebar_generation == session.sidebar_generation,
        session@.sidebar_connected == session.sidebar_connected,
        session@.sidebar_frame is Some == session.sidebar_frame is Some,
        session.sidebar_frame matches Some(frame) ==> session@.sidebar_frame == Some(frame@),
        active@.name == active.name@,
        active@.generation == active.generation,
        active@.frame is Some == active.frame is Some,
        active.frame matches Some(frame) ==> active@.frame == Some(frame@),
        menu@.session == menu.session@,
        menu@.x == menu.x,
        menu@.y == menu.y,
        menu@.highlighted == menu.highlighted,
        match (modal, modal@) {
            (SessionModal::Create(held), ModalView::Create { name, error }) => {
                &&& name == held.name@
                &&& error is Some == held.error is Some
                &&& held.error matches Some(text) ==> error == Some(text@)
            },
            (
                SessionModal::Rename { session, name, error },
                ModalView::Rename { session: said, name: said_name, error: said_error },
            ) => {
                &&& said == session@
                &&& said_name == name@
                &&& said_error is Some == error is Some
                &&& error matches Some(text) ==> said_error == Some(text@)
            },
            (
                SessionModal::ConfirmClose { session, error },
                ModalView::ConfirmClose { session: said, error: said_error },
            ) => {
                &&& said == session@
                &&& said_error is Some == error is Some
                &&& error matches Some(text) ==> said_error == Some(text@)
            },
            _ => false,
        },
{
}

/// The views of frames, their cells and the layouts of sidebars say all that these hold.
pub proof fn the_views_of_frames_and_layouts(
    frame: FrameData,
    cell: CellData,
    card: WorkspaceCard,
    layout: SessionSidebarSummary,
    summary: SessionSummary,
)
    ensures
        frame@.width == frame.width,
        frame@.height == frame.height,
        frame@.cursor == frame.cursor,
        frame@.cells.len() == frame.cells@.len(),
        forall|i: int|
            0 <= i < frame.cells@.len() ==> #[trigger] frame@.cells[i] == frame.cells@[i]@,
        frame@.hyperlinks.len() == frame.hyperlinks@.len(),
        forall|i: int|
            0 <= i < frame.hyperlinks@.len() ==> #[trigger] frame@.hyperlinks[i]
                == frame.hyperlinks@[i]@,
        cell@.symbol == cell.symbol@,
        cell@.fg == cell.fg,
        cell@.bg == cell.bg,
        cell@.modifier == cell.modifier,
        cell@.skip == cell.skip,
        cell@.hyperlink == cell.hyperlink,
        card@.workspace_id == card.workspace_id@,
        card@.y == card.y,
        card@.height == card.height,
        layout@.width == layout.width,
        layout@.spaces_y == layout.spaces_y,
        layout@.spaces_height == layout.spaces_height,
        layout@.footer_y == layout.footer_y,
        layout@.cards.len() == layout.workspace_cards@.len(),
        forall|i: int|
            0 <= i < layout.workspace_cards@.len() ==> #[trigger] layout@.cards[i]
                == layout.workspace_cards@[i]@,
        summary@.overlay_active == summary.overlay_active,
        summary@.sidebar is Some == summary.sidebar is Some,
        summary.sidebar matches Some(told) ==> summary@.sidebar == Some(told@),
{
}

/// The views of messages to session servers, of roles and of effects say all that these hold.
pub proof fn the_views_of_messages_and_effects(
    message: ClientMessage,
    role: ConnectionRole,
    effect: Effect,
)
    ensures
        match message {
            ClientMessage::Resize { cols, rows, cell_width_px, cell_height_px } => message@ == (
            MessageView::Resize { cols, rows, cell_width_px, cell_height_px }),
            ClientMessage::Input { data } => message@ == (MessageView::Input { data: data@ }),
            ClientMessage::InputEvents { events } => message@ == (MessageView::InputEvents {
                events: events@,
            }),
            ClientMessage::ClipboardImage { extension, data } => message@ == (
            MessageView::ClipboardImage { extension: extension@, data: data@ }),
            ClientMessage::Detach => message@ == MessageView::Detach,
        },
        match role {
            ConnectionRole::Active => role@ == RoleView::Active,
            ConnectionRole::PreviousActive => role@ == RoleView::PreviousActive,
            ConnectionRole::Summary(session) => role@ == RoleView::Summary(session@),
            ConnectionRole::Sidebar(session) => role@ == RoleView::Sidebar(session@),
        },
        match (effect, effect@) {
            (
                Effect::Send { role, message, required },
                EffectView::Send { role: over, message: said, required: needed },
            ) => over == role@ && said == message@ && needed == required,
            (Effect::Close { role }, EffectView::Close { role: over }) => over == role@,
            (
                Effect::Notify { kind, text, body },
                EffectView::Notify { kind: said_kind, text: said, body: said_body },
            ) => {
                &&& said_kind == kind
                &&& said == text@
                &&& said_body is Some == body is Some
                &&& body matches Some(body) ==> said_body == Some(body@)
            },
            (Effect::Clipboard { data }, EffectView::Clipboard { data: said }) => said == data@,
            (Effect::WindowTitle { title }, EffectView::WindowTitle { title: said }) => {
                &&& said is Some == title is Some
                &&& title matches Some(title) ==> said == Some(title@)
            },
            (
                Effect::MouseCapture { enabled, sgr_pixels },
                EffectView::MouseCapture { enabled: on, sgr_pixels: pixels },
            ) => on == enabled && pixels == sgr_pixels,
            _ => false,
        },
{
}

/// The views of messages from session servers say all that the hub has a use for, and the views of
/// connections and failures all that these hold.
pub proof fn the_views_of_what_comes_in(
    message: ServerMessage,
    connection: ConnectionRequest,
    shake: Handshake,
    failure: IoFailure,
    error: ClientError,
)
    ensures
        match (message, message@) {
            (ServerMessage::Frame(frame), ServerView::Frame(said)) => said == frame@,
            (ServerMessage::CompressedFrame, ServerView::CompressedFrame) => true,
            (ServerMessage::SessionSummary(summary), ServerView::SessionSummary(said)) => said
                == summary@,
            (
                ServerMessage::Notify { kind, message: text, body },
                ServerView::Notify { kind: said_kind, message: said, body: said_body },
            ) => {
                &&& said_kind == kind
                &&& said == text@
                &&& said_body is Some == body is Some
                &&& body matches Some(body) ==> said_body == Some(body@)
            },
            (ServerMessage::Clipboard { data }, ServerView::Clipboard { data: said }) => said
                == data@,
            (ServerMessage::WindowTitle { title }, ServerView::WindowTitle { title: said }) => {
                &&& said is Some == title is Some
                &&& title matches Some(title) ==> said == Some(title@)
            },
            (
                ServerMessage::MouseCapture { enabled },
                ServerView::MouseCapture { enabled: said },
            ) => said == enabled,
            (
                ServerMessage::ServerShutdown { reason },
                ServerView::ServerShutdown { reason: said },
            ) => {
                &&& said is Some == reason is Some
                &&& reason matches Some(reason) ==> said == Some(reason@)
            },
            (_, said) => said is Unused && !(message is Frame) && !(message is CompressedFrame)
                && !(message is SessionSummary) && !(message is Notify) && !(message is Clipboard)
                && !(message is WindowTitle) && !(message is MouseCapture) && !(
            message is ServerShutdown),
        },
        connection@.role == connection.role@,
        connection@.session == connection.session@,
        connection@.generation == connection.generation,
        connection@.workspace is Some == connection.workspace is Some,
        connection.workspace matches Some(workspace) ==> connection@.workspace == Some(workspace@),
        connection@.handshake == connection.handshake@,
        shake@.cols == shake.cols,
        shake@.rows == shake.rows,
        shake@.cell_width_px == shake.cell_width_px,
        shake@.cell_height_px == shake.cell_height_px,
        shake@.encoding == shake.encoding,
        shake@.keybindings == shake.keybindings.encoded@,
        shake@.mode == shake.mode,
        failure@.kind == failure.kind,
        failure@.reason == failure.reason@,
        match error {
            ClientError::ConnectionFailed(failure) => error@ == ErrorView::ConnectionFailed(
                failure@,
            ),
            ClientError::ConnectionLost(failure) => error@ == ErrorView::ConnectionLost(failure@),
        },
{
}

/// The views of rows say all that these hold.
pub proof fn the_views_of_rows(row: HubRow, target: HubRowTarget)
    ensures
        row@.y == row.y,
        row@.target == row.target@,
        match target {
            HubRowTarget::Session(session) => target@ == TargetView::Session(session@),
            HubRowTarget::SpaceRow { session, workspace_id, original_y } => target@ == (
            TargetView::SpaceRow {
                session: session@,
                workspace_id: workspace_id@,
                original_y,
            }),
            HubRowTarget::SpaceGapRow { session, original_y } => target@ == (
            TargetView::SpaceGapRow { session: session@, original_y }),
            HubRowTarget::NewSession => target@ == TargetView::NewSession,
        },
{
}

/// The views of steps and of plans say all that these hold.
pub proof fn the_views_of_steps_and_plans(
    step: HubStep,
    plan: Plan,
    switch: Switch,
    request: BackendRequest,
    progress: ModalProgress,
    input: InputStep,
)
    ensures
        match step {
            HubStep::Settled => step@ == StepView::Settled,
            HubStep::Connect { connection, plan } => step@ == (StepView::Connect {
                connection: connection@,
                plan: plan@,
            }),
            HubStep::ParseName { requested } => step@ == (StepView::ParseName {
                requested: requested@,
            }),
            HubStep::Ask { request } => step@ == (StepView::Ask { request: request@ }),
        },
        plan@.summary is Some == plan.summary is Some,
        plan.summary matches Some(session) ==> plan@.summary == Some(session@),
        plan@.switch is Some == plan.switch is Some,
        plan.switch matches Some(switch) ==> plan@.switch == Some(switch@),
        plan@.sidebar is Some == plan.sidebar is Some,
        plan.sidebar matches Some(session) ==> plan@.sidebar == Some(session@),
        plan@.release == plan.release,
        plan@.repaint == plan.repaint,
        plan@.finish is Some == plan.finish is Some,
        plan.finish matches Some(status) ==> plan@.finish == Some(status@),
        plan@.close is Some == plan.close is Some,
        plan.close matches Some(session) ==> plan@.close == Some(session@),
        switch@.session == switch.session@,
        switch@.workspace is Some == switch.workspace is Some,
        switch.workspace matches Some(workspace) ==> switch@.workspace == Some(workspace@),
        match request {
            BackendRequest::Create { session } => request@ == (RequestView::Create {
                session: session@,
            }),
            BackendRequest::Rename { session, new_name } => request@ == (RequestView::Rename {
                session: session@,
                new_name: new_name@,
            }),
            BackendRequest::Close { session } => request@ == (RequestView::Close {
                session: session@,
            }),
        },
        match progress {
            ModalProgress::Finished => progress@ == ProgressView::Finished,
            ModalProgress::Waiting { next, step } => progress@ == (ProgressView::Waiting {
                next: next as int,
                step: step@,
            }),
        },
        match input {
            InputStep::Taken(step) => input@ == InputView::Taken(step@),
            InputStep::Modal(progress) => input@ == InputView::Modal(progress@),
            InputStep::Terminal => input@ == InputView::Terminal,
        },
{
}

/// The views of what an operation returns say which way it went, and all that it returns.
pub proof fn the_views_of_outcomes(
    step: Result<HubStep, ClientError>,
    outcome: Result<(), ClientError>,
    input: Result<InputStep, ClientError>,
    progress: Result<ModalProgress, ClientError>,
    attempt: Result<(), IoFailure>,
    answer: Result<(), String>,
    parsed: ParsedName,
)
    ensures
        match step {
            Ok(step) => step_view(Ok(step)) == Ok::<StepView, ErrorView>(step@),
            Err(error) => step_view(Err(error)) == Err::<StepView, ErrorView>(error@),
        },
        match outcome {
            Ok(_) => outcome_view(outcome) == Ok::<(), ErrorView>(()),
            Err(error) => outcome_view(outcome) == Err::<(), ErrorView>(error@),
        },
        match input {
            Ok(step) => input_view(input) == Ok::<InputView, ErrorView>(step@),
            Err(error) => input_view(input) == Err::<InputView, ErrorView>(error@),
        },
        match progress {
            Ok(came) => progress_view(progress) == Ok::<ProgressView, ErrorView>(came@),
            Err(error) => progress_view(progress) == Err::<ProgressView, ErrorView>(error@),
        },
        match attempt {
            Ok(_) => attempt_view(attempt) == Ok::<(), FailureView>(()),
            Err(failure) => attempt_view(attempt) == Err::<(), FailureView>(failure@),
        },
        match answer {
            Ok(_) => answer_view(answer) == Ok::<(), Seq<char>>(()),
            Err(reason) => answer_view(answer) == Err::<(), Seq<char>>(reason@),
        },
        match parsed {
            Ok(Some(name)) => parsed_view(parsed) == Ok::<Option<Seq<char>>, Seq<char>>(
                Some(name@),
            ),
            Ok(None) => parsed_view(parsed) == Ok::<Option<Seq<char>>, Seq<char>>(None),
            Err(reason) => parsed_view(parsed) == Err::<Option<Seq<char>>, Seq<char>>(reason@),
        },
{
}

/// The views of lists say each of their members, in their order, and those of optional values
/// whether there is one.
pub proof fn the_views_of_lists(
    rows: Seq<HubRow>,
    texts: Seq<String>,
    effects: Seq<Effect>,
    sessions: Seq<HubSession>,
    text: Option<String>,
    borrowed: Option<&str>,
    i: int,
)
    ensures
        row_views(rows).len() == rows.len(),
        0 <= i < rows.len() ==> row_views(rows)[i] == rows[i]@,
        text_views(texts).len() == texts.len(),
        0 <= i < texts.len() ==> text_views(texts)[i] == texts[i]@,
        effect_views(effects).len() == effects.len(),
        0 <= i < effects.len() ==> effect_views(effects)[i] == effects[i]@,
        session_views(sessions).len() == sessions.len(),
        0 <= i < sessions.len() ==> session_views(sessions)[i] == sessions[i]@,
        text_view(text) is Some == text is Some,
        text matches Some(held) ==> text_view(text) == Some(held@),
        str_view(borrowed) is Some == borrowed is Some,
        borrowed matches Some(held) ==> str_view(borrowed) == Some(held@),
{
}

} // verus!
