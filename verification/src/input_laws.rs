//! Where input goes.

use crate::connections::{ClientLaunchMode, ConnectionView, HandshakeView, RenderEncoding};
use crate::dialogs::pressed;
use crate::effects::{EffectView, RoleView};
use crate::frame::FrameView;
use crate::input::{
    first_look_of, look_step_of, menu_rect, mouse_finds_each_row, target_at, ClipboardImage,
    ImageLook, ImageSource, InputView, LookStep,
};
use crate::protocol::{
    ClientInputEvent, ClientMouseKind, ErrorView, FailureView, IoErrorKind, KeyCode, KeyEventKind,
    MessageView, MouseButton, MouseEvent, MouseEventKind, RawInputEvent, SidebarView, TerminalKey,
};
use crate::rows::{RowView, TargetView};
use crate::screen_laws::{
    in_sight, painted_width, paints_into, stands_for, workspace_rows_show_the_sessions_own,
};
use crate::state::{
    lemma_listed_has_place, place_of, session_named, HubView, MenuView, ModalView, SessionView,
};
use crate::steps::{PlanView, StepView};
use vstd::prelude::*;

verus! {

/// Whether nothing is open over the session on the screen that takes input.
pub open spec fn nothing_is_open(hub: HubView) -> bool {
    hub.modal is None && hub.session_menu is None && hub.server_overlay_session is None
}

/// Whether the mouse event is all that was read, and on the given row of the sidebar.
pub open spec fn mouse_is_on_row(
    hub: HubView,
    layout: SidebarView,
    events: Seq<RawInputEvent>,
    mouse: MouseEvent,
    i: int,
) -> bool {
    &&& hub.sidebar_layout() == Some(layout)
    &&& events == seq![RawInputEvent::Mouse(mouse)]
    &&& mouse.column < layout.width
    &&& 0 <= i < hub.rows().len()
    &&& hub.rows()[i].y == mouse.row
}

/// The connection over which a session can be told something: that of the screen for the session
/// there, for another the one that brings its frames for the sidebar.
pub open spec fn route(hub: HubView, session: Seq<char>) -> Option<RoleView> {
    if session == hub.active.name {
        Some(RoleView::Active)
    } else {
        match session_named(hub.sessions, session) {
            Some(item) => if item.sidebar_connected {
                Some(RoleView::Sidebar(session))
            } else {
                None
            },
            None => None,
        }
    }
}

/// The effect that tells something over a connection that the hub cannot do without.
pub open spec fn telling_over(role: RoleView, message: MessageView) -> EffectView {
    EffectView::Send { role, message, required: true }
}

/// The message that is one mouse event.
pub open spec fn one_mouse(
    kind: ClientMouseKind,
    column: u16,
    row: u16,
    modifiers: u8,
) -> MessageView {
    MessageView::InputEvents {
        events: seq![ClientInputEvent::Mouse { kind, column, row, modifiers }],
    }
}

/// Why the hub stops when a session is to be told something and there is no connection to it.
pub open spec fn no_route(session: Seq<char>) -> ErrorView {
    ErrorView::ConnectionLost(
        FailureView {
            kind: IoErrorKind::NotConnected,
            reason: "session "@ + session + " sidebar is not connected"@,
        },
    )
}

/// The handshake of a connection of the given kind for a screen of the given size.
pub open spec fn introduction(
    hub: HubView,
    mode: ClientLaunchMode,
    cols: u16,
    rows: u16,
) -> HandshakeView {
    HandshakeView {
        cols,
        rows,
        cell_width_px: 0,
        cell_height_px: 0,
        encoding: RenderEncoding::SemanticFrame,
        keybindings: hub.keybindings,
        mode,
    }
}

/// A plan with nothing left in it.
pub open spec fn nothing_left() -> PlanView {
    PlanView {
        summary: None,
        switch: None,
        sidebar: None,
        release: false,
        repaint: false,
        finish: None,
        close: None,
    }
}

/// The generation after one that was handed out.
pub open spec fn one_later(generation: u64) -> u64 {
    if generation < u64::MAX {
        (generation + 1) as u64
    } else {
        generation
    }
}

/// A message to a session goes over the connection that there is to it, and nothing else changes;
/// where there is none, the hub stops and nothing is sent.
pub proof fn messages_go_to_their_session(hub: HubView, session: Seq<char>, message: MessageView)
    ensures
        hub.telling(session, message) == match route(hub, session) {
            Some(role) => (
                HubView { effects: hub.effects.push(telling_over(role, message)), ..hub },
                Ok(()),
            ),
            None => (hub, Err(no_route(session))),
        },
{
}

/// A mouse event on a row that stands for one of a session's own screen is told to that session,
/// and to it alone, as in its own row; that holds of every session, on the screen or not. Only a
/// left click on a workspace of another session is not told. After a right click on a workspace
/// its session takes all input.
pub proof fn the_mouse_is_told_to_the_session_under_it(
    hub: HubView,
    layout: SidebarView,
    data: Seq<u8>,
    events: Seq<RawInputEvent>,
    mouse: MouseEvent,
    kind: ClientMouseKind,
    i: int,
    session: Seq<char>,
    original_y: u16,
)
    requires
        nothing_is_open(hub),
        mouse_is_on_row(hub, layout, events, mouse, i),
        stands_for(hub.rows()[i].target, session, original_y),
        mouse.wire_kind == Some(kind),
        session == hub.active.name || hub.rows()[i].target is SpaceGapRow || mouse.kind
            != MouseEventKind::Down(MouseButton::Left),
    ensures
        hub.local_input(data, events) == match route(hub, session) {
            Some(role) => (
                HubView {
                    effects: hub.effects.push(
                        telling_over(
                            role,
                            one_mouse(kind, mouse.column, original_y, mouse.modifiers),
                        ),
                    ),
                    server_overlay_session: if hub.rows()[i].target is SpaceRow && mouse.kind
                        == MouseEventKind::Down(MouseButton::Right) {
                        Some(session)
                    } else {
                        None
                    },
                    server_overlay_seen: if hub.rows()[i].target is SpaceRow && mouse.kind
                        == MouseEventKind::Down(MouseButton::Right) {
                        false
                    } else {
                        hub.server_overlay_seen
                    },
                    ..hub
                },
                Ok(InputView::Taken(StepView::Settled)),
            ),
            None => (hub, Err(no_route(session))),
        },
{
    mouse_finds_each_row(hub, i);
    assert(events[0] == RawInputEvent::Mouse(mouse));
}

/// What a session is told of the mouse is what the screen shows there: the cell under the mouse is
/// the one that the session's own frame has in the row and column that the session is told.
pub proof fn clicks_land_where_they_are_seen(
    hub: HubView,
    original: FrameView,
    layout: SidebarView,
    own: FrameView,
    data: Seq<u8>,
    events: Seq<RawInputEvent>,
    mouse: MouseEvent,
    kind: ClientMouseKind,
    i: int,
    session: Seq<char>,
    original_y: u16,
)
    requires
        nothing_is_open(hub),
        paints_into(hub, original, layout),
        mouse_is_on_row(hub, layout, events, mouse, i),
        stands_for(hub.rows()[i].target, session, original_y),
        mouse.wire_kind == Some(kind),
        session == hub.active.name || hub.rows()[i].target is SpaceGapRow || mouse.kind
            != MouseEventKind::Down(MouseButton::Left),
        route(hub, session) is Some,
        hub.session_frame(session) == Some(own),
        mouse.column < own.width,
        mouse.column < painted_width(original, layout),
        mouse.row * original.width + mouse.column < original.cells.len(),
        original_y * own.width + mouse.column < own.cells.len(),
    ensures
        exists|row: u16|
            {
                &&& hub.local_input(data, events).0.effects.last() == telling_over(
                    route(hub, session)->0,
                    #[trigger] one_mouse(kind, mouse.column, row, mouse.modifiers),
                )
                &&& hub.composed().cells[mouse.row * original.width + mouse.column]
                    == own.cells[row * own.width + mouse.column]
            },
{
    the_mouse_is_told_to_the_session_under_it(
        hub,
        layout,
        data,
        events,
        mouse,
        kind,
        i,
        session,
        original_y,
    );
    assert(in_sight(hub, original, mouse.row * original.width + mouse.column));
    workspace_rows_show_the_sessions_own(
        hub,
        original,
        layout,
        i,
        session,
        original_y,
        mouse.column as int,
    );
    let told = one_mouse(kind, mouse.column, original_y, mouse.modifiers);
    assert(hub.local_input(data, events).0.effects.last() == telling_over(
        route(hub, session)->0,
        told,
    ));
}

/// A mouse event that sessions are not told of does nothing on a row of a workspace or between
/// workspaces, but for a left click on another session's workspace.
pub proof fn what_is_not_told_changes_nothing(
    hub: HubView,
    layout: SidebarView,
    data: Seq<u8>,
    events: Seq<RawInputEvent>,
    mouse: MouseEvent,
    i: int,
    session: Seq<char>,
    original_y: u16,
)
    requires
        nothing_is_open(hub),
        mouse_is_on_row(hub, layout, events, mouse, i),
        stands_for(hub.rows()[i].target, session, original_y),
        mouse.wire_kind is None,
        session == hub.active.name || hub.rows()[i].target is SpaceGapRow || mouse.kind
            != MouseEventKind::Down(MouseButton::Left),
    ensures
        hub.local_input(data, events) == (
            hub,
            Ok::<InputView, ErrorView>(InputView::Taken(StepView::Settled)),
        ),
{
    mouse_finds_each_row(hub, i);
    assert(events[0] == RawInputEvent::Mouse(mouse));
}

/// The hub without the named session's connection for sidebar frames, over which it says farewell
/// first.
pub open spec fn without_frames_of(hub: HubView, name: Seq<char>, after: HubView) -> bool {
    match session_named(hub.sessions, name) {
        None => after == hub,
        Some(item) => {
            &&& after == (HubView { sessions: after.sessions, effects: after.effects, ..hub })
            &&& after.effects == hub.effects + if item.sidebar_connected {
                seq![
                    EffectView::Send {
                        role: RoleView::Sidebar(name),
                        message: MessageView::Detach,
                        required: false,
                    },
                    EffectView::Close { role: RoleView::Sidebar(name) },
                ]
            } else {
                Seq::empty()
            }
            &&& after.sessions.len() == hub.sessions.len()
            &&& forall|k: int|
                0 <= k < hub.sessions.len() ==> #[trigger] after.sessions[k] == if place_of(
                    hub.sessions,
                    name,
                ) == Some(k) {
                    SessionView {
                        sidebar_connected: false,
                        sidebar_frame: None,
                        sidebar_generation: 0,
                        ..hub.sessions[k]
                    }
                } else {
                    hub.sessions[k]
                }
        },
    }
}

/// Where a session stands in the list is where the first of its name is.
pub proof fn a_session_stands_where_its_name_first_is(
    sessions: Seq<SessionView>,
    name: Seq<char>,
)
    ensures
        match place_of(sessions, name) {
            Some(at) => {
                &&& 0 <= at < sessions.len()
                &&& sessions[at].name == name
                &&& session_named(sessions, name) == Some(sessions[at])
                &&& forall|i: int| 0 <= i < at ==> (#[trigger] sessions[i]).name != name
            },
            None => session_named(sessions, name) is None && forall|i: int|
                0 <= i < sessions.len() ==> (#[trigger] sessions[i]).name != name,
        },
{
    lemma_listed_has_place(sessions, name);
}

/// Giving up a session's sidebar frames says farewell over their connection, where there is one,
/// closes it and forgets what came over it.
pub proof fn sidebar_frames_are_given_up_whole(hub: HubView, name: Seq<char>)
    ensures
        without_frames_of(hub, name, hub.without_sidebar(name)),
{
    a_session_stands_where_its_name_first_is(hub.sessions, name);
    let after = hub.without_sidebar(name);
    match session_named(hub.sessions, name) {
        Some(item) => {
            assert(after.effects =~= hub.effects + if item.sidebar_connected {
                seq![
                    EffectView::Send {
                        role: RoleView::Sidebar(name),
                        message: MessageView::Detach,
                        required: false,
                    },
                    EffectView::Close { role: RoleView::Sidebar(name) },
                ]
            } else {
                Seq::empty()
            });
        },
        None => {},
    }
}

/// A left click on a workspace of another session asks for the connection that puts the session on
/// the screen with that workspace in focus, of the size of the screen, and gives up its connection
/// for sidebar frames. What is on the screen stays there until the connection is there.
pub proof fn clicking_a_workspace_switches_to_it(
    hub: HubView,
    layout: SidebarView,
    data: Seq<u8>,
    events: Seq<RawInputEvent>,
    mouse: MouseEvent,
    i: int,
    session: Seq<char>,
    workspace_id: Seq<char>,
    original_y: u16,
)
    requires
        nothing_is_open(hub),
        mouse_is_on_row(hub, layout, events, mouse, i),
        hub.rows()[i].target == (TargetView::SpaceRow { session, workspace_id, original_y }),
        session != hub.active.name,
        mouse.kind == MouseEventKind::Down(MouseButton::Left),
    ensures
        hub.local_input(data, events).1 == Ok::<InputView, ErrorView>(
            InputView::Taken(
                StepView::Connect {
                    connection: ConnectionView {
                        role: RoleView::Active,
                        session,
                        generation: hub.next_generation,
                        workspace: Some(workspace_id),
                        handshake: introduction(
                            hub,
                            ClientLaunchMode::App,
                            hub.cols,
                            hub.rows,
                        ),
                    },
                    plan: nothing_left(),
                },
            ),
        ),
        without_frames_of(
            hub,
            session,
            (HubView {
                next_generation: hub.next_generation,
                ..hub.local_input(data, events).0
            }),
        ),
        hub.local_input(data, events).0.next_generation == one_later(hub.next_generation),
{
    mouse_finds_each_row(hub, i);
    assert(events[0] == RawInputEvent::Mouse(mouse));
    sidebar_frames_are_given_up_whole(hub, session);
    let after = hub.local_input(data, events).0;
    assert((HubView { next_generation: hub.next_generation, ..after }) == hub.without_sidebar(
        session,
    ));
}

/// A right click on a heading opens the menu of its session at the mouse, with the first entry
/// highlighted, but for the default session.
pub proof fn right_clicking_a_heading_opens_its_menu(
    hub: HubView,
    layout: SidebarView,
    data: Seq<u8>,
    events: Seq<RawInputEvent>,
    mouse: MouseEvent,
    i: int,
    session: Seq<char>,
)
    requires
        nothing_is_open(hub),
        mouse_is_on_row(hub, layout, events, mouse, i),
        hub.rows()[i].target == TargetView::Session(session),
        mouse.kind == MouseEventKind::Down(MouseButton::Right),
    ensures
        hub.local_input(data, events) == (
            if session == "default"@ {
                hub
            } else {
                HubView {
                    session_menu: Some(
                        MenuView { session, x: mouse.column, y: mouse.row, highlighted: 0 },
                    ),
                    repaint: true,
                    ..hub
                }
            },
            Ok::<InputView, ErrorView>(InputView::Taken(StepView::Settled)),
        ),
{
    mouse_finds_each_row(hub, i);
    assert(events[0] == RawInputEvent::Mouse(mouse));
}

/// The mouse does nothing on a heading or on the row that makes a new session but by a left or
/// right click.
pub proof fn other_mouse_events_leave_headings_alone(
    hub: HubView,
    layout: SidebarView,
    data: Seq<u8>,
    events: Seq<RawInputEvent>,
    mouse: MouseEvent,
    i: int,
)
    requires
        nothing_is_open(hub),
        mouse_is_on_row(hub, layout, events, mouse, i),
        hub.rows()[i].target is Session || hub.rows()[i].target is NewSession,
        mouse.kind != MouseEventKind::Down(MouseButton::Left),
        mouse.kind != MouseEventKind::Down(MouseButton::Right) || hub.rows()[i].target
            is NewSession,
    ensures
        hub.local_input(data, events) == (
            hub,
            Ok::<InputView, ErrorView>(InputView::Taken(StepView::Settled)),
        ),
{
    mouse_finds_each_row(hub, i);
    assert(events[0] == RawInputEvent::Mouse(mouse));
}

/// A left click on the row that makes a new session opens its dialog, with no name typed yet.
pub proof fn clicking_the_new_session_row_opens_its_dialog(
    hub: HubView,
    layout: SidebarView,
    data: Seq<u8>,
    events: Seq<RawInputEvent>,
    mouse: MouseEvent,
    i: int,
)
    requires
        nothing_is_open(hub),
        mouse_is_on_row(hub, layout, events, mouse, i),
        hub.rows()[i].target is NewSession,
        mouse.kind == MouseEventKind::Down(MouseButton::Left),
    ensures
        hub.local_input(data, events) == (
            HubView {
                modal: Some(ModalView::Create { name: Seq::empty(), error: None }),
                repaint: true,
                ..hub
            },
            Ok::<InputView, ErrorView>(InputView::Taken(StepView::Settled)),
        ),
{
    mouse_finds_each_row(hub, i);
    assert(events[0] == RawInputEvent::Mouse(mouse));
}

/// A left click on a heading does what choosing its row does, and the screen is then out of date.
pub proof fn clicking_a_heading_chooses_it(
    hub: HubView,
    layout: SidebarView,
    data: Seq<u8>,
    events: Seq<RawInputEvent>,
    mouse: MouseEvent,
    i: int,
    session: Seq<char>,
)
    requires
        nothing_is_open(hub),
        mouse_is_on_row(hub, layout, events, mouse, i),
        hub.rows()[i].target == TargetView::Session(session),
        mouse.kind == MouseEventKind::Down(MouseButton::Left),
    ensures
        hub.local_input(data, events).0 == hub.activated(TargetView::Session(session), true).0,
        hub.local_input(data, events).1 == Ok::<InputView, ErrorView>(
            InputView::Taken(hub.activated(TargetView::Session(session), true).1),
        ),
{
    mouse_finds_each_row(hub, i);
    assert(events[0] == RawInputEvent::Mouse(mouse));
}

/// The connection that brings summaries of a session: the least that a screen can be.
pub open spec fn summaries_of(hub: HubView, session: Seq<char>) -> ConnectionView {
    ConnectionView {
        role: RoleView::Summary(session),
        session,
        generation: hub.next_generation,
        workspace: None,
        handshake: introduction(hub, ClientLaunchMode::SessionSummary, 1, 1),
    }
}

/// The connection that brings frames of a session for the sidebar: of the size of the screen.
pub open spec fn frames_of(hub: HubView, session: Seq<char>) -> ConnectionView {
    ConnectionView {
        role: RoleView::Sidebar(session),
        session,
        generation: hub.next_generation,
        workspace: None,
        handshake: introduction(hub, ClientLaunchMode::AppSidebar, hub.cols, hub.rows),
    }
}

/// Choosing the heading of a folded session unfolds it and asks for what it lacks to be shown: its
/// summaries, and after them its frames, unless it is on the screen.
pub proof fn choosing_a_folded_heading_unfolds_it(
    hub: HubView,
    name: Seq<char>,
    item: SessionView,
    repaint: bool,
)
    requires
        session_named(hub.sessions, name) == Some(item),
        hub.collapsed.contains(name),
    ensures
        hub.activated(TargetView::Session(name), repaint) == if !item.summary_connected {
            (
                HubView {
                    collapsed: hub.collapsed.remove(name),
                    next_generation: one_later(hub.next_generation),
                    ..hub
                },
                StepView::Connect {
                    connection: summaries_of(hub, name),
                    plan: PlanView { sidebar: Some(name), repaint, ..nothing_left() },
                },
            )
        } else if name != hub.active.name && !item.sidebar_connected {
            (
                HubView {
                    collapsed: hub.collapsed.remove(name),
                    next_generation: one_later(hub.next_generation),
                    ..hub
                },
                StepView::Connect {
                    connection: frames_of(hub, name),
                    plan: PlanView { repaint, ..nothing_left() },
                },
            )
        } else {
            (
                HubView {
                    collapsed: hub.collapsed.remove(name),
                    repaint: hub.repaint || repaint,
                    ..hub
                },
                StepView::Settled,
            )
        },
{
}

/// Choosing the heading of a session that is not folded asks for its summaries where it lacks them;
/// else it folds the session and gives up its frames.
pub proof fn choosing_an_unfolded_heading_folds_it(
    hub: HubView,
    name: Seq<char>,
    item: SessionView,
    repaint: bool,
)
    requires
        session_named(hub.sessions, name) == Some(item),
        !hub.collapsed.contains(name),
    ensures
        !item.summary_connected ==> hub.activated(TargetView::Session(name), repaint) == (
            HubView { next_generation: one_later(hub.next_generation), ..hub },
            StepView::Connect {
                connection: summaries_of(hub, name),
                plan: PlanView { repaint, ..nothing_left() },
            },
        ),
        item.summary_connected ==> {
            let (after, step) = hub.activated(TargetView::Session(name), repaint);
            &&& step == StepView::Settled
            &&& after.collapsed == hub.collapsed.insert(name)
            &&& after.repaint == (hub.repaint || repaint)
            &&& without_frames_of(
                hub,
                name,
                (HubView { collapsed: hub.collapsed, repaint: hub.repaint, ..after }),
            )
        },
{
    sidebar_frames_are_given_up_whole(hub, name);
    if item.summary_connected {
        let (after, step) = hub.activated(TargetView::Session(name), repaint);
        assert((HubView { collapsed: hub.collapsed, repaint: hub.repaint, ..after })
            == hub.without_sidebar(name));
    }
}

proof fn lemma_no_target(rows: Seq<RowView>, y: u16)
    requires
        forall|i: int| 0 <= i < rows.len() ==> (#[trigger] rows[i]).y != y,
    ensures
        target_at(rows, y) is None,
    decreases rows.len(),
{
    if rows.len() > 0 {
        let rest = rows.drop_first();
        assert(rows[0].y != y);
        assert forall|i: int| 0 <= i < rest.len() implies (#[trigger] rest[i]).y != y by {
            assert(rest[i] == rows[i + 1]);
        }
        lemma_no_target(rest, y);
    }
}

/// The mouse beside the sidebar, or in a part of it without a row, is told to the session on the
/// screen, where it is.
pub proof fn the_mouse_elsewhere_is_for_the_session_on_the_screen(
    hub: HubView,
    data: Seq<u8>,
    events: Seq<RawInputEvent>,
    mouse: MouseEvent,
)
    requires
        nothing_is_open(hub),
        events == seq![RawInputEvent::Mouse(mouse)],
        hub.sidebar_layout() is None || mouse.column >= hub.sidebar_layout()->0.width || forall|
            i: int,
        |
            0 <= i < hub.rows().len() ==> (#[trigger] hub.rows()[i]).y != mouse.row,
    ensures
        hub.local_input(data, events) == (
            match mouse.wire_kind {
                Some(kind) => HubView {
                    effects: hub.effects.push(
                        telling_over(
                            RoleView::Active,
                            one_mouse(kind, mouse.column, mouse.row, mouse.modifiers),
                        ),
                    ),
                    ..hub
                },
                None => hub,
            },
            Ok::<InputView, ErrorView>(InputView::Taken(StepView::Settled)),
        ),
{
    assert(events[0] == RawInputEvent::Mouse(mouse));
    if hub.sidebar_layout() is Some && mouse.column < hub.sidebar_layout()->0.width {
        lemma_no_target(hub.rows(), mouse.row);
    }
}

/// What a session that takes all input is told of some: the mouse where it is, where sessions are
/// told of it at all, and all else as it was read.
pub open spec fn all_of_it(data: Seq<u8>, events: Seq<RawInputEvent>) -> Option<MessageView> {
    match (events.len() == 1, events[0]) {
        (true, RawInputEvent::Mouse(mouse)) => match mouse.wire_kind {
            Some(kind) => Some(one_mouse(kind, mouse.column, mouse.row, mouse.modifiers)),
            None => None,
        },
        _ => Some(MessageView::Input { data }),
    }
}

/// While a session shows something that takes all input, all input is told to it, and to it alone.
pub proof fn an_overlay_takes_all_input(
    hub: HubView,
    session: Seq<char>,
    data: Seq<u8>,
    events: Seq<RawInputEvent>,
)
    requires
        hub.modal is None,
        hub.session_menu is None,
        hub.server_overlay_session == Some(session),
    ensures
        hub.local_input(data, events) == match (all_of_it(data, events), route(hub, session)) {
            (Some(message), Some(role)) => (
                HubView { effects: hub.effects.push(telling_over(role, message)), ..hub },
                Ok(InputView::Taken(StepView::Settled)),
            ),
            (Some(_), None) => (hub, Err(no_route(session))),
            (None, _) => (hub, Ok(InputView::Taken(StepView::Settled))),
        },
{
}

/// Where nothing is open, input that is not one mouse event is for the session on the screen, and
/// the hub stays as it is.
pub proof fn other_input_is_for_the_session_on_the_screen(
    hub: HubView,
    data: Seq<u8>,
    events: Seq<RawInputEvent>,
)
    requires
        nothing_is_open(hub),
        events.len() != 1 || !(events[0] is Mouse),
    ensures
        hub.local_input(data, events) == (hub, Ok::<InputView, ErrorView>(InputView::Terminal)),
{
}

/// Input for the session on the screen is told to it: an image in place of the bytes that were
/// read, and nothing where a pasted image is over the limit.
pub proof fn images_go_in_place_of_input(
    hub: HubView,
    data: Seq<u8>,
    source: ImageSource,
    limit: usize,
)
    ensures
        hub.routed(data, source, limit) == match source {
            ImageSource::Pasted(image) if image.bytes@.len() > limit => hub,
            ImageSource::Pasted(image) => HubView {
                effects: hub.effects.push(
                    telling_over(
                        RoleView::Active,
                        MessageView::ClipboardImage {
                            extension: image.extension@,
                            data: image.bytes@,
                        },
                    ),
                ),
                ..hub
            },
            ImageSource::Dropped(image) => HubView {
                effects: hub.effects.push(
                    telling_over(
                        RoleView::Active,
                        MessageView::ClipboardImage {
                            extension: image.extension@,
                            data: image.bytes@,
                        },
                    ),
                ),
                ..hub
            },
            ImageSource::Absent => HubView {
                effects: hub.effects.push(
                    telling_over(RoleView::Active, MessageView::Input { data }),
                ),
                ..hub
            },
        },
{
}

/// An image is looked for on the clipboard only where the input asks to paste, and in a dropped
/// file where there is none on the clipboard; what was found first goes with the input.
pub proof fn the_clipboard_comes_before_a_dropped_file(
    image: ClipboardImage,
    look: ImageLook,
)
    ensures
        first_look_of(true) == ImageLook::Clipboard,
        first_look_of(false) == ImageLook::Drop,
        look_step_of(ImageLook::Clipboard, Some(image)) == LookStep::Found(
            ImageSource::Pasted(image),
        ),
        look_step_of(ImageLook::Drop, Some(image)) == LookStep::Found(
            ImageSource::Dropped(image),
        ),
        look_step_of(ImageLook::Clipboard, None) == LookStep::Look(ImageLook::Drop),
        look_step_of(ImageLook::Drop, None) == LookStep::Found(ImageSource::Absent),
{
}

/// A left click on an entry of the open menu opens the dialog of the entry that is drawn in the row
/// of the click: to rename the menu's session, with its name to start from, in the first row inside
/// the menu's border, and to close it in the second.
pub proof fn clicks_choose_the_entry_under_them(
    hub: HubView,
    menu: MenuView,
    data: Seq<u8>,
    events: Seq<RawInputEvent>,
    mouse: MouseEvent,
)
    requires
        hub.modal is None,
        hub.session_menu == Some(menu),
        events.len() > 0,
        events[0] == RawInputEvent::Mouse(mouse),
        mouse.kind == MouseEventKind::Down(MouseButton::Left),
    ensures
        ({
            let rect = menu_rect(menu, hub.cols, hub.rows);
            let (after, outcome) = hub.local_input(data, events);
            &&& outcome == Ok::<InputView, ErrorView>(InputView::Taken(StepView::Settled))
            &&& after == (HubView {
                session_menu: None,
                repaint: true,
                modal: if rect.x < mouse.column < rect.x + rect.width - 1 && mouse.row == rect.y
                    + 1 {
                    Some(
                        ModalView::Rename {
                            session: menu.session,
                            name: menu.session,
                            error: None,
                        },
                    )
                } else if rect.x < mouse.column < rect.x + rect.width - 1 && mouse.row == rect.y
                    + 2 {
                    Some(ModalView::ConfirmClose { session: menu.session, error: None })
                } else {
                    None
                },
                ..hub
            })
        }),
{
}

/// With the menu open, escape closes it, the arrows go to the other entry, enter opens the dialog
/// of the highlighted one, and other keys do nothing. Only the first event that was read counts.
pub proof fn keys_walk_the_menu(
    hub: HubView,
    menu: MenuView,
    data: Seq<u8>,
    events: Seq<RawInputEvent>,
    key: TerminalKey,
)
    requires
        hub.modal is None,
        hub.session_menu == Some(menu),
        events.len() > 0,
        events[0] == RawInputEvent::Key(key),
    ensures
        ({
            let (after, outcome) = hub.local_input(data, events);
            let seen = HubView { repaint: true, ..hub };
            &&& outcome == Ok::<InputView, ErrorView>(InputView::Taken(StepView::Settled))
            &&& after == if key.kind == KeyEventKind::Release {
                seen
            } else {
                match key.code {
                    KeyCode::Esc => HubView { session_menu: None, ..seen },
                    KeyCode::Up | KeyCode::Down => HubView {
                        session_menu: Some(
                            MenuView {
                                highlighted: if menu.highlighted == 0 {
                                    1
                                } else {
                                    0
                                },
                                ..menu
                            },
                        ),
                        ..seen
                    },
                    KeyCode::Enter => HubView {
                        session_menu: None,
                        modal: Some(
                            if menu.highlighted == 0 {
                                ModalView::Rename {
                                    session: menu.session,
                                    name: menu.session,
                                    error: None,
                                }
                            } else {
                                ModalView::ConfirmClose { session: menu.session, error: None }
                            },
                        ),
                        ..seen
                    },
                    _ => seen,
                }
            }
        }),
{
}

/// With the menu open, other events change nothing but that the screen is out of date, and without
/// any event nothing happens.
pub proof fn other_events_leave_the_menu_open(
    hub: HubView,
    data: Seq<u8>,
    events: Seq<RawInputEvent>,
)
    requires
        hub.modal is None,
        hub.session_menu is Some,
        events.len() > 0 ==> match events[0] {
            RawInputEvent::Key(_) => false,
            RawInputEvent::Mouse(mouse) => mouse.kind != MouseEventKind::Down(MouseButton::Left),
            RawInputEvent::Other => true,
        },
    ensures
        hub.local_input(data, events) == (
            HubView { repaint: hub.repaint || events.len() > 0, ..hub },
            Ok::<InputView, ErrorView>(InputView::Taken(StepView::Settled)),
        ),
{
}

/// Enter in a menu, or a click, opens the dialog of the highlighted entry in the menu's place.
pub proof fn the_highlighted_entry_opens_its_dialog(hub: HubView)
    ensures
        hub.menu_chosen() == match hub.session_menu {
            None => hub,
            Some(menu) => HubView {
                session_menu: None,
                modal: Some(
                    if menu.highlighted == 0 {
                        ModalView::Rename {
                            session: menu.session,
                            name: menu.session,
                            error: None,
                        }
                    } else {
                        ModalView::ConfirmClose { session: menu.session, error: None }
                    },
                ),
                ..hub
            },
        },
{
}

/// With its menu open the hub takes the same input in the same way, whether or not the screen is
/// then out of date.
pub proof fn a_menu_takes_the_first_event(
    hub: HubView,
    data: Seq<u8>,
    events: Seq<RawInputEvent>,
)
    requires
        hub.modal is None,
        hub.session_menu is Some,
    ensures
        hub.local_input(data, events).0 == (HubView {
            repaint: hub.local_input(data, events).0.repaint,
            ..hub.menu_input(events)
        }),
        events.len() == 0 ==> hub.menu_input(events) == hub,
        events.len() > 0 ==> hub.menu_input(events) == hub.menu_input(seq![events[0]]),
        hub.menu_input(events).repaint == hub.repaint,
{
}

/// All input that is sent on to a session goes to it: the mouse where it is, all else as it was
/// read.
pub proof fn input_is_sent_on_whole(
    hub: HubView,
    session: Seq<char>,
    data: Seq<u8>,
    events: Seq<RawInputEvent>,
)
    ensures
        hub.forwarding(session, data, events) == match (
            all_of_it(data, events),
            route(hub, session),
        ) {
            (Some(message), Some(role)) => (
                HubView { effects: hub.effects.push(telling_over(role, message)), ..hub },
                Ok(()),
            ),
            (Some(_), None) => (hub, Err(no_route(session))),
            (None, _) => (hub, Ok(())),
        },
{
}

/// A key counts where it goes down or repeats.
pub proof fn keys_count_when_they_go_down(key: TerminalKey, mouse: MouseEvent)
    ensures
        pressed(RawInputEvent::Key(key)) == if key.kind == KeyEventKind::Release {
            None
        } else {
            Some(key)
        },
        pressed(RawInputEvent::Mouse(mouse)) is None,
        pressed(RawInputEvent::Other) is None,
{
}

/// Choosing the row that makes a new session opens its dialog; choosing a row of a workspace, or
/// one between workspaces, does nothing.
pub proof fn choosing_another_row(
    hub: HubView,
    session: Seq<char>,
    workspace_id: Seq<char>,
    original_y: u16,
    repaint: bool,
)
    ensures
        hub.activated(TargetView::NewSession, repaint) == (
            HubView {
                modal: Some(ModalView::Create { name: Seq::empty(), error: None }),
                repaint: hub.repaint || repaint,
                ..hub
            },
            StepView::Settled,
        ),
        hub.activated(TargetView::SpaceRow { session, workspace_id, original_y }, repaint) == (
            HubView { repaint: hub.repaint || repaint, ..hub },
            StepView::Settled,
        ),
        hub.activated(TargetView::SpaceGapRow { session, original_y }, repaint) == (
            HubView { repaint: hub.repaint || repaint, ..hub },
            StepView::Settled,
        ),
{
}

/// Choosing the heading of a session that is not listed any more folds it or unfolds it.
pub proof fn choosing_the_heading_of_a_session_that_is_gone(
    hub: HubView,
    name: Seq<char>,
    repaint: bool,
)
    requires
        session_named(hub.sessions, name) is None,
        name != hub.active.name,
    ensures
        hub.collapsed.contains(name) ==> hub.activated(TargetView::Session(name), repaint) == (
            HubView {
                collapsed: hub.collapsed.remove(name),
                next_generation: one_later(hub.next_generation),
                ..hub
            },
            StepView::Connect {
                connection: frames_of(hub, name),
                plan: PlanView { repaint, ..nothing_left() },
            },
        ),
        !hub.collapsed.contains(name) ==> hub.activated(TargetView::Session(name), repaint) == (
            HubView {
                collapsed: hub.collapsed.insert(name),
                repaint: hub.repaint || repaint,
                ..hub
            },
            StepView::Settled,
        ),
{
}

} // verus!
