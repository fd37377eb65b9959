//! What the hub does in turn, and what it makes of the connections that it gets.

use crate::connections::{launch_mode_of, stream_kind_of, ClientLaunchMode, ConnectionView};
use crate::effects::{failure_of, EffectView, HubStreamKind, RoleView};
use crate::input_laws::{
    a_session_stands_where_its_name_first_is, frames_of, introduction, nothing_left, one_later,
    sidebar_frames_are_given_up_whole, summaries_of, without_frames_of,
};
use crate::protocol::{ErrorView, FailureView, MessageView};
use crate::sessions::{active_request, running_names};
use crate::state::{is_listed, place_of, session_named, ActiveView, HubView, SessionView};
use crate::steps::{idle, switch_plan, PlanView, RequestView, StepView, SwitchView};
use vstd::prelude::*;

verus! {

/// The hub with the named session's entry replaced.
pub open spec fn replaced(
    hub: HubView,
    after: HubView,
    name: Seq<char>,
    entry: SessionView,
) -> bool {
    &&& after.sessions.len() == hub.sessions.len()
    &&& forall|k: int|
        0 <= k < hub.sessions.len() ==> #[trigger] after.sessions[k] == if place_of(
            hub.sessions,
            name,
        ) == Some(k) {
            entry
        } else {
            hub.sessions[k]
        }
}

/// The effect of a farewell, whose failure is of no account.
pub open spec fn detaching(role: RoleView) -> EffectView {
    EffectView::Send { role, message: MessageView::Detach, required: false }
}

/// A plan that still needs summaries of a session asks for them first, and for nothing else.
pub proof fn summaries_come_first(hub: HubView, plan: PlanView, name: Seq<char>)
    requires
        plan.summary == Some(name),
        session_named(hub.sessions, name) matches Some(item) ==> !item.summary_connected,
    ensures
        hub.following(plan) == (
            HubView { next_generation: one_later(hub.next_generation), ..hub },
            StepView::Connect {
                connection: summaries_of(hub, name),
                plan: PlanView { summary: None, ..plan },
            },
        ),
{
}

/// Whether a plan needs no summaries any more.
pub open spec fn has_its_summaries(hub: HubView, plan: PlanView) -> bool {
    plan.summary matches Some(name) ==> (session_named(hub.sessions, name) matches Some(item)
        && item.summary_connected)
}

/// A plan that has its summaries and puts a session on the screen then asks for that connection,
/// and gives up the session's frames for the sidebar.
pub proof fn the_switch_comes_second(hub: HubView, plan: PlanView, switch: SwitchView)
    requires
        has_its_summaries(hub, plan),
        plan.switch == Some(switch),
    ensures
        hub.following(plan).1 == (StepView::Connect {
            connection: ConnectionView {
                role: RoleView::Active,
                session: switch.session,
                generation: hub.next_generation,
                workspace: switch.workspace,
                handshake: introduction(hub, ClientLaunchMode::App, hub.cols, hub.rows),
            },
            plan: PlanView { summary: None, switch: None, ..plan },
        }),
        hub.following(plan).0.next_generation == one_later(hub.next_generation),
        without_frames_of(
            hub,
            switch.session,
            (HubView { next_generation: hub.next_generation, ..hub.following(plan).0 }),
        ),
{
    sidebar_frames_are_given_up_whole(hub, switch.session);
    assert((HubView { next_generation: hub.next_generation, ..hub.following(plan).0 })
        == hub.without_sidebar(switch.session));
}

/// A plan that has its summaries and no switch then asks for the frames of a session that it shows
/// in the sidebar, unless they come or the session is on the screen.
pub proof fn sidebar_frames_come_third(hub: HubView, plan: PlanView, name: Seq<char>)
    requires
        has_its_summaries(hub, plan),
        plan.switch is None,
        plan.sidebar == Some(name),
        name != hub.active.name,
        session_named(hub.sessions, name) matches Some(item) ==> !item.sidebar_connected,
    ensures
        hub.following(plan) == (
            HubView { next_generation: one_later(hub.next_generation), ..hub },
            StepView::Connect {
                connection: frames_of(hub, name),
                plan: PlanView { summary: None, sidebar: None, ..plan },
            },
        ),
{
}

/// Whether a plan needs no connection any more.
pub open spec fn has_its_connections(hub: HubView, plan: PlanView) -> bool {
    &&& has_its_summaries(hub, plan)
    &&& plan.switch is None
    &&& plan.sidebar matches Some(name) ==> name == hub.active.name || (session_named(
        hub.sessions,
        name,
    ) matches Some(item) && item.sidebar_connected)
}

/// What is left of a plan then is done at once: the connection of the session that left the screen
/// is closed, the screen is out of date, and the dialog goes with a word of how it went. A session
/// to be closed loses its connections, and the host is asked to close it.
pub proof fn the_rest_needs_no_connection(hub: HubView, plan: PlanView)
    requires
        has_its_connections(hub, plan),
    ensures
        ({
            let done = HubView {
                effects: if plan.release {
                    hub.effects.push(EffectView::Close { role: RoleView::PreviousActive })
                } else {
                    hub.effects
                },
                repaint: hub.repaint || plan.repaint,
                modal: if plan.finish is Some {
                    None
                } else {
                    hub.modal
                },
                status: if plan.finish is Some {
                    plan.finish
                } else {
                    hub.status
                },
                ..hub
            };
            &&& plan.close is None ==> hub.following(plan) == (done, StepView::Settled)
            &&& plan.close matches Some(session) ==> {
                &&& hub.following(plan).1 == (StepView::Ask {
                    request: RequestView::Close { session },
                })
                &&& without_connections_of(done, session, hub.following(plan).0)
            }
        }),
{
    match plan.close {
        Some(session) => {
            let done = HubView {
                effects: if plan.release {
                    hub.effects.push(EffectView::Close { role: RoleView::PreviousActive })
                } else {
                    hub.effects
                },
                repaint: hub.repaint || plan.repaint,
                modal: if plan.finish is Some {
                    None
                } else {
                    hub.modal
                },
                status: if plan.finish is Some {
                    plan.finish
                } else {
                    hub.status
                },
                ..hub
            };
            connections_are_given_up_whole(done, session);
        },
        None => {},
    }
}

/// The hub without both of the named session's connections: over each that there is it says
/// farewell, then it closes them.
pub open spec fn without_connections_of(hub: HubView, name: Seq<char>, after: HubView) -> bool {
    match session_named(hub.sessions, name) {
        None => after == hub,
        Some(item) => {
            let summary = RoleView::Summary(name);
            let sidebar = RoleView::Sidebar(name);
            &&& after == (HubView { sessions: after.sessions, effects: after.effects, ..hub })
            &&& after.effects == hub.effects + match (
                item.summary_connected,
                item.sidebar_connected,
            ) {
                (true, true) => seq![
                    detaching(summary),
                    detaching(sidebar),
                    EffectView::Close { role: summary },
                    EffectView::Close { role: sidebar },
                ],
                (true, false) => seq![detaching(summary), EffectView::Close { role: summary }],
                (false, true) => seq![detaching(sidebar), EffectView::Close { role: sidebar }],
                (false, false) => Seq::empty(),
            }
            &&& replaced(
                hub,
                after,
                name,
                SessionView {
                    summary_connected: false,
                    sidebar_connected: false,
                    sidebar_frame: None,
                    ..item
                },
            )
        },
    }
}

/// Giving up a session's connections gives up each that there is, and what came over it for the
/// sidebar.
pub proof fn connections_are_given_up_whole(hub: HubView, name: Seq<char>)
    ensures
        without_connections_of(hub, name, hub.without_observers(name)),
{
    a_session_stands_where_its_name_first_is(hub.sessions, name);
    let after = hub.without_observers(name);
    let summary = RoleView::Summary(name);
    let sidebar = RoleView::Sidebar(name);
    match session_named(hub.sessions, name) {
        Some(item) => {
            assert(after.effects =~= hub.effects + match (
                item.summary_connected,
                item.sidebar_connected,
            ) {
                (true, true) => seq![
                    detaching(summary),
                    detaching(sidebar),
                    EffectView::Close { role: summary },
                    EffectView::Close { role: sidebar },
                ],
                (true, false) => seq![detaching(summary), EffectView::Close { role: summary }],
                (false, true) => seq![detaching(sidebar), EffectView::Close { role: sidebar }],
                (false, false) => Seq::empty(),
            });
        },
        None => {},
    }
}

/// A connection for summaries is noted with its generation, and its session runs; one that no
/// listed session has a use for is closed. Then the hub goes on with its plan.
pub proof fn summaries_are_noted(
    hub: HubView,
    connection: ConnectionView,
    plan: PlanView,
    name: Seq<char>,
) -> (noted: HubView)
    requires
        connection.role == RoleView::Summary(name),
    ensures
        hub.attempted(connection, plan, Ok(())) == (
            noted.following(plan).0,
            Ok::<StepView, ErrorView>(noted.following(plan).1),
        ),
        match session_named(hub.sessions, name) {
            Some(item) => noted == (HubView { sessions: noted.sessions, ..hub }) && replaced(
                hub,
                noted,
                name,
                SessionView {
                    running: true,
                    summary_connected: true,
                    summary_generation: connection.generation,
                    ..item
                },
            ),
            None => noted == (HubView {
                effects: hub.effects.push(EffectView::Close { role: RoleView::Summary(name) }),
                ..hub
            }),
        },
{
    a_session_stands_where_its_name_first_is(hub.sessions, name);
    hub.established(connection)
}

/// A connection for sidebar frames is noted with its generation, its session runs, and frames of an
/// earlier connection are forgotten; one that no listed session has a use for is closed. Then the
/// hub goes on with its plan.
pub proof fn sidebar_frames_are_noted(
    hub: HubView,
    connection: ConnectionView,
    plan: PlanView,
    name: Seq<char>,
) -> (noted: HubView)
    requires
        connection.role == RoleView::Sidebar(name),
    ensures
        hub.attempted(connection, plan, Ok(())) == (
            noted.following(plan).0,
            Ok::<StepView, ErrorView>(noted.following(plan).1),
        ),
        match session_named(hub.sessions, name) {
            Some(item) => noted == (HubView { sessions: noted.sessions, ..hub }) && replaced(
                hub,
                noted,
                name,
                SessionView {
                    running: true,
                    sidebar_connected: true,
                    sidebar_generation: connection.generation,
                    sidebar_frame: None,
                    ..item
                },
            ),
            None => noted == (HubView {
                effects: hub.effects.push(EffectView::Close { role: RoleView::Sidebar(name) }),
                ..hub
            }),
        },
{
    a_session_stands_where_its_name_first_is(hub.sessions, name);
    hub.established(connection)
}

/// Once the connection for the screen is there, its session is on the screen, without a frame yet,
/// and the one before is told farewell and let go. That one gets frames for the sidebar again where
/// it is listed there with its workspaces. The screen is out of date.
pub proof fn a_switch_puts_the_session_on_the_screen(
    hub: HubView,
    connection: ConnectionView,
    plan: PlanView,
)
    requires
        connection.role == RoleView::Active,
    ensures
        ({
            let switched = HubView {
                active: ActiveView {
                    name: connection.session,
                    generation: connection.generation,
                    frame: None,
                },
                effects: hub.effects.push(detaching(RoleView::PreviousActive)),
                ..hub
            };
            let rest = PlanView {
                sidebar: if hub.active.name != connection.session && !hub.collapsed.contains(
                    hub.active.name,
                ) && is_listed(hub.sessions, hub.active.name) {
                    Some(hub.active.name)
                } else {
                    plan.sidebar
                },
                release: true,
                repaint: true,
                ..plan
            };
            hub.attempted(connection, plan, Ok(())) == (
                switched.following(rest).0,
                Ok::<StepView, ErrorView>(switched.following(rest).1),
            )
        }),
{
}

/// A connection that fails stops the hub with the failure, and changes nothing.
pub proof fn a_failed_connection_stops_the_hub(
    hub: HubView,
    connection: ConnectionView,
    plan: PlanView,
    failure: FailureView,
)
    ensures
        hub.attempted(connection, plan, Err(failure)) == (
            hub,
            Err::<StepView, ErrorView>(ErrorView::ConnectionFailed(failure)),
        ),
{
}

/// At the start a connection for summaries that is there is noted as at any time, and one that
/// fails is told in the status and changes nothing else.
pub proof fn the_start_goes_on_without_summaries(
    hub: HubView,
    connection: ConnectionView,
    failure: FailureView,
)
    ensures
        hub.summary_attempted(connection, Err(failure)) == (HubView {
            status: Some(connection.session + ": "@ + failure.reason),
            ..hub
        }),
        ({
            let noted = hub.summary_attempted(connection, Ok(()));
            match session_named(hub.sessions, connection.session) {
                Some(item) => noted == (HubView { sessions: noted.sessions, ..hub }) && replaced(
                    hub,
                    noted,
                    connection.session,
                    SessionView {
                        running: true,
                        summary_connected: true,
                        summary_generation: connection.generation,
                        ..item
                    },
                ),
                None => noted == (HubView {
                    effects: hub.effects.push(
                        EffectView::Close { role: RoleView::Summary(connection.session) },
                    ),
                    ..hub
                }),
            }
        }),
{
    a_session_stands_where_its_name_first_is(hub.sessions, connection.session);
}

/// What the hub asks for when it needs a connection of each kind, and when it needs it.
pub proof fn connections_are_asked_for_where_they_lack(hub: HubView, name: Seq<char>)
    ensures
        hub.summary_request(name) == summaries_of(hub, name),
        hub.sidebar_request(name) == frames_of(hub, name),
        hub.past_next_generation() == (HubView {
            next_generation: one_later(hub.next_generation),
            ..hub
        }),
        hub.lacks_summary(name) == match session_named(hub.sessions, name) {
            Some(item) => !item.summary_connected,
            None => true,
        },
        hub.lacks_sidebar(name) == (name != hub.active.name && match session_named(
            hub.sessions,
            name,
        ) {
            Some(item) => !item.sidebar_connected,
            None => true,
        }),
        hub.awaits_summary(name) == match session_named(hub.sessions, name) {
            Some(item) => !item.summary_connected,
            None => false,
        },
{
}

/// The connection for the screen carries the session, the workspace and the size of the screen.
pub proof fn the_screen_is_asked_for_as_it_is(
    hub: HubView,
    session: Seq<char>,
    generation: u64,
    workspace: Option<Seq<char>>,
)
    ensures
        hub.switch_request(session, workspace) == active_request(
            session,
            hub.next_generation,
            hub.cols,
            hub.rows,
            workspace,
            hub.keybindings,
        ),
        active_request(session, generation, hub.cols, hub.rows, workspace, hub.keybindings) == (
        ConnectionView {
            role: RoleView::Active,
            session,
            generation,
            workspace,
            handshake: introduction(hub, ClientLaunchMode::App, hub.cols, hub.rows),
        }),
{
}

/// Connections say what they are for, and what comes over them is taken for that.
pub proof fn connections_say_what_they_are_for(name: Seq<char>)
    ensures
        launch_mode_of(RoleView::Active) == ClientLaunchMode::App,
        launch_mode_of(RoleView::PreviousActive) == ClientLaunchMode::App,
        launch_mode_of(RoleView::Summary(name)) == ClientLaunchMode::SessionSummary,
        launch_mode_of(RoleView::Sidebar(name)) == ClientLaunchMode::AppSidebar,
        stream_kind_of(RoleView::Active) == HubStreamKind::App,
        stream_kind_of(RoleView::PreviousActive) == HubStreamKind::App,
        stream_kind_of(RoleView::Summary(name)) == HubStreamKind::Summary,
        stream_kind_of(RoleView::Sidebar(name)) == HubStreamKind::Sidebar,
{
}

/// Only what the hub cannot do without stops it where it fails: a message that is required, and
/// switching the terminal's mouse reports.
pub proof fn only_what_is_required_stops_the_hub(effect: EffectView, failure: FailureView)
    ensures
        failure_of(effect, failure) == match effect {
            EffectView::Send { required, .. } => if required {
                Some(ErrorView::ConnectionLost(failure))
            } else {
                None
            },
            EffectView::MouseCapture { .. } => Some(ErrorView::ConnectionFailed(failure)),
            EffectView::Close { .. } => None,
            EffectView::Notify { .. } => None,
            EffectView::Clipboard { .. } => None,
            EffectView::WindowTitle { .. } => None,
        },
{
}

/// The names of the running sessions are those of the sessions that run, in their order.
pub proof fn running_sessions_are_those_that_run(sessions: Seq<SessionView>)
    ensures
        running_names(sessions) == sessions.filter(
            |session: SessionView| session.running,
        ).map_values(|session: SessionView| session.name),
    decreases sessions.len(),
{
    reveal(Seq::filter);
    let runs = |session: SessionView| session.running;
    let name = |session: SessionView| session.name;
    if sessions.len() > 0 {
        running_sessions_are_those_that_run(sessions.drop_last());
        let rest = sessions.drop_last().filter(runs);
        if sessions.last().running {
            assert(sessions.filter(runs) == rest.push(sessions.last()));
            assert(rest.push(sessions.last()).map_values(name) =~= rest.map_values(name).push(
                sessions.last().name,
            ));
        }
    } else {
        assert(sessions.filter(runs).map_values(name) =~= Seq::empty());
    }
}

/// Each of the hub's plain wishes is a plan of just that.
pub proof fn plans_hold_what_is_wished(session: Seq<char>, workspace: Option<Seq<char>>)
    ensures
        idle() == nothing_left(),
        switch_plan(session, workspace) == (PlanView {
            switch: Some(SwitchView { session, workspace }),
            ..nothing_left()
        }),
{
}

/// A session that leaves the screen for another is shown in the sidebar again where it is listed
/// there and not folded.
pub proof fn listed_sessions_stay_in_the_sidebar(
    hub: HubView,
    previous: Seq<char>,
    name: Seq<char>,
)
    ensures
        hub.keeps_watching(previous, name) == (previous != name && !hub.collapsed.contains(previous)
            && exists|i: int|
            0 <= i < hub.sessions.len() && (#[trigger] hub.sessions[i]).name == previous),
{
}

/// Once a connection is there, it is noted for what it is.
pub proof fn each_connection_is_noted_for_what_it_is(
    hub: HubView,
    name: Seq<char>,
    generation: u64,
)
    ensures
        ({
            let noted = hub.summary_established(name, generation);
            match session_named(hub.sessions, name) {
                Some(item) => noted == (HubView { sessions: noted.sessions, ..hub }) && replaced(
                    hub,
                    noted,
                    name,
                    SessionView {
                        running: true,
                        summary_connected: true,
                        summary_generation: generation,
                        ..item
                    },
                ),
                None => noted == (HubView {
                    effects: hub.effects.push(EffectView::Close { role: RoleView::Summary(name) }),
                    ..hub
                }),
            }
        }),
        ({
            let noted = hub.sidebar_established(name, generation);
            match session_named(hub.sessions, name) {
                Some(item) => noted == (HubView { sessions: noted.sessions, ..hub }) && replaced(
                    hub,
                    noted,
                    name,
                    SessionView {
                        running: true,
                        sidebar_connected: true,
                        sidebar_generation: generation,
                        sidebar_frame: None,
                        ..item
                    },
                ),
                None => noted == (HubView {
                    effects: hub.effects.push(EffectView::Close { role: RoleView::Sidebar(name) }),
                    ..hub
                }),
            }
        }),
        hub.switch_established(name, generation) == (HubView {
            active: ActiveView { name, generation, frame: None },
            effects: hub.effects.push(detaching(RoleView::PreviousActive)),
            ..hub
        }),
{
    a_session_stands_where_its_name_first_is(hub.sessions, name);
}

} // verus!
