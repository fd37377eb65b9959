//! What the hub makes of what it hears from session servers and of the terminal's size.

use crate::effects::{EffectView, HubStreamKind, RoleView};
use crate::events::{read_limit_of, reader_step_of, to_sidebars, ReadOutcome, ReaderStep};
use crate::frame::FrameView;
use crate::input_laws::{a_session_stands_where_its_name_first_is, telling_over};
use crate::protocol::{MessageView, ServerView, SummaryView};
use crate::sessions::farewell;
use crate::state::{session_named, ActiveView, HubView, SessionView};
use crate::step_laws::{detaching, replaced};
use vstd::prelude::*;

verus! {

/// How a session is told of a new size.
pub open spec fn new_size(cols: u16, rows: u16) -> MessageView {
    MessageView::Resize { cols, rows, cell_width_px: 0, cell_height_px: 0 }
}

/// The sessions that the sidebar gets frames of.
pub open spec fn watched(sessions: Seq<SessionView>) -> Seq<SessionView> {
    sessions.filter(|session: SessionView| session.sidebar_connected)
}

proof fn lemma_to_sidebars(sessions: Seq<SessionView>, message: MessageView)
    ensures
        to_sidebars(sessions, message) == watched(sessions).map_values(
            |session: SessionView| telling_over(RoleView::Sidebar(session.name), message),
        ),
    decreases sessions.len(),
{
    reveal(Seq::filter);
    let tells = |session: SessionView| telling_over(RoleView::Sidebar(session.name), message);
    if sessions.len() > 0 {
        lemma_to_sidebars(sessions.drop_last(), message);
        let rest = watched(sessions.drop_last());
        if sessions.last().sidebar_connected {
            assert(watched(sessions) == rest.push(sessions.last()));
            assert(rest.push(sessions.last()).map_values(tells) =~= rest.map_values(tells).push(
                tells(sessions.last()),
            ));
        } else {
            assert(watched(sessions) == rest);
        }
    } else {
        assert(watched(sessions).map_values(tells) =~= Seq::empty());
    }
}

proof fn lemma_watched(sessions: Seq<SessionView>, k: int) -> (place: int)
    requires
        0 <= k < sessions.len(),
        sessions[k].sidebar_connected,
    ensures
        0 <= place < watched(sessions).len(),
        watched(sessions)[place] == sessions[k],
    decreases sessions.len(),
{
    reveal(Seq::filter);
    if k == sessions.len() - 1 {
        watched(sessions.drop_last()).len() as int
    } else {
        lemma_watched(sessions.drop_last(), k)
    }
}

/// All that show a screen are told of its new size: the session on the screen, then each session
/// that the sidebar gets frames of, in their order, and no other. The hub takes the size, and the
/// whole screen is to be written again.
pub proof fn all_that_show_a_screen_are_told_its_size(hub: HubView, cols: u16, rows: u16)
    ensures
        hub.resized(cols, rows) == (HubView {
            cols,
            rows,
            repaint: true,
            full_repaint: true,
            effects: hub.effects + seq![telling_over(RoleView::Active, new_size(cols, rows))]
                + watched(hub.sessions).map_values(
                |session: SessionView|
                    telling_over(RoleView::Sidebar(session.name), new_size(cols, rows)),
            ),
            ..hub
        }),
{
    lemma_to_sidebars(hub.sessions, new_size(cols, rows));
    assert(hub.resized(cols, rows).effects =~= hub.effects + seq![
        telling_over(RoleView::Active, new_size(cols, rows)),
    ] + watched(hub.sessions).map_values(
        |session: SessionView|
            telling_over(RoleView::Sidebar(session.name), new_size(cols, rows)),
    ));
}

/// No session that the sidebar gets frames of is left out when the size changes.
pub proof fn no_watched_session_misses_a_new_size(hub: HubView, cols: u16, rows: u16, k: int)
    requires
        0 <= k < hub.sessions.len(),
        hub.sessions[k].sidebar_connected,
    ensures
        hub.resized(cols, rows).effects.len() == hub.effects.len() + 1 + watched(
            hub.sessions,
        ).len(),
        exists|i: int|
            hub.effects.len() < i < hub.resized(cols, rows).effects.len()
                && #[trigger] hub.resized(cols, rows).effects[i] == telling_over(
                RoleView::Sidebar(hub.sessions[k].name),
                new_size(cols, rows),
            ),
{
    all_that_show_a_screen_are_told_its_size(hub, cols, rows);
    let place = lemma_watched(hub.sessions, k);
    let i = hub.effects.len() + 1 + place;
    assert(hub.resized(cols, rows).effects[i] == telling_over(
        RoleView::Sidebar(hub.sessions[k].name),
        new_size(cols, rows),
    ));
}

/// The hub listens to a stream of the session on the screen by that session's name and generation,
/// and to one of a listed session by the generation of the last connection of its kind.
pub proof fn streams_are_heard_by_their_generation(
    hub: HubView,
    session: Seq<char>,
    generation: u64,
)
    ensures
        hub.accepts(session, generation, HubStreamKind::App) == (session == hub.active.name
            && generation == hub.active.generation),
        hub.accepts(session, generation, HubStreamKind::Summary) == match session_named(
            hub.sessions,
            session,
        ) {
            Some(item) => item.summary_generation == generation,
            None => false,
        },
        hub.accepts(session, generation, HubStreamKind::Sidebar) == match session_named(
            hub.sessions,
            session,
        ) {
            Some(item) => item.sidebar_generation == generation,
            None => false,
        },
{
}

/// What comes from the session on the screen is shown or passed on as it is: its frames, notices,
/// clipboard and title. Mouse reports are always in cells. When it stops, its frame goes and the
/// status says why.
pub proof fn the_session_on_the_screen_is_heard(
    hub: HubView,
    generation: u64,
    message: ServerView,
)
    requires
        generation == hub.active.generation,
    ensures
        hub.told(hub.active.name, generation, HubStreamKind::App, message) == match message {
            ServerView::Frame(frame) => HubView {
                active: ActiveView {
                    name: hub.active.name,
                    generation: hub.active.generation,
                    frame: Some(frame),
                },
                repaint: true,
                ..hub
            },
            ServerView::Notify { kind, message: text, body } => HubView {
                effects: hub.effects.push(EffectView::Notify { kind, text, body }),
                ..hub
            },
            ServerView::Clipboard { data } => HubView {
                effects: hub.effects.push(EffectView::Clipboard { data }),
                ..hub
            },
            ServerView::WindowTitle { title } => HubView {
                effects: hub.effects.push(EffectView::WindowTitle { title }),
                ..hub
            },
            ServerView::MouseCapture { enabled } => HubView {
                effects: hub.effects.push(
                    EffectView::MouseCapture { enabled, sgr_pixels: false },
                ),
                ..hub
            },
            ServerView::ServerShutdown { reason } => HubView {
                active: ActiveView {
                    name: hub.active.name,
                    generation: hub.active.generation,
                    frame: None,
                },
                status: if reason is Some {
                    reason
                } else {
                    Some("session stopped"@)
                },
                repaint: true,
                ..hub
            },
            ServerView::SessionSummary(_)
            | ServerView::CompressedFrame
            | ServerView::Unused => hub,
        },
{
}

/// What a session tells of itself is kept with it, and it runs. If it tells that it shows something
/// that takes all input, and none else does, it takes all input where it is on the screen; one that
/// takes all input keeps it until, having told so, it tells that it is over.
pub proof fn summaries_are_kept(
    hub: HubView,
    session: Seq<char>,
    generation: u64,
    summary: SummaryView,
    item: SessionView,
)
    requires
        session_named(hub.sessions, session) == Some(item),
        item.summary_generation == generation,
    ensures
        ({
            let after = hub.told(
                session,
                generation,
                HubStreamKind::Summary,
                ServerView::SessionSummary(summary),
            );
            let over = summary.overlay_active;
            &&& after == (HubView {
                sessions: after.sessions,
                repaint: true,
                server_overlay_session: after.server_overlay_session,
                server_overlay_seen: after.server_overlay_seen,
                ..hub
            })
            &&& replaced(
                hub,
                after,
                session,
                SessionView { summary: Some(summary), running: true, ..item },
            )
            &&& (after.server_overlay_session, after.server_overlay_seen) == (
            match hub.server_overlay_session {
                None => if over && session == hub.active.name {
                    (Some(session), true)
                } else {
                    (None, hub.server_overlay_seen)
                },
                Some(owner) => if owner != session {
                    (Some(owner), hub.server_overlay_seen)
                } else if over {
                    (Some(owner), true)
                } else if hub.server_overlay_seen {
                    (None, false)
                } else {
                    (Some(owner), false)
                },
            })
        }),
{
    a_session_stands_where_its_name_first_is(hub.sessions, session);
}

/// A frame for the sidebar is kept with its session. When the session stops, its frame and
/// connection go and it does not run any more.
pub proof fn sidebar_frames_are_kept(
    hub: HubView,
    session: Seq<char>,
    generation: u64,
    frame: FrameView,
    reason: Option<Seq<char>>,
    item: SessionView,
)
    requires
        session_named(hub.sessions, session) == Some(item),
        item.sidebar_generation == generation,
    ensures
        ({
            let after = hub.told(
                session,
                generation,
                HubStreamKind::Sidebar,
                ServerView::Frame(frame),
            );
            &&& after == (HubView { sessions: after.sessions, repaint: true, ..hub })
            &&& replaced(hub, after, session, SessionView { sidebar_frame: Some(frame), ..item })
        }),
        ({
            let after = hub.told(
                session,
                generation,
                HubStreamKind::Sidebar,
                ServerView::ServerShutdown { reason },
            );
            &&& after == (HubView {
                sessions: after.sessions,
                repaint: true,
                effects: if item.sidebar_connected {
                    hub.effects.push(EffectView::Close { role: RoleView::Sidebar(session) })
                } else {
                    hub.effects
                },
                ..hub
            })
            &&& replaced(
                hub,
                after,
                session,
                SessionView {
                    sidebar_frame: None,
                    sidebar_connected: false,
                    running: false,
                    ..item
                },
            )
        }),
{
    a_session_stands_where_its_name_first_is(hub.sessions, session);
}

/// Other messages over these connections, and all over a stream that the hub does not listen to,
/// change nothing.
pub proof fn other_messages_change_nothing(
    hub: HubView,
    session: Seq<char>,
    generation: u64,
    kind: HubStreamKind,
    message: ServerView,
)
    requires
        !hub.accepts(session, generation, kind) || kind == HubStreamKind::Summary && !(
        message is SessionSummary) || kind == HubStreamKind::Sidebar && !(message is Frame) && !(
        message is ServerShutdown),
    ensures
        hub.told(session, generation, kind, message) == hub,
{
}

/// When the stream of the session on the screen ends, its frame goes and the status says so. When
/// one for summaries ends, its session does not run any more; when one for sidebar frames ends, its
/// frame goes. The connection is closed where it was counted on. A stream that the hub does not
/// listen to ends without notice.
pub proof fn ended_streams_are_noted(
    hub: HubView,
    session: Seq<char>,
    generation: u64,
    item: SessionView,
)
    ensures
        hub.disconnected(session, generation, HubStreamKind::App) == if session == hub.active.name
            && generation == hub.active.generation {
            HubView {
                active: ActiveView {
                    name: hub.active.name,
                    generation: hub.active.generation,
                    frame: None,
                },
                status: Some("session "@ + session + " disconnected"@),
                repaint: true,
                ..hub
            }
        } else {
            hub
        },
        session_named(hub.sessions, session) == Some(item) ==> {
            let after = hub.disconnected(session, generation, HubStreamKind::Summary);
            if item.summary_generation == generation {
                &&& after == (HubView {
                    sessions: after.sessions,
                    repaint: true,
                    effects: if item.summary_connected {
                        hub.effects.push(EffectView::Close { role: RoleView::Summary(session) })
                    } else {
                        hub.effects
                    },
                    ..hub
                })
                &&& replaced(
                    hub,
                    after,
                    session,
                    SessionView { summary_connected: false, running: false, ..item },
                )
            } else {
                after == hub
            }
        },
        session_named(hub.sessions, session) == Some(item) ==> {
            let after = hub.disconnected(session, generation, HubStreamKind::Sidebar);
            if item.sidebar_generation == generation {
                &&& after == (HubView {
                    sessions: after.sessions,
                    repaint: true,
                    effects: if item.sidebar_connected {
                        hub.effects.push(EffectView::Close { role: RoleView::Sidebar(session) })
                    } else {
                        hub.effects
                    },
                    ..hub
                })
                &&& replaced(
                    hub,
                    after,
                    session,
                    SessionView { sidebar_connected: false, sidebar_frame: None, ..item },
                )
            } else {
                after == hub
            }
        },
        session_named(hub.sessions, session) is None ==> hub.disconnected(
            session,
            generation,
            HubStreamKind::Summary,
        ) == hub && hub.disconnected(session, generation, HubStreamKind::Sidebar) == hub,
{
    a_session_stands_where_its_name_first_is(hub.sessions, session);
}

/// A farewell is a message whose failure is of no account, and comes behind all that is to be done.
pub proof fn farewells_come_last(hub: HubView, role: RoleView)
    ensures
        farewell(role) == detaching(role),
        hub.asking(farewell(role)) == (HubView {
            effects: hub.effects.push(
                EffectView::Send { role, message: MessageView::Detach, required: false },
            ),
            ..hub
        }),
{
}

/// A reader hands messages on, tells of the end of its stream, and reports a failure before.
pub proof fn readers_go_on_until_the_stream_ends(plain: usize, render: usize)
    ensures
        reader_step_of(ReadOutcome::Message) == ReaderStep::Deliver,
        reader_step_of(ReadOutcome::EndOfStream) == ReaderStep::End,
        reader_step_of(ReadOutcome::Failure) == ReaderStep::ReportAndEnd,
        read_limit_of(HubStreamKind::App, plain, render) == render,
        read_limit_of(HubStreamKind::Sidebar, plain, render) == render,
        read_limit_of(HubStreamKind::Summary, plain, render) == plain,
{
}

} // verus!
