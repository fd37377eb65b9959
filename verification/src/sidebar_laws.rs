//! Where the sidebar shows what.
//!
//! The place of each row is counted out from the sessions and their workspaces, without regard to
//! how the list of rows comes about.

use crate::protocol::{CardView, SidebarView};
use crate::rows::{card_targets, gap_targets, space_targets, RowView, TargetView};
use crate::state::{
    is_first_named, is_listed, lemma_listed_has_place, lemma_place_of, session_named, HubView,
    SessionView,
};
use vstd::prelude::*;

verus! {

/// A session is found by its name: the first of that name, and none where there is none.
pub proof fn sessions_are_found_by_name(sessions: Seq<SessionView>, name: Seq<char>, at: int)
    requires
        0 <= at < sessions.len(),
        sessions[at].name == name,
        forall|i: int| 0 <= i < at ==> (#[trigger] sessions[i]).name != name,
    ensures
        session_named(sessions, name) == Some(sessions[at]),
{
    assert(is_first_named(sessions, name, at));
    lemma_place_of(sessions, name, at);
}

/// What is found by a name is listed and has the name.
pub proof fn only_listed_sessions_are_found(sessions: Seq<SessionView>, name: Seq<char>)
    ensures
        match session_named(sessions, name) {
            Some(session) => session.name == name && sessions.contains(session),
            None => forall|i: int|
                0 <= i < sessions.len() ==> (#[trigger] sessions[i]).name != name,
        },
{
    lemma_listed_has_place(sessions, name);
}

/// The sidebar follows the layout that the session on the screen told of.
pub proof fn layout_is_that_of_the_session_on_the_screen(hub: HubView)
    ensures
        hub.sidebar_layout() == match session_named(hub.sessions, hub.active.name) {
            Some(session) => if session.summary is Some {
                session.summary->0.sidebar
            } else {
                None
            },
            None => None,
        },
        hub.sidebar_layout() matches Some(layout) ==> hub.sidebar_width() == layout.width,
        hub.sidebar_layout() is None ==> hub.sidebar_width() == 0,
{
}

/// The session on the screen is shown by its own frame, every other by the one that came for the
/// sidebar.
pub proof fn sessions_are_shown_by_their_own_frames(hub: HubView, name: Seq<char>)
    ensures
        name == hub.active.name ==> hub.session_frame(name) == hub.active.frame,
        name != hub.active.name ==> hub.session_frame(name) == match session_named(
            hub.sessions,
            name,
        ) {
            Some(session) => session.sidebar_frame,
            None => None,
        },
{
}

/// The workspaces of a session that is not folded: for the session on the screen those of the
/// sidebar's layout, for another those that it told of itself.
pub open spec fn unfolded(hub: HubView, session: SessionView) -> Seq<CardView> {
    let layout = if session.name == hub.active.name {
        hub.sidebar_layout()
    } else if session.summary is Some {
        session.summary->0.sidebar
    } else {
        None
    };
    if !hub.collapsed.contains(session.name) && layout is Some {
        layout->0.cards
    } else {
        Seq::empty()
    }
}

/// How many rows lie between a workspace and the next one.
pub open spec fn gap(card: CardView, next: CardView) -> nat {
    if next.y > card.y + card.height {
        (next.y - card.y - card.height) as nat
    } else {
        0
    }
}

/// How many rows of a session's workspaces come before the given one of them.
pub open spec fn before_card(cards: Seq<CardView>, c: int) -> nat
    decreases c,
{
    if c <= 0 {
        0
    } else {
        before_card(cards, c - 1) + cards[c - 1].height as nat + gap(cards[c - 1], cards[c])
    }
}

/// How many rows a session's workspaces take.
pub open spec fn rows_of_cards(cards: Seq<CardView>) -> nat {
    if cards.len() == 0 {
        0
    } else {
        before_card(cards, cards.len() - 1) + cards.last().height as nat
    }
}

/// How many rows come before the heading of the given session: each session before it has a heading
/// and the rows of its workspaces.
pub open spec fn before_session(hub: HubView, k: int) -> nat
    decreases k,
{
    if k <= 0 {
        0
    } else {
        before_session(hub, k - 1) + 1 + rows_of_cards(unfolded(hub, hub.sessions[k - 1]))
    }
}

/// The height of the first row, below the heading of the layout's spaces.
pub open spec fn top_of(layout: SidebarView) -> int {
    if layout.spaces_y == u16::MAX {
        u16::MAX as int
    } else {
        layout.spaces_y + 1
    }
}

/// The height that no row of a session reaches: the last row of the layout's spaces above its
/// footer.
pub open spec fn bottom_of(layout: SidebarView) -> int {
    let end = if layout.spaces_y + layout.spaces_height < layout.footer_y {
        layout.spaces_y + layout.spaces_height
    } else {
        layout.footer_y as int
    };
    if end > 0 {
        end - 1
    } else {
        0
    }
}

proof fn lemma_before_card(cards: Seq<CardView>, c: int)
    requires
        1 <= c < cards.len(),
    ensures
        before_card(cards, c) == cards[0].height + gap(cards[0], cards[1]) + before_card(
            cards.drop_first(),
            c - 1,
        ),
    decreases c,
{
    if c > 1 {
        lemma_before_card(cards, c - 1);
    } else {
        assert(before_card(cards, 0) == 0);
        assert(before_card(cards.drop_first(), 0) == 0);
    }
}

proof fn lemma_space_count(session: Seq<char>, cards: Seq<CardView>)
    ensures
        space_targets(session, cards).len() == rows_of_cards(cards),
    decreases cards.len(),
{
    if cards.len() > 1 {
        lemma_space_count(session, cards.drop_first());
        lemma_before_card(cards, cards.len() - 1);
    } else if cards.len() == 1 {
        assert(before_card(cards, 0) == 0);
    }
}

proof fn lemma_space_at(session: Seq<char>, cards: Seq<CardView>, c: int, o: int)
    requires
        0 <= c < cards.len(),
        0 <= o < cards[c].height,
    ensures
        before_card(cards, c) + o < space_targets(session, cards).len(),
        space_targets(session, cards)[before_card(cards, c) + o] == (TargetView::SpaceRow {
            session,
            workspace_id: cards[c].workspace_id,
            original_y: if cards[c].y + o < u16::MAX {
                (cards[c].y + o) as u16
            } else {
                u16::MAX
            },
        }),
    decreases cards.len(),
{
    if c == 0 {
        assert(before_card(cards, 0) == 0);
    } else {
        lemma_before_card(cards, c);
        lemma_space_at(session, cards.drop_first(), c - 1, o);
        let start = card_targets(session, cards[0]) + gap_targets(session, cards[0], cards[1]);
        assert(space_targets(session, cards) == start + space_targets(
            session,
            cards.drop_first(),
        ));
    }
}

proof fn lemma_gap_at(session: Seq<char>, cards: Seq<CardView>, c: int, o: int)
    requires
        0 <= c < cards.len() - 1,
        0 <= o < gap(cards[c], cards[c + 1]),
    ensures
        before_card(cards, c) + cards[c].height + o < space_targets(session, cards).len(),
        space_targets(session, cards)[before_card(cards, c) + cards[c].height + o] == (
        TargetView::SpaceGapRow {
            session,
            original_y: (cards[c].y + cards[c].height + o) as u16,
        }),
    decreases cards.len(),
{
    let start = card_targets(session, cards[0]) + gap_targets(session, cards[0], cards[1]);
    assert(space_targets(session, cards) == start + space_targets(session, cards.drop_first()));
    if c == 0 {
        assert(before_card(cards, 0) == 0);
    } else {
        lemma_before_card(cards, c);
        lemma_gap_at(session, cards.drop_first(), c - 1, o);
    }
}

proof fn lemma_unfolded(hub: HubView, session: SessionView)
    ensures
        hub.shown_cards(session) == unfolded(hub, session),
{
    assert(hub.shown_cards(session) =~= unfolded(hub, session));
}

proof fn lemma_target_count(hub: HubView, k: int)
    requires
        0 <= k <= hub.sessions.len(),
    ensures
        hub.targets_of(hub.sessions.take(k)).len() == before_session(hub, k),
    decreases k,
{
    if k > 0 {
        let some = hub.sessions.take(k);
        lemma_target_count(hub, k - 1);
        assert(some.drop_last() =~= hub.sessions.take(k - 1));
        lemma_unfolded(hub, some.last());
        lemma_space_count(some.last().name, unfolded(hub, some.last()));
    }
}

/// The targets of the first sessions are where they are in the list of all.
proof fn lemma_target_at_place(hub: HubView, k: int, n: int, p: int)
    requires
        0 <= k <= n <= hub.sessions.len(),
        0 <= p < hub.targets_of(hub.sessions.take(k)).len(),
    ensures
        p < hub.targets_of(hub.sessions.take(n)).len(),
        hub.targets_of(hub.sessions.take(n))[p] == hub.targets_of(hub.sessions.take(k))[p],
    decreases n - k,
{
    if k < n {
        lemma_target_at_place(hub, k, n - 1, p);
        assert(hub.sessions.take(n).drop_last() =~= hub.sessions.take(n - 1));
    }
}

/// The rows of one session are behind those of the sessions before it.
proof fn lemma_session_row(hub: HubView, layout: SidebarView, k: int, p: int)
    requires
        hub.sidebar_layout() == Some(layout),
        0 <= k < hub.sessions.len(),
        0 <= p < hub.session_targets(hub.sessions[k]).len(),
        top_of(layout) + before_session(hub, k) + p < bottom_of(layout),
    ensures
        before_session(hub, k) + p < hub.rows().len(),
        hub.rows()[before_session(hub, k) + p] == (RowView {
            y: (top_of(layout) + before_session(hub, k) + p) as u16,
            target: hub.session_targets(hub.sessions[k])[p],
        }),
{
    let some = hub.sessions.take(k + 1);
    assert(some.drop_last() =~= hub.sessions.take(k));
    assert(some.last() == hub.sessions[k]);
    lemma_target_count(hub, k);
    lemma_target_at_place(
        hub,
        k + 1,
        hub.sessions.len() as int,
        before_session(hub, k) + p,
    );
    assert(hub.sessions.take(hub.sessions.len() as int) =~= hub.sessions);
}

/// Every session has a heading, behind the rows of the sessions before it, as far as there is room.
pub proof fn every_session_has_its_heading(hub: HubView, layout: SidebarView, k: int)
    requires
        hub.sidebar_layout() == Some(layout),
        0 <= k < hub.sessions.len(),
        top_of(layout) + before_session(hub, k) < bottom_of(layout),
    ensures
        before_session(hub, k) < hub.rows().len(),
        hub.rows()[before_session(hub, k) as int] == (RowView {
            y: (top_of(layout) + before_session(hub, k)) as u16,
            target: TargetView::Session(hub.sessions[k].name),
        }),
{
    lemma_session_row(hub, layout, k, 0);
}

/// Every row of a workspace is under the heading of its session, in its order, and stands for the
/// row of the session's own screen that is as far below the workspace's first.
pub proof fn every_workspace_has_its_rows(
    hub: HubView,
    layout: SidebarView,
    k: int,
    c: int,
    o: int,
)
    requires
        hub.sidebar_layout() == Some(layout),
        0 <= k < hub.sessions.len(),
        0 <= c < unfolded(hub, hub.sessions[k]).len(),
        0 <= o < unfolded(hub, hub.sessions[k])[c].height,
        top_of(layout) + before_session(hub, k) + 1 + before_card(
            unfolded(hub, hub.sessions[k]),
            c,
        ) + o < bottom_of(layout),
    ensures
        ({
            let cards = unfolded(hub, hub.sessions[k]);
            let place = before_session(hub, k) + 1 + before_card(cards, c) + o;
            place < hub.rows().len() && hub.rows()[place] == (RowView {
                y: (top_of(layout) + place) as u16,
                target: TargetView::SpaceRow {
                    session: hub.sessions[k].name,
                    workspace_id: cards[c].workspace_id,
                    original_y: if cards[c].y + o < u16::MAX {
                        (cards[c].y + o) as u16
                    } else {
                        u16::MAX
                    },
                },
            })
        }),
{
    let session = hub.sessions[k];
    let cards = unfolded(hub, session);
    lemma_unfolded(hub, session);
    lemma_space_at(session.name, cards, c, o);
    lemma_session_row(hub, layout, k, 1 + before_card(cards, c) + o);
}

/// Every row between two workspaces of a session is between their rows, and stands for the row of
/// the session's own screen that is as far below the end of the first.
pub proof fn every_gap_has_its_rows(hub: HubView, layout: SidebarView, k: int, c: int, o: int)
    requires
        hub.sidebar_layout() == Some(layout),
        0 <= k < hub.sessions.len(),
        0 <= c < unfolded(hub, hub.sessions[k]).len() - 1,
        0 <= o < gap(
            unfolded(hub, hub.sessions[k])[c],
            unfolded(hub, hub.sessions[k])[c + 1],
        ),
        top_of(layout) + before_session(hub, k) + 1 + before_card(
            unfolded(hub, hub.sessions[k]),
            c,
        ) + unfolded(hub, hub.sessions[k])[c].height + o < bottom_of(layout),
    ensures
        ({
            let cards = unfolded(hub, hub.sessions[k]);
            let place = before_session(hub, k) + 1 + before_card(cards, c) + cards[c].height + o;
            place < hub.rows().len() && hub.rows()[place] == (RowView {
                y: (top_of(layout) + place) as u16,
                target: TargetView::SpaceGapRow {
                    session: hub.sessions[k].name,
                    original_y: (cards[c].y + cards[c].height + o) as u16,
                },
            })
        }),
{
    let session = hub.sessions[k];
    let cards = unfolded(hub, session);
    lemma_unfolded(hub, session);
    lemma_gap_at(session.name, cards, c, o);
    lemma_session_row(hub, layout, k, 1 + before_card(cards, c) + cards[c].height + o);
}

/// The sidebar has a row for each row of its sessions that there is room for, then the one that
/// makes a new session, at the bottom of the layout's spaces, and no other. Without a layout it has
/// none.
pub proof fn sidebar_has_no_other_rows(hub: HubView)
    ensures
        hub.sidebar_layout() is None ==> hub.rows().len() == 0,
        hub.sidebar_layout() matches Some(layout) ==> {
            let all = before_session(hub, hub.sessions.len() as int) as int;
            let room = if bottom_of(layout) > top_of(layout) {
                bottom_of(layout) - top_of(layout)
            } else {
                0
            };
            let listed = if all < room {
                all
            } else {
                room
            };
            if layout.spaces_y < bottom_of(layout) < hub.rows {
                &&& hub.rows().len() == listed + 1
                &&& hub.rows().last() == (RowView {
                    y: bottom_of(layout) as u16,
                    target: TargetView::NewSession,
                })
            } else {
                hub.rows().len() == listed
            }
        },
{
    lemma_target_count(hub, hub.sessions.len() as int);
    assert(hub.sessions.take(hub.sessions.len() as int) =~= hub.sessions);
}

/// A name is listed where a session of the list has it.
pub proof fn listed_names_are_those_of_the_sessions(sessions: Seq<SessionView>, name: Seq<char>)
    ensures
        is_listed(sessions, name) == (session_named(sessions, name) is Some),
        is_listed(sessions, name) == exists|i: int|
            0 <= i < sessions.len() && (#[trigger] sessions[i]).name == name,
{
    lemma_listed_has_place(sessions, name);
}

} // verus!
