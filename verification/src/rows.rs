//! The rows of the sidebar.

use crate::frame::{min16, sat_add, sat_sub};
use crate::protocol::{CardView, SidebarView, WorkspaceCard};
use crate::state::{is_listed, HubState, HubView, SessionView};
use vstd::prelude::*;

verus! {

/// What a row of the sidebar stands for.
#[derive(Debug, PartialEq, Eq)]
pub enum HubRowTarget {
    /// The heading of a session.
    Session(String),
    /// A row of one of a session's workspaces.
    SpaceRow {
        session: String,
        workspace_id: String,
        /// Where the session's own screen shows the row.
        original_y: u16,
    },
    /// A row between two of a session's workspaces.
    SpaceGapRow {
        session: String,
        /// Where the session's own screen shows the row.
        original_y: u16,
    },
    /// The row that makes a new session.
    NewSession,
}

/// What a [`HubRowTarget`] says.
pub enum TargetView {
    Session(Seq<char>),
    SpaceRow { session: Seq<char>, workspace_id: Seq<char>, original_y: u16 },
    SpaceGapRow { session: Seq<char>, original_y: u16 },
    NewSession,
}

impl View for HubRowTarget {
    type V = TargetView;

    open spec fn view(&self) -> TargetView {
        match *self {
            HubRowTarget::Session(session) => TargetView::Session(session@),
            HubRowTarget::SpaceRow { session, workspace_id, original_y } => {
                TargetView::SpaceRow {
                    session: session@,
                    workspace_id: workspace_id@,
                    original_y,
                }
            },
            HubRowTarget::SpaceGapRow { session, original_y } => {
                TargetView::SpaceGapRow { session: session@, original_y }
            },
            HubRowTarget::NewSession => TargetView::NewSession,
        }
    }
}

/// A row of the sidebar.
#[derive(Debug, PartialEq, Eq)]
pub struct HubRow {
    /// Where the hub's screen shows the row.
    pub y: u16,
    pub target: HubRowTarget,
}

/// What a [`HubRow`] says.
pub struct RowView {
    pub y: u16,
    pub target: TargetView,
}

impl View for HubRow {
    type V = RowView;

    open spec fn view(&self) -> RowView {
        RowView { y: self.y, target: self.target@ }
    }
}

/// What a list of rows says.
pub open spec fn row_views(rows: Seq<HubRow>) -> Seq<RowView> {
    rows.map_values(|row: HubRow| row@)
}

/// The rows of a workspace, in the order of the session's own screen.
pub open spec fn card_targets(session: Seq<char>, card: CardView) -> Seq<TargetView> {
    Seq::new(
        card.height as nat,
        |offset: int|
            TargetView::SpaceRow {
                session,
                workspace_id: card.workspace_id,
                original_y: sat_add(card.y, offset as u16),
            },
    )
}

/// The rows from the end of a workspace up to the next one.
pub open spec fn gap_targets(session: Seq<char>, card: CardView, next: CardView) -> Seq<
    TargetView,
> {
    let end = sat_add(card.y, card.height);
    Seq::new(
        sat_sub(next.y, end) as nat,
        |offset: int|
            TargetView::SpaceGapRow { session, original_y: (end + offset) as u16 },
    )
}

/// The rows of a session's workspaces and of the gaps between them.
pub open spec fn space_targets(session: Seq<char>, cards: Seq<CardView>) -> Seq<TargetView>
    decreases cards.len(),
{
    if cards.len() == 0 {
        Seq::empty()
    } else if cards.len() == 1 {
        card_targets(session, cards[0])
    } else {
        card_targets(session, cards[0]) + gap_targets(session, cards[0], cards[1])
            + space_targets(session, cards.drop_first())
    }
}

impl HubView {
    /// The workspaces that the sidebar shows under a session: none where the session is collapsed;
    /// for the session on the screen, those of the layout that the sidebar itself follows.
    pub open spec fn shown_cards(self, session: SessionView) -> Seq<CardView> {
        if self.collapsed.contains(session.name) {
            Seq::empty()
        } else if session.name == self.active.name {
            match self.sidebar_layout() {
                Some(layout) => layout.cards,
                None => Seq::empty(),
            }
        } else {
            match session.summary {
                Some(summary) => match summary.sidebar {
                    Some(layout) => layout.cards,
                    None => Seq::empty(),
                },
                None => Seq::empty(),
            }
        }
    }

    /// The rows of a session: its heading, then its workspaces.
    pub open spec fn session_targets(self, session: SessionView) -> Seq<TargetView> {
        seq![TargetView::Session(session.name)] + space_targets(
            session.name,
            self.shown_cards(session),
        )
    }

    /// The rows of the given sessions, one after the other.
    pub open spec fn targets_of(self, sessions: Seq<SessionView>) -> Seq<TargetView>
        decreases sessions.len(),
    {
        if sessions.len() == 0 {
            Seq::empty()
        } else {
            self.targets_of(sessions.drop_last()) + self.session_targets(sessions.last())
        }
    }

    /// The rows of the sidebar: those of all sessions, from below the heading of the layout's
    /// spaces on and as far as there is room, then the row that makes a new session, if it is on
    /// the screen.
    pub open spec fn rows(self) -> Seq<RowView> {
        match self.sidebar_layout() {
            None => Seq::empty(),
            Some(layout) => {
                let listed = with_targets(
                    Seq::empty(),
                    first_row(layout),
                    new_session_row(layout),
                    self.targets_of(self.sessions),
                );
                let last = new_session_row(layout);
                if layout.spaces_y < last < self.rows {
                    listed.push(RowView { y: last, target: TargetView::NewSession })
                } else {
                    listed
                }
            },
        }
    }
}

/// Where the rows of the sessions begin.
pub open spec fn first_row(layout: SidebarView) -> u16 {
    sat_add(layout.spaces_y, 1)
}

/// Where the row is that makes a new session: the last one of the layout's spaces above the
/// footer.
pub open spec fn new_session_row(layout: SidebarView) -> u16 {
    sat_sub(min16(layout.footer_y, sat_add(layout.spaces_y, layout.spaces_height)), 1)
}

/// How many rows still fit above `limit`, where `taken` of those from `first` on are taken.
pub open spec fn room(first: u16, limit: u16, taken: nat) -> nat {
    if limit - first - taken > 0 {
        (limit - first - taken) as nat
    } else {
        0
    }
}

/// The rows, from `first` on, with the given targets added as far as they fit above `limit`.
pub open spec fn with_targets(
    rows: Seq<RowView>,
    first: u16,
    limit: u16,
    targets: Seq<TargetView>,
) -> Seq<RowView> {
    let space = room(first, limit, rows.len());
    rows + Seq::new(
        if targets.len() < space {
            targets.len()
        } else {
            space
        },
        |i: int| RowView { y: (first + rows.len() + i) as u16, target: targets[i] },
    )
}

/// To add two lists of targets is to add the one and then the other.
pub proof fn lemma_with_targets_twice(
    rows: Seq<RowView>,
    first: u16,
    limit: u16,
    targets: Seq<TargetView>,
    more: Seq<TargetView>,
)
    ensures
        with_targets(with_targets(rows, first, limit, targets), first, limit, more)
            == with_targets(rows, first, limit, targets + more),
{
    assert(with_targets(with_targets(rows, first, limit, targets), first, limit, more)
        =~= with_targets(rows, first, limit, targets + more));
}

/// Adds a row at `y` where it is above `limit`, and tells whether it is.
fn push_row(rows: &mut Vec<HubRow>, first: u16, limit: u16, target: HubRowTarget) -> (fits: bool)
    requires
        old(rows).len() <= room(first, limit, 0),
    ensures
        row_views(final(rows)@) == with_targets(
            row_views(old(rows)@),
            first,
            limit,
            seq![target@],
        ),
        final(rows).len() <= room(first, limit, 0),
        !fits ==> room(first, limit, final(rows).len() as nat) == 0,
{
    let ghost before = row_views(rows@);
    if first >= limit || rows.len() >= (limit - first) as usize {
        assert(row_views(rows@) =~= with_targets(before, first, limit, seq![target@]));
        return false;
    }
    let y: u16 = first + rows.len() as u16;
    rows.push(HubRow { y, target });
    assert(row_views(rows@) =~= with_targets(before, first, limit, seq![target@]));
    true
}

/// Adds the rows of a workspace.
fn push_card(rows: &mut Vec<HubRow>, first: u16, limit: u16, session: &str, card: &WorkspaceCard)
    requires
        old(rows).len() <= room(first, limit, 0),
    ensures
        row_views(final(rows)@) == with_targets(
            row_views(old(rows)@),
            first,
            limit,
            card_targets(session@, card@),
        ),
        final(rows).len() <= room(first, limit, 0),
{
    let ghost before = row_views(rows@);
    let ghost all = card_targets(session@, card@);
    let mut offset: u16 = 0;
    assert(row_views(rows@) =~= with_targets(before, first, limit, all.take(0)));
    while offset < card.height
        invariant
            offset <= card.height,
            before == row_views(old(rows)@),
            all == card_targets(session@, card@),
            rows.len() <= room(first, limit, 0),
            row_views(rows@) == with_targets(before, first, limit, all.take(offset as int)),
        decreases card.height - offset,
    {
        let target = HubRowTarget::SpaceRow {
            session: session.to_owned(),
            workspace_id: card.workspace_id.clone(),
            original_y: card.y.saturating_add(offset),
        };
        assert(target@ == all[offset as int]);
        let fits = push_row(rows, first, limit, target);
        proof {
            lemma_with_targets_twice(
                before,
                first,
                limit,
                all.take(offset as int),
                seq![all[offset as int]],
            );
            assert(all.take(offset as int) + seq![all[offset as int]] =~= all.take(offset + 1));
        }
        if !fits {
            assert(row_views(rows@) =~= with_targets(before, first, limit, all));
            return ;
        }
        offset = offset + 1;
    }
    assert(all.take(offset as int) =~= all);
}

/// Adds the rows between two workspaces.
fn push_gap(
    rows: &mut Vec<HubRow>,
    first: u16,
    limit: u16,
    session: &str,
    card: &WorkspaceCard,
    next: &WorkspaceCard,
)
    requires
        old(rows).len() <= room(first, limit, 0),
    ensures
        row_views(final(rows)@) == with_targets(
            row_views(old(rows)@),
            first,
            limit,
            gap_targets(session@, card@, next@),
        ),
        final(rows).len() <= room(first, limit, 0),
{
    let ghost before = row_views(rows@);
    let ghost all = gap_targets(session@, card@, next@);
    let end: u16 = card.y.saturating_add(card.height);
    let mut original_y: u16 = end;
    assert(row_views(rows@) =~= with_targets(before, first, limit, all.take(0)));
    while original_y < next.y
        invariant
            end <= original_y,
            original_y <= next.y || original_y == end,
            end == sat_add(card.y, card.height),
            before == row_views(old(rows)@),
            all == gap_targets(session@, card@, next@),
            rows.len() <= room(first, limit, 0),
            row_views(rows@) == with_targets(before, first, limit, all.take(original_y - end)),
        decreases next.y - original_y,
    {
        let target = HubRowTarget::SpaceGapRow { session: session.to_owned(), original_y };
        let ghost offset = original_y - end;
        assert(target@ == all[offset]);
        let fits = push_row(rows, first, limit, target);
        proof {
            lemma_with_targets_twice(before, first, limit, all.take(offset), seq![all[offset]]);
            assert(all.take(offset) + seq![all[offset]] =~= all.take(offset + 1));
        }
        if !fits {
            assert(row_views(rows@) =~= with_targets(before, first, limit, all));
            return ;
        }
        original_y = original_y + 1;
    }
    assert(all.take(original_y - end) =~= all);
}

/// Adds the rows of a session's workspaces.
fn push_spaces(
    rows: &mut Vec<HubRow>,
    first: u16,
    limit: u16,
    session: &str,
    cards: &Vec<WorkspaceCard>,
)
    requires
        old(rows).len() <= room(first, limit, 0),
    ensures
        row_views(final(rows)@) == with_targets(
            row_views(old(rows)@),
            first,
            limit,
            space_targets(session@, crate::protocol::card_views(cards@)),
        ),
        final(rows).len() <= room(first, limit, 0),
{
    let ghost before = row_views(rows@);
    let ghost views = crate::protocol::card_views(cards@);
    let ghost all = space_targets(session@, views);
    let ghost mut done: Seq<TargetView> = Seq::empty();
    let mut index: usize = 0;
    proof {
        assert(views.skip(0) =~= views);
        assert(done + space_targets(session@, views.skip(0)) =~= all);
        assert(row_views(rows@) =~= with_targets(before, first, limit, done));
    }
    while index < cards.len()
        invariant
            index <= cards.len(),
            views == crate::protocol::card_views(cards@),
            rows.len() <= room(first, limit, 0),
            done + space_targets(session@, views.skip(index as int)) == all,
            row_views(rows@) == with_targets(before, first, limit, done),
        decreases cards.len() - index,
    {
        let ghost rest = views.skip(index as int);
        let card = &cards[index];
        assert(rest[0] == card@);
        push_card(rows, first, limit, session, card);
        proof {
            lemma_with_targets_twice(
                before,
                first,
                limit,
                done,
                card_targets(session@, card@),
            );
            done = done + card_targets(session@, card@);
        }
        if index + 1 < cards.len() {
            let next = &cards[index + 1];
            assert(rest[1] == next@);
            push_gap(rows, first, limit, session, card, next);
            proof {
                lemma_with_targets_twice(
                    before,
                    first,
                    limit,
                    done,
                    gap_targets(session@, card@, next@),
                );
                done = done + gap_targets(session@, card@, next@);
            }
        }
        proof {
            assert(rest.drop_first() =~= views.skip(index + 1));
            assert(done + space_targets(session@, views.skip(index + 1)) =~= all);
        }
        index = index + 1;
    }
    proof {
        assert(views.skip(index as int) =~= Seq::empty());
        assert(done =~= all);
    }
}

impl HubState {
    /// Lays out the rows of the sidebar.
    pub fn rows(&self) -> (rows: Vec<HubRow>)
        ensures
            row_views(rows@) == self@.rows(),
    {
        let mut rows: Vec<HubRow> = Vec::new();
        assert(row_views(rows@) =~= Seq::empty());
        let layout = match self.sidebar_layout() {
            Some(layout) => layout,
            None => {
                return rows;
            },
        };
        let first: u16 = layout.spaces_y.saturating_add(1);
        let last: u16 = crate::frame::lesser(
            layout.footer_y,
            layout.spaces_y.saturating_add(layout.spaces_height),
        ).saturating_sub(1);
        let ghost sessions = self@.sessions;
        let mut index: usize = 0;
        proof {
            assert(row_views(rows@) =~= with_targets(
                Seq::empty(),
                first,
                last,
                self@.targets_of(sessions.take(0)),
            ));
        }
        while index < self.sessions.len()
            invariant
                index <= self.sessions.len(),
                sessions == self@.sessions,
                self@.sidebar_layout() == Some(layout@),
                rows.len() <= room(first, last, 0),
                row_views(rows@) == with_targets(
                    Seq::empty(),
                    first,
                    last,
                    self@.targets_of(sessions.take(index as int)),
                ),
            decreases self.sessions.len() - index,
        {
            let session = &self.sessions[index];
            let ghost view = sessions[index as int];
            let ghost done = self@.targets_of(sessions.take(index as int));
            assert(view == session@);
            let heading = HubRowTarget::Session(session.name.clone());
            push_row(&mut rows, first, last, heading);
            proof {
                lemma_with_targets_twice(
                    Seq::empty(),
                    first,
                    last,
                    done,
                    seq![TargetView::Session(view.name)],
                );
            }
            let ghost headed = done + seq![TargetView::Session(view.name)];
            if self.collapsed.contains(session.name.as_str()) {
                assert(space_targets(view.name, self@.shown_cards(view)) =~= Seq::empty());
                assert(headed + space_targets(view.name, self@.shown_cards(view)) =~= headed);
            } else if session.name == self.active.name {
                push_spaces(
                    &mut rows,
                    first,
                    last,
                    session.name.as_str(),
                    &layout.workspace_cards,
                );
            } else {
                let mut shown = false;
                if let Some(summary) = &session.summary {
                    if let Some(own) = &summary.sidebar {
                        shown = true;
                        push_spaces(
                            &mut rows,
                            first,
                            last,
                            session.name.as_str(),
                            &own.workspace_cards,
                        );
                    }
                }
                if !shown {
                    assert(headed + space_targets(view.name, self@.shown_cards(view)) =~= headed);
                }
            }
            proof {
                let spaces = space_targets(view.name, self@.shown_cards(view));
                lemma_with_targets_twice(Seq::empty(), first, last, headed, spaces);
                let next = sessions.take(index + 1);
                assert(next.drop_last() =~= sessions.take(index as int));
                assert(next.last() == view);
                assert(headed + spaces =~= done + self@.session_targets(view));
            }
            index = index + 1;
        }
        assert(sessions.take(index as int) =~= sessions);
        if last > layout.spaces_y && last < self.rows {
            let ghost listed = row_views(rows@);
            rows.push(HubRow { y: last, target: HubRowTarget::NewSession });
            assert(row_views(rows@) =~= listed.push(
                RowView { y: last, target: TargetView::NewSession },
            ));
        }
        rows
    }
}

/// The rows of the sidebar lie one below the other, under the heading of the layout's spaces and
/// above its footer, and none is below the one that makes a new session.
pub proof fn rows_lie_apart(hub: HubView, layout: SidebarView, i: int)
    requires
        hub.sidebar_layout() == Some(layout),
        0 <= i < hub.rows().len(),
    ensures
        layout.spaces_y < hub.rows()[i].y < layout.footer_y,
        hub.rows()[i].y <= new_session_row(layout),
        forall|j: int| i < j < hub.rows().len() ==> hub.rows()[i].y < (#[trigger] hub.rows()[j]).y,
{
}

/// Only the last row of the sidebar can be the one that makes a new session.
pub proof fn new_session_comes_last(hub: HubView, i: int)
    requires
        0 <= i < hub.rows().len(),
        hub.rows()[i].target == TargetView::NewSession,
    ensures
        i == hub.rows().len() - 1,
{
    let targets = hub.targets_of(hub.sessions);
    if i < hub.rows().len() - 1 {
        lemma_targets_of_sessions(hub, hub.sessions, i);
    }
    if hub.rows()[i] != (RowView {
        y: new_session_row(hub.sidebar_layout()->0),
        target: TargetView::NewSession,
    }) {
        lemma_targets_of_sessions(hub, hub.sessions, i);
    }
}

proof fn lemma_space_targets(session: Seq<char>, cards: Seq<CardView>, i: int)
    requires
        0 <= i < space_targets(session, cards).len(),
    ensures
        !(space_targets(session, cards)[i] is NewSession),
        !(space_targets(session, cards)[i] is Session),
    decreases cards.len(),
{
    if cards.len() > 1 {
        let before = card_targets(session, cards[0]) + gap_targets(session, cards[0], cards[1]);
        if i >= before.len() {
            lemma_space_targets(session, cards.drop_first(), i - before.len());
        }
    }
}

proof fn lemma_targets_of_sessions(hub: HubView, sessions: Seq<SessionView>, i: int)
    requires
        0 <= i < hub.targets_of(sessions).len(),
    ensures
        !(hub.targets_of(sessions)[i] is NewSession),
    decreases sessions.len(),
{
    if sessions.len() > 0 {
        let before = hub.targets_of(sessions.drop_last());
        if i < before.len() {
            lemma_targets_of_sessions(hub, sessions.drop_last(), i);
        } else if i > before.len() {
            lemma_space_targets(
                sessions.last().name,
                hub.shown_cards(sessions.last()),
                i - before.len() - 1,
            );
        }
    }
}

/// The session that a row of the sidebar belongs to.
pub open spec fn session_of(target: TargetView) -> Option<Seq<char>> {
    match target {
        TargetView::Session(session) => Some(session),
        TargetView::SpaceRow { session, .. } => Some(session),
        TargetView::SpaceGapRow { session, .. } => Some(session),
        TargetView::NewSession => None,
    }
}

proof fn lemma_space_targets_session(session: Seq<char>, cards: Seq<CardView>, i: int)
    requires
        0 <= i < space_targets(session, cards).len(),
    ensures
        session_of(space_targets(session, cards)[i]) == Some(session),
    decreases cards.len(),
{
    if cards.len() > 1 {
        let before = card_targets(session, cards[0]) + gap_targets(session, cards[0], cards[1]);
        if i >= before.len() {
            lemma_space_targets_session(session, cards.drop_first(), i - before.len());
        }
    }
}

proof fn lemma_targets_are_listed(hub: HubView, sessions: Seq<SessionView>, i: int)
    requires
        0 <= i < hub.targets_of(sessions).len(),
    ensures
        session_of(hub.targets_of(sessions)[i]) matches Some(name) && is_listed(sessions, name),
    decreases sessions.len(),
{
    let rest = sessions.drop_last();
    let before = hub.targets_of(rest);
    if i < before.len() {
        lemma_targets_are_listed(hub, rest, i);
        let name = session_of(before[i])->0;
        let k = choose|k: int| 0 <= k < rest.len() && (#[trigger] rest[k]).name == name;
        assert(sessions[k].name == name);
    } else {
        if i > before.len() {
            lemma_space_targets_session(
                sessions.last().name,
                hub.shown_cards(sessions.last()),
                i - before.len() - 1,
            );
        }
        assert(sessions[sessions.len() - 1].name == sessions.last().name);
    }
}

/// Every row of the sidebar belongs to a listed session, but for the one that makes a new session.
pub proof fn rows_belong_to_sessions(hub: HubView, i: int)
    requires
        0 <= i < hub.rows().len(),
    ensures
        match session_of(hub.rows()[i].target) {
            Some(name) => is_listed(hub.sessions, name),
            None => hub.rows()[i].target == TargetView::NewSession,
        },
{
    if !(hub.rows()[i].target is NewSession) {
        lemma_targets_are_listed(hub, hub.sessions, i);
    }
}

/// With less room, rows are missing at the end only.
pub proof fn less_room_cuts_rows_off(first: u16, limit: u16, wider: u16, targets: Seq<TargetView>)
    requires
        limit <= wider,
    ensures
        with_targets(Seq::empty(), first, limit, targets).is_prefix_of(
            with_targets(Seq::empty(), first, wider, targets),
        ),
{
}

/// Whether a target stays where a session is folded: all do but the session's workspaces.
pub open spec fn stays_folded(name: Seq<char>) -> spec_fn(TargetView) -> bool {
    |target: TargetView| target is Session || session_of(target) != Some(name)
}

/// Folding a session takes its workspaces, and nothing else, out of the list of rows.
pub proof fn folding_hides_the_workspaces(
    hub: HubView,
    sessions: Seq<SessionView>,
    name: Seq<char>,
)
    ensures
        (HubView { collapsed: hub.collapsed.insert(name), ..hub }).targets_of(sessions)
            == hub.targets_of(sessions).filter(stays_folded(name)),
    decreases sessions.len(),
{
    broadcast use Seq::filter_distributes_over_add;

    let folded = HubView { collapsed: hub.collapsed.insert(name), ..hub };
    let stays = stays_folded(name);
    reveal(Seq::filter);
    if sessions.len() > 0 {
        folding_hides_the_workspaces(hub, sessions.drop_last(), name);
        let session = sessions.last();
        let heading = seq![TargetView::Session(session.name)];
        let spaces = space_targets(session.name, hub.shown_cards(session));
        assert(heading.drop_last() =~= Seq::empty());
        assert(heading.filter(stays) =~= heading);
        assert forall|i: int| 0 <= i < spaces.len() implies #[trigger] stays(spaces[i]) == (
        session.name != name) by {
            lemma_space_targets(session.name, hub.shown_cards(session), i);
            lemma_space_targets_session(session.name, hub.shown_cards(session), i);
        }
        lemma_filter_all_alike(spaces, stays, session.name != name);
        assert(folded.session_targets(session) =~= hub.session_targets(session).filter(stays));
    }
}

proof fn lemma_filter_all_alike(
    targets: Seq<TargetView>,
    stays: spec_fn(TargetView) -> bool,
    outcome: bool,
)
    requires
        forall|i: int| 0 <= i < targets.len() ==> #[trigger] stays(targets[i]) == outcome,
    ensures
        targets.filter(stays) == if outcome {
            targets
        } else {
            Seq::empty()
        },
    decreases targets.len(),
{
    reveal(Seq::filter);
    if targets.len() > 0 {
        let rest = targets.drop_last();
        assert forall|i: int| 0 <= i < rest.len() implies #[trigger] stays(rest[i]) == outcome by {
            assert(stays(targets[i]) == outcome);
        }
        lemma_filter_all_alike(rest, stays, outcome);
        assert(stays(targets[targets.len() - 1]) == outcome);
        assert(rest.push(targets.last()) =~= targets);
    }
}

} // verus!
