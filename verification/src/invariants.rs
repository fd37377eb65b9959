//! What holds of the hub in every state that it can come to.

use crate::connections::ConnectionView;
use crate::dialogs::{
    erased, extended, first_other, modal_with_error, others, pressed, ProgressView,
};
use crate::effects::{EffectView, HubStreamKind, RoleView};
use crate::events::{resize_message, to_sidebars};
use crate::input::{
    image_message, lone_mouse, target_at, to_active, ImageSource, InputView,
};
use crate::lifecycle::{
    described, fresh_session, initial_hub, initial_sessions, sorted, sorting_is_stable,
    sorting_keeps_sessions, DEFAULT_SESSION_NAME,
};
use crate::protocol::{
    mouse_message, ErrorView, FailureView, KeyCode, MessageView, MouseButton, MouseEvent,
    MouseEventKind, RawInputEvent, ServerView,
};
use crate::rows::{rows_belong_to_sessions, session_of, RowView, TargetView};
use crate::sessions::farewell;
use crate::state::{
    is_first_named, is_listed, lemma_listed_has_place, lemma_place_of, place_of, session_named,
    with_session, HubView, ModalView, RemoteSessionDescriptor, SessionView,
};
use crate::steps::{idle, switch_plan, PlanView, RequestView, StepView, SwitchView};
use vstd::prelude::*;

verus! {

/// Whether no two sessions have the same name.
pub open spec fn distinct(sessions: Seq<SessionView>) -> bool {
    forall|i: int, j: int|
        0 <= i < j < sessions.len() ==> (#[trigger] sessions[i]).name != (
        #[trigger] sessions[j]).name
}

/// A session is found by its name.
proof fn lemma_found(sessions: Seq<SessionView>, at: int)
    requires
        distinct(sessions),
        0 <= at < sessions.len(),
    ensures
        session_named(sessions, sessions[at].name) == Some(sessions[at]),
        place_of(sessions, sessions[at].name) == Some(at),
{
    assert(is_first_named(sessions, sessions[at].name, at));
    lemma_place_of(sessions, sessions[at].name, at);
}

/// What is found by a name is a session of that name.
proof fn lemma_finds(sessions: Seq<SessionView>, name: Seq<char>) -> (at: int)
    ensures
        is_listed(sessions, name) == (session_named(sessions, name) is Some),
        session_named(sessions, name) matches Some(item) ==> 0 <= at < sessions.len()
            && sessions[at] == item && item.name == name && place_of(sessions, name) == Some(at),
{
    lemma_listed_has_place(sessions, name);
    match place_of(sessions, name) {
        Some(at) => at,
        None => 0,
    }
}

/// Replacing a session by one of the same name changes what is found by that name and nothing
/// else.
proof fn lemma_replaced(sessions: Seq<SessionView>, name: Seq<char>, session: SessionView)
    requires
        distinct(sessions),
        is_listed(sessions, name),
        session.name == name,
    ensures
        distinct(with_session(sessions, name, session)),
        forall|n: Seq<char>|
            (#[trigger] session_named(with_session(sessions, name, session), n)) == if n == name {
                Some(session)
            } else {
                session_named(sessions, n)
            },
        forall|n: Seq<char>|
            (#[trigger] is_listed(with_session(sessions, name, session), n)) == is_listed(
                sessions,
                n,
            ),
{
    let at = lemma_finds(sessions, name);
    let after = with_session(sessions, name, session);
    assert(after == sessions.update(at, session));
    assert forall|n: Seq<char>|
        (#[trigger] session_named(after, n)) == (if n == name {
            Some(session)
        } else {
            session_named(sessions, n)
        }) && is_listed(after, n) == is_listed(sessions, n) by {
        lemma_same_names(sessions, after, n);
        let old_place = lemma_finds(sessions, n);
        let new_place = lemma_finds(after, n);
        if n == name {
            lemma_found(after, at);
        } else if is_listed(sessions, n) {
            assert(after[old_place] == sessions[old_place]);
            lemma_found(after, old_place);
        }
    }
    assert forall|n: Seq<char>| (#[trigger] is_listed(after, n)) == is_listed(sessions, n) by {
        lemma_same_names(sessions, after, n);
    }
}

proof fn lemma_same_names(before: Seq<SessionView>, after: Seq<SessionView>, name: Seq<char>)
    requires
        before.len() == after.len(),
        forall|i: int|
            0 <= i < before.len() ==> (#[trigger] before[i]).name == (#[trigger] after[i]).name,
    ensures
        is_listed(after, name) == is_listed(before, name),
{
    if is_listed(after, name) {
        let i = choose|i: int| 0 <= i < after.len() && (#[trigger] after[i]).name == name;
        assert(before[i].name == name);
    }
    if is_listed(before, name) {
        let i = choose|i: int| 0 <= i < before.len() && (#[trigger] before[i]).name == name;
        assert(after[i].name == name);
    }
}

/// Lists of distinct sessions with the same members find the same by each name.
proof fn lemma_same_members(before: Seq<SessionView>, after: Seq<SessionView>, name: Seq<char>)
    requires
        distinct(before),
        distinct(after),
        forall|item: SessionView| before.contains(item) == #[trigger] after.contains(item),
    ensures
        session_named(after, name) == session_named(before, name),
        is_listed(after, name) == is_listed(before, name),
{
    let old_place = lemma_finds(before, name);
    let new_place = lemma_finds(after, name);
    if is_listed(before, name) {
        let item = before[old_place];
        assert(before.contains(item));
        assert(after.contains(item));
        let at = after.index_of(item);
        lemma_found(after, at);
    } else if is_listed(after, name) {
        let item = after[new_place];
        assert(after.contains(item));
        assert(before.contains(item));
        let at = before.index_of(item);
        lemma_found(before, at);
    }
}

proof fn lemma_filter_member(
    sessions: Seq<SessionView>,
    kept: spec_fn(SessionView) -> bool,
    item: SessionView,
)
    ensures
        sessions.filter(kept).contains(item) == (sessions.contains(item) && kept(item)),
    decreases sessions.len(),
{
    reveal(Seq::filter);
    if sessions.len() > 0 {
        let rest = sessions.drop_last();
        let last = sessions.last();
        lemma_filter_member(rest, kept, item);
        assert(sessions.contains(item) == (rest.contains(item) || item == last)) by {
            if rest.contains(item) {
                assert(sessions[rest.index_of(item)] == item);
            }
            assert(sessions[sessions.len() - 1] == last);
            if sessions.contains(item) && item != last {
                assert(rest[sessions.index_of(item)] == item);
            }
        }
        let list = rest.filter(kept);
        if kept(last) {
            assert(list.push(last).contains(item) == (list.contains(item) || item == last)) by {
                if list.contains(item) {
                    assert(list.push(last)[list.index_of(item)] == item);
                }
                assert(list.push(last)[list.len() as int] == last);
                if list.push(last).contains(item) && item != last {
                    assert(list[list.push(last).index_of(item)] == item);
                }
            }
        }
    }
}

/// A part of a list of distinct sessions is one.
proof fn lemma_filter_distinct(sessions: Seq<SessionView>, kept: spec_fn(SessionView) -> bool)
    requires
        distinct(sessions),
    ensures
        distinct(sessions.filter(kept)),
    decreases sessions.len(),
{
    reveal(Seq::filter);
    if sessions.len() > 0 {
        let rest = sessions.drop_last();
        let last = sessions.last();
        let list = rest.filter(kept);
        assert(distinct(rest));
        lemma_filter_distinct(rest, kept);
        if kept(last) {
            assert forall|i: int| 0 <= i < list.len() implies (#[trigger] list[i]).name
                != last.name by {
                lemma_filter_member(rest, kept, list[i]);
                assert(list.contains(list[i]));
                let at = rest.index_of(list[i]);
                assert(sessions[at] == list[i]);
                assert(sessions[sessions.len() - 1] == last);
            }
        }
    }
}

/// Without the sessions of a name, that name finds nothing, and the others what they found.
proof fn lemma_others(sessions: Seq<SessionView>, name: Seq<char>)
    requires
        distinct(sessions),
    ensures
        distinct(others(sessions, name)),
        forall|n: Seq<char>|
            (#[trigger] session_named(others(sessions, name), n)) == if n == name {
                None
            } else {
                session_named(sessions, n)
            },
        forall|n: Seq<char>|
            (#[trigger] is_listed(others(sessions, name), n)) == (n != name && is_listed(
                sessions,
                n,
            )),
{
    let kept = |session: SessionView| session.name != name;
    let after = others(sessions, name);
    lemma_filter_distinct(sessions, kept);
    assert forall|n: Seq<char>|
        (#[trigger] session_named(after, n)) == (if n == name {
            None
        } else {
            session_named(sessions, n)
        }) && is_listed(after, n) == (n != name && is_listed(sessions, n)) by {
        let old_place = lemma_finds(sessions, n);
        let new_place = lemma_finds(after, n);
        if is_listed(after, n) {
            let item = after[new_place];
            lemma_filter_member(sessions, kept, item);
            assert(after.contains(item));
            lemma_found(sessions, sessions.index_of(item));
        } else if n != name && is_listed(sessions, n) {
            let item = sessions[old_place];
            lemma_filter_member(sessions, kept, item);
            assert(sessions.contains(item));
            lemma_found(after, after.index_of(item));
        }
    }
    assert forall|n: Seq<char>|
        (#[trigger] is_listed(after, n)) == (n != name && is_listed(sessions, n)) by {
        let item = session_named(after, n);
        let old_place = lemma_finds(sessions, n);
        let new_place = lemma_finds(after, n);
    }
}

/// With one more session of a new name, that name finds it, and the others what they found.
proof fn lemma_added(sessions: Seq<SessionView>, session: SessionView)
    requires
        distinct(sessions),
        !is_listed(sessions, session.name),
    ensures
        distinct(sessions.push(session)),
        forall|n: Seq<char>|
            (#[trigger] session_named(sessions.push(session), n)) == if n == session.name {
                Some(session)
            } else {
                session_named(sessions, n)
            },
        forall|n: Seq<char>|
            (#[trigger] is_listed(sessions.push(session), n)) == (n == session.name || is_listed(
                sessions,
                n,
            )),
{
    let after = sessions.push(session);
    assert(distinct(after)) by {
        assert forall|i: int, j: int| 0 <= i < j < after.len() implies (#[trigger] after[i]).name
            != (#[trigger] after[j]).name by {
            assert(after[i] == sessions[i]);
            if j < sessions.len() {
                assert(after[j] == sessions[j]);
            }
        }
    }
    assert forall|n: Seq<char>|
        (#[trigger] session_named(after, n)) == (if n == session.name {
            Some(session)
        } else {
            session_named(sessions, n)
        }) && is_listed(after, n) == (n == session.name || is_listed(sessions, n)) by {
        let old_place = lemma_finds(sessions, n);
        let new_place = lemma_finds(after, n);
        if n == session.name {
            lemma_found(after, sessions.len() as int);
        } else if is_listed(sessions, n) {
            assert(after[old_place] == sessions[old_place]);
            lemma_found(after, old_place);
        } else if is_listed(after, n) {
            assert(after[new_place] == sessions[new_place]);
        }
    }
    assert forall|n: Seq<char>|
        (#[trigger] is_listed(after, n)) == (n == session.name || is_listed(sessions, n)) by {
        let item = session_named(after, n);
        let old_place = lemma_finds(sessions, n);
        let new_place = lemma_finds(after, n);
    }
}

proof fn lemma_filter_names(sessions: Seq<SessionView>, name: Seq<char>)
    requires
        distinct(sessions),
    ensures
        sessions.filter(|session: SessionView| session.name == name).len() <= 1,
{
    let kept = |session: SessionView| session.name == name;
    let list = sessions.filter(kept);
    lemma_filter_distinct(sessions, kept);
    if list.len() > 1 {
        lemma_filter_member(sessions, kept, list[0]);
        lemma_filter_member(sessions, kept, list[1]);
        assert(list.contains(list[0]));
        assert(list.contains(list[1]));
        assert(list[0].name == list[1].name);
    }
}

/// Sorting distinct sessions changes nothing of what names find.
proof fn lemma_sorted(sessions: Seq<SessionView>, default_first: bool)
    requires
        distinct(sessions),
    ensures
        distinct(sorted(sessions, default_first)),
        forall|n: Seq<char>|
            (#[trigger] session_named(sorted(sessions, default_first), n)) == session_named(
                sessions,
                n,
            ),
        forall|n: Seq<char>|
            (#[trigger] is_listed(sorted(sessions, default_first), n)) == is_listed(sessions, n),
{
    broadcast use vstd::seq_lib::group_to_multiset_ensures;

    let after = sorted(sessions, default_first);
    sorting_keeps_sessions(sessions, default_first);
    assert forall|i: int, j: int| 0 <= i < j < after.len() implies (#[trigger] after[i]).name != (
    #[trigger] after[j]).name by {
        if after[i].name == after[j].name {
            let name = after[i].name;
            let kept = |session: SessionView| session.name == name;
            sorting_is_stable(sessions, default_first, name);
            lemma_filter_names(sessions, name);
            let left = after.take(j);
            let right = after.skip(j);
            assert(after =~= left + right);
            Seq::filter_distributes_over_add(left, right, kept);
            lemma_filter_member(left, kept, after[i]);
            lemma_filter_member(right, kept, after[j]);
            assert(left[i] == after[i]);
            assert(left.contains(after[i]));
            assert(right[0] == after[j]);
            assert(right.contains(after[j]));
            assert(left.filter(kept).contains(after[i]));
            assert(right.filter(kept).contains(after[j]));
            assert(left.filter(kept).len() > 0);
            assert(right.filter(kept).len() > 0);
        }
    }
    assert forall|item: SessionView|
        sessions.contains(item) == #[trigger] after.contains(item) by {
        assert(sessions.to_multiset().count(item) == after.to_multiset().count(item));
    }
    assert forall|n: Seq<char>|
        (#[trigger] session_named(after, n)) == session_named(sessions, n) by {
        lemma_same_members(sessions, after, n);
    }
    assert forall|n: Seq<char>| (#[trigger] is_listed(after, n)) == is_listed(sessions, n) by {
        lemma_same_members(sessions, after, n);
    }
}

/// The connections that are open after an effect was performed.
pub open spec fn left_open(open: Set<RoleView>, effect: EffectView) -> Set<RoleView> {
    match effect {
        EffectView::Close { role } => open.remove(role),
        _ => open,
    }
}

/// The connections that are open after effects were performed, one after the other.
pub open spec fn open_after(open: Set<RoleView>, effects: Seq<EffectView>) -> Set<RoleView>
    decreases effects.len(),
{
    if effects.len() == 0 {
        open
    } else {
        left_open(open_after(open, effects.drop_last()), effects.last())
    }
}

/// The connections that are open after one of the given role was opened.
pub open spec fn opened(open: Set<RoleView>, role: RoleView) -> Set<RoleView> {
    if role == RoleView::Active && open.contains(RoleView::Active) {
        open.insert(RoleView::PreviousActive)
    } else {
        open.insert(role)
    }
}

/// Whether an effect makes sense where the given connections are open: it sends over one of them or
/// closes one of them, if it has to do with a connection at all.
pub open spec fn can_be_performed(open: Set<RoleView>, effect: EffectView) -> bool {
    match effect {
        EffectView::Send { role, .. } => open.contains(role),
        EffectView::Close { role } => open.contains(role),
        _ => true,
    }
}

/// Whether each of some effects makes sense when its turn comes.
pub open spec fn performable(open: Set<RoleView>, effects: Seq<EffectView>) -> bool
    decreases effects.len(),
{
    effects.len() == 0 || {
        &&& performable(open, effects.drop_last())
        &&& can_be_performed(open_after(open, effects.drop_last()), effects.last())
    }
}

/// The session that a dialog renames or closes.
pub open spec fn altered_by(modal: ModalView) -> Option<Seq<char>> {
    match modal {
        ModalView::Create { .. } => None,
        ModalView::Rename { session, .. } => Some(session),
        ModalView::ConfirmClose { session, .. } => Some(session),
    }
}

impl HubView {
    /// Whether the hub takes a connection to be open.
    pub open spec fn holds(self, role: RoleView) -> bool {
        match role {
            RoleView::Active => true,
            RoleView::PreviousActive => false,
            RoleView::Summary(name) => session_named(self.sessions, name) matches Some(item)
                && item.summary_connected,
            RoleView::Sidebar(name) => session_named(self.sessions, name) matches Some(item)
                && item.sidebar_connected,
        }
    }

    /// The connections that the hub takes to be open; `leaving` tells whether it has yet to let go
    /// of the session that was on the screen before.
    pub open spec fn held(self, leaving: bool) -> Set<RoleView> {
        Set::new(|role: RoleView| self.holds(role) || leaving && role == RoleView::PreviousActive)
    }

    /// Whether the effects, from the given connections on, can be performed and lead to the given
    /// ones.
    pub open spec fn leads(self, open: Set<RoleView>, now: Set<RoleView>) -> bool {
        performable(open, self.effects) && open_after(open, self.effects) == now
    }

    /// Whether sidebar frames come only from sessions that are shown with their workspaces and are
    /// not on the screen.
    pub open spec fn watches_what_it_shows(self) -> bool {
        forall|name: Seq<char>|
            #[trigger] self.holds(RoleView::Sidebar(name)) ==> name != self.active.name
                && !self.collapsed.contains(name)
    }

    /// Whether every generation in use was handed out before the next one. The last generation is
    /// handed out again and again.
    pub open spec fn generations_are_past(self) -> bool {
        self.next_generation == u64::MAX || {
            &&& self.active.generation < self.next_generation
            &&& forall|name: Seq<char>|
                (#[trigger] session_named(self.sessions, name)) matches Some(item)
                    ==> item.summary_generation < self.next_generation && item.sidebar_generation
                    < self.next_generation
        }
    }

    /// Whether a dialog or a menu may be about the named session: it is listed, and not the
    /// default one.
    pub open spec fn may_be_altered(self, name: Seq<char>) -> bool {
        is_listed(self.sessions, name) && name != DEFAULT_SESSION_NAME@
    }

    /// Whether a dialog is about a session that may be altered, or about none.
    pub open spec fn may_open(self, modal: ModalView) -> bool {
        match altered_by(modal) {
            Some(session) => self.may_be_altered(session),
            None => true,
        }
    }

    /// Whether an open dialog is about a session that may be altered, or about none.
    pub open spec fn dialog_is_fit(self) -> bool {
        self.modal is Some ==> self.may_open(self.modal->0)
    }

    /// Whether an open menu is about a session that may be altered, and no dialog is open as well.
    pub open spec fn menu_is_fit(self) -> bool {
        self.session_menu is Some ==> self.modal is None && self.may_be_altered(
            self.session_menu->0.session,
        )
    }

    /// Whether all collapsed sessions are listed.
    pub open spec fn folds_are_listed(self) -> bool {
        forall|name: Seq<char>| #[trigger]
            self.collapsed.contains(name) ==> is_listed(self.sessions, name)
    }

    /// Whether the hub's connections are in order, where the given ones were open before the
    /// effects that are yet to be performed.
    pub open spec fn connected_well(self, open: Set<RoleView>, leaving: bool) -> bool {
        &&& distinct(self.sessions)
        &&& self.watches_what_it_shows()
        &&& self.generations_are_past()
        &&& self.leads(open, self.held(leaving))
    }

    /// What holds of the hub in every state that it can come to, where the given connections were
    /// open before the effects that are yet to be performed: each name is listed once; the session
    /// on the screen and all collapsed ones are listed; what is open is about a listed session
    /// other than the default one; and connections are in order, which is to say that the effects
    /// can be performed, one after the other, and lead to the connections that the hub counts on.
    pub open spec fn sound(self, open: Set<RoleView>) -> bool {
        &&& self.connected_well(open, false)
        &&& is_listed(self.sessions, self.active.name)
        &&& self.folds_are_listed()
        &&& self.dialog_is_fit()
        &&& self.menu_is_fit()
    }

    /// What holds of the hub while it follows a plan, where the given connections were open before
    /// the effects that are yet to be performed: as [`HubView::sound`], but that the plan may have
    /// yet to put a listed session on the screen, to be done with the dialog, or to let go of the
    /// session that was on the screen before; and the plan itself is in order.
    pub open spec fn pending(self, open: Set<RoleView>, plan: PlanView) -> bool {
        &&& self.connected_well(open, plan.release)
        &&& plan.switch is Some || is_listed(self.sessions, self.active.name)
        &&& self.folds_are_listed()
        &&& plan.finish is Some || self.dialog_is_fit()
        &&& self.menu_is_fit()
        &&& self.plan_is_fit(plan)
    }

    /// Whether a plan is in order: it puts a listed session on the screen, and then has no other
    /// use for the session before; it watches no collapsed session; and it closes a session that
    /// may be altered and will not be on the screen.
    pub open spec fn plan_is_fit(self, plan: PlanView) -> bool {
        &&& plan.switch is Some ==> is_listed(self.sessions, plan.switch->0.session)
            && plan.sidebar is None && !plan.release
        &&& plan.sidebar is Some ==> !self.collapsed.contains(plan.sidebar->0)
        &&& plan.close is Some ==> {
            &&& plan.finish is None
            &&& self.modal is Some
            &&& self.may_be_altered(plan.close->0)
            &&& plan.close->0 != if plan.switch is Some {
                plan.switch->0.session
            } else {
                self.active.name
            }
        }
    }

    /// What holds of the hub while it waits for a connection, with the rest of a plan: the
    /// connection is not open yet, is in order as a part of the plan, and has a generation that was
    /// handed out.
    pub open spec fn waiting(
        self,
        open: Set<RoleView>,
        connection: ConnectionView,
        plan: PlanView,
    ) -> bool {
        &&& self.next_generation == u64::MAX || connection.generation < self.next_generation
        &&& plan.summary is None
        &&& match connection.role {
            RoleView::Summary(_) => !self.holds(connection.role) && self.pending(open, plan),
            RoleView::Sidebar(name) => {
                &&& !self.holds(connection.role)
                &&& name != self.active.name
                &&& plan.switch is None
                &&& plan.sidebar is None
                &&& self.pending(open, PlanView { sidebar: Some(name), ..plan })
            },
            RoleView::Active => {
                &&& !self.holds(RoleView::Sidebar(connection.session))
                &&& plan.switch is None
                &&& self.pending(open, PlanView { switch: Some(switch_of(connection)), ..plan })
            },
            RoleView::PreviousActive => false,
        }
    }

    /// Whether a request to the host is in order: a new session's name is not listed; a session
    /// that is to be altered may be altered and has no connections, and one that is to be closed
    /// is not on the screen.
    pub open spec fn due(self, request: RequestView) -> bool {
        match request {
            RequestView::Create { session } => !is_listed(self.sessions, session),
            RequestView::Rename { session, new_name } => {
                self.is_detached(session) && !is_listed(self.sessions, new_name)
            },
            RequestView::Close { session } => {
                self.is_detached(session) && session != self.active.name
            },
        }
    }

    /// Whether the named session may be altered and has no connections.
    pub open spec fn is_detached(self, name: Seq<char>) -> bool {
        &&& self.may_be_altered(name)
        &&& !self.holds(RoleView::Summary(name))
        &&& !self.holds(RoleView::Sidebar(name))
    }

    /// What holds of the hub when a step comes next: it waits for the connection that the step asks
    /// for, or it is sound, and asks the host only for what is in order, with a dialog open.
    pub open spec fn fit_for(self, open: Set<RoleView>, step: StepView) -> bool {
        match step {
            StepView::Settled => self.sound(open),
            StepView::Connect { connection, plan } => self.waiting(open, connection, plan),
            StepView::ParseName { .. } => self.sound(open),
            StepView::Ask { request } => self.sound(open) && self.modal is Some && self.due(
                request,
            ),
        }
    }

    /// What holds of the hub when a step comes next, or when it stops.
    pub open spec fn fit_for_outcome(
        self,
        open: Set<RoleView>,
        outcome: Result<StepView, ErrorView>,
    ) -> bool {
        match outcome {
            Ok(step) => self.fit_for(open, step),
            Err(_) => self.sound(open),
        }
    }

    /// What holds of the hub when its dialog came this far.
    pub open spec fn fit_for_progress(
        self,
        open: Set<RoleView>,
        progress: Result<ProgressView, ErrorView>,
    ) -> bool {
        match progress {
            Ok(ProgressView::Waiting { step, .. }) => self.fit_for(open, step),
            _ => self.sound(open),
        }
    }

    /// What holds of the hub after input.
    pub open spec fn fit_for_input(
        self,
        open: Set<RoleView>,
        outcome: Result<InputView, ErrorView>,
    ) -> bool {
        match outcome {
            Ok(InputView::Taken(step)) => self.fit_for(open, step),
            Ok(InputView::Modal(progress)) => self.fit_for_progress(open, Ok(progress)),
            _ => self.sound(open),
        }
    }

    /// Whether two hubs list the same names.
    pub open spec fn lists_as(self, other: HubView) -> bool {
        forall|name: Seq<char>|
            (#[trigger] is_listed(self.sessions, name)) == is_listed(other.sessions, name)
    }
}

/// The switch that a connection is for.
pub open spec fn switch_of(connection: ConnectionView) -> SwitchView {
    SwitchView { session: connection.session, workspace: connection.workspace }
}

proof fn lemma_asking(
    hub: HubView,
    open: Set<RoleView>,
    now: Set<RoleView>,
    effect: EffectView,
)
    requires
        hub.leads(open, now),
        can_be_performed(now, effect),
    ensures
        hub.asking(effect).leads(open, left_open(now, effect)),
{
    assert(hub.asking(effect).effects.drop_last() =~= hub.effects);
}

proof fn lemma_summary_established(
    hub: HubView,
    open: Set<RoleView>,
    leaving: bool,
    name: Seq<char>,
    generation: u64,
)
    requires
        hub.connected_well(open, leaving),
        hub.effects.len() == 0,
        !hub.holds(RoleView::Summary(name)),
        hub.next_generation == u64::MAX || generation < hub.next_generation,
    ensures
        hub.summary_established(name, generation).connected_well(
            open.insert(RoleView::Summary(name)),
            leaving,
        ),
        hub.summary_established(name, generation).lists_as(hub),
{
    let role = RoleView::Summary(name);
    let more = open.insert(role);
    let after = hub.summary_established(name, generation);
    let place = lemma_finds(hub.sessions, name);
    match session_named(hub.sessions, name) {
        Some(item) => {
            let session = SessionView {
                running: true,
                summary_generation: generation,
                summary_connected: true,
                ..item
            };
            lemma_replaced(hub.sessions, name, session);
            assert(after.held(leaving) =~= more);
        },
        None => {
            lemma_asking(hub, more, more, EffectView::Close { role });
            assert(more.remove(role) =~= open);
            assert(after.held(leaving) =~= open);
        },
    }
    assert forall|n: Seq<char>| #[trigger]
        after.holds(RoleView::Sidebar(n)) implies n != after.active.name
        && !after.collapsed.contains(n) by {
        assert(hub.holds(RoleView::Sidebar(n)));
    }
}

proof fn lemma_sidebar_established(
    hub: HubView,
    open: Set<RoleView>,
    leaving: bool,
    name: Seq<char>,
    generation: u64,
)
    requires
        hub.connected_well(open, leaving),
        hub.effects.len() == 0,
        !hub.holds(RoleView::Sidebar(name)),
        name != hub.active.name,
        !hub.collapsed.contains(name),
        hub.next_generation == u64::MAX || generation < hub.next_generation,
    ensures
        hub.sidebar_established(name, generation).connected_well(
            open.insert(RoleView::Sidebar(name)),
            leaving,
        ),
        hub.sidebar_established(name, generation).lists_as(hub),
{
    let role = RoleView::Sidebar(name);
    let more = open.insert(role);
    let after = hub.sidebar_established(name, generation);
    let place = lemma_finds(hub.sessions, name);
    match session_named(hub.sessions, name) {
        Some(item) => {
            let session = SessionView {
                running: true,
                sidebar_generation: generation,
                sidebar_connected: true,
                sidebar_frame: None,
                ..item
            };
            lemma_replaced(hub.sessions, name, session);
            assert(after.held(leaving) =~= more);
        },
        None => {
            lemma_asking(hub, more, more, EffectView::Close { role });
            assert(more.remove(role) =~= open);
            assert(after.held(leaving) =~= open);
        },
    }
    assert forall|n: Seq<char>| #[trigger]
        after.holds(RoleView::Sidebar(n)) implies n != after.active.name
        && !after.collapsed.contains(n) by {
        assert(n == name || hub.holds(RoleView::Sidebar(n)));
    }
}

proof fn lemma_switch_established(
    hub: HubView,
    open: Set<RoleView>,
    name: Seq<char>,
    generation: u64,
)
    requires
        hub.connected_well(open, false),
        hub.effects.len() == 0,
        !hub.holds(RoleView::Sidebar(name)),
        hub.next_generation == u64::MAX || generation < hub.next_generation,
    ensures
        hub.switch_established(name, generation).connected_well(
            open.insert(RoleView::PreviousActive),
            true,
        ),
{
    let previous = RoleView::PreviousActive;
    let more = open.insert(previous);
    let after = hub.switch_established(name, generation);
    lemma_asking(hub, more, more, farewell(previous));
    assert(after.held(true) =~= more);
    assert forall|n: Seq<char>| #[trigger]
        after.holds(RoleView::Sidebar(n)) implies n != after.active.name
        && !after.collapsed.contains(n) by {
        assert(hub.holds(RoleView::Sidebar(n)));
    }
}

/// Whether the hub's connections are in order, but that the named session need not be watched.
spec fn connected_but(
    hub: HubView,
    open: Set<RoleView>,
    leaving: bool,
    name: Seq<char>,
) -> bool {
    &&& distinct(hub.sessions)
    &&& forall|n: Seq<char>|
        #[trigger] hub.holds(RoleView::Sidebar(n)) && n != name ==> n != hub.active.name
            && !hub.collapsed.contains(n)
    &&& hub.generations_are_past()
    &&& hub.leads(open, hub.held(leaving))
}

proof fn lemma_without_sidebar(
    hub: HubView,
    open: Set<RoleView>,
    leaving: bool,
    name: Seq<char>,
)
    requires
        connected_but(hub, open, leaving, name),
    ensures
        hub.without_sidebar(name).connected_well(open, leaving),
        hub.without_sidebar(name).lists_as(hub),
        !hub.without_sidebar(name).holds(RoleView::Sidebar(name)),
{
    let place = lemma_finds(hub.sessions, name);
    let role = RoleView::Sidebar(name);
    let after = hub.without_sidebar(name);
    match session_named(hub.sessions, name) {
        Some(item) => {
            let session = SessionView {
                sidebar_generation: 0,
                sidebar_connected: false,
                sidebar_frame: None,
                ..item
            };
            lemma_replaced(hub.sessions, name, session);
            if item.sidebar_connected {
                lemma_asking(hub, open, hub.held(leaving), farewell(role));
                lemma_asking(
                    hub.asking(farewell(role)),
                    open,
                    hub.held(leaving),
                    EffectView::Close { role },
                );
            }
            assert(after.held(leaving) =~= hub.held(leaving).remove(role));
            assert(!item.sidebar_connected ==> hub.held(leaving) =~= hub.held(leaving).remove(role));
            assert forall|n: Seq<char>| #[trigger]
                after.holds(RoleView::Sidebar(n)) implies n != after.active.name
                && !after.collapsed.contains(n) by {
                assert(n != name && hub.holds(RoleView::Sidebar(n)));
            }
        },
        None => {},
    }
}

proof fn lemma_without_observers(
    hub: HubView,
    open: Set<RoleView>,
    leaving: bool,
    name: Seq<char>,
)
    requires
        connected_but(hub, open, leaving, name),
    ensures
        hub.without_observers(name).connected_well(open, leaving),
        hub.without_observers(name).lists_as(hub),
        !hub.without_observers(name).holds(RoleView::Sidebar(name)),
        !hub.without_observers(name).holds(RoleView::Summary(name)),
{
    let place = lemma_finds(hub.sessions, name);
    let summary = RoleView::Summary(name);
    let sidebar = RoleView::Sidebar(name);
    let after = hub.without_observers(name);
    match session_named(hub.sessions, name) {
        Some(item) => {
            let session = SessionView {
                summary_connected: false,
                sidebar_connected: false,
                sidebar_frame: None,
                ..item
            };
            lemma_replaced(hub.sessions, name, session);
            let first = hub.asking_if(item.summary_connected, farewell(summary));
            let second = first.asking_if(item.sidebar_connected, farewell(sidebar));
            let third = second.asking_if(
                item.summary_connected,
                EffectView::Close { role: summary },
            );
            let left = if item.summary_connected {
                hub.held(leaving).remove(summary)
            } else {
                hub.held(leaving)
            };
            if item.summary_connected {
                lemma_asking(hub, open, hub.held(leaving), farewell(summary));
            }
            if item.sidebar_connected {
                lemma_asking(first, open, hub.held(leaving), farewell(sidebar));
            }
            if item.summary_connected {
                lemma_asking(second, open, hub.held(leaving), EffectView::Close { role: summary });
            }
            if item.sidebar_connected {
                lemma_asking(third, open, left, EffectView::Close { role: sidebar });
            }
            assert(after.held(leaving) =~= left.remove(sidebar));
            assert(!item.sidebar_connected ==> left =~= left.remove(sidebar));
            assert forall|n: Seq<char>| #[trigger]
                after.holds(RoleView::Sidebar(n)) implies n != after.active.name
                && !after.collapsed.contains(n) by {
                assert(n != name && hub.holds(RoleView::Sidebar(n)));
            }
        },
        None => {},
    }
}

/// Connections depend on nothing but the sessions, the one on the screen, the collapsed ones, the
/// generations and the effects.
proof fn lemma_same_connections(
    hub: HubView,
    after: HubView,
    open: Set<RoleView>,
    leaving: bool,
)
    requires
        hub.connected_well(open, leaving),
        after.sessions == hub.sessions,
        after.active.name == hub.active.name,
        after.active.generation == hub.active.generation,
        after.collapsed == hub.collapsed,
        hub.next_generation <= after.next_generation,
        after.effects == hub.effects,
    ensures
        after.connected_well(open, leaving),
{
    assert(after.held(leaving) =~= hub.held(leaving));
    assert forall|n: Seq<char>| #[trigger]
        after.holds(RoleView::Sidebar(n)) implies n != after.active.name
        && !after.collapsed.contains(n) by {
        assert(hub.holds(RoleView::Sidebar(n)));
    }
}

/// Whether a session has no connections and never had any.
spec fn unconnected(session: Option<SessionView>) -> bool {
    match session {
        Some(item) => !item.summary_connected && !item.sidebar_connected && item.summary_generation
            == 0 && item.sidebar_generation == 0,
        None => true,
    }
}

proof fn lemma_fresh_is_unconnected(hub: HubView, open: Set<RoleView>)
    requires
        distinct(hub.sessions),
        forall|n: Seq<char>| unconnected(#[trigger] session_named(hub.sessions, n)),
        hub.active.generation < hub.next_generation,
        hub.leads(open, set![RoleView::Active]),
    ensures
        hub.connected_well(open, false),
{
    assert forall|role: RoleView| hub.held(false).contains(role) == (role == RoleView::Active) by {}
    assert(hub.held(false) =~= set![RoleView::Active]);
}

/// The hub is sound at its start, with the first connection open, where a host lists each name
/// once.
pub proof fn starting_is_sound(
    descriptors: Seq<RemoteSessionDescriptor>,
    initial: Seq<char>,
    cols: u16,
    rows: u16,
    keybindings: Seq<u8>,
)
    requires
        distinct(described(descriptors)),
    ensures
        initial_hub(descriptors, initial, cols, rows, keybindings).sound(
            opened(Set::empty(), RoleView::Active),
        ),
{
    let hub = initial_hub(descriptors, initial, cols, rows, keybindings);
    let open = opened(Set::empty(), RoleView::Active);
    let listed = described(descriptors);
    let all = if is_listed(listed, initial) {
        listed
    } else {
        listed.push(fresh_session(initial, false))
    };
    if !is_listed(listed, initial) {
        lemma_added(listed, fresh_session(initial, false));
    }
    lemma_sorted(all, true);
    let ordered = initial_sessions(descriptors, initial);
    assert(ordered == sorted(all, true));
    assert forall|n: Seq<char>|
        (#[trigger] session_named(all, n)) is Some implies session_named(all, n) == Some(
        fresh_session(n, session_named(all, n)->0.running),
    ) by {
        let at = lemma_finds(all, n);
    }
    let place = lemma_finds(ordered, initial);
    let item = session_named(ordered, initial)->0;
    lemma_replaced(ordered, initial, SessionView { running: true, ..item });
    assert(open =~= set![RoleView::Active]);
    assert forall|n: Seq<char>| unconnected(#[trigger] session_named(hub.sessions, n)) by {
        assert(session_named(ordered, n) == session_named(all, n));
    }
    lemma_fresh_is_unconnected(hub, open);
}

/// The hub stays sound when it asks for a connection for summaries at the start, whether or not the
/// connection is then there.
pub proof fn connecting_at_the_start_is_sound(
    hub: HubView,
    open: Set<RoleView>,
    name: Seq<char>,
    attempt: Result<(), FailureView>,
)
    requires
        hub.sound(open),
        hub.effects.len() == 0,
        hub.lacks_summary(name),
    ensures
        hub.past_next_generation().summary_attempted(hub.summary_request(name), attempt).sound(
            if attempt is Ok {
                opened(open, RoleView::Summary(name))
            } else {
                open
            },
        ),
{
    let next = hub.past_next_generation();
    lemma_same_connections(hub, next, open, false);
    match attempt {
        Ok(_) => lemma_summary_established(next, open, false, name, hub.next_generation),
        Err(failure) => lemma_same_connections(
            next,
            next.summary_attempted(hub.summary_request(name), attempt),
            open,
            false,
        ),
    }
}

/// What a plan needs stays in order where names stay listed and connections are in order.
proof fn lemma_pending_kept(
    hub: HubView,
    after: HubView,
    open: Set<RoleView>,
    more: Set<RoleView>,
    plan: PlanView,
)
    requires
        hub.pending(open, plan),
        after.connected_well(more, plan.release),
        after.lists_as(hub),
        after.active == hub.active,
        after.collapsed == hub.collapsed,
        after.modal == hub.modal,
        after.session_menu == hub.session_menu,
    ensures
        after.pending(more, plan),
{
    assert forall|name: Seq<char>| #[trigger] after.collapsed.contains(name) implies is_listed(
        after.sessions,
        name,
    ) by {
        assert(hub.collapsed.contains(name));
    }
    assert(is_listed(after.sessions, after.active.name) == is_listed(
        hub.sessions,
        hub.active.name,
    ));
    if after.modal is Some {
        if let Some(session) = altered_by(after.modal->0) {
            assert(is_listed(after.sessions, session) == is_listed(hub.sessions, session));
        }
    }
    if after.session_menu is Some {
        let session = after.session_menu->0.session;
        assert(is_listed(after.sessions, session) == is_listed(hub.sessions, session));
    }
    if plan.switch is Some {
        let session = plan.switch->0.session;
        assert(is_listed(after.sessions, session) == is_listed(hub.sessions, session));
    }
    if plan.close is Some {
        let session = plan.close->0;
        assert(is_listed(after.sessions, session) == is_listed(hub.sessions, session));
    }
}

proof fn lemma_past_next_generation(hub: HubView, open: Set<RoleView>, plan: PlanView)
    requires
        hub.pending(open, plan),
    ensures
        hub.past_next_generation().pending(open, plan),
{
    let after = hub.past_next_generation();
    lemma_same_connections(hub, after, open, plan.release);
    lemma_pending_kept(hub, after, open, open, plan);
}

proof fn lemma_concluded(hub: HubView, open: Set<RoleView>, plan: PlanView)
    requires
        hub.pending(open, plan),
        plan.switch is None,
    ensures
        hub.concluded(plan).0.fit_for(open, hub.concluded(plan).1),
{
    let close = EffectView::Close { role: RoleView::PreviousActive };
    let released = hub.asking_if(plan.release, close);
    let dated = HubView { repaint: hub.repaint || plan.repaint, ..released };
    let finished = match plan.finish {
        Some(status) => HubView { modal: None, status: Some(status), ..dated },
        None => dated,
    };
    if plan.release {
        lemma_asking(hub, open, hub.held(true), close);
    }
    assert(released.held(false) =~= hub.held(plan.release).remove(RoleView::PreviousActive));
    assert(!plan.release ==> hub.held(false) =~= released.held(false));
    assert forall|n: Seq<char>| #[trigger]
        released.holds(RoleView::Sidebar(n)) implies n != released.active.name
        && !released.collapsed.contains(n) by {
        assert(hub.holds(RoleView::Sidebar(n)));
    }
    lemma_same_connections(released, finished, open, false);
    assert(finished.sound(open));
    if let Some(session) = plan.close {
        lemma_detached(finished, open, session);
    }
}

proof fn lemma_watching(hub: HubView, open: Set<RoleView>, plan: PlanView)
    requires
        hub.pending(open, plan),
        plan.summary is None,
        plan.switch is None,
    ensures
        hub.watching(plan).0.fit_for(open, hub.watching(plan).1),
{
    let rest = PlanView { sidebar: None, ..plan };
    assert(hub.pending(open, rest));
    lemma_concluded(hub, open, rest);
    if let Some(name) = plan.sidebar {
        if hub.lacks_sidebar(name) {
            lemma_past_next_generation(hub, open, plan);
            let after = hub.past_next_generation();
            let place = lemma_finds(hub.sessions, name);
            assert(PlanView { sidebar: Some(name), ..rest } == plan);
            assert(!after.holds(RoleView::Sidebar(name)));
        }
    }
}

proof fn lemma_switching(hub: HubView, open: Set<RoleView>, plan: PlanView)
    requires
        hub.pending(open, plan),
        plan.summary is None,
    ensures
        hub.switching(plan).0.fit_for(open, hub.switching(plan).1),
{
    let rest = PlanView { switch: None, ..plan };
    match plan.switch {
        Some(switch) => {
            let freed = hub.without_sidebar(switch.session);
            lemma_without_sidebar(hub, open, false, switch.session);
            lemma_pending_kept(hub, freed, open, open, plan);
            lemma_past_next_generation(freed, open, plan);
            let after = freed.past_next_generation();
            let connection = hub.switch_request(switch.session, switch.workspace);
            assert(PlanView { switch: Some(switch_of(connection)), ..rest } == plan);
            assert(!after.holds(RoleView::Sidebar(switch.session)));
        },
        None => {
            assert(rest == plan);
            lemma_watching(hub, open, plan);
        },
    }
}

/// Following a plan in order keeps the hub in order: it comes to wait for a connection, or to a
/// step for which it is fit.
pub proof fn following_is_sound(hub: HubView, open: Set<RoleView>, plan: PlanView)
    requires
        hub.pending(open, plan),
    ensures
        hub.following(plan).0.fit_for(open, hub.following(plan).1),
{
    let rest = PlanView { summary: None, ..plan };
    assert(hub.pending(open, rest));
    lemma_switching(hub, open, rest);
    if let Some(name) = plan.summary {
        if hub.lacks_summary(name) {
            lemma_past_next_generation(hub, open, rest);
        }
    }
}

proof fn lemma_established(
    hub: HubView,
    open: Set<RoleView>,
    connection: ConnectionView,
    plan: PlanView,
)
    requires
        hub.waiting(open, connection, plan),
        hub.effects.len() == 0,
    ensures
        hub.established(connection).pending(
            opened(open, connection.role),
            hub.plan_after(connection, plan),
        ),
{
    let after = hub.established(connection);
    let generation = connection.generation;
    match connection.role {
        RoleView::Summary(name) => {
            lemma_summary_established(hub, open, plan.release, name, generation);
            lemma_pending_kept(hub, after, open, opened(open, connection.role), plan);
        },
        RoleView::Sidebar(name) => {
            let whole = PlanView { sidebar: Some(name), ..plan };
            lemma_sidebar_established(hub, open, plan.release, name, generation);
            lemma_pending_kept(hub, after, open, opened(open, connection.role), whole);
            assert(after.pending(opened(open, connection.role), plan));
        },
        RoleView::Active => {
            let whole = PlanView { switch: Some(switch_of(connection)), ..plan };
            lemma_switch_established(hub, open, connection.session, generation);
            assert(open == hub.held(false));
            assert(open.contains(RoleView::Active));
        },
        RoleView::PreviousActive => {},
    }
}

/// Once the connection that the hub waits for is open, and all effects were performed, the hub goes
/// on in order.
pub proof fn connecting_is_sound(
    hub: HubView,
    open: Set<RoleView>,
    connection: ConnectionView,
    plan: PlanView,
)
    requires
        hub.waiting(open, connection, plan),
        hub.effects.len() == 0,
    ensures
        match hub.attempted(connection, plan, Ok(())).1 {
            Ok(step) => hub.attempted(connection, plan, Ok(())).0.fit_for(
                opened(open, connection.role),
                step,
            ),
            Err(_) => false,
        },
{
    lemma_established(hub, open, connection, plan);
    following_is_sound(
        hub.established(connection),
        opened(open, connection.role),
        hub.plan_after(connection, plan),
    );
}

/// A sound hub that switches to a listed session goes on in order.
pub proof fn switching_is_sound(
    hub: HubView,
    open: Set<RoleView>,
    name: Seq<char>,
    workspace: Option<Seq<char>>,
)
    requires
        hub.sound(open),
        is_listed(hub.sessions, name),
    ensures
        hub.following(switch_plan(name, workspace)).0.fit_for(
            open,
            hub.following(switch_plan(name, workspace)).1,
        ),
{
    following_is_sound(hub, open, switch_plan(name, workspace));
}

/// A sound hub goes on in order when a row of the sidebar is chosen, with no menu open.
pub proof fn choosing_a_row_is_sound(
    hub: HubView,
    open: Set<RoleView>,
    target: TargetView,
    repaint: bool,
)
    requires
        hub.sound(open),
        hub.session_menu is None,
        target matches TargetView::Session(name) ==> is_listed(hub.sessions, name),
    ensures
        hub.activated(target, repaint).0.fit_for(open, hub.activated(target, repaint).1),
{
    let (chosen, plan) = hub.chosen(target);
    let whole = PlanView { repaint, ..plan };
    match target {
        TargetView::Session(name) => {
            if hub.collapsed.contains(name) {
                assert(chosen.held(false) =~= hub.held(false));
                assert forall|n: Seq<char>| #[trigger]
                    chosen.holds(RoleView::Sidebar(n)) implies n != chosen.active.name
                    && !chosen.collapsed.contains(n) by {
                    assert(hub.holds(RoleView::Sidebar(n)));
                }
            } else if !hub.awaits_summary(name) {
                let hidden = HubView { collapsed: hub.collapsed.insert(name), ..hub };
                assert(hidden.held(false) =~= hub.held(false));
                assert forall|n: Seq<char>| #[trigger]
                    hidden.holds(RoleView::Sidebar(n)) && n != name implies n != hidden.active.name
                    && !hidden.collapsed.contains(n) by {
                    assert(hub.holds(RoleView::Sidebar(n)));
                }
                lemma_without_sidebar(hidden, open, false, name);
                assert forall|n: Seq<char>| #[trigger] chosen.collapsed.contains(n) implies
                    is_listed(chosen.sessions, n) by {
                    assert(n == name || hub.collapsed.contains(n));
                    assert(is_listed(chosen.sessions, n) == is_listed(hub.sessions, n));
                }
                assert(is_listed(chosen.sessions, chosen.active.name) == is_listed(
                    hub.sessions,
                    hub.active.name,
                ));
                if chosen.modal is Some {
                    if let Some(session) = altered_by(chosen.modal->0) {
                        assert(is_listed(chosen.sessions, session) == is_listed(
                            hub.sessions,
                            session,
                        ));
                    }
                }
            }
        },
        TargetView::NewSession => {
            lemma_same_connections(hub, chosen, open, false);
        },
        _ => {},
    }
    following_is_sound(chosen, open, whole);
}

proof fn lemma_sidebar_sends(hub: HubView, open: Set<RoleView>, message: MessageView, count: int)
    requires
        hub.connected_well(open, false),
        0 <= count <= hub.sessions.len(),
    ensures
        (HubView {
            effects: hub.effects + to_sidebars(hub.sessions.take(count), message),
            ..hub
        }).leads(open, hub.held(false)),
    decreases count,
{
    let sends = to_sidebars(hub.sessions.take(count), message);
    if count == 0 {
        assert(hub.effects + sends =~= hub.effects);
    } else {
        lemma_sidebar_sends(hub, open, message, count - 1);
        let shorter = hub.sessions.take(count - 1);
        assert(hub.sessions.take(count).drop_last() =~= shorter);
        let session = hub.sessions[count - 1];
        let before = HubView { effects: hub.effects + to_sidebars(shorter, message), ..hub };
        if session.sidebar_connected {
            lemma_found(hub.sessions, count - 1);
            let role = RoleView::Sidebar(session.name);
            assert(hub.holds(role));
            let send = EffectView::Send { role, message, required: true };
            lemma_asking(before, open, hub.held(false), send);
            assert(hub.effects + sends =~= before.effects.push(send));
        }
    }
}

/// The hub stays sound when the terminal changes its size.
pub proof fn resizing_is_sound(hub: HubView, open: Set<RoleView>, cols: u16, rows: u16)
    requires
        hub.sound(open),
    ensures
        hub.resized(cols, rows).sound(open),
{
    let message = resize_message(cols, rows);
    let asked = hub.asking(to_active(message));
    let after = hub.resized(cols, rows);
    lemma_asking(hub, open, hub.held(false), to_active(message));
    assert(asked.held(false) =~= hub.held(false));
    assert forall|n: Seq<char>| #[trigger]
        asked.holds(RoleView::Sidebar(n)) implies n != asked.active.name
        && !asked.collapsed.contains(n) by {
        assert(hub.holds(RoleView::Sidebar(n)));
    }
    lemma_sidebar_sends(asked, open, message, asked.sessions.len() as int);
    assert(asked.sessions.take(asked.sessions.len() as int) =~= asked.sessions);
    let sent = HubView { effects: after.effects, ..hub };
    assert(sent.held(false) =~= hub.held(false));
    assert forall|n: Seq<char>| #[trigger]
        sent.holds(RoleView::Sidebar(n)) implies n != sent.active.name
        && !sent.collapsed.contains(n) by {
        assert(hub.holds(RoleView::Sidebar(n)));
    }
    lemma_same_connections(sent, after, open, false);
}

/// Soundness depends on connections and on what is open.
proof fn lemma_same_state(hub: HubView, after: HubView, open: Set<RoleView>)
    requires
        hub.sound(open),
        after.sessions == hub.sessions,
        after.active.name == hub.active.name,
        after.active.generation == hub.active.generation,
        after.collapsed == hub.collapsed,
        after.next_generation == hub.next_generation,
        after.effects == hub.effects,
        after.modal == hub.modal,
        after.session_menu == hub.session_menu,
    ensures
        after.sound(open),
{
    lemma_same_connections(hub, after, open, false);
}

/// The hub stays sound when a session is replaced by one that is connected as it was before.
proof fn lemma_updated(hub: HubView, open: Set<RoleView>, name: Seq<char>, session: SessionView)
    requires
        hub.sound(open),
        session_named(hub.sessions, name) matches Some(item) && session.name == name
            && session.summary_connected == item.summary_connected && session.sidebar_connected
            == item.sidebar_connected && session.summary_generation == item.summary_generation
            && session.sidebar_generation == item.sidebar_generation,
    ensures
        (HubView { sessions: with_session(hub.sessions, name, session), ..hub }).sound(open),
{
    let after = HubView { sessions: with_session(hub.sessions, name, session), ..hub };
    let place = lemma_finds(hub.sessions, name);
    lemma_replaced(hub.sessions, name, session);
    assert(after.held(false) =~= hub.held(false));
    assert forall|n: Seq<char>| #[trigger]
        after.holds(RoleView::Sidebar(n)) implies n != after.active.name
        && !after.collapsed.contains(n) by {
        assert(hub.holds(RoleView::Sidebar(n)));
    }
}

/// The hub stays sound when a session loses the connection of the given role.
proof fn lemma_lost(
    hub: HubView,
    open: Set<RoleView>,
    name: Seq<char>,
    session: SessionView,
    role: RoleView,
)
    requires
        hub.sound(open),
        session.name == name,
        session_named(hub.sessions, name) matches Some(item) && session.summary_generation
            == item.summary_generation && session.sidebar_generation == item.sidebar_generation && (
        role == RoleView::Summary(name) && !session.summary_connected && session.sidebar_connected
            == item.sidebar_connected || role == RoleView::Sidebar(name)
            && !session.sidebar_connected && session.summary_connected == item.summary_connected),
    ensures
        ({
            let asked = hub.asking_if(hub.holds(role), EffectView::Close { role });
            HubView { sessions: with_session(hub.sessions, name, session), ..asked }.sound(open)
        }),
{
    let asked = hub.asking_if(hub.holds(role), EffectView::Close { role });
    let after = HubView { sessions: with_session(hub.sessions, name, session), ..asked };
    let place = lemma_finds(hub.sessions, name);
    lemma_replaced(hub.sessions, name, session);
    if hub.holds(role) {
        lemma_asking(hub, open, hub.held(false), EffectView::Close { role });
    }
    assert(after.held(false) =~= hub.held(false).remove(role));
    assert(!hub.holds(role) ==> hub.held(false) =~= hub.held(false).remove(role));
    assert forall|n: Seq<char>| #[trigger]
        after.holds(RoleView::Sidebar(n)) implies n != after.active.name
        && !after.collapsed.contains(n) by {
        assert(hub.holds(RoleView::Sidebar(n)));
    }
}

/// The hub stays sound when it asks for something that needs no connection, or that is sent over
/// one that it holds.
proof fn lemma_asked(hub: HubView, open: Set<RoleView>, effect: EffectView)
    requires
        hub.sound(open),
        effect matches EffectView::Send { role, .. } ==> hub.holds(role),
        !(effect is Close),
    ensures
        hub.asking(effect).sound(open),
{
    let after = hub.asking(effect);
    lemma_asking(hub, open, hub.held(false), effect);
    assert(after.held(false) =~= hub.held(false));
    assert forall|n: Seq<char>| #[trigger]
        after.holds(RoleView::Sidebar(n)) implies n != after.active.name
        && !after.collapsed.contains(n) by {
        assert(hub.holds(RoleView::Sidebar(n)));
    }
}

/// The hub stays sound whatever a session server sends.
pub proof fn hearing_is_sound(
    hub: HubView,
    open: Set<RoleView>,
    session: Seq<char>,
    generation: u64,
    kind: HubStreamKind,
    message: ServerView,
)
    requires
        hub.sound(open),
    ensures
        hub.told(session, generation, kind, message).sound(open),
{
    let after = hub.told(session, generation, kind, message);
    let place = lemma_finds(hub.sessions, session);
    if hub.accepts(session, generation, kind) {
        match kind {
            HubStreamKind::App => match message {
                ServerView::Notify { kind, message, body } => {
                    lemma_asked(hub, open, EffectView::Notify { kind, text: message, body });
                },
                ServerView::Clipboard { data } => {
                    lemma_asked(hub, open, EffectView::Clipboard { data });
                },
                ServerView::WindowTitle { title } => {
                    lemma_asked(hub, open, EffectView::WindowTitle { title });
                },
                ServerView::MouseCapture { enabled } => {
                    lemma_asked(
                        hub,
                        open,
                        EffectView::MouseCapture { enabled, sgr_pixels: false },
                    );
                },
                _ => {
                    lemma_same_state(hub, after, open);
                },
            },
            HubStreamKind::Summary => match (session_named(hub.sessions, session), message) {
                (Some(item), ServerView::SessionSummary(summary)) => {
                    let updated = SessionView { summary: Some(summary), running: true, ..item };
                    let heard = HubView {
                        sessions: with_session(hub.sessions, session, updated),
                        ..hub
                    };
                    lemma_updated(hub, open, session, updated);
                    lemma_same_state(heard, after, open);
                },
                _ => {},
            },
            HubStreamKind::Sidebar => match (session_named(hub.sessions, session), message) {
                (Some(item), ServerView::Frame(frame)) => {
                    let updated = SessionView { sidebar_frame: Some(frame), ..item };
                    let heard = HubView {
                        sessions: with_session(hub.sessions, session, updated),
                        ..hub
                    };
                    lemma_updated(hub, open, session, updated);
                    lemma_same_state(heard, after, open);
                },
                (Some(item), ServerView::ServerShutdown { .. }) => {
                    let role = RoleView::Sidebar(session);
                    let updated = SessionView {
                        sidebar_frame: None,
                        sidebar_connected: false,
                        running: false,
                        ..item
                    };
                    lemma_lost(hub, open, session, updated, role);
                    let heard = HubView {
                        sessions: with_session(hub.sessions, session, updated),
                        ..hub.asking_if(hub.holds(role), EffectView::Close { role })
                    };
                    lemma_same_state(heard, after, open);
                },
                _ => {},
            },
        }
    }
}

/// The hub stays sound whichever stream ends.
pub proof fn losing_a_stream_is_sound(
    hub: HubView,
    open: Set<RoleView>,
    session: Seq<char>,
    generation: u64,
    kind: HubStreamKind,
)
    requires
        hub.sound(open),
    ensures
        hub.disconnected(session, generation, kind).sound(open),
{
    let after = hub.disconnected(session, generation, kind);
    let place = lemma_finds(hub.sessions, session);
    if hub.accepts(session, generation, kind) {
        match (kind, session_named(hub.sessions, session)) {
            (HubStreamKind::App, _) => {
                lemma_same_state(hub, after, open);
            },
            (HubStreamKind::Summary, Some(item)) => {
                let role = RoleView::Summary(session);
                let updated = SessionView { summary_connected: false, running: false, ..item };
                lemma_lost(hub, open, session, updated, role);
                let heard = HubView {
                    sessions: with_session(hub.sessions, session, updated),
                    ..hub.asking_if(hub.holds(role), EffectView::Close { role })
                };
                lemma_same_state(heard, after, open);
            },
            (HubStreamKind::Sidebar, Some(item)) => {
                let role = RoleView::Sidebar(session);
                let updated = SessionView {
                    sidebar_connected: false,
                    sidebar_frame: None,
                    ..item
                };
                lemma_lost(hub, open, session, updated, role);
                let heard = HubView {
                    sessions: with_session(hub.sessions, session, updated),
                    ..hub.asking_if(hub.holds(role), EffectView::Close { role })
                };
                lemma_same_state(heard, after, open);
            },
            _ => {},
        }
    }
}

/// The hub stays sound when its effects are handed out: the connections that it counts on are
/// then those that are open. So it does when it waits for a connection.
pub proof fn handing_out_effects_is_sound(hub: HubView, open: Set<RoleView>, step: StepView)
    requires
        hub.fit_for(open, step),
    ensures
        (HubView { effects: Seq::empty(), ..hub }).fit_for(open_after(open, hub.effects), step),
{
    let after = HubView { effects: Seq::empty(), ..hub };
    assert(after.held(false) =~= hub.held(false));
    assert(after.held(true) =~= hub.held(true));
    assert(hub.watches_what_it_shows());
    assert forall|n: Seq<char>| #[trigger]
        after.holds(RoleView::Sidebar(n)) implies n != after.active.name
        && !after.collapsed.contains(n) by {
        assert(hub.holds(RoleView::Sidebar(n)));
    }
}

/// The hub stays sound when it was painted, and when it leaves.
pub proof fn painting_and_leaving_are_sound(hub: HubView, open: Set<RoleView>)
    requires
        hub.sound(open),
    ensures
        (HubView { repaint: false, full_repaint: false, ..hub }).sound(open),
        hub.asking(farewell(RoleView::Active)).sound(open),
{
    lemma_same_connections(
        hub,
        HubView { repaint: false, full_repaint: false, ..hub },
        open,
        false,
    );
    lemma_asked(hub, open, farewell(RoleView::Active));
}

/// The hub stays sound when input goes to the session on the screen.
pub proof fn routing_is_sound(
    hub: HubView,
    open: Set<RoleView>,
    data: Seq<u8>,
    source: ImageSource,
    limit: usize,
)
    requires
        hub.sound(open),
    ensures
        hub.routed(data, source, limit).sound(open),
{
    match source {
        ImageSource::Pasted(image) => lemma_asked(hub, open, to_active(image_message(image))),
        ImageSource::Dropped(image) => lemma_asked(hub, open, to_active(image_message(image))),
        ImageSource::Absent => lemma_asked(hub, open, to_active(MessageView::Input { data })),
    }
}

/// The hub stays sound when its dialog changes, but for the session that the dialog is about.
proof fn lemma_modal_edited(hub: HubView, open: Set<RoleView>, modal: Option<ModalView>)
    requires
        hub.sound(open),
        hub.modal is Some || hub.session_menu is None,
        modal is Some ==> hub.may_open(modal->0),
    ensures
        (HubView { modal, ..hub }).sound(open),
{
    lemma_same_connections(hub, HubView { modal, ..hub }, open, false);
}

proof fn lemma_first_other(sessions: Seq<SessionView>, name: Seq<char>)
    ensures
        first_other(sessions, name) matches Some(other) ==> other != name && is_listed(
            sessions,
            other,
        ),
    decreases sessions.len(),
{
    if sessions.len() > 0 {
        if sessions.first().name != name {
            assert(sessions[0].name == sessions.first().name);
        } else {
            let rest = sessions.drop_first();
            lemma_first_other(rest, name);
            if let Some(other) = first_other(rest, name) {
                let i = choose|i: int| 0 <= i < rest.len() && (#[trigger] rest[i]).name == other;
                assert(sessions[i + 1].name == other);
            }
        }
    }
}

proof fn lemma_detached(hub: HubView, open: Set<RoleView>, session: Seq<char>)
    requires
        connected_but(hub, open, false, session),
        is_listed(hub.sessions, hub.active.name),
        hub.folds_are_listed(),
        hub.dialog_is_fit(),
        hub.menu_is_fit(),
        hub.modal is Some,
        hub.may_be_altered(session),
    ensures
        hub.without_observers(session).sound(open),
        hub.without_observers(session).is_detached(session),
        hub.without_observers(session).modal is Some,
        hub.without_observers(session).active == hub.active,
{
    let after = hub.without_observers(session);
    lemma_without_observers(hub, open, false, session);
    assert(is_listed(after.sessions, after.active.name) == is_listed(
        hub.sessions,
        hub.active.name,
    ));
    assert(is_listed(after.sessions, session) == is_listed(hub.sessions, session));
    assert forall|name: Seq<char>| #[trigger] after.collapsed.contains(name) implies is_listed(
        after.sessions,
        name,
    ) by {
        assert(hub.collapsed.contains(name));
    }
    if let Some(altered) = altered_by(after.modal->0) {
        assert(is_listed(after.sessions, altered) == is_listed(hub.sessions, altered));
    }
}

proof fn lemma_closing(hub: HubView, open: Set<RoleView>, session: Seq<char>)
    requires
        hub.sound(open),
        hub.modal is Some,
        hub.may_be_altered(session),
    ensures
        hub.closing(session).0.fit_for_outcome(open, hub.closing(session).1),
{
    let hidden = HubView { collapsed: hub.collapsed.insert(session), ..hub };
    let plan = PlanView { close: Some(session), ..idle() };
    assert(hidden.held(false) =~= hub.held(false));
    assert forall|n: Seq<char>| #[trigger]
        hidden.holds(RoleView::Sidebar(n)) && n != session implies n != hidden.active.name
        && !hidden.collapsed.contains(n) by {
        assert(hub.holds(RoleView::Sidebar(n)));
    }
    if hub.active.name != session {
        lemma_detached(hidden, open, session);
        assert(HubView { repaint: hidden.repaint || false, ..hidden } == hidden);
    } else {
        assert forall|n: Seq<char>| #[trigger]
            hidden.holds(RoleView::Sidebar(n)) implies n != hidden.active.name
            && !hidden.collapsed.contains(n) by {
            assert(hub.holds(RoleView::Sidebar(n)));
        }
        lemma_first_other(hub.sessions, session);
        if let Some(fallback) = first_other(hub.sessions, session) {
            following_is_sound(
                hidden,
                open,
                PlanView {
                    switch: Some(SwitchView { session: fallback, workspace: None }),
                    ..plan
                },
            );
        }
    }
}

/// A sound hub goes on in order when its dialog is confirmed.
pub proof fn confirming_is_sound(hub: HubView, open: Set<RoleView>)
    requires
        hub.sound(open),
    ensures
        hub.submitted().0.fit_for_outcome(open, hub.submitted().1),
{
    match hub.modal {
        Some(ModalView::ConfirmClose { session, .. }) => lemma_closing(hub, open, session),
        Some(ModalView::Rename { .. }) => lemma_modal_edited(hub, open, None),
        _ => {},
    }
}

/// A sound hub goes on in order when the name in its dialog was parsed.
pub proof fn naming_is_sound(
    hub: HubView,
    open: Set<RoleView>,
    parsed: Result<Option<Seq<char>>, Seq<char>>,
)
    requires
        hub.sound(open),
    ensures
        hub.name_parsed(parsed).0.fit_for(open, hub.name_parsed(parsed).1),
{
    match hub.name_fault(parsed) {
        Some(fault) => {
            if let Some(modal) = hub.modal {
                lemma_modal_edited(hub, open, Some(modal_with_error(modal, Some(fault))));
            }
        },
        None => {
            let name = parsed->Ok_0->0;
            if let Some(ModalView::Rename { session, .. }) = hub.modal {
                lemma_detached(hub, open, session);
                lemma_without_observers(hub, open, false, session);
                assert(is_listed(hub.without_observers(session).sessions, name) == is_listed(
                    hub.sessions,
                    name,
                ));
            }
        },
    }
}

proof fn lemma_created(hub: HubView, open: Set<RoleView>, session: Seq<char>)
    requires
        hub.sound(open),
        hub.modal is Some,
        !is_listed(hub.sessions, session),
    ensures
        hub.created(session).0.fit_for(open, hub.created(session).1),
{
    let added = hub.sessions.push(fresh_session(session, true));
    let listed = hub.enlisted(session);
    lemma_added(hub.sessions, fresh_session(session, true));
    lemma_sorted(added, false);
    let place = lemma_finds(hub.sessions, session);
    assert forall|n: Seq<char>|
        (#[trigger] session_named(listed.sessions, n)) == (if n == session {
            Some(fresh_session(session, true))
        } else {
            session_named(hub.sessions, n)
        }) by {
        assert(session_named(listed.sessions, n) == session_named(added, n));
    }
    assert(listed.held(false) =~= hub.held(false));
    assert forall|n: Seq<char>| #[trigger]
        listed.holds(RoleView::Sidebar(n)) implies n != listed.active.name
        && !listed.collapsed.contains(n) by {
        assert(hub.holds(RoleView::Sidebar(n)));
    }
    assert forall|n: Seq<char>|
        (#[trigger] is_listed(listed.sessions, n)) == (n == session || is_listed(
            hub.sessions,
            n,
        )) by {
        assert(is_listed(listed.sessions, n) == is_listed(added, n));
    }
    assert forall|n: Seq<char>| #[trigger] listed.collapsed.contains(n) implies is_listed(
        listed.sessions,
        n,
    ) by {
        assert(hub.collapsed.contains(n));
    }
    following_is_sound(
        listed,
        open,
        PlanView {
            summary: Some(session),
            switch: Some(SwitchView { session, workspace: None }),
            finish: Some("created session "@ + session),
            ..idle()
        },
    );
}

proof fn lemma_renamed(hub: HubView, open: Set<RoleView>, session: Seq<char>, new_name: Seq<char>)
    requires
        hub.sound(open),
        hub.modal is Some,
        hub.is_detached(session),
        !is_listed(hub.sessions, new_name),
    ensures
        hub.renamed(session, new_name).0.fit_for(open, hub.renamed(session, new_name).1),
{
    let at = lemma_finds(hub.sessions, session);
    let item = hub.sessions[at];
    let updated = SessionView {
        name: new_name,
        running: true,
        summary: None,
        summary_generation: 0,
        sidebar_generation: 0,
        ..item
    };
    let moved = hub.sessions.update(at, updated);
    let listed = hub.relisted(session, new_name);
    assert(listed.sessions == sorted(moved, false));
    let nowhere = lemma_finds(hub.sessions, new_name);
    assert(distinct(moved)) by {
        assert forall|i: int, j: int| 0 <= i < j < moved.len() implies (#[trigger] moved[i]).name
            != (#[trigger] moved[j]).name by {
            assert(hub.sessions[i].name != hub.sessions[j].name);
            assert(hub.sessions[i].name != new_name);
            assert(hub.sessions[j].name != new_name);
        }
    }
    lemma_sorted(moved, false);
    assert forall|n: Seq<char>|
        (#[trigger] session_named(moved, n)) == (if n == new_name {
            Some(updated)
        } else if n == session {
            None
        } else {
            session_named(hub.sessions, n)
        }) && is_listed(moved, n) == (n == new_name || n != session && is_listed(
            hub.sessions,
            n,
        )) by {
        let old_place = lemma_finds(hub.sessions, n);
        let new_place = lemma_finds(moved, n);
        if n == new_name {
            lemma_found(moved, at);
        } else if n == session {
            if is_listed(moved, n) {
                assert(hub.sessions[new_place].name == n);
                assert(new_place != at);
                assert(hub.sessions[at].name == n);
            }
        } else if is_listed(hub.sessions, n) {
            assert(moved[old_place] == hub.sessions[old_place]);
            lemma_found(moved, old_place);
        } else if is_listed(moved, n) {
            assert(moved[new_place] == hub.sessions[new_place]);
        }
    }
    assert forall|n: Seq<char>|
        (#[trigger] session_named(listed.sessions, n)) == (if n == new_name {
            Some(updated)
        } else if n == session {
            None
        } else {
            session_named(hub.sessions, n)
        }) by {
        assert(session_named(listed.sessions, n) == session_named(moved, n));
    }
    assert forall|n: Seq<char>|
        (#[trigger] is_listed(listed.sessions, n)) == (n == new_name || n != session && is_listed(
            hub.sessions,
            n,
        )) by {
        assert(is_listed(listed.sessions, n) == is_listed(moved, n));
        let item = session_named(moved, n);
    }
    assert forall|role: RoleView| listed.holds(role) == hub.holds(role) by {}
    assert(listed.held(false) =~= hub.held(false));
    assert forall|n: Seq<char>| #[trigger]
        listed.holds(RoleView::Sidebar(n)) implies n != listed.active.name
        && !listed.collapsed.contains(n) by {
        assert(hub.holds(RoleView::Sidebar(n)));
    }
    assert forall|n: Seq<char>| #[trigger] listed.collapsed.contains(n) implies is_listed(
        listed.sessions,
        n,
    ) by {
        assert(n == new_name || hub.collapsed.contains(n));
    }
    let active = hub.active.name == session;
    assert(!hub.collapsed.contains(session) ==> !listed.collapsed.contains(new_name)) by {
        assert(hub.collapsed.contains(new_name) ==> is_listed(hub.sessions, new_name));
    }
    following_is_sound(
        listed,
        open,
        PlanView {
            summary: Some(new_name),
            switch: if active {
                Some(SwitchView { session: new_name, workspace: None })
            } else {
                None
            },
            sidebar: if !active && !hub.collapsed.contains(session) {
                Some(new_name)
            } else {
                None
            },
            finish: Some("renamed session "@ + session + " to "@ + new_name),
            ..idle()
        },
    );
}

proof fn lemma_closed(hub: HubView, open: Set<RoleView>, session: Seq<char>)
    requires
        hub.sound(open),
        hub.modal is Some,
        hub.is_detached(session),
        session != hub.active.name,
    ensures
        hub.closed(session).sound(open),
{
    let after = hub.closed(session);
    lemma_others(hub.sessions, session);
    assert(after.held(false) =~= hub.held(false));
    assert forall|n: Seq<char>| #[trigger]
        after.holds(RoleView::Sidebar(n)) implies n != after.active.name
        && !after.collapsed.contains(n) by {
        assert(hub.holds(RoleView::Sidebar(n)));
    }
    assert forall|n: Seq<char>| #[trigger] after.collapsed.contains(n) implies is_listed(
        after.sessions,
        n,
    ) by {
        assert(hub.collapsed.contains(n));
    }
}

/// A sound hub goes on in order when the host answers a request that is in order.
pub proof fn answering_is_sound(
    hub: HubView,
    open: Set<RoleView>,
    request: RequestView,
    answer: Result<(), Seq<char>>,
)
    requires
        hub.sound(open),
        hub.modal is Some,
        hub.due(request),
    ensures
        hub.answered(request, answer).0.fit_for(open, hub.answered(request, answer).1),
{
    match answer {
        Err(reason) => {
            lemma_modal_edited(
                hub,
                open,
                Some(modal_with_error(hub.modal->0, Some(reason))),
            );
        },
        Ok(_) => match request {
            RequestView::Create { session } => lemma_created(hub, open, session),
            RequestView::Rename { session, new_name } => lemma_renamed(
                hub,
                open,
                session,
                new_name,
            ),
            RequestView::Close { session } => lemma_closed(hub, open, session),
        },
    }
}

/// A sound hub goes on in order whatever is typed into its dialog.
pub proof fn typing_is_sound(
    hub: HubView,
    open: Set<RoleView>,
    events: Seq<RawInputEvent>,
    from: int,
)
    requires
        hub.sound(open),
    ensures
        hub.typed(events, from).0.fit_for_progress(open, hub.typed(events, from).1),
    decreases events.len() - from,
{
    lemma_same_state(hub, hub.typed_out(), open);
    if from < events.len() {
        if let (Some(modal), Some(key)) = (hub.modal, pressed(events[from])) {
            match key.code {
                KeyCode::Esc => {
                    let left = HubView { modal: None, ..hub };
                    lemma_modal_edited(hub, open, None);
                    lemma_same_state(left, left.typed_out(), open);
                },
                KeyCode::Backspace => {
                    lemma_modal_edited(hub, open, Some(erased(modal)));
                    typing_is_sound(
                        HubView { modal: Some(erased(modal)), ..hub },
                        open,
                        events,
                        from + 1,
                    );
                },
                KeyCode::Enter => {
                    confirming_is_sound(hub, open);
                    if hub.submitted().1 matches Ok(StepView::Settled) {
                        typing_is_sound(hub.submitted().0, open, events, from + 1);
                    }
                },
                KeyCode::Char(ch) => {
                    lemma_modal_edited(hub, open, Some(extended(modal, ch)));
                    typing_is_sound(
                        HubView { modal: Some(extended(modal, ch)), ..hub },
                        open,
                        events,
                        from + 1,
                    );
                    typing_is_sound(hub, open, events, from + 1);
                },
                _ => typing_is_sound(hub, open, events, from + 1),
            }
        } else if hub.modal is Some {
            typing_is_sound(hub, open, events, from + 1);
        }
    }
}

proof fn lemma_telling(hub: HubView, open: Set<RoleView>, session: Seq<char>, message: MessageView)
    requires
        hub.sound(open),
    ensures
        hub.telling(session, message).0.sound(open),
{
    if session == hub.active.name {
        lemma_asked(hub, open, to_active(message));
    } else {
        let role = RoleView::Sidebar(session);
        if hub.holds(role) {
            lemma_asked(hub, open, EffectView::Send { role, message, required: true });
        }
    }
}

proof fn lemma_telling_mouse(
    hub: HubView,
    open: Set<RoleView>,
    session: Seq<char>,
    mouse: MouseEvent,
    row: u16,
)
    requires
        hub.sound(open),
    ensures
        hub.telling_mouse(session, mouse, row).0.sound(open),
{
    if let Some(kind) = mouse.wire_kind {
        lemma_telling(
            hub,
            open,
            session,
            mouse_message(kind, mouse.column, row, mouse.modifiers),
        );
    }
}

proof fn lemma_target_is_a_row(rows: Seq<RowView>, y: u16) -> (at: int)
    ensures
        target_at(rows, y) matches Some(target) ==> 0 <= at < rows.len() && rows[at].target
            == target,
    decreases rows.len(),
{
    if rows.len() == 0 || rows.first().y == y {
        0
    } else {
        let at = lemma_target_is_a_row(rows.drop_first(), y);
        at + 1
    }
}

proof fn lemma_row_input(hub: HubView, open: Set<RoleView>, target: TargetView, mouse: MouseEvent)
    requires
        hub.sound(open),
        hub.modal is None,
        hub.session_menu is None,
        session_of(target) is Some ==> is_listed(hub.sessions, session_of(target)->0),
    ensures
        hub.row_input(target, mouse).0.fit_for_outcome(open, hub.row_input(target, mouse).1),
{
    let after = hub.row_input(target, mouse).0;
    let left = mouse.kind == MouseEventKind::Down(MouseButton::Left);
    match target {
        TargetView::SpaceRow { session, workspace_id, original_y } => {
            if session != hub.active.name && left {
                switching_is_sound(hub, open, session, Some(workspace_id));
            } else {
                lemma_telling_mouse(hub, open, session, mouse, original_y);
                lemma_same_state(
                    hub.telling_mouse(session, mouse, original_y).0,
                    after,
                    open,
                );
            }
        },
        TargetView::SpaceGapRow { session, original_y } => {
            lemma_telling_mouse(hub, open, session, mouse, original_y);
        },
        TargetView::Session(session) => {
            choosing_a_row_is_sound(hub, open, target, true);
            if session != DEFAULT_SESSION_NAME@ && mouse.kind == MouseEventKind::Down(
                MouseButton::Right,
            ) {
                lemma_same_connections(hub, after, open, false);
            }
        },
        TargetView::NewSession => {
            choosing_a_row_is_sound(hub, open, target, true);
        },
    }
}

proof fn lemma_menu_input(hub: HubView, open: Set<RoleView>, events: Seq<RawInputEvent>)
    requires
        hub.sound(open),
        hub.modal is None,
    ensures
        hub.menu_input(events).sound(open),
{
    lemma_same_connections(hub, hub.menu_input(events), open, false);
}

/// A sound hub goes on in order whatever input comes from the terminal.
pub proof fn input_is_sound(
    hub: HubView,
    open: Set<RoleView>,
    data: Seq<u8>,
    events: Seq<RawInputEvent>,
)
    requires
        hub.sound(open),
    ensures
        hub.local_input(data, events).0.fit_for_input(open, hub.local_input(data, events).1),
{
    let after = hub.local_input(data, events).0;
    if hub.modal is Some {
        typing_is_sound(hub, open, events, 0);
    } else if hub.session_menu is Some {
        lemma_menu_input(hub, open, events);
        lemma_same_state(hub.menu_input(events), after, open);
    } else {
        match (hub.server_overlay_session, lone_mouse(events)) {
            (Some(session), Some(mouse)) => {
                lemma_telling_mouse(hub, open, session, mouse, mouse.row);
            },
            (Some(session), None) => {
                lemma_telling(hub, open, session, MessageView::Input { data });
            },
            (None, Some(mouse)) => {
                match hub.mouse_target(mouse) {
                    Some(target) => {
                        let at = lemma_target_is_a_row(hub.rows(), mouse.row);
                        rows_belong_to_sessions(hub, at);
                        lemma_row_input(hub, open, target, mouse);
                    },
                    None => {
                        lemma_telling_mouse(hub, open, hub.active.name, mouse, mouse.row);
                    },
                }
            },
            (None, None) => {},
        }
    }
}

/// Once the hub has switched, it does not listen any more to the stream of the session that was on
/// the screen before, nor to that of any earlier one: to no generation that was handed out before
/// the switch was asked for.
pub proof fn switching_silences_earlier_streams(
    hub: HubView,
    later: HubView,
    name: Seq<char>,
    workspace: Option<Seq<char>>,
    session: Seq<char>,
    generation: u64,
)
    requires
        generation < hub.next_generation,
    ensures
        !later.established(hub.switch_request(name, workspace)).accepts(
            session,
            generation,
            HubStreamKind::App,
        ),
{
}

/// The session on the screen is never watched for sidebar frames as well, and a collapsed one is
/// not watched at all.
pub proof fn watching_follows_the_sidebar(hub: HubView, open: Set<RoleView>, name: Seq<char>)
    requires
        hub.sound(open),
        name == hub.active.name || hub.collapsed.contains(name),
    ensures
        !hub.holds(RoleView::Sidebar(name)),
        !hub.held(false).contains(RoleView::Sidebar(name)),
{
}

/// No dialog to rename or close a session is about the default session, and neither is a menu.
pub proof fn default_session_is_never_altered(hub: HubView, open: Set<RoleView>)
    requires
        hub.sound(open),
    ensures
        hub.modal is Some ==> altered_by(hub.modal->0) != Some(DEFAULT_SESSION_NAME@),
        hub.session_menu is Some ==> hub.session_menu->0.session != DEFAULT_SESSION_NAME@,
{
}

} // verus!
