//! The start of the hub, and the order of its sessions.

use crate::connections::{ClientKeybindings, ConnectionRequest};
use crate::names::NameSet;
use crate::sessions::{active_request, connect_active};
use crate::state::{
    is_listed, session_named, session_views, with_session, ActiveSession, ActiveView, HubSession,
    HubState, HubView, RemoteSessionDescriptor, SessionView,
};
use crate::text::{name_le, name_order_is_total, name_order_is_transitive, names_in_order};
use vstd::prelude::*;

verus! {

/// The name of the session that every host has.
pub const DEFAULT_SESSION_NAME: &'static str = "default";

/// Whether one name may stand before another: by the order of names, or with the default session
/// before all others.
pub open spec fn may_precede(left: Seq<char>, right: Seq<char>, default_first: bool) -> bool {
    if default_first {
        left == DEFAULT_SESSION_NAME@ || (right != DEFAULT_SESSION_NAME@ && name_le(left, right))
    } else {
        name_le(left, right)
    }
}

/// A sorted list with a session put before the first one that may follow it.
pub open spec fn inserted(
    sessions: Seq<SessionView>,
    session: SessionView,
    default_first: bool,
) -> Seq<SessionView>
    decreases sessions.len(),
{
    if sessions.len() == 0 {
        seq![session]
    } else if may_precede(session.name, sessions.first().name, default_first) {
        seq![session] + sessions
    } else {
        seq![sessions.first()] + inserted(sessions.drop_first(), session, default_first)
    }
}

/// The sessions in the order of their names; those of one name stay in the order in which they
/// were.
pub open spec fn sorted(sessions: Seq<SessionView>, default_first: bool) -> Seq<SessionView>
    decreases sessions.len(),
{
    if sessions.len() == 0 {
        Seq::empty()
    } else {
        inserted(
            sorted(sessions.drop_first(), default_first),
            sessions.first(),
            default_first,
        )
    }
}

/// Tells whether one name may stand before another.
fn names_may_precede(left: &str, right: &str, default_first: bool) -> (may: bool)
    ensures
        may == may_precede(left@, right@, default_first),
{
    if default_first {
        if *left == *DEFAULT_SESSION_NAME {
            return true;
        }
        if *right == *DEFAULT_SESSION_NAME {
            return false;
        }
    }
    names_in_order(left, right)
}

proof fn lemma_inserted_at(
    sessions: Seq<SessionView>,
    session: SessionView,
    default_first: bool,
    at: int,
)
    requires
        0 <= at <= sessions.len(),
        forall|i: int|
            0 <= i < at ==> !may_precede(
                session.name,
                (#[trigger] sessions[i]).name,
                default_first,
            ),
        at < sessions.len() ==> may_precede(session.name, sessions[at].name, default_first),
    ensures
        inserted(sessions, session, default_first) == sessions.insert(at, session),
    decreases at,
{
    if sessions.len() == 0 {
        assert(sessions.insert(at, session) =~= seq![session]);
    } else if at == 0 {
        assert(sessions.insert(at, session) =~= seq![session] + sessions);
    } else {
        assert(!may_precede(session.name, sessions[0].name, default_first));
        lemma_inserted_at(sessions.drop_first(), session, default_first, at - 1);
        assert(sessions.insert(at, session) =~= seq![sessions.first()]
            + sessions.drop_first().insert(at - 1, session));
    }
}

/// Puts sessions into the order of their names.
pub fn sort_sessions(sessions: &mut Vec<HubSession>, default_first: bool)
    ensures
        session_views(final(sessions)@) == sorted(session_views(old(sessions)@), default_first),
{
    let ghost before = session_views(sessions@);
    let mut done: Vec<HubSession> = Vec::new();
    proof {
        assert(session_views(done@) =~= Seq::empty());
        assert(before.skip(before.len() as int) =~= Seq::empty());
        assert(session_views(sessions@) =~= before.take(sessions.len() as int));
    }
    while sessions.len() > 0
        invariant
            sessions.len() <= before.len(),
            session_views(sessions@) == before.take(sessions.len() as int),
            session_views(done@) == sorted(before.skip(sessions.len() as int), default_first),
        decreases sessions.len(),
    {
        let ghost rest = before.skip(sessions.len() as int);
        let ghost listed = sessions@;
        if let Some(session) = sessions.pop() {
            let ghost view = session@;
            let ghost count = sessions.len() as int;
            proof {
                assert(session_views(listed)[count] == view);
                assert(before.take(count + 1)[count] == before[count]);
                assert(session_views(sessions@) =~= before.take(count));
                assert(before.skip(count).first() == view);
                assert(before.skip(count).drop_first() =~= rest);
            }
            let ghost sorted_rest = session_views(done@);
            let mut at: usize = 0;
            while at < done.len() && !names_may_precede(
                session.name.as_str(),
                done[at].name.as_str(),
                default_first,
            )
                invariant
                    at <= done.len(),
                    session@ == view,
                    sorted_rest == session_views(done@),
                    forall|i: int|
                        0 <= i < at ==> !may_precede(
                            view.name,
                            (#[trigger] sorted_rest[i]).name,
                            default_first,
                        ),
                decreases done.len() - at,
            {
                assert(sorted_rest[at as int] == done@[at as int]@);
                at = at + 1;
            }
            proof {
                if at < done.len() {
                    assert(sorted_rest[at as int] == done@[at as int]@);
                }
                lemma_inserted_at(sorted_rest, view, default_first, at as int);
            }
            done.insert(at, session);
            assert(session_views(done@) =~= sorted_rest.insert(at as int, view));
        }
    }
    assert(before.skip(0) =~= before);
    std::mem::swap(sessions, &mut done);
}

/// A session of which nothing is known yet.
pub open spec fn fresh_session(name: Seq<char>, running: bool) -> SessionView {
    SessionView {
        name,
        running,
        summary: None,
        summary_generation: 0,
        summary_connected: false,
        sidebar_generation: 0,
        sidebar_connected: false,
        sidebar_frame: None,
    }
}

impl HubSession {
    /// A session of which nothing is known yet.
    pub fn new(name: String, running: bool) -> (session: HubSession)
        ensures
            session@ == fresh_session(name@, running),
    {
        HubSession {
            name,
            running,
            summary: None,
            summary_generation: 0,
            summary_connected: false,
            sidebar_generation: 0,
            sidebar_connected: false,
            sidebar_frame: None,
        }
    }
}

/// The sessions that a host lists.
pub open spec fn described(descriptors: Seq<RemoteSessionDescriptor>) -> Seq<SessionView> {
    descriptors.map_values(
        |descriptor: RemoteSessionDescriptor|
            fresh_session(descriptor.name@, descriptor.running),
    )
}

/// The sessions that a host lists, with the initial one, which may not run yet, and the default
/// one first.
pub open spec fn initial_sessions(
    descriptors: Seq<RemoteSessionDescriptor>,
    initial: Seq<char>,
) -> Seq<SessionView> {
    let listed = described(descriptors);
    if is_listed(listed, initial) {
        sorted(listed, true)
    } else {
        sorted(listed.push(fresh_session(initial, false)), true)
    }
}

/// The hub at its start, once the initial session is connected: that session is on the screen, and
/// the others are shown by their headings alone.
pub open spec fn initial_hub(
    descriptors: Seq<RemoteSessionDescriptor>,
    initial: Seq<char>,
    cols: u16,
    rows: u16,
    keybindings: Seq<u8>,
) -> HubView {
    let sessions = initial_sessions(descriptors, initial);
    HubView {
        sessions: match session_named(sessions, initial) {
            Some(session) => with_session(
                sessions,
                initial,
                SessionView { running: true, ..session },
            ),
            None => sessions,
        },
        collapsed: Set::new(|name: Seq<char>| name != initial && is_listed(sessions, name)),
        active: ActiveView { name: initial, generation: FIRST_GENERATION, frame: None },
        next_generation: (FIRST_GENERATION + 1) as u64,
        modal: None,
        session_menu: None,
        status: None,
        cols,
        rows,
        repaint: true,
        full_repaint: true,
        keybindings,
        server_overlay_session: None,
        server_overlay_seen: false,
        effects: Seq::empty(),
    }
}

/// Lists a host's sessions.
fn hub_sessions(descriptors: Vec<RemoteSessionDescriptor>) -> (sessions: Vec<HubSession>)
    ensures
        session_views(sessions@) == described(descriptors@),
{
    let ghost all = descriptors@;
    let mut sessions: Vec<HubSession> = Vec::with_capacity(descriptors.len());
    let mut at: usize = 0;
    while at < descriptors.len()
        invariant
            at <= descriptors.len(),
            descriptors@ == all,
            sessions.len() == at,
            forall|i: int|
                0 <= i < at ==> (#[trigger] sessions@[i])@ == fresh_session(
                    all[i].name@,
                    all[i].running,
                ),
        decreases descriptors.len() - at,
    {
        sessions.push(HubSession::new(descriptors[at].name.clone(), descriptors[at].running));
        at = at + 1;
    }
    assert(session_views(sessions@) =~= described(all));
    sessions
}

/// Tells whether a session of the given name is listed.
pub fn lists_session(sessions: &Vec<HubSession>, name: &str) -> (listed: bool)
    ensures
        listed == is_listed(session_views(sessions@), name@),
{
    let mut at: usize = 0;
    while at < sessions.len()
        invariant
            at <= sessions.len(),
            forall|i: int|
                0 <= i < at ==> (#[trigger] session_views(sessions@)[i]).name != name@,
        decreases sessions.len() - at,
    {
        assert(session_views(sessions@)[at as int] == sessions@[at as int]@);
        if *sessions[at].name.as_str() == *name {
            return true;
        }
        at = at + 1;
    }
    false
}

/// The names of the given sessions, but for one.
fn names_but(sessions: &Vec<HubSession>, but: &str) -> (names: NameSet)
    ensures
        names@ == Set::new(
            |name: Seq<char>| name != but@ && is_listed(session_views(sessions@), name),
        ),
{
    let ghost views = session_views(sessions@);
    let mut names = NameSet::new();
    let mut at: usize = 0;
    while at < sessions.len()
        invariant
            at <= sessions.len(),
            views == session_views(sessions@),
            forall|name: Seq<char>| #[trigger]
                names@.contains(name) <==> name != but@ && is_listed(views.take(at as int), name),
        decreases sessions.len() - at,
    {
        assert(views[at as int] == sessions@[at as int]@);
        let ghost before = names@;
        if *sessions[at].name.as_str() != *but {
            names.insert(sessions[at].name.clone());
        }
        proof {
            let shorter = views.take(at as int);
            let longer = views.take(at + 1);
            assert forall|name: Seq<char>|
                is_listed(longer, name) <==> is_listed(shorter, name) || name
                    == views[at as int].name by {
                assert(longer[at as int] == views[at as int]);
                if is_listed(shorter, name) {
                    let i = choose|i: int|
                        0 <= i < shorter.len() && (#[trigger] shorter[i]).name == name;
                    assert(longer[i].name == name);
                }
                if is_listed(longer, name) {
                    let i = choose|i: int|
                        0 <= i < longer.len() && (#[trigger] longer[i]).name == name;
                    assert(i < at ==> shorter[i].name == name);
                }
            }
        }
        at = at + 1;
    }
    assert(views.take(at as int) =~= views);
    assert(names@ =~= Set::new(
        |name: Seq<char>| name != but@ && is_listed(session_views(sessions@), name),
    ));
    names
}

/// The generation of the first connection.
pub const FIRST_GENERATION: u64 = 1;

/// The connection that the hub starts with: the initial session goes on the screen.
pub fn initial_connection(
    initial_session: &str,
    cols: u16,
    rows: u16,
    keybindings: &ClientKeybindings,
) -> (connection: ConnectionRequest)
    ensures
        connection@ == active_request(
            initial_session@,
            FIRST_GENERATION,
            cols,
            rows,
            None,
            keybindings@,
        ),
{
    let (connection, _) = connect_active(
        initial_session,
        FIRST_GENERATION,
        cols,
        rows,
        None,
        keybindings,
    );
    connection
}

impl HubState {
    /// The hub at its start, with a host's sessions, once the given one is connected for the
    /// screen.
    pub fn start(
        descriptors: Vec<RemoteSessionDescriptor>,
        initial_session: &str,
        cols: u16,
        rows: u16,
        keybindings: ClientKeybindings,
    ) -> (hub: HubState)
        ensures
            hub@ == initial_hub(descriptors@, initial_session@, cols, rows, keybindings@),
    {
        let ghost goal = initial_hub(
            descriptors@,
            initial_session@,
            cols,
            rows,
            keybindings@,
        );
        let mut sessions = hub_sessions(descriptors);
        if !lists_session(&sessions, initial_session) {
            let ghost before = session_views(sessions@);
            sessions.push(HubSession::new(initial_session.to_owned(), false));
            assert(session_views(sessions@) =~= before.push(
                fresh_session(initial_session@, false),
            ));
        }
        sort_sessions(&mut sessions, true);
        let collapsed = names_but(&sessions, initial_session);
        let mut hub = HubState {
            sessions,
            collapsed,
            active: ActiveSession {
                name: initial_session.to_owned(),
                generation: FIRST_GENERATION,
                frame: None,
            },
            next_generation: FIRST_GENERATION + 1,
            modal: None,
            session_menu: None,
            status: None,
            cols,
            rows,
            repaint: true,
            full_repaint: true,
            keybindings,
            server_overlay_session: None,
            server_overlay_seen: false,
            effects: Vec::new(),
        };
        if let Some(at) = hub.find_session(initial_session) {
            assert(hub@.sessions[at as int] == hub.sessions@[at as int]@);
            hub.sessions[at].running = true;
        }
        assert(hub@.sessions =~= goal.sessions);
        assert(hub@.effects =~= goal.effects);
        hub
    }
}

proof fn lemma_precedence_is_total(left: Seq<char>, right: Seq<char>, default_first: bool)
    ensures
        may_precede(left, right, default_first) || may_precede(right, left, default_first),
{
    name_order_is_total(left, right);
}

proof fn lemma_precedence_is_transitive(
    first: Seq<char>,
    second: Seq<char>,
    third: Seq<char>,
    default_first: bool,
)
    requires
        may_precede(first, second, default_first),
        may_precede(second, third, default_first),
    ensures
        may_precede(first, third, default_first),
{
    if name_le(first, second) && name_le(second, third) {
        name_order_is_transitive(first, second, third);
    }
}

proof fn lemma_inserted_place(
    sessions: Seq<SessionView>,
    session: SessionView,
    default_first: bool,
) -> (at: int)
    ensures
        0 <= at <= sessions.len(),
        forall|i: int|
            0 <= i < at ==> !may_precede(
                session.name,
                (#[trigger] sessions[i]).name,
                default_first,
            ),
        at < sessions.len() ==> may_precede(session.name, sessions[at].name, default_first),
        inserted(sessions, session, default_first) == sessions.insert(at, session),
    decreases sessions.len(),
{
    let at = if sessions.len() == 0 || may_precede(
        session.name,
        sessions.first().name,
        default_first,
    ) {
        0
    } else {
        let rest = sessions.drop_first();
        let place = lemma_inserted_place(rest, session, default_first);
        assert forall|i: int| 0 <= i < place + 1 implies !may_precede(
            session.name,
            (#[trigger] sessions[i]).name,
            default_first,
        ) by {
            if i > 0 {
                assert(rest[i - 1] == sessions[i]);
            }
        }
        place + 1
    };
    lemma_inserted_at(sessions, session, default_first, at);
    at
}

/// Whether every session of a list may stand before all that follow it.
pub open spec fn in_order(sessions: Seq<SessionView>, default_first: bool) -> bool {
    forall|i: int, j: int|
        0 <= i < j < sessions.len() ==> may_precede(
            (#[trigger] sessions[i]).name,
            (#[trigger] sessions[j]).name,
            default_first,
        )
}

/// Sorting puts sessions into order.
pub proof fn sorting_puts_in_order(sessions: Seq<SessionView>, default_first: bool)
    ensures
        in_order(sorted(sessions, default_first), default_first),
    decreases sessions.len(),
{
    if sessions.len() > 0 {
        let rest = sorted(sessions.drop_first(), default_first);
        let session = sessions.first();
        let list = inserted(rest, session, default_first);
        sorting_puts_in_order(sessions.drop_first(), default_first);
        let at = lemma_inserted_place(rest, session, default_first);
        assert forall|i: int, j: int| 0 <= i < j < list.len() implies may_precede(
            (#[trigger] list[i]).name,
            (#[trigger] list[j]).name,
            default_first,
        ) by {
            if j == at {
                assert(list[i] == rest[i]);
                lemma_precedence_is_total(session.name, rest[i].name, default_first);
            } else if i == at {
                assert(list[j] == rest[j - 1]);
                if j - 1 > at {
                    lemma_precedence_is_transitive(
                        session.name,
                        rest[at].name,
                        rest[j - 1].name,
                        default_first,
                    );
                }
            } else {
                let k = if i < at { i } else { i - 1 };
                let l = if j < at { j } else { j - 1 };
                assert(list[i] == rest[k]);
                assert(list[j] == rest[l]);
            }
        }
    }
}

/// Sorting loses no session and adds none.
pub proof fn sorting_keeps_sessions(sessions: Seq<SessionView>, default_first: bool)
    ensures
        sorted(sessions, default_first).to_multiset() == sessions.to_multiset(),
    decreases sessions.len(),
{
    broadcast use vstd::seq_lib::group_to_multiset_ensures;

    if sessions.len() > 0 {
        let rest = sorted(sessions.drop_first(), default_first);
        let session = sessions.first();
        let list = inserted(rest, session, default_first);
        sorting_keeps_sessions(sessions.drop_first(), default_first);
        let at = lemma_inserted_place(rest, session, default_first);
        assert(list[at] == session);
        assert(list.remove(at) =~= rest);
        assert(sessions.remove(0) =~= sessions.drop_first());
        assert(list.contains(session));
        assert(sessions[0] == session);
        assert(sessions.contains(session));
        assert(list.to_multiset() =~= list.to_multiset().remove(session).insert(session));
        assert(sessions.to_multiset() =~= sessions.to_multiset().remove(session).insert(session));
    }
}

/// Sorting leaves the sessions of one name in the order in which they were.
pub proof fn sorting_is_stable(sessions: Seq<SessionView>, default_first: bool, name: Seq<char>)
    ensures
        sorted(sessions, default_first).filter(|session: SessionView| session.name == name)
            == sessions.filter(|session: SessionView| session.name == name),
    decreases sessions.len(),
{
    let named = |session: SessionView| session.name == name;
    if sessions.len() > 0 {
        let rest = sorted(sessions.drop_first(), default_first);
        let session = sessions.first();
        let list = inserted(rest, session, default_first);
        sorting_is_stable(sessions.drop_first(), default_first, name);
        let at = lemma_inserted_place(rest, session, default_first);
        let before = rest.take(at);
        let after = rest.skip(at);
        assert(list =~= before + seq![session] + after);
        assert(rest =~= before + after);
        assert(sessions =~= seq![session] + sessions.drop_first());
        Seq::filter_distributes_over_add(before + seq![session], after, named);
        Seq::filter_distributes_over_add(before, seq![session], named);
        Seq::filter_distributes_over_add(before, after, named);
        Seq::filter_distributes_over_add(seq![session], sessions.drop_first(), named);
        if session.name == name {
            assert forall|i: int| 0 <= i < before.len() implies !named(#[trigger] before[i]) by {
                assert(before[i] == rest[i]);
                lemma_precedence_is_total(name, name, default_first);
            }
            lemma_filter_none(before, named);
            assert(list.filter(named) =~= seq![session].filter(named) + after.filter(named));
            assert(rest.filter(named) =~= after.filter(named));
        } else {
            lemma_filter_none(seq![session], named);
            assert(list.filter(named) =~= rest.filter(named));
        }
        assert(list.filter(named) =~= sessions.filter(named));
    }
}

proof fn lemma_filter_none(sessions: Seq<SessionView>, kept: spec_fn(SessionView) -> bool)
    requires
        forall|i: int| 0 <= i < sessions.len() ==> !kept(#[trigger] sessions[i]),
    ensures
        sessions.filter(kept) == Seq::<SessionView>::empty(),
    decreases sessions.len(),
{
    reveal(Seq::filter);
    if sessions.len() > 0 {
        lemma_filter_none(sessions.drop_last(), kept);
    }
}

} // verus!
