//! How the hub starts.

use crate::input_laws::a_session_stands_where_its_name_first_is;
use crate::lifecycle::{
    described, initial_hub, initial_sessions, may_precede, sorted, sorting_keeps_sessions,
    sorting_puts_in_order, DEFAULT_SESSION_NAME, FIRST_GENERATION,
};
use crate::state::{
    is_listed, place_of, ActiveView, HubView, RemoteSessionDescriptor, SessionView,
};
use crate::text::name_le;
use vstd::prelude::*;

verus! {

/// A session of which only its name is known and whether it runs.
pub open spec fn unknown(name: Seq<char>, running: bool) -> SessionView {
    SessionView {
        name,
        running,
        summary: None,
        summary_generation: 0,
        summary_connected: false,
        sidebar_generation: 0,
        sidebar_connected: false,
        sidebar_frame: None,
    }
}

/// Whether a host lists a session.
pub open spec fn host_lists(
    descriptors: Seq<RemoteSessionDescriptor>,
    name: Seq<char>,
    running: bool,
) -> bool {
    exists|i: int|
        0 <= i < descriptors.len() && (#[trigger] descriptors[i]).name@ == name
            && descriptors[i].running == running
}

/// The hub starts with the given session on the screen, on a terminal of the given size, with
/// nothing open and nothing to be done but to write the whole screen.
pub proof fn the_hub_starts_with_the_initial_session_on_the_screen(
    descriptors: Seq<RemoteSessionDescriptor>,
    initial: Seq<char>,
    cols: u16,
    rows: u16,
    keybindings: Seq<u8>,
)
    ensures
        ({
            let hub = initial_hub(descriptors, initial, cols, rows, keybindings);
            hub == (HubView {
                sessions: hub.sessions,
                collapsed: hub.collapsed,
                active: ActiveView { name: initial, generation: 1, frame: None },
                next_generation: 2,
                modal: None,
                session_menu: None,
                status: None,
                cols,
                rows,
                repaint: true,
                full_repaint: true,
                keybindings,
                server_overlay_session: None,
                server_overlay_seen: false,
                effects: Seq::empty(),
            })
        }),
        FIRST_GENERATION == 1,
        DEFAULT_SESSION_NAME@ == "default"@,
{
}

proof fn lemma_listed_by_host(
    descriptors: Seq<RemoteSessionDescriptor>,
    initial: Seq<char>,
) -> (all: Seq<SessionView>)
    ensures
        initial_sessions(descriptors, initial) == sorted(all, true),
        all == if is_listed(described(descriptors), initial) {
            described(descriptors)
        } else {
            described(descriptors).push(unknown(initial, false))
        },
        is_listed(all, initial),
{
    let listed = described(descriptors);
    if is_listed(listed, initial) {
        listed
    } else {
        let all = listed.push(unknown(initial, false));
        assert(all[listed.len() as int].name == initial);
        all
    }
}

/// Every session in the list is one that the host lists, as it lists it, or the initial one; that
/// one runs. Nothing more is known of any.
pub proof fn the_hub_lists_what_the_host_lists(
    descriptors: Seq<RemoteSessionDescriptor>,
    initial: Seq<char>,
    cols: u16,
    rows: u16,
    keybindings: Seq<u8>,
    k: int,
)
    requires
        0 <= k < initial_hub(descriptors, initial, cols, rows, keybindings).sessions.len(),
    ensures
        ({
            let sessions = initial_hub(descriptors, initial, cols, rows, keybindings).sessions;
            let session = sessions[k];
            &&& session == unknown(session.name, session.running)
            &&& host_lists(descriptors, session.name, session.running) || session.name == initial
            &&& session.name == initial && (forall|i: int|
                0 <= i < k ==> (#[trigger] sessions[i]).name != initial) ==> session.running
        }),
{
    broadcast use vstd::seq_lib::group_to_multiset_ensures;

    let hub = initial_hub(descriptors, initial, cols, rows, keybindings);
    let all = lemma_listed_by_host(descriptors, initial);
    let ordered = sorted(all, true);
    sorting_keeps_sessions(all, true);
    a_session_stands_where_its_name_first_is(ordered, initial);
    assert(hub.sessions.len() == ordered.len());
    assert(ordered.contains(ordered[k]));
    assert(ordered.to_multiset().contains(ordered[k]));
    assert(all.contains(ordered[k]));
    let i = all.index_of(ordered[k]);
    if i < descriptors.len() {
        assert(all[i] == unknown(descriptors[i].name@, descriptors[i].running));
        assert(host_lists(descriptors, ordered[k].name, ordered[k].running));
    }
    if hub.sessions[k].name == initial && (forall|i: int|
        0 <= i < k ==> (#[trigger] hub.sessions[i]).name != initial) {
        match place_of(ordered, initial) {
            Some(at) => {
                assert(hub.sessions[at].name == initial);
                if k < at {
                    assert(ordered[k].name != initial);
                }
                if at < k {
                    assert(hub.sessions[at].name != initial);
                }
            },
            None => {
                assert(ordered[k].name != initial);
            },
        }
    }
}

/// No session that the host lists is left out, nor is the initial one, and none is added but that
/// one.
pub proof fn no_session_is_left_out_at_the_start(
    descriptors: Seq<RemoteSessionDescriptor>,
    initial: Seq<char>,
    cols: u16,
    rows: u16,
    keybindings: Seq<u8>,
    name: Seq<char>,
)
    ensures
        ({
            let sessions = initial_hub(descriptors, initial, cols, rows, keybindings).sessions;
            let known = host_lists(descriptors, initial, true) || host_lists(
                descriptors,
                initial,
                false,
            );
            &&& name == initial || host_lists(descriptors, name, true) || host_lists(
                descriptors,
                name,
                false,
            ) ==> exists|k: int| 0 <= k < sessions.len() && (#[trigger] sessions[k]).name == name
            &&& sessions.len() == descriptors.len() + (if known {
                0int
            } else {
                1int
            })
        }),
{
    broadcast use vstd::seq_lib::group_to_multiset_ensures;

    let hub = initial_hub(descriptors, initial, cols, rows, keybindings);
    let all = lemma_listed_by_host(descriptors, initial);
    let ordered = sorted(all, true);
    sorting_keeps_sessions(all, true);
    a_session_stands_where_its_name_first_is(ordered, initial);
    assert(ordered.len() == all.len()) by {
        assert(ordered.to_multiset().len() == ordered.len());
        assert(all.to_multiset().len() == all.len());
    }
    let listed = described(descriptors);
    assert(is_listed(listed, initial) == (host_lists(descriptors, initial, true) || host_lists(
        descriptors,
        initial,
        false,
    ))) by {
        if is_listed(listed, initial) {
            let i = choose|i: int| 0 <= i < listed.len() && (#[trigger] listed[i]).name == initial;
            assert(descriptors[i].name@ == initial);
        }
        if host_lists(descriptors, initial, true) {
            let i = choose|i: int|
                0 <= i < descriptors.len() && (#[trigger] descriptors[i]).name@ == initial
                    && descriptors[i].running;
            assert(listed[i].name == initial);
        }
        if host_lists(descriptors, initial, false) {
            let i = choose|i: int|
                0 <= i < descriptors.len() && (#[trigger] descriptors[i]).name@ == initial
                    && !descriptors[i].running;
            assert(listed[i].name == initial);
        }
    }
    if name == initial || host_lists(descriptors, name, true) || host_lists(
        descriptors,
        name,
        false,
    ) {
        let item = if name == initial {
            all[choose|i: int| 0 <= i < all.len() && (#[trigger] all[i]).name == initial]
        } else {
            let i = choose|i: int|
                0 <= i < descriptors.len() && (#[trigger] descriptors[i]).name@ == name;
            assert(all[i] == listed[i]);
            all[i]
        };
        assert(item.name == name);
        assert(all.contains(item));
        assert(all.to_multiset().contains(item));
        assert(ordered.contains(item));
        let k = ordered.index_of(item);
        assert(hub.sessions[k].name == name);
    }
}

/// The default session comes first, and the others in the order of their names.
pub proof fn the_default_session_comes_first(
    descriptors: Seq<RemoteSessionDescriptor>,
    initial: Seq<char>,
    cols: u16,
    rows: u16,
    keybindings: Seq<u8>,
    i: int,
    j: int,
)
    requires
        0 <= i < j < initial_hub(descriptors, initial, cols, rows, keybindings).sessions.len(),
    ensures
        ({
            let sessions = initial_hub(descriptors, initial, cols, rows, keybindings).sessions;
            sessions[i].name == "default"@ || sessions[j].name != "default"@ && name_le(
                sessions[i].name,
                sessions[j].name,
            )
        }),
{
    let hub = initial_hub(descriptors, initial, cols, rows, keybindings);
    let ordered = initial_sessions(descriptors, initial);
    let all = lemma_listed_by_host(descriptors, initial);
    sorting_puts_in_order(all, true);
    a_session_stands_where_its_name_first_is(ordered, initial);
    assert(may_precede(ordered[i].name, ordered[j].name, true));
}

/// At the start every listed session but the initial one is folded, and no other name is.
pub proof fn all_but_the_initial_session_start_folded(
    descriptors: Seq<RemoteSessionDescriptor>,
    initial: Seq<char>,
    cols: u16,
    rows: u16,
    keybindings: Seq<u8>,
    name: Seq<char>,
)
    ensures
        ({
            let hub = initial_hub(descriptors, initial, cols, rows, keybindings);
            hub.collapsed.contains(name) == (name != initial && exists|k: int|
                0 <= k < hub.sessions.len() && (#[trigger] hub.sessions[k]).name == name)
        }),
{
    let hub = initial_hub(descriptors, initial, cols, rows, keybindings);
    let ordered = initial_sessions(descriptors, initial);
    a_session_stands_where_its_name_first_is(ordered, initial);
    assert(hub.sessions.len() == ordered.len());
    assert forall|k: int| 0 <= k < ordered.len() implies (#[trigger] hub.sessions[k]).name
        == ordered[k].name by {}
    if is_listed(ordered, name) {
        let k = choose|k: int| 0 <= k < ordered.len() && (#[trigger] ordered[k]).name == name;
        assert(hub.sessions[k].name == name);
    }
}

/// Lists are put in the order of names, where that is asked for with the default session first.
pub proof fn the_order_of_a_list(left: Seq<char>, right: Seq<char>)
    ensures
        may_precede(left, right, false) == name_le(left, right),
        may_precede(left, right, true) == (left == "default"@ || right != "default"@ && name_le(
            left,
            right,
        )),
{
}

/// Each session that a host lists is taken over as it is listed.
pub proof fn sessions_are_taken_over_as_listed(
    descriptors: Seq<RemoteSessionDescriptor>,
    i: int,
)
    requires
        0 <= i < descriptors.len(),
    ensures
        described(descriptors).len() == descriptors.len(),
        described(descriptors)[i] == unknown(descriptors[i].name@, descriptors[i].running),
{
}

} // verus!
