//! What dialogs make of what is typed into them, and what comes of them.

use crate::connections::{ClientLaunchMode, ConnectionView};
use crate::dialogs::{extended, first_other, others, ProgressView};
use crate::effects::RoleView;
use crate::input::InputView;
use crate::input_laws::{
    a_session_stands_where_its_name_first_is, introduction, nothing_left, one_later,
    sidebar_frames_are_given_up_whole, summaries_of, without_frames_of,
};
use crate::lifecycle::{may_precede, sorted, sorting_keeps_sessions, sorting_puts_in_order};
use crate::protocol::{
    ErrorView, FailureView, IoErrorKind, KeyCode, KeyEventKind, RawInputEvent, TerminalKey,
};
use crate::start_laws::unknown;
use crate::state::{is_listed, place_of, session_named, HubView, ModalView, SessionView};
use crate::step_laws::{connections_are_given_up_whole, without_connections_of};
use crate::steps::{PlanView, RequestView, StepView, SwitchView};
use crate::text::{
    is_white_space, lemma_bytes_of_one_more, name_le, trimmed, trimmed_end, trimmed_start,
};
use vstd::prelude::*;
use vstd::utf8::encode_utf8;

verus! {

/// Whether the next event is a key that goes down or repeats, in an open dialog.
pub open spec fn next_is(
    hub: HubView,
    modal: ModalView,
    events: Seq<RawInputEvent>,
    from: int,
    key: TerminalKey,
) -> bool {
    &&& hub.modal == Some(modal)
    &&& 0 <= from < events.len()
    &&& events[from] == RawInputEvent::Key(key)
    &&& key.kind != KeyEventKind::Release
}

/// Whether control or alt is held with a key.
pub open spec fn is_chord(key: TerminalKey) -> bool {
    key.modifiers & 0b0110u8 != 0
}

/// A character that is typed into a dialog for a name stands at the end of the name, and all before
/// it is as it was; an error goes. A name of sixty-four bytes or more stays as it is, and a dialog
/// without a name takes none.
pub proof fn what_is_typed_is_what_stands_there(
    hub: HubView,
    modal: ModalView,
    events: Seq<RawInputEvent>,
    from: int,
    key: TerminalKey,
    ch: char,
) -> (after: ModalView)
    requires
        next_is(hub, modal, events, from, key),
        key.code == KeyCode::Char(ch),
        !is_chord(key),
        match modal {
            ModalView::Create { name, .. } => encode_utf8(name).len() <= usize::MAX,
            ModalView::Rename { name, .. } => encode_utf8(name).len() <= usize::MAX,
            ModalView::ConfirmClose { .. } => true,
        },
    ensures
        hub.typed(events, from) == (HubView { modal: Some(after), ..hub }).typed(events, from + 1),
        match (modal, after) {
            (
                ModalView::Create { name, .. },
                ModalView::Create { name: longer, error },
            ) => if encode_utf8(name).len() < 64 {
                longer.len() == name.len() + 1 && longer.last() == ch && longer.drop_last() == name
                    && error is None
            } else {
                after == modal
            },
            (
                ModalView::Rename { session, name, .. },
                ModalView::Rename { session: same, name: longer, error },
            ) => if encode_utf8(name).len() < 64 {
                same == session && longer.len() == name.len() + 1 && longer.last() == ch
                    && longer.drop_last() == name && error is None
            } else {
                after == modal
            },
            (ModalView::ConfirmClose { .. }, _) => after == modal,
            _ => false,
        },
{
    assert(0b0110u8 == (0b0010u8 | 0b0100u8)) by (bit_vector);
    let after = extended(modal, ch);
    match modal {
        ModalView::Create { name, .. } => {
            assert(name.push(ch).drop_last() =~= name);
        },
        ModalView::Rename { name, .. } => {
            assert(name.push(ch).drop_last() =~= name);
        },
        ModalView::ConfirmClose { .. } => {},
    }
    after
}

/// Backspace takes the last character off the name, and an error goes.
pub proof fn backspace_takes_the_last_character(
    hub: HubView,
    modal: ModalView,
    events: Seq<RawInputEvent>,
    from: int,
    key: TerminalKey,
)
    requires
        next_is(hub, modal, events, from, key),
        key.code == KeyCode::Backspace,
    ensures
        hub.typed(events, from) == (HubView {
            modal: Some(
                match modal {
                    ModalView::Create { name, .. } => ModalView::Create {
                        name: if name.len() > 0 {
                            name.subrange(0, name.len() - 1)
                        } else {
                            name
                        },
                        error: None,
                    },
                    ModalView::Rename { session, name, .. } => ModalView::Rename {
                        session,
                        name: if name.len() > 0 {
                            name.subrange(0, name.len() - 1)
                        } else {
                            name
                        },
                        error: None,
                    },
                    ModalView::ConfirmClose { .. } => modal,
                },
            ),
            ..hub
        }).typed(events, from + 1),
{
    match modal {
        ModalView::Create { name, .. } => {
            if name.len() > 0 {
                assert(name.drop_last() =~= name.subrange(0, name.len() - 1));
            }
        },
        ModalView::Rename { name, .. } => {
            if name.len() > 0 {
                assert(name.drop_last() =~= name.subrange(0, name.len() - 1));
            }
        },
        ModalView::ConfirmClose { .. } => {},
    }
}

/// Escape leaves the dialog, whatever else was read; nothing else changes but that the screen is
/// out of date.
pub proof fn escape_leaves_the_dialog(
    hub: HubView,
    modal: ModalView,
    events: Seq<RawInputEvent>,
    from: int,
    key: TerminalKey,
)
    requires
        next_is(hub, modal, events, from, key),
        key.code == KeyCode::Esc,
    ensures
        hub.typed(events, from) == (
            HubView { modal: None, repaint: true, ..hub },
            Ok::<ProgressView, ErrorView>(ProgressView::Finished),
        ),
{
}

/// All other events but enter are passed over: other keys, keys with control or alt, keys that go
/// up, and the mouse.
pub proof fn other_events_are_passed_over(
    hub: HubView,
    events: Seq<RawInputEvent>,
    from: int,
)
    requires
        hub.modal is Some,
        0 <= from < events.len(),
        match events[from] {
            RawInputEvent::Key(key) => key.kind == KeyEventKind::Release || match key.code {
                KeyCode::Char(_) => is_chord(key),
                KeyCode::Up | KeyCode::Down | KeyCode::Other => true,
                KeyCode::Esc | KeyCode::Enter | KeyCode::Backspace => false,
            },
            RawInputEvent::Mouse(_) | RawInputEvent::Other => true,
        },
    ensures
        hub.typed(events, from) == hub.typed(events, from + 1),
{
    assert(0b0110u8 == (0b0010u8 | 0b0100u8)) by (bit_vector);
}

/// At the end of what was read, and without a dialog, nothing more happens but that the screen is
/// out of date.
pub proof fn typing_ends_with_what_was_read(hub: HubView, events: Seq<RawInputEvent>, from: int)
    requires
        0 <= from,
        hub.modal is None || events.len() <= from,
    ensures
        hub.typed(events, from) == (
            HubView { repaint: true, ..hub },
            Ok::<ProgressView, ErrorView>(ProgressView::Finished),
        ),
{
}

/// Input to an open dialog is typed into it from the first event on.
pub proof fn an_open_dialog_takes_all_input(
    hub: HubView,
    data: Seq<u8>,
    events: Seq<RawInputEvent>,
)
    requires
        hub.modal is Some,
    ensures
        hub.local_input(data, events).0 == hub.typed(events, 0).0,
        match (hub.typed(events, 0).1, hub.local_input(data, events).1) {
            (Ok(progress), Ok(InputView::Modal(told))) => told == progress,
            (Err(error), Err(told)) => told == error,
            _ => false,
        },
{
}

/// Whether characters were typed one after the other, and nothing else.
pub open spec fn spell(events: Seq<RawInputEvent>, text: Seq<char>) -> bool {
    &&& events.len() == text.len()
    &&& forall|i: int|
        0 <= i < text.len() ==> ((#[trigger] events[i]) matches RawInputEvent::Key(key) && key.kind
            != KeyEventKind::Release && key.code == KeyCode::Char(text[i]) && !is_chord(key))
}

proof fn lemma_bytes_of_start(text: Seq<char>, more: Seq<char>)
    ensures
        encode_utf8(text).len() <= encode_utf8(text + more).len(),
    decreases more.len(),
{
    if more.len() == 0 {
        assert(text + more =~= text);
    } else {
        lemma_bytes_of_start(text, more.drop_last());
        assert((text + more.drop_last()).push(more.last()) =~= text + more);
        lemma_bytes_of_one_more(text + more.drop_last(), more.last());
    }
}

/// A text that is typed into the dialog for a new session, or for a session's new name, stands
/// behind what was there, character by character, as far as the name stays under the limit.
pub proof fn a_typed_text_stands_behind_the_name(
    hub: HubView,
    events: Seq<RawInputEvent>,
    text: Seq<char>,
    from: int,
    session: Option<Seq<char>>,
    name: Seq<char>,
    error: Option<Seq<char>>,
)
    requires
        spell(events, text),
        0 <= from < text.len(),
        hub.modal == Some(
            match session {
                Some(session) => ModalView::Rename { session, name, error },
                None => ModalView::Create { name, error },
            },
        ),
        encode_utf8(name + text.subrange(from, text.len() - 1)).len() < 64,
    ensures
        hub.typed(events, from) == (
            HubView {
                modal: Some(
                    match session {
                        Some(session) => ModalView::Rename {
                            session,
                            name: name + text.skip(from),
                            error: None,
                        },
                        None => ModalView::Create { name: name + text.skip(from), error: None },
                    },
                ),
                repaint: true,
                ..hub
            },
            Ok::<ProgressView, ErrorView>(ProgressView::Finished),
        ),
    decreases text.len() - from,
{
    let modal = hub.modal->0;
    let key = events[from]->Key_0;
    let rest = text.subrange(from, text.len() - 1);
    lemma_bytes_of_start(name, rest);
    let after = what_is_typed_is_what_stands_there(hub, modal, events, from, key, text[from]);
    let longer = name.push(text[from]);
    let next = HubView { modal: Some(after), ..hub };
    match after {
        ModalView::Create { name: typed, .. } => {
            assert(typed =~= longer) by {
                assert(typed =~= typed.drop_last().push(typed.last()));
            }
        },
        ModalView::Rename { name: typed, .. } => {
            assert(typed =~= longer) by {
                assert(typed =~= typed.drop_last().push(typed.last()));
            }
        },
        ModalView::ConfirmClose { .. } => {},
    }
    if from + 1 < text.len() {
        assert(longer + text.subrange(from + 1, text.len() - 1) =~= name + rest);
        a_typed_text_stands_behind_the_name(
            next,
            events,
            text,
            from + 1,
            session,
            longer,
            None,
        );
        assert(longer + text.skip(from + 1) =~= name + text.skip(from));
    } else {
        assert(longer =~= name + text.skip(from));
    }
}

/// The text of which the outer white space is left out.
pub proof fn trimming_takes_the_outer_white_space(text: Seq<char>) -> (ends: (Seq<char>, Seq<char>))
    ensures
        text == ends.0 + trimmed(text) + ends.1,
        forall|i: int| 0 <= i < ends.0.len() ==> is_white_space(#[trigger] ends.0[i]),
        forall|i: int| 0 <= i < ends.1.len() ==> is_white_space(#[trigger] ends.1[i]),
        trimmed(text).len() > 0 ==> !is_white_space(trimmed(text).first()) && !is_white_space(
            trimmed(text).last(),
        ),
{
    let lead = lemma_trimmed_start(text);
    let trail = lemma_trimmed_end(trimmed_start(text));
    assert(text =~= lead + trimmed(text) + trail);
    if trimmed(text).len() > 0 {
        assert(trimmed_start(text).first() == trimmed(text).first());
    }
    (lead, trail)
}

proof fn lemma_trimmed_start(text: Seq<char>) -> (lead: Seq<char>)
    ensures
        text == lead + trimmed_start(text),
        forall|i: int| 0 <= i < lead.len() ==> is_white_space(#[trigger] lead[i]),
        trimmed_start(text).len() > 0 ==> !is_white_space(trimmed_start(text).first()),
    decreases text.len(),
{
    if text.len() > 0 && is_white_space(text.first()) {
        let rest = lemma_trimmed_start(text.drop_first());
        let lead = seq![text.first()] + rest;
        assert(text =~= seq![text.first()] + text.drop_first());
        assert(lead + trimmed_start(text) =~= seq![text.first()] + (rest + trimmed_start(text)));
        assert forall|i: int| 0 <= i < lead.len() implies is_white_space(#[trigger] lead[i]) by {
            if i > 0 {
                assert(lead[i] == rest[i - 1]);
            }
        }
        lead
    } else {
        assert(text =~= Seq::<char>::empty() + text);
        Seq::empty()
    }
}

proof fn lemma_trimmed_end(text: Seq<char>) -> (trail: Seq<char>)
    ensures
        text == trimmed_end(text) + trail,
        forall|i: int| 0 <= i < trail.len() ==> is_white_space(#[trigger] trail[i]),
        trimmed_end(text).len() > 0 ==> !is_white_space(trimmed_end(text).last()),
    decreases text.len(),
{
    if text.len() > 0 && is_white_space(text.last()) {
        let rest = lemma_trimmed_end(text.drop_last());
        let trail = rest.push(text.last());
        assert(text =~= trimmed_end(text) + trail) by {
            assert(text =~= text.drop_last().push(text.last()));
        }
        trail
    } else {
        assert(text =~= text + Seq::<char>::empty());
        Seq::empty()
    }
}

/// Enter in a dialog for a name has the name read, without the white space around it, and leaves
/// the dialog open; where a session is to be renamed to the name that it has, the dialog is done.
pub proof fn enter_has_the_name_read(
    hub: HubView,
    modal: ModalView,
    events: Seq<RawInputEvent>,
    from: int,
    key: TerminalKey,
    name: Seq<char>,
)
    requires
        next_is(hub, modal, events, from, key),
        key.code == KeyCode::Enter,
        match modal {
            ModalView::Create { name: typed, .. } => typed == name,
            ModalView::Rename { name: typed, .. } => typed == name,
            ModalView::ConfirmClose { .. } => false,
        },
    ensures
        hub.typed(events, from) == if modal is Rename && modal->Rename_session == trimmed(name) {
            (
                HubView { modal: None, repaint: true, ..hub },
                Ok::<ProgressView, ErrorView>(ProgressView::Finished),
            )
        } else {
            (
                hub,
                Ok::<ProgressView, ErrorView>(
                    ProgressView::Waiting {
                        next: from + 1,
                        step: StepView::ParseName { requested: trimmed(name) },
                    },
                ),
            )
        },
{
    if modal is Rename && modal->Rename_session == trimmed(name) {
        typing_ends_with_what_was_read(HubView { modal: None, ..hub }, events, from + 1);
    }
}

/// Enter in the dialog to close a session goes about closing it; what was read after it waits.
pub proof fn enter_goes_about_closing(
    hub: HubView,
    modal: ModalView,
    events: Seq<RawInputEvent>,
    from: int,
    key: TerminalKey,
    session: Seq<char>,
)
    requires
        next_is(hub, modal, events, from, key),
        key.code == KeyCode::Enter,
        modal matches ModalView::ConfirmClose { session: named, .. } && named == session,
    ensures
        hub.typed(events, from).0 == hub.closing(session).0,
        match hub.closing(session).1 {
            Ok(step) => hub.typed(events, from).1 == Ok::<ProgressView, ErrorView>(
                ProgressView::Waiting { next: from + 1, step },
            ),
            Err(error) => hub.typed(events, from).1 == Err::<ProgressView, ErrorView>(error),
        },
{
}

/// A session that is not on the screen is folded, loses its connections, and the host is asked to
/// close it; the session on the screen stays there.
pub proof fn closing_another_session_asks_the_host(hub: HubView, session: Seq<char>)
    requires
        session != hub.active.name,
    ensures
        hub.closing(session).1 == Ok::<StepView, ErrorView>(
            StepView::Ask { request: RequestView::Close { session } },
        ),
        without_connections_of(
            HubView { collapsed: hub.collapsed.insert(session), ..hub },
            session,
            hub.closing(session).0,
        ),
{
    let folded = HubView { collapsed: hub.collapsed.insert(session), ..hub };
    connections_are_given_up_whole(folded, session);
}

/// Before the session on the screen is closed, the first other one is to go on the screen; the
/// closing waits for that.
pub proof fn closing_the_session_on_the_screen_needs_another(
    hub: HubView,
    session: Seq<char>,
    at: int,
)
    requires
        session == hub.active.name,
        0 <= at < hub.sessions.len(),
        hub.sessions[at].name != session,
        forall|i: int| 0 <= i < at ==> (#[trigger] hub.sessions[i]).name == session,
    ensures
        hub.closing(session).1 == Ok::<StepView, ErrorView>(
            StepView::Connect {
                connection: ConnectionView {
                    role: RoleView::Active,
                    session: hub.sessions[at].name,
                    generation: hub.next_generation,
                    workspace: None,
                    handshake: introduction(hub, ClientLaunchMode::App, hub.cols, hub.rows),
                },
                plan: PlanView { close: Some(session), ..nothing_left() },
            },
        ),
        hub.closing(session).0.next_generation == one_later(hub.next_generation),
        without_frames_of(
            HubView { collapsed: hub.collapsed.insert(session), ..hub },
            hub.sessions[at].name,
            (HubView { next_generation: hub.next_generation, ..hub.closing(session).0 }),
        ),
{
    lemma_first_other(hub.sessions, session, at);
    let folded = HubView { collapsed: hub.collapsed.insert(session), ..hub };
    sidebar_frames_are_given_up_whole(folded, hub.sessions[at].name);
    assert((HubView { next_generation: hub.next_generation, ..hub.closing(session).0 })
        == folded.without_sidebar(hub.sessions[at].name));
}

proof fn lemma_first_other(sessions: Seq<SessionView>, name: Seq<char>, at: int)
    requires
        0 <= at < sessions.len(),
        sessions[at].name != name,
        forall|i: int| 0 <= i < at ==> (#[trigger] sessions[i]).name == name,
    ensures
        first_other(sessions, name) == Some(sessions[at].name),
    decreases at,
{
    if at > 0 {
        assert(sessions[0].name == name);
        let rest = sessions.drop_first();
        assert forall|i: int| 0 <= i < at - 1 implies (#[trigger] rest[i]).name == name by {
            assert(rest[i] == sessions[i + 1]);
        }
        lemma_first_other(rest, name, at - 1);
    }
}

/// The only session cannot be closed: the hub stops.
pub proof fn closing_the_only_session_stops_the_hub(hub: HubView, session: Seq<char>)
    requires
        session == hub.active.name,
        forall|i: int| 0 <= i < hub.sessions.len() ==> (#[trigger] hub.sessions[i]).name == session,
    ensures
        hub.closing(session) == (
            HubView { collapsed: hub.collapsed.insert(session), ..hub },
            Err::<StepView, ErrorView>(
                ErrorView::ConnectionLost(
                    FailureView { kind: IoErrorKind::Other, reason: "no fallback session"@ },
                ),
            ),
        ),
{
    lemma_no_other(hub.sessions, session);
}

proof fn lemma_no_other(sessions: Seq<SessionView>, name: Seq<char>)
    requires
        forall|i: int| 0 <= i < sessions.len() ==> (#[trigger] sessions[i]).name == name,
    ensures
        first_other(sessions, name) is None,
    decreases sessions.len(),
{
    if sessions.len() > 0 {
        assert(sessions[0].name == name);
        let rest = sessions.drop_first();
        assert forall|i: int| 0 <= i < rest.len() implies (#[trigger] rest[i]).name == name by {
            assert(rest[i] == sessions[i + 1]);
        }
        lemma_no_other(rest, name);
    }
}

/// The hub with nothing changed but the error that its dialog shows.
pub open spec fn complains(hub: HubView, error: Seq<char>) -> HubView {
    HubView {
        modal: match hub.modal {
            Some(ModalView::Create { name, .. }) => Some(
                ModalView::Create { name, error: Some(error) },
            ),
            Some(ModalView::Rename { session, name, .. }) => Some(
                ModalView::Rename { session, name, error: Some(error) },
            ),
            Some(ModalView::ConfirmClose { session, .. }) => Some(
                ModalView::ConfirmClose { session, error: Some(error) },
            ),
            None => None,
        },
        ..hub
    }
}

/// A text that cannot be a name, the default session's name and the name of a listed session are
/// refused: the dialog says why, and nothing else happens.
pub proof fn names_that_cannot_be_are_refused(
    hub: HubView,
    reason: Seq<char>,
    taken: Seq<char>,
)
    ensures
        hub.name_parsed(Err(reason)) == (complains(hub, reason), StepView::Settled),
        hub.name_parsed(Ok(None)) == (
            complains(hub, "use a named session, not default"@),
            StepView::Settled,
        ),
        is_listed(hub.sessions, taken) ==> hub.name_parsed(Ok(Some(taken))) == (
            complains(hub, "session "@ + taken + " already exists"@),
            StepView::Settled,
        ),
{
}

/// With a name that is free, the host is asked to make the session, or to rename the one that the
/// dialog is about, under just that name. A session to be renamed loses its connections first.
pub proof fn a_free_name_goes_to_the_host(hub: HubView, name: Seq<char>)
    requires
        !is_listed(hub.sessions, name),
    ensures
        hub.modal is Some && hub.modal->0 is Create ==> hub.name_parsed(Ok(Some(name))) == (
            hub,
            StepView::Ask { request: RequestView::Create { session: name } },
        ),
        hub.modal is Some && hub.modal->0 is Rename ==> {
            let session = hub.modal->0->Rename_session;
            &&& hub.name_parsed(Ok(Some(name))).1 == (StepView::Ask {
                request: RequestView::Rename { session, new_name: name },
            })
            &&& without_connections_of(hub, session, hub.name_parsed(Ok(Some(name))).0)
        },
        hub.modal is None || hub.modal->0 is ConfirmClose ==> hub.name_parsed(Ok(Some(name))) == (
            hub,
            StepView::Settled,
        ),
{
    if hub.modal is Some && hub.modal->0 is Rename {
        connections_are_given_up_whole(hub, hub.modal->0->Rename_session);
    }
}

/// What the host refuses is told in the dialog, and nothing else happens.
pub proof fn what_the_host_refuses_is_told(hub: HubView, request: RequestView, reason: Seq<char>)
    ensures
        hub.answered(request, Err(reason)) == (complains(hub, reason), StepView::Settled),
{
}

/// Whether every name in a list comes before or equals all that follow it.
pub open spec fn by_name(sessions: Seq<SessionView>) -> bool {
    forall|i: int, j: int|
        0 <= i < j < sessions.len() ==> name_le(
            (#[trigger] sessions[i]).name,
            (#[trigger] sessions[j]).name,
        )
}

proof fn lemma_sorted_by_name(sessions: Seq<SessionView>)
    ensures
        by_name(sorted(sessions, false)),
        sorted(sessions, false).to_multiset() == sessions.to_multiset(),
{
    sorting_puts_in_order(sessions, false);
    sorting_keeps_sessions(sessions, false);
    let list = sorted(sessions, false);
    assert forall|i: int, j: int| 0 <= i < j < list.len() implies name_le(
        (#[trigger] list[i]).name,
        (#[trigger] list[j]).name,
    ) by {
        assert(may_precede(list[i].name, list[j].name, false));
    }
}

/// A list that has the same sessions as another finds the only one of a name.
proof fn lemma_only_one_found(
    sessions: Seq<SessionView>,
    list: Seq<SessionView>,
    item: SessionView,
)
    requires
        list.to_multiset() == sessions.to_multiset(),
        sessions.contains(item),
        forall|other: SessionView|
            #[trigger] sessions.contains(other) && other.name == item.name ==> other == item,
    ensures
        session_named(list, item.name) == Some(item),
{
    broadcast use vstd::seq_lib::group_to_multiset_ensures;

    a_session_stands_where_its_name_first_is(list, item.name);
    assert(list.contains(item)) by {
        assert(sessions.to_multiset().contains(item));
    }
    let at = list.index_of(item);
    assert(list[at].name == item.name);
    match place_of(list, item.name) {
        Some(place) => {
            assert(list.contains(list[place]));
            assert(list.to_multiset().contains(list[place]));
            assert(sessions.contains(list[place]));
        },
        None => {},
    }
}

/// A session that the host made is listed in its place by name, running and with nothing known of
/// it, beside all that were; its summaries are asked for, and then it is to go on the screen, and
/// the dialog to be done.
pub proof fn a_made_session_is_listed_and_connected(hub: HubView, session: Seq<char>)
    requires
        !is_listed(hub.sessions, session),
    ensures
        ({
            let (after, step) = hub.answered(RequestView::Create { session }, Ok(()));
            let made = SessionView {
                name: session,
                running: true,
                summary: None,
                summary_generation: 0,
                summary_connected: false,
                sidebar_generation: 0,
                sidebar_connected: false,
                sidebar_frame: None,
            };
            &&& after == (HubView {
                sessions: after.sessions,
                next_generation: one_later(hub.next_generation),
                ..hub
            })
            &&& after.sessions.to_multiset() == hub.sessions.to_multiset().insert(made)
            &&& by_name(after.sessions)
            &&& step == (StepView::Connect {
                connection: summaries_of(hub, session),
                plan: PlanView {
                    switch: Some(SwitchView { session, workspace: None }),
                    finish: Some("created session "@ + session),
                    ..nothing_left()
                },
            })
        }),
{
    broadcast use vstd::seq_lib::group_to_multiset_ensures;

    let made = SessionView {
        name: session,
        running: true,
        summary: None,
        summary_generation: 0,
        summary_connected: false,
        sidebar_generation: 0,
        sidebar_connected: false,
        sidebar_frame: None,
    };
    let longer = hub.sessions.push(made);
    lemma_sorted_by_name(longer);
    assert(longer[hub.sessions.len() as int] == made);
    assert forall|other: SessionView|
        #[trigger] longer.contains(other) && other.name == session implies other == made by {
        let i = longer.index_of(other);
        if i < hub.sessions.len() {
            assert(hub.sessions[i].name == session);
        }
    }
    lemma_only_one_found(longer, sorted(longer, false), made);
}

/// A session that the host renamed is listed in its place by its new name, running and with nothing
/// known of it, instead of under its old name, and is folded if it was. Its summaries are asked
/// for; then it is to be connected as before, for the screen or for the sidebar, and the dialog to
/// be done.
pub proof fn a_renamed_session_is_listed_under_its_new_name(
    hub: HubView,
    session: Seq<char>,
    new_name: Seq<char>,
    item: SessionView,
)
    requires
        session_named(hub.sessions, session) == Some(item),
        !is_listed(hub.sessions, new_name),
        !item.summary_connected,
    ensures
        ({
            let request = RequestView::Rename { session, new_name };
            let (after, step) = hub.answered(request, Ok(()));
            let renamed = SessionView {
                name: new_name,
                running: true,
                summary: None,
                summary_generation: 0,
                sidebar_generation: 0,
                ..item
            };
            let folded = hub.collapsed.contains(session);
            &&& after == (HubView {
                sessions: after.sessions,
                collapsed: after.collapsed,
                next_generation: one_later(hub.next_generation),
                ..hub
            })
            &&& after.sessions.to_multiset() == hub.sessions.to_multiset().remove(item).insert(
                renamed,
            )
            &&& by_name(after.sessions)
            &&& forall|name: Seq<char>|
                #![trigger after.collapsed.contains(name)]
                after.collapsed.contains(name) == (name != session && hub.collapsed.contains(name)
                    || name == new_name && folded)
            &&& step == (StepView::Connect {
                connection: summaries_of(hub, new_name),
                plan: PlanView {
                    switch: if session == hub.active.name {
                        Some(SwitchView { session: new_name, workspace: None })
                    } else {
                        None
                    },
                    sidebar: if session != hub.active.name && !folded {
                        Some(new_name)
                    } else {
                        None
                    },
                    finish: Some("renamed session "@ + session + " to "@ + new_name),
                    ..nothing_left()
                },
            })
        }),
{
    broadcast use vstd::seq_lib::group_to_multiset_ensures;

    let renamed = SessionView {
        name: new_name,
        running: true,
        summary: None,
        summary_generation: 0,
        sidebar_generation: 0,
        ..item
    };
    a_session_stands_where_its_name_first_is(hub.sessions, session);
    let at = place_of(hub.sessions, session)->0;
    let changed = hub.sessions.update(at, renamed);
    lemma_sorted_by_name(changed);
    assert(changed.to_multiset() == hub.sessions.to_multiset().remove(item).insert(renamed)) by {
        assert(hub.sessions.remove(at) =~= changed.remove(at));
        assert(hub.sessions.contains(item));
        assert(changed[at] == renamed);
        assert(changed.contains(renamed));
        assert(changed.to_multiset() =~= changed.to_multiset().remove(renamed).insert(renamed));
    }
    assert(changed[at] == renamed);
    assert forall|other: SessionView|
        #[trigger] changed.contains(other) && other.name == new_name implies other == renamed by {
        let i = changed.index_of(other);
        if i != at {
            assert(hub.sessions[i].name == new_name);
        }
    }
    lemma_only_one_found(changed, sorted(changed, false), renamed);
    let after = hub.answered(RequestView::Rename { session, new_name }, Ok(())).0;
    assert(after.sessions == sorted(changed, false));
}

/// A session that the host closed is not listed any more and the others are, in their order; it is
/// not counted as folded, and the dialog is done.
pub proof fn a_closed_session_is_gone(hub: HubView, session: Seq<char>)
    ensures
        hub.answered(RequestView::Close { session }, Ok(())) == (
            HubView {
                sessions: hub.sessions.filter(|item: SessionView| item.name != session),
                collapsed: hub.collapsed.remove(session),
                modal: None,
                status: Some("closed session "@ + session),
                ..hub
            },
            StepView::Settled,
        ),
{
    assert(others(hub.sessions, session) == hub.sessions.filter(
        |item: SessionView| item.name != session,
    ));
}

/// Confirming a dialog does what enter in it does, and nothing where none is open.
pub proof fn confirming_is_what_enter_does(hub: HubView)
    ensures
        hub.submitted() == match hub.modal {
            None => (hub, Ok::<StepView, ErrorView>(StepView::Settled)),
            Some(ModalView::Create { name, .. }) => (
                hub,
                Ok::<StepView, ErrorView>(StepView::ParseName { requested: trimmed(name) }),
            ),
            Some(ModalView::Rename { session, name, .. }) => if trimmed(name) == session {
                (HubView { modal: None, ..hub }, Ok::<StepView, ErrorView>(StepView::Settled))
            } else {
                (hub, Ok::<StepView, ErrorView>(StepView::ParseName { requested: trimmed(name) }))
            },
            Some(ModalView::ConfirmClose { session, .. }) => hub.closing(session),
        },
{
}

/// An error that is set is the one that the open dialog shows.
pub proof fn errors_are_shown_in_the_dialog(hub: HubView, error: Seq<char>)
    ensures
        hub.with_modal_error(error) == complains(hub, error),
{
}

/// A name is at fault where it cannot be read, is the default session's, or is taken, and only
/// there.
pub proof fn faults_of_names(hub: HubView, reason: Seq<char>, name: Seq<char>)
    ensures
        hub.name_fault(Err(reason)) == Some(reason),
        hub.name_fault(Ok(None)) == Some("use a named session, not default"@),
        hub.name_fault(Ok(Some(name))) == if exists|i: int|
            0 <= i < hub.sessions.len() && (#[trigger] hub.sessions[i]).name == name {
            Some("session "@ + name + " already exists"@)
        } else {
            None
        },
{
}

/// What the host did is noted in the same way whoever tells the hub of it.
pub proof fn what_the_host_did_is_noted(hub: HubView, session: Seq<char>, new_name: Seq<char>)
    ensures
        hub.created(session) == hub.answered(RequestView::Create { session }, Ok(())),
        hub.renamed(session, new_name) == hub.answered(
            RequestView::Rename { session, new_name },
            Ok(()),
        ),
        hub.closed(session) == hub.answered(RequestView::Close { session }, Ok(())).0,
{
}

/// Listing a new session adds just that session, and puts the list in the order of names.
pub proof fn listing_a_session_adds_it_in_its_place(hub: HubView, session: Seq<char>)
    ensures
        ({
            let after = hub.enlisted(session);
            &&& after == (HubView { sessions: after.sessions, ..hub })
            &&& after.sessions.to_multiset() == hub.sessions.to_multiset().insert(
                unknown(session, true),
            )
            &&& by_name(after.sessions)
            &&& hub.created(session) == after.following(
                PlanView {
                    summary: Some(session),
                    switch: Some(SwitchView { session, workspace: None }),
                    finish: Some("created session "@ + session),
                    ..nothing_left()
                },
            )
        }),
{
    broadcast use vstd::seq_lib::group_to_multiset_ensures;

    lemma_sorted_by_name(hub.sessions.push(unknown(session, true)));
}

/// A renamed session is connected again as it was: for the screen where it was there, for the
/// sidebar where it was shown there with its workspaces.
pub proof fn a_renamed_session_is_connected_as_it_was(
    hub: HubView,
    session: Seq<char>,
    new_name: Seq<char>,
)
    ensures
        hub.renamed(session, new_name) == hub.relisted(session, new_name).following(
            PlanView {
                summary: Some(new_name),
                switch: if session == hub.active.name {
                    Some(SwitchView { session: new_name, workspace: None })
                } else {
                    None
                },
                sidebar: if session != hub.active.name && !hub.collapsed.contains(session) {
                    Some(new_name)
                } else {
                    None
                },
                finish: Some("renamed session "@ + session + " to "@ + new_name),
                ..nothing_left()
            },
        ),
{
}

/// Listing a session under its new name changes just its entry, if it has one, puts the list in the
/// order of names, and leaves it folded if it was.
pub proof fn relisting_changes_one_entry(hub: HubView, session: Seq<char>, new_name: Seq<char>)
    ensures
        ({
            let after = hub.relisted(session, new_name);
            &&& after == (HubView {
                sessions: after.sessions,
                collapsed: after.collapsed,
                ..hub
            })
            &&& by_name(after.sessions)
            &&& after.sessions.to_multiset() == match session_named(hub.sessions, session) {
                Some(item) => hub.sessions.to_multiset().remove(item).insert(
                    SessionView {
                        name: new_name,
                        running: true,
                        summary: None,
                        summary_generation: 0,
                        sidebar_generation: 0,
                        ..item
                    },
                ),
                None => hub.sessions.to_multiset(),
            }
            &&& forall|name: Seq<char>|
                #![trigger after.collapsed.contains(name)]
                after.collapsed.contains(name) == (name != session && hub.collapsed.contains(name)
                    || name == new_name && hub.collapsed.contains(session))
        }),
{
    broadcast use vstd::seq_lib::group_to_multiset_ensures;

    a_session_stands_where_its_name_first_is(hub.sessions, session);
    match session_named(hub.sessions, session) {
        Some(item) => {
            let renamed = SessionView {
                name: new_name,
                running: true,
                summary: None,
                summary_generation: 0,
                sidebar_generation: 0,
                ..item
            };
            let at = place_of(hub.sessions, session)->0;
            let changed = hub.sessions.update(at, renamed);
            lemma_sorted_by_name(changed);
            assert(hub.sessions.remove(at) =~= changed.remove(at));
            assert(hub.sessions.contains(item));
            assert(changed[at] == renamed);
            assert(changed.contains(renamed));
            assert(changed.to_multiset() =~= changed.to_multiset().remove(renamed).insert(renamed));
        },
        None => lemma_sorted_by_name(hub.sessions),
    }
}

/// Where every connection that the hub asks for is there, a session that the host made ends up on
/// the screen, with the dialog done and a word of it in the status.
pub proof fn a_made_session_ends_up_on_the_screen(hub: HubView, session: Seq<char>)
    requires
        !is_listed(hub.sessions, session),
    ensures
        ({
            let (listed, step) = hub.answered(RequestView::Create { session }, Ok(()));
            let (known, next) = listed.attempted(
                step->Connect_connection,
                step->Connect_plan,
                Ok(()),
            );
            let (shown, last) = known.attempted(
                next->Ok_0->Connect_connection,
                next->Ok_0->Connect_plan,
                Ok(()),
            );
            &&& step is Connect
            &&& step->Connect_connection.role == RoleView::Summary(session)
            &&& next is Ok && next->Ok_0 is Connect
            &&& next->Ok_0->Connect_connection.role == RoleView::Active
            &&& next->Ok_0->Connect_connection.session == session
            &&& next->Ok_0->Connect_connection.workspace is None
            &&& last is Ok
            &&& shown.active.name == session
            &&& shown.active.frame is None
            &&& shown.active.generation == next->Ok_0->Connect_connection.generation
            &&& last->Ok_0 is Settled || last->Ok_0 is Connect
            &&& last->Ok_0 is Settled ==> is_done(shown, "created session "@ + session)
            &&& last->Ok_0 is Connect ==> {
                let (watched, end) = shown.attempted(
                    last->Ok_0->Connect_connection,
                    last->Ok_0->Connect_plan,
                    Ok(()),
                );
                &&& last->Ok_0->Connect_connection.role == RoleView::Sidebar(hub.active.name)
                &&& end == Ok::<StepView, ErrorView>(StepView::Settled)
                &&& watched.active == shown.active
                &&& is_done(watched, "created session "@ + session)
            }
        }),
{
    a_made_session_is_listed_and_connected(hub, session);
    let (listed, step) = hub.answered(RequestView::Create { session }, Ok(()));
    let connection = step->Connect_connection;
    let known = listed.established(connection);
    let longer = hub.sessions.push(unknown(session, true));
    lemma_sorted_by_name(longer);
    assert(longer[hub.sessions.len() as int] == unknown(session, true));
    assert forall|other: SessionView| #[trigger]
        longer.contains(other) && other.name == session implies other == unknown(
        session,
        true,
    ) by {
        let i = longer.index_of(other);
        if i < hub.sessions.len() {
            assert(hub.sessions[i].name == session);
        }
    }
    lemma_only_one_found(longer, sorted(longer, false), unknown(session, true));
}

/// Whether the dialog is done, with the given word of it in the status and the screen out of date.
pub open spec fn is_done(hub: HubView, status: Seq<char>) -> bool {
    hub.modal is None && hub.status == Some(status) && hub.repaint
}

/// Where the connection that the hub asks for is there and the host does as it is asked, closing the
/// session on the screen ends with the first other one there, and with the closed one gone.
pub proof fn closing_the_session_on_the_screen_ends_with_another(
    hub: HubView,
    session: Seq<char>,
    at: int,
)
    requires
        session == hub.active.name,
        0 <= at < hub.sessions.len(),
        hub.sessions[at].name != session,
        forall|i: int| 0 <= i < at ==> (#[trigger] hub.sessions[i]).name == session,
    ensures
        ({
            let (folded, step) = hub.closing(session);
            let (switched, next) = folded.attempted(
                step->Ok_0->Connect_connection,
                step->Ok_0->Connect_plan,
                Ok(()),
            );
            let (closed, end) = switched.answered(RequestView::Close { session }, Ok(()));
            &&& step is Ok && step->Ok_0 is Connect
            &&& next == Ok::<StepView, ErrorView>(
                StepView::Ask { request: RequestView::Close { session } },
            )
            &&& end is Settled
            &&& closed.active.name == hub.sessions[at].name
            &&& !is_listed(closed.sessions, session)
            &&& !closed.collapsed.contains(session)
            &&& is_done(closed, "closed session "@ + session)
        }),
{
    closing_the_session_on_the_screen_needs_another(hub, session, at);
    let (folded, step) = hub.closing(session);
    let (switched, next) = folded.attempted(
        step->Ok_0->Connect_connection,
        step->Ok_0->Connect_plan,
        Ok(()),
    );
    a_closed_session_is_gone(switched, session);
    let kept = |item: SessionView| item.name != session;
    let rest = switched.sessions.filter(kept);
    assert forall|i: int| 0 <= i < rest.len() implies (#[trigger] rest[i]).name != session by {
        switched.sessions.lemma_filter_pred(kept, i);
    }
}

} // verus!
