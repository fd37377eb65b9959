//! Dialogs about sessions: what is typed into them, and what they lead to.
//!
//! Some steps of a dialog are for the program around the hub to take. The hub then stops with the
//! step, and goes on once it is told how the step went.

use crate::lifecycle::{fresh_session, lists_session, sort_sessions, sorted};
use crate::protocol::{
    text_view, ClientError, ErrorView, FailureView, IoErrorKind, IoFailure, KeyCode, KeyEventKind,
    RawInputEvent, TerminalKey,
};
use crate::state::{
    is_listed, session_named, session_views, with_session, HubSession, HubState, HubView,
    ModalView, NewSessionModal, SessionModal, SessionView,
};
use crate::steps::{
    answer_view, idle, step_view, BackendRequest, HubStep, Plan, PlanView, RequestView, StepView,
    Switch, SwitchView,
};
use crate::text::{byte_len, joined, lemma_bytes_of_one_more, trimmed};
use crossterm::event::KeyModifiers;
use vstd::prelude::*;
use vstd::utf8::encode_utf8;

verus! {

/// The bit of the control key among held modifier keys.
pub const CONTROL: u8 = 0b0000_0010;

/// The bit of the alt key among held modifier keys.
pub const ALT: u8 = 0b0000_0100;

/// How many bytes of a name a dialog takes before it takes no more characters.
pub const NAME_LIMIT: usize = 64;

/// `KeyModifiers::intersects`: whether two sets of modifier keys, given as bits, have a key in
/// common.
#[verifier::external_body]
fn modifiers_intersect(held: u8, keys: u8) -> (any: bool)
    ensures
        any == (held & keys != 0),
{
    KeyModifiers::from_bits_retain(held).intersects(KeyModifiers::from_bits_retain(keys))
}

/// How far a dialog came with the events that were read.
#[derive(Debug, PartialEq, Eq)]
pub enum ModalProgress {
    /// All events were taken, or the dialog was left.
    Finished,
    /// The step comes first; the events from `next` on come after it.
    Waiting { next: usize, step: HubStep },
}

/// What a [`ModalProgress`] says.
pub enum ProgressView {
    Finished,
    Waiting { next: int, step: StepView },
}

impl View for ModalProgress {
    type V = ProgressView;

    open spec fn view(&self) -> ProgressView {
        match *self {
            ModalProgress::Finished => ProgressView::Finished,
            ModalProgress::Waiting { next, step } => {
                ProgressView::Waiting { next: next as int, step: step@ }
            },
        }
    }
}

/// What a requested text is as the name of a session: a name, the default session, or nothing
/// that could be one.
pub type ParsedName = Result<Option<String>, String>;

/// What a [`ParsedName`] says.
pub open spec fn parsed_view(parsed: ParsedName) -> Result<Option<Seq<char>>, Seq<char>> {
    match parsed {
        Ok(name) => Ok(text_view(name)),
        Err(reason) => Err(reason@),
    }
}

/// The dialog with the given error, or without one.
pub open spec fn modal_with_error(modal: ModalView, error: Option<Seq<char>>) -> ModalView {
    match modal {
        ModalView::Create { name, .. } => ModalView::Create { name, error },
        ModalView::Rename { session, name, .. } => ModalView::Rename { session, name, error },
        ModalView::ConfirmClose { session, .. } => ModalView::ConfirmClose { session, error },
    }
}

/// The name without its last character.
pub open spec fn shortened(name: Seq<char>) -> Seq<char> {
    if name.len() == 0 {
        name
    } else {
        name.drop_last()
    }
}

/// The dialog with the last character of its name erased.
pub open spec fn erased(modal: ModalView) -> ModalView {
    match modal {
        ModalView::Create { name, .. } => ModalView::Create { name: shortened(name), error: None },
        ModalView::Rename { session, name, .. } => {
            ModalView::Rename { session, name: shortened(name), error: None }
        },
        ModalView::ConfirmClose { .. } => modal,
    }
}

/// The dialog with a character added to its name, while the name is short enough.
pub open spec fn extended(modal: ModalView, ch: char) -> ModalView {
    match modal {
        ModalView::Create { name, .. } => if byte_len(name) < NAME_LIMIT {
            ModalView::Create { name: name.push(ch), error: None }
        } else {
            modal
        },
        ModalView::Rename { session, name, .. } => if byte_len(name) < NAME_LIMIT {
            ModalView::Rename { session, name: name.push(ch), error: None }
        } else {
            modal
        },
        ModalView::ConfirmClose { .. } => modal,
    }
}

/// The key that an event presses or repeats.
pub open spec fn pressed(event: RawInputEvent) -> Option<TerminalKey> {
    match event {
        RawInputEvent::Key(key) => if key.kind == KeyEventKind::Release {
            None
        } else {
            Some(key)
        },
        _ => None,
    }
}

/// Tells which key an event presses or repeats.
pub fn pressed_key(event: &RawInputEvent) -> (key: Option<TerminalKey>)
    ensures
        key == pressed(*event),
{
    match event {
        RawInputEvent::Key(key) => match key.kind {
            KeyEventKind::Press => Some(*key),
            KeyEventKind::Repeat => Some(*key),
            KeyEventKind::Release => None,
        },
        _ => None,
    }
}

/// The name of the first session with another name than the given one.
pub open spec fn first_other(sessions: Seq<SessionView>, name: Seq<char>) -> Option<Seq<char>>
    decreases sessions.len(),
{
    if sessions.len() == 0 {
        None
    } else if sessions.first().name != name {
        Some(sessions.first().name)
    } else {
        first_other(sessions.drop_first(), name)
    }
}

/// That there is no other session to go on the screen.
pub open spec fn no_fallback() -> FailureView {
    FailureView { kind: IoErrorKind::Other, reason: "no fallback session"@ }
}

/// The sessions with other names than the given one.
pub open spec fn others(sessions: Seq<SessionView>, name: Seq<char>) -> Seq<SessionView> {
    sessions.filter(|session: SessionView| session.name != name)
}

impl HubView {
    /// The hub with an error shown in its dialog, if one is open.
    pub open spec fn with_modal_error(self, error: Seq<char>) -> HubView {
        HubView {
            modal: match self.modal {
                Some(modal) => Some(modal_with_error(modal, Some(error))),
                None => None,
            },
            ..self
        }
    }

    /// Why a parsed name cannot be that of a new session, if it cannot.
    pub open spec fn name_fault(self, parsed: Result<Option<Seq<char>>, Seq<char>>) -> Option<
        Seq<char>,
    > {
        match parsed {
            Err(reason) => Some(reason),
            Ok(None) => Some("use a named session, not default"@),
            Ok(Some(name)) => if is_listed(self.sessions, name) {
                Some("session "@ + name + " already exists"@)
            } else {
                None
            },
        }
    }

    /// The hub on its way to close a session, up to asking the host, and what comes next: the
    /// session is not shown with its workspaces any more, another one goes on the screen in its
    /// place, where it is there, and its connections are given up. There must be another session to
    /// go on the screen.
    pub open spec fn closing(self, session: Seq<char>) -> (HubView, Result<StepView, ErrorView>) {
        let hidden = HubView { collapsed: self.collapsed.insert(session), ..self };
        let plan = PlanView { close: Some(session), ..idle() };
        if self.active.name != session {
            let (hub, step) = hidden.following(plan);
            (hub, Ok(step))
        } else {
            match first_other(self.sessions, session) {
                Some(fallback) => {
                    let (hub, step) = hidden.following(
                        PlanView {
                            switch: Some(SwitchView { session: fallback, workspace: None }),
                            ..plan
                        },
                    );
                    (hub, Ok(step))
                },
                None => (hidden, Err(ErrorView::ConnectionLost(no_fallback()))),
            }
        }
    }

    /// The hub after its dialog was confirmed, and what comes next.
    pub open spec fn submitted(self) -> (HubView, Result<StepView, ErrorView>) {
        match self.modal {
            None => (self, Ok(StepView::Settled)),
            Some(ModalView::Create { name, .. }) => (
                self,
                Ok(StepView::ParseName { requested: trimmed(name) }),
            ),
            Some(ModalView::Rename { session, name, .. }) => if trimmed(name) == session {
                (HubView { modal: None, ..self }, Ok(StepView::Settled))
            } else {
                (self, Ok(StepView::ParseName { requested: trimmed(name) }))
            },
            Some(ModalView::ConfirmClose { session, .. }) => self.closing(session),
        }
    }

    /// The hub after the name in its dialog was parsed, and what comes next: nothing where the
    /// name is at fault, else a request to the host. A session to be renamed loses its
    /// connections first.
    pub open spec fn name_parsed(self, parsed: Result<Option<Seq<char>>, Seq<char>>) -> (
        HubView,
        StepView,
    ) {
        match self.name_fault(parsed) {
            Some(fault) => (self.with_modal_error(fault), StepView::Settled),
            None => {
                let name = parsed->Ok_0->0;
                match self.modal {
                    Some(ModalView::Create { .. }) => (
                        self,
                        StepView::Ask { request: RequestView::Create { session: name } },
                    ),
                    Some(ModalView::Rename { session, .. }) => (
                        self.without_observers(session),
                        StepView::Ask { request: RequestView::Rename { session, new_name: name } },
                    ),
                    _ => (self, StepView::Settled),
                }
            },
        }
    }

    /// The hub with a new session listed.
    pub open spec fn enlisted(self, session: Seq<char>) -> HubView {
        HubView {
            sessions: sorted(self.sessions.push(fresh_session(session, true)), false),
            ..self
        }
    }

    /// The hub once a session was made, and what comes next: the session is listed, to be connected
    /// and to go on the screen; then the dialog is done.
    pub open spec fn created(self, session: Seq<char>) -> (HubView, StepView) {
        self.enlisted(session).following(
            PlanView {
                summary: Some(session),
                switch: Some(SwitchView { session, workspace: None }),
                finish: Some("created session "@ + session),
                ..idle()
            },
        )
    }

    /// The hub with a session listed under its new name and nothing known of it but that it runs.
    pub open spec fn relisted(self, session: Seq<char>, new_name: Seq<char>) -> HubView {
        let rest = self.collapsed.remove(session);
        HubView {
            sessions: sorted(
                match session_named(self.sessions, session) {
                    Some(item) => with_session(
                        self.sessions,
                        session,
                        SessionView {
                            name: new_name,
                            running: true,
                            summary: None,
                            summary_generation: 0,
                            sidebar_generation: 0,
                            ..item
                        },
                    ),
                    None => self.sessions,
                },
                false,
            ),
            collapsed: if self.collapsed.contains(session) {
                rest.insert(new_name)
            } else {
                rest
            },
            ..self
        }
    }

    /// The hub once a session was renamed, and what comes next: the session is listed under its new
    /// name, to be connected as it was before; then the dialog is done.
    pub open spec fn renamed(self, session: Seq<char>, new_name: Seq<char>) -> (HubView, StepView) {
        let active = self.active.name == session;
        self.relisted(session, new_name).following(
            PlanView {
                summary: Some(new_name),
                switch: if active {
                    Some(SwitchView { session: new_name, workspace: None })
                } else {
                    None
                },
                sidebar: if !active && !self.collapsed.contains(session) {
                    Some(new_name)
                } else {
                    None
                },
                finish: Some("renamed session "@ + session + " to "@ + new_name),
                ..idle()
            },
        )
    }

    /// The hub once a session was closed.
    pub open spec fn closed(self, session: Seq<char>) -> HubView {
        HubView {
            sessions: others(self.sessions, session),
            collapsed: self.collapsed.remove(session),
            modal: None,
            status: Some("closed session "@ + session),
            ..self
        }
    }

    /// The hub after the host answered a request, and what comes next: where the host refused it,
    /// the dialog tells why.
    pub open spec fn answered(self, request: RequestView, answer: Result<(), Seq<char>>) -> (
        HubView,
        StepView,
    ) {
        match answer {
            Err(reason) => (self.with_modal_error(reason), StepView::Settled),
            Ok(_) => match request {
                RequestView::Create { session } => self.created(session),
                RequestView::Rename { session, new_name } => self.renamed(session, new_name),
                RequestView::Close { session } => (self.closed(session), StepView::Settled),
            },
        }
    }

    /// The hub after its dialog took input to the end.
    pub open spec fn typed_out(self) -> HubView {
        HubView { repaint: true, ..self }
    }

    /// The hub after the events from the given one on were typed into its dialog, and how far that
    /// came: to the end of the events or of the dialog, after which the screen is out of date, or to
    /// a step that the program has to take.
    pub open spec fn typed(self, events: Seq<RawInputEvent>, from: int) -> (
        HubView,
        Result<ProgressView, ErrorView>,
    )
        decreases events.len() - from,
    {
        if from >= events.len() {
            (self.typed_out(), Ok(ProgressView::Finished))
        } else {
            match (self.modal, pressed(events[from])) {
                (None, _) => (self.typed_out(), Ok(ProgressView::Finished)),
                (Some(_), None) => self.typed(events, from + 1),
                (Some(modal), Some(key)) => match key.code {
                    KeyCode::Esc => (
                        HubView { modal: None, ..self }.typed_out(),
                        Ok(ProgressView::Finished),
                    ),
                    KeyCode::Backspace => HubView {
                        modal: Some(erased(modal)),
                        ..self
                    }.typed(events, from + 1),
                    KeyCode::Enter => match self.submitted() {
                        (hub, Err(error)) => (hub, Err(error)),
                        (hub, Ok(StepView::Settled)) => hub.typed(events, from + 1),
                        (hub, Ok(step)) => (
                            hub,
                            Ok(ProgressView::Waiting { next: from + 1, step }),
                        ),
                    },
                    KeyCode::Char(ch) => if key.modifiers & (CONTROL | ALT) != 0 {
                        self.typed(events, from + 1)
                    } else {
                        HubView { modal: Some(extended(modal, ch)), ..self }.typed(
                            events,
                            from + 1,
                        )
                    },
                    _ => self.typed(events, from + 1),
                },
            }
        }
    }
}

impl HubState {
    /// Shows an error in the open dialog.
    pub fn set_modal_error(&mut self, error: String)
        ensures
            final(self)@ == old(self)@.with_modal_error(error@),
    {
        self.modal = match self.modal.take() {
            Some(SessionModal::Create(modal)) => Some(
                SessionModal::Create(NewSessionModal { name: modal.name, error: Some(error) }),
            ),
            Some(SessionModal::Rename { session, name, .. }) => Some(
                SessionModal::Rename { session, name, error: Some(error) },
            ),
            Some(SessionModal::ConfirmClose { session, .. }) => Some(
                SessionModal::ConfirmClose { session, error: Some(error) },
            ),
            None => None,
        };
    }

    /// Checks a parsed name for a new session; where it is at fault, the dialog tells why.
    pub fn validated_new_session_name(&mut self, parsed: ParsedName) -> (name: Option<String>)
        ensures
            match old(self)@.name_fault(parsed_view(parsed)) {
                Some(fault) => name is None && final(self)@ == old(self)@.with_modal_error(fault),
                None => name is Some && parsed_view(parsed) == Ok::<
                    Option<Seq<char>>,
                    Seq<char>,
                >(text_view(name)) && final(self)@ == old(self)@,
            },
    {
        let session = match parsed {
            Ok(Some(session)) => session,
            Ok(None) => {
                self.set_modal_error("use a named session, not default".to_owned());
                return None;
            },
            Err(error) => {
                self.set_modal_error(error);
                return None;
            },
        };
        if lists_session(&self.sessions, session.as_str()) {
            self.set_modal_error(joined("session ", session.as_str(), " already exists"));
            return None;
        }
        Some(session)
    }

    /// The name of the first session with another name than the given one.
    fn fallback_session(&self, session: &str) -> (name: Option<String>)
        ensures
            text_view(name) == first_other(self@.sessions, session@),
    {
        let ghost sessions = self@.sessions;
        let mut at: usize = 0;
        assert(sessions.skip(0) =~= sessions);
        while at < self.sessions.len()
            invariant
                at <= self.sessions.len(),
                sessions == self@.sessions,
                first_other(sessions, session@) == first_other(sessions.skip(at as int), session@),
            decreases self.sessions.len() - at,
        {
            assert(sessions[at as int] == self.sessions@[at as int]@);
            assert(sessions.skip(at as int).drop_first() =~= sessions.skip(at + 1));
            if *self.sessions[at].name.as_str() != *session {
                return Some(self.sessions[at].name.clone());
            }
            at = at + 1;
        }
        None
    }

    /// Goes about closing a session, up to asking the host.
    fn begin_closing(&mut self, session: &str) -> (step: Result<HubStep, ClientError>)
        ensures
            final(self)@ == old(self)@.closing(session@).0,
            step_view(step) == old(self)@.closing(session@).1,
    {
        self.collapsed.insert(session.to_owned());
        let mut plan = Plan::idle();
        if *self.active.name.as_str() == *session {
            match self.fallback_session(session) {
                Some(fallback) => {
                    plan.switch = Some(Switch { session: fallback, workspace: None });
                },
                None => {
                    return Err(
                        ClientError::ConnectionLost(
                            IoFailure {
                                kind: IoErrorKind::Other,
                                reason: "no fallback session".to_owned(),
                            },
                        ),
                    );
                },
            }
        }
        plan.close = Some(session.to_owned());
        Ok(self.follow(plan))
    }

    /// Confirms the open dialog.
    pub fn submit_session_modal(&mut self) -> (step: Result<HubStep, ClientError>)
        ensures
            final(self)@ == old(self)@.submitted().0,
            step_view(step) == old(self)@.submitted().1,
    {
        let closing = match &self.modal {
            None => {
                return Ok(HubStep::Settled);
            },
            Some(SessionModal::Create(modal)) => {
                let requested = modal.name.as_str().trim().to_owned();
                return Ok(HubStep::ParseName { requested });
            },
            Some(SessionModal::Rename { session, name, .. }) => {
                let requested = name.as_str().trim().to_owned();
                if *requested.as_str() != *session.as_str() {
                    return Ok(HubStep::ParseName { requested });
                }
                None
            },
            Some(SessionModal::ConfirmClose { session, .. }) => Some(session.clone()),
        };
        match closing {
            Some(session) => self.begin_closing(session.as_str()),
            None => {
                self.modal = None;
                Ok(HubStep::Settled)
            },
        }
    }

    /// Goes on with a dialog after its name was parsed.
    pub fn name_parsed(&mut self, parsed: ParsedName) -> (step: HubStep)
        ensures
            final(self)@ == old(self)@.name_parsed(parsed_view(parsed)).0,
            step@ == old(self)@.name_parsed(parsed_view(parsed)).1,
    {
        let name = match self.validated_new_session_name(parsed) {
            Some(name) => name,
            None => {
                return HubStep::Settled;
            },
        };
        let session = match &self.modal {
            Some(SessionModal::Create(_)) => {
                return HubStep::Ask { request: BackendRequest::Create { session: name } };
            },
            Some(SessionModal::Rename { session, .. }) => session.clone(),
            _ => {
                return HubStep::Settled;
            },
        };
        self.detach_session_observers(session.as_str());
        HubStep::Ask { request: BackendRequest::Rename { session, new_name: name } }
    }

    /// Goes on after the host made a session.
    pub fn create_named_session(&mut self, session: &str) -> (step: HubStep)
        ensures
            final(self)@ == old(self)@.created(session@).0,
            step@ == old(self)@.created(session@).1,
    {
        let ghost before = self@;
        self.sessions.push(HubSession::new(session.to_owned(), true));
        assert(self@.sessions =~= before.sessions.push(fresh_session(session@, true)));
        sort_sessions(&mut self.sessions, false);
        let mut status = "created session ".to_owned();
        status.append(session);
        let mut plan = Plan::idle();
        plan.summary = Some(session.to_owned());
        plan.switch = Some(Switch { session: session.to_owned(), workspace: None });
        plan.finish = Some(status);
        self.follow(plan)
    }

    /// Goes on after the host renamed a session.
    pub fn rename_named_session(&mut self, session: &str, new_name: &str) -> (step: HubStep)
        ensures
            final(self)@ == old(self)@.renamed(session@, new_name@).0,
            step@ == old(self)@.renamed(session@, new_name@).1,
    {
        let ghost before = self@;
        let was_active = *self.active.name.as_str() == *session;
        let was_collapsed = self.collapsed.remove(session);
        if let Some(at) = self.find_session(session) {
            assert(self@.sessions[at as int] == self.sessions@[at as int]@);
            self.sessions[at].name = new_name.to_owned();
            self.sessions[at].running = true;
            self.sessions[at].summary = None;
            self.sessions[at].summary_generation = 0;
            self.sessions[at].sidebar_generation = 0;
            let ghost item = before.sessions[at as int];
            assert(self@.sessions =~= before.sessions.update(
                at as int,
                SessionView {
                    name: new_name@,
                    running: true,
                    summary: None,
                    summary_generation: 0,
                    sidebar_generation: 0,
                    ..item
                },
            ));
        }
        if was_collapsed {
            self.collapsed.insert(new_name.to_owned());
        }
        sort_sessions(&mut self.sessions, false);
        assert(self@ =~= before.relisted(session@, new_name@));
        let mut plan = Plan::idle();
        plan.summary = Some(new_name.to_owned());
        if was_active {
            plan.switch = Some(Switch { session: new_name.to_owned(), workspace: None });
        } else if !was_collapsed {
            plan.sidebar = Some(new_name.to_owned());
        }
        let mut status = joined("renamed session ", session, " to ");
        status.append(new_name);
        plan.finish = Some(status);
        self.follow(plan)
    }

    /// Takes note that the host closed a session.
    pub fn close_named_session(&mut self, session: &str)
        ensures
            final(self)@ == old(self)@.closed(session@),
    {
        retain_others(&mut self.sessions, session);
        self.collapsed.remove(session);
        self.modal = None;
        let mut status = "closed session ".to_owned();
        status.append(session);
        self.status = Some(status);
    }

    /// Goes on with a dialog after the host was asked.
    pub fn backend_answered(
        &mut self,
        request: &BackendRequest,
        answer: Result<(), String>,
    ) -> (step: HubStep)
        ensures
            final(self)@ == old(self)@.answered(request@, answer_view(answer)).0,
            step@ == old(self)@.answered(request@, answer_view(answer)).1,
    {
        if let Err(reason) = answer {
            self.set_modal_error(reason);
            return HubStep::Settled;
        }
        match request {
            BackendRequest::Create { session } => self.create_named_session(session.as_str()),
            BackendRequest::Rename { session, new_name } => self.rename_named_session(
                session.as_str(),
                new_name.as_str(),
            ),
            BackendRequest::Close { session } => {
                self.close_named_session(session.as_str());
                HubStep::Settled
            },
        }
    }

    /// Erases the last character of the name in the open dialog.
    fn erase(&mut self)
        ensures
            final(self)@ == (HubView {
                modal: match old(self)@.modal {
                    Some(modal) => Some(erased(modal)),
                    None => None,
                },
                ..old(self)@
            }),
    {
        self.modal = match self.modal.take() {
            Some(SessionModal::Create(modal)) => {
                let mut name = modal.name;
                name.pop();
                Some(SessionModal::Create(NewSessionModal { name, error: None }))
            },
            Some(SessionModal::Rename { session, name, .. }) => {
                let mut name = name;
                name.pop();
                Some(SessionModal::Rename { session, name, error: None })
            },
            other => other,
        };
    }

    /// Adds a character to the name in the open dialog.
    fn extend(&mut self, ch: char)
        ensures
            final(self)@ == (HubView {
                modal: match old(self)@.modal {
                    Some(modal) => Some(extended(modal, ch)),
                    None => None,
                },
                ..old(self)@
            }),
    {
        self.modal = match self.modal.take() {
            Some(SessionModal::Create(modal)) => if modal.name.as_str().len() < NAME_LIMIT {
                let mut name = modal.name;
                name.push(ch);
                Some(SessionModal::Create(NewSessionModal { name, error: None }))
            } else {
                Some(SessionModal::Create(modal))
            },
            Some(SessionModal::Rename { session, name, error }) => if name.as_str().len()
                < NAME_LIMIT {
                let mut name = name;
                name.push(ch);
                Some(SessionModal::Rename { session, name, error: None })
            } else {
                Some(SessionModal::Rename { session, name, error })
            },
            other => other,
        };
    }

    /// Types events into the open dialog, from the given one on.
    pub fn handle_modal_input(&mut self, events: &[RawInputEvent], from: usize) -> (progress:
        Result<ModalProgress, ClientError>)
        ensures
            final(self)@ == old(self)@.typed(events@, from as int).0,
            progress_view(progress) == old(self)@.typed(events@, from as int).1,
    {
        let ghost before = self@;
        let mut next: usize = from;
        while next < events.len()
            invariant
                before == old(self)@,
                before.typed(events@, from as int) == self@.typed(events@, next as int),
            decreases events.len() - next,
        {
            if self.modal.is_none() {
                self.repaint = true;
                return Ok(ModalProgress::Finished);
            }
            let event = pressed_key(&events[next]);
            next = next + 1;
            let key = match event {
                Some(key) => key,
                None => {
                    continue ;
                },
            };
            match key.code {
                KeyCode::Esc => {
                    self.modal = None;
                    self.repaint = true;
                    return Ok(ModalProgress::Finished);
                },
                KeyCode::Backspace => self.erase(),
                KeyCode::Enter => {
                    let step = self.submit_session_modal()?;
                    match step {
                        HubStep::Settled => {},
                        step => {
                            return Ok(ModalProgress::Waiting { next, step });
                        },
                    }
                },
                KeyCode::Char(ch) => {
                    if !modifiers_intersect(key.modifiers, CONTROL | ALT) {
                        self.extend(ch);
                    }
                },
                _ => {},
            }
        }
        self.repaint = true;
        Ok(ModalProgress::Finished)
    }
}

/// How far a dialog came, or why the hub stops.
pub open spec fn progress_view(progress: Result<ModalProgress, ClientError>) -> Result<
    ProgressView,
    ErrorView,
> {
    match progress {
        Ok(progress) => Ok(progress@),
        Err(error) => Err(error@),
    }
}

/// Takes the sessions with the given name off a list.
fn retain_others(sessions: &mut Vec<HubSession>, session: &str)
    ensures
        session_views(final(sessions)@) == others(session_views(old(sessions)@), session@),
{
    let ghost all = session_views(sessions@);
    let ghost kept = |item: SessionView| item.name != session@;
    let mut at: usize = 0;
    let ghost mut seen: int = 0;
    proof {
        reveal(Seq::filter);
        assert(session_views(sessions@) =~= all.take(0).filter(kept) + all.skip(0));
    }
    while at < sessions.len()
        invariant
            0 <= seen <= all.len(),
            kept == (|item: SessionView| item.name != session@),
            at == all.take(seen).filter(kept).len(),
            session_views(sessions@) == all.take(seen).filter(kept) + all.skip(seen),
        decreases sessions.len() - at,
    {
        let ghost views = session_views(sessions@);
        proof {
            reveal(Seq::filter);
            assert(views[at as int] == sessions@[at as int]@);
            assert(views[at as int] == all[seen]);
            assert(all.take(seen + 1).drop_last() =~= all.take(seen));
            assert(all.take(seen + 1).last() == all[seen]);
        }
        if *sessions[at].name.as_str() == *session {
            sessions.remove(at);
            assert(session_views(sessions@) =~= views.remove(at as int));
            assert(views.remove(at as int) =~= all.take(seen).filter(kept) + all.skip(seen + 1));
        } else {
            assert(views =~= all.take(seen).filter(kept).push(all[seen]) + all.skip(seen + 1));
            at = at + 1;
        }
        proof {
            seen = seen + 1;
        }
    }
    proof {
        assert(seen == all.len());
        assert(all.take(seen) =~= all);
        assert(all.skip(seen) =~= Seq::empty());
        assert(session_views(sessions@) =~= all.filter(kept));
    }
}

/// Erasing takes back what was typed, while the name is short enough for typing.
pub proof fn erasing_takes_back_typing(modal: ModalView, ch: char)
    requires
        match modal {
            ModalView::Create { name, error } => byte_len(name) < NAME_LIMIT && error is None,
            ModalView::Rename { name, error, .. } => byte_len(name) < NAME_LIMIT && error is None,
            ModalView::ConfirmClose { .. } => true,
        },
    ensures
        erased(extended(modal, ch)) == modal,
{
    match modal {
        ModalView::Create { name, .. } => assert(name.push(ch).drop_last() =~= name),
        ModalView::Rename { name, .. } => assert(name.push(ch).drop_last() =~= name),
        ModalView::ConfirmClose { .. } => {},
    }
}

/// The name that a dialog asks for, as far as it is typed.
pub open spec fn typed_name(modal: ModalView) -> Seq<char> {
    match modal {
        ModalView::Create { name, .. } => name,
        ModalView::Rename { name, .. } => name,
        ModalView::ConfirmClose { .. } => Seq::empty(),
    }
}

/// Typing takes no name further past the limit than by three bytes, and erasing makes none longer.
pub proof fn typing_keeps_names_short(modal: ModalView, ch: char)
    requires
        encode_utf8(typed_name(modal)).len() <= usize::MAX,
    ensures
        byte_len(typed_name(extended(modal, ch))) <= if byte_len(typed_name(modal))
            < NAME_LIMIT {
            NAME_LIMIT + 3
        } else {
            byte_len(typed_name(modal)) as int
        },
        byte_len(typed_name(erased(modal))) <= byte_len(typed_name(modal)),
{
    let name = typed_name(modal);
    lemma_bytes_of_one_more(name, ch);
    if name.len() > 0 {
        lemma_bytes_of_one_more(name.drop_last(), name.last());
        assert(name.drop_last().push(name.last()) =~= name);
    }
}

/// A request that the host refuses changes nothing but that the open dialog tells why.
pub proof fn refusal_is_told_in_the_dialog(hub: HubView, request: RequestView, reason: Seq<char>)
    ensures
        hub.answered(request, Err(reason)) == (
            HubView {
                modal: match hub.modal {
                    Some(modal) => Some(modal_with_error(modal, Some(reason))),
                    None => None,
                },
                ..hub
            },
            StepView::Settled,
        ),
{
}

/// Confirming a rename to the same name closes the dialog and does nothing else.
pub proof fn renaming_to_the_same_name_does_nothing(
    hub: HubView,
    session: Seq<char>,
    error: Option<Seq<char>>,
)
    requires
        hub.modal == Some(ModalView::Rename { session, name: session, error }),
        trimmed(session) == session,
    ensures
        hub.submitted() == (
            HubView { modal: None, ..hub },
            Ok::<StepView, ErrorView>(StepView::Settled),
        ),
{
}

} // verus!
