//! What the hub does in steps, because the program has to act in between.
//!
//! A [`Plan`] says what is left to do; the hub follows it up to the next connection that it needs,
//! stops there with the connection and the rest of the plan, and goes on once it is told how the
//! connection went.

use crate::connections::{ConnectionRequest, ConnectionView};
use crate::effects::{ConnectionRole, Effect, EffectView, RoleView};
use crate::protocol::{text_view, ClientError, ErrorView, FailureView, IoFailure};
use crate::rows::{HubRowTarget, TargetView};
use crate::sessions::{farewell, str_view};
use crate::state::{
    is_listed, lemma_listed_has_place, HubState, HubView, ModalView, NewSessionModal, SessionModal,
};
use vstd::prelude::*;

verus! {

/// What the program asks the host of the sessions to do.
#[derive(Debug, PartialEq, Eq)]
pub enum BackendRequest {
    Create { session: String },
    Rename { session: String, new_name: String },
    Close { session: String },
}

/// What a [`BackendRequest`] says.
pub enum RequestView {
    Create { session: Seq<char> },
    Rename { session: Seq<char>, new_name: Seq<char> },
    Close { session: Seq<char> },
}

impl View for BackendRequest {
    type V = RequestView;

    open spec fn view(&self) -> RequestView {
        match *self {
            BackendRequest::Create { session } => RequestView::Create { session: session@ },
            BackendRequest::Rename { session, new_name } => {
                RequestView::Rename { session: session@, new_name: new_name@ }
            },
            BackendRequest::Close { session } => RequestView::Close { session: session@ },
        }
    }
}

/// A session to go on the screen, and the workspace to focus in it.
#[derive(Debug, PartialEq, Eq)]
pub struct Switch {
    pub session: String,
    pub workspace: Option<String>,
}

/// What a [`Switch`] says.
pub struct SwitchView {
    pub session: Seq<char>,
    pub workspace: Option<Seq<char>>,
}

impl View for Switch {
    type V = SwitchView;

    open spec fn view(&self) -> SwitchView {
        SwitchView { session: self.session@, workspace: text_view(self.workspace) }
    }
}

/// What is left to do, in the order of the fields.
#[derive(Debug, PartialEq, Eq)]
pub struct Plan {
    /// The session to connect for summaries, unless it is connected.
    pub summary: Option<String>,
    /// The session to put on the screen.
    pub switch: Option<Switch>,
    /// The session to connect for sidebar frames, unless it is connected or on the screen.
    pub sidebar: Option<String>,
    /// Whether to let go of the session that was on the screen before.
    pub release: bool,
    /// Whether the screen is then out of date.
    pub repaint: bool,
    /// The status to show in place of the dialog.
    pub finish: Option<String>,
    /// The session to give up the connections of and to ask the host to close.
    pub close: Option<String>,
}

/// What a [`Plan`] says.
pub struct PlanView {
    pub summary: Option<Seq<char>>,
    pub switch: Option<SwitchView>,
    pub sidebar: Option<Seq<char>>,
    pub release: bool,
    pub repaint: bool,
    pub finish: Option<Seq<char>>,
    pub close: Option<Seq<char>>,
}

impl View for Plan {
    type V = PlanView;

    open spec fn view(&self) -> PlanView {
        PlanView {
            summary: text_view(self.summary),
            switch: match self.switch {
                Some(switch) => Some(switch@),
                None => None,
            },
            sidebar: text_view(self.sidebar),
            release: self.release,
            repaint: self.repaint,
            finish: text_view(self.finish),
            close: text_view(self.close),
        }
    }
}

/// The plan to do nothing.
pub open spec fn idle() -> PlanView {
    PlanView {
        summary: None,
        switch: None,
        sidebar: None,
        release: false,
        repaint: false,
        finish: None,
        close: None,
    }
}

impl Plan {
    /// The plan to do nothing.
    pub fn idle() -> (plan: Plan)
        ensures
            plan@ == idle(),
    {
        Plan {
            summary: None,
            switch: None,
            sidebar: None,
            release: false,
            repaint: false,
            finish: None,
            close: None,
        }
    }
}

/// What has to happen before the hub goes on.
#[derive(Debug, PartialEq, Eq)]
pub enum HubStep {
    /// Nothing.
    Settled,
    /// The program performs the effects so far, then opens the connection and tells how it went,
    /// with the plan.
    Connect { connection: ConnectionRequest, plan: Plan },
    /// The program reads the requested text as the name of a session and tells what it is.
    ParseName { requested: String },
    /// The program performs the effects so far, then asks the host and tells how it went.
    Ask { request: BackendRequest },
}

/// What a [`HubStep`] says.
pub enum StepView {
    Settled,
    Connect { connection: ConnectionView, plan: PlanView },
    ParseName { requested: Seq<char> },
    Ask { request: RequestView },
}

impl View for HubStep {
    type V = StepView;

    open spec fn view(&self) -> StepView {
        match *self {
            HubStep::Settled => StepView::Settled,
            HubStep::Connect { connection, plan } => {
                StepView::Connect { connection: connection@, plan: plan@ }
            },
            HubStep::ParseName { requested } => StepView::ParseName { requested: requested@ },
            HubStep::Ask { request } => StepView::Ask { request: request@ },
        }
    }
}

/// What comes next, or why the hub stops.
pub open spec fn step_view(step: Result<HubStep, ClientError>) -> Result<StepView, ErrorView> {
    match step {
        Ok(step) => Ok(step@),
        Err(error) => Err(error@),
    }
}

/// How an attempt to connect went.
pub open spec fn attempt_view(attempt: Result<(), IoFailure>) -> Result<(), FailureView> {
    match attempt {
        Ok(_) => Ok(()),
        Err(failure) => Err(failure@),
    }
}

/// What the host answered: nothing, or why it refuses.
pub open spec fn answer_view(answer: Result<(), String>) -> Result<(), Seq<char>> {
    match answer {
        Ok(_) => Ok(()),
        Err(reason) => Err(reason@),
    }
}

impl HubView {
    /// The hub after the part of a plan that needs no connection, and what comes next.
    pub open spec fn concluded(self, plan: PlanView) -> (HubView, StepView) {
        let released = self.asking_if(
            plan.release,
            EffectView::Close { role: RoleView::PreviousActive },
        );
        let dated = HubView { repaint: self.repaint || plan.repaint, ..released };
        let finished = match plan.finish {
            Some(status) => HubView { modal: None, status: Some(status), ..dated },
            None => dated,
        };
        match plan.close {
            Some(session) => (
                finished.without_observers(session),
                StepView::Ask { request: RequestView::Close { session } },
            ),
            None => (finished, StepView::Settled),
        }
    }

    /// The hub after a plan was followed from its sidebar connection on, and what comes next.
    pub open spec fn watching(self, plan: PlanView) -> (HubView, StepView) {
        let rest = PlanView { sidebar: None, ..plan };
        match plan.sidebar {
            Some(name) => if self.lacks_sidebar(name) {
                (
                    self.past_next_generation(),
                    StepView::Connect { connection: self.sidebar_request(name), plan: rest },
                )
            } else {
                self.concluded(rest)
            },
            None => self.concluded(rest),
        }
    }

    /// The hub after a plan was followed from its switch on, and what comes next.
    pub open spec fn switching(self, plan: PlanView) -> (HubView, StepView) {
        let rest = PlanView { switch: None, ..plan };
        match plan.switch {
            Some(switch) => (
                self.without_sidebar(switch.session).past_next_generation(),
                StepView::Connect {
                    connection: self.switch_request(switch.session, switch.workspace),
                    plan: rest,
                },
            ),
            None => self.watching(rest),
        }
    }

    /// The hub after a plan was followed up to the first connection that it needs, and what comes
    /// next.
    pub open spec fn following(self, plan: PlanView) -> (HubView, StepView) {
        let rest = PlanView { summary: None, ..plan };
        match plan.summary {
            Some(name) => if self.lacks_summary(name) {
                (
                    self.past_next_generation(),
                    StepView::Connect { connection: self.summary_request(name), plan: rest },
                )
            } else {
                self.switching(rest)
            },
            None => self.switching(rest),
        }
    }

    /// The hub once a connection is there.
    pub open spec fn established(self, connection: ConnectionView) -> HubView {
        match connection.role {
            RoleView::Summary(name) => self.summary_established(name, connection.generation),
            RoleView::Sidebar(name) => self.sidebar_established(name, connection.generation),
            RoleView::Active => self.switch_established(connection.session, connection.generation),
            RoleView::PreviousActive => self,
        }
    }

    /// What is left of a plan once a connection is there. After a switch the session that left the
    /// screen may need sidebar frames again, and is then let go of.
    pub open spec fn plan_after(self, connection: ConnectionView, plan: PlanView) -> PlanView {
        if connection.role == RoleView::Active {
            PlanView {
                sidebar: if self.keeps_watching(self.active.name, connection.session) {
                    Some(self.active.name)
                } else {
                    plan.sidebar
                },
                release: true,
                repaint: true,
                ..plan
            }
        } else {
            plan
        }
    }

    /// The hub after an attempt to connect, and what comes next: after a failure the hub stops as
    /// it is, else it takes note of the connection and follows the rest of the plan.
    pub open spec fn attempted(
        self,
        connection: ConnectionView,
        plan: PlanView,
        attempt: Result<(), FailureView>,
    ) -> (HubView, Result<StepView, ErrorView>) {
        match attempt {
            Ok(_) => {
                let (hub, step) = self.established(connection).following(
                    self.plan_after(connection, plan),
                );
                (hub, Ok(step))
            },
            Err(failure) => (self, Err(ErrorView::ConnectionFailed(failure))),
        }
    }

    /// The hub after an attempt to connect a session for summaries when the hub starts. A failure
    /// does not stop the hub then; it is told in the status.
    pub open spec fn summary_attempted(
        self,
        connection: ConnectionView,
        attempt: Result<(), FailureView>,
    ) -> HubView {
        match attempt {
            Ok(_) => self.summary_established(connection.session, connection.generation),
            Err(failure) => HubView {
                status: Some(connection.session + ": "@ + failure.reason),
                ..self
            },
        }
    }

    /// The hub, and the plan, after a row of the sidebar was chosen: a session's heading expands
    /// it, connects it or folds it, and the row for a new session opens its dialog.
    pub open spec fn chosen(self, target: TargetView) -> (HubView, PlanView) {
        match target {
            TargetView::Session(name) => if self.collapsed.contains(name) {
                (
                    HubView { collapsed: self.collapsed.remove(name), ..self },
                    PlanView {
                        summary: if self.awaits_summary(name) {
                            Some(name)
                        } else {
                            None
                        },
                        sidebar: Some(name),
                        ..idle()
                    },
                )
            } else if self.awaits_summary(name) {
                (self, PlanView { summary: Some(name), ..idle() })
            } else {
                (
                    HubView { collapsed: self.collapsed.insert(name), ..self }.without_sidebar(
                        name,
                    ),
                    idle(),
                )
            },
            TargetView::NewSession => (
                HubView {
                    modal: Some(ModalView::Create { name: Seq::empty(), error: None }),
                    ..self
                },
                idle(),
            ),
            TargetView::SpaceRow { .. } => (self, idle()),
            TargetView::SpaceGapRow { .. } => (self, idle()),
        }
    }

    /// The hub after a row of the sidebar was chosen, and what comes next; `repaint` tells whether
    /// the screen is then out of date.
    pub open spec fn activated(self, target: TargetView, repaint: bool) -> (HubView, StepView) {
        let (hub, plan) = self.chosen(target);
        hub.following(PlanView { repaint, ..plan })
    }
}

/// The plan to put a session on the screen.
pub open spec fn switch_plan(session: Seq<char>, workspace: Option<Seq<char>>) -> PlanView {
    PlanView { switch: Some(SwitchView { session, workspace }), ..idle() }
}

impl HubState {
    /// Does the part of a plan that needs no connection.
    fn conclude(&mut self, plan: Plan) -> (step: HubStep)
        ensures
            final(self)@ == old(self)@.concluded(plan@).0,
            step@ == old(self)@.concluded(plan@).1,
    {
        if plan.release {
            self.ask(Effect::Close { role: ConnectionRole::PreviousActive });
        }
        if plan.repaint {
            self.repaint = true;
        }
        if let Some(status) = plan.finish {
            self.modal = None;
            self.status = Some(status);
        }
        match plan.close {
            Some(session) => {
                self.detach_session_observers(session.as_str());
                HubStep::Ask { request: BackendRequest::Close { session } }
            },
            None => HubStep::Settled,
        }
    }

    /// Follows a plan up to the first connection that it needs.
    pub fn follow(&mut self, plan: Plan) -> (step: HubStep)
        ensures
            final(self)@ == old(self)@.following(plan@).0,
            step@ == old(self)@.following(plan@).1,
    {
        let mut plan = plan;
        if let Some(session) = plan.summary.take() {
            if let Some(connection) = self.request_summary(session.as_str()) {
                return HubStep::Connect { connection, plan };
            }
        }
        if let Some(switch) = plan.switch.take() {
            let workspace = match &switch.workspace {
                Some(workspace) => Some(workspace.as_str()),
                None => None,
            };
            let connection = self.request_switch(switch.session.as_str(), workspace);
            return HubStep::Connect { connection, plan };
        }
        if let Some(session) = plan.sidebar.take() {
            if let Some(connection) = self.request_sidebar(session.as_str()) {
                return HubStep::Connect { connection, plan };
            }
        }
        self.conclude(plan)
    }

    /// Goes on after an attempt to connect.
    pub fn connection_attempted(
        &mut self,
        connection: ConnectionRequest,
        plan: Plan,
        attempt: Result<(), IoFailure>,
    ) -> (step: Result<HubStep, ClientError>)
        ensures
            final(self)@ == old(self)@.attempted(connection@, plan@, attempt_view(attempt)).0,
            step_view(step) == old(self)@.attempted(connection@, plan@, attempt_view(attempt)).1,
    {
        if let Err(failure) = attempt {
            return Err(ClientError::ConnectionFailed(failure));
        }
        let mut plan = plan;
        match &connection.role {
            ConnectionRole::Summary(session) => {
                self.summary_established(session.as_str(), connection.generation);
            },
            ConnectionRole::Sidebar(session) => {
                self.sidebar_established(session.as_str(), connection.generation);
            },
            ConnectionRole::Active => {
                let previous = self.active.name.clone();
                if self.keeps_watching(previous.as_str(), connection.session.as_str()) {
                    plan.sidebar = Some(previous);
                }
                plan.release = true;
                plan.repaint = true;
                self.switch_established(connection.session.as_str(), connection.generation);
            },
            ConnectionRole::PreviousActive => {},
        }
        Ok(self.follow(plan))
    }

    /// Goes on after an attempt to connect a session for summaries when the hub starts.
    pub fn summary_attempted(
        &mut self,
        connection: &ConnectionRequest,
        attempt: Result<(), IoFailure>,
    )
        ensures
            final(self)@ == old(self)@.summary_attempted(connection@, attempt_view(attempt)),
    {
        match attempt {
            Ok(_) => self.summary_established(
                connection.session.as_str(),
                connection.generation,
            ),
            Err(failure) => self.summary_refused(
                connection.session.as_str(),
                failure.reason.as_str(),
            ),
        }
    }

    /// Connects a session for summaries, unless it is connected.
    pub fn connect_summary(&mut self, session: &str) -> (step: HubStep)
        ensures
            final(self)@ == old(self)@.following(
                (PlanView { summary: Some(session@), ..idle() }),
            ).0,
            step@ == old(self)@.following((PlanView { summary: Some(session@), ..idle() })).1,
    {
        let mut plan = Plan::idle();
        plan.summary = Some(session.to_owned());
        self.follow(plan)
    }

    /// Connects a session for sidebar frames, unless it is connected or on the screen.
    pub fn connect_sidebar(&mut self, session: &str) -> (step: HubStep)
        ensures
            final(self)@ == old(self)@.following(
                (PlanView { sidebar: Some(session@), ..idle() }),
            ).0,
            step@ == old(self)@.following((PlanView { sidebar: Some(session@), ..idle() })).1,
    {
        let mut plan = Plan::idle();
        plan.sidebar = Some(session.to_owned());
        self.follow(plan)
    }

    /// Puts a session on the screen, once it is connected.
    pub fn switch_active(&mut self, session: &str, workspace_id: Option<&str>) -> (step: HubStep)
        ensures
            final(self)@ == old(self)@.following(
                switch_plan(session@, str_view(workspace_id)),
            ).0,
            step@ == old(self)@.following(switch_plan(session@, str_view(workspace_id))).1,
    {
        let workspace = match workspace_id {
            Some(workspace_id) => Some(workspace_id.to_owned()),
            None => None,
        };
        let mut plan = Plan::idle();
        plan.switch = Some(Switch { session: session.to_owned(), workspace });
        self.follow(plan)
    }

    /// Does what choosing a row of the sidebar asks for; `repaint` tells whether the screen is then
    /// out of date.
    pub fn activate_row(&mut self, target: HubRowTarget, repaint: bool) -> (step: HubStep)
        ensures
            final(self)@ == old(self)@.activated(target@, repaint).0,
            step@ == old(self)@.activated(target@, repaint).1,
    {
        let ghost before = self@;
        let mut plan = Plan::idle();
        plan.repaint = repaint;
        match target {
            HubRowTarget::Session(session) => {
                if self.collapsed.remove(session.as_str()) {
                    if self.awaits_summary(session.as_str()) {
                        plan.summary = Some(session.clone());
                    }
                    plan.sidebar = Some(session);
                } else {
                    assert(self@.collapsed =~= before.collapsed);
                    if self.awaits_summary(session.as_str()) {
                        plan.summary = Some(session);
                    } else {
                        self.collapsed.insert(session.clone());
                        self.drop_sidebar(session.as_str());
                    }
                }
            },
            HubRowTarget::SpaceRow { .. } => {},
            HubRowTarget::SpaceGapRow { .. } => {},
            HubRowTarget::NewSession => {
                self.modal = Some(
                    SessionModal::Create(NewSessionModal { name: String::new(), error: None }),
                );
            },
        }
        self.follow(plan)
    }
}

/// Whether two hubs show the same: the session on the screen, the names, the folds, the dialog, the
/// menu, the status, and whether the screen is out of date.
pub open spec fn shows_the_same(hub: HubView, other: HubView) -> bool {
    &&& hub.active == other.active
    &&& hub.repaint == other.repaint
    &&& hub.full_repaint == other.full_repaint
    &&& hub.collapsed == other.collapsed
    &&& hub.modal == other.modal
    &&& hub.session_menu == other.session_menu
    &&& hub.status == other.status
    &&& hub.sessions.len() == other.sessions.len()
    &&& forall|i: int|
        0 <= i < hub.sessions.len() ==> (#[trigger] hub.sessions[i]).name
            == other.sessions[i].name
}

/// After a failed attempt to connect, the hub stops with the failure and is as it was when it asked
/// for the connection.
pub proof fn failed_connection_changes_nothing(
    hub: HubView,
    connection: ConnectionView,
    plan: PlanView,
    failure: FailureView,
)
    ensures
        hub.attempted(connection, plan, Err(failure)) == (
            hub,
            Err::<StepView, ErrorView>(ErrorView::ConnectionFailed(failure)),
        ),
{
}

/// As long as the hub waits for a connection, it shows what it showed before, whatever the plan: so
/// after a failure the session on the screen, the folds, the names, the dialog and the status are
/// as they were, and the screen is not out of date on that account.
pub proof fn waiting_for_a_connection_shows_the_same(hub: HubView, plan: PlanView)
    requires
        hub.following(plan).1 is Connect,
    ensures
        shows_the_same(hub.following(plan).0, hub),
{
    match plan.switch {
        Some(switch) => {
            lemma_listed_has_place(hub.sessions, switch.session);
        },
        None => {},
    }
}

/// When the connection for a switch fails, the hub shows what it showed, the session on the screen
/// has been told nothing, and no connection was asked for but the one that failed.
pub proof fn failed_switch_keeps_the_screen(
    hub: HubView,
    name: Seq<char>,
    workspace: Option<Seq<char>>,
    failure: FailureView,
)
    ensures
        ({
            let (asked, step) = hub.following(switch_plan(name, workspace));
            let connection = hub.switch_request(name, workspace);
            let (after, outcome) = asked.attempted(connection, idle(), Err(failure));
            &&& step == StepView::Connect { connection, plan: idle() }
            &&& outcome == Err::<StepView, ErrorView>(ErrorView::ConnectionFailed(failure))
            &&& shows_the_same(after, hub)
            &&& after.effects == hub.effects || after.effects == hub.effects.push(
                farewell(RoleView::Sidebar(name)),
            ).push(EffectView::Close { role: RoleView::Sidebar(name) })
        }),
{
    waiting_for_a_connection_shows_the_same(hub, switch_plan(name, workspace));
}

/// When the connection for a switch succeeds, the session is on the screen without a frame of an
/// earlier connection, and the one before is told farewell.
pub proof fn switching_puts_on_the_screen(
    hub: HubView,
    connection: ConnectionView,
    plan: PlanView,
)
    requires
        connection.role == RoleView::Active,
    ensures
        hub.established(connection).active.name == connection.session,
        hub.established(connection).active.generation == connection.generation,
        hub.established(connection).active.frame is None,
        hub.established(connection).effects == hub.effects.push(
            farewell(RoleView::PreviousActive),
        ),
        hub.attempted(connection, plan, Ok(())).0.active == hub.established(connection).active,
{
}

/// Choosing the heading of a session that is folded or has its summaries, and once more after its
/// connections are there, leaves the same sessions folded as before.
pub proof fn choosing_a_heading_twice_restores_the_fold(
    hub: HubView,
    later: HubView,
    name: Seq<char>,
    repaint: bool,
)
    requires
        is_listed(hub.sessions, name),
        hub.collapsed.contains(name) || !hub.awaits_summary(name),
        later.collapsed == hub.activated(TargetView::Session(name), repaint).0.collapsed,
        !later.awaits_summary(name),
    ensures
        later.activated(TargetView::Session(name), repaint).0.collapsed == hub.collapsed,
{
    let target = TargetView::Session(name);
    let once = hub.chosen(target).0;
    let twice = later.chosen(target).0;
    if hub.collapsed.contains(name) {
        assert(twice.collapsed =~= hub.collapsed);
    } else {
        assert(later.collapsed.contains(name));
        assert(twice.collapsed =~= hub.collapsed);
    }
}

} // verus!
