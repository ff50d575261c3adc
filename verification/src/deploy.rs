//! The job that starts a deployment: which deployments may be started, and
//! the order of the steps that bring one up.

use vstd::prelude::*;
use vstd::string::*;

verus! {

/// Seconds to wait for a dispatched workflow before giving up.
pub const WORKFLOW_TIMEOUT_SECS: u64 = 180;

/// Seconds between two polls of a dispatched workflow.
pub const WORKFLOW_CHECK_INTERVAL_SECS: u64 = 5;

/// Seconds to let the database settle before the services are deployed.
pub const SLEEP_AFTER_POSTGRES_SECS: u64 = 30;

/// A queued request to start one deployment.
#[derive(Clone, Copy, Debug, PartialEq, Eq, Structural)]
pub struct StartingTask {
    deployment_id: i32,
}

impl View for StartingTask {
    type V = int;

    closed spec fn view(&self) -> int {
        self.deployment_id as int
    }
}

impl StartingTask {
    pub fn new(deployment_id: i32) -> (task: Self)
        ensures
            task@ == deployment_id,
    {
        Self { deployment_id }
    }

    /// The deployment to start.
    pub fn deployment_id(&self) -> (id: i32)
        ensures
            id == self@,
    {
        self.deployment_id
    }
}

/// The state that a deployment is in.
#[derive(Clone, Copy, Debug, PartialEq, Eq, Structural)]
pub enum DeploymentStatus {
    Created,
    Pending,
    Running,
    Stopping,
    Stopped,
    Failed,
}

/// The two workflows that bring a deployment up.
#[derive(Clone, Copy, Debug, PartialEq, Eq, Structural)]
pub enum Workflow {
    Postgres,
    Microservices,
}

/// How the job ended.
#[derive(Clone, Copy, Debug, PartialEq, Eq, Structural)]
pub enum JobEnd {
    /// The deployment is running.
    Started,
    /// The deployment was in no state to be started; nothing was done.
    Skipped,
    /// Bringing the deployment up failed, and the failure was recorded with
    /// the deployment.
    Recorded,
    /// The store of deployments failed; the job itself has failed.
    StoreFailed,
}

/// Where the job stands: the thing that is due next, or how it ended.
#[derive(Clone, Copy, Debug, PartialEq, Eq, Structural)]
pub enum Stage {
    LoadDeployment,
    LoadInstance,
    DeployPostgres,
    MarkPending,
    AwaitPostgres,
    Settle,
    DeployMicroservices,
    AwaitMicroservices,
    MarkRunning,
    MarkError,
    Finished(JobEnd),
}

/// The state of the job: its stage, the status that the deployment was
/// loaded with, and the run of the workflow that was dispatched last.
#[derive(Clone, Copy, Debug, PartialEq, Eq, Structural)]
pub struct StartState {
    pub stage: Stage,
    pub status: DeploymentStatus,
    pub run_id: u64,
}

/// What the job asks to be done.
#[derive(Clone, Copy, Debug, PartialEq, Eq, Structural)]
pub enum StartAction {
    LoadDeployment(i32),
    LoadInstance,
    Dispatch(Workflow),
    UpdateStatus(DeploymentStatus),
    /// Wait for a workflow run to succeed, polling every `interval_secs`
    /// seconds for at most `timeout_secs` seconds.
    AwaitWorkflow { workflow: Workflow, run_id: u64, timeout_secs: u64, interval_secs: u64 },
    Sleep(u64),
    MarkRunning,
    /// Record with the deployment that it could not be started.
    MarkError,
    Stop(JobEnd),
}

/// What came of the action that was asked for.
#[derive(Clone, Copy, Debug, PartialEq, Eq, Structural)]
pub enum StartEvent {
    /// The deployment was loaded and is in this state.
    Loaded(DeploymentStatus),
    /// The workflow was dispatched as this run.
    Dispatched(u64),
    /// The action succeeded.
    Done,
    /// The action failed.
    Failed,
}

/// A deployment is started from the states `Created` and `Stopped` only.
pub open spec fn startable(status: DeploymentStatus) -> bool {
    status == DeploymentStatus::Created || status == DeploymentStatus::Stopped
}

/// Whether a deployment in this state may be started.
pub fn may_start(status: DeploymentStatus) -> (allowed: bool)
    ensures
        allowed == startable(status),
{
    match status {
        DeploymentStatus::Created => true,
        DeploymentStatus::Stopped => true,
        _ => false,
    }
}

impl Workflow {
    pub open spec fn name_text(self) -> Seq<char> {
        match self {
            Workflow::Postgres => "deploy postgres"@,
            Workflow::Microservices => "deploy microservices"@,
        }
    }

    /// The name under which the workflow is waited for.
    pub fn name(&self) -> (name: &'static str)
        ensures
            name@ == self.name_text(),
    {
        match self {
            Workflow::Postgres => "deploy postgres",
            Workflow::Microservices => "deploy microservices",
        }
    }
}

/// The note recorded with a deployment that could not be started.
pub fn failure_note(reason: &str) -> (note: String)
    ensures
        note@ == "failed to start deployment: "@ + reason@,
{
    String::from_str("failed to start deployment: ").concat(reason)
}

impl Stage {
    /// How far a stage is along the way: every step that is taken leads to
    /// a stage that is further along.
    pub open spec fn rank(self) -> nat {
        match self {
            Stage::LoadDeployment => 0,
            Stage::LoadInstance => 1,
            Stage::DeployPostgres => 2,
            Stage::MarkPending => 3,
            Stage::AwaitPostgres => 4,
            Stage::Settle => 5,
            Stage::DeployMicroservices => 6,
            Stage::AwaitMicroservices => 7,
            Stage::MarkRunning => 8,
            Stage::MarkError => 9,
            Stage::Finished(_) => 10,
        }
    }

    /// The stage belongs to bringing the deployment up: a failure in it is
    /// recorded with the deployment.
    pub open spec fn is_bringing_up(self) -> bool {
        2 <= self.rank() <= 8
    }
}

impl StartState {
    /// The event answers the action that is due.
    pub open spec fn expects(self, event: StartEvent) -> bool {
        match self.stage {
            Stage::Finished(_) => false,
            Stage::LoadDeployment => event is Loaded || event is Failed,
            Stage::DeployPostgres | Stage::DeployMicroservices => event is Dispatched
                || event is Failed,
            _ => event is Done || event is Failed,
        }
    }

    /// The state after an event. An event that does not answer the action
    /// that is due is passed over.
    pub open spec fn stepped(self, event: StartEvent) -> StartState {
        if !self.expects(event) {
            self
        } else if event is Failed {
            if self.stage.is_bringing_up() {
                StartState { stage: Stage::MarkError, ..self }
            } else {
                StartState { stage: Stage::Finished(JobEnd::StoreFailed), ..self }
            }
        } else {
            match self.stage {
                Stage::LoadDeployment => match event {
                    StartEvent::Loaded(status) => StartState {
                        stage: Stage::LoadInstance,
                        status,
                        ..self
                    },
                    _ => self,
                },
                Stage::LoadInstance => if startable(self.status) {
                    StartState { stage: Stage::DeployPostgres, ..self }
                } else {
                    StartState { stage: Stage::Finished(JobEnd::Skipped), ..self }
                },
                Stage::DeployPostgres => match event {
                    StartEvent::Dispatched(run_id) => StartState {
                        stage: Stage::MarkPending,
                        run_id,
                        ..self
                    },
                    _ => self,
                },
                Stage::MarkPending => StartState { stage: Stage::AwaitPostgres, ..self },
                Stage::AwaitPostgres => StartState { stage: Stage::Settle, ..self },
                Stage::Settle => StartState { stage: Stage::DeployMicroservices, ..self },
                Stage::DeployMicroservices => match event {
                    StartEvent::Dispatched(run_id) => StartState {
                        stage: Stage::AwaitMicroservices,
                        run_id,
                        ..self
                    },
                    _ => self,
                },
                Stage::AwaitMicroservices => StartState { stage: Stage::MarkRunning, ..self },
                Stage::MarkRunning => StartState {
                    stage: Stage::Finished(JobEnd::Started),
                    ..self
                },
                Stage::MarkError => StartState {
                    stage: Stage::Finished(JobEnd::Recorded),
                    ..self
                },
                Stage::Finished(_) => self,
            }
        }
    }

    /// The action that is due in a state of the job for `deployment_id`.
    pub open spec fn due(self, deployment_id: i32) -> StartAction {
        match self.stage {
            Stage::LoadDeployment => StartAction::LoadDeployment(deployment_id),
            Stage::LoadInstance => StartAction::LoadInstance,
            Stage::DeployPostgres => StartAction::Dispatch(Workflow::Postgres),
            Stage::MarkPending => StartAction::UpdateStatus(DeploymentStatus::Pending),
            Stage::AwaitPostgres => StartAction::AwaitWorkflow {
                workflow: Workflow::Postgres,
                run_id: self.run_id,
                timeout_secs: WORKFLOW_TIMEOUT_SECS,
                interval_secs: WORKFLOW_CHECK_INTERVAL_SECS,
            },
            Stage::Settle => StartAction::Sleep(SLEEP_AFTER_POSTGRES_SECS),
            Stage::DeployMicroservices => StartAction::Dispatch(Workflow::Microservices),
            Stage::AwaitMicroservices => StartAction::AwaitWorkflow {
                workflow: Workflow::Microservices,
                run_id: self.run_id,
                timeout_secs: WORKFLOW_TIMEOUT_SECS,
                interval_secs: WORKFLOW_CHECK_INTERVAL_SECS,
            },
            Stage::MarkRunning => StartAction::MarkRunning,
            Stage::MarkError => StartAction::MarkError,
            Stage::Finished(end) => StartAction::Stop(end),
        }
    }

    /// The states of a job from its start, taking the events in their
    /// order.
    pub open spec fn after_all(self, events: Seq<StartEvent>) -> StartState
        decreases events.len(),
    {
        if events.len() == 0 {
            self
        } else {
            self.after_all(events.drop_last()).stepped(events.last())
        }
    }
}

impl StartingTask {
    /// The state in which the job begins.
    pub open spec fn initial() -> StartState {
        StartState {
            stage: Stage::LoadDeployment,
            status: DeploymentStatus::Created,
            run_id: 0,
        }
    }

    /// The state in which the job begins: the deployment is to be loaded.
    pub fn begin(&self) -> (state: StartState)
        ensures
            state == Self::initial(),
            state.due(self@ as i32) == StartAction::LoadDeployment(self@ as i32),
    {
        StartState { stage: Stage::LoadDeployment, status: DeploymentStatus::Created, run_id: 0 }
    }

    /// The action that is due.
    pub fn action(&self, state: &StartState) -> (action: StartAction)
        ensures
            action == state.due(self@ as i32),
    {
        match state.stage {
            Stage::LoadDeployment => StartAction::LoadDeployment(self.deployment_id),
            Stage::LoadInstance => StartAction::LoadInstance,
            Stage::DeployPostgres => StartAction::Dispatch(Workflow::Postgres),
            Stage::MarkPending => StartAction::UpdateStatus(DeploymentStatus::Pending),
            Stage::AwaitPostgres => StartAction::AwaitWorkflow {
                workflow: Workflow::Postgres,
                run_id: state.run_id,
                timeout_secs: WORKFLOW_TIMEOUT_SECS,
                interval_secs: WORKFLOW_CHECK_INTERVAL_SECS,
            },
            Stage::Settle => StartAction::Sleep(SLEEP_AFTER_POSTGRES_SECS),
            Stage::DeployMicroservices => StartAction::Dispatch(Workflow::Microservices),
            Stage::AwaitMicroservices => StartAction::AwaitWorkflow {
                workflow: Workflow::Microservices,
                run_id: state.run_id,
                timeout_secs: WORKFLOW_TIMEOUT_SECS,
                interval_secs: WORKFLOW_CHECK_INTERVAL_SECS,
            },
            Stage::MarkRunning => StartAction::MarkRunning,
            Stage::MarkError => StartAction::MarkError,
            Stage::Finished(end) => StartAction::Stop(end),
        }
    }

    /// Takes in what came of the action that was due.
    pub fn step(&self, state: StartState, event: StartEvent) -> (next: StartState)
        ensures
            next == state.stepped(event),
    {
        let failed = matches!(event, StartEvent::Failed);
        let done = matches!(event, StartEvent::Done);
        match state.stage {
            Stage::Finished(_) => state,
            Stage::LoadDeployment => match event {
                StartEvent::Loaded(status) => StartState {
                    stage: Stage::LoadInstance,
                    status,
                    run_id: state.run_id,
                },
                StartEvent::Failed => with_stage(state, Stage::Finished(JobEnd::StoreFailed)),
                _ => state,
            },
            Stage::LoadInstance => if failed {
                with_stage(state, Stage::Finished(JobEnd::StoreFailed))
            } else if !done {
                state
            } else if may_start(state.status) {
                with_stage(state, Stage::DeployPostgres)
            } else {
                with_stage(state, Stage::Finished(JobEnd::Skipped))
            },
            Stage::DeployPostgres => match event {
                StartEvent::Dispatched(run_id) => StartState {
                    stage: Stage::MarkPending,
                    status: state.status,
                    run_id,
                },
                StartEvent::Failed => with_stage(state, Stage::MarkError),
                _ => state,
            },
            Stage::DeployMicroservices => match event {
                StartEvent::Dispatched(run_id) => StartState {
                    stage: Stage::AwaitMicroservices,
                    status: state.status,
                    run_id,
                },
                StartEvent::Failed => with_stage(state, Stage::MarkError),
                _ => state,
            },
            Stage::MarkError => if failed {
                with_stage(state, Stage::Finished(JobEnd::StoreFailed))
            } else if done {
                with_stage(state, Stage::Finished(JobEnd::Recorded))
            } else {
                state
            },
            stage => if failed {
                with_stage(state, Stage::MarkError)
            } else if !done {
                state
            } else {
                match stage {
                    Stage::MarkPending => with_stage(state, Stage::AwaitPostgres),
                    Stage::AwaitPostgres => with_stage(state, Stage::Settle),
                    Stage::Settle => with_stage(state, Stage::DeployMicroservices),
                    Stage::AwaitMicroservices => with_stage(state, Stage::MarkRunning),
                    _ => with_stage(state, Stage::Finished(JobEnd::Started)),
                }
            },
        }
    }
}

fn with_stage(state: StartState, stage: Stage) -> (next: StartState)
    ensures
        next == (StartState { stage, ..state }),
{
    StartState { stage, status: state.status, run_id: state.run_id }
}

/// Every event that answers the action in turn brings the job further
/// along; any other leaves it where it is. So a job ends after at most ten
/// answers.
pub proof fn lemma_step_advances(state: StartState, event: StartEvent)
    ensures
        state.expects(event) ==> state.stepped(event).stage.rank() > state.stage.rank(),
        !state.expects(event) ==> state.stepped(event) == state,
        state.stepped(event).stage.rank() <= 10,
{
}

/// A job that has ended stays as it ended.
pub proof fn lemma_finished_stays(state: StartState, events: Seq<StartEvent>)
    requires
        state.stage is Finished,
    ensures
        state.after_all(events) == state,
    decreases events.len(),
{
    if events.len() > 0 {
        lemma_finished_stays(state, events.drop_last());
    }
}

/// A deployment is only ever dispatched from a state in which it may be
/// started, and it is reported as started only after the job has gone
/// through marking it as running.
pub proof fn lemma_started_only_when_allowed(events: Seq<StartEvent>)
    ensures
        ({
            let state = StartingTask::initial().after_all(events);
            &&& (2 <= state.stage.rank() <= 9 ==> startable(state.status))
            &&& (state.stage == Stage::Finished(JobEnd::Started) ==> startable(state.status))
            &&& (state.stage == Stage::Finished(JobEnd::Recorded) ==> startable(state.status))
        }),
    decreases events.len(),
{
    if events.len() > 0 {
        lemma_started_only_when_allowed(events.drop_last());
    }
}

} // verus!
