//! The decisions of the orchestration engine: which plan may run, which
//! stage may follow which, how a run ends, and how the engine answers
//! commands and finished jobs.
use super::process::{process_error_text, ProcessError, ProcessSpec};
use crate::error::{join2, join4};
use crate::modules::cleanup::{cleanup_error_text, CleanupError};
use crate::types::{
    state_debug_name, transition_allowed, CleanupPlan, EngineCommand, LogEntry, LogLevel,
    PipelineRequest, PipelineState,
};
use vstd::prelude::*;

verus! {

/// The plan of one pipeline run, as the modules supply it.
#[derive(Debug)]
pub struct PipelinePlan {
    pub stages: Vec<ProcessSpec>,
    pub cleanup: Option<CleanupPlan>,
}

impl Default for PipelinePlan {
    fn default() -> (p: Self)
        ensures
            p.stages@.len() == 0,
            p.cleanup is None,
    {
        PipelinePlan { stages: Vec::new(), cleanup: None }
    }
}

impl PipelinePlan {
    pub fn new(stages: Vec<ProcessSpec>) -> (p: Self)
        ensures
            p.stages == stages,
            p.cleanup is None,
    {
        PipelinePlan { stages, cleanup: None }
    }

    pub fn with_cleanup(self, cleanup: CleanupPlan) -> (p: Self)
        ensures
            p.stages == self.stages,
            p.cleanup == Some(cleanup),
    {
        PipelinePlan { cleanup: Some(cleanup), ..self }
    }

    pub fn is_empty(&self) -> (b: bool)
        ensures
            b == (self.stages@.len() == 0),
    {
        self.stages.len() == 0
    }

    /// A plan without a single process cannot run.
    pub fn check_runnable(&self) -> (r: Result<(), PlannerError>)
        ensures
            r is Ok <==> self.stages@.len() > 0,
            r is Err ==> r matches Err(PlannerError::EmptyPlan),
    {
        if self.is_empty() {
            return Err(PlannerError::EmptyPlan);
        }
        Ok(())
    }
}

/// The planner that stands in until the modules are wired in: it never
/// has a plan.
#[derive(Debug, Default, Clone, Copy)]
pub struct NoopPlanner;

impl NoopPlanner {
    pub fn plan(&self, request: &PipelineRequest) -> (r: Result<PipelinePlan, PlannerError>)
        ensures
            r matches Err(PlannerError::NotConfigured),
    {
        Err(PlannerError::NotConfigured)
    }
}

/// Errors of building a plan. An I/O cause is held as the text it prints.
#[derive(Debug)]
pub enum PlannerError {
    NotConfigured,
    EmptyPlan,
    Module { module: String, message: String },
    Io(String),
    Invalid(String),
}

pub open spec fn planner_error_text(e: PlannerError) -> Seq<char> {
    match e {
        PlannerError::NotConfigured => "pipeline planner ešte nie je nakonfigurovaný"@,
        PlannerError::EmptyPlan => "pipeline plán neobsahuje žiadny proces"@,
        PlannerError::Module { module, message } => "modul `"@ + module@
            + "` sa nepodarilo nakonfigurovať: "@ + message@,
        PlannerError::Io(s) => "pipeline planner I/O operácia zlyhala: "@ + s@,
        PlannerError::Invalid(s) => "pipeline plán je neplatný: "@ + s@,
    }
}

impl PlannerError {
    pub fn message(&self) -> (s: String)
        ensures
            s@ == planner_error_text(*self),
    {
        match self {
            PlannerError::NotConfigured => String::from_str("pipeline planner ešte nie je nakonfigurovaný"),
            PlannerError::EmptyPlan => String::from_str("pipeline plán neobsahuje žiadny proces"),
            PlannerError::Module { module, message } => join4(
                "modul `",
                module.as_str(),
                "` sa nepodarilo nakonfigurovať: ",
                message.as_str(),
            ),
            PlannerError::Io(s) => join2("pipeline planner I/O operácia zlyhala: ", s.as_str()),
            PlannerError::Invalid(s) => join2("pipeline plán je neplatný: ", s.as_str()),
        }
    }
}

#[derive(Debug)]
pub enum EngineError {
    Planner(PlannerError),
    Process(ProcessError),
    Cleanup(CleanupError),
    PipelineAndCleanup { pipeline_error: String, cleanup_error: String },
    InvalidStateTransition { from: PipelineState, to: PipelineState },
    EventChannelClosed,
}

pub open spec fn engine_error_text(e: EngineError) -> Seq<char> {
    match e {
        EngineError::Planner(p) => planner_error_text(p),
        EngineError::Process(p) => process_error_text(p),
        EngineError::Cleanup(c) => cleanup_error_text(c),
        EngineError::PipelineAndCleanup { pipeline_error, cleanup_error } => "pipeline zlyhala ("@
            + pipeline_error@ + ") a cleanup tiež zlyhal ("@ + cleanup_error@ + ")"@,
        EngineError::InvalidStateTransition { from, to } => "neplatný prechod stavu pipeline: "@
            + state_debug_name(from) + " -> "@ + state_debug_name(to),
        EngineError::EventChannelClosed => "event channel bol zatvorený"@,
    }
}

impl EngineError {
    pub fn message(&self) -> (s: String)
        ensures
            s@ == engine_error_text(*self),
    {
        proof {
            reveal_strlit("");
        }
        match self {
            EngineError::Planner(p) => p.message(),
            EngineError::Process(p) => p.message(),
            EngineError::Cleanup(c) => c.message(),
            EngineError::PipelineAndCleanup { pipeline_error, cleanup_error } => {
                let head = join4(
                    "pipeline zlyhala (",
                    pipeline_error.as_str(),
                    ") a cleanup tiež zlyhal (",
                    cleanup_error.as_str(),
                );
                join2(head.as_str(), ")")
            },
            EngineError::InvalidStateTransition { from, to } => join4(
                "neplatný prechod stavu pipeline: ",
                from.debug_name(),
                " -> ",
                to.debug_name(),
            ),
            EngineError::EventChannelClosed => String::from_str("event channel bol zatvorený"),
        }
    }
}

/// Capacities of the channels and the limit of captured output.
#[derive(Debug, Clone, Copy)]
pub struct EngineConfig {
    pub command_capacity: usize,
    pub event_capacity: usize,
    pub max_captured_output_bytes: usize,
}

impl Default for EngineConfig {
    fn default() -> (c: Self)
        ensures
            c.command_capacity == 32,
            c.event_capacity == 256,
            c.max_captured_output_bytes == 1024 * 1024,
    {
        EngineConfig { command_capacity: 32, event_capacity: 256, max_captured_output_bytes: 1024 * 1024 }
    }
}

/// Entering the stage with state `next` from `current`: the stage's
/// state, or the refused transition.
pub open spec fn enter_result(current: PipelineState, next: PipelineState) -> Result<PipelineState, EngineError> {
    if transition_allowed(current, next) {
        Ok(next)
    } else {
        Err(EngineError::InvalidStateTransition { from: current, to: next })
    }
}

/// Closing a run whose last stage left it in `current`.
pub open spec fn finish_result(current: PipelineState) -> Result<PipelineState, EngineError> {
    if transition_allowed(current, PipelineState::Completed) {
        Ok(current)
    } else {
        Err(EngineError::InvalidStateTransition { from: current, to: PipelineState::Completed })
    }
}

/// Before a stage runs, the pipeline must be allowed to move from the
/// current state into the stage's state.
pub fn enter_stage(current: PipelineState, next: PipelineState) -> (r: Result<PipelineState, EngineError>)
    ensures
        r == enter_result(current, next),
{
    if !current.can_transition_to(next) {
        return Err(EngineError::InvalidStateTransition { from: current, to: next });
    }
    Ok(next)
}

/// After the last stage, the pipeline must be allowed to complete.
pub fn finish_stages(current: PipelineState) -> (r: Result<PipelineState, EngineError>)
    ensures
        r == finish_result(current),
{
    if !current.can_transition_to(PipelineState::Completed) {
        return Err(
            EngineError::InvalidStateTransition { from: current, to: PipelineState::Completed },
        );
    }
    Ok(current)
}

/// What running stages in the given states gives when every process
/// succeeds: each stage entered by `enter_stage` from the state the one
/// before left, and the run closed by `finish_stages`; the first refusal
/// ends it.
pub open spec fn stage_walk(from: PipelineState, states: Seq<PipelineState>) -> Result<
    PipelineState,
    EngineError,
>
    decreases states.len(),
{
    if states.len() == 0 {
        finish_result(from)
    } else {
        match enter_result(from, states[0]) {
            Ok(s) => stage_walk(s, states.drop_first()),
            Err(e) => Err(e),
        }
    }
}

/// The five stages in pipeline order pass every check of the engine, from
/// `Idle` up to completion.
pub proof fn lemma_pipeline_order_is_accepted()
    ensures
        stage_walk(
            PipelineState::Idle,
            seq![
                PipelineState::Transcribing,
                PipelineState::Translating,
                PipelineState::Synthesizing,
                PipelineState::LipSyncing,
                PipelineState::Rendering,
            ],
        ) == Ok::<PipelineState, EngineError>(PipelineState::Rendering),
{
    let s = seq![
        PipelineState::Transcribing,
        PipelineState::Translating,
        PipelineState::Synthesizing,
        PipelineState::LipSyncing,
        PipelineState::Rendering,
    ];
    let s1 = s.drop_first();
    let s2 = s1.drop_first();
    let s3 = s2.drop_first();
    let s4 = s3.drop_first();
    let s5 = s4.drop_first();
    assert(s5.len() == 0);
    assert(stage_walk(PipelineState::Rendering, s5) == Ok::<PipelineState, EngineError>(
        PipelineState::Rendering,
    ));
    assert(stage_walk(PipelineState::LipSyncing, s4) == stage_walk(PipelineState::Rendering, s5));
    assert(stage_walk(PipelineState::Synthesizing, s3) == stage_walk(PipelineState::LipSyncing, s4));
    assert(stage_walk(PipelineState::Translating, s2) == stage_walk(PipelineState::Synthesizing, s3));
    assert(stage_walk(PipelineState::Transcribing, s1) == stage_walk(PipelineState::Translating, s2));
    assert(stage_walk(PipelineState::Idle, s) == stage_walk(PipelineState::Transcribing, s1));
}

/// A plan that skips a stage is refused before the skipped-to stage runs.
pub proof fn lemma_skipping_a_stage_is_refused()
    ensures
        stage_walk(PipelineState::Idle, seq![PipelineState::Translating]) == Err::<
            PipelineState,
            EngineError,
        >(EngineError::InvalidStateTransition { from: PipelineState::Idle, to: PipelineState::Translating }),
{
}

/// How a run ends once its stages have run (`execution`) and its
/// workspace cleanup, if the plan has one, has run (`cleanup`).
pub open spec fn pipeline_outcome_ok(
    execution: Result<PipelineState, EngineError>,
    cleanup: Option<Result<(), CleanupError>>,
) -> bool {
    execution is Ok && !(cleanup matches Some(Err(_)))
}

/// A successful run fails only by its cleanup; a failed run keeps its own
/// error, unless the cleanup fails too, when both texts are reported.
pub fn settle_pipeline(execution: Result<PipelineState, EngineError>, cleanup: Option<Result<(), CleanupError>>) -> (r:
    Result<(), EngineError>)
    ensures
        r is Ok <==> pipeline_outcome_ok(execution, cleanup),
        match (execution, cleanup) {
            (Ok(_), Some(Err(ce))) => r == Err::<(), EngineError>(EngineError::Cleanup(ce)),
            (Ok(_), _) => r is Ok,
            (Err(pe), Some(Err(ce))) => r matches Err(
                EngineError::PipelineAndCleanup { pipeline_error, cleanup_error },
            ) && pipeline_error@ == engine_error_text(pe) && cleanup_error@ == cleanup_error_text(
                ce,
            ),
            (Err(pe), _) => r == Err::<(), EngineError>(pe),
        },
{
    match execution {
        Ok(_) => match cleanup {
            Some(Err(ce)) => Err(EngineError::Cleanup(ce)),
            _ => Ok(()),
        },
        Err(pe) => match cleanup {
            Some(Err(ce)) => Err(
                EngineError::PipelineAndCleanup {
                    pipeline_error: pe.message(),
                    cleanup_error: ce.message(),
                },
            ),
            _ => Err(pe),
        },
    }
}

/// What the engine reports to the user interface.
#[derive(Debug)]
pub enum EngineNotice {
    StateChanged(PipelineState),
    Log(LogEntry),
    Completed { output_video: String },
    Failed { message: String },
}

/// What the engine's event loop is told to do.
#[derive(Debug)]
pub enum EngineAction {
    /// Start a job for the request.
    StartJob(PipelineRequest),
    /// Ask the running job to stop.
    CancelJob,
    /// Send a notice to the user interface.
    Notify(EngineNotice),
    /// Wait for the running job to end, then stop the engine.
    AwaitJobAndStop,
    /// Stop the engine.
    Stop,
}

/// What the engine's event loop receives.
#[derive(Debug)]
pub enum EngineInput {
    /// A command, or `None` when the command channel has closed.
    Command(Option<EngineCommand>),
    /// The running job's result, or `None` when its worker ended without one.
    JobFinished(Option<Result<PipelineRequest, EngineError>>),
    /// The engine's handle was dropped.
    Shutdown,
}

/// A log notice of the engine itself.
pub open spec fn is_engine_log(a: EngineAction, level: LogLevel, text: Seq<char>) -> bool {
    match a {
        EngineAction::Notify(EngineNotice::Log(e)) => e.level == level && e.message@ == text
            && match e.module {
            Some(m) => m@ == "engine"@,
            None => false,
        },
        _ => false,
    }
}

pub open spec fn is_failure_notice(a: EngineAction, text: Seq<char>) -> bool {
    a matches EngineAction::Notify(EngineNotice::Failed { message }) && message@ == text
}

/// The engine's answer to one input: whether a job runs afterwards, and
/// the actions, in order.
pub open spec fn engine_step(running: bool, input: EngineInput, next: bool, actions: Seq<EngineAction>) -> bool {
    match input {
        EngineInput::Shutdown => {
            &&& !next
            &&& if running {
                actions == seq![EngineAction::CancelJob, EngineAction::AwaitJobAndStop]
            } else {
                actions == seq![EngineAction::Stop]
            }
        },
        EngineInput::Command(command) => if running {
            match command {
                Some(EngineCommand::Cancel) => next && actions == seq![EngineAction::CancelJob],
                Some(EngineCommand::Start(_)) => next && actions.len() == 1 && is_engine_log(
                    actions[0],
                    LogLevel::Warn,
                    "Pipeline už beží; nový Start bol ignorovaný."@,
                ),
                Some(EngineCommand::UpdateTranslation { .. }) => next && actions.len() == 1
                    && is_engine_log(
                    actions[0],
                    LogLevel::Debug,
                    "Úprava prekladu bude spracovaná v ďalšej fáze pipeline."@,
                ),
                _ => !next && actions == seq![EngineAction::CancelJob, EngineAction::AwaitJobAndStop],
            }
        } else {
            match command {
                Some(EngineCommand::Start(request)) => next && actions == seq![
                    EngineAction::StartJob(request),
                ],
                Some(EngineCommand::Cancel) => !next && actions.len() == 1 && is_engine_log(
                    actions[0],
                    LogLevel::Debug,
                    "Cancel ignorovaný: pipeline je nečinná."@,
                ),
                Some(EngineCommand::UpdateTranslation { .. }) => !next && actions.len() == 1
                    && is_engine_log(
                    actions[0],
                    LogLevel::Debug,
                    "Úprava prekladu ignorovaná: pipeline je nečinná."@,
                ),
                _ => !next && actions == seq![EngineAction::Stop],
            }
        },
        EngineInput::JobFinished(result) => if running {
            &&& !next
            &&& match result {
                Some(Ok(request)) => actions == seq![
                    EngineAction::Notify(EngineNotice::Completed { output_video: request.output_video }),
                ],
                Some(Err(error)) => actions.len() == 2 && actions[0] == EngineAction::Notify(
                    EngineNotice::StateChanged(PipelineState::Failed),
                ) && is_failure_notice(actions[1], engine_error_text(error)),
                None => actions.len() == 2 && actions[0] == EngineAction::Notify(
                    EngineNotice::StateChanged(PipelineState::Failed),
                ) && is_failure_notice(actions[1], "Engine worker skončil bez výsledku."@),
            }
        } else {
            !next && actions.len() == 0
        },
    }
}

fn engine_log(level: LogLevel, text: &str) -> (a: EngineAction)
    ensures
        is_engine_log(a, level, text@),
{
    let a = EngineAction::Notify(
        EngineNotice::Log(
            LogEntry {
                level,
                message: String::from_str(text),
                module: Some(String::from_str("engine")),
            },
        ),
    );
    a
}

/// The engine's state between inputs: whether a job is running.
#[derive(Debug)]
pub struct EngineCore {
    running: bool,
}

impl EngineCore {
    pub closed spec fn is_running_spec(&self) -> bool {
        self.running
    }

    /// An engine with no job.
    pub fn new() -> (e: Self)
        ensures
            !e.is_running_spec(),
    {
        EngineCore { running: false }
    }

    pub fn is_running(&self) -> (b: bool)
        ensures
            b == self.is_running_spec(),
    {
        self.running
    }

    /// Answers one input.
    pub fn step(&mut self, input: EngineInput) -> (actions: Vec<EngineAction>)
        ensures
            engine_step(old(self).is_running_spec(), input, final(self).is_running_spec(), actions@),
    {
        let mut actions: Vec<EngineAction> = Vec::new();
        match input {
            EngineInput::Shutdown => {
                if self.running {
                    actions.push(EngineAction::CancelJob);
                    actions.push(EngineAction::AwaitJobAndStop);
                    assert(actions@ =~= seq![EngineAction::CancelJob, EngineAction::AwaitJobAndStop]);
                } else {
                    actions.push(EngineAction::Stop);
                    assert(actions@ =~= seq![EngineAction::Stop]);
                }
                self.running = false;
            },
            EngineInput::Command(command) => {
                if self.running {
                    match command {
                        Some(EngineCommand::Cancel) => {
                            actions.push(EngineAction::CancelJob);
                            assert(actions@ =~= seq![EngineAction::CancelJob]);
                        },
                        Some(EngineCommand::Start(_)) => {
                            actions.push(
                                engine_log(
                                    LogLevel::Warn,
                                    "Pipeline už beží; nový Start bol ignorovaný.",
                                ),
                            );
                        },
                        Some(EngineCommand::UpdateTranslation { .. }) => {
                            actions.push(
                                engine_log(
                                    LogLevel::Debug,
                                    "Úprava prekladu bude spracovaná v ďalšej fáze pipeline.",
                                ),
                            );
                        },
                        _ => {
                            actions.push(EngineAction::CancelJob);
                            actions.push(EngineAction::AwaitJobAndStop);
                            assert(actions@ =~= seq![EngineAction::CancelJob, EngineAction::AwaitJobAndStop]);
                            self.running = false;
                        },
                    }
                } else {
                    match command {
                        Some(EngineCommand::Start(request)) => {
                            actions.push(EngineAction::StartJob(request));
                            assert(actions@ =~= seq![EngineAction::StartJob(request)]);
                            self.running = true;
                        },
                        Some(EngineCommand::Cancel) => {
                            actions.push(
                                engine_log(LogLevel::Debug, "Cancel ignorovaný: pipeline je nečinná."),
                            );
                        },
                        Some(EngineCommand::UpdateTranslation { .. }) => {
                            actions.push(
                                engine_log(
                                    LogLevel::Debug,
                                    "Úprava prekladu ignorovaná: pipeline je nečinná.",
                                ),
                            );
                        },
                        _ => {
                            actions.push(EngineAction::Stop);
                            assert(actions@ =~= seq![EngineAction::Stop]);
                        },
                    }
                }
            },
            EngineInput::JobFinished(result) => {
                if self.running {
                    self.running = false;
                    match result {
                        Some(Ok(request)) => {
                            let ghost out = request.output_video;
                            actions.push(
                                EngineAction::Notify(
                                    EngineNotice::Completed { output_video: request.output_video },
                                ),
                            );
                            assert(actions@ =~= seq![EngineAction::Notify(EngineNotice::Completed { output_video: out })]);
                        },
                        Some(Err(error)) => {
                            actions.push(
                                EngineAction::Notify(
                                    EngineNotice::StateChanged(PipelineState::Failed),
                                ),
                            );
                            actions.push(
                                EngineAction::Notify(EngineNotice::Failed { message: error.message() }),
                            );
                        },
                        None => {
                            actions.push(
                                EngineAction::Notify(
                                    EngineNotice::StateChanged(PipelineState::Failed),
                                ),
                            );
                            actions.push(
                                EngineAction::Notify(
                                    EngineNotice::Failed {
                                        message: String::from_str("Engine worker skončil bez výsledku."),
                                    },
                                ),
                            );
                        },
                    }
                }
            },
        }
        actions
    }
}

/// While a job runs, a new `Start` starts nothing and the job keeps running.
pub proof fn lemma_one_job_at_a_time(request: PipelineRequest, next: bool, actions: Seq<EngineAction>)
    requires
        engine_step(true, EngineInput::Command(Some(EngineCommand::Start(request))), next, actions),
    ensures
        next,
        forall|i: int| 0 <= i < actions.len() ==> !(#[trigger] actions[i] is StartJob),
{
}

/// When the running job ends, the engine becomes idle and reports exactly
/// one outcome: completion or failure.
pub proof fn lemma_finished_job_reports_one_outcome(
    result: Option<Result<PipelineRequest, EngineError>>,
    next: bool,
    actions: Seq<EngineAction>,
)
    requires
        engine_step(true, EngineInput::JobFinished(result), next, actions),
    ensures
        !next,
        actions.len() >= 1,
        actions.last() matches EngineAction::Notify(n) && (n is Completed || n is Failed),
        forall|i: int| 0 <= i < actions.len() - 1 ==> (#[trigger] actions[i] == EngineAction::Notify(
            EngineNotice::StateChanged(PipelineState::Failed),
        )),
        result matches Some(Ok(_)) <==> actions.last() matches EngineAction::Notify(
            EngineNotice::Completed { .. },
        ),
{
}

/// A shutdown, asked for or caused by a closed channel, always stops the
/// engine, and a running job is cancelled first.
pub proof fn lemma_shutdown_stops(running: bool, input: EngineInput, next: bool, actions: Seq<EngineAction>)
    requires
        input is Shutdown || input == EngineInput::Command(None) || input == EngineInput::Command(
            Some(EngineCommand::Shutdown),
        ),
        engine_step(running, input, next, actions),
    ensures
        !next,
        actions.len() >= 1,
        actions.last() is Stop || actions.last() is AwaitJobAndStop,
        running ==> actions[0] is CancelJob && actions.last() is AwaitJobAndStop,
{
}

/// A `Cancel` cancels the running job and nothing else: the engine keeps
/// running until the job reports its end. While idle, a `Cancel` cancels
/// nothing and the engine stays idle.
pub proof fn lemma_cancel_cancels_running_job(running: bool, next: bool, actions: Seq<EngineAction>)
    requires
        engine_step(running, EngineInput::Command(Some(EngineCommand::Cancel)), next, actions),
    ensures
        running ==> next && actions == seq![EngineAction::CancelJob],
        !running ==> !next && forall|i: int| 0 <= i < actions.len() ==> !(#[trigger] actions[i] is CancelJob),
        !running ==> forall|i: int| 0 <= i < actions.len() ==> !(#[trigger] actions[i] is StartJob),
{
}

/// A `Start` while idle starts exactly that request.
pub proof fn lemma_idle_start_runs_request(request: PipelineRequest, next: bool, actions: Seq<EngineAction>)
    requires
        engine_step(false, EngineInput::Command(Some(EngineCommand::Start(request))), next, actions),
    ensures
        next,
        actions == seq![EngineAction::StartJob(request)],
{
}

} // verus!
