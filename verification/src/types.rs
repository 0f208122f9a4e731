use vstd::prelude::*;

verus! {

/// Stable identifier of a segment across recognition, translation and synthesis.
pub type SegmentId = u64;

/// States of the main pipeline.
///
/// The enum carries no data: error details, messages and progress travel
/// in separate events.
#[derive(Debug, Clone, Copy, PartialEq, Eq, Structural)]
pub enum PipelineState {
    Idle,
    Transcribing,
    Translating,
    Synthesizing,
    LipSyncing,
    Rendering,
    Failed,
    Completed,
}

impl Default for PipelineState {
    fn default() -> (s: Self)
        ensures
            s == PipelineState::Idle,
    {
        PipelineState::Idle
    }
}

/// Position of a working state in the pipeline order; `None` for the
/// idle and terminal states.
pub open spec fn stage_rank(s: PipelineState) -> Option<nat> {
    match s {
        PipelineState::Transcribing => Some(0),
        PipelineState::Translating => Some(1),
        PipelineState::Synthesizing => Some(2),
        PipelineState::LipSyncing => Some(3),
        PipelineState::Rendering => Some(4),
        _ => None,
    }
}

pub open spec fn is_terminal_state(s: PipelineState) -> bool {
    s == PipelineState::Failed || s == PipelineState::Completed
}

/// The transition relation of the pipeline: staying in a state, moving one
/// stage forward, failing from any non-terminal state, and returning to
/// `Idle` from a terminal state.
pub open spec fn transition_allowed(from: PipelineState, to: PipelineState) -> bool {
    ||| from == to
    ||| (from == PipelineState::Idle && to == PipelineState::Transcribing)
    ||| (from == PipelineState::Transcribing && to == PipelineState::Translating)
    ||| (from == PipelineState::Translating && to == PipelineState::Synthesizing)
    ||| (from == PipelineState::Synthesizing && to == PipelineState::LipSyncing)
    ||| (from == PipelineState::LipSyncing && to == PipelineState::Rendering)
    ||| (from == PipelineState::Rendering && to == PipelineState::Completed)
    ||| (!is_terminal_state(from) && to == PipelineState::Failed)
    ||| (is_terminal_state(from) && to == PipelineState::Idle)
}

pub open spec fn state_label(s: PipelineState) -> Seq<char> {
    match s {
        PipelineState::Idle => "Idle"@,
        PipelineState::Transcribing => "Transcribing"@,
        PipelineState::Translating => "Translating"@,
        PipelineState::Synthesizing => "Synthesizing"@,
        PipelineState::LipSyncing => "Lip-syncing"@,
        PipelineState::Rendering => "Rendering"@,
        PipelineState::Failed => "Failed"@,
        PipelineState::Completed => "Completed"@,
    }
}

/// The variant's own name, as `{:?}` prints it.
pub open spec fn state_debug_name(s: PipelineState) -> Seq<char> {
    match s {
        PipelineState::Idle => "Idle"@,
        PipelineState::Transcribing => "Transcribing"@,
        PipelineState::Translating => "Translating"@,
        PipelineState::Synthesizing => "Synthesizing"@,
        PipelineState::LipSyncing => "LipSyncing"@,
        PipelineState::Rendering => "Rendering"@,
        PipelineState::Failed => "Failed"@,
        PipelineState::Completed => "Completed"@,
    }
}

impl PipelineState {
    /// Whether the state ends the current job.
    pub fn is_terminal(self) -> (b: bool)
        ensures
            b == is_terminal_state(self),
    {
        match self {
            PipelineState::Failed | PipelineState::Completed => true,
            _ => false,
        }
    }

    /// Transitions allowed at the boundary of the orchestration engine.
    ///
    /// A repeated transition into the same state is allowed, because one
    /// state may produce several progress events.
    pub fn can_transition_to(self, next: Self) -> (b: bool)
        ensures
            b == transition_allowed(self, next),
    {
        if self == next {
            return true;
        }
        match (self, next) {
            (PipelineState::Idle, PipelineState::Transcribing) => true,
            (PipelineState::Idle, PipelineState::Failed) => true,
            (PipelineState::Transcribing, PipelineState::Translating) => true,
            (PipelineState::Transcribing, PipelineState::Failed) => true,
            (PipelineState::Translating, PipelineState::Synthesizing) => true,
            (PipelineState::Translating, PipelineState::Failed) => true,
            (PipelineState::Synthesizing, PipelineState::LipSyncing) => true,
            (PipelineState::Synthesizing, PipelineState::Failed) => true,
            (PipelineState::LipSyncing, PipelineState::Rendering) => true,
            (PipelineState::LipSyncing, PipelineState::Failed) => true,
            (PipelineState::Rendering, PipelineState::Completed) => true,
            (PipelineState::Rendering, PipelineState::Failed) => true,
            (PipelineState::Failed, PipelineState::Idle) => true,
            (PipelineState::Completed, PipelineState::Idle) => true,
            _ => false,
        }
    }

    /// Human-readable name of the state.
    pub fn label(self) -> (s: &'static str)
        ensures
            s@ == state_label(self),
    {
        let s = match self {
            PipelineState::Idle => "Idle",
            PipelineState::Transcribing => "Transcribing",
            PipelineState::Translating => "Translating",
            PipelineState::Synthesizing => "Synthesizing",
            PipelineState::LipSyncing => "Lip-syncing",
            PipelineState::Rendering => "Rendering",
            PipelineState::Failed => "Failed",
            PipelineState::Completed => "Completed",
        };
        proof {
            reveal_strlit("Idle");
            reveal_strlit("Transcribing");
            reveal_strlit("Translating");
            reveal_strlit("Synthesizing");
            reveal_strlit("Lip-syncing");
            reveal_strlit("Rendering");
            reveal_strlit("Failed");
            reveal_strlit("Completed");
        }
        s
    }

    /// The variant's name as `{:?}` prints it.
    pub fn debug_name(self) -> (s: &'static str)
        ensures
            s@ == state_debug_name(self),
    {
        match self {
            PipelineState::Idle => "Idle",
            PipelineState::Transcribing => "Transcribing",
            PipelineState::Translating => "Translating",
            PipelineState::Synthesizing => "Synthesizing",
            PipelineState::LipSyncing => "LipSyncing",
            PipelineState::Rendering => "Rendering",
            PipelineState::Failed => "Failed",
            PipelineState::Completed => "Completed",
        }
    }
}

/// Every state may be entered again: progress events repeat a state.
pub proof fn lemma_transition_reflexive(s: PipelineState)
    ensures
        transition_allowed(s, s),
{
}

/// A terminal state leads only to itself or back to `Idle`.
pub proof fn lemma_terminal_states_only_reset(from: PipelineState, to: PipelineState)
    requires
        is_terminal_state(from),
        transition_allowed(from, to),
    ensures
        to == from || to == PipelineState::Idle,
{
}

/// A job that ended, completed or failed, lets the pipeline go back to
/// `Idle` for the next one; no working state goes back to `Idle`.
pub proof fn lemma_ended_jobs_reset_to_idle(s: PipelineState)
    ensures
        transition_allowed(s, PipelineState::Idle) <==> (s == PipelineState::Idle || s
            == PipelineState::Completed || s == PipelineState::Failed),
{
}

/// Every state that is not terminal can fail.
pub proof fn lemma_non_terminal_can_fail(s: PipelineState)
    requires
        !is_terminal_state(s),
    ensures
        transition_allowed(s, PipelineState::Failed),
{
}

/// Between working states the pipeline never goes back and never skips
/// a stage.
pub proof fn lemma_stages_advance_one_at_a_time(from: PipelineState, to: PipelineState)
    requires
        stage_rank(from) is Some,
        stage_rank(to) is Some,
        transition_allowed(from, to),
    ensures
        stage_rank(to)->0 == stage_rank(from)->0 || stage_rank(to)->0 == stage_rank(from)->0 + 1,
{
}

/// `Completed` is entered only from `Rendering` (or from itself), and a job
/// starts only from `Idle`.
pub proof fn lemma_completion_and_start_edges(from: PipelineState, to: PipelineState)
    requires
        transition_allowed(from, to),
        from != to,
    ensures
        to == PipelineState::Completed ==> from == PipelineState::Rendering,
        to == PipelineState::Transcribing ==> from == PipelineState::Idle,
        to == PipelineState::Idle ==> is_terminal_state(from),
{
}

/// Log level shown in the user interface.
#[derive(Debug, Clone, Copy, PartialEq, Eq, Structural)]
pub enum LogLevel {
    Trace,
    Debug,
    Info,
    Warn,
    Error,
}

impl Default for LogLevel {
    fn default() -> (l: Self)
        ensures
            l == LogLevel::Info,
    {
        LogLevel::Info
    }
}

#[derive(Debug, Clone)]
pub struct LogEntry {
    pub level: LogLevel,
    pub message: String,
    pub module: Option<String>,
}

/// Input of one pipeline run. Paths are held as strings.
#[derive(Debug, Clone)]
pub struct PipelineRequest {
    pub input_video: String,
    pub output_video: String,
    pub voice_reference: Option<String>,
    pub job_id: Option<String>,
}

/// Paths of the intermediate results of one run.
#[derive(Debug, Clone)]
pub struct PipelineArtifacts {
    pub utterance_metadata: String,
    pub translated_metadata: String,
    pub synthesized_audio: String,
    pub lip_synced_video: String,
    pub final_video: String,
}

/// What to remove after a run, and when.
#[derive(Debug, Clone)]
pub struct CleanupPlan {
    pub allowed_root: String,
    pub workspace: String,
    pub on_success: bool,
    pub on_failure: bool,
}

impl CleanupPlan {
    /// Whether the workspace is to be removed after a run with the given outcome.
    pub fn should_cleanup(&self, successful: bool) -> (b: bool)
        ensures
            b == (if successful {
                self.on_success
            } else {
                self.on_failure
            }),
    {
        if successful {
            self.on_success
        } else {
            self.on_failure
        }
    }
}

/// Commands from the user interface to the orchestration engine.
#[derive(Debug, Clone)]
pub enum EngineCommand {
    Start(PipelineRequest),
    Cancel,
    UpdateTranslation { segment_id: SegmentId, translated_text: String },
    Shutdown,
}

} // verus!
