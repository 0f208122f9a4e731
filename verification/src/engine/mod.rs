//! The orchestration layer: the description of subprocesses, progress
//! parsing, and the decisions of the engine.

pub mod orchestrator;
pub mod process;
pub mod progress;

pub use orchestrator::{
    EngineAction, EngineConfig, EngineCore, EngineError, EngineInput, EngineNotice, NoopPlanner,
    PipelinePlan, PlannerError,
};
pub use process::{
    interrupted, Interruption, OutputCapture, OutputStream, ProcessError, ProcessRunner, ProcessSpec,
};
pub use progress::{ProgressParser, ProgressParserError, ProgressValue};
