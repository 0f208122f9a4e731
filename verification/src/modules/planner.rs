//! The planner that joins the configuration with the module adapters:
//! an isolated workspace per run, and the five stages of the pipeline.
use super::ffmpeg::{ffmpeg_command, ffmpeg_problem, FfmpegModule};
use super::latentsync::{latentsync_command, latentsync_problem, LatentSyncModule};
use super::translation::{translation_command, translation_problem, TranslationModule};
use super::tts::{opt_str_view, tts_command, tts_problem, TtsModule};
use super::whisper::{whisper_command, whisper_problem, WhisperModule};
use super::cleanup::removable;
use crate::config::{opt_view, AppConfig, FieldCheck};
use crate::engine::orchestrator::{
    lemma_pipeline_order_is_accepted, stage_walk, EngineError, PipelinePlan, PlannerError,
};
use crate::engine::process::ProcessSpec;
use crate::engine::progress::{percentage_pattern, regex_accepts};
use crate::error::{config_error_text, join2, ConfigError};
use crate::path::{file_stem, join, join_path, lemma_join_is_strictly_below, same, same_path, single_segment, stem};
use crate::text::{chars_of, decimal_digits, decimal_string, digit_char, is_ascii_alphanumeric, is_ascii_alphanumeric_char, push_char};
use crate::types::{CleanupPlan, PipelineArtifacts, PipelineRequest, PipelineState};
use vstd::prelude::*;

verus! {

/// The planner joining the configuration with the subprocess modules.
#[derive(Debug)]
pub struct ConfiguredPlanner {
    config: AppConfig,
}

/// The text of the invalid-field error that a failed check produces.
pub open spec fn field_check_text(c: FieldCheck) -> Seq<char> {
    "neplatná hodnota konfigurácie `"@ + c.field + "`: "@ + c.message
}

pub open spec fn component_char(c: char) -> char {
    if is_ascii_alphanumeric_char(c) || c == '-' || c == '_' {
        c
    } else {
        '_'
    }
}

/// A job identifier as one safe path component: ASCII letters, digits,
/// `-` and `_` are kept, anything else becomes `_`, at most 80
/// characters, and `job` when nothing is left.
pub open spec fn sanitized_component(v: Seq<char>) -> Seq<char> {
    let n = if v.len() < 80 {
        v.len()
    } else {
        80
    };
    if n == 0 {
        "job"@
    } else {
        Seq::new(n, |i: int| component_char(v[i]))
    }
}

/// The identifier a run's workspace is named after: the job id, else the
/// output video's file stem, else `job`.
pub open spec fn requested_id(request: PipelineRequest) -> Seq<char> {
    match request.job_id {
        Some(j) => j@,
        None => match file_stem(request.output_video@) {
            Some(s) => s,
            None => "job"@,
        },
    }
}

/// The directory name of a run: `<identifier>-<process id>-<timestamp>`.
pub open spec fn workspace_name(request: PipelineRequest, pid: u32, timestamp: u128) -> Seq<char> {
    sanitized_component(requested_id(request)) + "-"@ + decimal_digits(pid as nat) + "-"@
        + decimal_digits(timestamp as nat)
}

/// A request is refused when a video path is missing, or when input and
/// output are the same path.
pub open spec fn request_problem(request: PipelineRequest) -> Option<Seq<char>> {
    if request.input_video@.len() == 0 {
        Some("input video cesta nesmie byť prázdna"@)
    } else if request.output_video@.len() == 0 {
        Some("output video cesta nesmie byť prázdna"@)
    } else if same_path(request.input_video@, request.output_video@) {
        Some("input a output video nesmú byť rovnaký súbor"@)
    } else {
        None
    }
}

/// The first module whose adapter refuses its inputs, with the text of its
/// error; the adapters run in pipeline order.
pub open spec fn stage_problem(c: AppConfig, request: PipelineRequest, a: PipelineArtifacts) -> Option<
    (Seq<char>, Seq<char>),
> {
    if let Some(m) = whisper_problem(c, request.input_video@, a.utterance_metadata@) {
        Some(("whisper-sk"@, "neplatná Whisper konfigurácia: "@ + m))
    } else if let Some(m) = translation_problem(c, a.utterance_metadata@, a.translated_metadata@) {
        Some(("nllb-translation"@, "neplatná translation konfigurácia: "@ + m))
    } else if let Some(m) = tts_problem(
        c,
        a.translated_metadata@,
        a.synthesized_audio@,
        opt_view(request.voice_reference),
    ) {
        Some(("coqui-xtts"@, "neplatná TTS konfigurácia: "@ + m))
    } else if let Some(m) = latentsync_problem(
        c,
        request.input_video@,
        a.synthesized_audio@,
        a.lip_synced_video@,
    ) {
        Some(("latentsync"@, "neplatná LatentSync konfigurácia: "@ + m))
    } else if let Some(m) = ffmpeg_problem(
        c,
        a.lip_synced_video@,
        a.synthesized_audio@,
        a.final_video@,
    ) {
        Some(("ffmpeg-render"@, "neplatná FFmpeg konfigurácia: "@ + m))
    } else {
        None
    }
}

/// The plan of a run: transcription, translation, synthesis, lip sync and
/// render, each reading what the one before wrote, and the cleanup.
pub open spec fn full_plan(
    plan: PipelinePlan,
    c: AppConfig,
    request: PipelineRequest,
    a: PipelineArtifacts,
    cleanup: CleanupPlan,
) -> bool {
    &&& plan.stages@.len() == 5
    &&& whisper_command(plan.stages@[0], c, request.input_video@, a.utterance_metadata@)
    &&& translation_command(plan.stages@[1], c, a.utterance_metadata@, a.translated_metadata@)
    &&& tts_command(
        plan.stages@[2],
        c,
        a.translated_metadata@,
        a.synthesized_audio@,
        opt_view(request.voice_reference),
    )
    &&& latentsync_command(
        plan.stages@[3],
        c,
        request.input_video@,
        a.synthesized_audio@,
        a.lip_synced_video@,
    )
    &&& ffmpeg_command(plan.stages@[4], c, a.lip_synced_video@, a.synthesized_audio@, a.final_video@)
    &&& plan.cleanup == Some(cleanup)
}

/// The artifacts of a run inside its workspace, and its cleanup plan.
pub open spec fn run_layout(
    c: AppConfig,
    request: PipelineRequest,
    workspace: Seq<char>,
    a: PipelineArtifacts,
    cleanup: CleanupPlan,
) -> bool {
    &&& a.utterance_metadata@ == join_path(workspace, "utterance_metadata.json"@)
    &&& a.translated_metadata@ == join_path(workspace, "translated_metadata.json"@)
    &&& a.synthesized_audio@ == join_path(workspace, "cinsky_dabbing.wav"@)
    &&& a.lip_synced_video@ == join_path(workspace, "lip_synced.mp4"@)
    &&& a.final_video@ == request.output_video@
    &&& cleanup.allowed_root@ == c.paths.temp_dir@
    &&& cleanup.workspace@ == workspace
    &&& cleanup.on_success == c.pipeline.cleanup_on_success
    &&& cleanup.on_failure == c.pipeline.cleanup_on_failure
}

fn clone_request_voice(request: &PipelineRequest) -> (r: Option<&str>)
    ensures
        opt_str_view(r) == opt_view(request.voice_reference),
{
    match &request.voice_reference {
        Some(v) => Some(v.as_str()),
        None => None,
    }
}

impl ConfiguredPlanner {
    pub closed spec fn config_of(&self) -> AppConfig {
        self.config
    }

    /// A planner for a valid configuration.
    pub fn new(config: AppConfig) -> (r: Result<Self, PlannerError>)
        ensures
            match config.failure() {
                None => r matches Ok(p) && p.config_of() == config,
                Some(f) => r matches Err(PlannerError::Invalid(s)) && s@ == field_check_text(f),
            },
    {
        match config.validate() {
            Ok(()) => Ok(ConfiguredPlanner { config }),
            Err(error) => Err(PlannerError::Invalid(error.message())),
        }
    }

    pub fn config(&self) -> (c: &AppConfig)
        ensures
            *c == self.config_of(),
    {
        &self.config
    }

    /// The workspace of a run: a directory in the temporary directory named
    /// after the job, the process and the time.
    pub fn workspace_for(&self, request: &PipelineRequest, pid: u32, timestamp: u128) -> (w: String)
        ensures
            w@ == join_path(self.config_of().paths.temp_dir@, workspace_name(*request, pid, timestamp)),
            removable(self.config_of().paths.temp_dir@, w@),
    {
        let identifier = match &request.job_id {
            Some(j) => sanitize_component(j.as_str()),
            None => match stem(request.output_video.as_str()) {
                Some(s) => sanitize_component(s.as_str()),
                None => sanitize_component("job"),
            },
        };
        proof {
            reveal_strlit("job");
        }
        let pid_text = decimal_string(pid as u128);
        let time_text = decimal_string(timestamp);
        let mut name = join2(identifier.as_str(), "-");
        name.append(pid_text.as_str());
        push_char(&mut name, '-');
        name.append(time_text.as_str());
        proof {
            reveal_strlit("-");
            assert("-"@ =~= seq!['-']);
            assert(name@ =~= workspace_name(*request, pid, timestamp));
            lemma_workspace_name_is_single_segment(*request, pid, timestamp);
            lemma_join_is_strictly_below(self.config.paths.temp_dir@, name@);
        }
        join(self.config.paths.temp_dir.as_str(), name.as_str())
    }

    /// The paths of a run's intermediate results and its cleanup plan. The
    /// caller creates the workspace directory.
    pub fn artifacts_for(&self, request: &PipelineRequest, pid: u32, timestamp: u128) -> (r: Result<
        (PipelineArtifacts, CleanupPlan),
        PlannerError,
    >)
        ensures
            match request_problem(*request) {
                Some(m) => r matches Err(PlannerError::Invalid(s)) && s@ == m,
                None => r matches Ok((a, c)) && run_layout(
                    self.config_of(),
                    *request,
                    join_path(
                        self.config_of().paths.temp_dir@,
                        workspace_name(*request, pid, timestamp),
                    ),
                    a,
                    c,
                ) && removable(c.allowed_root@, c.workspace@),
            },
    {
        validate_request(request)?;
        let workspace = self.workspace_for(request, pid, timestamp);
        let artifacts = PipelineArtifacts {
            utterance_metadata: join(workspace.as_str(), "utterance_metadata.json"),
            translated_metadata: join(workspace.as_str(), "translated_metadata.json"),
            synthesized_audio: join(workspace.as_str(), "cinsky_dabbing.wav"),
            lip_synced_video: join(workspace.as_str(), "lip_synced.mp4"),
            final_video: request.output_video.clone(),
        };
        let cleanup = CleanupPlan {
            allowed_root: self.config.paths.temp_dir.clone(),
            workspace,
            on_success: self.config.pipeline.cleanup_on_success,
            on_failure: self.config.pipeline.cleanup_on_failure,
        };
        Ok((artifacts, cleanup))
    }

    /// The five stages of a run over its artifacts, and its cleanup.
    pub fn plan_stages(&self, request: &PipelineRequest, artifacts: &PipelineArtifacts, cleanup: CleanupPlan) -> (r:
        Result<PipelinePlan, PlannerError>)
        ensures
            whisper_problem(self.config_of(), request.input_video@, artifacts.utterance_metadata@)
                is None && !regex_accepts(percentage_pattern()) ==> (r matches Err(
                PlannerError::Module { module, .. },
            ) && module@ == "whisper-sk"@),
            whisper_problem(self.config_of(), request.input_video@, artifacts.utterance_metadata@)
                is Some || regex_accepts(percentage_pattern()) ==> match stage_problem(
                self.config_of(),
                *request,
                *artifacts,
            ) {
                Some((m, text)) => r matches Err(PlannerError::Module { module, message })
                    && module@ == m && message@ == text,
                None => match r {
                    Ok(plan) => full_plan(plan, self.config_of(), *request, *artifacts, cleanup),
                    Err(_) => false,
                },
            },
    {
        let config = &self.config;
        let whisper = match WhisperModule::new(config).build_spec(
            request.input_video.as_str(),
            artifacts.utterance_metadata.as_str(),
        ) {
            Ok(s) => s,
            Err(e) => {
                return Err(module_error("whisper-sk", e.message()));
            },
        };
        let translation = match TranslationModule::new(config).build_spec(
            artifacts.utterance_metadata.as_str(),
            artifacts.translated_metadata.as_str(),
        ) {
            Ok(s) => s,
            Err(e) => {
                return Err(module_error("nllb-translation", e.message()));
            },
        };
        let tts = match TtsModule::new(config).build_spec(
            artifacts.translated_metadata.as_str(),
            artifacts.synthesized_audio.as_str(),
            clone_request_voice(request),
        ) {
            Ok(s) => s,
            Err(e) => {
                return Err(module_error("coqui-xtts", e.message()));
            },
        };
        let latentsync = match LatentSyncModule::new(config).build_spec(
            request.input_video.as_str(),
            artifacts.synthesized_audio.as_str(),
            artifacts.lip_synced_video.as_str(),
        ) {
            Ok(s) => s,
            Err(e) => {
                return Err(module_error("latentsync", e.message()));
            },
        };
        let ffmpeg = match FfmpegModule::new(config).build_spec(
            artifacts.lip_synced_video.as_str(),
            artifacts.synthesized_audio.as_str(),
            artifacts.final_video.as_str(),
        ) {
            Ok(s) => s,
            Err(e) => {
                return Err(module_error("ffmpeg-render", e.message()));
            },
        };
        let mut stages: Vec<ProcessSpec> = Vec::new();
        stages.push(whisper);
        stages.push(translation);
        stages.push(tts);
        stages.push(latentsync);
        stages.push(ffmpeg);
        Ok(PipelinePlan::new(stages).with_cleanup(cleanup))
    }
}


/// The states of a plan's stages, in order.
pub open spec fn stage_states(plan: PipelinePlan) -> Seq<PipelineState> {
    plan.stages@.map_values(|s: ProcessSpec| s.state)
}

/// A plan that the planner builds passes every transition check of the
/// engine, from `Idle` through its last stage to completion.
pub proof fn lemma_planned_stages_pass_engine_checks(
    plan: PipelinePlan,
    c: AppConfig,
    request: PipelineRequest,
    a: PipelineArtifacts,
    cleanup: CleanupPlan,
)
    requires
        full_plan(plan, c, request, a, cleanup),
    ensures
        stage_walk(PipelineState::Idle, stage_states(plan)) == Ok::<PipelineState, EngineError>(
            PipelineState::Rendering,
        ),
{
    assert(stage_states(plan) =~= seq![
        PipelineState::Transcribing,
        PipelineState::Translating,
        PipelineState::Synthesizing,
        PipelineState::LipSyncing,
        PipelineState::Rendering,
    ]);
    lemma_pipeline_order_is_accepted();
}

/// A module's error as a planner error.
pub fn module_error(module: &str, message: String) -> (e: PlannerError)
    ensures
        e matches PlannerError::Module { module: m, message: t } && m@ == module@ && t == message,
{
    PlannerError::Module { module: String::from_str(module), message }
}

/// Refuses a request without input or output video, or with the same
/// path for both.
pub fn validate_request(request: &PipelineRequest) -> (r: Result<(), PlannerError>)
    ensures
        match request_problem(*request) {
            Some(m) => r matches Err(PlannerError::Invalid(s)) && s@ == m,
            None => r is Ok,
        },
{
    if request.input_video.as_str().is_empty() {
        return Err(PlannerError::Invalid(String::from_str("input video cesta nesmie byť prázdna")));
    }
    if request.output_video.as_str().is_empty() {
        return Err(PlannerError::Invalid(String::from_str("output video cesta nesmie byť prázdna")));
    }
    if same(request.input_video.as_str(), request.output_video.as_str()) {
        return Err(
            PlannerError::Invalid(String::from_str("input a output video nesmú byť rovnaký súbor")),
        );
    }
    Ok(())
}

/// Makes a job identifier safe to use as one path component.
pub fn sanitize_component(value: &str) -> (r: String)
    ensures
        r@ == sanitized_component(value@),
{
    let chars = chars_of(value);
    let mut component = String::new();
    let mut i: usize = 0;
    while i < chars.len() && i < 80
        invariant
            i <= chars.len(),
            i <= 80,
            chars@ == value@,
            component@ == Seq::new(i as nat, |k: int| component_char(chars@[k])),
        decreases chars.len() - i,
    {
        let character = chars[i];
        let kept = if is_ascii_alphanumeric(character) || character == '-' || character == '_' {
            character
        } else {
            '_'
        };
        push_char(&mut component, kept);
        assert(component@ =~= Seq::new((i + 1) as nat, |k: int| component_char(chars@[k])));
        i = i + 1;
    }
    if i == 0 {
        proof {
            reveal_strlit("job");
        }
        return String::from_str("job");
    }
    component
}

proof fn lemma_decimal_digits_are_digits(n: nat)
    ensures
        decimal_digits(n).len() > 0,
        forall|i: int|
            0 <= i < decimal_digits(n).len() ==> is_ascii_alphanumeric_char(
                #[trigger] decimal_digits(n)[i],
            ),
    decreases n,
{
    if n >= 10 {
        lemma_decimal_digits_are_digits(n / 10);
        let d = decimal_digits(n);
        let p = decimal_digits(n / 10);
        assert forall|i: int| 0 <= i < d.len() implies is_ascii_alphanumeric_char(#[trigger] d[i]) by {
            if i < p.len() {
                assert(d[i] == p[i]);
            }
        }
    }
}

/// A workspace name is one path component of its own.
proof fn lemma_workspace_name_is_single_segment(request: PipelineRequest, pid: u32, timestamp: u128)
    ensures
        single_segment(workspace_name(request, pid, timestamp)),
{
    reveal_strlit("job");
    reveal_strlit("-");
    let id = sanitized_component(requested_id(request));
    let a = decimal_digits(pid as nat);
    let b = decimal_digits(timestamp as nat);
    lemma_decimal_digits_are_digits(pid as nat);
    lemma_decimal_digits_are_digits(timestamp as nat);
    let name = workspace_name(request, pid, timestamp);
    assert(name == id + "-"@ + a + "-"@ + b);
    assert forall|i: int| 0 <= i < id.len() implies #[trigger] id[i] != '/' && id[i] != '.' by {
        let v = requested_id(request);
        if v.len() > 0 {
            assert(id[i] == component_char(v[i]));
        }
    }
    assert forall|i: int| 0 <= i < name.len() implies #[trigger] name[i] != '/' by {
        if i < id.len() {
            assert(name[i] == id[i]);
        } else if i == id.len() {
        } else if i < id.len() + 1 + a.len() {
            assert(name[i] == a[i - id.len() - 1]);
        } else if i == id.len() + 1 + a.len() {
        } else {
            assert(name[i] == b[i - id.len() - 2 - a.len()]);
        }
    }
    assert(name.len() > 1);
    assert(name != seq!['.']);
}

/// The workspace of every run lies strictly inside the temporary
/// directory, so the cleanup of that run passes the safety check.
pub proof fn lemma_workspace_is_removable(c: AppConfig, request: PipelineRequest, pid: u32, timestamp: u128)
    ensures
        removable(c.paths.temp_dir@, join_path(c.paths.temp_dir@, workspace_name(request, pid, timestamp))),
{
    lemma_workspace_name_is_single_segment(request, pid, timestamp);
    lemma_join_is_strictly_below(c.paths.temp_dir@, workspace_name(request, pid, timestamp));
}

} // verus!
