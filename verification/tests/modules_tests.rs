use dabovanie_videi_v2::config::AppConfig;
use dabovanie_videi_v2::engine::progress::ProgressValue;
use dabovanie_videi_v2::engine::{PlannerError, ProcessSpec};
use dabovanie_videi_v2::modules::cleanup::{verify_cleanup_target, CleanupError};
use dabovanie_videi_v2::modules::ffmpeg::{FfmpegError, FfmpegModule};
use dabovanie_videi_v2::modules::latentsync::LatentSyncModule;
use dabovanie_videi_v2::modules::planner::{module_error, sanitize_component, validate_request};
use dabovanie_videi_v2::modules::translation::TranslationModule;
use dabovanie_videi_v2::modules::tts::{TtsError, TtsModule};
use dabovanie_videi_v2::modules::whisper::{WhisperError, WhisperModule};
use dabovanie_videi_v2::modules::ConfiguredPlanner;
use dabovanie_videi_v2::path::starts_with;
use dabovanie_videi_v2::types::{PipelineRequest, PipelineState};

fn args_of(spec: &ProcessSpec) -> Vec<String> {
    spec.args.clone()
}

fn has_pair(args: &[String], a: &str, b: &str) -> bool {
    args.windows(2).any(|pair| pair[0] == a && pair[1] == b)
}

#[test]
fn maps_video_and_audio_streams() {
    let config = AppConfig::default();
    let spec = FfmpegModule::new(&config)
        .build_spec("lip_synced.mp4", "cinsky_dabbing.wav", "final.mp4")
        .unwrap();
    let args = args_of(&spec);

    assert!(has_pair(&args, "-map", "0:v:0"));
    assert!(has_pair(&args, "-map", "1:a:0"));
    assert!(has_pair(&args, "-c:v", "copy"));
}

#[test]
fn preserves_nllb_language_codes_in_command() {
    let config = AppConfig::default();
    let spec = TranslationModule::new(&config)
        .build_spec("utterance_metadata.json", "translated_metadata.json")
        .unwrap();
    let args = args_of(&spec);

    assert!(has_pair(&args, "--source-lang", "slk_Latn"));
    assert!(has_pair(&args, "--target-lang", "zho_Hans"));
}

#[test]
fn builds_isolated_whisper_command() {
    let config = AppConfig::default();
    let spec = WhisperModule::new(&config)
        .build_spec("input.mp4", "work/utterance_metadata.json")
        .unwrap();

    assert_eq!(spec.state, PipelineState::Transcribing);
    assert_eq!(spec.program, "venvs/whisper-sk/bin/python");
    assert!(spec.args.iter().any(|arg| arg == "--model"));
    assert!(spec
        .args
        .iter()
        .any(|arg| arg == "NaiveNeuron/whisper-large-v3-sk"));
}

fn test_config() -> AppConfig {
    let mut config = AppConfig::default();
    config.paths.temp_dir = "/tmp/dabovanie-planner-test/tmp".to_owned();
    config.paths.output_dir = "/tmp/dabovanie-planner-test/output".to_owned();
    config
}

fn request(job_id: Option<&str>) -> PipelineRequest {
    PipelineRequest {
        input_video: "input.mp4".to_owned(),
        output_video: "output/final.mp4".to_owned(),
        voice_reference: None,
        job_id: job_id.map(|j| j.to_owned()),
    }
}

#[test]
fn builds_all_pipeline_stages_and_cleanup_plan() {
    let planner = ConfiguredPlanner::new(test_config()).unwrap();
    let request = request(Some("demo job"));

    let (artifacts, cleanup) = planner.artifacts_for(&request, 4242, 1700000000).unwrap();
    let plan = planner.plan_stages(&request, &artifacts, cleanup).unwrap();
    assert_eq!(plan.stages.len(), 5);
    assert_eq!(plan.stages[0].state, PipelineState::Transcribing);
    assert_eq!(plan.stages[4].state, PipelineState::Rendering);
    assert!(plan.cleanup.is_some());

    let cleanup = plan.cleanup.unwrap();
    assert!(starts_with(&cleanup.workspace, &cleanup.allowed_root));
}

#[test]
fn workspace_is_named_after_job_process_and_time() {
    let planner = ConfiguredPlanner::new(test_config()).unwrap();
    let with_id = planner.workspace_for(&request(Some("demo job")), 42, 7);
    assert_eq!(with_id, "/tmp/dabovanie-planner-test/tmp/demo_job-42-7");
    let without_id = planner.workspace_for(&request(None), 1, 2);
    assert_eq!(without_id, "/tmp/dabovanie-planner-test/tmp/final-1-2");
    let empty_id = planner.workspace_for(&request(Some("")), 1, 2);
    assert_eq!(empty_id, "/tmp/dabovanie-planner-test/tmp/job-1-2");
    let (artifacts, cleanup) = planner.artifacts_for(&request(Some("x")), 5, 6).unwrap();
    assert_eq!(
        artifacts.synthesized_audio,
        "/tmp/dabovanie-planner-test/tmp/x-5-6/cinsky_dabbing.wav"
    );
    assert_eq!(artifacts.final_video, "output/final.mp4");
    assert!(cleanup.on_success);
    assert!(!cleanup.on_failure);
    assert!(verify_cleanup_target(&cleanup.allowed_root, &cleanup.workspace).is_ok());
}

#[test]
fn plan_stages_chain_their_files() {
    let planner = ConfiguredPlanner::new(test_config()).unwrap();
    let request = request(Some("chain"));
    let (artifacts, cleanup) = planner.artifacts_for(&request, 1, 1).unwrap();
    let plan = planner.plan_stages(&request, &artifacts, cleanup).unwrap();
    let states: Vec<PipelineState> = plan.stages.iter().map(|s| s.state).collect();
    assert_eq!(
        states,
        vec![
            PipelineState::Transcribing,
            PipelineState::Translating,
            PipelineState::Synthesizing,
            PipelineState::LipSyncing,
            PipelineState::Rendering
        ]
    );
    let whisper = args_of(&plan.stages[0]);
    let translation = args_of(&plan.stages[1]);
    assert!(has_pair(&whisper, "--output", &artifacts.utterance_metadata));
    assert!(has_pair(&translation, "--input", &artifacts.utterance_metadata));
    assert!(has_pair(&args_of(&plan.stages[4]), "-i", &artifacts.lip_synced_video));
}

#[test]
fn requests_are_validated() {
    let mut bad = request(None);
    bad.input_video = String::new();
    assert!(matches!(validate_request(&bad), Err(PlannerError::Invalid(m)) if m == "input video cesta nesmie byť prázdna"));
    let mut same = request(None);
    same.output_video = "./input.mp4/".to_owned();
    same.input_video = "input.mp4".to_owned();
    assert!(validate_request(&same).is_ok());
    same.output_video = "input.mp4/".to_owned();
    assert!(matches!(validate_request(&same), Err(PlannerError::Invalid(m)) if m == "input a output video nesmú byť rovnaký súbor"));
    let planner = ConfiguredPlanner::new(test_config()).unwrap();
    assert!(matches!(planner.artifacts_for(&same, 1, 1), Err(PlannerError::Invalid(_))));
}

#[test]
fn invalid_configuration_is_refused_by_the_planner() {
    let mut config = AppConfig::default();
    config.paths.temp_dir = String::new();
    match ConfiguredPlanner::new(config) {
        Err(PlannerError::Invalid(message)) => assert_eq!(
            message,
            "neplatná hodnota konfigurácie `paths.temp_dir`: cesta nesmie byť prázdna"
        ),
        _ => panic!("expected an invalid configuration"),
    }
}

#[test]
fn components_are_sanitized() {
    assert_eq!(sanitize_component("demo job/1.mp4"), "demo_job_1_mp4");
    assert_eq!(sanitize_component(""), "job");
    assert_eq!(sanitize_component("čo"), "_o");
    assert_eq!(sanitize_component(&"a".repeat(100)).len(), 80);
    let error = module_error("latentsync", "text".to_owned());
    assert_eq!(
        error.message(),
        "modul `latentsync` sa nepodarilo nakonfigurovať: text"
    );
}

#[test]
fn module_errors_name_the_missing_field() {
    let config = AppConfig::default();
    match WhisperModule::new(&config).build_spec("", "out.json") {
        Err(error @ WhisperError::InvalidConfiguration(_)) => assert_eq!(
            error.message(),
            "neplatná Whisper konfigurácia: Whisper input cesta nesmie byť prázdna"
        ),
        _ => panic!("expected a configuration error"),
    }
    match FfmpegModule::new(&config).build_spec("v.mp4", "a.wav", "") {
        Err(FfmpegError::InvalidConfiguration(m)) => assert_eq!(m, "FFmpeg output cesta nesmie byť prázdna"),
        _ => panic!("expected a configuration error"),
    }
    let mut zero = AppConfig::default();
    zero.pipeline.max_tts_chars = 0;
    match TtsModule::new(&zero).build_spec("in.json", "out.wav", None) {
        Err(TtsError::InvalidConfiguration(m)) => {
            assert_eq!(m, "pipeline.max_tts_chars musí byť väčšie ako nula")
        }
        _ => panic!("expected a configuration error"),
    }
    let mut blank = AppConfig::default();
    blank.models.xtts_v2 = " ".to_owned();
    match TtsModule::new(&blank).build_spec("in.json", "out.wav", None) {
        Err(TtsError::InvalidConfiguration(m)) => assert_eq!(m, "models.xtts_v2 hodnota nesmie byť prázdna"),
        _ => panic!("expected a configuration error"),
    }
}

#[test]
fn tts_command_carries_chunk_length_and_voice() {
    let config = AppConfig::default();
    let spec = TtsModule::new(&config)
        .build_spec("in.json", "out.wav", Some("voice.wav"))
        .unwrap();
    let args = args_of(&spec);
    assert!(has_pair(&args, "--max-chars", "240"));
    assert!(has_pair(&args, "--speaker-wav", "voice.wav"));
    assert_eq!(args[0], "-u");
    assert_eq!(args[1], "scripts/synthesize_xtts.py");
    assert_eq!(spec.environment.get("PYTHONUNBUFFERED"), Some(&"1".to_owned()));
    let parser = spec.progress_parser.as_ref().unwrap();
    assert_eq!(parser.state(), PipelineState::Synthesizing);
    assert_eq!(parser.value_kind(), ProgressValue::Percent);
    assert_eq!(parser.value_group(), 1);
    let without = TtsModule::new(&config).build_spec("in.json", "out.wav", None).unwrap();
    assert!(!args_of(&without).iter().any(|a| a == "--speaker-wav"));
}

#[test]
fn latentsync_command_points_at_its_root_and_ffmpeg() {
    let config = AppConfig::default();
    let spec = LatentSyncModule::new(&config)
        .build_spec("in.mp4", "dub.wav", "sync.mp4")
        .unwrap();
    let args = args_of(&spec);
    assert!(has_pair(&args, "--latentsync-root", "models/latentsync"));
    assert!(has_pair(&args, "--ffmpeg", "ffmpeg"));
    assert!(has_pair(&args, "--device", "auto"));
    assert_eq!(spec.program, "venvs/latentsync/bin/python");
    assert_eq!(spec.state, PipelineState::LipSyncing);
}

#[test]
fn cleanup_refuses_root_and_outside_paths() {
    assert!(verify_cleanup_target("/tmp/root", "/tmp/root/job").is_ok());
    match verify_cleanup_target("/tmp/root", "/tmp/root/") {
        Err(error @ CleanupError::UnsafePath { .. }) => assert_eq!(
            error.message(),
            "odmietnuté nebezpečné cleanup cesty: workspace `/tmp/root/` nie je potomkom root `/tmp/root`"
        ),
        _ => panic!("the root itself must be refused"),
    }
    assert!(verify_cleanup_target("/tmp/root", "/tmp/rootx/job").is_err());
    assert!(verify_cleanup_target("/tmp/root", "/var/job").is_err());
}
