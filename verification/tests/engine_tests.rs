use dabovanie_videi_v2::engine::orchestrator::{enter_stage, finish_stages, settle_pipeline};
use dabovanie_videi_v2::engine::process::{append_bounded, interrupted, Interruption, OutputCapture};
use dabovanie_videi_v2::engine::{
    EngineAction, EngineConfig, EngineCore, EngineError, EngineInput, EngineNotice, NoopPlanner,
    OutputStream, PipelinePlan, PlannerError, ProcessError, ProcessRunner, ProcessSpec,
    ProgressParser, ProgressParserError, ProgressValue,
};
use dabovanie_videi_v2::modules::cleanup::CleanupError;
use dabovanie_videi_v2::types::{EngineCommand, LogLevel, PipelineRequest, PipelineState};

fn request() -> PipelineRequest {
    PipelineRequest {
        input_video: "input.mp4".to_owned(),
        output_video: "output.mp4".to_owned(),
        voice_reference: None,
        job_id: None,
    }
}

#[test]
fn idle_engine_starts_a_job_and_ignores_a_second_start() {
    let mut core = EngineCore::new();
    let actions = core.step(EngineInput::Command(Some(EngineCommand::Start(request()))));
    assert_eq!(actions.len(), 1);
    assert!(matches!(&actions[0], EngineAction::StartJob(r) if r.output_video == "output.mp4"));
    assert!(core.is_running());

    let actions = core.step(EngineInput::Command(Some(EngineCommand::Start(request()))));
    assert_eq!(actions.len(), 1);
    match &actions[0] {
        EngineAction::Notify(EngineNotice::Log(entry)) => {
            assert_eq!(entry.level, LogLevel::Warn);
            assert_eq!(entry.message, "Pipeline už beží; nový Start bol ignorovaný.");
            assert_eq!(entry.module.as_deref(), Some("engine"));
        }
        _ => panic!("expected a warning"),
    }
    assert!(core.is_running());
}

#[test]
fn finished_jobs_report_one_outcome() {
    let mut core = EngineCore::new();
    core.step(EngineInput::Command(Some(EngineCommand::Start(request()))));
    let actions = core.step(EngineInput::JobFinished(Some(Ok(request()))));
    assert_eq!(actions.len(), 1);
    assert!(matches!(&actions[0], EngineAction::Notify(EngineNotice::Completed { output_video }) if output_video == "output.mp4"));
    assert!(!core.is_running());

    core.step(EngineInput::Command(Some(EngineCommand::Start(request()))));
    let actions = core.step(EngineInput::JobFinished(Some(Err(EngineError::Planner(
        PlannerError::NotConfigured,
    )))));
    assert_eq!(actions.len(), 2);
    assert!(matches!(&actions[0], EngineAction::Notify(EngineNotice::StateChanged(PipelineState::Failed))));
    assert!(matches!(&actions[1], EngineAction::Notify(EngineNotice::Failed { message }) if message == "pipeline planner ešte nie je nakonfigurovaný"));

    core.step(EngineInput::Command(Some(EngineCommand::Start(request()))));
    let actions = core.step(EngineInput::JobFinished(None));
    assert!(matches!(&actions[1], EngineAction::Notify(EngineNotice::Failed { message }) if message == "Engine worker skončil bez výsledku."));
}

#[test]
fn shutdown_cancels_a_running_job_first() {
    let mut core = EngineCore::new();
    core.step(EngineInput::Command(Some(EngineCommand::Start(request()))));
    let actions = core.step(EngineInput::Command(None));
    assert_eq!(actions.len(), 2);
    assert!(matches!(actions[0], EngineAction::CancelJob));
    assert!(matches!(actions[1], EngineAction::AwaitJobAndStop));

    let mut idle = EngineCore::new();
    let actions = idle.step(EngineInput::Shutdown);
    assert_eq!(actions.len(), 1);
    assert!(matches!(actions[0], EngineAction::Stop));
}

#[test]
fn idle_engine_logs_ignored_commands() {
    let mut core = EngineCore::new();
    let actions = core.step(EngineInput::Command(Some(EngineCommand::Cancel)));
    assert!(matches!(&actions[0], EngineAction::Notify(EngineNotice::Log(e)) if e.message == "Cancel ignorovaný: pipeline je nečinná." && e.level == LogLevel::Debug));
    let actions = core.step(EngineInput::Command(Some(EngineCommand::UpdateTranslation {
        segment_id: 3,
        translated_text: "你好".to_owned(),
    })));
    assert!(matches!(&actions[0], EngineAction::Notify(EngineNotice::Log(e)) if e.message == "Úprava prekladu ignorovaná: pipeline je nečinná."));
    let actions = core.step(EngineInput::JobFinished(None));
    assert!(actions.is_empty());
}

#[test]
fn noop_planner_reports_failure() {
    let result = NoopPlanner.plan(&request());
    assert!(matches!(result, Err(PlannerError::NotConfigured)));
    assert!(matches!(PipelinePlan::new(Vec::new()).check_runnable(), Err(PlannerError::EmptyPlan)));
    assert!(PipelinePlan::default().is_empty());
}

#[test]
fn stage_transitions_are_checked() {
    assert_eq!(
        enter_stage(PipelineState::Idle, PipelineState::Transcribing).unwrap(),
        PipelineState::Transcribing
    );
    let error = enter_stage(PipelineState::Idle, PipelineState::Rendering).unwrap_err();
    assert_eq!(
        error.message(),
        "neplatný prechod stavu pipeline: Idle -> Rendering"
    );
    assert!(finish_stages(PipelineState::Rendering).is_ok());
    assert!(matches!(
        finish_stages(PipelineState::LipSyncing),
        Err(EngineError::InvalidStateTransition { from: PipelineState::LipSyncing, to: PipelineState::Completed })
    ));
}

#[test]
fn pipeline_outcome_combines_run_and_cleanup() {
    let remove_failed = || CleanupError::Remove {
        path: "/tmp/w".to_owned(),
        source: "busy".to_owned(),
    };
    assert!(settle_pipeline(Ok(PipelineState::Rendering), None).is_ok());
    assert!(settle_pipeline(Ok(PipelineState::Rendering), Some(Ok(()))).is_ok());
    assert!(matches!(
        settle_pipeline(Ok(PipelineState::Rendering), Some(Err(remove_failed()))),
        Err(EngineError::Cleanup(CleanupError::Remove { .. }))
    ));
    assert!(matches!(
        settle_pipeline(Err(EngineError::EventChannelClosed), Some(Ok(()))),
        Err(EngineError::EventChannelClosed)
    ));
    match settle_pipeline(Err(EngineError::EventChannelClosed), Some(Err(remove_failed()))) {
        Err(error @ EngineError::PipelineAndCleanup { .. }) => assert_eq!(
            error.message(),
            "pipeline zlyhala (event channel bol zatvorený) a cleanup tiež zlyhal (nepodarilo sa odstrániť dočasný workspace `/tmp/w`: busy)"
        ),
        _ => panic!("expected both failures"),
    }
}

#[test]
fn bounded_capture_cuts_at_character_boundaries() {
    let mut buffer = String::new();
    let mut truncated = false;
    append_bounded(&mut buffer, "hello", 10, &mut truncated);
    assert_eq!(buffer, "hello");
    assert!(!truncated);
    append_bounded(&mut buffer, "wörld", 10, &mut truncated);
    assert_eq!(buffer, "hello\nwö");
    assert!(truncated);
    append_bounded(&mut buffer, "x", 10, &mut truncated);
    assert_eq!(buffer, "hello\nwö");
    let mut zero = String::new();
    let mut zero_truncated = false;
    append_bounded(&mut zero, "x", 0, &mut zero_truncated);
    assert!(zero.is_empty());
    assert!(zero_truncated);
}

#[test]
fn full_capture_does_not_grow_on_an_empty_line() {
    let mut buffer = "abc".to_owned();
    let mut truncated = false;
    append_bounded(&mut buffer, "", 3, &mut truncated);
    assert_eq!(buffer, "abc");
    assert!(truncated);
    append_bounded(&mut buffer, "", 3, &mut truncated);
    assert_eq!(buffer, "abc");
    let mut roomy = "abc".to_owned();
    let mut roomy_truncated = false;
    append_bounded(&mut roomy, "", 4, &mut roomy_truncated);
    assert_eq!(roomy, "abc\n");
    assert!(!roomy_truncated);
}

#[test]
fn capture_finishes_with_the_process_outcome() {
    let mut capture = OutputCapture::new(64);
    assert!(capture.is_running());
    assert_eq!(capture.record_line(OutputStream::Stdout, "progress: 25%"), LogLevel::Debug);
    assert_eq!(capture.record_line(OutputStream::Stderr, "warning"), LogLevel::Warn);
    capture.record_closed(OutputStream::Stdout);
    capture.record_exit(true, "exit status: 0".to_owned());
    assert!(capture.is_running());
    capture.record_closed(OutputStream::Stderr);
    assert!(!capture.is_running());
    let (stdout, stderr) = capture.finish("test-process", false).unwrap();
    assert!(stdout.contains("progress: 25%"));
    assert!(stderr.contains("warning"));

    let mut failed = OutputCapture::new(64);
    failed.record_readers_gone();
    failed.record_exit(false, "exit status: 2".to_owned());
    match failed.finish("m", false) {
        Err(error @ ProcessError::Failed { .. }) => assert_eq!(
            error.message(),
            "modul `m` skončil s kódom exit status: 2; stdout: ; stderr: "
        ),
        _ => panic!("expected a failure"),
    }
    let mut cancelled = OutputCapture::new(64);
    cancelled.record_readers_gone();
    cancelled.record_exit(true, "exit status: 0".to_owned());
    assert!(matches!(cancelled.finish("m", true), Err(ProcessError::Cancelled { .. })));
}

#[test]
fn process_spec_builders() {
    let spec = ProcessSpec::new("test", "sh")
        .state(PipelineState::Translating)
        .arg("-c")
        .args(vec!["echo".to_owned(), "x".to_owned()])
        .current_dir("/tmp")
        .env("A", "1")
        .env("A", "2");
    assert_eq!(spec.args, vec!["-c", "echo", "x"]);
    assert_eq!(spec.state, PipelineState::Translating);
    assert_eq!(spec.current_dir.as_deref(), Some("/tmp"));
    assert_eq!(spec.environment.get("A"), Some(&"2".to_owned()));
    assert_eq!(OutputStream::Stderr.as_str(), "stderr");
    let error = ProcessError::MissingPipe { module: "m".to_owned(), stream: OutputStream::Stdout };
    assert_eq!(error.message(), "modul `m` nemá dostupný stdout pipe");
    assert_eq!(ProcessRunner::default().max_captured_output_bytes(), 1024 * 1024);
    assert_eq!(ProcessRunner::new(7).max_captured_output_bytes(), 7);
    let config = EngineConfig::default();
    assert_eq!(config.command_capacity, 32);
    assert_eq!(config.event_capacity, 256);
}

#[test]
fn progress_parsers_compile_their_patterns() {
    let parser = ProgressParser::percentage(PipelineState::Transcribing).unwrap();
    assert_eq!(parser.state(), PipelineState::Transcribing);
    assert_eq!(parser.value_kind(), ProgressValue::Percent);
    assert!(parser.regex().is_match("[whisper] progress: 42.5%"));
    assert!(!parser.regex().is_match("loading model"));
    let fraction = ProgressParser::fraction(PipelineState::Rendering).unwrap();
    assert_eq!(fraction.value_kind(), ProgressValue::Fraction);
    assert!(fraction.clone().regex().is_match("progress 0.5"));
    assert!(matches!(
        ProgressParser::new(PipelineState::Idle, "x", 0, ProgressValue::Percent),
        Err(ProgressParserError::InvalidCaptureGroup)
    ));
    match ProgressParser::new(PipelineState::Idle, "(", 1, ProgressValue::Percent) {
        Err(error @ ProgressParserError::InvalidRegex(_)) => {
            let text = error.message();
            assert!(text.starts_with("neplatný progress regex: "));
            assert!(text.len() > "neplatný progress regex: ".len());
        }
        _ => panic!("an unbalanced group must be refused"),
    }
}

#[test]
fn progress_text_finds_the_value_and_trims_the_line() {
    let parser = ProgressParser::percentage(PipelineState::Transcribing).unwrap();
    assert_eq!(
        parser.progress_text("  [whisper] progress: 42.5%  "),
        Some(("42.5".to_owned(), "[whisper] progress: 42.5%".to_owned()))
    );
    assert_eq!(parser.progress_text("loading model"), None);
    let fraction = ProgressParser::fraction(PipelineState::Rendering).unwrap();
    assert_eq!(
        fraction.clone().progress_text("ratio=0.75"),
        Some(("0.75".to_owned(), "ratio=0.75".to_owned()))
    );
    let custom = ProgressParser::new(PipelineState::Idle, "(a)|(b)", 2, ProgressValue::Fraction).unwrap();
    assert_eq!(custom.progress_text("a"), None);
    assert_eq!(custom.progress_text("b"), Some(("b".to_owned(), "b".to_owned())));
}

#[test]
fn interruptions_end_with_their_own_error() {
    assert!(matches!(
        interrupted("m", Interruption::Cancelled, None),
        ProcessError::Cancelled { module } if module == "m"
    ));
    assert!(matches!(
        interrupted("m", Interruption::Cancelled, Some("denied".to_owned())),
        ProcessError::Kill { module, source } if module == "m" && source == "denied"
    ));
    assert!(matches!(
        interrupted(
            "m",
            Interruption::ReadFailed { stream: OutputStream::Stderr, source: "eof".to_owned() },
            Some("denied".to_owned())
        ),
        ProcessError::Read { module, stream: OutputStream::Stderr, source } if module == "m" && source == "eof"
    ));
    assert!(matches!(
        interrupted("m", Interruption::EventChannelClosed, Some("denied".to_owned())),
        ProcessError::EventChannelClosed { module } if module == "m"
    ));
    assert!(matches!(
        interrupted("m", Interruption::WaitFailed { source: "gone".to_owned() }, None),
        ProcessError::Wait { module, source } if module == "m" && source == "gone"
    ));
    assert!(Interruption::Cancelled.kills_process());
    assert!(!Interruption::WaitFailed { source: String::new() }.kills_process());
}
