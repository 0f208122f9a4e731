use dabovanie_videi_v2::types::{CleanupPlan, LogLevel, PipelineState};

#[test]
fn pipeline_state_accepts_only_ordered_transitions() {
    assert!(PipelineState::Idle.can_transition_to(PipelineState::Transcribing));
    assert!(PipelineState::Rendering.can_transition_to(PipelineState::Completed));
    assert!(PipelineState::Translating.can_transition_to(PipelineState::Failed));
    assert!(PipelineState::Completed.can_transition_to(PipelineState::Idle));
    assert!(!PipelineState::Idle.can_transition_to(PipelineState::Rendering));
    assert!(!PipelineState::Completed.can_transition_to(PipelineState::Transcribing));
}

#[test]
fn every_state_may_repeat() {
    let states = [
        PipelineState::Idle,
        PipelineState::Transcribing,
        PipelineState::Translating,
        PipelineState::Synthesizing,
        PipelineState::LipSyncing,
        PipelineState::Rendering,
        PipelineState::Failed,
        PipelineState::Completed,
    ];
    for state in states {
        assert!(state.can_transition_to(state));
    }
    assert!(!PipelineState::Failed.can_transition_to(PipelineState::Completed));
    assert!(!PipelineState::Rendering.can_transition_to(PipelineState::LipSyncing));
    assert!(PipelineState::Idle.can_transition_to(PipelineState::Failed));
}

#[test]
fn terminal_states_and_labels() {
    assert!(PipelineState::Failed.is_terminal());
    assert!(PipelineState::Completed.is_terminal());
    assert!(!PipelineState::Rendering.is_terminal());
    assert_eq!(PipelineState::LipSyncing.label(), "Lip-syncing");
    assert_eq!(PipelineState::LipSyncing.debug_name(), "LipSyncing");
    assert_eq!(PipelineState::default(), PipelineState::Idle);
    assert_eq!(LogLevel::default(), LogLevel::Info);
}

#[test]
fn cleanup_follows_the_outcome() {
    let plan = CleanupPlan {
        allowed_root: "/tmp".to_owned(),
        workspace: "/tmp/job".to_owned(),
        on_success: true,
        on_failure: false,
    };
    assert!(plan.should_cleanup(true));
    assert!(!plan.should_cleanup(false));
}
