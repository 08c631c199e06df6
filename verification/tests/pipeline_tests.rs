use dictator::pipeline::{
    confirmation_seconds, failed_recording_text, history_mode, inserted_summary, normalize_transcript, stage_name, PolicyAction, PolicyEvent, PolicyFailure, PolicyRun, PolicyStage,
};

fn begin(text: &str) -> PolicyEvent {
    PolicyEvent::Begin { streamed_text: text.to_string() }
}

fn transcribed(text: Option<&str>) -> PolicyEvent {
    PolicyEvent::Transcribed { text: text.map(|t| t.to_string()) }
}

fn deliver(text: &str) -> PolicyAction {
    PolicyAction::Deliver { text: text.to_string() }
}

fn degraded() -> String {
    vec!["la"; 250].join(" ")
}

#[test]
fn pipeline_normalizes_whitespace() {
    assert_eq!(normalize_transcript("  hello \n\t world  "), "hello world");
    assert_eq!(normalize_transcript("   "), "");
}

#[test]
fn pipeline_embedded_happy_path() {
    let mut run = PolicyRun::new(true, false, false);
    assert_eq!(run.step(begin("")), PolicyAction::Transcribe { embedded: true });
    assert_eq!(run.step(transcribed(Some("  hello   world "))), deliver("hello world"));
    assert_eq!(run.stage, PolicyStage::EmbeddedPrimary);
    assert_eq!(stage_name(run.stage), "embedded_primary");
    assert_eq!(run.retry_count, 0);
}

#[test]
fn pipeline_streamed_text_skips_transcription() {
    let mut run = PolicyRun::new(false, true, true);
    assert_eq!(run.step(begin("streamed   text")), deliver("streamed text"));
    assert_eq!(stage_name(run.stage), "server_primary");
}

#[test]
fn pipeline_server_start_failure_recovers_on_local_model() {
    let mut run = PolicyRun::new(false, true, false);
    assert_eq!(run.step(begin("")), PolicyAction::EnsureServer);
    assert_eq!(run.step(PolicyEvent::ServerReady { ok: false }), PolicyAction::RecoverFromServerStart);
    assert_eq!(
        run.step(PolicyEvent::FallbackSwitched { switched: true }),
        PolicyAction::Transcribe { embedded: true }
    );
    assert_eq!(stage_name(run.stage), "embedded_recovery_after_server_start_fail");
    assert_eq!(run.retry_count, 1);
    assert_eq!(run.step(transcribed(None)), PolicyAction::Fail { failure: PolicyFailure::ServerFailed });
}

#[test]
fn pipeline_server_start_failure_without_fallback_fails() {
    let mut run = PolicyRun::new(false, false, false);
    run.step(begin(""));
    run.step(PolicyEvent::ServerReady { ok: false });
    let a = run.step(PolicyEvent::FallbackSwitched { switched: false });
    assert_eq!(a, PolicyAction::Fail { failure: PolicyFailure::ServerStartFailed });
    assert_eq!(PolicyFailure::ServerStartFailed.reason(), "server startup error");
    assert_eq!(PolicyFailure::ServerStartFailed.stage(), "server_start_failed");
}

#[test]
fn pipeline_embedded_failure_retries_on_fallback_model() {
    let mut run = PolicyRun::new(true, false, false);
    run.step(begin(""));
    assert_eq!(run.step(transcribed(None)), PolicyAction::SwitchFallbackModel);
    assert_eq!(run.step(PolicyEvent::FallbackSwitched { switched: true }), PolicyAction::RetryOnFallbackModel);
    assert_eq!(run.step(transcribed(Some("ok"))), deliver("ok"));
    assert_eq!(stage_name(run.stage), "embedded_model_retry");
    assert_eq!(run.retry_count, 1);
}

#[test]
fn pipeline_failed_retry_goes_to_server_fallback() {
    let mut run = PolicyRun::new(true, true, false);
    run.step(begin(""));
    run.step(transcribed(None));
    run.step(PolicyEvent::FallbackSwitched { switched: true });
    assert_eq!(run.step(transcribed(None)), PolicyAction::ServerFallback);
    let f = PolicyFailure::EmbeddedRetryFailed { server_tried: true };
    assert_eq!(run.step(PolicyEvent::ServerFallbackResult { text: None }), PolicyAction::Fail { failure: f });
    assert_eq!(f.reason(), "embedded retry failed and server fallback unavailable");
    assert_eq!(f.stage(), "embedded_retry_failed");
}

#[test]
fn pipeline_no_fallback_model_uses_server_or_fails() {
    let mut run = PolicyRun::new(true, true, false);
    run.step(begin(""));
    run.step(transcribed(None));
    assert_eq!(run.step(PolicyEvent::FallbackSwitched { switched: false }), PolicyAction::ServerFallback);
    assert_eq!(
        run.step(PolicyEvent::ServerFallbackResult { text: Some("from  server".to_string()) }),
        deliver("from server")
    );
    assert_eq!(stage_name(run.stage), "server_fallback");
    assert!(run.server_fallback_used);

    let mut off = PolicyRun::new(true, false, false);
    off.step(begin(""));
    off.step(transcribed(None));
    assert_eq!(
        off.step(PolicyEvent::FallbackSwitched { switched: false }),
        PolicyAction::Fail { failure: PolicyFailure::EmbeddedFailed }
    );
    assert_eq!(PolicyFailure::EmbeddedFailed.reason(), "embedded transcription failed");
}

#[test]
fn pipeline_empty_transcript_is_no_text() {
    let mut run = PolicyRun::new(true, false, false);
    run.step(begin(""));
    assert_eq!(run.step(transcribed(Some(" \n "))), PolicyAction::NoText);
}

#[test]
fn pipeline_quality_guard_retries_with_safe_profile() {
    let mut run = PolicyRun::new(true, false, false);
    run.step(begin(""));
    assert_eq!(run.step(transcribed(Some(&degraded()))), PolicyAction::RetrySafeProfile);
    assert_eq!(
        run.step(PolicyEvent::SafeRetried { text: Some("clean  text".to_string()) }),
        deliver("clean text")
    );
    assert_eq!(stage_name(run.stage), "embedded_quality_guard_retry");
    assert_eq!(run.retry_count, 1);
}

#[test]
fn pipeline_quality_guard_server_fallback_and_streaming() {
    let mut run = PolicyRun::new(true, true, false);
    run.step(begin(""));
    run.step(transcribed(Some(&degraded())));
    assert_eq!(
        run.step(PolicyEvent::SafeRetried { text: Some(degraded()) }),
        PolicyAction::ServerFallback
    );
    assert_eq!(
        run.step(PolicyEvent::ServerFallbackResult { text: Some(" fixed ".to_string()) }),
        deliver("fixed")
    );
    assert_eq!(stage_name(run.stage), "server_fallback_quality_guard");

    // Streaming on: no quality guard.
    let mut streaming = PolicyRun::new(true, false, true);
    streaming.step(begin(""));
    assert_eq!(streaming.step(transcribed(Some(&degraded()))), deliver(&degraded()));

    // Safe profile failed: the first transcript stands.
    let mut failed = PolicyRun::new(true, false, false);
    failed.step(begin(""));
    failed.step(transcribed(Some(&degraded())));
    assert_eq!(failed.step(PolicyEvent::SafeRetried { text: None }), deliver(&degraded()));
}

#[test]
fn pipeline_filing_and_summary_texts() {
    assert_eq!(history_mode(true, "embedded_primary"), "streaming|embedded_primary");
    assert_eq!(history_mode(false, "server_failed"), "full|server_failed");
    assert_eq!(
        failed_recording_text(PolicyFailure::ServerFailed),
        "[Transcription failed] server transcription failed"
    );
    assert_eq!(confirmation_seconds(0), 1);
    assert_eq!(confirmation_seconds(3), 3);
    assert_eq!(confirmation_seconds(60), 15);
    assert_eq!(inserted_summary("привет мир"), "Inserted: 2 words | 10 chars\nпривет мир");
    let long: Vec<String> = (1..=20).map(|i| format!("w{}", i)).collect();
    let text = long.join(" ");
    let expected_preview = long[..16].join(" ");
    assert_eq!(
        inserted_summary(&text),
        format!("Inserted: 20 words | {} chars\n{}...", text.chars().count(), expected_preview)
    );
}
