use dictator::engine::{join_segments, DecodeProfile};
use dictator::streaming::{LoopAction, LoopEvent, StreamingLoop, StreamingTranscriber};

fn woke(stop: bool) -> LoopEvent {
    LoopEvent::Woke { stop_requested: stop }
}

fn transcribed(text: &str) -> LoopEvent {
    LoopEvent::Transcribed { text: Some(text.to_string()) }
}

#[test]
fn streaming_chunk_duration_is_at_least_one_second() {
    assert_eq!(StreamingLoop::new(0).chunk_duration_secs, 1);
    assert_eq!(StreamingLoop::new(8).chunk_duration_secs, 8);
    let s = StreamingLoop::new(3);
    assert_eq!(s.accumulated, "");
    assert_eq!(s.last_processed, 0);
    assert!(!s.is_final);
}

#[test]
fn streaming_full_session_accumulates_and_finishes() {
    let mut s = StreamingLoop::new(3);
    assert_eq!(s.step(woke(false)), (None, LoopAction::ReadBuffer));
    // Less than a second of new audio: skipped.
    assert_eq!(s.step(LoopEvent::Buffer { len: 8000, start_idx: 0 }), (None, LoopAction::Wait));
    assert_eq!(s.step(woke(false)), (None, LoopAction::ReadBuffer));
    assert_eq!(
        s.step(LoopEvent::Buffer { len: 32000, start_idx: 0 }),
        (None, LoopAction::Transcribe { from: 0, to: 32000 })
    );
    assert_eq!(s.step(transcribed("hello")), (Some("hello".to_string()), LoopAction::Wait));
    assert_eq!(s.last_processed, 32000);
    // Stop: the last pass reads everything after what was processed.
    assert_eq!(s.step(woke(true)), (None, LoopAction::ReadBuffer));
    assert!(s.is_final);
    assert_eq!(
        s.step(LoopEvent::Buffer { len: 36000, start_idx: 0 }),
        (None, LoopAction::Transcribe { from: 32000, to: 36000 })
    );
    assert_eq!(
        s.step(transcribed("world")),
        (
            Some("hello world".to_string()),
            LoopAction::Finish { text: "hello world".to_string() }
        )
    );
}

#[test]
fn streaming_uses_recorder_start_index_when_inside_buffer() {
    let mut s = StreamingLoop::new(3);
    s.step(woke(false));
    assert_eq!(
        s.step(LoopEvent::Buffer { len: 48000, start_idx: 20000 }),
        (None, LoopAction::Transcribe { from: 20000, to: 48000 })
    );
}

#[test]
fn streaming_empty_or_failed_transcription_sends_nothing() {
    let mut s = StreamingLoop::new(3);
    s.step(woke(false));
    s.step(LoopEvent::Buffer { len: 16000, start_idx: 0 });
    assert_eq!(s.step(transcribed("")), (None, LoopAction::Wait));
    assert_eq!(s.last_processed, 16000);
    s.step(woke(false));
    s.step(LoopEvent::Buffer { len: 40000, start_idx: 16000 });
    assert_eq!(s.step(LoopEvent::Transcribed { text: None }), (None, LoopAction::Wait));
    assert_eq!(s.accumulated, "");
    assert_eq!(s.last_processed, 40000);
}

#[test]
fn streaming_last_pass_finishes_on_buffer_failure_or_nothing_left() {
    let mut s = StreamingLoop::new(3);
    assert_eq!(s.step(LoopEvent::BufferFailed), (None, LoopAction::Wait));
    s.step(woke(true));
    assert_eq!(
        s.step(LoopEvent::BufferFailed),
        (None, LoopAction::Finish { text: String::new() })
    );
    let mut t = StreamingLoop::new(3);
    t.step(woke(true));
    assert_eq!(
        t.step(LoopEvent::Buffer { len: 0, start_idx: 0 }),
        (None, LoopAction::Finish { text: String::new() })
    );
}

#[test]
fn engine_segments_are_trimmed_and_joined() {
    let segs = vec![" Hello ".to_string(), "   ".to_string(), String::new(), "world.\n".to_string()];
    assert_eq!(join_segments(&segs), "Hello world.");
    assert_eq!(join_segments(&[]), "");
    assert_ne!(DecodeProfile::Fast, DecodeProfile::Safe);
}

#[test]
fn streaming_second_start_spawns_nothing() {
    let mut t = StreamingTranscriber::new("ru".to_string(), 0);
    assert_eq!(t.chunk_duration_secs, 1);
    assert!(!t.is_active());
    let first = t.start().expect("the first start gives a worker loop");
    assert_eq!(first.chunk_duration_secs, 1);
    assert!(t.is_active());
    assert!(t.start().is_none());
    assert!(t.is_active());
    assert!(t.stop());
    assert!(t.stop_signal);
    assert!(!t.is_active());
    assert!(!t.stop());
    assert!(t.start().is_some());
    assert!(!t.stop_signal);
}

#[test]
fn streaming_final_text_is_last_partial() {
    let mut l = StreamingLoop::new(1);
    let mut partials: Vec<String> = Vec::new();
    let events = vec![
        woke(false),
        LoopEvent::Buffer { len: 16000, start_idx: 0 },
        transcribed("one"),
        woke(false),
        LoopEvent::Buffer { len: 32000, start_idx: 16000 },
        transcribed("two"),
        woke(true),
        LoopEvent::Buffer { len: 40000, start_idx: 32000 },
        transcribed(""),
    ];
    let mut last = None;
    for e in events {
        let (p, a) = l.step(e);
        if let Some(p) = p {
            partials.push(p);
        }
        last = Some(a);
    }
    assert_eq!(partials, vec!["one".to_string(), "one two".to_string()]);
    assert_eq!(last, Some(LoopAction::Finish { text: "one two".to_string() }));
}
