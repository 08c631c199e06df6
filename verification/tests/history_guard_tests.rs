use dictator::recent::{recent_recordings, DayRecordings};
use dictator::guard::{detect_transcript_degradation, normalize_guard_token, TranscriptDegradation};
use dictator::history::{
    build_history_menu_entries, id_timestamp, text_preview, HistoryManager, RecordingSummary,
};

#[test]
fn test_generate_id() {
    let id = HistoryManager::generate_id();
    assert!(!id.is_empty());
    assert!(id.parse::<u64>().is_ok());
}

#[test]
fn manager_paths() {
    let h = HistoryManager::from_dirs("/a".into(), "/t".into(), 7);
    assert_eq!(h.base_dir(), "/t");
    let p = h.recording_paths("2026-01-02", "123");
    assert!(p.audio_path.starts_with("/a") && p.audio_path.ends_with("123.wav"));
    assert!(p.text_path.starts_with("/t") && p.text_path.ends_with("123.txt"));
    assert!(p.meta_path.contains("2026-01-02") && p.meta_path.ends_with("123.json"));
}

#[test]
fn expired_days() {
    let h = HistoryManager::from_dirs("/a".into(), "/t".into(), 7);
    let names = vec!["2026-01-01".to_string(), "2026-02-01".to_string(), "2025-12-31".to_string()];
    assert_eq!(h.expired_day_folders(&names, "2026-01-01"), vec![0, 2]);
    let keep = HistoryManager::from_dirs("/a".into(), "/t".into(), 0);
    assert!(keep.expired_day_folders(&names, "2030-01-01").is_empty());
}

#[test]
fn previews_and_ids() {
    assert_eq!(text_preview("a\nb"), "a b");
    let long: String = "я".repeat(150);
    assert_eq!(text_preview(&long).chars().count(), 100);
    assert_eq!(id_timestamp("1700000000"), 1_700_000_000);
    assert_eq!(id_timestamp("abc"), 0);
}

#[test]
fn history_menu_labels() {
    let recs = vec![
        RecordingSummary { id: "1".into(), datetime: "2026-01-02 13:45:10".into(), text_preview: "short".into() },
        RecordingSummary { id: "2".into(), datetime: "bad".into(), text_preview: "x".repeat(40) },
    ];
    let entries = build_history_menu_entries(&recs, 1100);
    assert_eq!(entries[0].id, 1100);
    assert_eq!(entries[0].label, "[13:45] short");
    assert_eq!(entries[0].recording_id, "1");
    assert_eq!(entries[1].id, 1101);
    assert_eq!(entries[1].label, format!("[--:--] {}...", "x".repeat(30)));
}

#[test]
fn guard_tokens_normalize() {
    assert_eq!(normalize_guard_token("Hello,"), "hello");
    assert_eq!(normalize_guard_token("—"), "");
}

#[test]
fn short_transcripts_are_not_flagged() {
    let text = "да ".repeat(219);
    assert_eq!(detect_transcript_degradation(&text), None);
}

#[test]
fn repeated_token_runs_are_flagged() {
    let mut words: Vec<String> = (0..300).map(|i| format!("w{}", i)).collect();
    for i in 100..108 {
        words[i] = "same".to_string();
    }
    let text = words.join(" ");
    assert_eq!(detect_transcript_degradation(&text), Some(TranscriptDegradation::SameTokenRun { run: 8 }));
}

#[test]
fn looping_tails_are_flagged() {
    let text = "one two three ".repeat(100);
    match detect_transcript_degradation(&text) {
        Some(TranscriptDegradation::LowTailUniqueness { unique_tokens, window, trigram_total, .. }) => {
            assert_eq!(unique_tokens, 3);
            assert_eq!(window, 300);
            assert_eq!(trigram_total, 298);
        }
        other => panic!("unexpected verdict {:?}", other),
    }
    let varied: Vec<String> = (0..400).map(|i| format!("t{}", i)).collect();
    assert_eq!(detect_transcript_degradation(&varied.join(" ")), None);
}

fn day(name: &str, stamps: &[u64]) -> DayRecordings {
    DayRecordings { name: name.to_string(), timestamps: stamps.to_vec() }
}

#[test]
fn recent_recordings_newest_day_and_recording_first() {
    let days = vec![
        day("2024-01-02", &[5, 9, 7]),
        day("2024-01-03", &[1]),
        day("2024-01-01", &[3, 3]),
    ];
    assert_eq!(
        recent_recordings(&days, 10),
        vec![(1, 0), (0, 1), (0, 2), (0, 0), (2, 0), (2, 1)]
    );
    assert_eq!(recent_recordings(&days, 3), vec![(1, 0), (0, 1), (0, 2)]);
    assert_eq!(recent_recordings(&days, 0), vec![]);
    assert_eq!(recent_recordings(&vec![], 5), vec![]);
}

#[test]
fn today_subdir_is_a_date() {
    let h = HistoryManager::from_dirs("/a".to_string(), "/t".to_string(), 30);
    let d = h.today_subdir().expect("the clock reads after 1970");
    assert_eq!(d.len(), 10);
    assert_eq!(&d[4..5], "-");
    assert_eq!(&d[7..8], "-");
    assert!(d.chars().filter(|c| *c != '-').all(|c| c.is_ascii_digit()));
}

#[test]
fn day_folders_expire_against_today() {
    let names = vec!["1999-01-01".to_string(), "2999-01-01".to_string(), "notes".to_string()];
    let keep_all = HistoryManager::from_dirs("/a".to_string(), "/t".to_string(), 0);
    assert_eq!(keep_all.expired_day_folders_today(&names), Vec::<usize>::new());
    let month = HistoryManager::from_dirs("/a".to_string(), "/t".to_string(), 30);
    assert_eq!(month.expired_day_folders_today(&names), vec![0]);
}

#[test]
fn same_token_run_reason_text() {
    assert_eq!(dictator::guard::same_token_run_message(7), "same_token_run=7");
    assert_eq!(dictator::guard::same_token_run_message(120), "same_token_run=120");
}
