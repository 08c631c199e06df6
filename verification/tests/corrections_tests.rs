use dictator::config::CorrectionsConfig;
use dictator::corrections::{
    normalize, resolve_dictionary_path, split_token, CandidateEntry, CorrectionEntry,
    CorrectionsDoc, CorrectionsManager,
};

#[test]
fn split_word_with_punctuation() {
    let (p, c, s) = split_token("\"GPU,");
    assert_eq!(p, "\"");
    assert_eq!(c, "GPU");
    assert_eq!(s, ",");
}

#[test]
fn normalize_unicode() {
    assert_eq!(normalize("ДжИПИУ!"), "джипиу");
    assert_eq!(normalize("GPU"), "gpu");
}

#[test]
fn split_token_without_core() {
    let (p, c, s) = split_token("...");
    assert_eq!(p, "");
    assert_eq!(c, "");
    assert_eq!(s, "...");
}

fn config(enabled: bool) -> CorrectionsConfig {
    CorrectionsConfig {
        enabled,
        auto_learn: true,
        min_auto_learn_repeats: 2,
        dictionary_path: None,
    }
}

fn manager(enabled: bool, entries: Vec<CorrectionEntry>) -> CorrectionsManager {
    let mut doc = CorrectionsDoc::new_empty();
    doc.entries = entries;
    CorrectionsManager::from_doc(&config(enabled), "dict.json".to_string(), doc)
}

#[test]
fn apply_replaces_core_and_keeps_punctuation() {
    let mut m = manager(
        true,
        vec![CorrectionEntry { from: "джипиу".to_string(), to: "GPU".to_string(), hits: 0 }],
    );
    let (out, count) = m.apply_counting("купил  ДжИПИУ, вчера");
    assert_eq!(out, "купил GPU, вчера");
    assert_eq!(count, 1);
    assert_eq!(m.doc.entries[0].hits, 1);
}

#[test]
fn apply_disabled_returns_text_unchanged() {
    let mut m = manager(
        false,
        vec![CorrectionEntry { from: "a".to_string(), to: "b".to_string(), hits: 0 }],
    );
    assert_eq!(m.apply("a  a"), "a  a");
}

#[test]
fn later_entries_win() {
    let mut m = manager(
        true,
        vec![
            CorrectionEntry { from: "x".to_string(), to: "one".to_string(), hits: 0 },
            CorrectionEntry { from: "X".to_string(), to: "two".to_string(), hits: 0 },
        ],
    );
    assert_eq!(m.apply("x"), "two");
}

#[test]
fn learning_promotes_after_repeats() {
    let mut m = manager(true, vec![]);
    assert!(m.learn_from_pair_changed("питон код", "python код"));
    assert_eq!(m.doc.auto_candidates.len(), 1);
    assert_eq!(m.doc.auto_candidates[0].count, 1);
    assert!(m.doc.entries.is_empty());
    m.learn_from_pair("питон", "python");
    assert_eq!(m.doc.auto_candidates[0].count, 2);
    assert_eq!(m.doc.entries.len(), 1);
    assert_eq!(m.doc.entries[0].from, "питон");
    assert_eq!(m.doc.entries[0].to, "python");
}

#[test]
fn learning_ignores_short_and_mismatched_pairs() {
    let mut m = manager(true, vec![]);
    assert!(!m.learn_from_pair_changed("ab", "cd"));
    assert!(!m.learn_from_pair_changed("one two", "one"));
    assert!(m.doc.auto_candidates.is_empty());
    let mut doc = CorrectionsDoc::new_empty();
    doc.auto_candidates = vec![CandidateEntry { from: "abc".into(), to: "xyz".into(), count: 7 }];
    let mut off = CorrectionsManager::from_doc(
        &CorrectionsConfig { auto_learn: false, ..config(true) },
        "d".into(),
        doc,
    );
    assert!(!off.learn_from_pair_changed("abc", "xyz"));
    assert_eq!(off.doc.auto_candidates[0].count, 7);
}

#[test]
fn dictionary_path_defaults_under_models_root() {
    let p = resolve_dictionary_path(&config(true), "/models");
    assert!(p.starts_with("/models"));
    assert!(p.ends_with("shared_corrections.v1.json"));
    let mut c = config(true);
    c.dictionary_path = Some("/x/dict.json".into());
    assert_eq!(resolve_dictionary_path(&c, "/models"), "/x/dict.json");
    assert_eq!(manager(true, vec![]).dictionary_path(), "dict.json");
}
