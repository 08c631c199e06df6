use dictator::input::{unicode_input_batches, utf16_units, UnicodeKey};
use dictator::input::accepted_event;
use dictator::config::InjectionMethod;
use dictator::input::{
    inject_text, process_hotkey_event, HotkeyEvent, HotkeyListenerState, InjectionPlan,
    TARGET_VK,
};
use dictator::tray::{
    handle_tray_command, is_ollama_enabled, is_streaming_enabled, model_menu_items,
    set_ollama_enabled, set_streaming_chunk_seconds, set_streaming_enabled, should_exit,
    streaming_chunk_seconds, tray_menu, HistoryMenuEntry, ModelCandidate, ModelMenuItem,
    TrayAction, TrayMenuItem, TrayState,
};

const MS: u64 = 1_000_000;

#[test]
fn tap_then_tap_toggles_recording() {
    let mut s = HotkeyListenerState::new();
    assert_eq!(process_hotkey_event(&mut s, TARGET_VK, false, 0, 7), (true, Some(HotkeyEvent::RecordStart { hwnd: 7 })));
    assert_eq!(process_hotkey_event(&mut s, TARGET_VK, true, 120 * MS, 7), (true, None));
    assert!(s.is_toggle_recording);
    assert_eq!(process_hotkey_event(&mut s, TARGET_VK, false, 2000 * MS, 9), (true, Some(HotkeyEvent::RecordStop { hwnd: 9 })));
    assert_eq!(process_hotkey_event(&mut s, TARGET_VK, true, 2100 * MS, 9), (true, None));
    assert_eq!(s, HotkeyListenerState::new());
}

#[test]
fn hold_is_push_to_talk() {
    let mut s = HotkeyListenerState::new();
    assert_eq!(process_hotkey_event(&mut s, TARGET_VK, false, 0, 1), (true, Some(HotkeyEvent::RecordStart { hwnd: 1 })));
    assert_eq!(process_hotkey_event(&mut s, TARGET_VK, false, 100 * MS, 1), (true, None));
    assert_eq!(process_hotkey_event(&mut s, TARGET_VK, true, 301 * MS, 2), (true, Some(HotkeyEvent::RecordStop { hwnd: 2 })));
    assert_eq!(s, HotkeyListenerState::new());
}

#[test]
fn threshold_release_is_a_tap() {
    let mut s = HotkeyListenerState::new();
    process_hotkey_event(&mut s, TARGET_VK, false, 0, 1);
    assert_eq!(process_hotkey_event(&mut s, TARGET_VK, true, 300 * MS, 1), (true, None));
    assert!(s.is_toggle_recording);
}

#[test]
fn other_keys_pass_through() {
    let mut s = HotkeyListenerState::new();
    assert_eq!(process_hotkey_event(&mut s, 0x41, false, 0, 1), (false, None));
    assert_eq!(process_hotkey_event(&mut s, TARGET_VK, true, 0, 1), (true, None));
    assert_eq!(s, HotkeyListenerState::new());
}

#[test]
fn injection_routes() {
    assert_eq!(inject_text("", &InjectionMethod::ClipboardEnter), InjectionPlan::Skip);
    assert_eq!(inject_text("hello", &InjectionMethod::Direct), InjectionPlan::UnicodeInput);
    let long = "ы".repeat(251);
    assert_eq!(inject_text(&long, &InjectionMethod::Direct), InjectionPlan::Clipboard { send_enter: false });
    let edge = "a".repeat(500);
    assert_eq!(inject_text(&edge, &InjectionMethod::Direct), InjectionPlan::UnicodeInput);
    assert_eq!(inject_text("x", &InjectionMethod::Clipboard), InjectionPlan::Clipboard { send_enter: false });
    assert_eq!(inject_text("x", &InjectionMethod::ClipboardEnter), InjectionPlan::Clipboard { send_enter: true });
}

#[test]
fn tray_toggles() {
    let mut s = TrayState::new();
    assert!(!is_streaming_enabled(&s));
    assert_eq!(streaming_chunk_seconds(&s), 15);
    set_streaming_enabled(&mut s, true);
    assert!(is_streaming_enabled(&s));
    set_streaming_chunk_seconds(&mut s, 8);
    assert_eq!(streaming_chunk_seconds(&s), 8);
    set_streaming_chunk_seconds(&mut s, 5);
    assert_eq!(streaming_chunk_seconds(&s), 15);
    set_ollama_enabled(&mut s, true);
    assert!(is_ollama_enabled(&s));
    assert!(!should_exit(&s));
}

#[test]
fn tray_commands() {
    let mut s = TrayState::new();
    assert_eq!(handle_tray_command(&mut s, 1003), TrayAction::Nothing);
    assert_eq!(s.streaming_chunk_seconds, 3);
    assert_eq!(handle_tray_command(&mut s, 1002), TrayAction::Nothing);
    assert!(s.streaming_enabled);
    assert_eq!(handle_tray_command(&mut s, 1105), TrayAction::CopyHistoryEntry(5));
    assert_eq!(handle_tray_command(&mut s, 1201), TrayAction::SelectModel(1));
    assert_eq!(handle_tray_command(&mut s, 1008), TrayAction::OpenConfigFile);
    assert_eq!(handle_tray_command(&mut s, 1007), TrayAction::Nothing);
    assert!(s.ollama_enabled);
    assert_eq!(handle_tray_command(&mut s, 42), TrayAction::Nothing);
    assert_eq!(handle_tray_command(&mut s, 1001), TrayAction::Quit);
    assert!(should_exit(&s));
}

fn labels(items: &[TrayMenuItem]) -> Vec<String> {
    items
        .iter()
        .map(|i| match i {
            TrayMenuItem::Separator => "-".to_string(),
            TrayMenuItem::Entry { id, label, checked, grayed } => {
                format!("{}:{}{}{}", id, label, if *checked { "*" } else { "" }, if *grayed { "~" } else { "" })
            }
        })
        .collect()
}

#[test]
fn tray_menu_layout() {
    let s = TrayState::new();
    let empty = tray_menu(&s, &[], &[]);
    assert_eq!(
        labels(&empty),
        vec![
            "1002:Streaming", "1003:Chunk: 3s", "1004:Chunk: 8s", "1005:Chunk: 15s*",
            "1007:LLM Correction (Ollama)", "-", "0:Model: (not configured)~", "-",
            "0:No recent recordings~", "-", "1006:Open Recordings Folder", "1008:Open Config File",
            "-", "1001:Exit",
        ]
    );
    let models = vec![ModelMenuItem { index: 1, name: "base".into(), is_current: true, size_label: " (1.00 MB)".into() }];
    let history: Vec<HistoryMenuEntry> = (0..12).map(|i| HistoryMenuEntry { id: i, label: format!("h{}", i) }).collect();
    let menu = labels(&tray_menu(&s, &models, &history));
    assert_eq!(menu[6], "1201:base (1.00 MB)*");
    assert_eq!(menu[8], "0:Recent (click to copy):");
    assert_eq!(menu[9], "1100:h0");
    assert_eq!(menu[18], "1109:h9");
    assert_eq!(menu[19], "-");
}

#[test]
fn model_menu_sorted_and_marked() {
    let cands = vec![
        ModelCandidate { name: "small".into(), path: "C:/m/ggml-small.bin".into(), size_label: "".into() },
        ModelCandidate { name: "base".into(), path: "C:\\M\\GGML-BASE.BIN".into(), size_label: " (1.00 MB)".into() },
    ];
    let items = model_menu_items(&cands, "c:/m/ggml-base.bin");
    assert_eq!(items.len(), 2);
    assert_eq!(items[0].name, "base");
    assert_eq!(items[0].index, 0);
    assert!(items[0].is_current);
    assert_eq!(items[1].name, "small");
    assert_eq!(items[1].index, 1);
    assert!(!items[1].is_current);
}

#[test]
fn hotkey_is_right_ctrl() {
    assert_eq!(TARGET_VK, 0xA3);
}

#[test]
fn remote_and_repeated_events_resolve_against_recording_state() {
    assert_eq!(accepted_event(HotkeyEvent::RemoteToggle, false, 5), Some(HotkeyEvent::RecordStart { hwnd: 5 }));
    assert_eq!(accepted_event(HotkeyEvent::RemoteToggle, true, 5), Some(HotkeyEvent::RecordStop { hwnd: 5 }));
    assert_eq!(accepted_event(HotkeyEvent::RemoteStop, false, 5), None);
    assert_eq!(accepted_event(HotkeyEvent::RemoteStop, true, 5), Some(HotkeyEvent::RecordStop { hwnd: 5 }));
    assert_eq!(accepted_event(HotkeyEvent::RecordStart { hwnd: 1 }, true, 5), None);
    assert_eq!(accepted_event(HotkeyEvent::RecordStart { hwnd: 1 }, false, 5), Some(HotkeyEvent::RecordStart { hwnd: 1 }));
    assert_eq!(accepted_event(HotkeyEvent::RecordStop { hwnd: 1 }, false, 5), None);
}

#[test]
fn unicode_input_is_utf16_in_batches_of_thirty() {
    let text = "aé€😀";
    let expected: Vec<u16> = text.encode_utf16().collect();
    assert_eq!(utf16_units(text), expected);
    let batches = unicode_input_batches(text);
    assert_eq!(batches.len(), 1);
    assert_eq!(batches[0].len(), 2 * expected.len());
    assert_eq!(batches[0][0], UnicodeKey { unit: 'a' as u16, key_up: false });
    assert_eq!(batches[0][1], UnicodeKey { unit: 'a' as u16, key_up: true });
    let long: String = std::iter::repeat('x').take(61).collect();
    let b = unicode_input_batches(&long);
    assert_eq!(b.iter().map(|x| x.len()).collect::<Vec<_>>(), vec![60, 60, 2]);
    assert!(unicode_input_batches("").is_empty());
}
