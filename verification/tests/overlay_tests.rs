use dictator::overlay::{
    last_lines, overlay_layout, overlay_position, LayoutRect, OverlayCommand, OverlayConfig, OverlayEffects, OverlayModel,
    ScreenPoint,
};

#[test]
fn overlay_default_config() {
    let c = OverlayConfig::default();
    assert_eq!((c.width, c.height, c.font_size), (900, 120, 24));
    assert_eq!(c.text_color, (245, 245, 245));
    assert_eq!(c.bg_color, (28, 28, 30, 245));
}

#[test]
fn overlay_last_lines_wraps_and_keeps_the_tail() {
    assert_eq!(last_lines("one two three four", 2, 9), "three\nfour");
    assert_eq!(last_lines("one two three four", 5, 9), "one two\nthree\nfour");
    assert_eq!(last_lines("  one   two  ", 3, 75), "one two");
}

#[test]
fn overlay_last_lines_edge_cases() {
    assert_eq!(last_lines("", 3, 75), "");
    assert_eq!(last_lines("a  b", 0, 10), "a  b");
    assert_eq!(last_lines("   ", 3, 75), "");
    // A word longer than the width gets a line of its own.
    assert_eq!(last_lines("supercalifragilistic ok", 5, 4), "supercalifragilistic\nok");
}

#[test]
fn overlay_last_lines_counts_bytes() {
    // "привет" is 12 bytes, "мир" 6.
    assert_eq!(last_lines("привет мир", 3, 12), "привет\nмир");
    assert_eq!(last_lines("привет мир", 3, 19), "привет мир");
}

#[test]
fn overlay_position_above_cursor_and_on_screen() {
    assert_eq!(overlay_position(500, 500, 900, 120, 1920, 1080), (50, 370));
    // Too far left and no room above: left margin, below the cursor.
    assert_eq!(overlay_position(100, 50, 900, 120, 1920, 1080), (10, 60));
    // Too far right.
    assert_eq!(overlay_position(1900, 1075, 900, 120, 1920, 1080), (1010, 945));
    // Below the cursor would run past the bottom: lifted.
    assert_eq!(overlay_position(500, 100, 900, 120, 1920, 200), (50, 70));
    // Odd negative widths halve toward zero.
    assert_eq!(overlay_position(0, 500, -3, 120, 1920, 1080), (1, 370));
}

fn fx(set_visible: Option<bool>, show_native: Option<bool>, redraw: bool) -> OverlayEffects {
    OverlayEffects { set_visible, show_native, redraw, move_to: None, exit: false }
}

#[test]
fn overlay_model_recording_cycle() {
    let mut m = OverlayModel::new();
    assert!(!m.visible);
    assert_eq!(m.position, ScreenPoint { x: 100, y: 100 });
    assert_eq!(m.apply(OverlayCommand::SetRecording(true)), fx(Some(true), Some(true), true));
    assert!(m.visible && m.is_recording);
    assert_eq!(m.waveform_bars, vec![0u32; 20]);
    for i in 1..=25u32 {
        m.apply(OverlayCommand::WaveformUpdate(i));
    }
    assert_eq!(m.waveform_bars.len(), 20);
    assert_eq!(m.waveform_bars[0], 6);
    assert_eq!(m.waveform_bars[19], 25);
    assert_eq!(m.apply(OverlayCommand::AnimationTick), fx(None, None, true));
    assert_eq!(m.recording_frame, 1);
    assert_eq!(m.apply(OverlayCommand::SetRecording(false)), fx(None, Some(false), true));
    assert!(m.waveform_bars.is_empty());
    assert_eq!(m.recording_frame, 0);
    assert_eq!(m.apply(OverlayCommand::AnimationTick), fx(None, None, false));
    assert_eq!(m.recording_frame, 0);
    // Amplitudes arriving while not recording are dropped.
    m.apply(OverlayCommand::WaveformUpdate(7));
    assert!(m.waveform_bars.is_empty());
}

#[test]
fn overlay_model_texts_and_visibility() {
    let mut m = OverlayModel::new();
    m.apply(OverlayCommand::UpdateStatusText("Transcribing...".into()));
    assert!(m.visible);
    assert_eq!(m.status_text, "Transcribing...");
    assert_eq!(m.apply(OverlayCommand::Show("done".into())), fx(Some(true), Some(true), true));
    assert_eq!(m.status_text, "");
    assert_eq!(m.body_text, "done");
    assert_eq!(m.apply(OverlayCommand::Hide), fx(Some(false), Some(false), false));
    assert!(!m.visible);
    let e = m.apply(OverlayCommand::SetPosition(5, -3));
    assert_eq!(e.move_to, Some(ScreenPoint { x: 5, y: -3 }));
    assert_eq!(m.position, ScreenPoint { x: 5, y: -3 });
    assert!(m.apply(OverlayCommand::Shutdown).exit);
}

#[test]
fn overlay_layout_recording_with_status() {
    let l = overlay_layout(900, 120, true, true);
    assert_eq!(l.left_margin, 75);
    assert_eq!(l.status, LayoutRect { left: 75, top: 8, right: 890, bottom: 38 });
    assert_eq!(l.body, LayoutRect { left: 75, top: 42, right: 890, bottom: 110 });
    assert_eq!(l.bar_center_y, 60);
    assert_eq!(l.bar_max_half, 52);
}

#[test]
fn overlay_layout_idle_without_status() {
    let l = overlay_layout(900, 120, false, false);
    assert_eq!(l.left_margin, 20);
    assert_eq!(l.body, LayoutRect { left: 20, top: 10, right: 890, bottom: 110 });
    let small = overlay_layout(100, 20, true, false);
    assert_eq!(small.bar_center_y, 10);
    assert_eq!(small.bar_max_half, 4);
}
