//! Layout decisions of the recording overlay: its configuration, where it
//! goes relative to the cursor, and which lines of the transcript it shows.
//! Drawing and the window itself are the caller's.

use vstd::prelude::*;
use crate::corrections::{utf8_len, utf8_width};
use crate::hardware::owned;
use crate::text::{chars_of, join, push_chars, split_whitespace, split_ws, string_from_chars, views};

verus! {

/// Size, font and colours of the overlay window.
#[derive(Debug, Clone, Copy)]
pub struct OverlayConfig {
    pub width: u32,
    pub height: u32,
    pub font_size: i32,
    pub text_color: (u8, u8, u8),
    pub bg_color: (u8, u8, u8, u8),
}

impl Default for OverlayConfig {
    /// 900×120 pixels, 24-point text, light text on a nearly opaque dark
    /// background.
    fn default() -> (r: Self)
        ensures
            r.width == 900,
            r.height == 120,
            r.font_size == 24,
            r.text_color == (245u8, 245u8, 245u8),
            r.bg_color == (28u8, 28u8, 30u8, 245u8),
    {
        OverlayConfig {
            width: 900,
            height: 120,
            font_size: 24,
            text_color: (245, 245, 245),
            bg_color: (28, 28, 30, 245),
        }
    }
}

// ---------------------------------------------------------------------------
// Placement.
// ---------------------------------------------------------------------------

/// Gap between the cursor and the overlay, and margin kept from the screen
/// edges.
pub const CURSOR_OFFSET: i32 = 10;

pub open spec fn i32_fits(v: int) -> bool {
    i32::MIN <= v <= i32::MAX
}

/// Half of `w`, rounded toward zero (`i32` division by two).
pub open spec fn half_toward_zero(w: int) -> int {
    if w >= 0 {
        w / 2
    } else {
        -((-w) / 2)
    }
}

/// Where the overlay goes for a cursor at `(cx, cy)`: centred above the
/// cursor; pulled back inside the screen horizontally (10 pixels from the
/// edge); below the cursor when there is no room above; and lifted so that
/// it does not run past the bottom of the screen.
pub open spec fn overlay_placement(cx: int, cy: int, width: int, height: int, sw: int, sh: int) -> (
    int,
    int,
) {
    let x0 = cx - half_toward_zero(width);
    let x = if x0 < 0 {
        10
    } else if x0 + width > sw {
        sw - width - 10
    } else {
        x0
    };
    let y0 = cy - height - 10;
    let y1 = if y0 < 0 {
        cy + 10
    } else {
        y0
    };
    let y = if y1 + height > sh {
        sh - height - 10
    } else {
        y1
    };
    (x, y)
}

/// Every `i32` operation that the placement makes stays in range.
pub open spec fn placement_in_range(cx: int, cy: int, width: int, height: int, sw: int, sh: int) -> bool {
    let x0 = cx - half_toward_zero(width);
    let y0 = cy - height - 10;
    let y1 = if y0 < 0 {
        cy + 10
    } else {
        y0
    };
    &&& i32_fits(x0)
    &&& i32_fits(cy - height)
    &&& i32_fits(y0)
    &&& x0 >= 0 ==> i32_fits(x0 + width)
    &&& x0 >= 0 && x0 + width > sw ==> i32_fits(sw - width) && i32_fits(sw - width - 10)
    &&& y0 < 0 ==> i32_fits(cy + 10)
    &&& i32_fits(y1 + height)
    &&& y1 + height > sh ==> i32_fits(sh - height) && i32_fits(sh - height - 10)
}

/// The overlay's position for a cursor at `(cursor_x, cursor_y)` on a screen
/// of `screen_width` × `screen_height`, for an overlay of `width` × `height`.
pub fn overlay_position(
    cursor_x: i32,
    cursor_y: i32,
    width: i32,
    height: i32,
    screen_width: i32,
    screen_height: i32,
) -> (r: (i32, i32))
    requires
        placement_in_range(
            cursor_x as int,
            cursor_y as int,
            width as int,
            height as int,
            screen_width as int,
            screen_height as int,
        ),
    ensures
        (r.0 as int, r.1 as int) == overlay_placement(
            cursor_x as int,
            cursor_y as int,
            width as int,
            height as int,
            screen_width as int,
            screen_height as int,
        ),
{
    let half: i32 = if width >= 0 {
        width / 2
    } else {
        let w: i64 = width as i64;
        let h: i64 = -((-w) / 2);
        h as i32
    };
    let mut x = cursor_x - half;
    let mut y = cursor_y - height - CURSOR_OFFSET;
    if x < 0 {
        x = 10;
    } else if x + width > screen_width {
        x = screen_width - width - 10;
    }
    if y < 0 {
        y = cursor_y + CURSOR_OFFSET;
    }
    if y + height > screen_height {
        y = screen_height - height - 10;
    }
    (x, y)
}

/// The overlay never runs past the bottom of the screen, and on a screen
/// wide enough for it and two margins it lies within the screen
/// horizontally.
pub proof fn lemma_placement_on_screen(cx: int, cy: int, width: int, height: int, sw: int, sh: int)
    ensures
        overlay_placement(cx, cy, width, height, sw, sh).1 + height <= sh,
        width >= 0 && width + 20 <= sw ==> {
            let x = overlay_placement(cx, cy, width, height, sw, sh).0;
            0 <= x && x + width <= sw
        },
{
}

// ---------------------------------------------------------------------------
// Visible transcript lines.
// ---------------------------------------------------------------------------

/// Words wrapped into lines of at most `max` bytes (a single longer word
/// gets a line of its own): the finished lines and the line being filled.
pub open spec fn wrap_words(words: Seq<Seq<char>>, max: nat) -> (Seq<Seq<char>>, Seq<char>)
    decreases words.len(),
{
    if words.len() == 0 {
        (seq![], seq![])
    } else {
        let (done, cur) = wrap_words(words.drop_last(), max);
        let w = words.last();
        if cur.len() == 0 {
            (done, w)
        } else if utf8_len(cur) + 1 + utf8_len(w) <= max {
            (done, cur + " "@ + w)
        } else {
            (done.push(cur), w)
        }
    }
}

/// The lines of `text` wrapped at `max` bytes.
pub open spec fn wrapped_lines(text: Seq<char>, max: nat) -> Seq<Seq<char>> {
    let (done, cur) = wrap_words(split_ws(text), max);
    if cur.len() > 0 {
        done.push(cur)
    } else {
        done
    }
}

/// What the overlay shows of `text`: its last `max_lines` lines when wrapped
/// at `max_chars` bytes, joined by newlines; an empty text, or no lines
/// asked for, is shown as it is.
pub open spec fn last_lines_of(text: Seq<char>, max_lines: nat, max_chars: nat) -> Seq<char> {
    if text.len() == 0 || max_lines == 0 {
        text
    } else {
        let ls = wrapped_lines(text, max_chars);
        if ls.len() <= max_lines {
            join(ls, "\n"@)
        } else {
            join(ls.skip(ls.len() - max_lines), "\n"@)
        }
    }
}

/// Every wrapped line fits in `max` bytes, unless it is a single word too
/// long to fit anywhere.
pub proof fn lemma_wrapped_lines_fit(words: Seq<Seq<char>>, max: nat)
    ensures
        forall|i: int|
            0 <= i < wrap_words(words, max).0.len() ==> {
                let l = #[trigger] wrap_words(words, max).0[i];
                utf8_len(l) <= max || words.contains(l)
            },
        ({
            let cur = wrap_words(words, max).1;
            utf8_len(cur) <= max || words.contains(cur) || cur.len() == 0
        }),
    decreases words.len(),
{
    if words.len() > 0 {
        let prev = words.drop_last();
        lemma_wrapped_lines_fit(prev, max);
        let (done, cur) = wrap_words(prev, max);
        let w = words.last();
        assert(words.contains(w)) by {
            assert(words[words.len() - 1] == w);
        }
        assert forall|l: Seq<char>| prev.contains(l) implies words.contains(l) by {
            let j = choose|j: int| 0 <= j < prev.len() && prev[j] == l;
            assert(words[j] == l);
        }
        if cur.len() > 0 && utf8_len(cur) + 1 + utf8_len(w) <= max {
            lemma_space_width();
            lemma_utf8_len_concat(cur, " "@);
            lemma_utf8_len_concat(cur + " "@, w);
        }
    }
}

proof fn lemma_space_width()
    ensures
        utf8_len(" "@) == 1,
{
    reveal_strlit(" ");
    assert(" "@ =~= seq![' ']);
    assert(seq![' '].drop_last() =~= Seq::<char>::empty());
    assert((' ' as u32) < 0x80);
    assert(utf8_len(Seq::<char>::empty()) == 0);
    assert(utf8_len(seq![' ']) == utf8_len(seq![' '].drop_last()) + utf8_width(' '));
}

proof fn lemma_utf8_len_concat(a: Seq<char>, b: Seq<char>)
    ensures
        utf8_len(a + b) == utf8_len(a) + utf8_len(b),
    decreases b.len(),
{
    if b.len() == 0 {
        assert(a + b =~= a);
    } else {
        lemma_utf8_len_concat(a, b.drop_last());
        assert((a + b).drop_last() =~= a + b.drop_last());
        assert((a + b).last() == b.last());
    }
}

/// UTF-8 length of `chars`, counted wide enough that it cannot overflow.
fn utf8_len_wide(chars: &Vec<char>) -> (n: u128)
    ensures
        n as nat == utf8_len(chars@),
        n <= 4 * (usize::MAX as int),
{
    let mut n: u128 = 0;
    let mut i: usize = 0;
    assert(chars@.take(0) =~= Seq::<char>::empty());
    while i < chars.len()
        invariant
            i <= chars@.len(),
            n as nat == utf8_len(chars@.take(i as int)),
            n <= 4 * i,
        decreases chars@.len() - i,
    {
        assert(chars@.take(i + 1).drop_last() =~= chars@.take(i as int));
        assert(chars@.take(i + 1).last() == chars@[i as int]);
        let c = chars[i] as u32;
        let w: u128 = if c < 0x80 {
            1
        } else if c < 0x800 {
            2
        } else if c < 0x10000 {
            3
        } else {
            4
        };
        n = n + w;
        i = i + 1;
    }
    assert(chars@.take(i as int) =~= chars@);
    n
}

/// The wrapped lines joined by newlines, from line `start` on.
fn join_lines_from(lines: &Vec<Vec<char>>, start: usize) -> (r: Vec<char>)
    requires
        start <= lines@.len(),
    ensures
        r@ == join(views(lines@).skip(start as int), "\n"@),
{
    let ghost lv = views(lines@).skip(start as int);
    let mut r: Vec<char> = Vec::new();
    let mut i: usize = start;
    assert(lv.take(0) =~= Seq::<Seq<char>>::empty());
    while i < lines.len()
        invariant
            start <= i <= lines@.len(),
            lv == views(lines@).skip(start as int),
            r@ == join(lv.take(i - start), "\n"@),
        decreases lines@.len() - i,
    {
        proof {
            reveal_strlit("\n");
        }
        let ghost before = r@;
        assert(lv.take(i - start + 1).drop_last() =~= lv.take(i - start));
        assert(lv.take(i - start + 1).last() == lines@[i as int]@);
        if i > start {
            r.push('\n');
        }
        push_chars(&mut r, lines[i].as_slice());
        proof {
            if i > start {
                assert(r@ =~= before + "\n"@ + lines@[i as int]@);
            } else {
                assert(lv.take(1) =~= seq![lv[0]]);
                assert(r@ =~= lines@[i as int]@);
            }
        }
        i = i + 1;
    }
    assert(lv.take(i - start) =~= lv);
    r
}

/// The last `max_lines` lines of `text` wrapped at `max_chars` bytes, as
/// the overlay shows them.
pub fn last_lines(text: &str, max_lines: usize, max_chars: usize) -> (r: String)
    ensures
        r@ == last_lines_of(text@, max_lines as nat, max_chars as nat),
{
    if text.is_empty() || max_lines == 0 {
        return owned(text);
    }
    let words = split_whitespace(chars_of(text).as_slice());
    let ghost ws = views(words@);
    let mut lines: Vec<Vec<char>> = Vec::new();
    let mut cur: Vec<char> = Vec::new();
    let mut cur_len: u128 = 0;
    let mut i: usize = 0;
    assert(ws.take(0) =~= Seq::<Seq<char>>::empty());
    while i < words.len()
        invariant
            i <= words@.len(),
            ws == views(words@),
            (views(lines@), cur@) == wrap_words(ws.take(i as int), max_chars as nat),
            cur_len as nat == utf8_len(cur@),
            cur_len <= 4 * (usize::MAX as int),
        decreases words@.len() - i,
    {
        assert(ws.take(i + 1).drop_last() =~= ws.take(i as int));
        assert(ws.take(i + 1).last() == words@[i as int]@);
        let w = &words[i];
        let wlen = utf8_len_wide(w);
        if cur.len() == 0 {
            cur = w.clone();
            cur_len = wlen;
        } else if cur_len + 1 + wlen <= max_chars as u128 {
            proof {
                reveal_strlit(" ");
            }
            let ghost old_cur = cur@;
            cur.push(' ');
            push_chars(&mut cur, w.as_slice());
            proof {
                assert(cur@ =~= old_cur + " "@ + w@);
                lemma_utf8_len_concat(old_cur, " "@);
                lemma_utf8_len_concat(old_cur + " "@, w@);
                lemma_space_width();
            }
            cur_len = cur_len + 1 + wlen;
        } else {
            let ghost old_lines = views(lines@);
            let full = cur;
            lines.push(full);
            assert(views(lines@) =~= old_lines.push(full@));
            cur = w.clone();
            cur_len = wlen;
        }
        i = i + 1;
    }
    assert(ws.take(i as int) =~= ws);
    if cur.len() > 0 {
        let ghost old_lines = views(lines@);
        let last = cur;
        lines.push(last);
        assert(views(lines@) =~= old_lines.push(last@));
    }
    let start: usize = if lines.len() <= max_lines {
        0
    } else {
        lines.len() - max_lines
    };
    let joined = join_lines_from(&lines, start);
    assert(views(lines@).skip(0) =~= views(lines@));
    string_from_chars(joined.as_slice())
}

// ---------------------------------------------------------------------------
// What the overlay shows, command by command.
// ---------------------------------------------------------------------------

/// Waveform bars kept (the newest last).
pub const WAVEFORM_BARS: usize = 20;

/// A point on the screen.
#[derive(Debug, Clone, Copy, PartialEq, Eq, Structural)]
pub struct ScreenPoint {
    pub x: i32,
    pub y: i32,
}

/// The overlay's state. Waveform amplitudes are held as the bit patterns of
/// the `f32` samples the recorder measures (0 is silence).
#[derive(Debug, Clone)]
pub struct OverlayModel {
    pub status_text: String,
    pub body_text: String,
    pub visible: bool,
    pub position: ScreenPoint,
    pub is_recording: bool,
    pub recording_frame: u32,
    pub waveform_bars: Vec<u32>,
}

/// Commands sent to the overlay.
#[derive(Debug, Clone)]
pub enum OverlayCommand {
    Show(String),
    Hide,
    SetRecording(bool),
    AnimationTick,
    SetPosition(i32, i32),
    UpdateStatusText(String),
    UpdateBodyText(String),
    WaveformUpdate(u32),
    Shutdown,
}

/// What the window has to do after a command.
#[derive(Debug, Clone, Copy, PartialEq, Eq, Structural)]
pub struct OverlayEffects {
    /// Make the window visible or invisible.
    pub set_visible: Option<bool>,
    /// Show it on top without taking the focus (`true`), or hide it.
    pub show_native: Option<bool>,
    pub redraw: bool,
    pub move_to: Option<ScreenPoint>,
    pub exit: bool,
}

pub struct OverlayView {
    pub status: Seq<char>,
    pub body: Seq<char>,
    pub visible: bool,
    pub position: ScreenPoint,
    pub recording: bool,
    pub frame: u32,
    pub bars: Seq<u32>,
}

pub open spec fn overlay_view(m: OverlayModel) -> OverlayView {
    OverlayView {
        status: m.status_text@,
        body: m.body_text@,
        visible: m.visible,
        position: m.position,
        recording: m.is_recording,
        frame: m.recording_frame,
        bars: m.waveform_bars@,
    }
}

pub enum CommandView {
    Show(Seq<char>),
    Hide,
    SetRecording(bool),
    AnimationTick,
    SetPosition(i32, i32),
    UpdateStatusText(Seq<char>),
    UpdateBodyText(Seq<char>),
    WaveformUpdate(u32),
    Shutdown,
}

pub open spec fn command_view(c: OverlayCommand) -> CommandView {
    match c {
        OverlayCommand::Show(t) => CommandView::Show(t@),
        OverlayCommand::Hide => CommandView::Hide,
        OverlayCommand::SetRecording(r) => CommandView::SetRecording(r),
        OverlayCommand::AnimationTick => CommandView::AnimationTick,
        OverlayCommand::SetPosition(x, y) => CommandView::SetPosition(x, y),
        OverlayCommand::UpdateStatusText(t) => CommandView::UpdateStatusText(t@),
        OverlayCommand::UpdateBodyText(t) => CommandView::UpdateBodyText(t@),
        OverlayCommand::WaveformUpdate(a) => CommandView::WaveformUpdate(a),
        OverlayCommand::Shutdown => CommandView::Shutdown,
    }
}

pub open spec fn effects(
    set_visible: Option<bool>,
    show_native: Option<bool>,
    redraw: bool,
    move_to: Option<ScreenPoint>,
    exit: bool,
) -> OverlayEffects {
    OverlayEffects { set_visible, show_native, redraw, move_to, exit }
}

/// The bars after a new amplitude: appended, the oldest dropped beyond
/// twenty.
pub open spec fn push_bar(bars: Seq<u32>, a: u32) -> Seq<u32> {
    let b = bars.push(a);
    if b.len() > WAVEFORM_BARS {
        b.drop_first()
    } else {
        b
    }
}

/// One command: the next state and the window effects.
pub open spec fn overlay_step(s: OverlayView, c: CommandView) -> (OverlayView, OverlayEffects) {
    match c {
        CommandView::Show(t) => (
            OverlayView { status: seq![], body: t, visible: true, recording: false, ..s },
            effects(Some(true), Some(true), true, None, false),
        ),
        CommandView::Hide => (
            OverlayView { visible: false, recording: false, ..s },
            effects(Some(false), Some(false), false, None, false),
        ),
        CommandView::SetRecording(r) => if r {
            (
                OverlayView {
                    recording: true,
                    frame: 0,
                    visible: true,
                    status: seq![],
                    body: seq![],
                    bars: Seq::new(WAVEFORM_BARS as nat, |i: int| 0u32),
                    ..s
                },
                effects(Some(true), Some(true), true, None, false),
            )
        } else {
            (
                OverlayView { recording: false, frame: 0, bars: seq![], ..s },
                effects(None, Some(false), true, None, false),
            )
        },
        CommandView::AnimationTick => if s.recording {
            (
                OverlayView {
                    frame: if s.frame == u32::MAX {
                        0
                    } else {
                        (s.frame + 1) as u32
                    },
                    ..s
                },
                effects(None, None, true, None, false),
            )
        } else {
            (s, effects(None, None, false, None, false))
        },
        CommandView::SetPosition(x, y) => (
            OverlayView { position: ScreenPoint { x, y }, ..s },
            effects(None, None, false, Some(ScreenPoint { x, y }), false),
        ),
        CommandView::UpdateStatusText(t) => (
            OverlayView { status: t, visible: true, ..s },
            effects(None, None, true, None, false),
        ),
        CommandView::UpdateBodyText(t) => (
            OverlayView { body: t, visible: true, ..s },
            effects(None, None, true, None, false),
        ),
        CommandView::WaveformUpdate(a) => (
            if s.recording {
                OverlayView { bars: push_bar(s.bars, a), ..s }
            } else {
                s
            },
            effects(None, None, true, None, false),
        ),
        CommandView::Shutdown => (s, effects(None, None, false, None, true)),
    }
}

impl OverlayModel {
    /// The overlay at start: hidden, empty, at (100, 100), not recording.
    pub fn new() -> (m: Self)
        ensures
            overlay_view(m) == (OverlayView {
                status: seq![],
                body: seq![],
                visible: false,
                position: ScreenPoint { x: 100, y: 100 },
                recording: false,
                frame: 0,
                bars: seq![],
            }),
    {
        OverlayModel {
            status_text: String::new(),
            body_text: String::new(),
            visible: false,
            position: ScreenPoint { x: 100, y: 100 },
            is_recording: false,
            recording_frame: 0,
            waveform_bars: Vec::new(),
        }
    }

    /// Applies one command; returns what the window has to do.
    pub fn apply(&mut self, command: OverlayCommand) -> (e: OverlayEffects)
        ensures
            (overlay_view(*final(self)), e) == overlay_step(overlay_view(*old(self)), command_view(command)),
    {
        match command {
            OverlayCommand::Show(t) => {
                self.status_text = String::new();
                self.body_text = t;
                self.visible = true;
                self.is_recording = false;
                OverlayEffects { set_visible: Some(true), show_native: Some(true), redraw: true, move_to: None, exit: false }
            },
            OverlayCommand::Hide => {
                self.visible = false;
                self.is_recording = false;
                OverlayEffects { set_visible: Some(false), show_native: Some(false), redraw: false, move_to: None, exit: false }
            },
            OverlayCommand::SetRecording(r) => {
                self.is_recording = r;
                self.recording_frame = 0;
                if r {
                    self.visible = true;
                    self.status_text = String::new();
                    self.body_text = String::new();
                    let mut bars: Vec<u32> = Vec::new();
                    let mut i: usize = 0;
                    while i < WAVEFORM_BARS
                        invariant
                            i <= WAVEFORM_BARS,
                            bars@ == Seq::new(i as nat, |j: int| 0u32),
                        decreases WAVEFORM_BARS - i,
                    {
                        bars.push(0);
                        assert(bars@ =~= Seq::new((i + 1) as nat, |j: int| 0u32));
                        i = i + 1;
                    }
                    self.waveform_bars = bars;
                    OverlayEffects { set_visible: Some(true), show_native: Some(true), redraw: true, move_to: None, exit: false }
                } else {
                    self.waveform_bars = Vec::new();
                    OverlayEffects { set_visible: None, show_native: Some(false), redraw: true, move_to: None, exit: false }
                }
            },
            OverlayCommand::AnimationTick => {
                if self.is_recording {
                    self.recording_frame = self.recording_frame.wrapping_add(1);
                }
                OverlayEffects { set_visible: None, show_native: None, redraw: self.is_recording, move_to: None, exit: false }
            },
            OverlayCommand::SetPosition(x, y) => {
                self.position = ScreenPoint { x, y };
                OverlayEffects { set_visible: None, show_native: None, redraw: false, move_to: Some(ScreenPoint { x, y }), exit: false }
            },
            OverlayCommand::UpdateStatusText(t) => {
                self.status_text = t;
                self.visible = true;
                OverlayEffects { set_visible: None, show_native: None, redraw: true, move_to: None, exit: false }
            },
            OverlayCommand::UpdateBodyText(t) => {
                self.body_text = t;
                self.visible = true;
                OverlayEffects { set_visible: None, show_native: None, redraw: true, move_to: None, exit: false }
            },
            OverlayCommand::WaveformUpdate(a) => {
                if self.is_recording {
                    self.waveform_bars.push(a);
                    if self.waveform_bars.len() > WAVEFORM_BARS {
                        self.waveform_bars.remove(0);
                    }
                }
                OverlayEffects { set_visible: None, show_native: None, redraw: true, move_to: None, exit: false }
            },
            OverlayCommand::Shutdown => {
                OverlayEffects { set_visible: None, show_native: None, redraw: false, move_to: None, exit: true }
            },
        }
    }
}

/// The waveform never holds more than twenty bars, and it is empty whenever
/// the overlay is not recording after a recording stopped.
pub proof fn lemma_waveform_bounded(s: OverlayView, c: CommandView)
    requires
        s.bars.len() <= WAVEFORM_BARS,
    ensures
        overlay_step(s, c).0.bars.len() <= WAVEFORM_BARS,
        c == CommandView::SetRecording(false) ==> overlay_step(s, c).0.bars.len() == 0,
{
}

// ---------------------------------------------------------------------------
// Layout of a frame.
// ---------------------------------------------------------------------------

/// A rectangle in window coordinates.
#[derive(Debug, Clone, Copy, PartialEq, Eq, Structural)]
pub struct LayoutRect {
    pub left: i32,
    pub top: i32,
    pub right: i32,
    pub bottom: i32,
}

/// Where a frame's parts go.
#[derive(Debug, Clone, Copy, PartialEq, Eq, Structural)]
pub struct OverlayLayout {
    /// Text starts here: right of the waveform while recording.
    pub left_margin: i32,
    pub status: LayoutRect,
    pub body: LayoutRect,
    /// The waveform's middle line and the largest half-height of a bar.
    pub bar_center_y: i32,
    pub bar_max_half: i32,
}

/// The window size as the drawing code reads it (`as i32`).
pub open spec fn size_i32(v: u32) -> int {
    (v as i32) as int
}

/// The frame layout for a window of `width` × `height`: text 75 pixels in
/// while recording (20 otherwise) and 10 from the right edge; the status
/// line from 8 to 38; the body below it (from 42, or from 10 without a status
/// line) down to 10 above the bottom; waveform bars centred vertically, at
/// most 8 pixels short of the edge and at least 4 high.
pub open spec fn layout_of(width: u32, height: u32, is_recording: bool, has_status: bool) -> OverlayLayout {
    let w = size_i32(width);
    let h = size_i32(height);
    let left: int = if is_recording {
        75
    } else {
        20
    };
    let center = if h >= 0 {
        h / 2
    } else {
        -((-h) / 2)
    };
    OverlayLayout {
        left_margin: left as i32,
        status: LayoutRect { left: left as i32, top: 8, right: (w - 10) as i32, bottom: 38 },
        body: LayoutRect {
            left: left as i32,
            top: if has_status {
                42
            } else {
                10
            },
            right: (w - 10) as i32,
            bottom: (h - 10) as i32,
        },
        bar_center_y: center as i32,
        bar_max_half: (if center - 8 > 4 {
            center - 8
        } else {
            4
        }) as i32,
    }
}

/// The window size leaves room for the margins in `i32`.
pub open spec fn layout_fits(width: u32, height: u32) -> bool {
    size_i32(width) - 10 >= i32::MIN && size_i32(height) - 10 >= i32::MIN
}

/// Lays out a frame of the overlay window: margins, status line, body text
/// and the waveform's vertical extent.
pub fn overlay_layout(width: u32, height: u32, is_recording: bool, has_status: bool) -> (r: OverlayLayout)
    requires
        layout_fits(width, height),
    ensures
        r == layout_of(width, height, is_recording, has_status),
{
    let w = width as i32;
    let h = height as i32;
    let left: i32 = if is_recording {
        75
    } else {
        20
    };
    let center: i32 = if h >= 0 {
        h / 2
    } else {
        let hh: i64 = h as i64;
        (-((-hh) / 2)) as i32
    };
    let max_half: i32 = if center - 8 > 4 {
        center - 8
    } else {
        4
    };
    OverlayLayout {
        left_margin: left,
        status: LayoutRect { left, top: 8, right: w - 10, bottom: 38 },
        body: LayoutRect {
            left,
            top: if has_status {
                42
            } else {
                10
            },
            right: w - 10,
            bottom: h - 10,
        },
        bar_center_y: center,
        bar_max_half: max_half,
    }
}

} // verus!
