//! Hotkey decisions and the choice of text-injection route.
//!
//! Right Ctrl drives recording: a press that is held longer than the
//! push-to-talk threshold stops recording on release; a shorter tap switches to
//! toggle mode, where the next press stops recording. The listener keeps a
//! small state and turns each key event into at most one recording event.

use vstd::prelude::*;
use crate::config::InjectionMethod;
use crate::corrections::{utf8_len, utf8_width};
use crate::text::chars_of;

verus! {

/// Hold duration, in milliseconds, above which a press is push-to-talk.
pub const PTT_THRESHOLD_MS: u64 = 300;

/// The same threshold in nanoseconds, the unit of the listener's clock.
pub const PTT_THRESHOLD_NS: u64 = 300_000_000;

/// Virtual-key code of Right Ctrl (`VK_RCONTROL`).
pub const TARGET_VK: u32 = 0xA3;

/// Events from the hotkey listener. The window handle is the foreground
/// window at the moment of the key event, stored as an integer.
#[derive(Debug, Clone, Copy, PartialEq, Eq, Structural)]
pub enum HotkeyEvent {
    RecordStart { hwnd: isize },
    RecordStop { hwnd: isize },
    /// `--toggle` from another process.
    RemoteToggle,
    /// `--stop` from another process.
    RemoteStop,
}

/// The recording event that the service acts on, given whether it is
/// recording: a remote toggle starts or stops (for the foreground window
/// `foreground_hwnd`); a remote stop stops, and does nothing when not
/// recording; a start while recording and a stop while not recording are
/// ignored.
pub open spec fn accepted_event_of(event: HotkeyEvent, is_recording: bool, foreground_hwnd: isize) -> Option<
    HotkeyEvent,
> {
    match event {
        HotkeyEvent::RemoteToggle => if is_recording {
            Some(HotkeyEvent::RecordStop { hwnd: foreground_hwnd })
        } else {
            Some(HotkeyEvent::RecordStart { hwnd: foreground_hwnd })
        },
        HotkeyEvent::RemoteStop => if is_recording {
            Some(HotkeyEvent::RecordStop { hwnd: foreground_hwnd })
        } else {
            None
        },
        HotkeyEvent::RecordStart { hwnd } => if is_recording {
            None
        } else {
            Some(HotkeyEvent::RecordStart { hwnd })
        },
        HotkeyEvent::RecordStop { hwnd } => if is_recording {
            Some(HotkeyEvent::RecordStop { hwnd })
        } else {
            None
        },
    }
}

/// The recording event to act on, if any.
pub fn accepted_event(event: HotkeyEvent, is_recording: bool, foreground_hwnd: isize) -> (r: Option<
    HotkeyEvent,
>)
    ensures
        r == accepted_event_of(event, is_recording, foreground_hwnd),
{
    match event {
        HotkeyEvent::RemoteToggle => if is_recording {
            Some(HotkeyEvent::RecordStop { hwnd: foreground_hwnd })
        } else {
            Some(HotkeyEvent::RecordStart { hwnd: foreground_hwnd })
        },
        HotkeyEvent::RemoteStop => if is_recording {
            Some(HotkeyEvent::RecordStop { hwnd: foreground_hwnd })
        } else {
            None
        },
        HotkeyEvent::RecordStart { hwnd } => if is_recording {
            None
        } else {
            Some(HotkeyEvent::RecordStart { hwnd })
        },
        HotkeyEvent::RecordStop { hwnd } => if is_recording {
            Some(HotkeyEvent::RecordStop { hwnd })
        } else {
            None
        },
    }
}

/// The service acts on a start only when idle and on a stop only while
/// recording, so the recordings it runs never overlap.
pub proof fn lemma_accepted_events_match_state(event: HotkeyEvent, is_recording: bool, fg: isize)
    ensures
        accepted_event_of(event, is_recording, fg) matches Some(e) ==> (e is RecordStart
            <==> !is_recording) && (e is RecordStop <==> is_recording),
{
}

/// What the listener remembers between key events.
#[derive(Debug, Clone, Copy, PartialEq, Eq, Structural)]
pub struct HotkeyListenerState {
    /// Toggle recording is active: the next key press stops it.
    pub is_toggle_recording: bool,
    /// Clock reading (nanoseconds) of the key press in progress.
    pub press_started_ns: Option<u64>,
}

impl HotkeyListenerState {
    /// The listener before any key event.
    pub fn new() -> (s: Self)
        ensures
            s == idle(),
    {
        HotkeyListenerState { is_toggle_recording: false, press_started_ns: None }
    }
}

pub open spec fn idle() -> HotkeyListenerState {
    HotkeyListenerState { is_toggle_recording: false, press_started_ns: None }
}

/// Recording is in progress: either in toggle mode or while a press lasts.
pub open spec fn recording(s: HotkeyListenerState) -> bool {
    s.is_toggle_recording || s.press_started_ns is Some
}

/// The listener is never in toggle mode while a press is being timed.
pub open spec fn hotkey_wf(s: HotkeyListenerState) -> bool {
    !(s.is_toggle_recording && s.press_started_ns is Some)
}

/// Time elapsed since `start` (zero when the clock reads earlier).
pub open spec fn elapsed_ns(start: u64, now: u64) -> nat {
    if now >= start {
        (now - start) as nat
    } else {
        0
    }
}

/// One key event: whether it is consumed, the next state, and the recording
/// event it raises, if any.
pub open spec fn hotkey_step(
    s: HotkeyListenerState,
    vk: u32,
    is_key_up: bool,
    now_ns: u64,
    hwnd: isize,
) -> (bool, HotkeyListenerState, Option<HotkeyEvent>) {
    if vk != TARGET_VK {
        (false, s, None)
    } else if !is_key_up {
        if s.is_toggle_recording {
            (true, idle(), Some(HotkeyEvent::RecordStop { hwnd }))
        } else if s.press_started_ns is None {
            (
                true,
                HotkeyListenerState { press_started_ns: Some(now_ns), ..s },
                Some(HotkeyEvent::RecordStart { hwnd }),
            )
        } else {
            (true, s, None)
        }
    } else {
        match s.press_started_ns {
            Some(start) => if elapsed_ns(start, now_ns) > PTT_THRESHOLD_NS {
                (true, idle(), Some(HotkeyEvent::RecordStop { hwnd }))
            } else {
                (
                    true,
                    HotkeyListenerState { is_toggle_recording: true, press_started_ns: None },
                    None,
                )
            },
            None => (true, s, None),
        }
    }
}

/// Feeds one key event to the listener. Returns whether the event is
/// consumed (it is the hotkey) and the recording event to send, if any.
/// `now_ns` is a monotonic clock reading; `hwnd` the foreground window.
pub fn process_hotkey_event(
    state: &mut HotkeyListenerState,
    vk: u32,
    is_key_up: bool,
    now_ns: u64,
    hwnd: isize,
) -> (r: (bool, Option<HotkeyEvent>))
    ensures
        (r.0, *final(state), r.1) == hotkey_step(*old(state), vk, is_key_up, now_ns, hwnd),
{
    if vk != TARGET_VK {
        return (false, None);
    }
    if !is_key_up {
        if state.is_toggle_recording {
            state.is_toggle_recording = false;
            state.press_started_ns = None;
            (true, Some(HotkeyEvent::RecordStop { hwnd }))
        } else if state.press_started_ns.is_none() {
            state.press_started_ns = Some(now_ns);
            (true, Some(HotkeyEvent::RecordStart { hwnd }))
        } else {
            (true, None)
        }
    } else {
        match state.press_started_ns {
            Some(start) => {
                let elapsed = if now_ns >= start {
                    now_ns - start
                } else {
                    0
                };
                state.press_started_ns = None;
                if elapsed > PTT_THRESHOLD_NS {
                    state.is_toggle_recording = false;
                    (true, Some(HotkeyEvent::RecordStop { hwnd }))
                } else {
                    state.is_toggle_recording = true;
                    (true, None)
                }
            },
            None => (true, None),
        }
    }
}

/// Keys other than the hotkey pass through: not consumed, no event, and the
/// listener's state is unchanged.
pub proof fn lemma_other_keys_pass_through(
    s: HotkeyListenerState,
    vk: u32,
    is_key_up: bool,
    now_ns: u64,
    hwnd: isize,
)
    requires
        vk != TARGET_VK,
    ensures
        hotkey_step(s, vk, is_key_up, now_ns, hwnd) == (false, s, None::<HotkeyEvent>),
{
}

/// Every hotkey event is consumed, keeps the listener well formed, and makes
/// starts and stops alternate: a start is raised only when not recording and
/// begins recording, a stop only while recording and ends it, and any other
/// event leaves recording as it was.
pub proof fn lemma_starts_and_stops_alternate(
    s: HotkeyListenerState,
    is_key_up: bool,
    now_ns: u64,
    hwnd: isize,
)
    requires
        hotkey_wf(s),
    ensures
        ({
            let (consumed, next, ev) = hotkey_step(s, TARGET_VK, is_key_up, now_ns, hwnd);
            &&& consumed
            &&& hotkey_wf(next)
            &&& (ev matches Some(HotkeyEvent::RecordStart { .. }) ==> !recording(s) && recording(next))
            &&& (ev matches Some(HotkeyEvent::RecordStop { .. }) ==> recording(s) && !recording(next))
            &&& (ev is None ==> recording(next) == recording(s))
        }),
{
}

/// A tap (released within the threshold) from idle starts recording and
/// enters toggle mode; the next press stops recording, and its release does
/// nothing more: the listener is idle again.
pub proof fn lemma_tap_toggles(t0: u64, t1: u64, t2: u64, t3: u64, h0: isize, h2: isize)
    requires
        t0 <= t1,
        t1 - t0 <= PTT_THRESHOLD_NS,
    ensures
        ({
            let (_, s1, e1) = hotkey_step(idle(), TARGET_VK, false, t0, h0);
            let (_, s2, e2) = hotkey_step(s1, TARGET_VK, true, t1, h0);
            let (_, s3, e3) = hotkey_step(s2, TARGET_VK, false, t2, h2);
            let (_, s4, e4) = hotkey_step(s3, TARGET_VK, true, t3, h2);
            &&& e1 == Some(HotkeyEvent::RecordStart { hwnd: h0 })
            &&& e2 is None && s2.is_toggle_recording
            &&& e3 == Some(HotkeyEvent::RecordStop { hwnd: h2 })
            &&& e4 is None && s4 == idle()
        }),
{
}

/// A press held longer than the threshold from idle is push-to-talk:
/// recording starts on the press and stops on the release, back to idle.
pub proof fn lemma_hold_is_push_to_talk(t0: u64, t1: u64, h0: isize, h1: isize)
    requires
        t1 > t0 + PTT_THRESHOLD_NS,
    ensures
        ({
            let (_, s1, e1) = hotkey_step(idle(), TARGET_VK, false, t0, h0);
            let (_, s2, e2) = hotkey_step(s1, TARGET_VK, true, t1, h1);
            &&& e1 == Some(HotkeyEvent::RecordStart { hwnd: h0 })
            &&& e2 == Some(HotkeyEvent::RecordStop { hwnd: h1 })
            &&& s2 == idle()
        }),
{
}

/// Key repeats while the hotkey is held raise nothing and change nothing.
pub proof fn lemma_key_repeat_ignored(s: HotkeyListenerState, now_ns: u64, hwnd: isize)
    requires
        !s.is_toggle_recording,
        s.press_started_ns is Some,
    ensures
        hotkey_step(s, TARGET_VK, false, now_ns, hwnd) == (true, s, None::<HotkeyEvent>),
{
}

/// How a transcript reaches the focused application.
#[derive(Debug, Clone, Copy, PartialEq, Eq, Structural)]
pub enum InjectionPlan {
    /// Nothing to inject (empty text).
    Skip,
    /// Unicode key events.
    UnicodeInput,
    /// Clipboard and Ctrl+V, then Enter when `send_enter`.
    Clipboard { send_enter: bool },
}

/// Texts longer than this many UTF-8 bytes go through the clipboard under the
/// direct method.
pub const DIRECT_INPUT_MAX_BYTES: usize = 500;

pub open spec fn injection_plan(text: Seq<char>, method: InjectionMethod) -> InjectionPlan {
    if text.len() == 0 {
        InjectionPlan::Skip
    } else {
        match method {
            InjectionMethod::Direct => if utf8_len(text) > DIRECT_INPUT_MAX_BYTES {
                InjectionPlan::Clipboard { send_enter: false }
            } else {
                InjectionPlan::UnicodeInput
            },
            InjectionMethod::Clipboard => InjectionPlan::Clipboard { send_enter: false },
            InjectionMethod::ClipboardEnter => InjectionPlan::Clipboard { send_enter: true },
        }
    }
}

proof fn lemma_utf8_len_prefix(s: Seq<char>, i: int)
    requires
        0 <= i <= s.len(),
    ensures
        utf8_len(s.take(i)) <= utf8_len(s),
    decreases s.len(),
{
    if i < s.len() {
        assert(s.drop_last().take(i) =~= s.take(i));
        lemma_utf8_len_prefix(s.drop_last(), i);
    } else {
        assert(s.take(i) =~= s);
    }
}

/// Whether the UTF-8 encoding of `s` is longer than `limit` bytes.
pub fn utf8_longer_than(s: &[char], limit: usize) -> (r: bool)
    ensures
        r == (utf8_len(s@) > limit),
{
    let mut n: usize = 0;
    let mut i: usize = 0;
    assert(s@.take(0) =~= seq![]);
    while i < s.len()
        invariant
            i <= s@.len(),
            n as nat == utf8_len(s@.take(i as int)),
            n <= limit,
        decreases s@.len() - i,
    {
        assert(s@.take(i + 1).drop_last() == s@.take(i as int));
        assert(s@.take(i + 1).last() == s@[i as int]);
        let c = s[i] as u32;
        let w: usize = if c < 0x80 {
            1
        } else if c < 0x800 {
            2
        } else if c < 0x10000 {
            3
        } else {
            4
        };
        assert(w == utf8_width(s@[i as int]));
        if w > limit - n {
            proof {
                lemma_utf8_len_prefix(s@, i + 1);
            }
            return true;
        }
        n = n + w;
        i = i + 1;
    }
    assert(s@.take(i as int) == s@);
    false
}

/// Chooses how to inject `text` with the configured method: empty text is
/// skipped; the direct method types short texts as Unicode key events and
/// pastes texts over 500 bytes; the clipboard methods always paste, and
/// `ClipboardEnter` presses Enter afterwards.
pub fn inject_text(text: &str, method: &InjectionMethod) -> (p: InjectionPlan)
    ensures
        p == injection_plan(text@, *method),
{
    let chars = chars_of(text);
    if chars.len() == 0 {
        return InjectionPlan::Skip;
    }
    match method {
        InjectionMethod::Direct => {
            if utf8_longer_than(&chars, DIRECT_INPUT_MAX_BYTES) {
                InjectionPlan::Clipboard { send_enter: false }
            } else {
                InjectionPlan::UnicodeInput
            }
        },
        InjectionMethod::Clipboard => InjectionPlan::Clipboard { send_enter: false },
        InjectionMethod::ClipboardEnter => InjectionPlan::Clipboard { send_enter: true },
    }
}

// ---------------------------------------------------------------------------
// Unicode key events.
// ---------------------------------------------------------------------------

/// The UTF-16 code units of one character: itself below U+10000, else a
/// surrogate pair.
pub open spec fn utf16_of_char(c: char) -> Seq<u16> {
    let v = c as u32;
    if v < 0x10000 {
        seq![v as u16]
    } else {
        seq![(0xD800 + (v - 0x10000) / 1024) as u16, (0xDC00 + (v - 0x10000) % 1024) as u16]
    }
}

/// The UTF-16 encoding of `s` (`str::encode_utf16`).
pub open spec fn utf16_of(s: Seq<char>) -> Seq<u16>
    decreases s.len(),
{
    if s.len() == 0 {
        seq![]
    } else {
        utf16_of(s.drop_last()) + utf16_of_char(s.last())
    }
}

/// UTF-16 code units of `text`.
pub fn utf16_units(text: &str) -> (r: Vec<u16>)
    ensures
        r@ == utf16_of(text@),
{
    let chars = chars_of(text);
    let mut r: Vec<u16> = Vec::new();
    let mut i: usize = 0;
    assert(chars@.take(0) =~= Seq::<char>::empty());
    while i < chars.len()
        invariant
            i <= chars@.len(),
            chars@ == text@,
            r@ == utf16_of(chars@.take(i as int)),
        decreases chars@.len() - i,
    {
        assert(chars@.take(i + 1).drop_last() =~= chars@.take(i as int));
        assert(chars@.take(i + 1).last() == chars@[i as int]);
        let v = chars[i] as u32;
        proof {
            vstd::utf8::char_is_scalar(chars@[i as int]);
        }
        if v < 0x10000 {
            r.push(v as u16);
        } else {
            let w = v - 0x10000;
            r.push((0xD800 + w / 1024) as u16);
            r.push((0xDC00 + w % 1024) as u16);
        }
        assert(r@ =~= utf16_of(chars@.take(i + 1)));
        i = i + 1;
    }
    assert(chars@.take(i as int) =~= chars@);
    r
}

/// A Unicode key event: the code unit typed, pressed or released.
#[derive(Debug, Clone, Copy, PartialEq, Eq, Structural)]
pub struct UnicodeKey {
    pub unit: u16,
    pub key_up: bool,
}

/// Each code unit pressed then released.
pub open spec fn key_events(units: Seq<u16>) -> Seq<UnicodeKey>
    decreases units.len(),
{
    if units.len() == 0 {
        seq![]
    } else {
        key_events(units.drop_last()) + seq![
            UnicodeKey { unit: units.last(), key_up: false },
            UnicodeKey { unit: units.last(), key_up: true },
        ]
    }
}

/// Key events per batch handed to the system at once.
pub const MAX_INPUT_CHUNK_SIZE: usize = 60;

/// Code units per batch.
pub const UNITS_PER_BATCH: usize = MAX_INPUT_CHUNK_SIZE / 2;

/// The number of batches for `n` code units.
pub open spec fn batch_count(n: nat) -> nat {
    ((n + 29) / 30) as nat
}

/// Batch `k` of the code units: units `30 k` up to `30 k + 30` (or the end).
pub open spec fn batch_units(units: Seq<u16>, k: int) -> Seq<u16> {
    units.subrange(
        30 * k,
        if 30 * k + 30 <= units.len() {
            30 * k + 30
        } else {
            units.len() as int
        },
    )
}

/// The Unicode key events that type `text`, in batches of at most thirty
/// code units (sixty events): each code unit of its UTF-16 encoding pressed
/// and released, in order.
pub fn unicode_input_batches(text: &str) -> (r: Vec<Vec<UnicodeKey>>)
    ensures
        r@.len() == batch_count(utf16_of(text@).len()),
        forall|k: int|
            0 <= k < r@.len() ==> (#[trigger] r@[k])@ == key_events(batch_units(utf16_of(text@), k)),
{
    let units = utf16_units(text);
    let ghost u = units@;
    let n = units.len();
    let mut r: Vec<Vec<UnicodeKey>> = Vec::new();
    let mut start: usize = 0;
    while start < n
        invariant
            u == units@,
            n == u.len(),
            u == utf16_of(text@),
            start <= n,
            start < n ==> start as int == 30 * r@.len(),
            start == n ==> r@.len() == batch_count(n as nat),
            forall|k: int| 0 <= k < r@.len() ==> (#[trigger] r@[k])@ == key_events(batch_units(u, k)),
        decreases n - start,
    {
        let end: usize = if n - start > UNITS_PER_BATCH {
            start + UNITS_PER_BATCH
        } else {
            n
        };
        let mut batch: Vec<UnicodeKey> = Vec::new();
        let mut j: usize = start;
        assert(u.subrange(start as int, start as int) =~= Seq::<u16>::empty());
        while j < end
            invariant
                start <= j <= end <= n,
                u == units@,
                n == u.len(),
                batch@ == key_events(u.subrange(start as int, j as int)),
            decreases end - j,
        {
            let c = units[j];
            batch.push(UnicodeKey { unit: c, key_up: false });
            batch.push(UnicodeKey { unit: c, key_up: true });
            assert(u.subrange(start as int, j + 1).drop_last() =~= u.subrange(start as int, j as int));
            assert(u.subrange(start as int, j + 1).last() == c);
            assert(batch@ =~= key_events(u.subrange(start as int, j + 1)));
            j = j + 1;
        }
        let ghost k = r@.len() as int;
        assert(start as int == 30 * k);
        assert(end as int == if 30 * k + 30 <= u.len() {
            30 * k + 30
        } else {
            u.len() as int
        });
        r.push(batch);
        assert(r@[k]@ == key_events(batch_units(u, k)));
        proof {
            if end == n {
                let nn = n as int;
                assert((nn + 29) / 30 == k + 1) by (nonlinear_arith)
                    requires
                        30 * k < nn,
                        nn <= 30 * k + 30,
                ;
            }
        }
        start = end;
    }
    r
}

} // verus!
