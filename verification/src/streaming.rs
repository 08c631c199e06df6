//! Streaming transcription while recording: every chunk interval the new
//! audio is transcribed and the text accumulated; when recording stops, the
//! rest is transcribed once more and the whole text is final.
//!
//! The decisions are a state machine: the caller sleeps, reads the audio
//! buffer and runs the transcriber as the actions ask, and feeds back what it
//! saw as events.

use vstd::prelude::*;
use crate::text::{chars_of, push_chars, string_from_chars};

verus! {

/// Events from streaming transcription.
#[derive(Debug, Clone)]
pub enum StreamingEvent {
    /// The text accumulated so far.
    PartialText(String),
    /// The whole text, when streaming stops.
    FinalText(String),
    /// An error during streaming.
    Error(String),
}

/// Samples per second of the recorded audio.
pub const SAMPLE_RATE: usize = 16000;

/// What the streaming loop remembers.
#[derive(Debug, Clone)]
pub struct StreamingLoop {
    pub accumulated: String,
    /// Buffer length already transcribed.
    pub last_processed: usize,
    /// Stop was requested: this pass is the last.
    pub is_final: bool,
    /// Buffer length of the transcription in flight.
    pub pending_len: Option<usize>,
    pub chunk_duration_secs: u64,
}

/// What the caller reports.
#[derive(Debug, Clone)]
pub enum LoopEvent {
    /// The chunk interval passed (or the last pass began); whether stop was
    /// requested.
    Woke { stop_requested: bool },
    /// The recorder's buffer: its length and where unprocessed audio starts.
    Buffer { len: usize, start_idx: usize },
    /// The buffer could not be read.
    BufferFailed,
    /// The transcriber's text, `None` when it failed.
    Transcribed { text: Option<String> },
}

/// What the caller does next.
#[derive(Debug, Clone, PartialEq, Eq)]
pub enum LoopAction {
    /// Sleep for the chunk interval, then report `Woke`.
    Wait,
    /// Read the recorder's buffer and report it.
    ReadBuffer,
    /// Transcribe samples `from..to` of the buffer just read.
    Transcribe { from: usize, to: usize },
    /// Send this final text and stop.
    Finish { text: String },
}

/// The loop's decision state as the contracts see it: accumulated text,
/// processed length, last pass, pending length. The chunk interval, which
/// no step changes, is stated beside it.
pub type LoopView = (Seq<char>, usize, bool, Option<usize>);

pub open spec fn loop_view(s: StreamingLoop) -> LoopView {
    (s.accumulated@, s.last_processed, s.is_final, s.pending_len)
}

pub enum ActionView {
    Wait,
    ReadBuffer,
    Transcribe(usize, usize),
    Finish(Seq<char>),
}

pub open spec fn action_view(a: LoopAction) -> ActionView {
    match a {
        LoopAction::Wait => ActionView::Wait,
        LoopAction::ReadBuffer => ActionView::ReadBuffer,
        LoopAction::Transcribe { from, to } => ActionView::Transcribe(from, to),
        LoopAction::Finish { text } => ActionView::Finish(text@),
    }
}

pub enum EventView {
    Woke(bool),
    Buffer(usize, usize),
    BufferFailed,
    Transcribed(Option<Seq<char>>),
}

pub open spec fn event_view(e: LoopEvent) -> EventView {
    match e {
        LoopEvent::Woke { stop_requested } => EventView::Woke(stop_requested),
        LoopEvent::Buffer { len, start_idx } => EventView::Buffer(len, start_idx),
        LoopEvent::BufferFailed => EventView::BufferFailed,
        LoopEvent::Transcribed { text } => EventView::Transcribed(
            match text {
                Some(t) => Some(t@),
                None => None,
            },
        ),
    }
}

/// The range of the buffer that a pass transcribes: on the last pass
/// everything after what was processed, else the unprocessed audio the
/// recorder points at (or, when it points past the end, everything after
/// what was processed).
pub open spec fn pass_range(s: LoopView, len: usize, start_idx: usize) -> (usize, usize) {
    if s.2 {
        (s.1, len)
    } else if start_idx < len {
        (start_idx, len)
    } else {
        (s.1, len)
    }
}

/// The accumulated text with a new piece appended (space-separated).
pub open spec fn appended(acc: Seq<char>, piece: Seq<char>) -> Seq<char> {
    if piece.len() == 0 {
        acc
    } else if acc.len() == 0 {
        piece
    } else {
        acc + " "@ + piece
    }
}

/// One event: the next state, the partial text to send (if any), and the
/// next action.
pub open spec fn loop_step(s: LoopView, e: EventView) -> (LoopView, Option<Seq<char>>, ActionView) {
    match e {
        EventView::Woke(stop) => if stop && s.2 {
            (s, None, ActionView::Finish(s.0))
        } else if stop {
            ((s.0, s.1, true, s.3), None, ActionView::ReadBuffer)
        } else {
            (s, None, ActionView::ReadBuffer)
        },
        EventView::BufferFailed => if s.2 {
            (s, None, ActionView::Finish(s.0))
        } else {
            (s, None, ActionView::Wait)
        },
        EventView::Buffer(len, start_idx) => {
            let new_samples = if len >= s.1 {
                len - s.1
            } else {
                0
            };
            if !s.2 && new_samples < SAMPLE_RATE {
                (s, None, ActionView::Wait)
            } else {
                let r = pass_range(s, len, start_idx);
                if r.0 == r.1 {
                    if s.2 {
                        (s, None, ActionView::Finish(s.0))
                    } else {
                        (s, None, ActionView::Wait)
                    }
                } else {
                    ((s.0, s.1, s.2, Some(len)), None, ActionView::Transcribe(r.0, r.1))
                }
            }
        },
        EventView::Transcribed(text) => {
            let acc = match text {
                Some(t) => appended(s.0, t),
                None => s.0,
            };
            let partial = match text {
                Some(t) => if t.len() > 0 {
                    Some(acc)
                } else {
                    None
                },
                None => None,
            };
            let last = match s.3 {
                Some(l) => l,
                None => s.1,
            };
            let next = (acc, last, s.2, None);
            if s.2 {
                (next, partial, ActionView::Finish(acc))
            } else {
                (next, partial, ActionView::Wait)
            }
        },
    }
}

/// A buffer event can be handled: the processed length does not run past
/// the buffer where the pass reads from it.
pub open spec fn step_allowed(s: LoopView, e: EventView) -> bool {
    match e {
        EventView::Buffer(len, start_idx) => (s.2 || start_idx >= len) ==> s.1 <= len,
        _ => true,
    }
}

impl StreamingLoop {
    /// A loop that polls every `chunk_duration_secs` seconds (at least one).
    /// Its first action is `Wait`.
    pub fn new(chunk_duration_secs: u64) -> (s: Self)
        ensures
            loop_view(s) == (Seq::<char>::empty(), 0usize, false, None::<usize>),
            s.chunk_duration_secs == if chunk_duration_secs < 1 {
                1
            } else {
                chunk_duration_secs
            },
    {
        StreamingLoop {
            accumulated: string_from_chars(&Vec::new()),
            last_processed: 0,
            is_final: false,
            pending_len: None,
            chunk_duration_secs: if chunk_duration_secs < 1 {
                1
            } else {
                chunk_duration_secs
            },
        }
    }

    /// Handles one event; returns the partial text to send, if any, and the
    /// next action.
    pub fn step(&mut self, event: LoopEvent) -> (r: (Option<String>, LoopAction))
        requires
            step_allowed(loop_view(*old(self)), event_view(event)),
        ensures
            ({
                let (next, partial, action) = loop_step(loop_view(*old(self)), event_view(event));
                &&& loop_view(*final(self)) == next
                &&& match r.0 {
                    Some(p) => partial == Some(p@),
                    None => partial is None,
                }
                &&& action_view(r.1) == action
            }),
            final(self).chunk_duration_secs == old(self).chunk_duration_secs,
    {
        proof {
            reveal_strlit(" ");
        }
        match event {
            LoopEvent::Woke { stop_requested } => {
                if stop_requested && self.is_final {
                    (None, LoopAction::Finish { text: copy_text(&self.accumulated) })
                } else {
                    if stop_requested {
                        self.is_final = true;
                    }
                    (None, LoopAction::ReadBuffer)
                }
            },
            LoopEvent::BufferFailed => {
                if self.is_final {
                    (None, LoopAction::Finish { text: copy_text(&self.accumulated) })
                } else {
                    (None, LoopAction::Wait)
                }
            },
            LoopEvent::Buffer { len, start_idx } => {
                let new_samples = if len >= self.last_processed {
                    len - self.last_processed
                } else {
                    0
                };
                if !self.is_final && new_samples < SAMPLE_RATE {
                    return (None, LoopAction::Wait);
                }
                let (from, to) = if self.is_final {
                    (self.last_processed, len)
                } else if start_idx < len {
                    (start_idx, len)
                } else {
                    (self.last_processed, len)
                };
                if from == to {
                    if self.is_final {
                        (None, LoopAction::Finish { text: copy_text(&self.accumulated) })
                    } else {
                        (None, LoopAction::Wait)
                    }
                } else {
                    self.pending_len = Some(len);
                    (None, LoopAction::Transcribe { from, to })
                }
            },
            LoopEvent::Transcribed { text } => {
                let mut partial: Option<String> = None;
                match text {
                    Some(t) => {
                        let piece = chars_of(t.as_str());
                        if piece.len() > 0 {
                            let mut acc = chars_of(self.accumulated.as_str());
                            if acc.len() > 0 {
                                acc.push(' ');
                            }
                            push_chars(&mut acc, &piece);
                            let ghost old_acc = self.accumulated@;
                            assert(acc@ =~= appended(old_acc, t@));
                            self.accumulated = string_from_chars(&acc);
                            partial = Some(copy_text(&self.accumulated));
                        }
                    },
                    None => {},
                }
                match self.pending_len {
                    Some(l) => {
                        self.last_processed = l;
                    },
                    None => {},
                }
                self.pending_len = None;
                if self.is_final {
                    (partial, LoopAction::Finish { text: copy_text(&self.accumulated) })
                } else {
                    (partial, LoopAction::Wait)
                }
            },
        }
    }
}

fn copy_text(s: &String) -> (r: String)
    ensures
        r@ == s@,
{
    crate::hardware::owned(s.as_str())
}

/// Once stop is requested, the loop finishes within the pass: whatever the
/// buffer read and the transcriber report, no further `Wait` is asked for.
pub proof fn lemma_last_pass_never_waits(s: LoopView, e: EventView)
    requires
        s.2,
    ensures
        !(loop_step(s, e).2 is Wait),
        loop_step(s, e).0.2,
{
}

/// The accumulated text only grows: every step keeps what was accumulated as
/// a prefix.
pub proof fn lemma_accumulated_grows(s: LoopView, e: EventView)
    ensures
        loop_step(s, e).0.0.len() >= s.0.len(),
        loop_step(s, e).0.0.subrange(0, s.0.len() as int) == s.0,
{
    let n = loop_step(s, e).0.0;
    match e {
        EventView::Transcribed(Some(t)) => {
            if t.len() > 0 && s.0.len() > 0 {
                assert(n.subrange(0, s.0.len() as int) =~= s.0);
            } else if t.len() > 0 {
                assert(s.0.len() == 0);
                assert(n.subrange(0, 0) =~= s.0);
            } else {
                assert(n.subrange(0, s.0.len() as int) =~= s.0);
            }
        },
        _ => {
            assert(n.subrange(0, s.0.len() as int) =~= s.0);
        },
    }
}

/// Before stop, a pass waits until at least one second of new audio
/// (16000 samples) has arrived past what was processed; after stop it
/// always transcribes whatever is left, or finishes when nothing is.
pub proof fn lemma_pass_needs_a_second(s: LoopView, len: usize, start_idx: usize)
    ensures
        !s.2 && len < s.1 + 16000 ==> loop_step(s, EventView::Buffer(len, start_idx)).2 == ActionView::Wait,
        !s.2 && len >= s.1 + 16000 && start_idx < len ==> loop_step(s, EventView::Buffer(len, start_idx)).2
            == ActionView::Transcribe(start_idx, len),
        s.2 && s.1 < len ==> loop_step(s, EventView::Buffer(len, start_idx)).2 == ActionView::Transcribe(
            s.1,
            len,
        ),
        s.2 && s.1 == len ==> loop_step(s, EventView::Buffer(len, start_idx)).2 == ActionView::Finish(
            s.0,
        ),
{
}

// ---------------------------------------------------------------------------
// Runs of the loop.
// ---------------------------------------------------------------------------

/// The state before the first event.
pub open spec fn initial_loop() -> LoopView {
    (Seq::<char>::empty(), 0usize, false, None::<usize>)
}

/// A run of events from `s`: the state after them, the partial texts sent
/// (in order), and the actions asked for.
pub open spec fn run_loop(s: LoopView, es: Seq<EventView>) -> (LoopView, Seq<Seq<char>>, Seq<ActionView>)
    decreases es.len(),
{
    if es.len() == 0 {
        (s, Seq::empty(), Seq::empty())
    } else {
        let prev = run_loop(s, es.drop_last());
        let (s2, p, a) = loop_step(prev.0, es.last());
        (
            s2,
            match p {
                Some(x) => prev.1.push(x),
                None => prev.1,
            },
            prev.2.push(a),
        )
    }
}

/// Whether some event of `es` reports a stop request.
pub open spec fn stop_seen(es: Seq<EventView>) -> bool {
    exists|i: int| 0 <= i < es.len() && #[trigger] es[i] == EventView::Woke(true)
}

/// The text sent last, or the empty text when none was sent.
pub open spec fn last_or_empty(ps: Seq<Seq<char>>) -> Seq<char> {
    if ps.len() == 0 {
        Seq::empty()
    } else {
        ps.last()
    }
}

/// Over any run from the start: each partial text sent extends the one
/// before it (the pieces accumulate), the loop's text is the last partial
/// sent (empty before any), the last pass begins only after a stop request,
/// and a `Finish` carries exactly the last partial text (or the empty text
/// when none was sent) and comes only after a stop request.
pub proof fn lemma_streaming_run(es: Seq<EventView>)
    ensures
        ({
            let (s, ps, acts) = run_loop(initial_loop(), es);
            &&& forall|k: int|
                0 <= k < ps.len() - 1 ==> #[trigger] ps[k + 1].len() > ps[k].len() && ps[k
                    + 1].subrange(0, ps[k].len() as int) == ps[k]
            &&& forall|k: int| 0 <= k < ps.len() ==> (#[trigger] ps[k]).len() > 0
            &&& s.0 == last_or_empty(ps)
            &&& s.2 ==> stop_seen(es)
            &&& (acts.len() > 0 && acts.last() is Finish) ==> stop_seen(es) && acts.last()
                == ActionView::Finish(last_or_empty(ps))
        }),
    decreases es.len(),
{
    if es.len() > 0 {
        let pre = es.drop_last();
        lemma_streaming_run(pre);
        let prev = run_loop(initial_loop(), pre);
        let e = es.last();
        let (s1, ps1, a1) = prev;
        let step = loop_step(s1, e);
        let cur = run_loop(initial_loop(), es);
        assert(cur.0 == step.0);
        if stop_seen(pre) {
            let i = choose|i: int| 0 <= i < pre.len() && #[trigger] pre[i] == EventView::Woke(true);
            assert(es[i] == pre[i]);
        }
        if e == EventView::Woke(true) {
            assert(es[es.len() - 1] == EventView::Woke(true));
        }
        match e {
            EventView::Transcribed(Some(t)) => {
                if t.len() > 0 {
                    let ps2 = ps1.push(step.0.0);
                    assert(cur.1 == ps2);
                    if ps1.len() > 0 {
                        assert(s1.0 == ps1.last());
                        assert(step.0.0 == appended(s1.0, t));
                        assert(step.0.0.subrange(0, s1.0.len() as int) =~= s1.0);
                    }
                    assert forall|k: int| 0 <= k < ps2.len() - 1 implies #[trigger] ps2[k + 1].len()
                        > ps2[k].len() && ps2[k + 1].subrange(0, ps2[k].len() as int) == ps2[k] by {
                        if k < ps1.len() - 1 {
                            assert(ps2[k] == ps1[k]);
                            assert(ps2[k + 1] == ps1[k + 1]);
                        }
                    }
                    assert forall|k: int| 0 <= k < ps2.len() implies (#[trigger] ps2[k]).len() > 0 by {
                        if k < ps1.len() {
                            assert(ps2[k] == ps1[k]);
                        }
                    }
                } else {
                    assert(cur.1 == ps1);
                }
            },
            _ => {
                assert(cur.1 == ps1);
            },
        }
    }
}

// ---------------------------------------------------------------------------
// The transcriber's worker.
// ---------------------------------------------------------------------------

/// The streaming transcriber as the recording code drives it: the language
/// and chunk interval it was made with, whether a worker runs the loop, and
/// whether stop was signalled. Spawning and joining the worker are the
/// caller's.
#[derive(Debug, Clone)]
pub struct StreamingTranscriber {
    pub language: String,
    pub chunk_duration_secs: u64,
    pub worker_running: bool,
    pub stop_signal: bool,
}

impl StreamingTranscriber {
    /// A transcriber for `language` polling every `chunk_duration_secs`
    /// seconds (at least one); no worker yet.
    pub fn new(language: String, chunk_duration_secs: u64) -> (t: Self)
        ensures
            t.language@ == language@,
            t.chunk_duration_secs == if chunk_duration_secs < 1 {
                1
            } else {
                chunk_duration_secs
            },
            !t.worker_running,
            !t.stop_signal,
    {
        StreamingTranscriber {
            language,
            chunk_duration_secs: if chunk_duration_secs < 1 {
                1
            } else {
                chunk_duration_secs
            },
            worker_running: false,
            stop_signal: false,
        }
    }

    /// Starts streaming: where no worker runs, clears the stop signal and
    /// gives the loop for a new worker to run; where one runs already,
    /// gives nothing and changes nothing (no second worker is spawned).
    pub fn start(&mut self) -> (r: Option<StreamingLoop>)
        ensures
            old(self).worker_running ==> r is None && *final(self) == *old(self),
            !old(self).worker_running ==> {
                &&& r matches Some(l) && loop_view(l) == initial_loop() && l.chunk_duration_secs
                    == if old(self).chunk_duration_secs < 1 {
                    1
                } else {
                    old(self).chunk_duration_secs
                }
                &&& final(self).worker_running
                &&& !final(self).stop_signal
                &&& final(self).language == old(self).language
                &&& final(self).chunk_duration_secs == old(self).chunk_duration_secs
            },
    {
        if self.worker_running {
            return None;
        }
        self.stop_signal = false;
        self.worker_running = true;
        Some(StreamingLoop::new(self.chunk_duration_secs))
    }

    /// Stops streaming: signals stop and answers whether a worker must be
    /// joined; afterwards no worker runs.
    pub fn stop(&mut self) -> (join: bool)
        ensures
            join == old(self).worker_running,
            final(self).stop_signal,
            !final(self).worker_running,
            final(self).language == old(self).language,
            final(self).chunk_duration_secs == old(self).chunk_duration_secs,
    {
        self.stop_signal = true;
        let join = self.worker_running;
        self.worker_running = false;
        join
    }

    /// Whether a worker runs.
    pub fn is_active(&self) -> (r: bool)
        ensures
            r == self.worker_running,
    {
        self.worker_running
    }
}

} // verus!
