//! The transcription policy after a recording stops: which backend is
//! asked, how failures fall back (another local model, then the server),
//! how a degraded transcript is retried, and what text comes out.
//!
//! The decisions are a state machine: the caller starts the server, runs
//! the transcriber and switches models as the actions ask, and reports the
//! outcomes as events.

use vstd::prelude::*;
use crate::guard::{degradation, detect_transcript_degradation};
use crate::num::{decimal_digits, u64_to_decimal};
use crate::text::{
    chars_of, join, push_chars, push_str, split_whitespace, split_ws, split_ws_from,
    string_from_chars, unicode_is_whitespace, views,
};

verus! {

/// How the text of a run was obtained.
#[derive(Debug, Clone, Copy, PartialEq, Eq, Structural)]
pub enum PolicyStage {
    EmbeddedPrimary,
    ServerPrimary,
    EmbeddedRecoveryAfterServerStartFail,
    EmbeddedModelRetry,
    ServerFallback,
    EmbeddedQualityGuardRetry,
    ServerFallbackQualityGuard,
}

pub open spec fn stage_name_of(s: PolicyStage) -> Seq<char> {
    match s {
        PolicyStage::EmbeddedPrimary => "embedded_primary"@,
        PolicyStage::ServerPrimary => "server_primary"@,
        PolicyStage::EmbeddedRecoveryAfterServerStartFail => "embedded_recovery_after_server_start_fail"@,
        PolicyStage::EmbeddedModelRetry => "embedded_model_retry"@,
        PolicyStage::ServerFallback => "server_fallback"@,
        PolicyStage::EmbeddedQualityGuardRetry => "embedded_quality_guard_retry"@,
        PolicyStage::ServerFallbackQualityGuard => "server_fallback_quality_guard"@,
    }
}

/// The name a stage is logged and filed under.
pub fn stage_name(s: PolicyStage) -> (r: &'static str)
    ensures
        r@ == stage_name_of(s),
{
    match s {
        PolicyStage::EmbeddedPrimary => "embedded_primary",
        PolicyStage::ServerPrimary => "server_primary",
        PolicyStage::EmbeddedRecoveryAfterServerStartFail => "embedded_recovery_after_server_start_fail",
        PolicyStage::EmbeddedModelRetry => "embedded_model_retry",
        PolicyStage::ServerFallback => "server_fallback",
        PolicyStage::EmbeddedQualityGuardRetry => "embedded_quality_guard_retry",
        PolicyStage::ServerFallbackQualityGuard => "server_fallback_quality_guard",
    }
}

/// Why a run produced no text; the recording is filed with this reason.
#[derive(Debug, Clone, Copy, PartialEq, Eq, Structural)]
pub enum PolicyFailure {
    /// The server did not start and no local model was left to switch to.
    ServerStartFailed,
    /// The local model failed, no other was left, and the server fallback
    /// is off.
    EmbeddedFailed,
    /// The local model failed, no other was left, and the server fallback
    /// failed too.
    ServerFallbackUnavailable,
    /// The retry on another local model failed too; `server_tried` when the
    /// server fallback was tried and failed.
    EmbeddedRetryFailed { server_tried: bool },
    /// The server's transcription failed.
    ServerFailed,
}

pub open spec fn failure_reason_of(f: PolicyFailure) -> Seq<char> {
    match f {
        PolicyFailure::ServerStartFailed => "server startup error"@,
        PolicyFailure::EmbeddedFailed => "embedded transcription failed"@,
        PolicyFailure::ServerFallbackUnavailable => "server fallback unavailable"@,
        PolicyFailure::EmbeddedRetryFailed { server_tried } => if server_tried {
            "embedded retry failed and server fallback unavailable"@
        } else {
            "embedded retry failed"@
        },
        PolicyFailure::ServerFailed => "server transcription failed"@,
    }
}

pub open spec fn failure_stage_of(f: PolicyFailure) -> Seq<char> {
    match f {
        PolicyFailure::ServerStartFailed => "server_start_failed"@,
        PolicyFailure::EmbeddedFailed => "embedded_failed"@,
        PolicyFailure::ServerFallbackUnavailable => "server_fallback_unavailable"@,
        PolicyFailure::EmbeddedRetryFailed { .. } => "embedded_retry_failed"@,
        PolicyFailure::ServerFailed => "server_failed"@,
    }
}

impl PolicyFailure {
    /// The reason filed with the recording.
    pub fn reason(&self) -> (r: &'static str)
        ensures
            r@ == failure_reason_of(*self),
    {
        match self {
            PolicyFailure::ServerStartFailed => "server startup error",
            PolicyFailure::EmbeddedFailed => "embedded transcription failed",
            PolicyFailure::ServerFallbackUnavailable => "server fallback unavailable",
            PolicyFailure::EmbeddedRetryFailed { server_tried } => if *server_tried {
                "embedded retry failed and server fallback unavailable"
            } else {
                "embedded retry failed"
            },
            PolicyFailure::ServerFailed => "server transcription failed",
        }
    }

    /// The stage the failed recording is filed under.
    pub fn stage(&self) -> (r: &'static str)
        ensures
            r@ == failure_stage_of(*self),
    {
        match self {
            PolicyFailure::ServerStartFailed => "server_start_failed",
            PolicyFailure::EmbeddedFailed => "embedded_failed",
            PolicyFailure::ServerFallbackUnavailable => "server_fallback_unavailable",
            PolicyFailure::EmbeddedRetryFailed { .. } => "embedded_retry_failed",
            PolicyFailure::ServerFailed => "server_failed",
        }
    }
}

/// Where a run stands.
#[derive(Debug, Clone)]
pub enum Phase {
    Starting,
    /// The server is being started.
    AwaitServer,
    /// The server did not start; a local model is being switched to.
    AwaitRecoverySwitch,
    /// The transcriber runs (`forced_embedded` after a server start failure).
    AwaitTranscript { forced_embedded: bool },
    /// The local model failed; the next fallback model is being switched to.
    AwaitRetrySwitch,
    /// The transcriber runs again on the fallback model.
    AwaitRetry,
    /// The server fallback runs (`after_retry` when a retry failed first).
    AwaitServerFallback { after_retry: bool },
    /// The safe decode profile runs on a transcript that looked degraded.
    AwaitSafe { raw: String },
    /// The server fallback runs on a transcript still degraded after the
    /// safe profile.
    AwaitQualityFallback { raw: String },
    Done,
}

/// One run of the policy.
#[derive(Debug, Clone)]
pub struct PolicyRun {
    /// The configured backend is the embedded engine.
    pub is_embedded: bool,
    pub server_fallback_enabled: bool,
    /// Streaming transcription was on when the recording stopped.
    pub streaming_enabled: bool,
    pub stage: PolicyStage,
    pub retry_count: u32,
    pub server_fallback_used: bool,
    pub phase: Phase,
}

/// What the caller reports.
#[derive(Debug, Clone)]
pub enum PolicyEvent {
    /// The run begins with the text streamed while recording (empty when
    /// none was).
    Begin { streamed_text: String },
    ServerReady { ok: bool },
    /// Whether a fallback model was switched to.
    FallbackSwitched { switched: bool },
    /// The transcriber's text, `None` when it failed.
    Transcribed { text: Option<String> },
    /// The safe profile's text, `None` when it failed.
    SafeRetried { text: Option<String> },
    /// The server fallback's text, `None` when it was unavailable.
    ServerFallbackResult { text: Option<String> },
}

/// What the caller does next.
#[derive(Debug, Clone, PartialEq, Eq)]
pub enum PolicyAction {
    /// Start the server (30 s), then report `ServerReady`.
    EnsureServer,
    /// Stop the server if this process started it, switch to the next
    /// fallback model, and report `FallbackSwitched`.
    RecoverFromServerStart,
    /// Transcribe on the embedded engine or on the server.
    Transcribe { embedded: bool },
    /// Switch to the next fallback model, report `FallbackSwitched`.
    SwitchFallbackModel,
    /// Transcribe on the model just switched to.
    RetryOnFallbackModel,
    /// Start the server (20 s) and transcribe on it; report
    /// `ServerFallbackResult`.
    ServerFallback,
    /// Transcribe again with the safe decode profile.
    RetrySafeProfile,
    /// Give up; file the recording as failed.
    Fail { failure: PolicyFailure },
    /// Nothing was said.
    NoText,
    /// The transcript, ready for correction and insertion.
    Deliver { text: String },
}

pub enum PhaseView {
    Starting,
    AwaitServer,
    AwaitRecoverySwitch,
    AwaitTranscript(bool),
    AwaitRetrySwitch,
    AwaitRetry,
    AwaitServerFallback(bool),
    AwaitSafe(Seq<char>),
    AwaitQualityFallback(Seq<char>),
    Done,
}

pub open spec fn phase_view(p: Phase) -> PhaseView {
    match p {
        Phase::Starting => PhaseView::Starting,
        Phase::AwaitServer => PhaseView::AwaitServer,
        Phase::AwaitRecoverySwitch => PhaseView::AwaitRecoverySwitch,
        Phase::AwaitTranscript { forced_embedded } => PhaseView::AwaitTranscript(forced_embedded),
        Phase::AwaitRetrySwitch => PhaseView::AwaitRetrySwitch,
        Phase::AwaitRetry => PhaseView::AwaitRetry,
        Phase::AwaitServerFallback { after_retry } => PhaseView::AwaitServerFallback(after_retry),
        Phase::AwaitSafe { raw } => PhaseView::AwaitSafe(raw@),
        Phase::AwaitQualityFallback { raw } => PhaseView::AwaitQualityFallback(raw@),
        Phase::Done => PhaseView::Done,
    }
}

/// The run as the contracts see it: the configuration (embedded, server
/// fallback, streaming), the stage, the retry count, whether the server
/// fallback was used, and the phase.
pub struct RunView {
    pub is_embedded: bool,
    pub server_fallback: bool,
    pub streaming: bool,
    pub stage: PolicyStage,
    pub retries: u32,
    pub used_server: bool,
    pub phase: PhaseView,
}

pub open spec fn run_view(r: PolicyRun) -> RunView {
    RunView {
        is_embedded: r.is_embedded,
        server_fallback: r.server_fallback_enabled,
        streaming: r.streaming_enabled,
        stage: r.stage,
        retries: r.retry_count,
        used_server: r.server_fallback_used,
        phase: phase_view(r.phase),
    }
}

pub enum EventView {
    Begin(Seq<char>),
    ServerReady(bool),
    FallbackSwitched(bool),
    Transcribed(Option<Seq<char>>),
    SafeRetried(Option<Seq<char>>),
    ServerFallbackResult(Option<Seq<char>>),
}

pub open spec fn opt_text(t: Option<String>) -> Option<Seq<char>> {
    match t {
        Some(s) => Some(s@),
        None => None,
    }
}

pub open spec fn event_view(e: PolicyEvent) -> EventView {
    match e {
        PolicyEvent::Begin { streamed_text } => EventView::Begin(streamed_text@),
        PolicyEvent::ServerReady { ok } => EventView::ServerReady(ok),
        PolicyEvent::FallbackSwitched { switched } => EventView::FallbackSwitched(switched),
        PolicyEvent::Transcribed { text } => EventView::Transcribed(opt_text(text)),
        PolicyEvent::SafeRetried { text } => EventView::SafeRetried(opt_text(text)),
        PolicyEvent::ServerFallbackResult { text } => EventView::ServerFallbackResult(opt_text(text)),
    }
}

pub enum ActionView {
    EnsureServer,
    RecoverFromServerStart,
    Transcribe(bool),
    SwitchFallbackModel,
    RetryOnFallbackModel,
    ServerFallback,
    RetrySafeProfile,
    Fail(PolicyFailure),
    NoText,
    Deliver(Seq<char>),
}

pub open spec fn action_view(a: PolicyAction) -> ActionView {
    match a {
        PolicyAction::EnsureServer => ActionView::EnsureServer,
        PolicyAction::RecoverFromServerStart => ActionView::RecoverFromServerStart,
        PolicyAction::Transcribe { embedded } => ActionView::Transcribe(embedded),
        PolicyAction::SwitchFallbackModel => ActionView::SwitchFallbackModel,
        PolicyAction::RetryOnFallbackModel => ActionView::RetryOnFallbackModel,
        PolicyAction::ServerFallback => ActionView::ServerFallback,
        PolicyAction::RetrySafeProfile => ActionView::RetrySafeProfile,
        PolicyAction::Fail { failure } => ActionView::Fail(failure),
        PolicyAction::NoText => ActionView::NoText,
        PolicyAction::Deliver { text } => ActionView::Deliver(text@),
    }
}

/// A transcript with its whitespace runs collapsed to single spaces and
/// none at the ends.
pub open spec fn normalize_spaces(t: Seq<char>) -> Seq<char> {
    join(split_ws(t), " "@)
}

pub open spec fn saturating_inc(n: u32) -> u32 {
    if n == u32::MAX {
        n
    } else {
        (n + 1) as u32
    }
}

pub open spec fn with_phase(s: RunView, p: PhaseView) -> RunView {
    RunView { phase: p, ..s }
}

pub open spec fn retried(s: RunView, stage: PolicyStage, p: PhaseView) -> RunView {
    RunView { stage, retries: saturating_inc(s.retries), phase: p, ..s }
}

/// A transcript has arrived: empty after normalising, nothing was said; a
/// degraded one from the embedded engine (streaming off) is retried with
/// the safe profile; else it is delivered.
pub open spec fn text_ready(s: RunView, t: Seq<char>) -> (RunView, ActionView) {
    let n = normalize_spaces(t);
    if n.len() == 0 {
        (with_phase(s, PhaseView::Done), ActionView::NoText)
    } else if s.is_embedded && !s.streaming && degradation(n) is Some {
        (with_phase(s, PhaseView::AwaitSafe(n)), ActionView::RetrySafeProfile)
    } else {
        (with_phase(s, PhaseView::Done), ActionView::Deliver(n))
    }
}

/// The events that the phase waits for.
pub open spec fn expects(p: PhaseView, e: EventView) -> bool {
    match p {
        PhaseView::Starting => e is Begin,
        PhaseView::AwaitServer => e is ServerReady,
        PhaseView::AwaitRecoverySwitch => e is FallbackSwitched,
        PhaseView::AwaitTranscript(_) => e is Transcribed,
        PhaseView::AwaitRetrySwitch => e is FallbackSwitched,
        PhaseView::AwaitRetry => e is Transcribed,
        PhaseView::AwaitServerFallback(_) => e is ServerFallbackResult,
        PhaseView::AwaitSafe(_) => e is SafeRetried,
        PhaseView::AwaitQualityFallback(_) => e is ServerFallbackResult,
        PhaseView::Done => false,
    }
}

/// One event: the next state and the next action.
pub open spec fn policy_step(s: RunView, e: EventView) -> (RunView, ActionView) {
    match (s.phase, e) {
        (PhaseView::Starting, EventView::Begin(streamed)) => if streamed.len() > 0 {
            text_ready(s, streamed)
        } else if !s.is_embedded {
            (with_phase(s, PhaseView::AwaitServer), ActionView::EnsureServer)
        } else {
            (with_phase(s, PhaseView::AwaitTranscript(false)), ActionView::Transcribe(true))
        },
        (PhaseView::AwaitServer, EventView::ServerReady(ok)) => if ok {
            (with_phase(s, PhaseView::AwaitTranscript(false)), ActionView::Transcribe(false))
        } else {
            (with_phase(s, PhaseView::AwaitRecoverySwitch), ActionView::RecoverFromServerStart)
        },
        (PhaseView::AwaitRecoverySwitch, EventView::FallbackSwitched(sw)) => if sw {
            (
                retried(
                    s,
                    PolicyStage::EmbeddedRecoveryAfterServerStartFail,
                    PhaseView::AwaitTranscript(true),
                ),
                ActionView::Transcribe(true),
            )
        } else {
            (with_phase(s, PhaseView::Done), ActionView::Fail(PolicyFailure::ServerStartFailed))
        },
        (PhaseView::AwaitTranscript(_), EventView::Transcribed(t)) => match t {
            Some(text) => text_ready(s, text),
            None => if s.is_embedded {
                (with_phase(s, PhaseView::AwaitRetrySwitch), ActionView::SwitchFallbackModel)
            } else {
                (with_phase(s, PhaseView::Done), ActionView::Fail(PolicyFailure::ServerFailed))
            },
        },
        (PhaseView::AwaitRetrySwitch, EventView::FallbackSwitched(sw)) => if sw {
            (with_phase(s, PhaseView::AwaitRetry), ActionView::RetryOnFallbackModel)
        } else if s.server_fallback {
            (with_phase(s, PhaseView::AwaitServerFallback(false)), ActionView::ServerFallback)
        } else {
            (with_phase(s, PhaseView::Done), ActionView::Fail(PolicyFailure::EmbeddedFailed))
        },
        (PhaseView::AwaitRetry, EventView::Transcribed(t)) => match t {
            Some(text) => text_ready(
                retried(s, PolicyStage::EmbeddedModelRetry, s.phase),
                text,
            ),
            None => if s.server_fallback {
                (with_phase(s, PhaseView::AwaitServerFallback(true)), ActionView::ServerFallback)
            } else {
                (
                    with_phase(s, PhaseView::Done),
                    ActionView::Fail(PolicyFailure::EmbeddedRetryFailed { server_tried: false }),
                )
            },
        },
        (PhaseView::AwaitServerFallback(after_retry), EventView::ServerFallbackResult(t)) => match t {
            Some(text) => text_ready(
                RunView { stage: PolicyStage::ServerFallback, used_server: true, ..s },
                text,
            ),
            None => (
                with_phase(s, PhaseView::Done),
                ActionView::Fail(
                    if after_retry {
                        PolicyFailure::EmbeddedRetryFailed { server_tried: true }
                    } else {
                        PolicyFailure::ServerFallbackUnavailable
                    },
                ),
            ),
        },
        (PhaseView::AwaitSafe(raw), EventView::SafeRetried(t)) => match t {
            Some(text) => {
                let n = normalize_spaces(text);
                if n.len() == 0 {
                    (with_phase(s, PhaseView::Done), ActionView::Deliver(raw))
                } else if degradation(n) is Some {
                    if s.server_fallback {
                        (with_phase(s, PhaseView::AwaitQualityFallback(raw)), ActionView::ServerFallback)
                    } else {
                        (with_phase(s, PhaseView::Done), ActionView::Deliver(raw))
                    }
                } else {
                    (
                        retried(s, PolicyStage::EmbeddedQualityGuardRetry, PhaseView::Done),
                        ActionView::Deliver(n),
                    )
                }
            },
            None => (with_phase(s, PhaseView::Done), ActionView::Deliver(raw)),
        },
        (PhaseView::AwaitQualityFallback(raw), EventView::ServerFallbackResult(t)) => match t {
            Some(text) => (
                RunView {
                    stage: PolicyStage::ServerFallbackQualityGuard,
                    used_server: true,
                    phase: PhaseView::Done,
                    ..s
                },
                ActionView::Deliver(normalize_spaces(text)),
            ),
            None => (with_phase(s, PhaseView::Done), ActionView::Deliver(raw)),
        },
        _ => (s, ActionView::NoText),
    }
}

/// The action ends the run: the text is given up on, absent, or delivered.
pub open spec fn terminal(a: ActionView) -> bool {
    a is Fail || a is NoText || a is Deliver
}

/// What every step keeps: the configuration is unchanged; the retry count
/// never drops and grows by at most one; once the server fallback was used
/// it stays used; the run is over exactly when the action is terminal; the
/// server fallback is only asked for when it is enabled; and the safe
/// profile is only tried for the embedded engine with streaming off.
pub proof fn lemma_policy_step_invariants(s: RunView, e: EventView)
    requires
        expects(s.phase, e),
    ensures
        ({
            let (n, a) = policy_step(s, e);
            &&& n.is_embedded == s.is_embedded
            &&& n.server_fallback == s.server_fallback
            &&& n.streaming == s.streaming
            &&& s.retries <= n.retries <= s.retries + 1
            &&& s.used_server ==> n.used_server
            &&& (n.phase is Done <==> terminal(a))
            &&& a is ServerFallback ==> s.server_fallback
            &&& a is RetrySafeProfile ==> s.is_embedded && !s.streaming
        }),
{
}

/// A server-configured run whose server starts and transcribes delivers
/// that transcript, normalised, at the server-primary stage without
/// retries.
pub proof fn lemma_server_happy_path(cfg: RunView, text: Seq<char>)
    requires
        !cfg.is_embedded,
        cfg.stage == PolicyStage::ServerPrimary,
        cfg.retries == 0,
        cfg.phase == PhaseView::Starting,
        normalize_spaces(text).len() > 0,
    ensures
        ({
            let (s1, a1) = policy_step(cfg, EventView::Begin(seq![]));
            let (s2, a2) = policy_step(s1, EventView::ServerReady(true));
            let (s3, a3) = policy_step(s2, EventView::Transcribed(Some(text)));
            &&& a1 == ActionView::EnsureServer
            &&& a2 == ActionView::Transcribe(false)
            &&& a3 == ActionView::Deliver(normalize_spaces(text))
            &&& s3.stage == PolicyStage::ServerPrimary
            &&& s3.retries == 0
        }),
{
}

/// A word as `split_whitespace` yields it: not empty, no whitespace.
pub open spec fn solid_word(w: Seq<char>) -> bool {
    w.len() > 0 && forall|i: int| 0 <= i < w.len() ==> !unicode_is_whitespace(#[trigger] w[i])
}

/// Text with no whitespace at either end and never two whitespace
/// characters in a row.
pub open spec fn clean_spacing(t: Seq<char>) -> bool {
    &&& t.len() > 0 ==> !unicode_is_whitespace(t[0]) && !unicode_is_whitespace(t.last())
    &&& forall|i: int|
        0 <= i < t.len() - 1 ==> !(unicode_is_whitespace(#[trigger] t[i]) && unicode_is_whitespace(
            t[i + 1],
        ))
}

proof fn lemma_split_ws_from_solid(s: Seq<char>, cur: Seq<char>)
    requires
        forall|i: int| 0 <= i < cur.len() ==> !unicode_is_whitespace(#[trigger] cur[i]),
    ensures
        forall|k: int| 0 <= k < split_ws_from(s, cur).len() ==> solid_word(
            #[trigger] split_ws_from(s, cur)[k],
        ),
    decreases s.len(),
{
    if s.len() == 0 {
        if cur.len() > 0 {
            assert(solid_word(cur));
            assert(split_ws_from(s, cur) =~= seq![cur]);
        }
    } else if unicode_is_whitespace(s[0]) {
        lemma_split_ws_from_solid(s.drop_first(), seq![]);
        let head: Seq<Seq<char>> = if cur.len() > 0 {
            seq![cur]
        } else {
            seq![]
        };
        let rest = split_ws_from(s.drop_first(), seq![]);
        assert(split_ws_from(s, cur) == head + rest);
        if cur.len() > 0 {
            assert(solid_word(cur));
        }
        assert forall|k: int| 0 <= k < (head + rest).len() implies solid_word(
            #[trigger] (head + rest)[k],
        ) by {
            if k >= head.len() {
                assert((head + rest)[k] == rest[k - head.len()]);
            } else {
                assert((head + rest)[k] == cur);
            }
        }
    } else {
        let next = cur.push(s[0]);
        assert forall|i: int| 0 <= i < next.len() implies !unicode_is_whitespace(#[trigger] next[i]) by {
            if i < cur.len() {
                assert(next[i] == cur[i]);
            }
        }
        lemma_split_ws_from_solid(s.drop_first(), next);
        assert(split_ws_from(s, cur) == split_ws_from(s.drop_first(), next));
    }
}

proof fn lemma_join_solid_clean(words: Seq<Seq<char>>)
    requires
        forall|k: int| 0 <= k < words.len() ==> solid_word(#[trigger] words[k]),
    ensures
        clean_spacing(join(words, " "@)),
        words.len() > 0 ==> join(words, " "@).len() > 0,
    decreases words.len(),
{
    if words.len() == 1 {
        assert(solid_word(words[0]));
    } else if words.len() > 1 {
        let prev = words.drop_last();
        assert forall|k: int| 0 <= k < prev.len() implies solid_word(#[trigger] prev[k]) by {
            assert(prev[k] == words[k]);
        }
        lemma_join_solid_clean(prev);
        let p = join(prev, " "@);
        let w = words.last();
        assert(solid_word(w)) by {
            assert(words[words.len() - 1] == w);
        }
        let j = join(words, " "@);
        assert(j == p + " "@ + w);
        reveal_strlit(" ");
        assert(" "@ =~= seq![' ']);
        let n = p.len();
        assert(j[0] == p[0]);
        assert(j.last() == w.last());
        assert forall|i: int| 0 <= i < j.len() - 1 implies !(unicode_is_whitespace(#[trigger] j[i])
            && unicode_is_whitespace(j[i + 1])) by {
            if i < n - 1 {
                assert(j[i] == p[i] && j[i + 1] == p[i + 1]);
            } else if i == n - 1 {
                assert(j[i] == p.last());
            } else if i == n {
                assert(j[i + 1] == w[0]);
            } else {
                assert(j[i] == w[i - n - 1] && j[i + 1] == w[i - n]);
            }
        }
    }
}

/// A normalised transcript has no whitespace at either end and never two
/// whitespace characters in a row.
pub proof fn lemma_normalized_spacing(t: Seq<char>)
    ensures
        clean_spacing(normalize_spaces(t)),
{
    lemma_split_ws_from_solid(t, seq![]);
    lemma_join_solid_clean(split_ws(t));
}

/// The transcripts a run holds are clean: the one kept while the safe
/// profile or the quality fallback runs.
pub open spec fn held_text_clean(s: RunView) -> bool {
    match s.phase {
        PhaseView::AwaitSafe(raw) => clean_spacing(raw),
        PhaseView::AwaitQualityFallback(raw) => clean_spacing(raw),
        _ => true,
    }
}

/// Whatever the backends return, the text a run delivers has no whitespace
/// at either end and never two whitespace characters in a row; a step keeps
/// the held transcript clean.
pub proof fn lemma_delivered_text_clean(s: RunView, e: EventView)
    requires
        held_text_clean(s),
    ensures
        held_text_clean(policy_step(s, e).0),
        policy_step(s, e).1 matches ActionView::Deliver(t) ==> clean_spacing(t),
{
    match e {
        EventView::Begin(t) => lemma_normalized_spacing(t),
        EventView::Transcribed(Some(t)) => lemma_normalized_spacing(t),
        EventView::SafeRetried(Some(t)) => lemma_normalized_spacing(t),
        EventView::ServerFallbackResult(Some(t)) => lemma_normalized_spacing(t),
        _ => {},
    }
}

/// Collapses whitespace runs to single spaces and trims the ends.
pub fn normalize_transcript(text: &str) -> (r: String)
    ensures
        r@ == normalize_spaces(text@),
{
    let words = split_whitespace(chars_of(text).as_slice());
    let ghost ws = views(words@);
    let mut out: Vec<char> = Vec::new();
    let mut i: usize = 0;
    assert(ws.take(0) =~= Seq::<Seq<char>>::empty());
    while i < words.len()
        invariant
            i <= words@.len(),
            ws == views(words@),
            out@ == join(ws.take(i as int), " "@),
        decreases words@.len() - i,
    {
        proof {
            reveal_strlit(" ");
        }
        let ghost before = out@;
        assert(ws.take(i + 1).drop_last() =~= ws.take(i as int));
        assert(ws.take(i + 1).last() == words@[i as int]@);
        if i > 0 {
            out.push(' ');
        }
        push_chars(&mut out, words[i].as_slice());
        proof {
            if i > 0 {
                assert(out@ =~= before + " "@ + words@[i as int]@);
            } else {
                assert(ws.take(1) =~= seq![ws[0]]);
                assert(out@ =~= words@[0]@);
            }
        }
        i = i + 1;
    }
    assert(ws.take(i as int) =~= ws);
    string_from_chars(out.as_slice())
}

impl PolicyRun {
    /// A run for the configured backend; its first event is `Begin`.
    pub fn new(is_embedded: bool, server_fallback_enabled: bool, streaming_enabled: bool) -> (r: Self)
        ensures
            run_view(r) == (RunView {
                is_embedded,
                server_fallback: server_fallback_enabled,
                streaming: streaming_enabled,
                stage: if is_embedded {
                    PolicyStage::EmbeddedPrimary
                } else {
                    PolicyStage::ServerPrimary
                },
                retries: 0,
                used_server: false,
                phase: PhaseView::Starting,
            }),
    {
        PolicyRun {
            is_embedded,
            server_fallback_enabled,
            streaming_enabled,
            stage: if is_embedded {
                PolicyStage::EmbeddedPrimary
            } else {
                PolicyStage::ServerPrimary
            },
            retry_count: 0,
            server_fallback_used: false,
            phase: Phase::Starting,
        }
    }

    fn bump_retry(&mut self, stage: PolicyStage)
        ensures
            final(self).stage == stage,
            final(self).retry_count == saturating_inc(old(self).retry_count),
            final(self).is_embedded == old(self).is_embedded,
            final(self).server_fallback_enabled == old(self).server_fallback_enabled,
            final(self).streaming_enabled == old(self).streaming_enabled,
            final(self).server_fallback_used == old(self).server_fallback_used,
            final(self).phase == old(self).phase,
    {
        self.stage = stage;
        self.retry_count = self.retry_count.saturating_add(1);
    }

    fn on_text(&mut self, text: &str) -> (a: PolicyAction)
        ensures
            (run_view(*final(self)), action_view(a)) == text_ready(run_view(*old(self)), text@),
    {
        let n = normalize_transcript(text);
        if n.as_str().is_empty() {
            self.phase = Phase::Done;
            return PolicyAction::NoText;
        }
        if self.is_embedded && !self.streaming_enabled {
            match detect_transcript_degradation(n.as_str()) {
                Some(_) => {
                    self.phase = Phase::AwaitSafe { raw: n };
                    return PolicyAction::RetrySafeProfile;
                },
                None => {},
            }
        }
        self.phase = Phase::Done;
        PolicyAction::Deliver { text: n }
    }

    /// Handles one event; returns the next action.
    pub fn step(&mut self, event: PolicyEvent) -> (a: PolicyAction)
        requires
            expects(run_view(*old(self)).phase, event_view(event)),
        ensures
            (run_view(*final(self)), action_view(a)) == policy_step(
                run_view(*old(self)),
                event_view(event),
            ),
    {
        let mut phase = Phase::Done;
        core::mem::swap(&mut phase, &mut self.phase);
        match (phase, event) {
            (Phase::Starting, PolicyEvent::Begin { streamed_text }) => {
                if !streamed_text.as_str().is_empty() {
                    self.on_text(streamed_text.as_str())
                } else if !self.is_embedded {
                    self.phase = Phase::AwaitServer;
                    PolicyAction::EnsureServer
                } else {
                    self.phase = Phase::AwaitTranscript { forced_embedded: false };
                    PolicyAction::Transcribe { embedded: true }
                }
            },
            (Phase::AwaitServer, PolicyEvent::ServerReady { ok }) => {
                if ok {
                    self.phase = Phase::AwaitTranscript { forced_embedded: false };
                    PolicyAction::Transcribe { embedded: false }
                } else {
                    self.phase = Phase::AwaitRecoverySwitch;
                    PolicyAction::RecoverFromServerStart
                }
            },
            (Phase::AwaitRecoverySwitch, PolicyEvent::FallbackSwitched { switched }) => {
                if switched {
                    self.bump_retry(PolicyStage::EmbeddedRecoveryAfterServerStartFail);
                    self.phase = Phase::AwaitTranscript { forced_embedded: true };
                    PolicyAction::Transcribe { embedded: true }
                } else {
                    self.phase = Phase::Done;
                    PolicyAction::Fail { failure: PolicyFailure::ServerStartFailed }
                }
            },
            (Phase::AwaitTranscript { .. }, PolicyEvent::Transcribed { text }) => match text {
                Some(t) => self.on_text(t.as_str()),
                None => if self.is_embedded {
                    self.phase = Phase::AwaitRetrySwitch;
                    PolicyAction::SwitchFallbackModel
                } else {
                    self.phase = Phase::Done;
                    PolicyAction::Fail { failure: PolicyFailure::ServerFailed }
                },
            },
            (Phase::AwaitRetrySwitch, PolicyEvent::FallbackSwitched { switched }) => {
                if switched {
                    self.phase = Phase::AwaitRetry;
                    PolicyAction::RetryOnFallbackModel
                } else if self.server_fallback_enabled {
                    self.phase = Phase::AwaitServerFallback { after_retry: false };
                    PolicyAction::ServerFallback
                } else {
                    self.phase = Phase::Done;
                    PolicyAction::Fail { failure: PolicyFailure::EmbeddedFailed }
                }
            },
            (Phase::AwaitRetry, PolicyEvent::Transcribed { text }) => match text {
                Some(t) => {
                    self.bump_retry(PolicyStage::EmbeddedModelRetry);
                    self.on_text(t.as_str())
                },
                None => if self.server_fallback_enabled {
                    self.phase = Phase::AwaitServerFallback { after_retry: true };
                    PolicyAction::ServerFallback
                } else {
                    self.phase = Phase::Done;
                    PolicyAction::Fail {
                        failure: PolicyFailure::EmbeddedRetryFailed { server_tried: false },
                    }
                },
            },
            (Phase::AwaitServerFallback { after_retry }, PolicyEvent::ServerFallbackResult { text }) => {
                match text {
                    Some(t) => {
                        self.stage = PolicyStage::ServerFallback;
                        self.server_fallback_used = true;
                        self.on_text(t.as_str())
                    },
                    None => {
                        self.phase = Phase::Done;
                        let failure = if after_retry {
                            PolicyFailure::EmbeddedRetryFailed { server_tried: true }
                        } else {
                            PolicyFailure::ServerFallbackUnavailable
                        };
                        PolicyAction::Fail { failure }
                    },
                }
            },
            (Phase::AwaitSafe { raw }, PolicyEvent::SafeRetried { text }) => match text {
                Some(t) => {
                    let n = normalize_transcript(t.as_str());
                    if n.as_str().is_empty() {
                        self.phase = Phase::Done;
                        PolicyAction::Deliver { text: raw }
                    } else {
                        match detect_transcript_degradation(n.as_str()) {
                            Some(_) => if self.server_fallback_enabled {
                                self.phase = Phase::AwaitQualityFallback { raw };
                                PolicyAction::ServerFallback
                            } else {
                                self.phase = Phase::Done;
                                PolicyAction::Deliver { text: raw }
                            },
                            None => {
                                self.bump_retry(PolicyStage::EmbeddedQualityGuardRetry);
                                self.phase = Phase::Done;
                                PolicyAction::Deliver { text: n }
                            },
                        }
                    }
                },
                None => {
                    self.phase = Phase::Done;
                    PolicyAction::Deliver { text: raw }
                },
            },
            (Phase::AwaitQualityFallback { raw }, PolicyEvent::ServerFallbackResult { text }) => {
                match text {
                    Some(t) => {
                        self.stage = PolicyStage::ServerFallbackQualityGuard;
                        self.server_fallback_used = true;
                        self.phase = Phase::Done;
                        PolicyAction::Deliver { text: normalize_transcript(t.as_str()) }
                    },
                    None => {
                        self.phase = Phase::Done;
                        PolicyAction::Deliver { text: raw }
                    },
                }
            },
            _ => PolicyAction::NoText,
        }
    }
}

// ---------------------------------------------------------------------------
// What is filed and shown once a run is over.
// ---------------------------------------------------------------------------

/// The mode a recording is filed under: `streaming` or `full`, a bar, and
/// the stage.
pub fn history_mode(streaming: bool, stage: &str) -> (r: String)
    ensures
        r@ == (if streaming {
            "streaming"@
        } else {
            "full"@
        }) + "|"@ + stage@,
{
    let mut v = if streaming {
        chars_of("streaming")
    } else {
        chars_of("full")
    };
    push_str(&mut v, "|");
    push_str(&mut v, stage);
    string_from_chars(v.as_slice())
}

/// The text filed for a recording whose transcription failed.
pub fn failed_recording_text(failure: PolicyFailure) -> (r: String)
    ensures
        r@ == "[Transcription failed] "@ + failure_reason_of(failure),
{
    let mut v = chars_of("[Transcription failed] ");
    push_str(&mut v, failure.reason());
    string_from_chars(v.as_slice())
}

/// How long the confirmation overlay stays: the configured seconds, kept
/// between 1 and 15.
pub fn confirmation_seconds(configured: u32) -> (r: u64)
    ensures
        r == (if configured < 1 {
            1
        } else if configured > 15 {
            15
        } else {
            configured
        }),
{
    if configured < 1 {
        1
    } else if configured > 15 {
        15
    } else {
        configured as u64
    }
}

/// Words shown in the confirmation overlay.
pub const SUMMARY_WORDS: usize = 16;

/// The confirmation overlay's text: the word and character counts, then the
/// first sixteen words, with `...` when there were more.
pub open spec fn inserted_summary_of(text: Seq<char>) -> Seq<char> {
    let words = split_ws(text);
    "Inserted: "@ + decimal_digits(words.len()) + " words | "@ + decimal_digits(text.len())
        + " chars\n"@ + join(
        if words.len() > 16 {
            words.take(16)
        } else {
            words
        },
        " "@,
    ) + if words.len() > 16 {
        "..."@
    } else {
        ""@
    }
}

pub fn inserted_summary(text: &str) -> (r: String)
    ensures
        r@ == inserted_summary_of(text@),
{
    let chars = chars_of(text);
    let words = split_whitespace(chars.as_slice());
    let ghost ws = views(words@);
    let shown: usize = if words.len() > SUMMARY_WORDS {
        SUMMARY_WORDS
    } else {
        words.len()
    };
    let mut v = chars_of("Inserted: ");
    let wc = u64_to_decimal(words.len() as u64);
    push_chars(&mut v, wc.as_slice());
    push_str(&mut v, " words | ");
    let cc = u64_to_decimal(chars.len() as u64);
    push_chars(&mut v, cc.as_slice());
    push_str(&mut v, " chars\n");
    let ghost head = v@;
    let mut i: usize = 0;
    assert(ws.take(0) =~= Seq::<Seq<char>>::empty());
    while i < shown
        invariant
            i <= shown <= words@.len(),
            ws == views(words@),
            v@ == head + join(ws.take(i as int), " "@),
        decreases shown - i,
    {
        proof {
            reveal_strlit(" ");
        }
        let ghost before = v@;
        assert(ws.take(i + 1).drop_last() =~= ws.take(i as int));
        assert(ws.take(i + 1).last() == words@[i as int]@);
        if i > 0 {
            v.push(' ');
        }
        push_chars(&mut v, words[i].as_slice());
        proof {
            if i > 0 {
                assert(v@ =~= before + " "@ + words@[i as int]@);
            } else {
                assert(ws.take(1) =~= seq![ws[0]]);
                assert(v@ =~= head + words@[0]@);
            }
        }
        i = i + 1;
    }
    if words.len() > SUMMARY_WORDS {
        push_str(&mut v, "...");
    } else {
        assert(ws.take(shown as int) =~= ws);
        push_str(&mut v, "");
    }
    string_from_chars(v.as_slice())
}

} // verus!
