//! Freeing model memory after a period without dictation: the embedded
//! engine is unloaded, or the server stopped, once `idle_unload_minutes`
//! have passed since the last transcription (0 means never).

use vstd::prelude::*;

verus! {

/// What the idle check asks for.
#[derive(Debug, Clone, Copy, PartialEq, Eq, Structural)]
pub enum IdleAction {
    Nothing,
    /// Unload the embedded engine's model.
    UnloadEngine,
    /// Stop the transcription server.
    StopServer,
}

/// The idle check: when unloading is enabled, nothing is being recorded,
/// and at least `idle_unload_minutes` have passed since the last
/// transcription, the loaded engine is unloaded (or the running server
/// stopped) and the timer cleared. The second component says whether the
/// timer is cleared.
pub open spec fn idle_decision(
    idle_unload_minutes: u32,
    is_recording: bool,
    secs_since_last: Option<u64>,
    is_embedded: bool,
    engine_loaded: bool,
    server_running: bool,
) -> (IdleAction, bool) {
    match secs_since_last {
        Some(secs) => if idle_unload_minutes > 0 && !is_recording && secs >= idle_unload_minutes * 60 {
            (
                if is_embedded {
                    if engine_loaded {
                        IdleAction::UnloadEngine
                    } else {
                        IdleAction::Nothing
                    }
                } else if server_running {
                    IdleAction::StopServer
                } else {
                    IdleAction::Nothing
                },
                true,
            )
        } else {
            (IdleAction::Nothing, false)
        },
        None => (IdleAction::Nothing, false),
    }
}

/// The idle check, given the whole seconds elapsed since the last
/// transcription (`None` when there was none since the last unload).
pub fn idle_unload_action(
    idle_unload_minutes: u32,
    is_recording: bool,
    secs_since_last: Option<u64>,
    is_embedded: bool,
    engine_loaded: bool,
    server_running: bool,
) -> (r: (IdleAction, bool))
    ensures
        r == idle_decision(
            idle_unload_minutes,
            is_recording,
            secs_since_last,
            is_embedded,
            engine_loaded,
            server_running,
        ),
{
    match secs_since_last {
        Some(secs) => {
            let limit: u64 = idle_unload_minutes as u64 * 60;
            if idle_unload_minutes > 0 && !is_recording && secs >= limit {
                let action = if is_embedded {
                    if engine_loaded {
                        IdleAction::UnloadEngine
                    } else {
                        IdleAction::Nothing
                    }
                } else if server_running {
                    IdleAction::StopServer
                } else {
                    IdleAction::Nothing
                };
                (action, true)
            } else {
                (IdleAction::Nothing, false)
            }
        },
        None => (IdleAction::Nothing, false),
    }
}

/// With unloading set to 0 minutes, or while recording, nothing is ever
/// unloaded.
pub proof fn lemma_never_unload_when_disabled_or_recording(
    minutes: u32,
    recording: bool,
    secs: Option<u64>,
    embedded: bool,
    loaded: bool,
    running: bool,
)
    requires
        minutes == 0 || recording,
    ensures
        idle_decision(minutes, recording, secs, embedded, loaded, running) == (
            IdleAction::Nothing,
            false,
        ),
{
}

/// The idle limit is the configured minutes in seconds: when enabled and not
/// recording, an idle time of at least `minutes * 60` seconds unloads a
/// loaded embedded engine (or stops a running server), and a shorter one
/// does nothing; and once it fires, a longer idle time fires too.
pub proof fn lemma_idle_limit(
    minutes: u32,
    secs: u64,
    later: u64,
    embedded: bool,
    engine_loaded: bool,
    server_running: bool,
)
    requires
        minutes > 0,
    ensures
        secs >= minutes as int * 60 && embedded && engine_loaded ==> idle_decision(
            minutes,
            false,
            Some(secs),
            embedded,
            engine_loaded,
            server_running,
        ) == (IdleAction::UnloadEngine, true),
        secs >= minutes as int * 60 && !embedded && server_running ==> idle_decision(
            minutes,
            false,
            Some(secs),
            embedded,
            engine_loaded,
            server_running,
        ) == (IdleAction::StopServer, true),
        secs < minutes as int * 60 ==> idle_decision(
            minutes,
            false,
            Some(secs),
            embedded,
            engine_loaded,
            server_running,
        ) == (IdleAction::Nothing, false),
        later >= secs && idle_decision(minutes, false, Some(secs), embedded, engine_loaded, server_running).1
            ==> idle_decision(minutes, false, Some(later), embedded, engine_loaded, server_running)
            == idle_decision(minutes, false, Some(secs), embedded, engine_loaded, server_running),
{
}

} // verus!
