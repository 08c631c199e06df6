//! Decisions around the local Python transcription server: which model it
//! is started with, which interpreters are tried, where its script is looked
//! for, what a runtime-profile marker left by the installer tells about a
//! model, and the supervisor's state through start, polls and stop. Health
//! checks, spawning and killing the process are the caller's.

use vstd::prelude::*;
use crate::hardware::{owned, HostOs};
use crate::model_store::probe_answer;
use crate::paths::{
    joined, joined3, lemma_joined, lemma_joined3, lemma_plain_with_suffix, lemma_prefix_no_verbatim,
    lemma_starts_with_trans, no_verbatim, path_exists, path_join, path_parent, paths_equal,
    plain_relative,
};
use crate::text::{
    ascii_lower, chars_of, ends_with, push_str, starts_with, starts_with_exec, string_from_chars,
    to_ascii_lowercase, trim, trim_exec,
};

verus! {

/// What a runtime-profile marker (`<models>/runtimes/profiles/<model>.json`)
/// records about a model.
#[derive(Debug, Clone)]
pub struct RuntimeProfileMarker {
    pub model_id: Option<String>,
    pub execution_model_ref: Option<String>,
    pub local_model_path: Option<String>,
    pub python_path: Option<String>,
}

pub open spec fn opt_view(o: Option<String>) -> Option<Seq<char>> {
    match o {
        Some(s) => Some(s@),
        None => None,
    }
}

/// Model families that the server runs with its `transformers` runtime.
pub open spec fn transformers_family(lower: Seq<char>) -> bool {
    ||| starts_with(lower, "nvidia/parakeet"@)
    ||| starts_with(lower, "nvidia/canary"@)
    ||| starts_with(lower, "ibm-granite/"@)
}

/// The runtime hint for an execution model reference: `transformers` for a
/// (trimmed, non-empty) reference of a family that needs it, else none.
pub open spec fn runtime_hint_of(model_ref: Option<Seq<char>>) -> Option<Seq<char>> {
    match model_ref {
        Some(r) => {
            let t = trim(r);
            if t.len() > 0 && transformers_family(ascii_lower(t)) {
                Some("transformers"@)
            } else {
                None
            }
        },
        None => None,
    }
}

/// The runtime hint for an execution model reference.
pub fn runtime_hint(execution_model_ref: Option<&str>) -> (r: Option<String>)
    ensures
        opt_view(r) == runtime_hint_of(
            match execution_model_ref {
                Some(s) => Some(s@),
                None => None,
            },
        ),
{
    match execution_model_ref {
        None => None,
        Some(s) => {
            let t = trim_exec(chars_of(s).as_slice());
            if t.len() == 0 {
                return None;
            }
            let lower = to_ascii_lowercase(t.as_slice());
            let parakeet = chars_of("nvidia/parakeet");
            let canary = chars_of("nvidia/canary");
            let granite = chars_of("ibm-granite/");
            if starts_with_exec(lower.as_slice(), parakeet.as_slice()) || starts_with_exec(
                lower.as_slice(),
                canary.as_slice(),
            ) || starts_with_exec(lower.as_slice(), granite.as_slice()) {
                Some(owned("transformers"))
            } else {
                None
            }
        },
    }
}

/// What a marker yields: the interpreter it names when that exists, and the
/// runtime hint, which is dropped when the marker describes another local
/// file than the model.
pub open spec fn profile_metadata_of(
    marker: RuntimeProfileMarker,
    python_exists: bool,
    same_local_path: bool,
) -> (Option<Seq<char>>, Option<Seq<char>>) {
    let python = match marker.python_path {
        Some(p) => if python_exists {
            Some(p@)
        } else {
            None
        },
        None => None,
    };
    let hint = if marker.local_model_path is Some && !same_local_path {
        None
    } else {
        runtime_hint_of(opt_view(marker.execution_model_ref))
    };
    (python, hint)
}

/// The interpreter and runtime hint from a marker, given whether its
/// interpreter exists and whether its local path is the model's.
pub fn profile_metadata(marker: &RuntimeProfileMarker, python_exists: bool, same_local_path: bool) -> (r: (
    Option<String>,
    Option<String>,
))
    ensures
        (opt_view(r.0), opt_view(r.1)) == profile_metadata_of(*marker, python_exists, same_local_path),
{
    let python = match &marker.python_path {
        Some(p) => if python_exists {
            Some(owned(p.as_str()))
        } else {
            None
        },
        None => None,
    };
    let hint = if marker.local_model_path.is_some() && !same_local_path {
        None
    } else {
        match &marker.execution_model_ref {
            Some(s) => runtime_hint(Some(s.as_str())),
            None => runtime_hint(None),
        }
    };
    (python, hint)
}

/// The interpreter and runtime hint that a marker gives the model at
/// `model_path`, checking on disk whether the interpreter exists and
/// comparing the marker's local path with the model's as paths.
pub fn resolve_profile_metadata(model_path: &str, marker: &RuntimeProfileMarker) -> (r: (
    Option<String>,
    Option<String>,
))
    ensures
        exists|python_exists: bool, same: bool|
            {
                &&& (opt_view(r.0), opt_view(r.1)) == profile_metadata_of(*marker, python_exists, same)
                &&& (marker.local_model_path matches Some(l) && l@ == model_path@) ==> same
            },
{
    let python_exists = match &marker.python_path {
        Some(p) => path_exists(p.as_str()),
        None => false,
    };
    let same = match &marker.local_model_path {
        Some(l) => paths_equal(l.as_str(), model_path),
        None => true,
    };
    profile_metadata(marker, python_exists, same)
}

/// Where the marker of the model file `model_id` lies under the shared
/// models directory: `<dir>/runtimes/profiles/<model_id>.json`.
pub fn profile_marker_path(audio_models_dir: &str, model_id: &str) -> (r: String)
    ensures
        plain_relative(model_id@) ==> ends_with(r@, model_id@ + ".json"@),
        plain_relative(model_id@) && no_verbatim(audio_models_dir@) ==> joined3(
            r@,
            audio_models_dir@,
            "runtimes"@,
            "profiles"@,
            model_id@ + ".json"@,
        ) && starts_with(r@, audio_models_dir@),
{
    proof {
        reveal_strlit("runtimes");
        reveal_strlit("profiles");
        reveal_strlit(".json");
    }
    let runtimes = path_join(audio_models_dir, "runtimes");
    let profiles = path_join(runtimes.as_str(), "profiles");
    let mut name = chars_of(model_id);
    push_str(&mut name, ".json");
    let name = string_from_chars(name.as_slice());
    let r = path_join(profiles.as_str(), name.as_str());
    proof {
        assert(plain_relative("runtimes"@));
        assert(plain_relative("profiles"@));
        if plain_relative(model_id@) {
            lemma_plain_with_suffix(model_id@, ".json"@);
            if no_verbatim(audio_models_dir@) {
                lemma_joined3(
                    r@,
                    profiles@,
                    runtimes@,
                    audio_models_dir@,
                    "runtimes"@,
                    "profiles"@,
                    model_id@ + ".json"@,
                );
            }
        }
    }
    r
}

/// The interpreters tried, in order, to start the server: the one a
/// runtime profile names, if any, then the GUI launchers `pythonw` and `pyw`
/// on Windows (no console window), or `python3` and `python` elsewhere.
pub open spec fn python_candidates_of(os: HostOs, python_executable: Option<Seq<char>>) -> Seq<
    Seq<char>,
> {
    let defaults = if os == HostOs::Windows {
        seq!["pythonw"@, "pyw"@]
    } else {
        seq!["python3"@, "python"@]
    };
    match python_executable {
        Some(p) => seq![p] + defaults,
        None => defaults,
    }
}

pub fn python_candidates(os: HostOs, python_executable: Option<&str>) -> (r: Vec<String>)
    ensures
        r@.map_values(|s: String| s@) == python_candidates_of(
            os,
            match python_executable {
                Some(p) => Some(p@),
                None => None,
            },
        ),
{
    let mut r: Vec<String> = Vec::new();
    match python_executable {
        Some(p) => r.push(owned(p)),
        None => {},
    }
    if os == HostOs::Windows {
        r.push(owned("pythonw"));
        r.push(owned("pyw"));
    } else {
        r.push(owned("python3"));
        r.push(owned("python"));
    }
    assert(r@.map_values(|s: String| s@) =~= python_candidates_of(
        os,
        match python_executable {
            Some(p) => Some(p@),
            None => None,
        },
    ));
    r
}

/// The model argument the server is started with: none for a blank model
/// path (the server then uses its default), else the path itself.
pub fn server_model_arg(model_path: &str) -> (r: Option<String>)
    ensures
        r is None <==> trim(model_path@).len() == 0,
        r matches Some(a) ==> a@ == model_path@,
{
    let t = trim_exec(chars_of(model_path).as_slice());
    if t.len() == 0 {
        None
    } else {
        Some(owned(model_path))
    }
}

// ---------------------------------------------------------------------------
// Locating the server script.
// ---------------------------------------------------------------------------

/// The two places in directory `d` where the server script may lie,
/// `d/whisper_server.py` and `d/shared/whisper-server/whisper_server.py`:
/// both end with the script's name, and under a directory that is not
/// verbatim they are those joins.
pub open spec fn script_places(d: Seq<char>, direct: Seq<char>, shared: Seq<char>) -> bool {
    &&& ends_with(direct, "whisper_server.py"@)
    &&& ends_with(shared, "whisper_server.py"@)
    &&& no_verbatim(d) ==> {
        &&& joined(direct, d, "whisper_server.py"@)
        &&& joined3(shared, d, "shared"@, "whisper-server"@, "whisper_server.py"@)
        &&& starts_with(direct, d)
        &&& starts_with(shared, d)
    }
}

/// Pair `j` of the candidates lies in a directory whose text begins `start`.
pub open spec fn pair_from_ancestor(start: Seq<char>, rv: Seq<String>, j: int) -> bool {
    exists|d: Seq<char>| #[trigger] starts_with(start, d) && script_places(d, rv[2 * j]@, rv[2 * j + 1]@)
}

/// The candidates searched from `start`: one to six pairs, the first for
/// `start` itself, each for `start` or a directory above it.
pub open spec fn candidates_from(start: Seq<char>, rv: Seq<String>) -> bool {
    &&& 2 <= rv.len() <= 12
    &&& rv.len() % 2 == 0
    &&& script_places(start, rv[0]@, rv[1]@)
    &&& forall|j: int| 0 <= j < rv.len() / 2 ==> #[trigger] pair_from_ancestor(start, rv, j)
}

/// Where the server script is looked for from the directory `start`: in
/// `start` and up to five directories above it, the script itself and its
/// copy under `shared/whisper-server`, until the walk reaches the top.
pub fn script_candidates_from(start: &str) -> (r: Vec<String>)
    ensures
        candidates_from(start@, r@),
{
    proof {
        reveal_strlit("whisper_server.py");
        reveal_strlit("shared");
        reveal_strlit("whisper-server");
        assert(plain_relative("whisper_server.py"@));
        assert(plain_relative("shared"@));
        assert(plain_relative("whisper-server"@));
    }
    let mut out: Vec<String> = Vec::new();
    let mut dir: String = owned(start);
    let mut level: usize = 0;
    assert(start@.take(start@.len() as int) =~= start@);
    loop
        invariant_except_break
            level < 6,
        invariant
            level <= 6,
            out@.len() == 2 * level,
            starts_with(start@, dir@),
            level == 0 ==> dir@ == start@,
            level > 0 ==> script_places(start@, out@[0]@, out@[1]@),
            forall|j: int| 0 <= j < level ==> #[trigger] pair_from_ancestor(start@, out@, j),
            plain_relative("whisper_server.py"@),
            plain_relative("shared"@),
            plain_relative("whisper-server"@),
        ensures
            candidates_from(start@, out@),
        decreases 6 - level,
    {
        let direct = path_join(dir.as_str(), "whisper_server.py");
        let shared_dir = path_join(dir.as_str(), "shared");
        let server_dir = path_join(shared_dir.as_str(), "whisper-server");
        let shared = path_join(server_dir.as_str(), "whisper_server.py");
        proof {
            if no_verbatim(dir@) {
                lemma_joined(direct@, dir@, "whisper_server.py"@);
                lemma_joined3(
                    shared@,
                    server_dir@,
                    shared_dir@,
                    dir@,
                    "shared"@,
                    "whisper-server"@,
                    "whisper_server.py"@,
                );
            }
            assert(script_places(dir@, direct@, shared@));
        }
        let ghost before = out@;
        out.push(direct);
        out.push(shared);
        proof {
            assert(out@[2 * level as int] == direct);
            assert(out@[2 * level as int + 1] == shared);
            assert forall|j: int| 0 <= j < level + 1 implies #[trigger] pair_from_ancestor(start@, out@, j) by {
                if j < level {
                    assert(pair_from_ancestor(start@, before, j));
                    let d = choose|d: Seq<char>| #[trigger] starts_with(start@, d) && script_places(d, before[2 * j]@, before[2 * j + 1]@);
                    assert(out@[2 * j] == before[2 * j]);
                    assert(out@[2 * j + 1] == before[2 * j + 1]);
                    assert(starts_with(start@, d) && script_places(d, out@[2 * j]@, out@[2 * j + 1]@));
                } else {
                    assert(starts_with(start@, dir@) && script_places(dir@, out@[2 * j]@, out@[2 * j + 1]@));
                }
            }
            if level > 0 {
                assert(out@[0] == before[0]);
                assert(out@[1] == before[1]);
            }
        }
        level = level + 1;
        if level == 6 {
            break;
        }
        match path_parent(dir.as_str()) {
            Some(p) => {
                if paths_equal(p.as_str(), dir.as_str()) {
                    break;
                }
                proof {
                    lemma_starts_with_trans(start@, dir@, p@);
                }
                dir = p;
            },
            None => {
                break;
            },
        }
    }
    out
}

/// Where the server script is looked for: from the executable's directory,
/// when known, then from the working directory.
pub fn server_script_candidates(exe_dir: Option<&str>, cwd: &str) -> (r: Vec<String>)
    ensures
        exe_dir is None ==> candidates_from(cwd@, r@),
        exe_dir matches Some(e) ==> exists|k: int|
            0 <= k <= r@.len() && candidates_from(e@, #[trigger] r@.take(k)) && candidates_from(
                cwd@,
                r@.skip(k),
            ),
{
    match exe_dir {
        None => script_candidates_from(cwd),
        Some(e) => {
            let mut r = script_candidates_from(e);
            let ghost k = r@.len() as int;
            let ghost first = r@;
            let mut rest = script_candidates_from(cwd);
            let ghost second = rest@;
            r.append(&mut rest);
            proof {
                assert(r@.take(k) =~= first);
                assert(r@.skip(k) =~= second);
            }
            r
        },
    }
}

/// Neither start directory is a verbatim path.
pub open spec fn starts_not_verbatim(exe_dir: Option<&str>, cwd: Seq<char>) -> bool {
    &&& no_verbatim(cwd)
    &&& match exe_dir {
        Some(e) => no_verbatim(e@),
        None => true,
    }
}

/// `p` lies under a directory that begins one of the start directories.
pub open spec fn under_a_start(p: Seq<char>, exe_dir: Option<&str>, cwd: Seq<char>) -> bool {
    exists|d: Seq<char>|
        #[trigger] starts_with(p, d) && (starts_with(cwd, d) || (exe_dir matches Some(e) && starts_with(
            e@,
            d,
        )))
}

/// `rv` is a candidate list as `server_script_candidates` makes it.
pub open spec fn search_candidates(exe_dir: Option<&str>, cwd: Seq<char>, rv: Seq<String>) -> bool {
    match exe_dir {
        None => candidates_from(cwd, rv),
        Some(e) => exists|k: int|
            0 <= k <= rv.len() && candidates_from(e@, #[trigger] rv.take(k)) && candidates_from(
                cwd,
                rv.skip(k),
            ),
    }
}

/// Candidate `k` is the first that the existence check found: it answered
/// yes for it and no for every candidate before it.
pub open spec fn first_present<F: Fn(&str) -> bool>(probe: F, rv: Seq<String>, k: int) -> bool {
    &&& 0 <= k < rv.len()
    &&& probe_answer(probe, rv[k]@, true)
    &&& forall|j: int| 0 <= j < k ==> #[trigger] probe_answer(probe, rv[j]@, false)
}

/// The first candidate location of the server script that `probe` (the
/// caller's existence check on the disk) finds, asking the candidates of
/// `server_script_candidates` in order; `ScriptNotFound` when it finds none.
/// What the disk answers is the caller's; for those answers the result is
/// stated. A found script ends with the script's name and, for start
/// directories that are not verbatim, lies under one of them or a directory
/// above it.
pub fn find_server_script<F: Fn(&str) -> bool>(exe_dir: Option<&str>, cwd: &str, probe: &F) -> (r: Result<
    String,
    ServerError,
>)
    requires
        forall|p: &str| #[trigger] call_requires(*probe, (p,)),
    ensures
        exists|cands: Seq<String>|
            #[trigger] search_candidates(exe_dir, cwd@, cands) && (r matches Ok(p) ==> exists|k: int|
                #[trigger] first_present(*probe, cands, k) && cands[k]@ == p@) && (r is Err ==> forall|
                j: int,
            | 0 <= j < cands.len() ==> #[trigger] probe_answer(*probe, cands[j]@, false)),
        r matches Ok(p) ==> ends_with(p@, "whisper_server.py"@),
        r matches Ok(p) ==> (starts_not_verbatim(exe_dir, cwd@) ==> under_a_start(p@, exe_dir, cwd@)),
        r matches Err(e) ==> e == ServerError::ScriptNotFound,
{
    let candidates = server_script_candidates(exe_dir, cwd);
    assert(search_candidates(exe_dir, cwd@, candidates@));
    let mut i: usize = 0;
    while i < candidates.len()
        invariant
            i <= candidates@.len(),
            forall|p: &str| #[trigger] call_requires(*probe, (p,)),
            search_candidates(exe_dir, cwd@, candidates@),
            exe_dir is None ==> candidates_from(cwd@, candidates@),
            exe_dir matches Some(e) ==> exists|k: int|
                0 <= k <= candidates@.len() && candidates_from(e@, #[trigger] candidates@.take(k))
                    && candidates_from(cwd@, candidates@.skip(k)),
            forall|j: int| 0 <= j < i ==> #[trigger] probe_answer(*probe, candidates@[j]@, false),
        decreases candidates@.len() - i,
    {
        let q = candidates[i].as_str();
        let found = probe(q);
        proof {
            assert(call_ensures(*probe, (q,), found));
            assert(probe_answer(*probe, candidates@[i as int]@, found));
        }
        if found {
            let p = owned(q);
            proof {
                assert(first_present(*probe, candidates@, i as int));
                lemma_candidate_place(exe_dir, cwd@, candidates@, i as int);
                assert(p@ == candidates@[i as int]@);
                assert(ends_with(p@, "whisper_server.py"@));
                if starts_not_verbatim(exe_dir, cwd@) {
                    let d = choose|d: Seq<char>| #[trigger] starts_with(candidates@[i as int]@, d) && (starts_with(cwd@, d) || (exe_dir matches Some(e)
                        && starts_with(e@, d)));
                    assert(starts_with(p@, d));
                    assert(exists|d: Seq<char>|
                        #[trigger] starts_with(p@, d) && (starts_with(cwd@, d) || (exe_dir matches Some(e)
                            && starts_with(e@, d))));
                }
                assert(starts_not_verbatim(exe_dir, cwd@) ==> under_a_start(p@, exe_dir, cwd@));
            }
            return Ok(p);
        }
        i = i + 1;
    }
    Err(ServerError::ScriptNotFound)
}

/// Every candidate ends with the script's name and lies under the start it
/// was searched from.
proof fn lemma_candidate_from(start: Seq<char>, rv: Seq<String>, i: int)
    requires
        candidates_from(start, rv),
        0 <= i < rv.len(),
    ensures
        ends_with(rv[i]@, "whisper_server.py"@),
        no_verbatim(start) ==> exists|d: Seq<char>| #[trigger] starts_with(rv[i]@, d) && starts_with(start, d),
{
    let j = i / 2;
    assert(0 <= j < rv.len() / 2);
    assert(pair_from_ancestor(start, rv, j));
    let d = choose|d: Seq<char>| #[trigger] starts_with(start, d) && script_places(d, rv[2 * j]@, rv[2 * j + 1]@);
    assert(i == 2 * j || i == 2 * j + 1);
    if no_verbatim(start) {
        lemma_prefix_no_verbatim(start, d);
        assert(starts_with(rv[i]@, d));
    }
}

proof fn lemma_candidate_place(exe_dir: Option<&str>, cwd: Seq<char>, rv: Seq<String>, i: int)
    requires
        0 <= i < rv.len(),
        exe_dir is None ==> candidates_from(cwd, rv),
        exe_dir matches Some(e) ==> exists|k: int|
            0 <= k <= rv.len() && candidates_from(e@, #[trigger] rv.take(k)) && candidates_from(cwd, rv.skip(k)),
    ensures
        ends_with(rv[i]@, "whisper_server.py"@),
        starts_not_verbatim(exe_dir, cwd) ==> exists|d: Seq<char>| #[trigger] starts_with(rv[i]@, d) && (starts_with(cwd, d) || (exe_dir matches Some(e)
            && starts_with(e@, d))),
{
    match exe_dir {
        None => {
            lemma_candidate_from(cwd, rv, i);
        },
        Some(e) => {
            let k = choose|k: int| 0 <= k <= rv.len() && candidates_from(e@, #[trigger] rv.take(k)) && candidates_from(cwd, rv.skip(k));
            if i < k {
                lemma_candidate_from(e@, rv.take(k), i);
                assert(rv.take(k)[i] == rv[i]);
            } else {
                lemma_candidate_from(cwd, rv.skip(k), i - k);
                assert(rv.skip(k)[i - k] == rv[i]);
            }
        },
    }
}

// ---------------------------------------------------------------------------
// Supervising the server process.
// ---------------------------------------------------------------------------

/// What the metadata of a model resolves to when a marker may be missing:
/// nothing without a marker, else what the marker yields.
pub open spec fn metadata_view(r: (Option<String>, Option<String>)) -> (Option<Seq<char>>, Option<Seq<char>>) {
    (opt_view(r.0), opt_view(r.1))
}

/// The supervisor of the local transcription server: the model it starts the
/// server with, the interpreter and runtime hint from the model's runtime
/// profile, the requested device, and whether it holds a server process that
/// it started. Health checks, spawning and killing are the caller's, which
/// reports their outcomes here.
#[derive(Debug, Clone)]
pub struct WhisperServerManager {
    pub model_path: String,
    pub python_executable: Option<String>,
    pub runtime_hint: Option<String>,
    pub preferred_device: Option<String>,
    /// A server process started here is held.
    pub child_running: bool,
    /// The held process is this manager's to stop.
    pub owns_process: bool,
}

/// How to start the server: the model argument, the interpreters to try in
/// order, and the `WHISPER_DEVICE` and `WHISPER_RUNTIME` settings.
#[derive(Debug, Clone)]
pub struct ServerLaunch {
    pub model_arg: Option<String>,
    pub python_candidates: Vec<String>,
    pub device: Option<String>,
    pub runtime: Option<String>,
}

/// What `start_if_needed` asks of the caller.
#[derive(Debug, Clone)]
pub enum ServerStart {
    /// A healthy server already answers; nothing to do.
    AlreadyHealthy,
    /// A process started earlier is still held; wait for it.
    AlreadyStarted,
    /// Start a process as described, running the script that
    /// `find_server_script` finds, then report it with `mark_spawned`.
    Launch(ServerLaunch),
}

/// Why waiting for the server failed.
#[derive(Debug, Clone, Copy, PartialEq, Eq, Structural)]
pub enum ServerError {
    /// The held process exited before the server became healthy.
    ExitedEarly,
    /// The server did not become healthy within the startup timeout.
    TimedOut,
    /// No candidate location holds the server script.
    ScriptNotFound,
}

impl WhisperServerManager {
    /// A manager for `model_path`, with what its runtime-profile marker (if
    /// one was found) says about the interpreter and runtime; no process yet.
    pub fn new(model_path: String, marker: Option<&RuntimeProfileMarker>) -> (m: Self)
        ensures
            m.model_path@ == model_path@,
            marker is None ==> m.python_executable is None && m.runtime_hint is None,
            marker matches Some(mk) ==> exists|python_exists: bool, same: bool|
                {
                    &&& (opt_view(m.python_executable), opt_view(m.runtime_hint))
                        == profile_metadata_of(*mk, python_exists, same)
                    &&& (mk.local_model_path matches Some(l) && l@ == model_path@) ==> same
                },
            m.preferred_device is None,
            !m.child_running,
            !m.owns_process,
    {
        let (python_executable, runtime_hint) = match marker {
            Some(mk) => resolve_profile_metadata(model_path.as_str(), mk),
            None => (None, None),
        };
        WhisperServerManager {
            model_path,
            python_executable,
            runtime_hint,
            preferred_device: None,
            child_running: false,
            owns_process: false,
        }
    }

    /// Decides whether to start the server, given whether a healthy server
    /// answers: nothing when one does or when a started process is still
    /// held, else a launch with the model argument, the interpreters for `os`
    /// and the device and runtime settings. The state is unchanged.
    pub fn start_if_needed(&self, healthy: bool, os: HostOs) -> (r: ServerStart)
        ensures
            healthy ==> r is AlreadyHealthy,
            !healthy && self.child_running ==> r is AlreadyStarted,
            !healthy && !self.child_running ==> (r matches ServerStart::Launch(l) && {
                &&& (l.model_arg is None <==> trim(self.model_path@).len() == 0)
                &&& (l.model_arg matches Some(a) ==> a@ == self.model_path@)
                &&& l.python_candidates@.map_values(|s: String| s@) == python_candidates_of(
                    os,
                    opt_view(self.python_executable),
                )
                &&& opt_view(l.device) == opt_view(self.preferred_device)
                &&& opt_view(l.runtime) == opt_view(self.runtime_hint)
            }),
    {
        if healthy {
            return ServerStart::AlreadyHealthy;
        }
        if self.child_running {
            return ServerStart::AlreadyStarted;
        }
        let model_arg = server_model_arg(self.model_path.as_str());
        let python_candidates = match &self.python_executable {
            Some(p) => python_candidates(os, Some(p.as_str())),
            None => python_candidates(os, None),
        };
        let device = match &self.preferred_device {
            Some(d) => Some(owned(d.as_str())),
            None => None,
        };
        let runtime = match &self.runtime_hint {
            Some(h) => Some(owned(h.as_str())),
            None => None,
        };
        ServerStart::Launch(ServerLaunch { model_arg, python_candidates, device, runtime })
    }

    /// Records that a launched process started: it is held and owned.
    pub fn mark_spawned(&mut self)
        ensures
            *final(self) == spawned(*old(self)),
    {
        self.child_running = true;
        self.owns_process = true;
    }

    /// One readiness poll, given whether the server answers healthy and
    /// whether the held process has exited: ready when healthy; an error,
    /// releasing the process, when the held process has exited; else not yet.
    pub fn poll_ready(&mut self, healthy: bool, child_exited: bool) -> (r: Result<bool, ServerError>)
        ensures
            (*final(self), r) == poll_step(*old(self), healthy, child_exited),
    {
        if healthy {
            return Ok(true);
        }
        if self.child_running && child_exited {
            self.child_running = false;
            self.owns_process = false;
            return Err(ServerError::ExitedEarly);
        }
        Ok(false)
    }

    /// Whether to keep waiting for the server after `elapsed_ms` of a
    /// `timeout_ms` startup window: yes while time is left, else the
    /// timeout error.
    pub fn startup_wait(elapsed_ms: u64, timeout_ms: u64) -> (r: Result<(), ServerError>)
        ensures
            r is Ok <==> elapsed_ms < timeout_ms,
            r matches Err(e) ==> e == ServerError::TimedOut,
    {
        if elapsed_ms < timeout_ms {
            Ok(())
        } else {
            Err(ServerError::TimedOut)
        }
    }

    /// Stops the server if this manager owns it: answers whether a held
    /// process must be killed, and afterwards neither holds nor owns one. A
    /// manager that does not own the server is left as it is.
    pub fn stop_if_owned(&mut self) -> (kill: bool)
        ensures
            (*final(self), kill) == stop_step(*old(self)),
    {
        if !self.owns_process {
            return false;
        }
        let kill = self.child_running;
        self.child_running = false;
        self.owns_process = false;
        kill
    }

    /// Switches to another model, with what its marker (if any) says; the
    /// process state and device are kept.
    pub fn set_model_path(&mut self, model_path: String, marker: Option<&RuntimeProfileMarker>)
        ensures
            final(self).model_path@ == model_path@,
            marker is None ==> final(self).python_executable is None && final(self).runtime_hint is None,
            marker matches Some(mk) ==> exists|python_exists: bool, same: bool|
                {
                    &&& (opt_view(final(self).python_executable), opt_view(final(self).runtime_hint))
                        == profile_metadata_of(*mk, python_exists, same)
                    &&& (mk.local_model_path matches Some(l) && l@ == model_path@) ==> same
                },
            final(self).preferred_device == old(self).preferred_device,
            final(self).child_running == old(self).child_running,
            final(self).owns_process == old(self).owns_process,
    {
        let (python_executable, runtime_hint) = match marker {
            Some(mk) => resolve_profile_metadata(model_path.as_str(), mk),
            None => (None, None),
        };
        self.model_path = model_path;
        self.python_executable = python_executable;
        self.runtime_hint = runtime_hint;
    }

    /// Sets the device the server is asked to use.
    pub fn set_preferred_device(&mut self, preferred_device: Option<String>)
        ensures
            final(self).preferred_device == preferred_device,
            final(self).model_path == old(self).model_path,
            final(self).python_executable == old(self).python_executable,
            final(self).runtime_hint == old(self).runtime_hint,
            final(self).child_running == old(self).child_running,
            final(self).owns_process == old(self).owns_process,
    {
        self.preferred_device = preferred_device;
    }

    /// Whether a started server process is held.
    pub fn is_server_running(&self) -> (r: bool)
        ensures
            r == self.child_running,
    {
        self.child_running
    }
}

/// The manager after a launched process started.
pub open spec fn spawned(m: WhisperServerManager) -> WhisperServerManager {
    WhisperServerManager { child_running: true, owns_process: true, ..m }
}

/// The manager, and the answer, after one readiness poll.
pub open spec fn poll_step(m: WhisperServerManager, healthy: bool, child_exited: bool) -> (
    WhisperServerManager,
    Result<bool, ServerError>,
) {
    if healthy {
        (m, Ok(true))
    } else if m.child_running && child_exited {
        (WhisperServerManager { child_running: false, owns_process: false, ..m }, Err(ServerError::ExitedEarly))
    } else {
        (m, Ok(false))
    }
}

/// The manager after a stop, and whether a process must be killed.
pub open spec fn stop_step(m: WhisperServerManager) -> (WhisperServerManager, bool) {
    if m.owns_process {
        (WhisperServerManager { child_running: false, owns_process: false, ..m }, m.child_running)
    } else {
        (m, false)
    }
}

/// The manager holds a process only when it owns it.
pub open spec fn holds_only_owned(m: WhisperServerManager) -> bool {
    m.child_running ==> m.owns_process
}

/// Every operation keeps the manager from holding a process that it does
/// not own: starting, polling (whatever the server and process report) and
/// stopping.
pub proof fn lemma_holds_only_owned_kept(m: WhisperServerManager, healthy: bool, child_exited: bool)
    requires
        holds_only_owned(m),
    ensures
        holds_only_owned(spawned(m)),
        holds_only_owned(poll_step(m, healthy, child_exited).0),
        holds_only_owned(stop_step(m).0),
{
}

/// After a stop the manager holds and owns nothing, and the process is
/// killed exactly when one was held; stopping again kills nothing and
/// changes nothing.
pub proof fn lemma_stop_is_final(m: WhisperServerManager)
    requires
        holds_only_owned(m),
    ensures
        !stop_step(m).0.child_running,
        !stop_step(m).0.owns_process,
        stop_step(m).1 == m.child_running,
        stop_step(stop_step(m).0) == (stop_step(m).0, false),
{
}

/// A held process that exits before the server is healthy is reported and
/// released, so a later stop kills nothing.
pub proof fn lemma_early_exit_releases(m: WhisperServerManager)
    requires
        m.child_running,
    ensures
        poll_step(m, false, true).1 == Err::<bool, ServerError>(ServerError::ExitedEarly),
        !poll_step(m, false, true).0.child_running,
        stop_step(poll_step(m, false, true).0).1 == false,
{
}

} // verus!
