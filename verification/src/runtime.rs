//! Adaptive runtime policy: deterministic backend/device/model decisions and
//! a fallback chain, from the hardware profile and the installed and
//! catalogued models.

use vstd::prelude::*;
use crate::config::{runtime_preference_name, RuntimePreference, WhisperBackend};
use crate::hardware::{owned, Accelerators, HardwareProfile, Tier};
use crate::paths::{
    after_last_slash, lemma_after_last_slash, local_path_text, path_file_name, plain_file_name,
};
use crate::text::{
    ascii_lower, bool_text, chars_of, contains, eq_ignore_ascii_case, join, push_chars, push_joined,
    push_str, starts_with, str_views, string_from_chars, trim, trim_exec, views,
};

verus! {

#[derive(Debug, Clone, Copy, PartialEq, Eq, Structural)]
pub enum DevicePreference {
    Cuda,
    Metal,
    DirectMl,
    Cpu,
}

pub open spec fn device_name(d: DevicePreference) -> Seq<char> {
    match d {
        DevicePreference::Cuda => "cuda"@,
        DevicePreference::Metal => "metal"@,
        DevicePreference::DirectMl => "directml"@,
        DevicePreference::Cpu => "cpu"@,
    }
}

impl DevicePreference {
    pub fn as_str(self) -> (r: &'static str)
        ensures
            r@ == device_name(self),
    {
        match self {
            DevicePreference::Cuda => "cuda",
            DevicePreference::Metal => "metal",
            DevicePreference::DirectMl => "directml",
            DevicePreference::Cpu => "cpu",
        }
    }
}

#[derive(Debug, Clone, Copy, PartialEq, Eq, Structural)]
pub enum ModelProfile {
    Quality,
    Balanced,
    Fast,
}

pub open spec fn profile_name(p: ModelProfile) -> Seq<char> {
    match p {
        ModelProfile::Quality => "quality"@,
        ModelProfile::Balanced => "balanced"@,
        ModelProfile::Fast => "fast"@,
    }
}

impl ModelProfile {
    pub fn as_str(self) -> (r: &'static str)
        ensures
            r@ == profile_name(self),
    {
        match self {
            ModelProfile::Quality => "quality",
            ModelProfile::Balanced => "balanced",
            ModelProfile::Fast => "fast",
        }
    }
}

pub open spec fn backend_name(b: WhisperBackend) -> Seq<char> {
    match b {
        WhisperBackend::Embedded => "embedded"@,
        WhisperBackend::Server => "server"@,
    }
}

pub fn backend_to_str(backend: &WhisperBackend) -> (r: &'static str)
    ensures
        r@ == backend_name(*backend),
{
    match backend {
        WhisperBackend::Embedded => "embedded",
        WhisperBackend::Server => "server",
    }
}

/// The decisions of the runtime policy.
#[derive(Debug, Clone)]
pub struct RuntimePolicy {
    pub backend: WhisperBackend,
    pub device: DevicePreference,
    pub model_profile: ModelProfile,
    pub preferred_model: String,
    pub fallback_models: Vec<String>,
    pub needs_model_download: bool,
    pub enable_server_fallback: bool,
    pub enable_cloud_fallback: bool,
    pub reasons: Vec<String>,
}

/// The one-line summary of a policy.
pub open spec fn summary_text(p: RuntimePolicy) -> Seq<char> {
    "backend="@ + backend_name(p.backend) + " device="@ + device_name(p.device) + " profile="@
        + profile_name(p.model_profile) + " model="@ + p.preferred_model@ + " fallbacks=["@ + join(
        str_views(p.fallback_models@),
        ", "@,
    ) + "] download_needed="@ + bool_text(p.needs_model_download) + " server_fallback="@
        + bool_text(p.enable_server_fallback) + " cloud_fallback="@ + bool_text(
        p.enable_cloud_fallback,
    )
}

impl RuntimePolicy {
    pub fn summary_line(&self) -> (r: String)
        ensures
            r@ == summary_text(*self),
    {
        let mut v: Vec<char> = Vec::new();
        push_str(&mut v, "backend=");
        push_str(&mut v, backend_to_str(&self.backend));
        push_str(&mut v, " device=");
        push_str(&mut v, self.device.as_str());
        push_str(&mut v, " profile=");
        push_str(&mut v, self.model_profile.as_str());
        push_str(&mut v, " model=");
        push_str(&mut v, self.preferred_model.as_str());
        push_str(&mut v, " fallbacks=[");
        push_joined(&mut v, &self.fallback_models, ", ");
        push_str(&mut v, "] download_needed=");
        push_str(&mut v, crate::text::bool_str(self.needs_model_download));
        push_str(&mut v, " server_fallback=");
        push_str(&mut v, crate::text::bool_str(self.enable_server_fallback));
        push_str(&mut v, " cloud_fallback=");
        push_str(&mut v, crate::text::bool_str(self.enable_cloud_fallback));
        string_from_chars(&v)
    }
}

// ---------------------------------------------------------------------------
// The policy, as specification.
// ---------------------------------------------------------------------------

/// Some entry of `list` equals `x` up to ASCII case.
pub open spec fn list_has(list: Seq<Seq<char>>, x: Seq<char>) -> bool {
    exists|i: int| 0 <= i < list.len() && ascii_lower(#[trigger] list[i]) == ascii_lower(x)
}

/// The accelerator-derived device: CUDA, then Metal, then DirectML, else CPU.
pub open spec fn detected_device(a: Accelerators) -> DevicePreference {
    if a.cuda {
        DevicePreference::Cuda
    } else if a.metal {
        DevicePreference::Metal
    } else if a.directml {
        DevicePreference::DirectMl
    } else {
        DevicePreference::Cpu
    }
}

pub open spec fn policy_device(a: Accelerators, pref: RuntimePreference) -> DevicePreference {
    if pref == RuntimePreference::ForceCpu {
        DevicePreference::Cpu
    } else {
        detected_device(a)
    }
}

pub open spec fn tier_profile(t: Tier) -> ModelProfile {
    match t {
        Tier::High => ModelProfile::Quality,
        Tier::Medium => ModelProfile::Balanced,
        _ => ModelProfile::Fast,
    }
}

/// `force_gpu` takes effect only when an accelerator was detected.
pub open spec fn gpu_forced(a: Accelerators, pref: RuntimePreference) -> bool {
    pref == RuntimePreference::ForceGpu && detected_device(a) != DevicePreference::Cpu
}

pub open spec fn policy_profile(t: Tier, a: Accelerators, pref: RuntimePreference) -> ModelProfile {
    if pref == RuntimePreference::ForceCpu {
        ModelProfile::Fast
    } else if gpu_forced(a, pref) {
        if t == Tier::High {
            ModelProfile::Quality
        } else {
            ModelProfile::Balanced
        }
    } else {
        tier_profile(t)
    }
}

pub open spec fn tier_candidates(t: Tier) -> Seq<Seq<char>> {
    match t {
        Tier::High => seq![
            "ggml-large-v3.bin"@,
            "ggml-large-v3-turbo.bin"@,
            "ggml-medium.bin"@,
            "ggml-base.bin"@,
        ],
        Tier::Medium => seq![
            "ggml-medium.bin"@,
            "ggml-small.bin"@,
            "ggml-base.bin"@,
            "ggml-tiny.bin"@,
        ],
        _ => seq!["ggml-base.bin"@, "ggml-small.bin"@, "ggml-tiny.bin"@],
    }
}

pub open spec fn gpu_candidates() -> Seq<Seq<char>> {
    seq![
        "ggml-large-v3.bin"@,
        "ggml-large-v3-turbo.bin"@,
        "ggml-medium.bin"@,
        "ggml-base.bin"@,
        "ggml-small.bin"@,
    ]
}

pub open spec fn cpu_candidates() -> Seq<Seq<char>> {
    seq!["ggml-base.bin"@, "ggml-small.bin"@, "ggml-tiny.bin"@]
}

/// The candidate models before the configured model is considered.
pub open spec fn base_candidates(t: Tier, a: Accelerators, pref: RuntimePreference) -> Seq<
    Seq<char>,
> {
    if pref == RuntimePreference::ForceCpu {
        cpu_candidates()
    } else if gpu_forced(a, pref) {
        gpu_candidates()
    } else {
        tier_candidates(t)
    }
}

/// A model reference that looks like a `namespace/model` repository id:
/// trimmed and non-empty, with a `/`, no backslash, no `:`, and not starting with
/// `./` or `../`.
pub open spec fn remote_model_ref(m: Seq<char>) -> Option<Seq<char>> {
    let t = trim(m);
    if t.len() > 0 && contains(t, "/"@) && !contains(t, "\\"@) && !starts_with(t, "./"@)
        && !starts_with(t, "../"@) && !contains(t, ":"@) {
        Some(t)
    } else {
        None
    }
}

pub open spec fn configured_remote(m: Option<Seq<char>>) -> Option<Seq<char>> {
    match m {
        Some(x) => remote_model_ref(x),
        None => None,
    }
}

/// The configured file name, when the catalog knows it.
pub open spec fn embedded_choice(file_name: Option<Seq<char>>, catalog: Seq<Seq<char>>) -> Option<
    Seq<char>,
> {
    match file_name {
        Some(f) => if list_has(catalog, f) {
            Some(f)
        } else {
            None
        },
        None => None,
    }
}

/// `list` without the entries equal to `x` up to ASCII case.
pub open spec fn remove_matching(list: Seq<Seq<char>>, x: Seq<char>) -> Seq<Seq<char>>
    decreases list.len(),
{
    if list.len() == 0 {
        seq![]
    } else {
        let rest = remove_matching(list.drop_last(), x);
        if ascii_lower(list.last()) == ascii_lower(x) {
            rest
        } else {
            rest.push(list.last())
        }
    }
}

/// The candidate models, with a catalogued configured file name moved first
/// (unless a remote reference is configured).
pub open spec fn policy_candidates(
    t: Tier,
    a: Accelerators,
    pref: RuntimePreference,
    model_ref: Option<Seq<char>>,
    file_name: Option<Seq<char>>,
    catalog: Seq<Seq<char>>,
) -> Seq<Seq<char>> {
    let base = base_candidates(t, a, pref);
    match embedded_choice(file_name, catalog) {
        Some(e) => if configured_remote(model_ref) is None {
            seq![e] + remove_matching(base, e)
        } else {
            base
        },
        None => base,
    }
}

/// The first candidate found in `list` (up to ASCII case).
pub open spec fn first_listed(cands: Seq<Seq<char>>, list: Seq<Seq<char>>) -> Option<Seq<char>>
    decreases cands.len(),
{
    if cands.len() == 0 {
        None
    } else if list_has(list, cands[0]) {
        Some(cands[0])
    } else {
        first_listed(cands.drop_first(), list)
    }
}

/// The preferred local model: the first installed candidate, else the first
/// catalogued candidate, else the first catalogue entry, else the first
/// candidate, else `ggml-base.bin`.
pub open spec fn select_preferred(
    cands: Seq<Seq<char>>,
    installed: Seq<Seq<char>>,
    catalog: Seq<Seq<char>>,
) -> Seq<char> {
    match first_listed(cands, installed) {
        Some(c) => c,
        None => match first_listed(cands, catalog) {
            Some(c) => c,
            None => if catalog.len() > 0 {
                catalog[0]
            } else if cands.len() > 0 {
                cands[0]
            } else {
                "ggml-base.bin"@
            },
        },
    }
}

/// The catalogued candidates other than the preferred one, in order.
pub open spec fn fallbacks(cands: Seq<Seq<char>>, preferred: Seq<char>, catalog: Seq<Seq<char>>) -> Seq<
    Seq<char>,
>
    decreases cands.len(),
{
    if cands.len() == 0 {
        seq![]
    } else {
        let rest = fallbacks(cands.drop_last(), preferred, catalog);
        let c = cands.last();
        if ascii_lower(c) != ascii_lower(preferred) && list_has(catalog, c) {
            rest.push(c)
        } else {
            rest
        }
    }
}

pub open spec fn tier_reason(t: Tier) -> Seq<char> {
    match t {
        Tier::High => "tier=high -> prioritize quality"@,
        Tier::Medium => "tier=medium -> prioritize balance"@,
        _ => "tier=low/unknown -> prioritize speed and stability"@,
    }
}

pub open spec fn low_tier(t: Tier) -> bool {
    t == Tier::Low || t == Tier::Unknown
}

/// Everything the policy decides, for given inputs and configured file name.
pub open spec fn policy_matches(
    r: RuntimePolicy,
    t: Tier,
    a: Accelerators,
    configured_backend: WhisperBackend,
    model_ref: Option<Seq<char>>,
    pref: RuntimePreference,
    installed: Seq<Seq<char>>,
    catalog: Seq<Seq<char>>,
    remote_catalog: Seq<Seq<char>>,
    file_name: Option<Seq<char>>,
) -> bool {
    let cands = policy_candidates(t, a, pref, model_ref, file_name, catalog);
    let local = select_preferred(cands, installed, catalog);
    let remote = configured_remote(model_ref);
    let preferred = match remote {
        Some(x) => x,
        None => local,
    };
    let is_installed = remote is Some || list_has(installed, local);
    let device = policy_device(a, pref);
    &&& r.backend == (if remote is Some {
        WhisperBackend::Server
    } else {
        WhisperBackend::Embedded
    })
    &&& r.device == device
    &&& r.model_profile == policy_profile(t, a, pref)
    &&& r.preferred_model@ == preferred
    &&& str_views(r.fallback_models@) == fallbacks(cands, local, catalog)
    &&& r.needs_model_download == !is_installed
    &&& r.enable_server_fallback == (low_tier(t) || !is_installed || remote is Some)
    &&& r.enable_cloud_fallback == (low_tier(t) && !is_installed)
    &&& str_views(r.reasons@) == policy_reasons(
        t,
        device,
        configured_backend,
        model_ref,
        pref,
        remote,
        remote_catalog,
        preferred,
        is_installed,
    )
}

/// The explanation lines of a policy.
pub open spec fn policy_reasons(
    t: Tier,
    device: DevicePreference,
    configured_backend: WhisperBackend,
    model_ref: Option<Seq<char>>,
    pref: RuntimePreference,
    remote: Option<Seq<char>>,
    remote_catalog: Seq<Seq<char>>,
    preferred: Seq<char>,
    is_installed: bool,
) -> Seq<Seq<char>> {
    let head = seq![
        "runtime preference="@ + runtime_preference_name(pref),
        tier_reason(t),
        "detected device preference="@ + device_name(device),
        "configured backend="@ + backend_name(configured_backend),
        "local-first policy: embedded inference preferred"@,
    ];
    let with_remote = match remote {
        Some(x) => head + seq![
            "configured remote model ref detected: '"@ + x + "' -> using server backend"@,
            if list_has(remote_catalog, x) {
                "remote model ref found in catalog"@
            } else {
                "remote model ref not found in catalog, attempting anyway"@
            },
        ],
        None => head,
    };
    let with_gpu = if pref == RuntimePreference::ForceGpu && device == DevicePreference::Cpu {
        with_remote.push("force_gpu requested but no compatible accelerator detected; using cpu"@)
    } else {
        with_remote
    };
    let with_cfg = match model_ref {
        Some(c) => if ascii_lower(c) == ascii_lower(preferred) {
            with_gpu.push("configured model is compatible with current policy"@)
        } else {
            with_gpu.push(
                "configured model '"@ + c + "' unavailable or suboptimal; selected '"@ + preferred
                    + "'"@,
            )
        },
        None => with_gpu,
    };
    if !is_installed {
        with_cfg.push("preferred model is not installed; download recommended"@)
    } else {
        with_cfg
    }
}

// ---------------------------------------------------------------------------
// The policy, as code.
// ---------------------------------------------------------------------------

pub open spec fn opt_view(o: Option<String>) -> Option<Seq<char>> {
    match o {
        Some(s) => Some(s@),
        None => None,
    }
}

/// Whether `list` holds `x` up to ASCII case.
pub fn list_has_exec(list: &[String], x: &[char]) -> (r: bool)
    ensures
        r == list_has(str_views(list@), x@),
{
    let ghost lv = str_views(list@);
    let mut i: usize = 0;
    while i < list.len()
        invariant
            i <= list@.len(),
            lv == str_views(list@),
            forall|j: int| 0 <= j < i ==> ascii_lower(#[trigger] lv[j]) != ascii_lower(x@),
        decreases list@.len() - i,
    {
        let item = chars_of(list[i].as_str());
        if eq_ignore_ascii_case(&item, x) {
            assert(ascii_lower(lv[i as int]) == ascii_lower(x@));
            return true;
        }
        i = i + 1;
    }
    false
}

fn push_lit(list: &mut Vec<Vec<char>>, s: &str)
    ensures
        views(final(list)@) == views(old(list)@).push(s@),
{
    let c = chars_of(s);
    list.push(c);
    assert(views(list@) =~= views(old(list)@).push(s@));
}

fn candidate_list(t: Tier, a: Accelerators, pref: RuntimePreference) -> (r: Vec<Vec<char>>)
    ensures
        views(r@) == base_candidates(t, a, pref),
{
    let mut r: Vec<Vec<char>> = Vec::new();
    assert(views(r@) =~= seq![]);
    let device = if a.cuda || a.metal || a.directml {
        true
    } else {
        false
    };
    assert(device == (detected_device(a) != DevicePreference::Cpu));
    let forced_gpu = match pref {
        RuntimePreference::ForceGpu => device,
        _ => false,
    };
    match pref {
        RuntimePreference::ForceCpu => {
            push_lit(&mut r, "ggml-base.bin");
            push_lit(&mut r, "ggml-small.bin");
            push_lit(&mut r, "ggml-tiny.bin");
        },
        _ => {
            if forced_gpu {
                push_lit(&mut r, "ggml-large-v3.bin");
                push_lit(&mut r, "ggml-large-v3-turbo.bin");
                push_lit(&mut r, "ggml-medium.bin");
                push_lit(&mut r, "ggml-base.bin");
                push_lit(&mut r, "ggml-small.bin");
            } else {
                match t {
                    Tier::High => {
                        push_lit(&mut r, "ggml-large-v3.bin");
                        push_lit(&mut r, "ggml-large-v3-turbo.bin");
                        push_lit(&mut r, "ggml-medium.bin");
                        push_lit(&mut r, "ggml-base.bin");
                    },
                    Tier::Medium => {
                        push_lit(&mut r, "ggml-medium.bin");
                        push_lit(&mut r, "ggml-small.bin");
                        push_lit(&mut r, "ggml-base.bin");
                        push_lit(&mut r, "ggml-tiny.bin");
                    },
                    _ => {
                        push_lit(&mut r, "ggml-base.bin");
                        push_lit(&mut r, "ggml-small.bin");
                        push_lit(&mut r, "ggml-tiny.bin");
                    },
                }
            }
        },
    }
    assert(views(r@) =~= base_candidates(t, a, pref));
    r
}

/// Recognises a `namespace/model` repository id (trimmed).
pub fn normalize_remote_model_ref(model_ref: &str) -> (r: Option<String>)
    ensures
        opt_view(r) == remote_model_ref(model_ref@),
{
    let m = chars_of(model_ref);
    let t = trim_exec(&m);
    if t.len() == 0 {
        return None;
    }
    let slash = chars_of("/");
    let backslash = chars_of("\\");
    let dot_slash = chars_of("./");
    let dot_dot_slash = chars_of("../");
    let colon = chars_of(":");
    if crate::text::contains_exec(&t, &slash) && !crate::text::contains_exec(&t, &backslash)
        && !crate::text::starts_with_exec(&t, &dot_slash) && !crate::text::starts_with_exec(
        &t,
        &dot_dot_slash,
    ) && !crate::text::contains_exec(&t, &colon) {
        Some(string_from_chars(&t))
    } else {
        None
    }
}

/// The configured file name when the catalog knows it (up to ASCII case).
pub fn embedded_from_file_name(file_name: &Option<String>, catalog: &[String]) -> (r: Option<
    String,
>)
    ensures
        opt_view(r) == embedded_choice(opt_view(*file_name), str_views(catalog@)),
{
    match file_name {
        Some(f) => {
            let fc = chars_of(f.as_str());
            if list_has_exec(catalog, &fc) {
                Some(string_from_chars(&fc))
            } else {
                None
            }
        },
        None => None,
    }
}

/// The file name of the configured model reference when the catalog knows
/// it. The file name is what `Path::file_name` gives on this platform.
pub fn configured_embedded_filename(model_ref: &str, catalog: &[String]) -> (r: Option<String>)
    ensures
        r is Some ==> list_has(str_views(catalog@), r->0@) && crate::text::contains(
            model_ref@,
            r->0@,
        ),
        plain_file_name(model_ref@) ==> opt_view(r) == embedded_choice(
            Some(model_ref@),
            str_views(catalog@),
        ),
{
    let f = path_file_name(model_ref);
    embedded_from_file_name(&f, catalog)
}

fn remove_matching_exec(list: &Vec<Vec<char>>, x: &[char]) -> (r: Vec<Vec<char>>)
    ensures
        views(r@) == remove_matching(views(list@), x@),
{
    let ghost lv = views(list@);
    let mut r: Vec<Vec<char>> = Vec::new();
    let mut i: usize = 0;
    assert(lv.take(0) =~= seq![]);
    while i < list.len()
        invariant
            i <= list@.len(),
            lv == views(list@),
            views(r@) == remove_matching(lv.take(i as int), x@),
        decreases list@.len() - i,
    {
        assert(lv.take(i + 1).drop_last() == lv.take(i as int));
        assert(lv.take(i + 1).last() == list@[i as int]@);
        if !eq_ignore_ascii_case(&list[i], x) {
            let c = list[i].clone();
            assert(c@ == list@[i as int]@);
            let ghost before = r@;
            r.push(c);
            assert(views(r@) =~= views(before).push(c@));
        }
        i = i + 1;
    }
    assert(lv.take(i as int) == lv);
    r
}

fn first_listed_exec(cands: &Vec<Vec<char>>, list: &[String]) -> (r: Option<Vec<char>>)
    ensures
        match r {
            Some(c) => first_listed(views(cands@), str_views(list@)) == Some(c@),
            None => first_listed(views(cands@), str_views(list@)) is None,
        },
{
    let ghost cv = views(cands@);
    let ghost lv = str_views(list@);
    let mut i: usize = 0;
    assert(cv.skip(0) == cv);
    while i < cands.len()
        invariant
            i <= cands@.len(),
            cv == views(cands@),
            lv == str_views(list@),
            first_listed(cv, lv) == first_listed(cv.skip(i as int), lv),
        decreases cands@.len() - i,
    {
        assert(cv.skip(i as int)[0] == cands@[i as int]@);
        assert(cv.skip(i as int).drop_first() == cv.skip(i + 1));
        if list_has_exec(list, &cands[i]) {
            return Some(cands[i].clone());
        }
        i = i + 1;
    }
    None
}

/// The preferred local model among the candidates.
pub fn select_preferred_model(candidates: &Vec<Vec<char>>, installed: &[String], catalog: &[String]) -> (r: Vec<char>)
    ensures
        r@ == select_preferred(views(candidates@), str_views(installed@), str_views(catalog@)),
{
    match first_listed_exec(candidates, installed) {
        Some(c) => c,
        None => match first_listed_exec(candidates, catalog) {
            Some(c) => c,
            None => {
                if catalog.len() > 0 {
                    chars_of(catalog[0].as_str())
                } else if candidates.len() > 0 {
                    candidates[0].clone()
                } else {
                    chars_of("ggml-base.bin")
                }
            },
        },
    }
}

fn fallbacks_exec(cands: &Vec<Vec<char>>, preferred: &[char], catalog: &[String]) -> (r: Vec<String>)
    ensures
        str_views(r@) == fallbacks(views(cands@), preferred@, str_views(catalog@)),
{
    let ghost cv = views(cands@);
    let mut r: Vec<String> = Vec::new();
    let mut i: usize = 0;
    assert(cv.take(0) =~= seq![]);
    while i < cands.len()
        invariant
            i <= cands@.len(),
            cv == views(cands@),
            str_views(r@) == fallbacks(cv.take(i as int), preferred@, str_views(catalog@)),
        decreases cands@.len() - i,
    {
        assert(cv.take(i + 1).drop_last() == cv.take(i as int));
        assert(cv.take(i + 1).last() == cands@[i as int]@);
        if !eq_ignore_ascii_case(&cands[i], preferred) && list_has_exec(catalog, &cands[i]) {
            let s = string_from_chars(&cands[i]);
            let ghost before = r@;
            r.push(s);
            assert(str_views(r@) =~= str_views(before).push(s@));
        }
        i = i + 1;
    }
    assert(cv.take(i as int) == cv);
    r
}

fn push_reason(reasons: &mut Vec<String>, line: &Vec<char>)
    ensures
        str_views(final(reasons)@) == str_views(old(reasons)@).push(line@),
{
    let s = string_from_chars(line);
    reasons.push(s);
    assert(str_views(reasons@) =~= str_views(old(reasons)@).push(line@));
}

fn reason_of(parts_a: &str, parts_b: &str) -> (r: Vec<char>)
    ensures
        r@ == parts_a@ + parts_b@,
{
    let mut v: Vec<char> = Vec::new();
    push_str(&mut v, parts_a);
    push_str(&mut v, parts_b);
    assert(v@ =~= parts_a@ + parts_b@);
    v
}

fn tier_reason_str(t: Tier) -> (r: &'static str)
    ensures
        r@ == tier_reason(t),
{
    match t {
        Tier::High => "tier=high -> prioritize quality",
        Tier::Medium => "tier=medium -> prioritize balance",
        _ => "tier=low/unknown -> prioritize speed and stability",
    }
}

fn build_reasons(
    t: Tier,
    device: DevicePreference,
    configured_backend: WhisperBackend,
    model_ref: Option<&str>,
    pref: RuntimePreference,
    remote: &Option<String>,
    remote_catalog: &[String],
    preferred: &[char],
    is_installed: bool,
) -> (r: Vec<String>)
    ensures
        str_views(r@) == policy_reasons(
            t,
            device,
            configured_backend,
            match model_ref {
                Some(m) => Some(m@),
                None => None,
            },
            pref,
            opt_view(*remote),
            str_views(remote_catalog@),
            preferred@,
            is_installed,
        ),
{
    let mut r: Vec<String> = Vec::new();
    assert(str_views(r@) =~= seq![]);
    push_reason(&mut r, &reason_of("runtime preference=", pref.as_str()));
    push_reason(&mut r, &chars_of(tier_reason_str(t)));
    push_reason(&mut r, &reason_of("detected device preference=", device.as_str()));
    push_reason(&mut r, &reason_of("configured backend=", backend_to_str(&configured_backend)));
    push_reason(&mut r, &chars_of("local-first policy: embedded inference preferred"));
    match remote {
        Some(x) => {
            let mut line: Vec<char> = Vec::new();
            push_str(&mut line, "configured remote model ref detected: '");
            push_str(&mut line, x.as_str());
            push_str(&mut line, "' -> using server backend");
            push_reason(&mut r, &line);
            let xc = chars_of(x.as_str());
            if list_has_exec(remote_catalog, &xc) {
                push_reason(&mut r, &chars_of("remote model ref found in catalog"));
            } else {
                push_reason(
                    &mut r,
                    &chars_of("remote model ref not found in catalog, attempting anyway"),
                );
            }
        },
        None => {},
    }
    match (pref, device) {
        (RuntimePreference::ForceGpu, DevicePreference::Cpu) => {
            push_reason(
                &mut r,
                &chars_of("force_gpu requested but no compatible accelerator detected; using cpu"),
            );
        },
        _ => {},
    }
    match model_ref {
        Some(c) => {
            let cc = chars_of(c);
            if eq_ignore_ascii_case(&cc, preferred) {
                push_reason(&mut r, &chars_of("configured model is compatible with current policy"));
            } else {
                let mut line: Vec<char> = Vec::new();
                push_str(&mut line, "configured model '");
                push_chars(&mut line, &cc);
                push_str(&mut line, "' unavailable or suboptimal; selected '");
                push_chars(&mut line, preferred);
                push_str(&mut line, "'");
                push_reason(&mut r, &line);
            }
        },
        None => {},
    }
    if !is_installed {
        push_reason(&mut r, &chars_of("preferred model is not installed; download recommended"));
    }
    r
}

pub open spec fn opt_str_ref_view(o: Option<&str>) -> Option<Seq<char>> {
    match o {
        Some(m) => Some(m@),
        None => None,
    }
}

/// Plans the runtime policy, given the file name of the configured model
/// reference.
pub fn plan_runtime_policy_for_file_name(
    profile: &HardwareProfile,
    configured_backend: WhisperBackend,
    configured_model_ref: Option<&str>,
    runtime_preference: RuntimePreference,
    installed_model_filenames: &[String],
    catalog_model_filenames: &[String],
    catalog_remote_model_refs: &[String],
    configured_file_name: &Option<String>,
) -> (r: RuntimePolicy)
    ensures
        policy_matches(
            r,
            profile.tier,
            profile.accelerators,
            configured_backend,
            opt_str_ref_view(configured_model_ref),
            runtime_preference,
            str_views(installed_model_filenames@),
            str_views(catalog_model_filenames@),
            str_views(catalog_remote_model_refs@),
            opt_view(*configured_file_name),
        ),
{
    let t = profile.tier;
    let a = profile.accelerators;
    let device = if runtime_preference == RuntimePreference::ForceCpu {
        DevicePreference::Cpu
    } else if a.cuda {
        DevicePreference::Cuda
    } else if a.metal {
        DevicePreference::Metal
    } else if a.directml {
        DevicePreference::DirectMl
    } else {
        DevicePreference::Cpu
    };
    let accel = a.cuda || a.metal || a.directml;
    let model_profile = match runtime_preference {
        RuntimePreference::ForceCpu => ModelProfile::Fast,
        RuntimePreference::ForceGpu => {
            if accel {
                match t {
                    Tier::High => ModelProfile::Quality,
                    _ => ModelProfile::Balanced,
                }
            } else {
                match t {
                    Tier::High => ModelProfile::Quality,
                    Tier::Medium => ModelProfile::Balanced,
                    _ => ModelProfile::Fast,
                }
            }
        },
        RuntimePreference::Auto => match t {
            Tier::High => ModelProfile::Quality,
            Tier::Medium => ModelProfile::Balanced,
            _ => ModelProfile::Fast,
        },
    };
    let remote: Option<String> = match configured_model_ref {
        Some(m) => normalize_remote_model_ref(m),
        None => None,
    };
    let base = candidate_list(t, a, runtime_preference);
    let embedded = embedded_from_file_name(configured_file_name, catalog_model_filenames);
    let candidates: Vec<Vec<char>> = match (&remote, &embedded) {
        (None, Some(e)) => {
            let ec = chars_of(e.as_str());
            let rest = remove_matching_exec(&base, &ec);
            let mut c: Vec<Vec<char>> = Vec::new();
            c.push(ec);
            let mut k: usize = 0;
            let ghost first = views(c@);
            assert(views(rest@).take(0) =~= seq![]);
            while k < rest.len()
                invariant
                    k <= rest@.len(),
                    views(c@) == first + views(rest@).take(k as int),
                decreases rest@.len() - k,
            {
                let ghost before = c@;
                c.push(rest[k].clone());
                assert(views(c@) =~= views(before).push(rest@[k as int]@));
                assert(views(rest@).take(k + 1) =~= views(rest@).take(k as int).push(
                    rest@[k as int]@,
                ));
                k = k + 1;
            }
            assert(views(rest@).take(k as int) == views(rest@));
            c
        },
        _ => base,
    };
    let local = select_preferred_model(&candidates, installed_model_filenames, catalog_model_filenames);
    let fallback_models = fallbacks_exec(&candidates, &local, catalog_model_filenames);
    let local_installed = list_has_exec(installed_model_filenames, &local);
    let (preferred, is_installed, backend) = match &remote {
        Some(x) => (chars_of(x.as_str()), true, WhisperBackend::Server),
        None => (local, local_installed, WhisperBackend::Embedded),
    };
    let reasons = build_reasons(
        t,
        device,
        configured_backend,
        configured_model_ref,
        runtime_preference,
        &remote,
        catalog_remote_model_refs,
        &preferred,
        is_installed,
    );
    let low = match t {
        Tier::Low | Tier::Unknown => true,
        _ => false,
    };
    let server_fallback = low || !is_installed || remote.is_some();
    let cloud_fallback = low && !is_installed;
    proof {
        let mr = opt_str_ref_view(configured_model_ref);
        let cat = str_views(catalog_model_filenames@);
        let inst = str_views(installed_model_filenames@);
        let fname = opt_view(*configured_file_name);
        assert(configured_remote(mr) == opt_view(remote));
        assert(views(candidates@) == policy_candidates(t, a, runtime_preference, mr, fname, cat));
        assert(device == policy_device(a, runtime_preference));
        assert(model_profile == policy_profile(t, a, runtime_preference));
        assert(low == low_tier(t));
    }
    RuntimePolicy {
        backend,
        device,
        model_profile,
        preferred_model: string_from_chars(&preferred),
        fallback_models,
        needs_model_download: !is_installed,
        enable_server_fallback: server_fallback,
        enable_cloud_fallback: cloud_fallback,
        reasons,
    }
}

/// Plans the runtime policy. The configured reference's file name is what
/// `Path::file_name` gives on this platform: for a reference that is a plain
/// file name (or none) the policy is the one for that name, and for a local
/// path whose last `/`-separated component is a plain file name, the one
/// for that component.
pub fn plan_runtime_policy(
    profile: &HardwareProfile,
    configured_backend: WhisperBackend,
    configured_model_ref: Option<&str>,
    runtime_preference: RuntimePreference,
    installed_model_filenames: &[String],
    catalog_model_filenames: &[String],
    catalog_remote_model_refs: &[String],
) -> (r: RuntimePolicy)
    ensures
        (configured_model_ref is None || plain_file_name(configured_model_ref->0@))
            ==> policy_matches(
            r,
            profile.tier,
            profile.accelerators,
            configured_backend,
            opt_str_ref_view(configured_model_ref),
            runtime_preference,
            str_views(installed_model_filenames@),
            str_views(catalog_model_filenames@),
            str_views(catalog_remote_model_refs@),
            opt_str_ref_view(configured_model_ref),
        ),
        configured_model_ref matches Some(m) ==> (after_last_slash(m@) matches Some(n) ==> (
        plain_file_name(n) && local_path_text(m@) ==> policy_matches(
            r,
            profile.tier,
            profile.accelerators,
            configured_backend,
            opt_str_ref_view(configured_model_ref),
            runtime_preference,
            str_views(installed_model_filenames@),
            str_views(catalog_model_filenames@),
            str_views(catalog_remote_model_refs@),
            Some(n),
        ))),
        exists|f: Option<Seq<char>>|
            policy_matches(
                r,
                profile.tier,
                profile.accelerators,
                configured_backend,
                opt_str_ref_view(configured_model_ref),
                runtime_preference,
                str_views(installed_model_filenames@),
                str_views(catalog_model_filenames@),
                str_views(catalog_remote_model_refs@),
                f,
            ),
{
    let file_name: Option<String> = match configured_model_ref {
        Some(m) => path_file_name(m),
        None => None,
    };
    proof {
        if let Some(m) = configured_model_ref {
            if after_last_slash(m@) is Some {
                lemma_after_last_slash(m@);
                let n = after_last_slash(m@)->0;
                let p = m@.take(m@.len() - n.len() - 1);
                assert(m@ == p + seq!['/'] + n);
            }
        }
    }
    let r = plan_runtime_policy_for_file_name(
        profile,
        configured_backend,
        configured_model_ref,
        runtime_preference,
        installed_model_filenames,
        catalog_model_filenames,
        catalog_remote_model_refs,
        &file_name,
    );
    proof {
        assert(policy_matches(
            r,
            profile.tier,
            profile.accelerators,
            configured_backend,
            opt_str_ref_view(configured_model_ref),
            runtime_preference,
            str_views(installed_model_filenames@),
            str_views(catalog_model_filenames@),
            str_views(catalog_remote_model_refs@),
            opt_view(file_name),
        ));
    }
    r
}


// ---------------------------------------------------------------------------
// Laws of the policy.
// ---------------------------------------------------------------------------

/// The models each tier offers, best first, when neither GPU nor CPU use is
/// forced; the CPU list when CPU use is forced; the GPU list when GPU use is
/// forced and an accelerator was detected; and the model profile each
/// choice plans for.
pub proof fn lemma_candidates_by_tier(a: Accelerators, t: Tier)
    ensures
        base_candidates(Tier::High, a, RuntimePreference::Auto) == seq![
            "ggml-large-v3.bin"@,
            "ggml-large-v3-turbo.bin"@,
            "ggml-medium.bin"@,
            "ggml-base.bin"@,
        ],
        base_candidates(Tier::Medium, a, RuntimePreference::Auto) == seq![
            "ggml-medium.bin"@,
            "ggml-small.bin"@,
            "ggml-base.bin"@,
            "ggml-tiny.bin"@,
        ],
        base_candidates(Tier::Low, a, RuntimePreference::Auto) == seq![
            "ggml-base.bin"@,
            "ggml-small.bin"@,
            "ggml-tiny.bin"@,
        ],
        base_candidates(Tier::Unknown, a, RuntimePreference::Auto) == seq![
            "ggml-base.bin"@,
            "ggml-small.bin"@,
            "ggml-tiny.bin"@,
        ],
        base_candidates(t, a, RuntimePreference::ForceCpu) == seq![
            "ggml-base.bin"@,
            "ggml-small.bin"@,
            "ggml-tiny.bin"@,
        ],
        !a.cuda && !a.metal && !a.directml ==> base_candidates(t, a, RuntimePreference::ForceGpu)
            == base_candidates(t, a, RuntimePreference::Auto),
        (a.cuda || a.metal || a.directml) ==> base_candidates(t, a, RuntimePreference::ForceGpu)
            == seq![
            "ggml-large-v3.bin"@,
            "ggml-large-v3-turbo.bin"@,
            "ggml-medium.bin"@,
            "ggml-base.bin"@,
            "ggml-small.bin"@,
        ],
        policy_profile(Tier::High, a, RuntimePreference::Auto) == ModelProfile::Quality,
        policy_profile(Tier::Medium, a, RuntimePreference::Auto) == ModelProfile::Balanced,
        policy_profile(Tier::Low, a, RuntimePreference::Auto) == ModelProfile::Fast,
        policy_profile(t, a, RuntimePreference::ForceCpu) == ModelProfile::Fast,
        policy_device(a, RuntimePreference::ForceCpu) == DevicePreference::Cpu,
        a.cuda ==> policy_device(a, RuntimePreference::Auto) == DevicePreference::Cuda,
        !a.cuda && a.metal ==> policy_device(a, RuntimePreference::Auto) == DevicePreference::Metal,
        !a.cuda && !a.metal && a.directml ==> policy_device(a, RuntimePreference::Auto)
            == DevicePreference::DirectMl,
{
}

/// With no model configured and none installed, a plan under `auto`
/// prefers the tier's best model when the catalog offers it (large-v3 on a
/// high tier, medium on a medium tier, base otherwise), and it is to be
/// downloaded.
pub proof fn lemma_tier_best_model_preferred(
    r: RuntimePolicy,
    t: Tier,
    a: Accelerators,
    configured_backend: WhisperBackend,
    catalog: Seq<Seq<char>>,
    remote_catalog: Seq<Seq<char>>,
)
    requires
        policy_matches(
            r,
            t,
            a,
            configured_backend,
            None,
            RuntimePreference::Auto,
            Seq::empty(),
            catalog,
            remote_catalog,
            None,
        ),
    ensures
        t == Tier::High && list_has(catalog, "ggml-large-v3.bin"@) ==> r.preferred_model@
            == "ggml-large-v3.bin"@,
        t == Tier::Medium && list_has(catalog, "ggml-medium.bin"@) ==> r.preferred_model@
            == "ggml-medium.bin"@,
        (t == Tier::Low || t == Tier::Unknown) && list_has(catalog, "ggml-base.bin"@)
            ==> r.preferred_model@ == "ggml-base.bin"@,
        r.backend == WhisperBackend::Embedded,
        r.needs_model_download,
{
    lemma_candidates_by_tier(a, t);
    let cands = policy_candidates(t, a, RuntimePreference::Auto, None, None, catalog);
    assert(cands == base_candidates(t, a, RuntimePreference::Auto));
    assert forall|x: Seq<char>| !list_has(Seq::<Seq<char>>::empty(), x) by {}
    reveal_with_fuel(first_listed, 6);
    assert(first_listed(cands, Seq::<Seq<char>>::empty()) is None);
}

/// The plan depends on nothing but its inputs: two policies planned from the
/// same inputs, whose configured file names pick the same catalog model
/// (always so for a remote model reference, whose file name is not used),
/// agree in every field.
pub proof fn lemma_policy_determined(
    r1: RuntimePolicy,
    r2: RuntimePolicy,
    t: Tier,
    a: Accelerators,
    configured_backend: WhisperBackend,
    model_ref: Option<Seq<char>>,
    pref: RuntimePreference,
    installed: Seq<Seq<char>>,
    catalog: Seq<Seq<char>>,
    remote_catalog: Seq<Seq<char>>,
    f1: Option<Seq<char>>,
    f2: Option<Seq<char>>,
)
    requires
        policy_matches(r1, t, a, configured_backend, model_ref, pref, installed, catalog, remote_catalog, f1),
        policy_matches(r2, t, a, configured_backend, model_ref, pref, installed, catalog, remote_catalog, f2),
        configured_remote(model_ref) is Some || embedded_choice(f1, catalog) == embedded_choice(f2, catalog),
    ensures
        r1.backend == r2.backend,
        r1.device == r2.device,
        r1.model_profile == r2.model_profile,
        r1.preferred_model@ == r2.preferred_model@,
        str_views(r1.fallback_models@) == str_views(r2.fallback_models@),
        r1.needs_model_download == r2.needs_model_download,
        r1.enable_server_fallback == r2.enable_server_fallback,
        r1.enable_cloud_fallback == r2.enable_cloud_fallback,
        str_views(r1.reasons@) == str_views(r2.reasons@),
{
}

/// The fallback chain never repeats the preferred model (up to ASCII case),
/// and holds only catalogued models, each one a candidate.
pub proof fn lemma_fallbacks_exclude_preferred(
    cands: Seq<Seq<char>>,
    preferred: Seq<char>,
    catalog: Seq<Seq<char>>,
)
    ensures
        forall|i: int|
            0 <= i < fallbacks(cands, preferred, catalog).len() ==> {
                let f = #[trigger] fallbacks(cands, preferred, catalog)[i];
                &&& ascii_lower(f) != ascii_lower(preferred)
                &&& list_has(catalog, f)
                &&& cands.contains(f)
            },
    decreases cands.len(),
{
    if cands.len() > 0 {
        let d = cands.drop_last();
        lemma_fallbacks_exclude_preferred(d, preferred, catalog);
        let rest = fallbacks(d, preferred, catalog);
        assert forall|i: int| 0 <= i < fallbacks(cands, preferred, catalog).len() implies {
            let f = #[trigger] fallbacks(cands, preferred, catalog)[i];
            &&& ascii_lower(f) != ascii_lower(preferred)
            &&& list_has(catalog, f)
            &&& cands.contains(f)
        } by {
            let f = fallbacks(cands, preferred, catalog)[i];
            if i < rest.len() {
                assert(f == rest[i]);
                let j = choose|j: int| 0 <= j < d.len() && d[j] == f;
                assert(cands[j] == f);
            } else {
                assert(cands[cands.len() - 1] == f);
            }
        }
    }
}

/// Forcing the CPU always selects the CPU device, the fast profile and the
/// CPU candidate list, whatever the hardware.
pub proof fn lemma_force_cpu_policy(t: Tier, a: Accelerators)
    ensures
        policy_device(a, RuntimePreference::ForceCpu) == DevicePreference::Cpu,
        policy_profile(t, a, RuntimePreference::ForceCpu) == ModelProfile::Fast,
        base_candidates(t, a, RuntimePreference::ForceCpu) == cpu_candidates(),
{
}

proof fn lemma_first_listed_found(cands: Seq<Seq<char>>, list: Seq<Seq<char>>, k: int)
    requires
        0 <= k < cands.len(),
        list_has(list, cands[k]),
    ensures
        first_listed(cands, list) matches Some(c) && list_has(list, c),
    decreases cands.len(),
{
    if !list_has(list, cands[0]) {
        assert(k > 0);
        assert(cands.drop_first()[k - 1] == cands[k]);
        lemma_first_listed_found(cands.drop_first(), list, k - 1);
    }
}

/// When some candidate is installed, the preferred local model is an
/// installed one, so no download is needed.
pub proof fn lemma_installed_candidate_preferred(
    cands: Seq<Seq<char>>,
    installed: Seq<Seq<char>>,
    catalog: Seq<Seq<char>>,
    k: int,
)
    requires
        0 <= k < cands.len(),
        list_has(installed, cands[k]),
    ensures
        list_has(installed, select_preferred(cands, installed, catalog)),
{
    lemma_first_listed_found(cands, installed, k);
}


// ---------------------------------------------------------------------------
// Inputs of the policy, and switching along the fallback chain.
// ---------------------------------------------------------------------------

/// A catalog model served by the server runtime only: some supported backend
/// is `server` (any ASCII case) and it has no download file.
pub open spec fn remote_only(m: crate::model_store::CatalogModel) -> bool {
    list_has(str_views(m.supported_backends@), "server"@) && m.download_filename is None
}

pub open spec fn remote_refs(ms: Seq<crate::model_store::CatalogModel>) -> Seq<Seq<char>>
    decreases ms.len(),
{
    if ms.len() == 0 {
        seq![]
    } else {
        let rest = remote_refs(ms.drop_last());
        if remote_only(ms.last()) {
            rest.push(ms.last().id@)
        } else {
            rest
        }
    }
}

/// The ids of the catalog models that only the server runtime serves (the
/// remote references the policy recognises).
pub fn catalog_remote_model_refs(catalog: &crate::model_store::ModelCatalog) -> (r: Vec<String>)
    ensures
        str_views(r@) == remote_refs(catalog.models@),
{
    let ghost ms = catalog.models@;
    let server = chars_of("server");
    let mut out: Vec<String> = Vec::new();
    let mut i: usize = 0;
    assert(ms.take(0) =~= seq![]);
    assert(str_views(out@) =~= seq![]);
    while i < catalog.models.len()
        invariant
            i <= ms.len(),
            ms == catalog.models@,
            server@ == "server"@,
            str_views(out@) == remote_refs(ms.take(i as int)),
        decreases ms.len() - i,
    {
        assert(ms.take(i + 1).drop_last() =~= ms.take(i as int));
        assert(ms.take(i + 1).last() == ms[i as int]);
        let m = &catalog.models[i];
        if m.download_filename.is_none() && list_has_exec(&m.supported_backends, &server) {
            let ghost before = out@;
            out.push(owned(m.id.as_str()));
            assert(str_views(out@) =~= str_views(before).push(m.id@));
        }
        i = i + 1;
    }
    assert(ms.take(i as int) =~= ms);
    out
}

/// The next model to switch to along the fallback queue: the first queued
/// model that is not the active one and is a file on disk
/// (`is_active[k]`, `is_file[k]` describe queue entry `k`). The entries
/// before it, and it, leave the queue.
pub fn next_fallback_position(is_active: &[bool], is_file: &[bool]) -> (r: Option<usize>)
    requires
        is_active@.len() == is_file@.len(),
    ensures
        match r {
            Some(k) => k < is_file@.len() && !is_active@[k as int] && is_file@[k as int]
                && forall|j: int| 0 <= j < k ==> is_active@[j] || !is_file@[j],
            None => forall|j: int| 0 <= j < is_file@.len() ==> is_active@[j] || !is_file@[j],
        },
{
    let mut k: usize = 0;
    while k < is_file.len()
        invariant
            k <= is_file@.len(),
            is_active@.len() == is_file@.len(),
            forall|j: int| 0 <= j < k ==> is_active@[j] || !is_file@[j],
        decreases is_file@.len() - k,
    {
        if !is_active[k] && is_file[k] {
            return Some(k);
        }
        k = k + 1;
    }
    None
}

} // verus!
