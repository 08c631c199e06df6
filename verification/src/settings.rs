//! What the settings window and the model menus show: size labels, model
//! speed/accuracy hints, the runtime recommendation, and the records the
//! window exchanges with the service.

use vstd::prelude::*;
use crate::config::RuntimePreference;
use crate::hardware::owned;
use crate::num::{decimal_digits, digit_char, parse_u64, parse_u64_spec, u64_to_decimal};
use crate::text::{
    ascii_lower, chars_of, contains, contains_exec, push_chars, push_str, string_from_chars,
    to_ascii_lowercase, trim, trim_exec,
};

verus! {

/// An installed model as the settings window lists it.
#[derive(Debug, Clone)]
pub struct InstalledModel {
    pub path: String,
    pub name: String,
    pub size_label: String,
    pub is_active: bool,
}

/// The settings the window hands back when the user saves.
#[derive(Debug, Clone)]
pub struct SavedSettings {
    pub injection_method: String,
    pub llm_enabled: bool,
    pub ollama_url: String,
    pub ollama_model: String,
    pub idle_unload_minutes: u32,
    pub runtime_mode: String,
}

/// The runtime state shown on the settings window's runtime page.
#[derive(Debug, Clone)]
pub struct RuntimeStatus {
    pub backend: String,
    pub device: String,
    pub preferred_model: String,
    pub fallback_chain: String,
    pub server_fallback: bool,
    pub cloud_fallback: bool,
    pub last_stage: String,
    pub hardware_summary: String,
    pub storage_summary: String,
}

// ---------------------------------------------------------------------------
// Size labels.
// ---------------------------------------------------------------------------

pub open spec fn pow2n(k: nat) -> nat
    decreases k,
{
    if k == 0 {
        1
    } else {
        2 * pow2n((k - 1) as nat)
    }
}

/// `n / d` rounded to the nearest integer, ties to even.
pub open spec fn round_half_even(n: nat, d: nat) -> nat
    recommends
        d > 0,
{
    let q = n / d;
    let r = n % d;
    if 2 * r > d || (2 * r == d && q % 2 == 1) {
        q + 1
    } else {
        q
    }
}

/// How many halvings bring `n` below 2^53.
pub open spec fn f64_shift(n: nat) -> nat
    decreases n,
{
    if n == 0 || n < pow2n(53) {
        0
    } else {
        1 + f64_shift(n / 2)
    }
}

/// The value of `n as f64`: `n` itself below 2^53, else `n` rounded to 53
/// significant bits, ties to even.
pub open spec fn f64_of(n: nat) -> nat {
    if n < pow2n(53) {
        n
    } else {
        round_half_even(n, pow2n(f64_shift(n))) * pow2n(f64_shift(n))
    }
}

/// Hundredths of a MiB, as `{:.2}` shows `bytes as f64 / 1048576.0`: the
/// exact quotient rounded to two decimals, ties to even.
pub open spec fn mib_hundredths(bytes: u64) -> nat {
    round_half_even(f64_of(bytes as nat) * 100, 1048576)
}

/// The label ` (<MiB with two decimals> MB)`.
pub open spec fn size_label_text(bytes: u64) -> Seq<char> {
    let h = mib_hundredths(bytes);
    " ("@ + decimal_digits(h / 100) + seq!['.', digit_char((h % 100) / 10), digit_char(h % 10)]
        + " MB)"@
}

proof fn lemma_pow2n_53()
    ensures
        pow2n(53) == 0x20_0000_0000_0000,
{
    reveal_with_fuel(pow2n, 54);
}

proof fn lemma_pow2n_20()
    ensures
        pow2n(20) == 1048576,
{
    reveal_with_fuel(pow2n, 21);
}

fn round_half_even_exec(n: u128, d: u128) -> (r: u128)
    requires
        d > 0,
        n / d < u128::MAX,
    ensures
        r as nat == round_half_even(n as nat, d as nat),
{
    let q = n / d;
    let r = n % d;
    if r > d - r || (r == d - r && q % 2 == 1) {
        q + 1
    } else {
        q
    }
}

/// `n as f64`, as an integer (it is whole for every `u64`).
fn f64_of_exec(n: u64) -> (r: u128)
    ensures
        r as nat == f64_of(n as nat),
        r <= 0x2_0000_0000_0000_0000,
{
    proof {
        lemma_pow2n_53();
    }
    if n < 0x20_0000_0000_0000 {
        return n as u128;
    }
    let mut m: u64 = n;
    let mut ulp: u128 = 1;
    let ghost mut shift: nat = 0;
    assert(n as nat / 1 == n as nat);
    while m >= 0x20_0000_0000_0000
        invariant
            ulp as nat == pow2n(shift),
            m as nat == n as nat / (ulp as nat),
            f64_shift(n as nat) == shift + f64_shift(m as nat),
            1 <= ulp < 4096,
            (m as nat) * (ulp as nat) <= n as nat,
            pow2n(53) == 0x20_0000_0000_0000,
        decreases m,
    {
        proof {
            vstd::arithmetic::div_mod::lemma_div_denominator(n as int, ulp as int, 2);
            assert(ulp < 2048) by (nonlinear_arith)
                requires
                    (m as nat) * (ulp as nat) <= n as nat,
                    m >= 0x20_0000_0000_0000,
                    n <= u64::MAX,
            ;
            assert((m / 2) as nat * (2 * ulp as nat) <= n as nat) by (nonlinear_arith)
                requires
                    (m as nat) * (ulp as nat) <= n as nat,
            ;
        }
        m = m / 2;
        ulp = ulp * 2;
        proof {
            shift = shift + 1;
            assert(m as nat == (n as nat / ((ulp / 2) as nat)) / 2);
            assert(((ulp / 2) as nat) * 2 == ulp as nat);
        }
    }
    let q = round_half_even_exec(n as u128, ulp);
    proof {
        assert(f64_shift(m as nat) == 0);
        assert(q as nat <= 0x20_0000_0000_0000) by (nonlinear_arith)
            requires
                q as nat <= (n as nat / ulp as nat) + 1,
                n as nat / ulp as nat == m as nat,
                m < 0x20_0000_0000_0000,
        ;
        assert(q as nat * ulp as nat <= 0x20_0000_0000_0000 * 4096) by (nonlinear_arith)
            requires
                q as nat <= 0x20_0000_0000_0000,
                ulp < 4096,
        ;
    }
    q * ulp
}

/// The size label of a file: ` (<size in MiB with two decimals> MB)`, as
/// `format!(" ({:.2} MB)", bytes as f64 / (1024.0 * 1024.0))` prints it.
pub fn file_size_label_bytes(bytes: u64) -> (r: String)
    ensures
        r@ == size_label_text(bytes),
{
    proof {
        lemma_pow2n_20();
        reveal_strlit(" (");
        reveal_strlit(" MB)");
    }
    let f = f64_of_exec(bytes);
    let h = round_half_even_exec(f * 100, 1048576);
    let whole: u64 = (h / 100) as u64;
    let tenths: u8 = ((h % 100) / 10) as u8;
    let hundredths: u8 = (h % 10) as u8;
    let mut v: Vec<char> = Vec::new();
    push_str(&mut v, " (");
    let digits = u64_to_decimal(whole);
    push_chars(&mut v, &digits);
    v.push('.');
    let c1 = (tenths + 48u8) as char;
    let c2 = (hundredths + 48u8) as char;
    assert(c1 == digit_char(((h as nat % 100) / 10)));
    assert(c2 == digit_char(h as nat % 10));
    v.push(c1);
    v.push(c2);
    push_str(&mut v, " MB)");
    assert(v@ =~= size_label_text(bytes));
    string_from_chars(&v)
}

// ---------------------------------------------------------------------------
// Hints.
// ---------------------------------------------------------------------------

/// Speed and accuracy hints for a model, from the size word in its name
/// (the first of tiny, base, small, medium, large that occurs, ignoring ASCII
/// case).
pub open spec fn profile_hints(name: Seq<char>) -> (Seq<char>, Seq<char>) {
    let l = ascii_lower(name);
    if contains(l, "tiny"@) {
        ("Speed 10/10"@, "Accuracy 5/10"@)
    } else if contains(l, "base"@) {
        ("Speed 8/10"@, "Accuracy 7/10"@)
    } else if contains(l, "small"@) {
        ("Speed 6/10"@, "Accuracy 8/10"@)
    } else if contains(l, "medium"@) {
        ("Speed 4/10"@, "Accuracy 9/10"@)
    } else if contains(l, "large"@) {
        ("Speed 2/10"@, "Accuracy 10/10"@)
    } else {
        ("Speed --"@, "Accuracy --"@)
    }
}

fn has_word(l: &Vec<char>, w: &str) -> (r: bool)
    ensures
        r == contains(l@, w@),
{
    let wc = chars_of(w);
    contains_exec(l, &wc)
}

/// Speed and accuracy hints for a model name.
pub fn model_profile_hints(name: &str) -> (r: (&'static str, &'static str))
    ensures
        (r.0@, r.1@) == profile_hints(name@),
{
    let lower = to_ascii_lowercase(&chars_of(name));
    if has_word(&lower, "tiny") {
        ("Speed 10/10", "Accuracy 5/10")
    } else if has_word(&lower, "base") {
        ("Speed 8/10", "Accuracy 7/10")
    } else if has_word(&lower, "small") {
        ("Speed 6/10", "Accuracy 8/10")
    } else if has_word(&lower, "medium") {
        ("Speed 4/10", "Accuracy 9/10")
    } else if has_word(&lower, "large") {
        ("Speed 2/10", "Accuracy 10/10")
    } else {
        ("Speed --", "Accuracy --")
    }
}

pub const RECOMMEND_GPU: &'static str =
    "Recommended: high-accuracy model (Base/Small or higher), real-time dictation should be stable.";

pub const RECOMMEND_CPU: &'static str =
    "Recommended: balanced model (Tiny/Base). Prioritize stability over maximum accuracy.";

pub const RECOMMEND_AUTO: &'static str = "Recommended: Auto mode with fallback chain enabled.";

/// The recommendation for a device description.
pub open spec fn recommendation_for(device: Seq<char>) -> Seq<char> {
    if contains(ascii_lower(device), "gpu"@) {
        RECOMMEND_GPU@
    } else if contains(ascii_lower(device), "cpu"@) {
        RECOMMEND_CPU@
    } else {
        RECOMMEND_AUTO@
    }
}

pub open spec fn recommendation_text(backend: Seq<char>, device: Seq<char>) -> Seq<char> {
    "System profile: backend="@ + backend + " on "@ + device + ".\r\n"@ + recommendation_for(device)
        + "\r\nIf speed is low, use a smaller model. If quality is low, use a larger model."@
}

/// The runtime page's advice for the current backend and device.
pub fn runtime_recommendation_text(rs: &RuntimeStatus) -> (r: String)
    ensures
        r@ == recommendation_text(rs.backend@, rs.device@),
{
    let device = chars_of(rs.device.as_str());
    let lower = to_ascii_lowercase(&device);
    let recommendation = if has_word(&lower, "gpu") {
        RECOMMEND_GPU
    } else if has_word(&lower, "cpu") {
        RECOMMEND_CPU
    } else {
        RECOMMEND_AUTO
    };
    let mut v: Vec<char> = Vec::new();
    push_str(&mut v, "System profile: backend=");
    push_str(&mut v, rs.backend.as_str());
    push_str(&mut v, " on ");
    push_chars(&mut v, &device);
    push_str(&mut v, ".\r\n");
    push_str(&mut v, recommendation);
    push_str(
        &mut v,
        "\r\nIf speed is low, use a smaller model. If quality is low, use a larger model.",
    );
    string_from_chars(&v)
}

/// Whether the runtime preference lets the runtime use a GPU.
pub fn runtime_prefers_gpu(pref: &RuntimePreference) -> (r: bool)
    ensures
        r == (*pref != RuntimePreference::ForceCpu),
{
    match pref {
        RuntimePreference::ForceCpu => false,
        _ => true,
    }
}

/// The device hint handed to the server runtime for a preference.
pub open spec fn device_hint(pref: RuntimePreference) -> Seq<char> {
    match pref {
        RuntimePreference::ForceCpu => "cpu"@,
        RuntimePreference::ForceGpu => "cuda"@,
        RuntimePreference::Auto => "auto"@,
    }
}

/// The device hint for the server runtime (always given).
pub fn server_device_hint(pref: &RuntimePreference) -> (r: Option<String>)
    ensures
        r is Some && r->0@ == device_hint(*pref),
{
    match pref {
        RuntimePreference::ForceCpu => Some(owned("cpu")),
        RuntimePreference::ForceGpu => Some(owned("cuda")),
        RuntimePreference::Auto => Some(owned("auto")),
    }
}

// ---------------------------------------------------------------------------
// The settings window's lists and panels.
// ---------------------------------------------------------------------------

/// What the installed-models list shows when nothing is installed.
pub const NO_MODELS_LABEL: &'static str = "No models installed";

/// An installed model's line: its name, its size label, and `  [active]`
/// for the model in use.
pub open spec fn installed_label_of(m: InstalledModel) -> Seq<char> {
    m.name@ + m.size_label@ + if m.is_active {
        "  [active]"@
    } else {
        ""@
    }
}

pub fn installed_model_label(m: &InstalledModel) -> (r: String)
    ensures
        r@ == installed_label_of(*m),
{
    let mut v = chars_of(m.name.as_str());
    push_str(&mut v, m.size_label.as_str());
    push_str(&mut v, if m.is_active { "  [active]" } else { "" });
    string_from_chars(&v)
}

/// A downloadable model's line: name, size in MB, and `  [installed]` when
/// its file is already in the models directory.
pub open spec fn download_label_of(name: Seq<char>, size_mb: u32, installed: bool) -> Seq<char> {
    name + "  |  "@ + decimal_digits(size_mb as nat) + " MB"@ + if installed {
        "  [installed]"@
    } else {
        ""@
    }
}

pub fn download_list_label(name: &str, size_mb: u32, installed: bool) -> (r: String)
    ensures
        r@ == download_label_of(name@, size_mb, installed),
{
    let mut v = chars_of(name);
    push_str(&mut v, "  |  ");
    let digits = u64_to_decimal(size_mb as u64);
    push_chars(&mut v, &digits);
    push_str(&mut v, " MB");
    push_str(&mut v, if installed { "  [installed]" } else { "" });
    string_from_chars(&v)
}

/// The details of a selected installed model.
pub open spec fn model_details_of(m: InstalledModel) -> Seq<char> {
    let (speed, acc) = profile_hints(m.name@);
    "Name: "@ + m.name@ + "\r\nSize: "@ + (if m.size_label@.len() == 0 {
        "unknown"@
    } else {
        m.size_label@
    }) + "\r\n"@ + speed + "\r\n"@ + acc + "\r\nBest for: "@ + if m.is_active {
        "current dictation model"@
    } else {
        "manual switch available"@
    }
}

pub fn model_details_text(m: &InstalledModel) -> (r: String)
    ensures
        r@ == model_details_of(*m),
{
    let (speed, acc) = model_profile_hints(m.name.as_str());
    let mut v = chars_of("Name: ");
    push_str(&mut v, m.name.as_str());
    push_str(&mut v, "\r\nSize: ");
    if m.size_label.as_str().is_empty() {
        push_str(&mut v, "unknown");
    } else {
        push_str(&mut v, m.size_label.as_str());
    }
    push_str(&mut v, "\r\n");
    push_str(&mut v, speed);
    push_str(&mut v, "\r\n");
    push_str(&mut v, acc);
    push_str(&mut v, "\r\nBest for: ");
    push_str(&mut v, if m.is_active { "current dictation model" } else { "manual switch available" });
    string_from_chars(&v)
}

/// The details of a selected downloadable model.
pub open spec fn download_details_of(name: Seq<char>, filename: Seq<char>, size_mb: u32, installed: bool) -> Seq<
    char,
> {
    let (speed, acc) = profile_hints(name);
    "Name: "@ + name + "\r\nFile: "@ + filename + "\r\nSize: "@ + decimal_digits(size_mb as nat)
        + " MB\r\n"@ + speed + "\r\n"@ + acc + "\r\nStatus: "@ + if installed {
        "already installed"@
    } else {
        "not installed"@
    }
}

pub fn download_details_text(name: &str, filename: &str, size_mb: u32, installed: bool) -> (r: String)
    ensures
        r@ == download_details_of(name@, filename@, size_mb, installed),
{
    let (speed, acc) = model_profile_hints(name);
    let mut v = chars_of("Name: ");
    push_str(&mut v, name);
    push_str(&mut v, "\r\nFile: ");
    push_str(&mut v, filename);
    push_str(&mut v, "\r\nSize: ");
    let digits = u64_to_decimal(size_mb as u64);
    push_chars(&mut v, &digits);
    push_str(&mut v, " MB\r\n");
    push_str(&mut v, speed);
    push_str(&mut v, "\r\n");
    push_str(&mut v, acc);
    push_str(&mut v, "\r\nStatus: ");
    push_str(&mut v, if installed { "already installed" } else { "not installed" });
    string_from_chars(&v)
}

/// The runtime page's status panel.
pub open spec fn runtime_details_of(rs: RuntimeStatus) -> Seq<char> {
    "Backend: "@ + rs.backend@ + "\r\nDevice: "@ + rs.device@ + "\r\nPreferred model: "@
        + rs.preferred_model@ + "\r\nFallback chain: "@ + rs.fallback_chain@
        + "\r\nServer fallback: "@ + (if rs.server_fallback {
        "enabled"@
    } else {
        "disabled"@
    }) + "\r\nCloud fallback: "@ + (if rs.cloud_fallback {
        "planned"@
    } else {
        "disabled"@
    }) + "\r\nLast stage: "@ + rs.last_stage@ + "\r\n\r\nHardware summary:\r\n"@
        + rs.hardware_summary@
}

pub fn runtime_details_text(rs: &RuntimeStatus) -> (r: String)
    ensures
        r@ == runtime_details_of(*rs),
{
    let mut v = chars_of("Backend: ");
    push_str(&mut v, rs.backend.as_str());
    push_str(&mut v, "\r\nDevice: ");
    push_str(&mut v, rs.device.as_str());
    push_str(&mut v, "\r\nPreferred model: ");
    push_str(&mut v, rs.preferred_model.as_str());
    push_str(&mut v, "\r\nFallback chain: ");
    push_str(&mut v, rs.fallback_chain.as_str());
    push_str(&mut v, "\r\nServer fallback: ");
    push_str(&mut v, if rs.server_fallback { "enabled" } else { "disabled" });
    push_str(&mut v, "\r\nCloud fallback: ");
    push_str(&mut v, if rs.cloud_fallback { "planned" } else { "disabled" });
    push_str(&mut v, "\r\nLast stage: ");
    push_str(&mut v, rs.last_stage.as_str());
    push_str(&mut v, "\r\n\r\nHardware summary:\r\n");
    push_str(&mut v, rs.hardware_summary.as_str());
    string_from_chars(&v)
}

/// The storage page: the shared models directory, the shared store file,
/// the storage summary and the history retention.
pub open spec fn storage_info_of(models_dir: Seq<char>, store_path: Seq<char>, summary: Seq<char>, retention_days: u32) -> Seq<
    char,
> {
    "Shared models directory:\r\n"@ + models_dir + "\r\n\r\nShared store metadata:\r\n"@ + store_path
        + "\r\n\r\n"@ + summary + "\r\n\r\nHistory retention: "@ + decimal_digits(
        retention_days as nat,
    ) + " days"@
}

pub fn storage_info_text(models_dir: &str, store_path: &str, summary: &str, retention_days: u32) -> (r: String)
    ensures
        r@ == storage_info_of(models_dir@, store_path@, summary@, retention_days),
{
    let mut v = chars_of("Shared models directory:\r\n");
    push_str(&mut v, models_dir);
    push_str(&mut v, "\r\n\r\nShared store metadata:\r\n");
    push_str(&mut v, store_path);
    push_str(&mut v, "\r\n\r\n");
    push_str(&mut v, summary);
    push_str(&mut v, "\r\n\r\nHistory retention: ");
    let digits = u64_to_decimal(retention_days as u64);
    push_chars(&mut v, &digits);
    push_str(&mut v, " days");
    string_from_chars(&v)
}

/// The about page.
pub open spec fn about_of(hotkey_summary: Seq<char>, history_enabled: bool) -> Seq<char> {
    "Dictator for Windows\r\nVersion: 0.3.x alpha\r\n\r\nHotkey profile:\r\n"@ + hotkey_summary
        + "\r\n\r\nHistory: "@ + (if history_enabled {
        "enabled"@
    } else {
        "disabled"@
    }) + "\r\n\r\nAll settings are applied instantly."@
}

pub fn about_text(hotkey_summary: &str, history_enabled: bool) -> (r: String)
    ensures
        r@ == about_of(hotkey_summary@, history_enabled),
{
    let mut v = chars_of("Dictator for Windows\r\nVersion: 0.3.x alpha\r\n\r\nHotkey profile:\r\n");
    push_str(&mut v, hotkey_summary);
    push_str(&mut v, "\r\n\r\nHistory: ");
    push_str(&mut v, if history_enabled { "enabled" } else { "disabled" });
    push_str(&mut v, "\r\n\r\nAll settings are applied instantly.");
    string_from_chars(&v)
}

/// The injection method chosen in the settings combo box (by position).
pub open spec fn injection_choice(sel: isize) -> Seq<char> {
    if sel == 1 {
        "clipboard"@
    } else if sel == 2 {
        "clipboard_enter"@
    } else {
        "direct"@
    }
}

/// The runtime mode chosen in the settings combo box (by position).
pub open spec fn runtime_mode_choice(sel: isize) -> Seq<char> {
    if sel == 1 {
        "force_gpu"@
    } else if sel == 2 {
        "force_cpu"@
    } else {
        "auto"@
    }
}

/// The idle-unload minutes typed into the settings: the trimmed text as a
/// `u32`, or 5 when it is not one.
pub open spec fn idle_minutes_of(text: Seq<char>) -> u32 {
    match parse_u64_spec(trim(text)) {
        Some(v) => if v <= u32::MAX {
            v as u32
        } else {
            5
        },
        None => 5,
    }
}

/// The settings read back from the window's controls: the selected
/// positions of the two combo boxes, the LLM check box, and the texts of the
/// three edit fields.
pub fn settings_from_controls(
    injection_sel: isize,
    runtime_sel: isize,
    llm_checked: bool,
    ollama_url: &str,
    ollama_model: &str,
    idle_text: &str,
) -> (r: SavedSettings)
    ensures
        r.injection_method@ == injection_choice(injection_sel),
        r.runtime_mode@ == runtime_mode_choice(runtime_sel),
        r.llm_enabled == llm_checked,
        r.ollama_url@ == ollama_url@,
        r.ollama_model@ == ollama_model@,
        r.idle_unload_minutes == idle_minutes_of(idle_text@),
{
    let injection_method = if injection_sel == 1 {
        owned("clipboard")
    } else if injection_sel == 2 {
        owned("clipboard_enter")
    } else {
        owned("direct")
    };
    let runtime_mode = if runtime_sel == 1 {
        owned("force_gpu")
    } else if runtime_sel == 2 {
        owned("force_cpu")
    } else {
        owned("auto")
    };
    let trimmed = trim_exec(&chars_of(idle_text));
    let idle_unload_minutes: u32 = match parse_u64(&trimmed) {
        Some(v) => if v <= 0xffff_ffff {
            v as u32
        } else {
            5
        },
        None => 5,
    };
    SavedSettings {
        injection_method,
        llm_enabled: llm_checked,
        ollama_url: owned(ollama_url),
        ollama_model: owned(ollama_model),
        idle_unload_minutes,
        runtime_mode,
    }
}

// ---------------------------------------------------------------------------
// Commands of the settings window.
// ---------------------------------------------------------------------------

pub const IDC_NAV_MODELS: usize = 1001;
pub const IDC_NAV_RUNTIME: usize = 1002;
pub const IDC_NAV_DICTATION: usize = 1003;
pub const IDC_NAV_STORAGE: usize = 1004;
pub const IDC_NAV_ABOUT: usize = 1005;
pub const IDC_MODEL_LIST: usize = 1101;
pub const IDC_BTN_USE_MODEL: usize = 1103;
pub const IDC_BTN_DELETE_MODEL: usize = 1104;
pub const IDC_DOWNLOAD_LIST: usize = 1105;
pub const IDC_BTN_DOWNLOAD: usize = 1107;
pub const IDC_CMB_RUNTIME_MODE: usize = 1201;
pub const IDC_BTN_REFRESH_RUNTIME: usize = 1204;
pub const IDC_CMB_INJECTION: usize = 1301;
pub const IDC_CHK_LLM: usize = 1302;
pub const IDC_EDIT_OLLAMA_URL: usize = 1303;
pub const IDC_EDIT_OLLAMA_MODEL: usize = 1304;
pub const IDC_EDIT_IDLE: usize = 1305;
pub const IDC_BTN_OPEN_SHARED_MODELS: usize = 1402;
pub const IDC_BTN_OPEN_SHARED_STORE: usize = 1403;
pub const IDC_BTN_OPEN_HISTORY: usize = 1404;
pub const IDC_BTN_OPEN_LOGS: usize = 1405;
pub const IDC_BTN_OPEN_CONFIG: usize = 1406;
pub const IDC_BTN_CLOSE: usize = 1502;

/// Notification that a list or combo box selection changed.
pub const NOTIFY_SELCHANGE: u16 = 1;
/// Notification that an edit field lost the focus.
pub const NOTIFY_KILLFOCUS: u16 = 0x0200;

/// Pages of the settings window.
#[derive(Debug, Clone, Copy, PartialEq, Eq, Structural)]
pub enum SettingsPage {
    Models,
    Runtime,
    Dictation,
    Storage,
    About,
}

/// What a control's command asks of the settings window.
#[derive(Debug, Clone, Copy, PartialEq, Eq, Structural)]
pub enum SettingsCommand {
    ShowPage(SettingsPage),
    ShowModelDetails,
    ShowDownloadDetails,
    UseSelectedModel,
    DeleteSelectedModel,
    DownloadSelectedModel,
    RefreshPanels,
    /// Read the controls back and save.
    ApplySettings,
    OpenSharedModels,
    OpenSharedStore,
    OpenHistory,
    OpenLogs,
    OpenConfig,
    Close,
    Ignore,
}

pub open spec fn settings_command_of(id: usize, notify: u16) -> SettingsCommand {
    if id == IDC_NAV_MODELS {
        SettingsCommand::ShowPage(SettingsPage::Models)
    } else if id == IDC_NAV_RUNTIME {
        SettingsCommand::ShowPage(SettingsPage::Runtime)
    } else if id == IDC_NAV_DICTATION {
        SettingsCommand::ShowPage(SettingsPage::Dictation)
    } else if id == IDC_NAV_STORAGE {
        SettingsCommand::ShowPage(SettingsPage::Storage)
    } else if id == IDC_NAV_ABOUT {
        SettingsCommand::ShowPage(SettingsPage::About)
    } else if id == IDC_MODEL_LIST && notify == NOTIFY_SELCHANGE {
        SettingsCommand::ShowModelDetails
    } else if id == IDC_DOWNLOAD_LIST && notify == NOTIFY_SELCHANGE {
        SettingsCommand::ShowDownloadDetails
    } else if id == IDC_BTN_USE_MODEL {
        SettingsCommand::UseSelectedModel
    } else if id == IDC_BTN_DELETE_MODEL {
        SettingsCommand::DeleteSelectedModel
    } else if id == IDC_BTN_DOWNLOAD {
        SettingsCommand::DownloadSelectedModel
    } else if id == IDC_BTN_REFRESH_RUNTIME {
        SettingsCommand::RefreshPanels
    } else if (id == IDC_CMB_INJECTION || id == IDC_CMB_RUNTIME_MODE) && notify == NOTIFY_SELCHANGE {
        SettingsCommand::ApplySettings
    } else if id == IDC_CHK_LLM {
        SettingsCommand::ApplySettings
    } else if (id == IDC_EDIT_OLLAMA_URL || id == IDC_EDIT_OLLAMA_MODEL || id == IDC_EDIT_IDLE)
        && notify == NOTIFY_KILLFOCUS {
        SettingsCommand::ApplySettings
    } else if id == IDC_BTN_OPEN_SHARED_MODELS {
        SettingsCommand::OpenSharedModels
    } else if id == IDC_BTN_OPEN_SHARED_STORE {
        SettingsCommand::OpenSharedStore
    } else if id == IDC_BTN_OPEN_HISTORY {
        SettingsCommand::OpenHistory
    } else if id == IDC_BTN_OPEN_LOGS {
        SettingsCommand::OpenLogs
    } else if id == IDC_BTN_OPEN_CONFIG {
        SettingsCommand::OpenConfig
    } else if id == IDC_BTN_CLOSE {
        SettingsCommand::Close
    } else {
        SettingsCommand::Ignore
    }
}

/// The command of control `id` with notification `notify`. Selection
/// changes of the lists show details; selection changes of the combo boxes,
/// clicks of the LLM check box and edits that lose the focus save; other
/// notifications of those controls are ignored.
pub fn settings_command(id: usize, notify: u16) -> (r: SettingsCommand)
    ensures
        r == settings_command_of(id, notify),
{
    if id == IDC_NAV_MODELS {
        SettingsCommand::ShowPage(SettingsPage::Models)
    } else if id == IDC_NAV_RUNTIME {
        SettingsCommand::ShowPage(SettingsPage::Runtime)
    } else if id == IDC_NAV_DICTATION {
        SettingsCommand::ShowPage(SettingsPage::Dictation)
    } else if id == IDC_NAV_STORAGE {
        SettingsCommand::ShowPage(SettingsPage::Storage)
    } else if id == IDC_NAV_ABOUT {
        SettingsCommand::ShowPage(SettingsPage::About)
    } else if id == IDC_MODEL_LIST && notify == NOTIFY_SELCHANGE {
        SettingsCommand::ShowModelDetails
    } else if id == IDC_DOWNLOAD_LIST && notify == NOTIFY_SELCHANGE {
        SettingsCommand::ShowDownloadDetails
    } else if id == IDC_BTN_USE_MODEL {
        SettingsCommand::UseSelectedModel
    } else if id == IDC_BTN_DELETE_MODEL {
        SettingsCommand::DeleteSelectedModel
    } else if id == IDC_BTN_DOWNLOAD {
        SettingsCommand::DownloadSelectedModel
    } else if id == IDC_BTN_REFRESH_RUNTIME {
        SettingsCommand::RefreshPanels
    } else if (id == IDC_CMB_INJECTION || id == IDC_CMB_RUNTIME_MODE) && notify == NOTIFY_SELCHANGE {
        SettingsCommand::ApplySettings
    } else if id == IDC_CHK_LLM {
        SettingsCommand::ApplySettings
    } else if (id == IDC_EDIT_OLLAMA_URL || id == IDC_EDIT_OLLAMA_MODEL || id == IDC_EDIT_IDLE)
        && notify == NOTIFY_KILLFOCUS {
        SettingsCommand::ApplySettings
    } else if id == IDC_BTN_OPEN_SHARED_MODELS {
        SettingsCommand::OpenSharedModels
    } else if id == IDC_BTN_OPEN_SHARED_STORE {
        SettingsCommand::OpenSharedStore
    } else if id == IDC_BTN_OPEN_HISTORY {
        SettingsCommand::OpenHistory
    } else if id == IDC_BTN_OPEN_LOGS {
        SettingsCommand::OpenLogs
    } else if id == IDC_BTN_OPEN_CONFIG {
        SettingsCommand::OpenConfig
    } else if id == IDC_BTN_CLOSE {
        SettingsCommand::Close
    } else {
        SettingsCommand::Ignore
    }
}

// ---------------------------------------------------------------------------
// The WinUI settings host.
// ---------------------------------------------------------------------------

/// The command-line arguments the settings host is started with.
pub open spec fn settings_host_args_of(
    config_path: Seq<char>,
    models_dir: Seq<char>,
    store_path: Seq<char>,
    history_dir: Seq<char>,
    audio_dir: Seq<char>,
    transcripts_dir: Seq<char>,
    onboarding: bool,
) -> Seq<Seq<char>> {
    seq![
        "--config"@,
        config_path,
        "--models-dir"@,
        models_dir,
        "--store-path"@,
        store_path,
        "--history-dir"@,
        history_dir,
        "--audio-dir"@,
        audio_dir,
        "--transcripts-dir"@,
        transcripts_dir,
    ] + if onboarding {
        seq!["--onboarding"@]
    } else {
        seq![]
    }
}

pub fn settings_host_args(
    config_path: &str,
    models_dir: &str,
    store_path: &str,
    history_dir: &str,
    audio_dir: &str,
    transcripts_dir: &str,
    onboarding: bool,
) -> (r: Vec<String>)
    ensures
        r@.map_values(|a: String| a@) == settings_host_args_of(
            config_path@,
            models_dir@,
            store_path@,
            history_dir@,
            audio_dir@,
            transcripts_dir@,
            onboarding,
        ),
{
    let mut r: Vec<String> = Vec::new();
    r.push(owned("--config"));
    r.push(owned(config_path));
    r.push(owned("--models-dir"));
    r.push(owned(models_dir));
    r.push(owned("--store-path"));
    r.push(owned(store_path));
    r.push(owned("--history-dir"));
    r.push(owned(history_dir));
    r.push(owned("--audio-dir"));
    r.push(owned(audio_dir));
    r.push(owned("--transcripts-dir"));
    r.push(owned(transcripts_dir));
    if onboarding {
        r.push(owned("--onboarding"));
    }
    assert(r@.map_values(|a: String| a@) =~= settings_host_args_of(
        config_path@,
        models_dir@,
        store_path@,
        history_dir@,
        audio_dir@,
        transcripts_dir@,
        onboarding,
    ));
    r
}

} // verus!
