//! Application configuration: the settings schema and its defaults.
//!
//! Paths are held as strings; reading and writing the TOML file is done by
//! the application around this library.

use vstd::prelude::*;
use crate::hardware::{owned, HostOs};
use crate::text::{chars_of, contains, contains_exec, ends_with, replace_all, replace_all_exec, starts_with, string_from_chars};
use crate::paths::{
    after_last_slash, last_component, lemma_after_last_slash, local_path_text, plain_file_name,
    config_dir, data_local_dir, document_dir, joined, joined3, lemma_joined, lemma_joined3, no_verbatim,
    path_exists, path_join, plain_relative,
};

verus! {

/// Main configuration structure.
#[derive(Debug, Clone)]
pub struct Config {
    pub hotkey: HotkeyConfig,
    pub audio: AudioConfig,
    pub whisper: WhisperConfig,
    pub ollama: OllamaConfig,
    pub streaming: StreamingConfig,
    pub history: HistoryConfig,
    pub injection: InjectionConfig,
    pub memory: MemoryConfig,
    pub runtime: RuntimeConfig,
    pub ui: UiConfig,
    pub storage: StorageConfig,
    pub corrections: CorrectionsConfig,
}

/// Memory management configuration.
#[derive(Debug, Clone, Copy, PartialEq, Eq, Structural)]
pub struct MemoryConfig {
    /// Minutes of inactivity before the model is unloaded (0 = never).
    pub idle_unload_minutes: u32,
}

pub fn default_idle_unload_minutes() -> (r: u32)
    ensures
        r == 5,
{
    5
}

impl Default for MemoryConfig {
    fn default() -> (r: Self)
        ensures
            r.idle_unload_minutes == 5,
    {
        MemoryConfig { idle_unload_minutes: default_idle_unload_minutes() }
    }
}

/// Runtime recommendation preference for the adaptive policy.
#[derive(Debug, Clone, Copy, PartialEq, Eq, Structural)]
pub enum RuntimePreference {
    Auto,
    ForceGpu,
    ForceCpu,
}

pub open spec fn runtime_preference_name(p: RuntimePreference) -> Seq<char> {
    match p {
        RuntimePreference::Auto => "auto"@,
        RuntimePreference::ForceGpu => "force_gpu"@,
        RuntimePreference::ForceCpu => "force_cpu"@,
    }
}

impl RuntimePreference {
    pub fn as_str(&self) -> (r: &'static str)
        ensures
            r@ == runtime_preference_name(*self),
    {
        match self {
            RuntimePreference::Auto => "auto",
            RuntimePreference::ForceGpu => "force_gpu",
            RuntimePreference::ForceCpu => "force_cpu",
        }
    }
}

impl Default for RuntimePreference {
    fn default() -> (r: Self)
        ensures
            r == RuntimePreference::Auto,
    {
        RuntimePreference::Auto
    }
}

/// Runtime policy configuration.
#[derive(Debug, Clone, Copy, PartialEq, Eq, Structural)]
pub struct RuntimeConfig {
    pub preference: RuntimePreference,
}

impl Default for RuntimeConfig {
    fn default() -> (r: Self)
        ensures
            r.preference == RuntimePreference::Auto,
    {
        RuntimeConfig { preference: RuntimePreference::Auto }
    }
}

/// Overlay behaviour after a transcription.
#[derive(Debug, Clone, Copy, PartialEq, Eq, Structural)]
pub struct UiConfig {
    pub show_post_transcription_overlay: bool,
    pub post_transcription_overlay_seconds: u32,
}

pub fn default_overlay_result_seconds() -> (r: u32)
    ensures
        r == 3,
{
    3
}

pub fn default_true() -> (r: bool)
    ensures
        r,
{
    true
}

impl Default for UiConfig {
    fn default() -> (r: Self)
        ensures
            r.show_post_transcription_overlay,
            r.post_transcription_overlay_seconds == 3,
    {
        UiConfig {
            show_post_transcription_overlay: default_true(),
            post_transcription_overlay_seconds: default_overlay_result_seconds(),
        }
    }
}

/// Storage layout used by history/recordings.
#[derive(Debug, Clone)]
pub struct StorageConfig {
    pub audio_history_dir: String,
    pub transcripts_dir: String,
}

/// `<documents>/Dictator/History`, with `.` when the platform has no
/// documents folder.
pub fn default_history_root_dir() -> (r: String)
    ensures
        crate::text::ends_with(r@, "History"@),
{
    proof {
        reveal_strlit("History");
    }
    let base = match document_dir() {
        Some(d) => d,
        None => owned("."),
    };
    let a = path_join(base.as_str(), "Dictator");
    path_join(a.as_str(), "History")
}

/// `<history root>/audio`.
pub fn default_audio_history_dir() -> (r: String)
    ensures
        crate::text::ends_with(r@, "audio"@),
{
    let root = default_history_root_dir();
    proof {
        reveal_strlit("audio");
    }
    path_join(root.as_str(), "audio")
}

/// `<history root>/transcripts`.
pub fn default_transcripts_dir() -> (r: String)
    ensures
        crate::text::ends_with(r@, "transcripts"@),
{
    let root = default_history_root_dir();
    proof {
        reveal_strlit("transcripts");
    }
    path_join(root.as_str(), "transcripts")
}

impl Default for StorageConfig {
    fn default() -> (r: Self)
        ensures
            crate::text::ends_with(r.audio_history_dir@, "audio"@),
            crate::text::ends_with(r.transcripts_dir@, "transcripts"@),
    {
        StorageConfig {
            audio_history_dir: default_audio_history_dir(),
            transcripts_dir: default_transcripts_dir(),
        }
    }
}

/// Post-recognition corrections dictionary configuration.
#[derive(Debug, Clone)]
pub struct CorrectionsConfig {
    pub enabled: bool,
    pub auto_learn: bool,
    pub min_auto_learn_repeats: u32,
    pub dictionary_path: Option<String>,
}

pub fn default_auto_learn_min_repeats() -> (r: u32)
    ensures
        r == 3,
{
    3
}

impl Default for CorrectionsConfig {
    fn default() -> (r: Self)
        ensures
            r.enabled,
            r.auto_learn,
            r.min_auto_learn_repeats == 3,
            r.dictionary_path is None,
    {
        CorrectionsConfig {
            enabled: default_true(),
            auto_learn: default_true(),
            min_auto_learn_repeats: default_auto_learn_min_repeats(),
            dictionary_path: None,
        }
    }
}

/// History storage configuration.
#[derive(Debug, Clone, Copy, PartialEq, Eq, Structural)]
pub struct HistoryConfig {
    /// Save transcriptions and audio to disk.
    pub enabled: bool,
    /// Days to keep history before automatic cleanup.
    pub retention_days: u32,
    /// Entries shown in the tray menu.
    pub max_recent: usize,
}

pub fn default_retention_days() -> (r: u32)
    ensures
        r == 7,
{
    7
}

pub fn default_max_recent() -> (r: usize)
    ensures
        r == 5,
{
    5
}

impl Default for HistoryConfig {
    fn default() -> (r: Self)
        ensures
            r.enabled,
            r.retention_days == 7,
            r.max_recent == 5,
    {
        HistoryConfig {
            enabled: default_true(),
            retention_days: default_retention_days(),
            max_recent: default_max_recent(),
        }
    }
}

/// Streaming configuration.
#[derive(Debug, Clone, Copy, PartialEq, Eq, Structural)]
pub struct StreamingConfig {
    /// Real-time streaming transcription.
    pub enabled: bool,
    /// Chunk/poll interval in seconds.
    pub poll_interval: u64,
}

pub fn default_streaming_poll_interval() -> (r: u64)
    ensures
        r == 15,
{
    15
}

impl Default for StreamingConfig {
    fn default() -> (r: Self)
        ensures
            !r.enabled,
            r.poll_interval == 15,
    {
        StreamingConfig { enabled: false, poll_interval: default_streaming_poll_interval() }
    }
}

/// Hotkey configuration.
#[derive(Debug, Clone)]
pub struct HotkeyConfig {
    pub modifiers: Vec<String>,
    pub key: String,
}

/// Audio configuration.
#[derive(Debug, Clone)]
pub struct AudioConfig {
    pub device: Option<String>,
    pub sample_rate: u32,
}

/// Whisper inference backend.
#[derive(Debug, Clone, Copy, PartialEq, Eq, Structural)]
pub enum WhisperBackend {
    /// Embedded whisper.cpp with GGML `.bin` model files.
    Embedded,
    /// Python HTTP server.
    Server,
}

impl Default for WhisperBackend {
    fn default() -> (r: Self)
        ensures
            r == WhisperBackend::Embedded,
    {
        WhisperBackend::Embedded
    }
}

/// Whisper configuration.
#[derive(Debug, Clone)]
pub struct WhisperConfig {
    pub model_path: String,
    pub language: String,
    /// Directory to scan for available models.
    pub models_dir: Option<String>,
    pub backend: WhisperBackend,
}

/// Text injection method.
#[derive(Debug, Clone, Copy, PartialEq, Eq, Structural)]
pub enum InjectionMethod {
    /// Unicode key events (switches to the clipboard for texts over 500 bytes).
    Direct,
    /// Clipboard + Ctrl+V.
    Clipboard,
    /// Clipboard + Ctrl+V + Enter.
    ClipboardEnter,
}

impl Default for InjectionMethod {
    fn default() -> (r: Self)
        ensures
            r == InjectionMethod::Direct,
    {
        InjectionMethod::Direct
    }
}

/// Text injection configuration.
#[derive(Debug, Clone, Copy, PartialEq, Eq, Structural)]
pub struct InjectionConfig {
    pub method: InjectionMethod,
}

impl Default for InjectionConfig {
    fn default() -> (r: Self)
        ensures
            r.method == InjectionMethod::Direct,
    {
        InjectionConfig { method: InjectionMethod::Direct }
    }
}

/// Ollama configuration.
#[derive(Debug, Clone)]
pub struct OllamaConfig {
    pub enabled: bool,
    pub url: String,
    pub model: String,
}

impl Default for Config {
    fn default() -> (r: Self)
        ensures
            r.hotkey.modifiers@.len() == 0,
            r.hotkey.key@ == "right_ctrl"@,
            r.audio.device is None,
            r.audio.sample_rate == 16000,
            r.whisper.model_path@ == "models/ggml-large-v3.bin"@,
            r.whisper.language@ == "ru"@,
            r.whisper.models_dir is None,
            r.whisper.backend == WhisperBackend::Embedded,
            !r.ollama.enabled,
            r.ollama.url@ == "http://localhost:11434"@,
            r.ollama.model@ == "glm-4.7-flash"@,
            !r.streaming.enabled,
            r.streaming.poll_interval == 15,
            r.history.enabled,
            r.history.retention_days == 7,
            r.history.max_recent == 5,
            r.injection.method == InjectionMethod::Direct,
            r.memory.idle_unload_minutes == 5,
            r.runtime.preference == RuntimePreference::Auto,
            r.ui.show_post_transcription_overlay,
            r.ui.post_transcription_overlay_seconds == 3,
            crate::text::ends_with(r.storage.audio_history_dir@, "audio"@),
            crate::text::ends_with(r.storage.transcripts_dir@, "transcripts"@),
            r.corrections.enabled,
            r.corrections.auto_learn,
            r.corrections.min_auto_learn_repeats == 3,
            r.corrections.dictionary_path is None,
    {
        Config {
            hotkey: HotkeyConfig { modifiers: Vec::new(), key: owned("right_ctrl") },
            audio: AudioConfig { device: None, sample_rate: 16000 },
            whisper: WhisperConfig {
                model_path: owned("models/ggml-large-v3.bin"),
                language: owned("ru"),
                models_dir: None,
                backend: WhisperBackend::Embedded,
            },
            ollama: OllamaConfig {
                enabled: false,
                url: owned("http://localhost:11434"),
                model: owned("glm-4.7-flash"),
            },
            streaming: StreamingConfig {
                enabled: false,
                poll_interval: default_streaming_poll_interval(),
            },
            history: HistoryConfig::default(),
            injection: InjectionConfig::default(),
            memory: MemoryConfig::default(),
            runtime: RuntimeConfig::default(),
            ui: UiConfig::default(),
            storage: StorageConfig::default(),
            corrections: CorrectionsConfig::default(),
        }
    }
}

impl Config {
    /// `<config dir>/dictator/config.toml`, with `.` when the platform has no
    /// configuration folder.
    pub fn config_path() -> (r: String)
        ensures
            crate::text::ends_with(r@, "config.toml"@),
    {
        let base = match config_dir() {
            Some(d) => d,
            None => owned("."),
        };
        let a = path_join(base.as_str(), "dictator");
        proof {
            reveal_strlit("config.toml");
        }
        path_join(a.as_str(), "config.toml")
    }
}

// ---------------------------------------------------------------------------
// Where models live.
// ---------------------------------------------------------------------------

/// The environment facts that the models directory depends on.
#[derive(Debug, Clone)]
pub struct ModelsDirEnv {
    /// `AUDIO_MODELS_DIR`, if set.
    pub audio_models_dir: Option<String>,
    /// `WHISPER_MODELS_DIR`, if set.
    pub whisper_models_dir: Option<String>,
    /// The shared models directory (`default_audio_models_dir`).
    pub canonical: String,
    pub canonical_exists: bool,
    /// `<local data dir>/whisper-models`, when the platform has a local data
    /// directory.
    pub legacy_dir: Option<String>,
    pub legacy_exists: bool,
}

/// The directory scanned for models as far as configuration and environment
/// decide it: the configured one, else the one named by `AUDIO_MODELS_DIR`
/// or `WHISPER_MODELS_DIR`, else the shared directory if it exists, else the
/// older `whisper-models` directory if it exists; none when none of these
/// applies (the model file's own folder is then used).
pub open spec fn effective_models_dir_of(models_dir: Option<Seq<char>>, env: ModelsDirEnv) -> Option<
    Seq<char>,
> {
    match models_dir {
        Some(d) => Some(d),
        None => match env.audio_models_dir {
            Some(d) => Some(d@),
            None => match env.whisper_models_dir {
                Some(d) => Some(d@),
                None => if env.canonical_exists {
                    Some(env.canonical@)
                } else {
                    match env.legacy_dir {
                        Some(l) => if env.legacy_exists {
                            Some(l@)
                        } else {
                            None
                        },
                        None => None,
                    }
                },
            },
        },
    }
}

impl WhisperConfig {
    /// The directory to scan for models: the first of the configured
    /// directory, `AUDIO_MODELS_DIR`, `WHISPER_MODELS_DIR`, the shared
    /// directory if it exists and the older `whisper-models` directory if it
    /// exists (see `effective_models_dir_of`); else the parent directory of
    /// `model_path`, as `Path::parent` gives it (none for an empty path; for
    /// a local path `dir/file`, `dir`).
    pub fn effective_models_dir(&self, env: &ModelsDirEnv) -> (r: Option<String>)
        ensures
            ({
                let decided = effective_models_dir_of(
                    match self.models_dir {
                        Some(d) => Some(d@),
                        None => None,
                    },
                    *env,
                );
                &&& decided matches Some(d) ==> r is Some && r->0@ == d
                &&& decided is None ==> (r matches Some(p) ==> starts_with(self.model_path@, p@)
                    && p@.len() < self.model_path@.len())
                &&& decided is None && self.model_path@.len() == 0 ==> r is None
            }),
        effective_models_dir_of(
            match self.models_dir {
                Some(d) => Some(d@),
                None => None,
            },
            *env,
        ) is None ==> (after_last_slash(self.model_path@) matches Some(n) ==> (plain_file_name(n)
            && local_path_text(self.model_path@) && plain_file_name(
            last_component(self.model_path@.take(self.model_path@.len() - n.len() - 1)),
        ) ==> r is Some && r->0@ == self.model_path@.take(self.model_path@.len() - n.len() - 1))),
    {
        if let Some(d) = &self.models_dir {
            return Some(owned(d.as_str()));
        }
        if let Some(d) = &env.audio_models_dir {
            return Some(owned(d.as_str()));
        }
        if let Some(d) = &env.whisper_models_dir {
            return Some(owned(d.as_str()));
        }
        if env.canonical_exists {
            return Some(owned(env.canonical.as_str()));
        }
        if let Some(l) = &env.legacy_dir {
            if env.legacy_exists {
                return Some(owned(l.as_str()));
            }
        }
        proof {
            if after_last_slash(self.model_path@) is Some {
                lemma_after_last_slash(self.model_path@);
                let n = after_last_slash(self.model_path@)->0;
                let p = self.model_path@.take(self.model_path@.len() - n.len() - 1);
                assert(self.model_path@ == p + seq!['/'] + n);
            }
        }
        crate::paths::path_parent(self.model_path.as_str())
    }
}

/// Gathers what the models directory depends on: the two environment
/// variables (read by the caller), the shared models directory and whether
/// it exists, and the older `whisper-models` folder under the local data
/// directory and whether it exists. Which folders exist depends on the
/// disk, and where the local data directory is on the environment; neither
/// is stated.
pub fn models_dir_env(
    os: HostOs,
    platform: &PlatformDirsEnv,
    audio_models_dir: Option<String>,
    whisper_models_dir: Option<String>,
) -> (r: ModelsDirEnv)
    ensures
        r.audio_models_dir == audio_models_dir,
        r.whisper_models_dir == whisper_models_dir,
        ends_with(r.canonical@, audio_models_location(os, *platform).1),
        no_verbatim(audio_models_location(os, *platform).0) ==> audio_models_path(
            os,
            *platform,
            r.canonical@,
        ) && starts_with(r.canonical@, audio_models_location(os, *platform).0),
        r.legacy_dir matches Some(l) ==> ends_with(l@, "whisper-models"@),
        r.legacy_dir is None ==> !r.legacy_exists,
{
    proof {
        reveal_strlit("whisper-models");
    }
    let canonical = default_audio_models_dir(os, platform);
    let canonical_exists = path_exists(canonical.as_str());
    let legacy_dir = match data_local_dir() {
        Some(base) => {
            assert(crate::paths::plain_relative("whisper-models"@));
            Some(path_join(base.as_str(), "whisper-models"))
        },
        None => None,
    };
    let legacy_exists = match &legacy_dir {
        Some(l) => path_exists(l.as_str()),
        None => false,
    };
    ModelsDirEnv {
        audio_models_dir,
        whisper_models_dir,
        canonical,
        canonical_exists,
        legacy_dir,
        legacy_exists,
    }
}

/// The environment facts that the shared models directory depends on.
#[derive(Debug, Clone)]
pub struct PlatformDirsEnv {
    /// `LOCALAPPDATA`, if set.
    pub local_app_data: Option<String>,
    /// `HOME`, if set.
    pub home: Option<String>,
    /// `XDG_DATA_HOME`, if set.
    pub xdg_data_home: Option<String>,
}

pub open spec fn or_dot(o: Option<String>) -> Seq<char> {
    match o {
        Some(s) => s@,
        None => "."@,
    }
}

/// The directory that the shared models directory is made under, and its
/// last component.
pub open spec fn audio_models_location(os: HostOs, env: PlatformDirsEnv) -> (Seq<char>, Seq<char>) {
    match os {
        HostOs::Windows => (or_dot(env.local_app_data), "AudioModels"@),
        HostOs::Macos => (or_dot(env.home), "AudioModels"@),
        HostOs::Linux => match env.xdg_data_home {
            Some(x) => (x@, "audio-models"@),
            None => (or_dot(env.home), "audio-models"@),
        },
        HostOs::Unknown => ("./audio-models"@, "audio-models"@),
    }
}

/// The shared models directory as the platform's joins make it: under
/// `LOCALAPPDATA` on Windows, `HOME/Library/Application Support` on macOS,
/// `XDG_DATA_HOME` or else `HOME/.local/share` on Linux, and
/// `./audio-models` elsewhere.
pub open spec fn audio_models_path(os: HostOs, env: PlatformDirsEnv, r: Seq<char>) -> bool {
    match os {
        HostOs::Windows => joined(r, or_dot(env.local_app_data), "AudioModels"@),
        HostOs::Macos => joined3(
            r,
            or_dot(env.home),
            "Library"@,
            "Application Support"@,
            "AudioModels"@,
        ),
        HostOs::Linux => match env.xdg_data_home {
            Some(x) => joined(r, x@, "audio-models"@),
            None => joined3(r, or_dot(env.home), ".local"@, "share"@, "audio-models"@),
        },
        HostOs::Unknown => r == "./audio-models"@,
    }
}

/// The shared models directory: `%LOCALAPPDATA%\AudioModels` on Windows,
/// `~/Library/Application Support/AudioModels` on macOS,
/// `$XDG_DATA_HOME/audio-models` or `~/.local/share/audio-models` on Linux
/// (with `.` for an unset variable), and `./audio-models` elsewhere.
pub fn default_audio_models_dir(os: HostOs, env: &PlatformDirsEnv) -> (r: String)
    ensures
        ends_with(r@, audio_models_location(os, *env).1),
        no_verbatim(audio_models_location(os, *env).0) ==> audio_models_path(os, *env, r@)
            && starts_with(r@, audio_models_location(os, *env).0),
        os == HostOs::Unknown ==> r@ == "./audio-models"@,
{
    proof {
        reveal_strlit("AudioModels");
        reveal_strlit("audio-models");
        reveal_strlit("Library");
        reveal_strlit("Application Support");
        reveal_strlit(".local");
        reveal_strlit("share");
        reveal_strlit("./audio-models");
        reveal_strlit(".");
        assert(plain_relative("AudioModels"@));
        assert(plain_relative("audio-models"@));
        assert(plain_relative("Library"@));
        assert(plain_relative("Application Support"@));
        assert(plain_relative(".local"@));
        assert(plain_relative("share"@));
    }
    let home = match &env.home {
        Some(h) => owned(h.as_str()),
        None => owned("."),
    };
    assert(home@ == or_dot(env.home));
    match os {
        HostOs::Windows => {
            let base = match &env.local_app_data {
                Some(b) => owned(b.as_str()),
                None => owned("."),
            };
            assert(base@ == or_dot(env.local_app_data));
            let r = path_join(base.as_str(), "AudioModels");
            proof {
                if no_verbatim(base@) {
                    lemma_joined(r@, base@, "AudioModels"@);
                }
            }
            r
        },
        HostOs::Macos => {
            let a = path_join(home.as_str(), "Library");
            let b = path_join(a.as_str(), "Application Support");
            let r = path_join(b.as_str(), "AudioModels");
            proof {
                if no_verbatim(home@) {
                    lemma_joined3(
                        r@,
                        b@,
                        a@,
                        home@,
                        "Library"@,
                        "Application Support"@,
                        "AudioModels"@,
                    );
                }
            }
            r
        },
        HostOs::Linux => match &env.xdg_data_home {
            Some(x) => {
                let r = path_join(x.as_str(), "audio-models");
                proof {
                    if no_verbatim(x@) {
                        lemma_joined(r@, x@, "audio-models"@);
                    }
                }
                r
            },
            None => {
                let a = path_join(home.as_str(), ".local");
                let b = path_join(a.as_str(), "share");
                let r = path_join(b.as_str(), "audio-models");
                proof {
                    if no_verbatim(home@) {
                        lemma_joined3(r@, b@, a@, home@, ".local"@, "share"@, "audio-models"@);
                    }
                }
                r
            },
        },
        HostOs::Unknown => {
            let r = owned("./audio-models");
            assert(r@.take(r@.len() as int) =~= r@);
            assert(r@.skip(2) =~= "audio-models"@);
            r
        },
    }
}

// ---------------------------------------------------------------------------
// Configuration file upkeep.
// ---------------------------------------------------------------------------

/// The backend name that older builds wrote, and the one that replaces it.
pub const OLD_BACKEND_NAME: &'static str = "embedded_whisper_rs";

pub const BACKEND_NAME: &'static str = "embedded";

/// The configuration text with the old backend name rewritten, when it holds
/// that name; `None` when nothing needs rewriting.
pub fn migrate_backend_name(content: &str) -> (r: Option<String>)
    ensures
        contains(content@, OLD_BACKEND_NAME@) ==> r is Some && r->0@ == replace_all(
            content@,
            OLD_BACKEND_NAME@,
            BACKEND_NAME@,
        ),
        !contains(content@, OLD_BACKEND_NAME@) ==> r is None,
{
    proof {
        reveal_strlit("embedded_whisper_rs");
    }
    let c = chars_of(content);
    let old = chars_of(OLD_BACKEND_NAME);
    if !contains_exec(&c, &old) {
        return None;
    }
    let new = chars_of(BACKEND_NAME);
    let r = replace_all_exec(&c, &old, &new);
    Some(string_from_chars(&r))
}

} // verus!
