//! Configuration of the compact desktop client: one modifier-key hotkey,
//! one Whisper model file, and optional streaming.

use vstd::prelude::*;
use crate::hardware::owned;
use crate::paths::{config_dir, path_join};

verus! {

/// Main configuration.
#[derive(Debug, Clone)]
pub struct Config {
    pub hotkey: HotkeyConfig,
    pub audio: AudioConfig,
    pub whisper: WhisperConfig,
    pub ollama: OllamaConfig,
    pub streaming: StreamingConfig,
}

/// Streaming configuration.
#[derive(Debug, Clone, Copy, PartialEq, Eq, Structural)]
pub struct StreamingConfig {
    /// Real-time streaming transcription (off by default).
    pub enabled: bool,
    /// Poll interval in seconds.
    pub poll_interval: u64,
}

/// Hotkey configuration: modifier names and the key.
#[derive(Debug, Clone)]
pub struct HotkeyConfig {
    pub modifiers: Vec<String>,
    pub key: String,
}

/// Audio configuration.
#[derive(Debug, Clone)]
pub struct AudioConfig {
    pub device: Option<String>,
    pub sample_rate: u32,
}

/// Whisper configuration.
#[derive(Debug, Clone)]
pub struct WhisperConfig {
    pub model_path: String,
    pub language: String,
}

/// Ollama configuration.
#[derive(Debug, Clone)]
pub struct OllamaConfig {
    pub url: String,
    pub model: String,
}

impl Default for StreamingConfig {
    fn default() -> (r: Self)
        ensures
            !r.enabled,
            r.poll_interval == 3,
    {
        StreamingConfig { enabled: false, poll_interval: 3 }
    }
}

impl Default for Config {
    /// Ctrl+Shift+D, 16 kHz audio from the default device, the large-v3 model
    /// for Russian, a local Ollama, streaming off.
    fn default() -> (r: Self)
        ensures
            r.hotkey.modifiers@.len() == 2,
            r.hotkey.modifiers@[0]@ == "ctrl"@,
            r.hotkey.modifiers@[1]@ == "shift"@,
            r.hotkey.key@ == "D"@,
            r.audio.device is None,
            r.audio.sample_rate == 16000,
            r.whisper.model_path@ == "models/ggml-large-v3.bin"@,
            r.whisper.language@ == "ru"@,
            r.ollama.url@ == "http://localhost:11434"@,
            r.ollama.model@ == "glm-4.7-flash"@,
            !r.streaming.enabled,
            r.streaming.poll_interval == 3,
    {
        let mut modifiers: Vec<String> = Vec::new();
        modifiers.push(owned("ctrl"));
        modifiers.push(owned("shift"));
        Config {
            hotkey: HotkeyConfig { modifiers, key: owned("D") },
            audio: AudioConfig { device: None, sample_rate: 16000 },
            whisper: WhisperConfig {
                model_path: owned("models/ggml-large-v3.bin"),
                language: owned("ru"),
            },
            ollama: OllamaConfig {
                url: owned("http://localhost:11434"),
                model: owned("glm-4.7-flash"),
            },
            streaming: StreamingConfig { enabled: false, poll_interval: 3 },
        }
    }
}

impl Config {
    /// `<config dir>/dictator/config.toml`, with `.` when the platform has no
    /// configuration folder.
    pub fn config_path() -> (r: String)
        ensures
            crate::text::ends_with(r@, "config.toml"@),
    {
        let base = match config_dir() {
            Some(d) => d,
            None => owned("."),
        };
        let a = path_join(base.as_str(), "dictator");
        proof {
            reveal_strlit("config.toml");
        }
        path_join(a.as_str(), "config.toml")
    }
}

} // verus!
