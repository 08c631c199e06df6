//! Verified core of the Dictator voice-dictation service.

pub mod text;
pub mod num;
pub mod hardware;
pub mod probe;
pub mod size;
pub mod paths;
pub mod clock;
pub mod config;
pub mod runtime;
pub mod model_store;
pub mod corrections;
pub mod guard;
pub mod input;
pub mod tray;
pub mod downloader;
pub mod store_sync;
pub mod order;
pub mod settings;
pub mod compact;
pub mod history;
pub mod profile;
pub mod cli;
pub mod registry;
pub mod streaming;
pub mod engine;
pub mod overlay;
pub mod llm;
pub mod wav;
pub mod whisper_server;
pub mod pipeline;
pub mod recent;
pub mod idle;
