pub mod state;
pub mod json;
pub mod event;
pub mod audio;
pub mod satellite;
pub mod ping;
pub mod pipeline;
pub mod timer;
pub mod tts;
pub mod asr;
pub mod handle;
pub mod wake;
pub mod intent;
pub mod info;
pub mod energy;
pub mod pcm;
pub mod neopixel;
pub mod text;
pub mod service;
pub mod connection;
pub mod config;
pub mod hardware;
pub mod alsa;
pub mod feedback;
pub mod diagnostics;
pub mod runner;
pub mod zcr;
pub mod animation;
