//! Satellite configuration: sections, their defaults, and the checks a loaded configuration
//! must pass.
use vstd::prelude::*;

use crate::audio::AudioFormat;
use crate::state::FeedbackState;

verus! {

#[verifier::external_type_specification]
#[verifier::external_body]
pub struct ExIoError(std::io::Error);

#[verifier::external_type_specification]
#[verifier::external_body]
pub struct ExTomlError(toml::de::Error);

/// Why a configuration could not be loaded.
#[derive(Debug)]
pub enum ConfigError {
    /// The file could not be read.
    Io(std::io::Error),
    /// The file is not a valid configuration.
    Parse(toml::de::Error),
    /// The configuration breaks a rule.
    Invalid(String),
}

/// Identity of this satellite.
#[derive(Debug, Clone)]
pub struct SatelliteConfig {
    pub name: String,
    pub area: Option<String>,
}

/// How to reach Home Assistant.
#[derive(Debug, Clone)]
pub struct ServerConfig {
    /// "listen" (satellite is TCP server, HA connects in) or "connect" (satellite connects
    /// out).
    pub mode: String,
    pub host: String,
    pub port: u16,
}

/// Default server mode.
pub fn default_mode() -> (r: String)
    ensures
        r@ == "listen"@,
{
    "listen".to_owned()
}

/// Default server port.
pub fn default_port() -> (r: u16)
    ensures
        r == 10700,
{
    10700
}

/// Audio capture and playback settings.
#[derive(Debug, Clone)]
pub struct AudioConfig {
    /// ALSA device name (e.g. "hw:0,0"). Mutually exclusive with wav_input.
    pub device: Option<String>,
    /// WAV file to read as mic input (testing mode).
    pub wav_input: Option<String>,
    /// ALSA device name for playback (e.g. "plughw:0,0"). Optional.
    pub playback_device: Option<String>,
    /// WAV file to write TTS output to (testing mode).
    pub wav_output: Option<String>,
    pub rate: u32,
    pub width: u16,
    pub channels: u16,
    /// Milliseconds per audio frame (default 20 ms = 320 samples at 16 kHz).
    pub chunk_ms: u32,
}

/// Default sample rate.
pub fn default_rate() -> (r: u32)
    ensures
        r == 16000,
{
    16000
}

/// Default sample width in bytes.
pub fn default_width() -> (r: u16)
    ensures
        r == 2,
{
    2
}

/// Default channel count.
pub fn default_channels() -> (r: u16)
    ensures
        r == 1,
{
    1
}

/// Default frame length in milliseconds.
pub fn default_chunk_ms() -> (r: u32)
    ensures
        r == 20,
{
    20
}

/// Bytes per audio frame: the samples in one chunk (rate times milliseconds, divided by
/// 1000, rounded down) times the sample width times the channel count.
pub open spec fn frame_size_spec(a: AudioConfig) -> int {
    ((a.rate as int * a.chunk_ms as int) / 1000) * a.width as int * a.channels as int
}

impl AudioConfig {
    /// Bytes per audio frame based on rate, width, channels and chunk_ms.
    pub fn frame_size(&self) -> (r: usize)
        requires
            self.rate * self.chunk_ms <= u32::MAX,
            ((self.rate as int * self.chunk_ms as int) / 1000) * self.width as int <= usize::MAX,
            frame_size_spec(*self) <= usize::MAX,
        ensures
            r == frame_size_spec(*self),
    {
        let samples_per_frame = (self.rate * self.chunk_ms) / 1000;
        samples_per_frame as usize * self.width as usize * self.channels as usize
    }

    /// The audio format of the capture.
    pub fn audio_format(&self) -> (r: AudioFormat)
        ensures
            r == (AudioFormat { rate: self.rate, width: self.width, channels: self.channels }),
    {
        AudioFormat { rate: self.rate, width: self.width, channels: self.channels }
    }
}

/// Default silence timeout in milliseconds.
pub fn default_silence_timeout_ms() -> (r: u64)
    ensures
        r == 2500,
{
    2500
}

/// Default longest streaming session in seconds (five minutes).
pub fn default_max_stream_seconds() -> (r: u64)
    ensures
        r == 300,
{
    300
}

/// Default number of frames between pipeline analysis passes.
pub fn default_analyze_interval() -> (r: u64)
    ensures
        r == 50,
{
    50
}

/// The high-pass filter is on unless disabled.
pub fn default_hpf_enabled() -> (r: bool)
    ensures
        r,
{
    true
}

/// Static energy detector thresholds.
#[derive(Debug, Clone)]
pub struct EnergyDetectorConfig {
    pub attack_threshold: u16,
    pub sustain_threshold: u16,
}

/// Zero-crossing-rate stage settings.
#[derive(Debug, Clone)]
pub struct ZcrConfig {
    pub enabled: bool,
}

/// The zero-crossing-rate stage is on unless disabled.
pub fn default_zcr_enabled() -> (r: bool)
    ensures
        r,
{
    true
}

/// MFCC stage settings.
#[derive(Debug, Clone)]
pub struct MfccConfig {
    pub enabled: bool,
    pub n_mfcc: usize,
    pub n_mels: usize,
    pub n_fft: usize,
}

/// The MFCC stage is on unless disabled.
pub fn default_mfcc_enabled() -> (r: bool)
    ensures
        r,
{
    true
}

/// Default number of cepstral coefficients.
pub fn default_n_mfcc() -> (r: usize)
    ensures
        r == 13,
{
    13
}

/// Default number of mel bands.
pub fn default_n_mels() -> (r: usize)
    ensures
        r == 26,
{
    26
}

/// Default FFT size.
pub fn default_n_fft() -> (r: usize)
    ensures
        r == 512,
{
    512
}

/// The band-pass stage is on unless disabled.
pub fn default_bandpass_enabled() -> (r: bool)
    ensures
        r,
{
    true
}

/// The noise gate is on unless disabled.
pub fn default_gate_enabled() -> (r: bool)
    ensures
        r,
{
    true
}

/// Automatic gain control is on unless disabled.
pub fn default_agc_enabled() -> (r: bool)
    ensures
        r,
{
    true
}

/// Diagnostics HTTP server settings.
#[derive(Debug, Clone)]
pub struct DiagnosticsConfig {
    pub enabled: bool,
    pub port: u16,
    pub bind: String,
}

/// Diagnostics are on unless disabled.
pub fn default_diagnostics_enabled() -> (r: bool)
    ensures
        r,
{
    true
}

/// Default diagnostics port.
pub fn default_diagnostics_port() -> (r: u16)
    ensures
        r == 8585,
{
    8585
}

/// Default diagnostics bind address.
pub fn default_diagnostics_bind() -> (r: String)
    ensures
        r@ == "0.0.0.0"@,
{
    "0.0.0.0".to_owned()
}

impl Default for DiagnosticsConfig {
    fn default() -> (r: Self)
        ensures
            r.enabled,
            r.port == 8585,
            r.bind@ == "0.0.0.0"@,
    {
        DiagnosticsConfig {
            enabled: default_diagnostics_enabled(),
            port: default_diagnostics_port(),
            bind: default_diagnostics_bind(),
        }
    }
}

/// Per-state effect configuration, one optional effect per feedback state; no effect
/// means nothing happens in that state.
#[derive(Debug, Clone)]
pub struct StateEffects<T> {
    pub idle: Option<T>,
    pub listening: Option<T>,
    pub detected: Option<T>,
    pub processing: Option<T>,
    pub speaking: Option<T>,
    pub error: Option<T>,
}

/// The effect configured for a state.
pub open spec fn effect_for<T>(e: StateEffects<T>, state: FeedbackState) -> Option<T> {
    match state {
        FeedbackState::Idle => e.idle,
        FeedbackState::Listening => e.listening,
        FeedbackState::Detected => e.detected,
        FeedbackState::Processing => e.processing,
        FeedbackState::Speaking => e.speaking,
        FeedbackState::Error => e.error,
    }
}

impl<T> Default for StateEffects<T> {
    fn default() -> (r: Self)
        ensures
            r.idle is None,
            r.listening is None,
            r.detected is None,
            r.processing is None,
            r.speaking is None,
            r.error is None,
    {
        StateEffects { idle: None, listening: None, detected: None, processing: None, speaking: None, error: None }
    }
}

impl<T> StateEffects<T> {
    /// The effect configured for a state, if any.
    pub fn get(&self, state: FeedbackState) -> (r: Option<&T>)
        ensures
            match effect_for(*self, state) {
                Some(x) => r == Some(&x),
                None => r is None,
            },
    {
        match state {
            FeedbackState::Idle => self.idle.as_ref(),
            FeedbackState::Listening => self.listening.as_ref(),
            FeedbackState::Detected => self.detected.as_ref(),
            FeedbackState::Processing => self.processing.as_ref(),
            FeedbackState::Speaking => self.speaking.as_ref(),
            FeedbackState::Error => self.error.as_ref(),
        }
    }
}

/// Default console output stream.
pub fn default_console_output() -> (r: String)
    ensures
        r@ == "stdout"@,
{
    "stdout".to_owned()
}

/// A line printed when a state is entered.
#[derive(Debug, Clone)]
pub struct ConsoleEffect {
    pub template: String,
}

/// PWM effect kinds.
#[derive(Debug, Clone, Copy, PartialEq, Eq, Structural)]
pub enum PwmEffectType {
    Off,
    Solid,
    Breathe,
    Blink,
    Pulse,
}

/// Default PWM effect.
pub fn default_pwm_effect() -> (r: PwmEffectType)
    ensures
        r == PwmEffectType::Solid,
{
    PwmEffectType::Solid
}

/// NeoPixel effect kinds.
#[derive(Debug, Clone, Copy, PartialEq, Eq, Structural)]
pub enum NeopixelEffectType {
    Off,
    Solid,
    Breathe,
    Rainbow,
    Blink,
}

/// Default NeoPixel effect.
pub fn default_neopixel_effect() -> (r: NeopixelEffectType)
    ensures
        r == NeopixelEffectType::Solid,
{
    NeopixelEffectType::Solid
}

/// The message for an unknown server mode.
pub open spec fn bad_mode_message(mode: Seq<char>) -> Seq<char> {
    "server.mode must be 'listen' or 'connect', got '"@ + mode + "'"@
}

/// Whether `r` reports that the configuration breaks a rule with message `msg`.
pub open spec fn is_invalid(r: Result<(), ConfigError>, msg: Seq<char>) -> bool {
    r matches Err(ConfigError::Invalid(m)) && m@ == msg
}

/// Check the server mode and the audio source: the mode is "listen" or "connect", and
/// exactly one of `device` and `wav_input` is given. The first rule broken is reported.
pub fn validate_server_and_audio(server: &ServerConfig, audio: &AudioConfig) -> (r: Result<(), ConfigError>)
    ensures
        server.mode@ != "listen"@ && server.mode@ != "connect"@ ==> is_invalid(r, bad_mode_message(server.mode@)),
        (server.mode@ == "listen"@ || server.mode@ == "connect"@) ==> {
            if audio.device is None && audio.wav_input is None {
                is_invalid(r, "audio config must specify either 'device' or 'wav_input'"@)
            } else if audio.device is Some && audio.wav_input is Some {
                is_invalid(r, "audio config cannot specify both 'device' and 'wav_input'"@)
            } else {
                r is Ok
            }
        },
{
    let mode = server.mode.as_str();
    let listen = crate::json::str_eq(mode, "listen");
    let connect = crate::json::str_eq(mode, "connect");
    if !listen && !connect {
        let mut msg = String::new();
        msg.push_str("server.mode must be 'listen' or 'connect', got '");
        msg.push_str(mode);
        msg.push_str("'");
        return Err(ConfigError::Invalid(msg));
    }
    if audio.device.is_none() && audio.wav_input.is_none() {
        return Err(ConfigError::Invalid("audio config must specify either 'device' or 'wav_input'".to_owned()));
    }
    if audio.device.is_some() && audio.wav_input.is_some() {
        return Err(ConfigError::Invalid("audio config cannot specify both 'device' and 'wav_input'".to_owned()));
    }
    Ok(())
}

} // verus!
