//! Audio settings of the agent: barge-in, spoken cues, and the defaults of
//! speech recognition and synthesis.

use vstd::prelude::*;
use crate::text::string_of;

verus! {

/// Barge-in (interrupting playback by speaking) settings.
#[derive(Debug, Clone, PartialEq, Eq, Structural)]
pub struct BargeInConfig {
    pub enabled: bool,
    pub use_aec: bool,
    pub warm_up_ms: u64,
    pub reference_delay_ms: u64,
    pub tap_to_stop: bool,
    pub record_latency: bool,
}

impl Default for BargeInConfig {
    fn default() -> (r: Self)
        ensures
            !r.enabled,
            r.use_aec,
            r.warm_up_ms == 300,
            r.reference_delay_ms == 0,
            r.tap_to_stop,
            r.record_latency,
    {
        BargeInConfig {
            enabled: default_barge_in_enabled(),
            use_aec: default_barge_in_use_aec(),
            warm_up_ms: default_barge_in_warm_up_ms(),
            reference_delay_ms: default_barge_in_reference_delay_ms(),
            tap_to_stop: default_barge_in_tap_to_stop(),
            record_latency: default_barge_in_latency(),
        }
    }
}

/// Barge-in is off unless enabled.
pub fn default_barge_in_enabled() -> (r: bool)
    ensures
        !r,
{
    false
}

/// Echo cancellation is used by default.
pub fn default_barge_in_use_aec() -> (r: bool)
    ensures
        r,
{
    true
}

/// Warm-up before barge-in detection starts, in milliseconds.
pub fn default_barge_in_warm_up_ms() -> (r: u64)
    ensures
        r == 300,
{
    300
}

/// Delay of the echo reference, in milliseconds.
pub fn default_barge_in_reference_delay_ms() -> (r: u64)
    ensures
        r == 0,
{
    0
}

/// Tapping stops playback by default.
pub fn default_barge_in_tap_to_stop() -> (r: bool)
    ensures
        r,
{
    true
}

/// Barge-in latency is recorded by default.
pub fn default_barge_in_latency() -> (r: bool)
    ensures
        r,
{
    true
}

/// Recognition language.
pub fn default_stt_language() -> (r: String)
    ensures
        r@ == "ja"@,
{
    string_of("ja")
}

/// Inverse text normalization is on by default.
pub fn default_stt_use_itn() -> (r: bool)
    ensures
        r,
{
    true
}

/// Recognition threads.
pub fn default_stt_num_threads() -> (r: i32)
    ensures
        r == 2,
{
    2
}

/// Environment variable holding the synthesis API key.
pub fn default_tts_api_key_env() -> (r: String)
    ensures
        r@ == "CARTESIA_API_KEY"@,
{
    string_of("CARTESIA_API_KEY")
}

/// Synthesis voice.
pub fn default_tts_voice_id() -> (r: String)
    ensures
        r@ == "db6b0ed5-d5d3-463d-ae85-518a07d3c2b4"@,
{
    string_of("db6b0ed5-d5d3-463d-ae85-518a07d3c2b4")
}

/// Synthesis language.
pub fn default_tts_language() -> (r: String)
    ensures
        r@ == "ja"@,
{
    string_of("ja")
}

/// Synthesis sample rate, in hertz.
pub fn default_tts_sample_rate() -> (r: u32)
    ensures
        r == 44100,
{
    44100
}

/// Concurrent synthesis requests.
pub fn default_tts_max_concurrent() -> (r: usize)
    ensures
        r == 2,
{
    2
}

/// Spoken cues around listening.
#[derive(Debug, Clone)]
pub struct CueConfig {
    pub enabled: bool,
    pub listen_start: String,
    pub listen_end: String,
}

impl Default for CueConfig {
    fn default() -> (r: Self)
        ensures
            r.enabled,
            r.listen_start@ == "聞き取り開始"@,
            r.listen_end@ == "聞き取り終了"@,
    {
        CueConfig {
            enabled: default_cues_enabled(),
            listen_start: default_cue_listen_start(),
            listen_end: default_cue_listen_end(),
        }
    }
}

/// Cues are announced by default.
pub fn default_cues_enabled() -> (r: bool)
    ensures
        r,
{
    true
}

/// The cue spoken when listening starts.
pub fn default_cue_listen_start() -> (r: String)
    ensures
        r@ == "聞き取り開始"@,
{
    string_of("聞き取り開始")
}

/// The cue spoken when listening ends.
pub fn default_cue_listen_end() -> (r: String)
    ensures
        r@ == "聞き取り終了"@,
{
    string_of("聞き取り終了")
}

} // verus!
