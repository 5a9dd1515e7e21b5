use takusu_agent::audio_config::{
    default_stt_language, default_stt_num_threads, default_tts_max_concurrent, default_tts_sample_rate,
    BargeInConfig, CueConfig,
};
use takusu_agent::config::{default_server_url, ServerConfig};

#[test]
fn cue_config_defaults_enable_announcements_and_provide_text() {
    let cues = CueConfig::default();
    assert!(cues.enabled);
    assert!(!cues.listen_start.is_empty());
    assert!(!cues.listen_end.is_empty());
}

#[test]
fn barge_in_defaults_are_off_with_echo_cancellation() {
    let b = BargeInConfig::default();
    assert!(!b.enabled);
    assert!(b.use_aec);
    assert_eq!(b.warm_up_ms, 300);
    assert_eq!(b.reference_delay_ms, 0);
    assert!(b.tap_to_stop);
    assert!(b.record_latency);
}

#[test]
fn speech_defaults_are_japanese() {
    assert_eq!(default_stt_language(), "ja");
    assert_eq!(default_stt_num_threads(), 2);
    assert_eq!(default_tts_sample_rate(), 44100);
    assert_eq!(default_tts_max_concurrent(), 2);
}

#[test]
fn server_defaults_to_local_planner() {
    assert_eq!(default_server_url(), "http://127.0.0.1:3000");
    let s = ServerConfig::default();
    assert_eq!(s.url, "http://127.0.0.1:3000");
    assert!(s.token.is_empty());
}
