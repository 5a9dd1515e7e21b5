//! Decisions of the voice front end.
//!
//! Recording, speech recognition, synthesis and playback are outside work.
//! This module decides what a voice turn does around them: whether it
//! speaks and listens for barge-in, when the turn's background tasks are
//! done, how the playback reference is aligned with the microphone, what a
//! spoken yes/no answer means, and what a voice approval ends with.

use vstd::prelude::*;
use vstd::string::*;
use crate::text::{append_str, str_eq, string_of, trim_spec, trim_text};
use crate::approval_layers::ApprovalLayer;
use crate::presentation::{Presentation, presentation_voice};
use crate::readback::{ChangeDates, dates_voiced};
use crate::session::{ApprovalResult, TurnResult, same_request};

verus! {

/// An error of the voice front end. What the speaker verifier reported is
/// carried as its text.
#[derive(Debug, Clone)]
pub enum AudioError {
    Record(String),
    Transcribe(String),
    Tts(String),
    Play(String),
    UnsupportedBackend(String),
    Timeout,
    /// The caller asked an ongoing capture or playback to stop.
    UserCancelled,
    /// A lock was poisoned by a panic while held.
    Lock(String),
    Speaker(String),
    Other(String),
}

/// The display text of an [`AudioError`].
pub open spec fn audio_error_text(e: AudioError) -> Seq<char> {
    match e {
        AudioError::Record(s) => "recording failed: "@ + s@,
        AudioError::Transcribe(s) => "transcription failed: "@ + s@,
        AudioError::Tts(s) => "tts failed: "@ + s@,
        AudioError::Play(s) => "playback failed: "@ + s@,
        AudioError::UnsupportedBackend(s) => "audio backend "@ + s@ + " is not supported"@,
        AudioError::Timeout => "audio operation timed out"@,
        AudioError::UserCancelled => "audio session stopped"@,
        AudioError::Lock(s) => "lock poisoned: "@ + s@,
        AudioError::Speaker(s) => "speaker verification failed: "@ + s@,
        AudioError::Other(s) => s@,
    }
}

impl AudioError {
    /// Whether the error is likely transient, so that the session can keep
    /// listening: a timeout, or a failure to record, transcribe, synthesize
    /// or play, or any other failure.
    pub fn is_recoverable(&self) -> (r: bool)
        ensures
            r == (self is Timeout || self is Record || self is Transcribe || self is Tts || self is Play || self is Other),
    {
        match self {
            AudioError::Timeout | AudioError::Record(_) | AudioError::Transcribe(_) | AudioError::Tts(_)
            | AudioError::Play(_) | AudioError::Other(_) => true,
            _ => false,
        }
    }

    /// The display text of the error.
    pub fn to_string(&self) -> (s: String)
        ensures
            s@ == audio_error_text(*self),
    {
        match self {
            AudioError::Record(m) => prefixed("recording failed: ", m),
            AudioError::Transcribe(m) => prefixed("transcription failed: ", m),
            AudioError::Tts(m) => prefixed("tts failed: ", m),
            AudioError::Play(m) => prefixed("playback failed: ", m),
            AudioError::UnsupportedBackend(m) => {
                let mut s = prefixed("audio backend ", m);
                append_str(&mut s, " is not supported");
                s
            },
            AudioError::Timeout => string_of("audio operation timed out"),
            AudioError::UserCancelled => string_of("audio session stopped"),
            AudioError::Lock(m) => prefixed("lock poisoned: ", m),
            AudioError::Speaker(m) => prefixed("speaker verification failed: ", m),
            AudioError::Other(m) => string_of(m.as_str()),
        }
    }
}

fn prefixed(prefix: &str, m: &String) -> (s: String)
    ensures
        s@ == prefix@ + m@,
{
    let mut s = string_of(prefix);
    append_str(&mut s, m.as_str());
    s
}

/// A failure of the wake-word pipeline, with the pipeline's display text
/// of it.
#[derive(Debug, Clone)]
pub enum AmbientFailure {
    Cancelled,
    Record(String),
    Asr(String),
    Stt(String),
    Wake(String),
}

/// The audio error a wake-word pipeline failure is reported as.
pub fn ambient_error(e: AmbientFailure) -> (r: AudioError)
    ensures
        match e {
            AmbientFailure::Cancelled => r is UserCancelled,
            AmbientFailure::Record(t) => r == AudioError::Record(t),
            AmbientFailure::Asr(t) => r == AudioError::Transcribe(t),
            AmbientFailure::Stt(t) => r == AudioError::Transcribe(t),
            AmbientFailure::Wake(t) => r matches AudioError::Other(m) && m@ == "ambient pipeline failed: "@ + t@,
        },
{
    match e {
        AmbientFailure::Cancelled => AudioError::UserCancelled,
        AmbientFailure::Record(t) => AudioError::Record(t),
        AmbientFailure::Asr(t) => AudioError::Transcribe(t),
        AmbientFailure::Stt(t) => AudioError::Transcribe(t),
        AmbientFailure::Wake(t) => AudioError::Other(prefixed("ambient pipeline failed: ", &t)),
    }
}

// ---------------------------------------------------------------------------
// A voice turn's playback
// ---------------------------------------------------------------------------

/// Whether a voice turn speaks its answer and listens for barge-in while
/// it does.
#[derive(Debug, Clone, Copy)]
pub struct TurnAudioPlan {
    pub speak: bool,
    pub barge_in: bool,
}

/// The plan of a voice turn: it speaks when asked to and speech is not
/// muted, and listens for barge-in only while it speaks and barge-in is
/// enabled.
pub fn turn_audio_plan(speak: bool, tts_muted: bool, barge_in_enabled: bool) -> (r: TurnAudioPlan)
    ensures
        r.speak == (speak && !tts_muted),
        r.barge_in == (speak && !tts_muted && barge_in_enabled),
{
    let speaks = speak && !tts_muted;
    TurnAudioPlan { speak: speaks, barge_in: speaks && barge_in_enabled }
}

/// What one of a voice turn's background tasks ended with: the synthesizer
/// or the player finished, the barge-in listener heard something (or
/// nothing), or a task failed.
#[derive(Debug, Clone)]
pub enum TurnTaskOutcome {
    TtsDone,
    BargeIn(Option<String>),
    Failed(AudioError),
}

/// The tail of a voice turn: how many of its two speech tasks (synthesis
/// and playback) are done, and whether barge-in listening is over.
#[derive(Debug, Clone, Copy)]
pub struct PlaybackTail {
    pub tts_done: u64,
    pub barge_done: bool,
}

/// The next step of a turn's tail.
#[derive(Debug, Clone)]
pub enum TailStep {
    /// Wait for the next task.
    Wait(PlaybackTail),
    /// The tail is over: with what the user said over the answer, if they
    /// did, or with the error a task failed with.
    Finish {
        barge_in: Option<String>,
        error: Option<AudioError>,
    },
}

impl PlaybackTail {
    /// No task done yet; without barge-in there is nothing to listen for.
    pub fn new(barge_in: bool) -> (r: Self)
        ensures
            r.tts_done == 0,
            r.barge_done == !barge_in,
    {
        PlaybackTail { tts_done: 0, barge_done: !barge_in }
    }

    /// The step after a task ended: the tail is over once both speech tasks
    /// are done and listening is over, as soon as the user barged in with
    /// words, or when a task failed.
    pub fn on_task(self, outcome: TurnTaskOutcome) -> (r: TailStep)
        requires
            self.tts_done < u64::MAX,
        ensures
            match outcome {
                TurnTaskOutcome::TtsDone => if self.tts_done + 1 == 2 && self.barge_done {
                    r matches TailStep::Finish { barge_in, error } && barge_in is None && error is None
                } else {
                    r matches TailStep::Wait(t) && t.tts_done == self.tts_done + 1 && t.barge_done == self.barge_done
                },
                TurnTaskOutcome::BargeIn(Some(text)) => r matches TailStep::Finish { barge_in, error }
                    && barge_in == Some(text) && error is None,
                TurnTaskOutcome::BargeIn(None) => if self.tts_done == 2 {
                    r matches TailStep::Finish { barge_in, error } && barge_in is None && error is None
                } else {
                    r matches TailStep::Wait(t) && t.tts_done == self.tts_done && t.barge_done
                },
                TurnTaskOutcome::Failed(e) => r matches TailStep::Finish { barge_in, error }
                    && barge_in is None && error == Some(e),
            },
    {
        match outcome {
            TurnTaskOutcome::TtsDone => {
                let tts_done = self.tts_done + 1;
                if tts_done == 2 && self.barge_done {
                    TailStep::Finish { barge_in: None, error: None }
                } else {
                    TailStep::Wait(PlaybackTail { tts_done, barge_done: self.barge_done })
                }
            },
            TurnTaskOutcome::BargeIn(Some(text)) => TailStep::Finish { barge_in: Some(text), error: None },
            TurnTaskOutcome::BargeIn(None) => {
                if self.tts_done == 2 {
                    TailStep::Finish { barge_in: None, error: None }
                } else {
                    TailStep::Wait(PlaybackTail { tts_done: self.tts_done, barge_done: true })
                }
            },
            TurnTaskOutcome::Failed(e) => TailStep::Finish { barge_in: None, error: Some(e) },
        }
    }
}


// ---------------------------------------------------------------------------
// Speech synthesis backends
// ---------------------------------------------------------------------------

/// The speech synthesis backends.
#[derive(Debug, Clone, Copy, PartialEq, Eq, Structural)]
pub enum TtsBackend {
    Cartesia,
    Fish,
    /// Spoken by the native mobile module, not by the desktop adapter.
    Android,
}

/// The API key a backend is built with: the configured key, else the one
/// in the configured environment variable (`from_env`). A backend that is
/// not muted needs one; Android cannot be built here at all.
pub fn tts_api_key(backend: TtsBackend, configured: &str, from_env: Option<String>, mute: bool) -> (r: Result<String, AudioError>)
    ensures
        backend == TtsBackend::Android ==> (r matches Err(AudioError::UnsupportedBackend(b)) && b@ == "android"@),
        backend != TtsBackend::Android ==> {
            let key = if configured@.len() > 0 {
                configured@
            } else {
                match from_env { Some(k) => k@, None => Seq::empty() }
            };
            &&& (key.len() > 0 || mute) ==> (r matches Ok(k) && k@ == key)
            &&& (key.len() == 0 && !mute && backend == TtsBackend::Cartesia) ==> (r matches Err(AudioError::Tts(m))
                && m@ == "missing Cartesia API key"@)
            &&& (key.len() == 0 && !mute && backend == TtsBackend::Fish) ==> (r matches Err(AudioError::Tts(m))
                && m@ == "missing Fish Audio API key"@)
        },
{
    if backend == TtsBackend::Android {
        return Err(AudioError::UnsupportedBackend(string_of("android")));
    }
    let key = if configured.unicode_len() > 0 {
        string_of(configured)
    } else {
        match from_env {
            Some(k) => k,
            None => String::new(),
        }
    };
    if key.as_str().unicode_len() == 0 && !mute {
        if backend == TtsBackend::Cartesia {
            Err(AudioError::Tts(string_of("missing Cartesia API key")))
        } else {
            Err(AudioError::Tts(string_of("missing Fish Audio API key")))
        }
    } else {
        Ok(key)
    }
}

// ---------------------------------------------------------------------------
// Barge-in listening
// ---------------------------------------------------------------------------

/// Samples in one 10 ms frame at `sample_rate`.
pub fn frame_samples(sample_rate: usize) -> (r: usize)
    ensures
        r == sample_rate * 10 / 1000,
{
    sample_rate / 100
}

/// Samples the playback reference leads the echo in the microphone by.
pub fn reference_delay_samples(reference_delay_ms: usize, sample_rate: usize) -> (r: usize)
    requires
        reference_delay_ms * sample_rate <= usize::MAX,
    ensures
        r == reference_delay_ms * sample_rate / 1000,
{
    reference_delay_ms * sample_rate / 1000
}

/// How barge-in listens: through the echo canceller, or else, when
/// configured, by stopping playback as soon as the user speaks
/// (tap-to-stop) without transcribing.
#[derive(Debug, Clone, Copy)]
pub struct BargeInMode {
    pub use_aec: bool,
    pub tap_to_stop: bool,
}

pub fn barge_in_mode(use_aec: bool, tap_to_stop: bool) -> (r: BargeInMode)
    ensures
        r.use_aec == use_aec,
        r.tap_to_stop == (!use_aec && tap_to_stop),
{
    BargeInMode { use_aec, tap_to_stop: !use_aec && tap_to_stop }
}

/// Aligns the playback reference with the microphone, frame by frame.
#[derive(Debug, Clone, Copy)]
pub struct ReferenceAligner {
    /// Samples per frame.
    pub frame: usize,
    /// Samples the reference leads the echo by.
    pub delay: usize,
    /// Reference frames consumed so far.
    pub consumed: usize,
    /// Whether the first microphone frame has been aligned.
    pub initialized: bool,
}

pub open spec fn sat_sub(a: int, b: int) -> int {
    if a > b { a - b } else { 0 }
}

/// The frames consumed before a microphone frame: at the first one, as
/// many whole frames as the reference holds beyond the delay, so that the
/// microphone starts level with the latest reference.
pub open spec fn consumed_before(a: ReferenceAligner, reference_len: int) -> int {
    if a.initialized {
        a.consumed as int
    } else {
        sat_sub(reference_len, a.delay as int) / (a.frame as int)
    }
}

/// Where the reference for a microphone frame starts.
pub open spec fn window_start(a: ReferenceAligner, reference_len: int) -> int {
    sat_sub(consumed_before(a, reference_len) * a.frame, a.delay as int)
}

/// How many reference samples there are for a microphone frame (the rest
/// of the frame is silence).
pub open spec fn window_len(a: ReferenceAligner, reference_len: int) -> int {
    let start = window_start(a, reference_len);
    if start < reference_len {
        if reference_len - start < a.frame { reference_len - start } else { a.frame as int }
    } else {
        0
    }
}

impl ReferenceAligner {
    pub fn new(frame: usize, delay: usize) -> (r: Self)
        ensures
            r.frame == frame,
            r.delay == delay,
            r.consumed == 0,
            !r.initialized,
    {
        ReferenceAligner { frame, delay, consumed: 0, initialized: false }
    }

    /// The reference window for the next microphone frame, as its start and
    /// length in a reference buffer of `reference_len` samples; one more
    /// frame is then consumed.
    pub fn next_window(&mut self, reference_len: usize) -> (r: (usize, usize))
        requires
            old(self).frame > 0,
            old(self).initialized ==> (old(self).consumed as int) * (old(self).frame as int) <= usize::MAX,
            old(self).initialized ==> old(self).consumed < usize::MAX,
            !old(self).initialized ==> reference_len < usize::MAX,
        ensures
            r.0 == window_start(*old(self), reference_len as int),
            r.1 == window_len(*old(self), reference_len as int),
            final(self).consumed == consumed_before(*old(self), reference_len as int) + 1,
            final(self).initialized,
            final(self).frame == old(self).frame,
            final(self).delay == old(self).delay,
    {
        if !self.initialized {
            self.initialized = true;
            let lead = reference_len.saturating_sub(self.delay);
            let f = self.frame;
            assert((lead / f) * f <= lead) by (nonlinear_arith)
                requires
                    f > 0,
            ;
            assert(lead / f <= lead) by (nonlinear_arith)
                requires
                    f > 0,
            ;
            self.consumed = lead / f;
        }
        let consumed_samples = self.consumed * self.frame;
        let start = consumed_samples.saturating_sub(self.delay);
        let len = if start < reference_len {
            let available = reference_len - start;
            if available < self.frame { available } else { self.frame }
        } else {
            0
        };
        self.consumed = self.consumed + 1;
        (start, len)
    }

    /// Whether every reference sample that can still echo in the microphone
    /// has been consumed.
    pub fn reference_drained(&self, reference_len: usize) -> (r: bool)
        ensures
            r == ((self.consumed as int) * (self.frame as int) >= reference_len + self.delay),
    {
        let consumed = self.consumed as u128;
        let frame = self.frame as u128;
        assert(consumed * frame <= 0xffff_ffff_ffff_ffff_ffff_ffff_ffff_ffff) by (nonlinear_arith)
            requires
                consumed <= 0xffff_ffff_ffff_ffffu128,
                frame <= 0xffff_ffff_ffff_ffffu128,
        ;
        consumed * frame >= reference_len as u128 + self.delay as u128
    }
}

/// A voice activity event of the barge-in detector.
#[derive(Debug, Clone, Copy, PartialEq, Eq, Structural)]
pub enum VadEvent {
    SpeechStart,
    SpeechEnd,
}

/// What listening does after a voice activity event.
#[derive(Debug, Clone, Copy)]
pub struct VadReaction {
    /// Whether the user's speech is being captured.
    pub capturing: bool,
    /// Whether playback is stopped now.
    pub stop_playback: bool,
    /// Whether listening ends now.
    pub stop_listening: bool,
}

/// The user starting to speak stops playback, and ends listening at once
/// in tap-to-stop mode; the end of their speech ends listening. Other
/// events change nothing.
pub fn on_vad_event(capturing: bool, event: VadEvent, tap_to_stop: bool) -> (r: VadReaction)
    ensures
        (event == VadEvent::SpeechStart && !capturing) ==> r.capturing && r.stop_playback && r.stop_listening == tap_to_stop,
        (event == VadEvent::SpeechEnd && capturing) ==> r.capturing && !r.stop_playback && r.stop_listening,
        (event == VadEvent::SpeechStart && capturing) || (event == VadEvent::SpeechEnd && !capturing)
            ==> r.capturing == capturing && !r.stop_playback && !r.stop_listening,
{
    match event {
        VadEvent::SpeechStart if !capturing => VadReaction { capturing: true, stop_playback: true, stop_listening: tap_to_stop },
        VadEvent::SpeechEnd if capturing => VadReaction { capturing: true, stop_playback: false, stop_listening: true },
        _ => VadReaction { capturing, stop_playback: false, stop_listening: false },
    }
}

/// Whether a processed microphone frame goes to speech recognition: only
/// while capturing through the echo canceller.
pub fn feeds_recognizer(capturing: bool, mode: BargeInMode) -> (r: bool)
    ensures
        r == (capturing && mode.use_aec && !mode.tap_to_stop),
{
    capturing && mode.use_aec && !mode.tap_to_stop
}

/// Whether listening ends after a frame: playback has ended, every
/// reference sample that could still echo has been consumed, and the user
/// is not speaking.
pub fn listening_over(aligner: &ReferenceAligner, reference_closed: bool, reference_len: usize, capturing: bool) -> (r: bool)
    ensures
        r == (reference_closed && (aligner.consumed as int) * (aligner.frame as int) >= reference_len + aligner.delay && !capturing),
{
    reference_closed && aligner.reference_drained(reference_len) && !capturing
}

/// Whether what was captured over the answer is transcribed: not in
/// tap-to-stop mode, and only when something was captured.
pub fn transcribes_barge_in(mode: BargeInMode, captured_samples: usize) -> (r: bool)
    ensures
        r == (!mode.tap_to_stop && captured_samples > 0),
{
    !mode.tap_to_stop && captured_samples > 0
}

/// The words of a captured utterance (a command, a wake-word command or a
/// barge-in): none when the transcript is blank.
pub fn utterance_text(transcript: String) -> (r: Option<String>)
    ensures
        trim_spec(transcript@).len() == 0 ==> r is None,
        trim_spec(transcript@).len() > 0 ==> r == Some(transcript),
{
    let trimmed = trim_text(transcript.as_str());
    if trimmed.as_str().unicode_len() == 0 {
        None
    } else {
        Some(transcript)
    }
}

// ---------------------------------------------------------------------------
// Spoken yes/no answers
// ---------------------------------------------------------------------------

/// How many times a yes/no answer is asked for before the screen takes over.
pub const MAX_VOICE_CONFIRM_ATTEMPTS: usize = 3;

/// Said before asking again.
pub const VOICE_CONFIRM_RETRY: &'static str = "もう一度お答えください。はい、または、いいえ、でお答えください。";

/// Said when no answer was had.
pub const VOICE_CONFIRM_GIVE_UP: &'static str = "確認が取れませんでした。画面で承認をお待ちします。";

pub open spec fn is_affirmative_word(s: Seq<char>) -> bool {
    s == "はい"@ || s == "うん"@ || s == "yes"@ || s == "ok"@ || s == "おう"@
}

pub open spec fn is_negative_word(s: Seq<char>) -> bool {
    s == "いいえ"@ || s == "いや"@ || s == "no"@ || s == "やだ"@ || s == "キャンセル"@
}

/// What a normalized answer means in the closed vocabulary: yes for one of
/// 「はい」「うん」「yes」「ok」「おう」, no for one of 「いいえ」「いや」「no」「やだ」
/// 「キャンセル」, nothing otherwise.
pub open spec fn closed_answer(s: Seq<char>) -> Option<bool> {
    if is_affirmative_word(s) && !is_negative_word(s) {
        Some(true)
    } else if is_negative_word(s) && !is_affirmative_word(s) {
        Some(false)
    } else {
        None
    }
}

/// The meaning of a normalized spoken answer in the closed vocabulary.
pub fn closed_vocabulary_answer(normalized: &str) -> (r: Option<bool>)
    ensures
        r == closed_answer(normalized@),
{
    let yes = str_eq(normalized, "はい") || str_eq(normalized, "うん") || str_eq(normalized, "yes")
        || str_eq(normalized, "ok") || str_eq(normalized, "おう");
    let no = str_eq(normalized, "いいえ") || str_eq(normalized, "いや") || str_eq(normalized, "no")
        || str_eq(normalized, "やだ") || str_eq(normalized, "キャンセル");
    if yes && !no {
        Some(true)
    } else if no && !yes {
        Some(false)
    } else {
        None
    }
}

/// The answer taken: the closed vocabulary's when it has one, else how the
/// model classified the utterance.
pub fn settled_answer(closed: Option<bool>, classified: Option<bool>) -> (r: Option<bool>)
    ensures
        r == (if closed is Some { closed } else { classified }),
{
    match closed {
        Some(a) => Some(a),
        None => classified,
    }
}

/// What follows one attempt at a spoken yes/no answer.
#[derive(Debug, Clone, Copy, PartialEq, Eq, Structural)]
pub enum ConfirmStep {
    /// The verified speaker answered.
    Answered(bool),
    /// Ask again, after [`VOICE_CONFIRM_RETRY`] when `reprompt`.
    Again { reprompt: bool },
    /// Say [`VOICE_CONFIRM_GIVE_UP`] and leave the approval to the screen.
    GiveUp,
}

/// The step after attempt `attempt` (from 0): an answer counts only when
/// the speaker is verified; silence is asked again without the retry
/// prompt; no answer is had after the last attempt.
pub fn voice_confirm_step(attempt: usize, heard: bool, answer: Option<bool>, speaker_verified: Option<bool>) -> (r: ConfirmStep)
    requires
        attempt < MAX_VOICE_CONFIRM_ATTEMPTS,
    ensures
        heard && answer is Some && speaker_verified == Some(true) ==> r == ConfirmStep::Answered(answer->0),
        !heard && attempt + 1 < MAX_VOICE_CONFIRM_ATTEMPTS ==> r == (ConfirmStep::Again { reprompt: false }),
        heard && !(answer is Some && speaker_verified == Some(true)) && attempt + 1 < MAX_VOICE_CONFIRM_ATTEMPTS
            ==> r == (ConfirmStep::Again { reprompt: true }),
        !(heard && answer is Some && speaker_verified == Some(true)) && attempt + 1 >= MAX_VOICE_CONFIRM_ATTEMPTS
            ==> r == ConfirmStep::GiveUp,
{
    if heard {
        match (answer, speaker_verified) {
            (Some(a), Some(true)) => { return ConfirmStep::Answered(a); },
            _ => {},
        }
    }
    if attempt + 1 < MAX_VOICE_CONFIRM_ATTEMPTS {
        ConfirmStep::Again { reprompt: heard }
    } else {
        ConfirmStep::GiveUp
    }
}

// ---------------------------------------------------------------------------
// Voice approvals
// ---------------------------------------------------------------------------

/// How a voice turn's approval request is resolved.
#[derive(Debug, Clone, Copy, PartialEq, Eq, Structural)]
pub enum VoiceApprovalRoute {
    /// Left to the screen (or needing no approval at all).
    Surface,
    /// Executed at once when the wake-word's speaker is verified.
    Ambient,
    /// Read back and confirmed by a spoken yes/no.
    Confirm,
}

pub fn voice_approval_route(layer: ApprovalLayer) -> (r: VoiceApprovalRoute)
    ensures
        layer == ApprovalLayer::VoiceConfirmed ==> r == VoiceApprovalRoute::Confirm,
        layer == ApprovalLayer::AmbientImmediate ==> r == VoiceApprovalRoute::Ambient,
        layer == ApprovalLayer::Immediate || layer == ApprovalLayer::ScreenRequired ==> r == VoiceApprovalRoute::Surface,
{
    if layer.requires_voice_confirmation() {
        VoiceApprovalRoute::Confirm
    } else if layer.is_ambient_immediate() {
        VoiceApprovalRoute::Ambient
    } else {
        VoiceApprovalRoute::Surface
    }
}

/// Whether an ambient approval may run: the speaker need not be verified,
/// or was.
pub fn ambient_speaker_accepted(verify_speaker: bool, verified: Option<bool>) -> (r: bool)
    ensures
        r == (!verify_speaker || verified == Some(true)),
{
    if verify_speaker {
        match verified {
            Some(v) => v,
            None => false,
        }
    } else {
        true
    }
}

/// Said when an approval was executed by voice.
pub const VOICE_APPROVED: &'static str = "承認しました。";
/// Said when the user declined by voice.
pub const VOICE_CANCELLED: &'static str = "キャンセルしました。";
/// Said when the wake-word's speaker could not be verified.
pub const VOICE_UNVERIFIED: &'static str = "話者確認が取れなかったため、画面で承認をお待ちします。";

/// The turn after its approval was executed by voice: the execution's
/// receipts and presentation (or the plain acknowledgement), no request
/// left open, and a text that acknowledges and reads the presentation.
pub fn approve_by_voice(result: &mut TurnResult, approved: ApprovalResult)
    ensures
        final(result).changes@ == approved.changes@,
        final(result).schedule_dirty == (old(result).schedule_dirty || approved.schedule_dirty),
        final(result).approval_request is None,
        approved.presentation is Some ==> final(result).presentation == approved.presentation,
        approved.presentation is None ==> (final(result).presentation matches Some(Presentation::Text { text })
            && text@ == VOICE_APPROVED@),
        final(result).presentation matches Some(p) && exists|ds: Seq<ChangeDates>|
            (p matches Presentation::ChangeProposal(req) ==> dates_voiced(req.changes@, ds))
            && final(result).text@ == VOICE_APPROVED@ + presentation_voice(p, ds),
{
    let ApprovalResult { id: _, approved: _, changes, schedule_dirty, presentation } = approved;
    result.changes = changes;
    result.schedule_dirty = result.schedule_dirty || schedule_dirty;
    result.approval_request = None;
    let p = match presentation {
        Some(p) => p,
        None => Presentation::Text { text: string_of(VOICE_APPROVED) },
    };
    let spoken = p.voice_template();
    let mut text = string_of(VOICE_APPROVED);
    append_str(&mut text, spoken.as_str());
    result.text = text;
    result.presentation = Some(p);
}

/// The turn after the user declined by voice: nothing applied, no request
/// left open, and the cancellation said and shown.
pub fn cancel_by_voice(result: &mut TurnResult, declined: ApprovalResult)
    ensures
        final(result).text@ == VOICE_CANCELLED@,
        final(result).changes@.len() == 0,
        final(result).schedule_dirty == (old(result).schedule_dirty || declined.schedule_dirty),
        final(result).approval_request is None,
        final(result).presentation matches Some(Presentation::Text { text }) && text@ == VOICE_CANCELLED@,
{
    result.text = string_of(VOICE_CANCELLED);
    result.changes = Vec::new();
    result.schedule_dirty = result.schedule_dirty || declined.schedule_dirty;
    result.approval_request = None;
    result.presentation = Some(Presentation::Text { text: string_of(VOICE_CANCELLED) });
}

/// The turn after a spoken yes/no was resolved: executed or declined as
/// the resolution says.
pub fn apply_voice_resolution(result: &mut TurnResult, resolution: ApprovalResult)
    ensures
        resolution.approved ==> final(result).changes@ == resolution.changes@
            && final(result).approval_request is None
            && final(result).schedule_dirty == (old(result).schedule_dirty || resolution.schedule_dirty)
            && (resolution.presentation is Some ==> final(result).presentation == resolution.presentation)
            && (resolution.presentation is None ==> (final(result).presentation matches Some(Presentation::Text { text })
                && text@ == VOICE_APPROVED@))
            && (final(result).presentation matches Some(p) && exists|ds: Seq<ChangeDates>|
                (p matches Presentation::ChangeProposal(req) ==> dates_voiced(req.changes@, ds))
                && final(result).text@ == VOICE_APPROVED@ + presentation_voice(p, ds)),
        !resolution.approved ==> final(result).text@ == VOICE_CANCELLED@
            && final(result).changes@.len() == 0
            && final(result).schedule_dirty == (old(result).schedule_dirty || resolution.schedule_dirty)
            && final(result).approval_request is None
            && (final(result).presentation matches Some(Presentation::Text { text }) && text@ == VOICE_CANCELLED@),
{
    if resolution.approved {
        approve_by_voice(result, resolution);
    } else {
        cancel_by_voice(result, resolution);
    }
}

/// The turn when its approval is left to the screen: the request stays
/// open and is shown, with `text` said.
fn defer_with(result: &mut TurnResult, text: String)
    requires
        old(result).approval_request is Some,
    ensures
        final(result).text == text,
        final(result).changes == old(result).changes,
        final(result).schedule_dirty == old(result).schedule_dirty,
        final(result).approval_request == old(result).approval_request,
        final(result).presentation matches Some(Presentation::ChangeProposal(req))
            && same_request(req, old(result).approval_request->0),
{
    let shown = match &result.approval_request {
        Some(req) => req.copy(),
        None => { proof { assert(false); } return; },
    };
    result.text = text;
    result.presentation = Some(Presentation::ChangeProposal(shown));
}

/// The turn when the wake-word's speaker could not be verified: the
/// request stays open and is shown on the screen.
pub fn defer_unverified(result: &mut TurnResult)
    requires
        old(result).approval_request is Some,
    ensures
        final(result).text@ == VOICE_UNVERIFIED@,
        final(result).changes == old(result).changes,
        final(result).schedule_dirty == old(result).schedule_dirty,
        final(result).approval_request == old(result).approval_request,
        final(result).presentation matches Some(Presentation::ChangeProposal(req))
            && same_request(req, old(result).approval_request->0),
{
    defer_with(result, string_of(VOICE_UNVERIFIED));
}

/// The turn when no spoken answer was had: the read-back and a note that
/// the screen waits for the approval, which stays open and is shown.
pub fn defer_to_screen(result: &mut TurnResult, readback: &str)
    requires
        old(result).approval_request is Some,
    ensures
        final(result).text@ == readback@ + "。画面で承認をお待ちします。"@,
        final(result).changes == old(result).changes,
        final(result).schedule_dirty == old(result).schedule_dirty,
        final(result).approval_request == old(result).approval_request,
        final(result).presentation matches Some(Presentation::ChangeProposal(req))
            && same_request(req, old(result).approval_request->0),
{
    let mut text = string_of(readback);
    append_str(&mut text, "。画面で承認をお待ちします。");
    defer_with(result, text);
}

} // verus!
