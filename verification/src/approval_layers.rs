//! Approval layer classification for proposed changes.
//!
//! Every operation is classified by the damage of misattribution and the
//! trusted input path. Classification runs before any permission default is
//! consulted, so a default-granted operation arriving over an unverified
//! path cannot bypass its required layer.

use vstd::prelude::*;
use crate::capability::InputPath;
use crate::labels::{ChangeOperation, TargetKind};
use crate::tool::ProposedChange;
use crate::json::{json_i64_field, json_str_field, json_i64_at, json_str_at};
use crate::clock::{parse_timestamp_nanos, parsed_timestamp_nanos, now_nanoseconds};

verus! {

/// Maximum number of minutes a `Snooze` can be and still be an
/// immediate-layer reversible operation.
pub const MAX_SHORT_SNOOZE_MINUTES: i64 = 30;

/// Nanoseconds in the short-snooze window.
pub const SHORT_SNOOZE_WINDOW_NANOS: i128 = 1_800_000_000_000;

/// The four approval layers, ordered from least to most restrictive.
#[derive(Debug, Clone, Copy, PartialEq, Eq, Structural)]
pub enum ApprovalLayer {
    Immediate,
    AmbientImmediate,
    VoiceConfirmed,
    ScreenRequired,
}

/// Restrictiveness rank of a layer.
pub open spec fn layer_rank(l: ApprovalLayer) -> nat {
    match l {
        ApprovalLayer::Immediate => 0,
        ApprovalLayer::AmbientImmediate => 1,
        ApprovalLayer::VoiceConfirmed => 2,
        ApprovalLayer::ScreenRequired => 3,
    }
}

fn rank(l: ApprovalLayer) -> (r: u8)
    ensures
        r == layer_rank(l),
{
    match l {
        ApprovalLayer::Immediate => 0,
        ApprovalLayer::AmbientImmediate => 1,
        ApprovalLayer::VoiceConfirmed => 2,
        ApprovalLayer::ScreenRequired => 3,
    }
}

impl ApprovalLayer {
    /// Whether this layer requires explicit voice confirmation.
    pub fn requires_voice_confirmation(self) -> (r: bool)
        ensures
            r == (self == ApprovalLayer::VoiceConfirmed),
    {
        matches!(self, ApprovalLayer::VoiceConfirmed)
    }

    /// Whether this layer requires speaker verification before execution.
    pub fn requires_speaker_verification(self) -> (r: bool)
        ensures
            r == (self == ApprovalLayer::AmbientImmediate || self == ApprovalLayer::VoiceConfirmed),
    {
        matches!(self, ApprovalLayer::AmbientImmediate | ApprovalLayer::VoiceConfirmed)
    }

    /// Whether this layer can execute immediately after the input evidence
    /// is validated.
    pub fn is_immediate(self) -> (r: bool)
        ensures
            r == (self == ApprovalLayer::Immediate),
    {
        matches!(self, ApprovalLayer::Immediate)
    }

    /// Whether this layer executes as an ambient-immediate action.
    pub fn is_ambient_immediate(self) -> (r: bool)
        ensures
            r == (self == ApprovalLayer::AmbientImmediate),
    {
        matches!(self, ApprovalLayer::AmbientImmediate)
    }
}

/// Whether a change's arguments describe a short snooze at time `now`
/// (Unix nanoseconds): a positive `snooze_minutes` of at most 30, or, when
/// that field is not an integer, a `start_at` timestamp in the next 30
/// minutes.
pub open spec fn short_snooze(arguments: Option<Seq<char>>, now: i128) -> bool {
    match arguments {
        None => false,
        Some(args) => match json_i64_at(args, "snooze_minutes"@) {
            Some(m) => 0 < m <= MAX_SHORT_SNOOZE_MINUTES,
            None => match json_str_at(args, "start_at"@) {
                Some(text) => match parsed_timestamp_nanos(text) {
                    Some(start) => now < start && start - now <= SHORT_SNOOZE_WINDOW_NANOS,
                    None => false,
                },
                None => false,
            },
        },
    }
}

pub open spec fn args_text(change: ProposedChange) -> Option<Seq<char>> {
    match change.arguments {
        Some(a) => Some(a@),
        None => None,
    }
}

/// Start, pause and undo.
pub open spec fn is_cheap_op(op: ChangeOperation) -> bool {
    op == ChangeOperation::Start || op == ChangeOperation::Pause || op == ChangeOperation::Undo
}

/// Move and snooze.
pub open spec fn is_delay_op(op: ChangeOperation) -> bool {
    op == ChangeOperation::Move || op == ChangeOperation::Snooze
}

/// The layer for a single change arriving over `path`, given whether it is
/// a short snooze.
pub open spec fn classify_spec(op: ChangeOperation, target: TargetKind, path: InputPath, short: bool) -> ApprovalLayer {
    match path {
        InputPath::PlainText => ApprovalLayer::ScreenRequired,
        InputPath::ScreenCapability | InputPath::NotificationCapability =>
            if is_cheap_op(op) || (is_delay_op(op) && short) {
                ApprovalLayer::Immediate
            } else {
                ApprovalLayer::ScreenRequired
            },
        InputPath::ExplicitVoiceSession =>
            if is_cheap_op(op) || (is_delay_op(op) && short) {
                ApprovalLayer::Immediate
            } else if voice_confirmed_task_op(op, target) {
                ApprovalLayer::VoiceConfirmed
            } else {
                ApprovalLayer::ScreenRequired
            },
        InputPath::AmbientWakeWord =>
            if op == ChangeOperation::Start || op == ChangeOperation::Pause {
                ApprovalLayer::AmbientImmediate
            } else {
                ApprovalLayer::ScreenRequired
            },
    }
}

fn cheap_op(op: ChangeOperation) -> (r: bool)
    ensures
        r == is_cheap_op(op),
{
    match op {
        ChangeOperation::Start | ChangeOperation::Pause | ChangeOperation::Undo => true,
        _ => false,
    }
}

fn delay_op(op: ChangeOperation) -> (r: bool)
    ensures
        r == is_delay_op(op),
{
    match op {
        ChangeOperation::Move | ChangeOperation::Snooze => true,
        _ => false,
    }
}

fn voice_task_op(op: ChangeOperation, target: TargetKind) -> (r: bool)
    ensures
        r == voice_confirmed_task_op(op, target),
{
    target == TargetKind::Task && match op {
        ChangeOperation::Progress | ChangeOperation::Complete | ChangeOperation::Create
        | ChangeOperation::Update => true,
        _ => false,
    }
}

/// Whether the arguments describe a short snooze at time `now`.
fn is_short_snooze(change: &ProposedChange, now: i128) -> (r: bool)
    ensures
        r == short_snooze(args_text(*change), now),
{
    let args = match &change.arguments {
        Some(a) => a,
        None => {
            return false;
        },
    };
    if let Some(minutes) = json_i64_field(args.as_str(), "snooze_minutes") {
        return minutes > 0 && minutes <= MAX_SHORT_SNOOZE_MINUTES;
    }
    if let Some(text) = json_str_field(args.as_str(), "start_at") {
        if let Some(start) = parse_timestamp_nanos(text.as_str()) {
            if start > now {
                if now > i128::MAX - SHORT_SNOOZE_WINDOW_NANOS {
                    return true;
                }
                return start <= now + SHORT_SNOOZE_WINDOW_NANOS;
            }
        }
    }
    false
}

/// Classify a single proposed change at time `now` (Unix nanoseconds).
pub fn classify_at(change: &ProposedChange, input_path: InputPath, now: i128) -> (l: ApprovalLayer)
    ensures
        l == classify_spec(change.operation, change.target.kind, input_path, short_snooze(args_text(*change), now)),
{
    let short = is_short_snooze(change, now);
    let op = change.operation;
    match input_path {
        InputPath::PlainText => ApprovalLayer::ScreenRequired,
        InputPath::ScreenCapability | InputPath::NotificationCapability => {
            if cheap_op(op) || (delay_op(op) && short) {
                ApprovalLayer::Immediate
            } else {
                ApprovalLayer::ScreenRequired
            }
        },
        InputPath::ExplicitVoiceSession => {
            if cheap_op(op) || (delay_op(op) && short) {
                ApprovalLayer::Immediate
            } else if voice_task_op(op, change.target.kind) {
                ApprovalLayer::VoiceConfirmed
            } else {
                ApprovalLayer::ScreenRequired
            }
        },
        InputPath::AmbientWakeWord => {
            if op == ChangeOperation::Start || op == ChangeOperation::Pause {
                ApprovalLayer::AmbientImmediate
            } else {
                ApprovalLayer::ScreenRequired
            }
        },
    }
}

/// Classify a single proposed change using its trusted input path, reading
/// the clock for snoozes given as a target time.
pub fn classify(change: &ProposedChange, input_path: InputPath) -> (l: ApprovalLayer)
    ensures
        exists|now: i128| l == classify_spec(change.operation, change.target.kind, input_path, #[trigger] short_snooze(args_text(*change), now)),
{
    let now = now_nanoseconds();
    classify_at(change, input_path, now)
}

/// A voice-confirmable single task operation.
pub open spec fn voice_confirmed_task_op(op: ChangeOperation, target: TargetKind) -> bool {
    target == TargetKind::Task && (op == ChangeOperation::Progress || op == ChangeOperation::Complete
        || op == ChangeOperation::Create || op == ChangeOperation::Update)
}

/// A task move or snooze that is not short.
pub open spec fn long_move_or_snooze(op: ChangeOperation, target: TargetKind, short: bool) -> bool {
    target == TargetKind::Task && (op == ChangeOperation::Move || op == ChangeOperation::Snooze) && !short
}

/// A task operation that may be part of a voice-confirmed compound.
pub open spec fn voice_compound_task_op(op: ChangeOperation, target: TargetKind) -> bool {
    target == TargetKind::Task && match op {
        ChangeOperation::Start | ChangeOperation::Pause | ChangeOperation::Undo | ChangeOperation::Progress
        | ChangeOperation::Complete | ChangeOperation::Create | ChangeOperation::Update
        | ChangeOperation::Move | ChangeOperation::Snooze => true,
        _ => false,
    }
}

pub open spec fn change_layer(c: ProposedChange, path: InputPath, now: i128) -> ApprovalLayer {
    classify_spec(c.operation, c.target.kind, path, short_snooze(args_text(c), now))
}

/// The most restrictive layer among `cs`, or `Immediate` when there are none.
pub open spec fn max_layer(cs: Seq<ProposedChange>, path: InputPath, now: i128) -> ApprovalLayer
    decreases cs.len(),
{
    if cs.len() == 0 {
        ApprovalLayer::Immediate
    } else {
        let rest = max_layer(cs.drop_last(), path, now);
        let l = change_layer(cs.last(), path, now);
        if layer_rank(l) > layer_rank(rest) { l } else { rest }
    }
}

/// The layer of a set of changes: the most restrictive layer, except that a
/// compound voice proposal (over an explicit voice session) of task
/// operations with a voice-confirmable edit and a long move/snooze stays
/// voice-confirmed.
pub open spec fn classify_set_spec(cs: Seq<ProposedChange>, path: InputPath, now: i128) -> ApprovalLayer {
    let layer = max_layer(cs, path, now);
    let has_voice = exists|i: int| 0 <= i < cs.len()
        && voice_confirmed_task_op(#[trigger] cs[i].operation, cs[i].target.kind);
    let has_long = exists|i: int| 0 <= i < cs.len()
        && long_move_or_snooze(#[trigger] cs[i].operation, cs[i].target.kind, short_snooze(args_text(cs[i]), now));
    let all_task = forall|i: int| 0 <= i < cs.len()
        ==> voice_compound_task_op(#[trigger] cs[i].operation, cs[i].target.kind);
    if path == InputPath::ExplicitVoiceSession && layer == ApprovalLayer::ScreenRequired && all_task && has_voice && has_long {
        ApprovalLayer::VoiceConfirmed
    } else {
        layer
    }
}

/// Classify a set of proposed changes at time `now` (Unix nanoseconds).
pub fn classify_set_at(changes: &[ProposedChange], input_path: InputPath, now: i128) -> (l: ApprovalLayer)
    ensures
        l == classify_set_spec(changes@, input_path, now),
{
    let mut layer = ApprovalLayer::Immediate;
    let mut has_voice = false;
    let mut has_long = false;
    let mut all_task = true;
    let mut i: usize = 0;
    while i < changes.len()
        invariant
            i <= changes@.len(),
            layer == max_layer(changes@.subrange(0, i as int), input_path, now),
            has_voice == exists|k: int| 0 <= k < i
                && voice_confirmed_task_op(#[trigger] changes@[k].operation, changes@[k].target.kind),
            has_long == exists|k: int| 0 <= k < i
                && long_move_or_snooze(#[trigger] changes@[k].operation, changes@[k].target.kind,
                    short_snooze(args_text(changes@[k]), now)),
            all_task == forall|k: int| 0 <= k < i
                ==> voice_compound_task_op(#[trigger] changes@[k].operation, changes@[k].target.kind),
        decreases changes@.len() - i,
    {
        let change = &changes[i];
        let op = change.operation;
        let target = change.target.kind;
        let l = classify_at(change, input_path, now);
        proof {
            assert(changes@.subrange(0, i + 1).drop_last() =~= changes@.subrange(0, i as int));
        }
        if rank(l) > rank(layer) {
            layer = l;
        }
        let short = is_short_snooze(change, now);
        let voice = voice_task_op(op, target);
        if voice {
            has_voice = true;
        }
        let long = target == TargetKind::Task && delay_op(op) && !short;
        if long {
            has_long = true;
        }
        let compound = target == TargetKind::Task && match op {
            ChangeOperation::Start | ChangeOperation::Pause | ChangeOperation::Undo | ChangeOperation::Progress
            | ChangeOperation::Complete | ChangeOperation::Create | ChangeOperation::Update
            | ChangeOperation::Move | ChangeOperation::Snooze => true,
            _ => false,
        };
        if !compound {
            all_task = false;
        }
        proof {
            let k = i as int;
            if voice {
                assert(voice_confirmed_task_op(changes@[k].operation, changes@[k].target.kind));
            }
            if long {
                assert(long_move_or_snooze(changes@[k].operation, changes@[k].target.kind,
                    short_snooze(args_text(changes@[k]), now)));
            }
            if !compound {
                assert(!voice_compound_task_op(changes@[k].operation, changes@[k].target.kind));
            }
        }
        i = i + 1;
    }
    proof {
        assert(changes@.subrange(0, changes@.len() as int) =~= changes@);
    }
    if input_path == InputPath::ExplicitVoiceSession && layer == ApprovalLayer::ScreenRequired && all_task && has_voice
        && has_long {
        layer = ApprovalLayer::VoiceConfirmed;
    }
    layer
}

/// Classify a set of proposed changes using the trusted input path, reading
/// the clock once for snoozes given as a target time.
pub fn classify_set(changes: &[ProposedChange], input_path: InputPath) -> (l: ApprovalLayer)
    ensures
        exists|now: i128| l == #[trigger] classify_set_spec(changes@, input_path, now),
{
    let now = now_nanoseconds();
    classify_set_at(changes, input_path, now)
}

/// Plain text never authorizes anything below a screen approval, and a
/// delete always needs the screen, whatever the path.
pub proof fn lemma_untrusted_and_destructive_need_screen(
    op: ChangeOperation,
    target: TargetKind,
    path: InputPath,
    short: bool,
)
    ensures
        path == InputPath::PlainText ==> classify_spec(op, target, path, short) == ApprovalLayer::ScreenRequired,
        op == ChangeOperation::Delete ==> classify_spec(op, target, path, short) == ApprovalLayer::ScreenRequired,
{
}

/// A set is at least as restrictive as each of its members, except for
/// the voice-confirmed compound refinement, which never goes below
/// voice-confirmed.
pub proof fn lemma_set_layer_bounds_members(cs: Seq<ProposedChange>, path: InputPath, now: i128, i: int)
    requires
        0 <= i < cs.len(),
    ensures
        layer_rank(change_layer(cs[i], path, now)) <= layer_rank(max_layer(cs, path, now)),
        layer_rank(classify_set_spec(cs, path, now)) >= 2 || layer_rank(classify_set_spec(cs, path, now)) == layer_rank(max_layer(cs, path, now)),
    decreases cs.len(),
{
    if i < cs.len() - 1 {
        assert(cs.drop_last()[i] == cs[i]);
        lemma_set_layer_bounds_members(cs.drop_last(), path, now, i);
    }
}

/// The same holds of a set: a non-empty set of changes over plain text, or
/// a set holding a delete, always needs the screen.
pub proof fn lemma_set_untrusted_and_destructive_need_screen(cs: Seq<ProposedChange>, path: InputPath, now: i128)
    ensures
        path == InputPath::PlainText && cs.len() > 0 ==> classify_set_spec(cs, path, now) == ApprovalLayer::ScreenRequired,
        (exists|i: int| 0 <= i < cs.len() && (#[trigger] cs[i]).operation == ChangeOperation::Delete)
            ==> classify_set_spec(cs, path, now) == ApprovalLayer::ScreenRequired,
{
    if path == InputPath::PlainText && cs.len() > 0 {
        lemma_set_layer_bounds_members(cs, path, now, 0);
        assert(max_layer(cs, path, now) == ApprovalLayer::ScreenRequired);
    }
    if exists|i: int| 0 <= i < cs.len() && (#[trigger] cs[i]).operation == ChangeOperation::Delete {
        let i = choose|i: int| 0 <= i < cs.len() && (#[trigger] cs[i]).operation == ChangeOperation::Delete;
        lemma_set_layer_bounds_members(cs, path, now, i);
        assert(change_layer(cs[i], path, now) == ApprovalLayer::ScreenRequired);
        assert(max_layer(cs, path, now) == ApprovalLayer::ScreenRequired);
        assert(!voice_compound_task_op(cs[i].operation, cs[i].target.kind));
    }
}


/// What each input path lets a single change do. Over a wake word, a start
/// or a pause runs as an ambient-immediate action and anything else needs
/// the screen. From a screen or notification capability, a start, pause or
/// undo, or a short move or snooze, runs at once and anything else needs
/// the screen. In an explicit voice session the same changes run at once,
/// a task progress, completion, creation or update is confirmed by voice,
/// and anything else needs the screen. Only the wake word gives the
/// ambient-immediate layer.
pub proof fn lemma_layers_by_path(op: ChangeOperation, target: TargetKind, path: InputPath, short: bool)
    ensures
        path == InputPath::AmbientWakeWord ==> classify_spec(op, target, path, short) == (
            if op == ChangeOperation::Start || op == ChangeOperation::Pause {
                ApprovalLayer::AmbientImmediate
            } else {
                ApprovalLayer::ScreenRequired
            }),
        (path == InputPath::ScreenCapability || path == InputPath::NotificationCapability)
            ==> classify_spec(op, target, path, short) == (
            if op == ChangeOperation::Start || op == ChangeOperation::Pause || op == ChangeOperation::Undo
                || ((op == ChangeOperation::Move || op == ChangeOperation::Snooze) && short) {
                ApprovalLayer::Immediate
            } else {
                ApprovalLayer::ScreenRequired
            }),
        path == InputPath::ExplicitVoiceSession ==> classify_spec(op, target, path, short) == (
            if op == ChangeOperation::Start || op == ChangeOperation::Pause || op == ChangeOperation::Undo
                || ((op == ChangeOperation::Move || op == ChangeOperation::Snooze) && short) {
                ApprovalLayer::Immediate
            } else if target == TargetKind::Task && (op == ChangeOperation::Progress || op == ChangeOperation::Complete
                || op == ChangeOperation::Create || op == ChangeOperation::Update) {
                ApprovalLayer::VoiceConfirmed
            } else {
                ApprovalLayer::ScreenRequired
            }),
        classify_spec(op, target, path, short) == ApprovalLayer::AmbientImmediate ==> path == InputPath::AmbientWakeWord,
{
}

proof fn lemma_wake_word_max_layer(cs: Seq<ProposedChange>, now: i128)
    ensures
        (forall|i: int| 0 <= i < cs.len() ==> (#[trigger] cs[i]).operation == ChangeOperation::Start
            || cs[i].operation == ChangeOperation::Pause)
            ==> layer_rank(max_layer(cs, InputPath::AmbientWakeWord, now)) <= 1,
        (exists|i: int| 0 <= i < cs.len() && (#[trigger] cs[i]).operation != ChangeOperation::Start
            && cs[i].operation != ChangeOperation::Pause)
            ==> max_layer(cs, InputPath::AmbientWakeWord, now) == ApprovalLayer::ScreenRequired,
        cs.len() > 0 ==> layer_rank(max_layer(cs, InputPath::AmbientWakeWord, now)) >= 1,
    decreases cs.len(),
{
    let path = InputPath::AmbientWakeWord;
    if cs.len() > 0 {
        let rest = cs.drop_last();
        lemma_wake_word_max_layer(rest, now);
        if forall|i: int| 0 <= i < cs.len() ==> (#[trigger] cs[i]).operation == ChangeOperation::Start
            || cs[i].operation == ChangeOperation::Pause {
            assert forall|i: int| 0 <= i < rest.len() implies (#[trigger] rest[i]).operation == ChangeOperation::Start
                || rest[i].operation == ChangeOperation::Pause by {
                assert(rest[i] == cs[i]);
            }
            assert(cs.last() == cs[cs.len() - 1]);
        }
        if exists|i: int| 0 <= i < cs.len() && (#[trigger] cs[i]).operation != ChangeOperation::Start
            && cs[i].operation != ChangeOperation::Pause {
            let i = choose|i: int| 0 <= i < cs.len() && (#[trigger] cs[i]).operation != ChangeOperation::Start
                && cs[i].operation != ChangeOperation::Pause;
            if i < cs.len() - 1 {
                assert(rest[i] == cs[i]);
            }
        }
    }
}

/// The same holds of a set over a wake word: a non-empty set runs as an
/// ambient-immediate action when every change in it is a start or a pause,
/// and needs the screen as soon as one change is anything else.
pub proof fn lemma_wake_word_sets(cs: Seq<ProposedChange>, now: i128)
    requires
        cs.len() > 0,
    ensures
        classify_set_spec(cs, InputPath::AmbientWakeWord, now) == (
            if forall|i: int| 0 <= i < cs.len() ==> (#[trigger] cs[i]).operation == ChangeOperation::Start
                || cs[i].operation == ChangeOperation::Pause {
                ApprovalLayer::AmbientImmediate
            } else {
                ApprovalLayer::ScreenRequired
            }),
{
    lemma_wake_word_max_layer(cs, now);
    let l = max_layer(cs, InputPath::AmbientWakeWord, now);
    if !(forall|i: int| 0 <= i < cs.len() ==> (#[trigger] cs[i]).operation == ChangeOperation::Start
        || cs[i].operation == ChangeOperation::Pause) {
        let i = choose|i: int| !(0 <= i < cs.len() ==> (#[trigger] cs[i]).operation == ChangeOperation::Start
            || cs[i].operation == ChangeOperation::Pause);
        assert(cs[i].operation != ChangeOperation::Start && cs[i].operation != ChangeOperation::Pause);
    } else {
        assert(layer_rank(l) == 1);
    }
}


proof fn lemma_max_layer_is_a_member(cs: Seq<ProposedChange>, path: InputPath, now: i128)
    requires
        cs.len() > 0,
    ensures
        exists|i: int| 0 <= i < cs.len() && max_layer(cs, path, now) == change_layer(#[trigger] cs[i], path, now),
    decreases cs.len(),
{
    let rest = cs.drop_last();
    if rest.len() > 0 {
        lemma_max_layer_is_a_member(rest, path, now);
        let i = choose|i: int| 0 <= i < rest.len() && max_layer(rest, path, now) == change_layer(#[trigger] rest[i], path, now);
        assert(rest[i] == cs[i]);
    }
    assert(cs.last() == cs[cs.len() - 1]);
}

/// A non-empty set takes the most restrictive layer of its changes: its
/// layer is the layer of one of them and no change needs more, but for one
/// refinement in an explicit voice session. There, a set of task changes
/// (start, pause, undo, progress, complete, create, update, move or
/// snooze) holding a progress, completion, creation or update and a move or
/// snooze that is not short is confirmed by voice as a whole, though the
/// long move alone would need the screen.
pub proof fn lemma_set_takes_most_restrictive(cs: Seq<ProposedChange>, path: InputPath, now: i128)
    requires
        cs.len() > 0,
    ensures
        ({
            let compound = path == InputPath::ExplicitVoiceSession
                && (forall|i: int| 0 <= i < cs.len() ==> (#[trigger] cs[i]).target.kind == TargetKind::Task
                    && (cs[i].operation == ChangeOperation::Start || cs[i].operation == ChangeOperation::Pause
                    || cs[i].operation == ChangeOperation::Undo || cs[i].operation == ChangeOperation::Progress
                    || cs[i].operation == ChangeOperation::Complete || cs[i].operation == ChangeOperation::Create
                    || cs[i].operation == ChangeOperation::Update || cs[i].operation == ChangeOperation::Move
                    || cs[i].operation == ChangeOperation::Snooze))
                && (exists|i: int| 0 <= i < cs.len() && (#[trigger] cs[i]).target.kind == TargetKind::Task
                    && (cs[i].operation == ChangeOperation::Progress || cs[i].operation == ChangeOperation::Complete
                    || cs[i].operation == ChangeOperation::Create || cs[i].operation == ChangeOperation::Update))
                && (exists|i: int| 0 <= i < cs.len() && (#[trigger] cs[i]).target.kind == TargetKind::Task
                    && (cs[i].operation == ChangeOperation::Move || cs[i].operation == ChangeOperation::Snooze)
                    && !short_snooze(args_text(cs[i]), now));
            &&& compound ==> classify_set_spec(cs, path, now) == ApprovalLayer::VoiceConfirmed
            &&& !compound ==> (exists|i: int| 0 <= i < cs.len()
                && classify_set_spec(cs, path, now) == change_layer(#[trigger] cs[i], path, now))
            &&& !compound ==> forall|i: int| 0 <= i < cs.len()
                ==> layer_rank(change_layer(#[trigger] cs[i], path, now)) <= layer_rank(classify_set_spec(cs, path, now))
        }),
{
    lemma_max_layer_is_a_member(cs, path, now);
    assert forall|i: int| 0 <= i < cs.len()
        implies layer_rank(change_layer(#[trigger] cs[i], path, now)) <= layer_rank(max_layer(cs, path, now)) by {
        lemma_set_layer_bounds_members(cs, path, now, i);
    }
    if path == InputPath::ExplicitVoiceSession
        && (exists|i: int| 0 <= i < cs.len() && (#[trigger] cs[i]).target.kind == TargetKind::Task
            && (cs[i].operation == ChangeOperation::Move || cs[i].operation == ChangeOperation::Snooze)
            && !short_snooze(args_text(cs[i]), now)) {
        let i = choose|i: int| 0 <= i < cs.len() && (#[trigger] cs[i]).target.kind == TargetKind::Task
            && (cs[i].operation == ChangeOperation::Move || cs[i].operation == ChangeOperation::Snooze)
            && !short_snooze(args_text(cs[i]), now);
        assert(change_layer(cs[i], path, now) == ApprovalLayer::ScreenRequired);
        assert(long_move_or_snooze(cs[i].operation, cs[i].target.kind, short_snooze(args_text(cs[i]), now)));
    }
}

} // verus!
