//! Conversation history trimming.
//!
//! The running history must fit within the model's context window.
//! Trimming drops the oldest complete turns when the token budget is
//! exceeded, calibrating per-message estimates with the provider-reported
//! prompt token count. Truncation discards turns by index, e.g. after an
//! edit.

use vstd::prelude::*;
use vstd::string::*;
use crate::text::{string_of, u64_to_string, append_str, nat_digits};
use crate::tool::InvalidArgsError;
use crate::session::ApprovalRequest;

verus! {

/// One message of a conversation.
#[derive(Debug, Clone)]
pub enum Message {
    System(String),
    User(String),
    Assistant(String),
    Tool(String),
}

pub open spec fn message_text(m: Message) -> Seq<char> {
    match m {
        Message::System(t) => t@,
        Message::User(t) => t@,
        Message::Assistant(t) => t@,
        Message::Tool(t) => t@,
    }
}

/// The token estimate of a message: a quarter of its characters, rounded
/// up, plus four.
pub open spec fn message_tokens(m: Message) -> nat {
    ((message_text(m).len() + 3) / 4 + 4) as nat
}

/// The token estimate of a run of messages.
pub open spec fn total_tokens(ms: Seq<Message>) -> nat
    decreases ms.len(),
{
    if ms.len() == 0 {
        0
    } else {
        total_tokens(ms.drop_last()) + message_tokens(ms.last())
    }
}

pub open spec fn is_user(m: Message) -> bool {
    m is User
}

impl Message {
    /// The token estimate of this message.
    pub fn estimate_tokens(&self) -> (r: usize)
        ensures
            r == message_tokens(*self),
    {
        let text: &str = match self {
            Message::System(t) => t.as_str(),
            Message::User(t) => t.as_str(),
            Message::Assistant(t) => t.as_str(),
            Message::Tool(t) => t.as_str(),
        };
        let n = text.unicode_len();
        (n / 4) + (if n % 4 == 0 { 0 } else { 1 }) + 4
    }
}

/// Index of the first user message at or after `i`, if any.
pub open spec fn first_user_from(ms: Seq<Message>, i: int) -> Option<int>
    decreases ms.len() - i,
{
    if i < 0 || i >= ms.len() {
        None
    } else if is_user(ms[i]) {
        Some(i)
    } else {
        first_user_from(ms, i + 1)
    }
}

/// Index of the last user message among the first `n`, if any.
pub open spec fn last_user_before(ms: Seq<Message>, n: int) -> Option<int>
    decreases n,
{
    if n <= 0 {
        None
    } else if is_user(ms[n - 1]) {
        Some(n - 1)
    } else {
        last_user_before(ms, n - 1)
    }
}

pub open spec fn opt_or_int(o: Option<int>, d: int) -> int {
    match o {
        Some(v) => v,
        None => d,
    }
}

/// Start of the current turn: the last user message (or the start).
pub open spec fn last_user_start(ms: Seq<Message>) -> int {
    opt_or_int(last_user_before(ms, ms.len() as int), 0)
}

/// How many of the oldest messages one trimming step drops: up to the next
/// turn boundary, never into the current turn.
pub open spec fn drain_end(ms: Seq<Message>) -> int {
    let last = last_user_start(ms);
    if ms.len() > 1 {
        let start = opt_or_int(first_user_from(ms, 0), 0);
        let next = if start == 0 { opt_or_int(first_user_from(ms, 1), ms.len() as int) } else { start };
        if next < last { next } else { last }
    } else {
        if 1 < last { 1 } else { last }
    }
}

/// The messages left after trimming to `adjusted` tokens, with `estimate`
/// the current estimate of `ms`.
pub open spec fn trim_spec(ms: Seq<Message>, adjusted: nat, estimate: nat) -> Seq<Message>
    decreases ms.len(),
{
    if estimate <= adjusted || ms.len() == 0 {
        ms
    } else {
        let d = drain_end(ms);
        if d <= 0 || d > ms.len() {
            ms
        } else {
            trim_spec(ms.subrange(d, ms.len() as int), adjusted, total_tokens(ms.subrange(d, ms.len() as int)))
        }
    }
}

/// The budget the trimming aims at: `target` scaled by the ratio of the
/// local estimate to the provider's count (when there is one), computed
/// exactly and rounded down, capped at `usize::MAX`, and never below the
/// last message's estimate.
pub open spec fn adjusted_target(target: usize, current: usize, actual_local: usize, last_estimate: usize) -> nat {
    let base: int = if actual_local > 0 {
        let q = (target as int * current as int) / (actual_local as int);
        if q > usize::MAX { usize::MAX as int } else { q }
    } else {
        target as int
    };
    if base < last_estimate { last_estimate as nat } else { base as nat }
}

proof fn lemma_first_user_from(ms: Seq<Message>, i: int)
    requires
        0 <= i,
    ensures
        first_user_from(ms, i) matches Some(k) ==> i <= k < ms.len() && is_user(ms[k]),
    decreases ms.len() - i,
{
    if i < ms.len() && !is_user(ms[i]) {
        lemma_first_user_from(ms, i + 1);
    }
}

proof fn lemma_last_user_before(ms: Seq<Message>, n: int)
    requires
        0 <= n <= ms.len(),
    ensures
        last_user_before(ms, n) matches Some(k) ==> 0 <= k < n && is_user(ms[k]),
        last_user_before(ms, n) is None ==> forall|k: int| 0 <= k < n ==> !is_user(#[trigger] ms[k]),
    decreases n,
{
    if n > 0 && !is_user(ms[n - 1]) {
        lemma_last_user_before(ms, n - 1);
    }
}

proof fn lemma_drain_end_bounds(ms: Seq<Message>)
    ensures
        0 <= drain_end(ms) <= last_user_start(ms),
        ms.len() > 0 ==> last_user_start(ms) < ms.len(),
{
    lemma_last_user_before(ms, ms.len() as int);
    lemma_first_user_from(ms, 0);
    lemma_first_user_from(ms, 1);
}

fn tokens_of(ms: &Vec<Message>) -> (r: usize)
    requires
        total_tokens(ms@) <= usize::MAX,
    ensures
        r == total_tokens(ms@),
{
    let mut sum: usize = 0;
    let mut i: usize = 0;
    while i < ms.len()
        invariant
            i <= ms@.len(),
            total_tokens(ms@) <= usize::MAX,
            sum == total_tokens(ms@.subrange(0, i as int)),
        decreases ms@.len() - i,
    {
        proof {
            assert(ms@.subrange(0, i as int + 1).drop_last() =~= ms@.subrange(0, i as int));
            lemma_total_tokens_prefix(ms@, i as int + 1);
        }
        let t = ms[i].estimate_tokens();
        sum = sum + t;
        i += 1;
    }
    assert(ms@.subrange(0, ms@.len() as int) =~= ms@);
    sum
}

proof fn lemma_total_tokens_prefix(ms: Seq<Message>, n: int)
    requires
        0 <= n <= ms.len(),
    ensures
        total_tokens(ms.subrange(0, n)) <= total_tokens(ms),
    decreases ms.len() - n,
{
    if n < ms.len() {
        lemma_total_tokens_prefix(ms, n + 1);
        assert(ms.subrange(0, n + 1).drop_last() =~= ms.subrange(0, n));
    } else {
        assert(ms.subrange(0, n) =~= ms);
    }
}

proof fn lemma_total_tokens_suffix(ms: Seq<Message>, d: int)
    requires
        0 <= d <= ms.len(),
    ensures
        total_tokens(ms.subrange(d, ms.len() as int)) <= total_tokens(ms),
    decreases ms.len(),
{
    if ms.len() > 0 && d < ms.len() {
        lemma_total_tokens_suffix(ms.drop_last(), d);
        assert(ms.subrange(d, ms.len() as int).drop_last() =~= ms.drop_last().subrange(d, ms.len() - 1));
    } else if d == ms.len() {
        assert(ms.subrange(d, ms.len() as int).len() == 0);
    }
}

fn message_is_user(m: &Message) -> (r: bool)
    ensures
        r == is_user(*m),
{
    matches!(m, Message::User(_))
}

fn find_drain_end(ms: &Vec<Message>) -> (r: usize)
    ensures
        r == drain_end(ms@),
{
    let n = ms.len();
    let mut k: usize = n;
    while k > 0 && !message_is_user(&ms[k - 1])
        invariant
            k <= n,
            n == ms@.len(),
            last_user_before(ms@, n as int) == last_user_before(ms@, k as int),
        decreases k,
    {
        k -= 1;
    }
    let last: usize = if k > 0 { k - 1 } else { 0 };
    assert(last == last_user_start(ms@));
    if n > 1 {
        let mut s: usize = 0;
        while s < n && !message_is_user(&ms[s])
            invariant
                s <= n,
                n == ms@.len(),
                first_user_from(ms@, 0) == first_user_from(ms@, s as int),
            decreases n - s,
        {
            s += 1;
        }
        let start = if s < n { s } else { 0 };
        let next = if start == 0 {
            let mut t: usize = 1;
            while t < n && !message_is_user(&ms[t])
                invariant
                    1 <= t <= n,
                    n == ms@.len(),
                    first_user_from(ms@, 1) == first_user_from(ms@, t as int),
                decreases n - t,
            {
                t += 1;
            }
            t
        } else {
            start
        };
        if next < last { next } else { last }
    } else {
        if 1 < last { 1 } else { last }
    }
}

fn scaled_target(target: usize, current: usize, actual_local: usize, last_estimate: usize) -> (r: usize)
    ensures
        r == adjusted_target(target, current, actual_local, last_estimate),
{
    let base: usize = if actual_local > 0 {
        assert((target as int) * (current as int) <= 0xffff_ffff_ffff_ffff_ffff_ffff_ffff_ffff) by (nonlinear_arith)
            requires
                target <= 0xffff_ffff_ffff_ffffu64,
                current <= 0xffff_ffff_ffff_ffffu64,
        ;
        let p: u128 = target as u128 * current as u128;
        let q: u128 = p / actual_local as u128;
        proof {
            assert(p == target as int * current as int);
        }
        if q > usize::MAX as u128 { usize::MAX } else { q as usize }
    } else {
        target
    };
    if base < last_estimate { last_estimate } else { base }
}

/// Trim `messages` (without the system message) to fit within a token
/// budget.
///
/// `target` is the local token budget, `current` the estimated token count
/// of `messages`, and `actual_local` the provider-reported count for the
/// same span when available. The budget is scaled by `current /
/// actual_local` so an estimate that overshoots the provider does not
/// over-trim, and is never below `last_estimate`. The oldest complete turns
/// are dropped first; the last user message and the messages after it are
/// always kept.
pub fn trim_to_target(messages: Vec<Message>, target: usize, current: usize, actual_local: usize, last_estimate: usize) -> (r: Vec<Message>)
    requires
        total_tokens(messages@) <= usize::MAX,
    ensures
        r@ == trim_spec(messages@, adjusted_target(target, current, actual_local, last_estimate), current as nat),
{
    let adjusted = scaled_target(target, current, actual_local, last_estimate);
    let mut ms = messages;
    let mut estimate = current;
    while estimate > adjusted && ms.len() > 0
        invariant_except_break
            total_tokens(ms@) <= usize::MAX,
            trim_spec(ms@, adjusted as nat, estimate as nat)
                == trim_spec(messages@, adjusted_target(target, current, actual_local, last_estimate), current as nat),
        ensures
            ms@ == trim_spec(messages@, adjusted_target(target, current, actual_local, last_estimate), current as nat),
        decreases ms@.len(),
    {
        let d = find_drain_end(&ms);
        proof { lemma_drain_end_bounds(ms@); }
        if d == 0 {
            break;
        }
        let ghost before = ms@;
        let rest = ms.split_off(d);
        ms = rest;
        proof { lemma_total_tokens_suffix(before, d as int); }
        estimate = tokens_of(&ms);
    }
    ms
}

proof fn lemma_last_user_shift(ms: Seq<Message>, d: int, n: int)
    requires
        0 <= d <= n <= ms.len(),
    ensures
        last_user_before(ms.subrange(d, ms.len() as int), n - d) == (match last_user_before(ms, n) {
            Some(k) => if k >= d { Some(k - d) } else { None },
            None => None,
        }),
    decreases n - d,
{
    lemma_last_user_before(ms, n);
    if n > d {
        let sub = ms.subrange(d, ms.len() as int);
        assert(sub[n - d - 1] == ms[n - 1]);
        if !is_user(ms[n - 1]) {
            lemma_last_user_shift(ms, d, n - 1);
        }
    }
}

proof fn lemma_trim_keeps_current_turn(ms: Seq<Message>, adjusted: nat, estimate: nat)
    ensures
        exists|k: int| 0 <= k <= last_user_start(ms) && (ms.len() > 0 ==> k < ms.len())
            && #[trigger] trim_spec(ms, adjusted, estimate) == ms.subrange(k, ms.len() as int),
    decreases ms.len(),
{
    lemma_drain_end_bounds(ms);
    if estimate <= adjusted || ms.len() == 0 {
        assert(trim_spec(ms, adjusted, estimate) == ms.subrange(0, ms.len() as int));
    } else {
        let d = drain_end(ms);
        if d <= 0 || d > ms.len() {
            assert(trim_spec(ms, adjusted, estimate) == ms.subrange(0, ms.len() as int));
        } else {
            let rest = ms.subrange(d, ms.len() as int);
            let e2 = total_tokens(rest);
            lemma_trim_keeps_current_turn(rest, adjusted, e2);
            let k2 = choose|k: int| 0 <= k <= last_user_start(rest) && (rest.len() > 0 ==> k < rest.len())
                && #[trigger] trim_spec(rest, adjusted, e2) == rest.subrange(k, rest.len() as int);
            lemma_last_user_shift(ms, d, ms.len() as int);
            lemma_last_user_before(ms, ms.len() as int);
            assert(last_user_start(rest) == last_user_start(ms) - d);
            assert(rest.subrange(k2, rest.len() as int) =~= ms.subrange(d + k2, ms.len() as int));
        }
    }
}

/// Trimming keeps a suffix of the messages that starts no later than the
/// last user message: the oldest turns go first, and the current turn (and
/// so the last message) is never dropped.
pub proof fn lemma_trim_drops_only_oldest_turns(messages: Seq<Message>, target: usize, current: usize, actual_local: usize, last_estimate: usize)
    ensures
        exists|k: int| 0 <= k <= last_user_start(messages) && (messages.len() > 0 ==> k < messages.len())
            && #[trigger] trim_spec(messages, adjusted_target(target, current, actual_local, last_estimate), current as nat)
                == messages.subrange(k, messages.len() as int),
{
    lemma_trim_keeps_current_turn(messages, adjusted_target(target, current, actual_local, last_estimate), current as nat);
}

/// An estimate within the (scaled) budget leaves the messages untouched.
pub proof fn lemma_within_budget_is_untouched(messages: Seq<Message>, target: usize, current: usize, actual_local: usize, last_estimate: usize)
    requires
        current <= adjusted_target(target, current, actual_local, last_estimate),
    ensures
        trim_spec(messages, adjusted_target(target, current, actual_local, last_estimate), current as nat) == messages,
{
}

pub open spec fn user_positions(ms: Seq<Message>, n: int) -> Seq<int>
    decreases n,
{
    if n <= 0 {
        Seq::empty()
    } else if is_user(ms[n - 1]) {
        user_positions(ms, n - 1).push(n - 1)
    } else {
        user_positions(ms, n - 1)
    }
}

/// The history length after discarding from turn `turn_index`: through its
/// user message when `after_user`, else up to the next turn's user message
/// (nothing is cut from the latest turn); `None` when there is no such turn.
pub open spec fn truncation_len(ms: Seq<Message>, turn_index: usize, after_user: bool) -> Option<int> {
    let users = user_positions(ms, ms.len() as int);
    if turn_index >= users.len() {
        None
    } else if after_user {
        Some(users[turn_index as int] + 1)
    } else if turn_index + 1 < users.len() {
        Some(users[turn_index + 1])
    } else {
        Some(ms.len() as int)
    }
}

proof fn lemma_user_positions(ms: Seq<Message>, n: int)
    requires
        0 <= n <= ms.len(),
    ensures
        user_positions(ms, n).len() <= n,
        forall|j: int| 0 <= j < user_positions(ms, n).len() ==> 0 <= #[trigger] user_positions(ms, n)[j] < n,
    decreases n,
{
    if n > 0 {
        lemma_user_positions(ms, n - 1);
    }
}

pub open spec fn out_of_range_reason(turn_index: usize) -> Seq<char> {
    "out of range: "@ + nat_digits(turn_index as nat)
}

/// Discard turns from `turn_index` on (see [`truncation_len`]); a turn that
/// does not exist is an invalid `turn_index` argument and leaves the history
/// unchanged.
pub fn truncate_history(history: &mut Vec<Message>, turn_index: usize, after_user: bool) -> (r: Result<(), InvalidArgsError>)
    ensures
        match truncation_len(old(history)@, turn_index, after_user) {
            Some(len) => r is Ok && final(history)@ == old(history)@.subrange(0, len),
            None => (r matches Err(InvalidArgsError::Field { field, reason })
                && field@ == "turn_index"@ && reason@ == out_of_range_reason(turn_index))
                && final(history)@ == old(history)@,
        },
{
    let ghost ms = history@;
    let n = history.len();
    let mut positions: Vec<usize> = Vec::new();
    let mut i: usize = 0;
    while i < n
        invariant
            n == ms.len(),
            history@ == ms,
            i <= n,
            positions@.len() == user_positions(ms, i as int).len(),
            forall|j: int| 0 <= j < positions@.len() ==> #[trigger] positions@[j] as int == user_positions(ms, i as int)[j],
        decreases n - i,
    {
        if message_is_user(&history[i]) {
            positions.push(i);
        }
        i += 1;
    }
    proof { lemma_user_positions(ms, n as int); }
    if turn_index >= positions.len() {
        let mut reason = string_of("out of range: ");
        let d = u64_to_string(turn_index as u64);
        append_str(&mut reason, d.as_str());
        return Err(InvalidArgsError::new("turn_index", reason.as_str()));
    }
    if after_user {
        history.truncate(positions[turn_index] + 1);
    } else if turn_index + 1 < positions.len() {
        history.truncate(positions[turn_index + 1]);
    }
    proof {
        assert(ms.subrange(0, ms.len() as int) =~= ms);
    }
    Ok(())
}

/// Whether the history may be compacted at all: compaction is enabled and
/// the context left after the reserve for the reply is larger than the
/// tokens kept verbatim.
pub fn compaction_possible(enabled: bool, max_context_tokens: usize, reserve_tokens: usize, keep_recent_tokens: usize) -> (r: bool)
    ensures
        r == (enabled && sat_sub(max_context_tokens as int, reserve_tokens as int) > keep_recent_tokens),
{
    enabled && max_context_tokens.saturating_sub(reserve_tokens) > keep_recent_tokens
}

/// The history kept after a compaction whose summary covers the messages
/// before `first_kept_index`.
pub fn keep_after_compaction(history: Vec<Message>, first_kept_index: usize) -> (r: Vec<Message>)
    ensures
        first_kept_index <= history@.len() ==> r@ == history@.subrange(first_kept_index as int, history@.len() as int),
        first_kept_index > history@.len() ==> r@.len() == 0,
{
    let mut history = history;
    if first_kept_index <= history.len() {
        history.split_off(first_kept_index)
    } else {
        Vec::new()
    }
}

/// Replace the user message of turn `turn_index` by `user_text` and discard
/// everything after it, so that the turn can be asked again; a turn that
/// does not exist is an invalid `turn_index` argument and leaves the history
/// unchanged.
pub fn edit_user_turn(history: &mut Vec<Message>, turn_index: usize, user_text: String) -> (r: Result<(), InvalidArgsError>)
    ensures
        match truncation_len(old(history)@, turn_index, true) {
            Some(len) => r is Ok && final(history)@ == old(history)@.subrange(0, len - 1).push(Message::User(user_text)),
            None => (r matches Err(InvalidArgsError::Field { field, reason })
                && field@ == "turn_index"@ && reason@ == out_of_range_reason(turn_index))
                && final(history)@ == old(history)@,
        },
{
    let ghost ms = history@;
    proof { lemma_user_positions(ms, ms.len() as int); }
    let r = truncate_history(history, turn_index, true);
    match r {
        Ok(()) => {
            let _ = history.pop();
            history.push(Message::User(user_text));
            Ok(())
        },
        Err(e) => Err(e),
    }
}

/// `a - b`, or 0 when `b` is larger.
pub open spec fn sat_sub(a: int, b: int) -> int {
    if a > b { a - b } else { 0 }
}

/// The history a request sends: a leading system message is kept and
/// budgeted for, the rest is trimmed to what the context window leaves
/// after the system message and the tool definitions (never below the
/// last message), calibrated by the provider's last prompt count.
pub open spec fn trim_messages_spec(ms: Seq<Message>, max_context_tokens: usize, tools_estimate: usize, last_prompt_tokens: Option<usize>) -> Seq<Message> {
    let has_system = ms.len() > 0 && ms[0] is System;
    let rest = if has_system { ms.drop_first() } else { ms };
    let system = if has_system { message_tokens(ms[0]) as int } else { 0 };
    let last = if rest.len() > 0 { message_tokens(rest.last()) as int } else { 0 };
    let budget = sat_sub(sat_sub(max_context_tokens as int, system), tools_estimate as int);
    let target = if budget >= last { budget } else { last };
    let current = total_tokens(rest);
    let actual = match last_prompt_tokens {
        Some(p) => sat_sub(sat_sub(p as int, system), tools_estimate as int),
        None => current as int,
    };
    let trimmed = trim_spec(rest, adjusted_target(target as usize, current as usize, actual as usize, last as usize), current);
    if has_system { seq![ms[0]] + trimmed } else { trimmed }
}

/// Trim the messages of a request to the context window of
/// `max_context_tokens`, given the token estimate of the tool definitions
/// and the provider's prompt count of the last request, if known.
pub fn trim_messages(messages: Vec<Message>, max_context_tokens: usize, tools_estimate: usize, last_prompt_tokens: Option<usize>) -> (r: Vec<Message>)
    requires
        total_tokens(messages@) <= usize::MAX,
    ensures
        r@ == trim_messages_spec(messages@, max_context_tokens, tools_estimate, last_prompt_tokens),
{
    let ghost orig = messages@;
    let mut messages = messages;
    let has_system = messages.len() > 0 && matches!(messages[0], Message::System(_));
    let system_message = if has_system { Some(messages.remove(0)) } else { None };
    proof {
        if has_system {
            assert(orig.drop_first() =~= messages@);
            lemma_total_tokens_suffix(orig, 1);
            assert(orig.subrange(1, orig.len() as int) =~= messages@);
        } else {
            assert(orig =~= messages@);
        }
        if messages@.len() > 0 {
            lemma_total_tokens_suffix(messages@, messages@.len() - 1);
            assert(messages@.subrange(messages@.len() - 1, messages@.len() as int) =~= seq![messages@.last()]);
            assert(seq![messages@.last()].drop_last() =~= Seq::<Message>::empty());
        }
    }
    let system_estimate: usize = match &system_message {
        Some(m) => m.estimate_tokens(),
        None => 0,
    };
    let last_estimate: usize = if messages.len() > 0 { messages[messages.len() - 1].estimate_tokens() } else { 0 };
    let budget = max_context_tokens.saturating_sub(system_estimate).saturating_sub(tools_estimate);
    let target = if budget >= last_estimate { budget } else { last_estimate };
    let current = tokens_of(&messages);
    let actual_local = match last_prompt_tokens {
        Some(p) => p.saturating_sub(system_estimate).saturating_sub(tools_estimate),
        None => current,
    };
    let mut trimmed = trim_to_target(messages, target, current, actual_local, last_estimate);
    match system_message {
        Some(m) => {
            let ghost t = trimmed@;
            trimmed.insert(0, m);
            assert(trimmed@ =~= seq![orig[0]] + t);
        },
        None => {},
    }
    trimmed
}

/// The history kept after a turn, trimmed to the context window of
/// `max_context_tokens` less the system prompt's and the tool definitions'
/// estimates, given the provider's prompt count for the turn, if known.
pub open spec fn kept_history_spec(local: Seq<Message>, max_context_tokens: usize, system_estimate: usize, tools_estimate: usize, prompt_tokens: Option<usize>) -> Seq<Message> {
    let last = if local.len() > 0 { message_tokens(local.last()) as int } else { 0 };
    let budget = sat_sub(sat_sub(max_context_tokens as int, system_estimate as int), tools_estimate as int);
    let target = if budget >= last { budget } else { last };
    let current = total_tokens(local);
    let actual = match prompt_tokens {
        Some(p) => sat_sub(sat_sub(p as int, system_estimate as int), tools_estimate as int),
        None => current as int,
    };
    trim_spec(local, adjusted_target(target as usize, current as usize, actual as usize, last as usize), current)
}

/// The history to keep after a turn (see [`kept_history_spec`]); it is
/// trimmed the same way as a request, so the two never disagree.
pub fn kept_history(local: Vec<Message>, max_context_tokens: usize, system_estimate: usize, tools_estimate: usize, prompt_tokens: Option<usize>) -> (r: Vec<Message>)
    requires
        total_tokens(local@) <= usize::MAX,
    ensures
        r@ == kept_history_spec(local@, max_context_tokens, system_estimate, tools_estimate, prompt_tokens),
{
    proof {
        if local@.len() > 0 {
            lemma_total_tokens_suffix(local@, local@.len() - 1);
            assert(local@.subrange(local@.len() - 1, local@.len() as int) =~= seq![local@.last()]);
            assert(seq![local@.last()].drop_last() =~= Seq::<Message>::empty());
        }
    }
    let last_estimate: usize = if local.len() > 0 { local[local.len() - 1].estimate_tokens() } else { 0 };
    let budget = max_context_tokens.saturating_sub(system_estimate).saturating_sub(tools_estimate);
    let target = if budget >= last_estimate { budget } else { last_estimate };
    let current = tokens_of(&local);
    let actual_local = match prompt_tokens {
        Some(p) => p.saturating_sub(system_estimate).saturating_sub(tools_estimate),
        None => current,
    };
    trim_to_target(local, target, current, actual_local, last_estimate)
}

/// What a session keeps between turns: its history, the approval request it
/// waits on, the provider's prompt count of its last request, and whether
/// the schedule needs saving.
#[derive(Debug)]
pub struct SessionState {
    pub history: Vec<Message>,
    pub pending_approval: Option<ApprovalRequest>,
    pub last_prompt_tokens: Option<usize>,
    pub schedule_dirty: bool,
}

/// Discard turns of the session from `turn_index` on (see
/// [`truncate_history`]). What was discarded may have held the pending
/// approval and changed the token count and the schedule, so these are
/// cleared too; a turn that does not exist changes nothing.
pub fn truncate_session(state: &mut SessionState, turn_index: usize, after_user: bool) -> (r: Result<(), InvalidArgsError>)
    ensures
        match truncation_len(old(state).history@, turn_index, after_user) {
            Some(len) => r is Ok
                && final(state).history@ == old(state).history@.subrange(0, len)
                && final(state).pending_approval is None
                && final(state).last_prompt_tokens is None
                && !final(state).schedule_dirty,
            None => (r matches Err(InvalidArgsError::Field { field, reason })
                && field@ == "turn_index"@ && reason@ == out_of_range_reason(turn_index))
                && final(state).history@ == old(state).history@
                && final(state).pending_approval == old(state).pending_approval
                && final(state).last_prompt_tokens == old(state).last_prompt_tokens
                && final(state).schedule_dirty == old(state).schedule_dirty,
        },
{
    let r = truncate_history(&mut state.history, turn_index, after_user);
    if r.is_ok() {
        state.pending_approval = None;
        state.last_prompt_tokens = None;
        state.schedule_dirty = false;
    }
    r
}

/// Replace the user message of turn `turn_index` and discard the rest (see
/// [`edit_user_turn`]), so that the turn can be asked again: the pending
/// approval of later turns no longer holds, and the schedule dirtiness and
/// the prompt count are worked out anew; a turn that does not exist changes
/// nothing.
pub fn edit_session_turn(state: &mut SessionState, turn_index: usize, user_text: String) -> (r: Result<(), InvalidArgsError>)
    ensures
        match truncation_len(old(state).history@, turn_index, true) {
            Some(len) => r is Ok
                && final(state).history@ == old(state).history@.subrange(0, len - 1).push(Message::User(user_text))
                && final(state).pending_approval is None
                && final(state).last_prompt_tokens is None
                && !final(state).schedule_dirty,
            None => (r matches Err(InvalidArgsError::Field { field, reason })
                && field@ == "turn_index"@ && reason@ == out_of_range_reason(turn_index))
                && final(state).history@ == old(state).history@
                && final(state).pending_approval == old(state).pending_approval
                && final(state).last_prompt_tokens == old(state).last_prompt_tokens
                && final(state).schedule_dirty == old(state).schedule_dirty,
        },
{
    let r = edit_user_turn(&mut state.history, turn_index, user_text);
    if r.is_ok() {
        state.pending_approval = None;
        state.last_prompt_tokens = None;
        state.schedule_dirty = false;
    }
    r
}

proof fn lemma_trim_shrinks(ms: Seq<Message>, a: nat, e: nat)
    ensures
        trim_spec(ms, a, e).len() <= ms.len(),
    decreases ms.len(),
{
    if !(e <= a || ms.len() == 0) {
        let d = drain_end(ms);
        if 0 < d <= ms.len() {
            let rest = ms.subrange(d, ms.len() as int);
            lemma_trim_shrinks(rest, a, total_tokens(rest));
        }
    }
}

proof fn lemma_trim_monotone(ms: Seq<Message>, a1: nat, a2: nat, e: nat)
    requires
        a1 <= a2,
    ensures
        trim_spec(ms, a1, e).len() <= trim_spec(ms, a2, e).len(),
    decreases ms.len(),
{
    lemma_trim_shrinks(ms, a1, e);
    if !(e <= a2 || ms.len() == 0) {
        let d = drain_end(ms);
        if 0 < d <= ms.len() {
            let rest = ms.subrange(d, ms.len() as int);
            lemma_trim_monotone(rest, a1, a2, total_tokens(rest));
        }
    }
}

proof fn lemma_adjusted_without_count(target: usize, current: usize, last: usize)
    ensures
        adjusted_target(target, current, current, last) == (if target < last { last as nat } else { target as nat }),
{
    if current > 0 {
        assert((target as int * current as int) / (current as int) == target as int) by (nonlinear_arith)
            requires
                current > 0,
        ;
    }
}

/// Without a prompt count from the provider, a larger estimate for the
/// tool definitions never keeps more messages of a request.
pub proof fn lemma_more_tool_tokens_never_keep_more(ms: Seq<Message>, max_context_tokens: usize, smaller: usize, larger: usize)
    requires
        smaller <= larger,
        total_tokens(ms) <= usize::MAX,
    ensures
        trim_messages_spec(ms, max_context_tokens, larger, None).len()
            <= trim_messages_spec(ms, max_context_tokens, smaller, None).len(),
{
    let has_system = ms.len() > 0 && ms[0] is System;
    let rest = if has_system { ms.drop_first() } else { ms };
    if has_system {
        lemma_total_tokens_suffix(ms, 1);
        assert(ms.subrange(1, ms.len() as int) =~= rest);
    }
    let system = if has_system { message_tokens(ms[0]) as int } else { 0 };
    let last = if rest.len() > 0 { message_tokens(rest.last()) as int } else { 0 };
    if rest.len() > 0 {
        lemma_total_tokens_suffix(rest, rest.len() - 1);
        assert(rest.subrange(rest.len() - 1, rest.len() as int) =~= seq![rest.last()]);
        assert(seq![rest.last()].drop_last() =~= Seq::<Message>::empty());
    }
    let current = total_tokens(rest);
    let b1 = sat_sub(sat_sub(max_context_tokens as int, system), smaller as int);
    let b2 = sat_sub(sat_sub(max_context_tokens as int, system), larger as int);
    let t1 = if b1 >= last { b1 } else { last };
    let t2 = if b2 >= last { b2 } else { last };
    assert(b2 <= b1);
    lemma_adjusted_without_count(t1 as usize, current as usize, last as usize);
    lemma_adjusted_without_count(t2 as usize, current as usize, last as usize);
    lemma_trim_monotone(rest, adjusted_target(t2 as usize, current as usize, current as usize, last as usize),
        adjusted_target(t1 as usize, current as usize, current as usize, last as usize), current);
}


/// The number of user messages in `ms`: the number of turns it holds.
pub open spec fn user_count(ms: Seq<Message>) -> nat
    decreases ms.len(),
{
    if ms.len() == 0 {
        0
    } else {
        user_count(ms.drop_last()) + if is_user(ms.last()) { 1nat } else { 0nat }
    }
}

proof fn lemma_user_positions_count(ms: Seq<Message>, n: int)
    requires
        0 <= n <= ms.len(),
    ensures
        user_positions(ms, n).len() == user_count(ms.subrange(0, n)),
        forall|j: int| 0 <= j < user_positions(ms, n).len() ==> {
            let p = #[trigger] user_positions(ms, n)[j];
            &&& 0 <= p < n
            &&& is_user(ms[p])
            &&& user_count(ms.subrange(0, p)) == j
        },
    decreases n,
{
    if n > 0 {
        lemma_user_positions_count(ms, n - 1);
        assert(ms.subrange(0, n).drop_last() =~= ms.subrange(0, n - 1));
        assert(ms.subrange(0, n).last() == ms[n - 1]);
        let prev = user_positions(ms, n - 1);
        if is_user(ms[n - 1]) {
            assert(user_positions(ms, n) == prev.push(n - 1));
            assert forall|j: int| 0 <= j < user_positions(ms, n).len() implies {
                let p = #[trigger] user_positions(ms, n)[j];
                &&& 0 <= p < n
                &&& is_user(ms[p])
                &&& user_count(ms.subrange(0, p)) == j
            } by {
                if j < prev.len() {
                    assert(user_positions(ms, n)[j] == prev[j]);
                }
            }
        }
    } else {
        assert(ms.subrange(0, 0).len() == 0);
    }
}

/// Truncation keeps whole turns. A turn starts at its user message; turn
/// `turn_index` exists when the history holds more than `turn_index` user
/// messages, and otherwise nothing is cut. When it exists, the kept prefix
/// holds exactly `turn_index + 1` user messages: with `after_user` it ends
/// with the turn's user message; without it, it keeps the whole turn and
/// stops where the next turn's user message starts, so that nothing is cut
/// from the latest turn.
pub proof fn lemma_truncation_keeps_whole_turns(ms: Seq<Message>, turn_index: usize, after_user: bool)
    ensures
        truncation_len(ms, turn_index, after_user) is None <==> user_count(ms) <= turn_index,
        truncation_len(ms, turn_index, after_user) matches Some(len) ==> {
            &&& 0 < len <= ms.len()
            &&& user_count(ms.subrange(0, len)) == turn_index + 1
            &&& after_user ==> is_user(ms[len - 1])
            &&& !after_user ==> (len == ms.len() || is_user(ms[len]))
            &&& !after_user && user_count(ms) == turn_index + 1 ==> len == ms.len()
        },
{
    lemma_user_positions_count(ms, ms.len() as int);
    assert(ms.subrange(0, ms.len() as int) =~= ms);
    let users = user_positions(ms, ms.len() as int);
    if turn_index < users.len() {
        let p = users[turn_index as int];
        assert(ms.subrange(0, p + 1).drop_last() =~= ms.subrange(0, p));
        assert(ms.subrange(0, p + 1).last() == ms[p]);
        if turn_index + 1 < users.len() {
            let q = users[turn_index + 1];
            assert(user_count(ms.subrange(0, q)) == turn_index + 1);
            assert(is_user(ms[q]));
            assert(0 <= q < ms.len());
        }
    }
}

} // verus!
