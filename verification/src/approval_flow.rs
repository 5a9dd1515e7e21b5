//! Decisions of the approval flow: which proposed changes are approved
//! automatically, how approval requests are identified, in which order an
//! approved batch runs, and what a batch changes in the session state.

use vstd::prelude::*;
use crate::labels::{ChangeOperation, TargetKind};
use crate::permissions::{Permissions, resolve_spec, PermissionKey};
use crate::tool::{ChangeReceipt, InvalidArgsError, InferredField, ProposedChange};
use crate::intake::IntakeState;
use crate::json::{json_i64_at, json_i64_field, json_str_at, json_str_field};
use crate::clock::{parse_timestamp_nanos, parsed_timestamp_nanos};
use crate::contact_policy::should_ask_postpone_reason;
use crate::session::{ApprovalRequest, DEFAULT_APPROVAL_WHY};
use crate::text::{append_str, chars_of, nat_digits, string_of, u64_to_string};
use crate::clock::{hyphenated_uuid, in_timestamp_range, new_uuid_v7};

verus! {

// ---------------------------------------------------------------------------
// Automatic approval
// ---------------------------------------------------------------------------

/// Whether a change is approved without asking: the session's permissions
/// decide when they configure the pair, else the provider's, where an
/// unconfigured pair is not allowed.
pub open spec fn auto_approved_spec(
    session: Map<PermissionKey, bool>,
    provider: Map<PermissionKey, bool>,
    target: TargetKind,
    operation: ChangeOperation,
) -> bool {
    match resolve_spec(session, target, operation) {
        Some(allowed) => allowed,
        None => resolve_spec(provider, target, operation) == Some(true),
    }
}

/// Whether the change `(target, operation)` is approved without asking.
pub fn is_auto_approved(session: &Permissions, provider: &Permissions, target: TargetKind, operation: ChangeOperation) -> (r: bool)
    ensures
        r == auto_approved_spec(session@, provider@, target, operation),
{
    match session.resolve(target, operation) {
        Some(allowed) => allowed,
        None => provider.is_allowed(target, operation),
    }
}

/// Whether every change is approved without asking.
pub fn all_changes_allowed(session: &Permissions, provider: &Permissions, changes: &[ProposedChange]) -> (r: bool)
    ensures
        r == forall|i: int| 0 <= i < changes@.len() ==>
            auto_approved_spec(session@, provider@, (#[trigger] changes@[i]).target.kind, changes@[i].operation),
{
    let mut i: usize = 0;
    while i < changes.len()
        invariant
            i <= changes@.len(),
            forall|k: int| 0 <= k < i ==>
                auto_approved_spec(session@, provider@, (#[trigger] changes@[k]).target.kind, changes@[k].operation),
        decreases changes@.len() - i,
    {
        if !is_auto_approved(session, provider, changes[i].target.kind, changes[i].operation) {
            return false;
        }
        i += 1;
    }
    true
}

// ---------------------------------------------------------------------------
// Approval request identity
// ---------------------------------------------------------------------------

/// The prefix of the proposal ids a session gives out.
pub open spec fn proposal_prefix(session_id: Seq<char>) -> Seq<char> {
    session_id + "-proposal-"@
}

/// Whether `c` is `old` with a proposal id filled in when it had none.
pub open spec fn filled_from(c: ProposedChange, old: ProposedChange, session_id: Seq<char>) -> bool {
    match old.proposal_id {
        Some(_) => c == old,
        None => c == (ProposedChange { proposal_id: c.proposal_id, ..old }) && (c.proposal_id matches Some(p)
            && p@.len() == proposal_prefix(session_id).len() + 36
            && p@.subrange(0, proposal_prefix(session_id).len() as int) == proposal_prefix(session_id)
            && hyphenated_uuid(p@.subrange(proposal_prefix(session_id).len() as int, p@.len() as int))),
    }
}

/// Give every change without a proposal id a fresh one,
/// `{session_id}-proposal-{uuid}`, the UUID in its hyphenated form.
pub fn fill_proposal_ids(session_id: &str, changes: &mut Vec<ProposedChange>)
    ensures
        final(changes)@.len() == old(changes)@.len(),
        forall|i: int| 0 <= i < final(changes)@.len() ==> filled_from(#[trigger] final(changes)@[i], old(changes)@[i], session_id@),
{
    let ghost orig = changes@;
    let mut rest: Vec<ProposedChange> = Vec::new();
    std::mem::swap(&mut rest, changes);
    let n = rest.len();
    let mut i: usize = 0;
    while i < n
        invariant
            n == orig.len(),
            i <= n,
            rest@ == orig.subrange(i as int, n as int),
            changes@.len() == i,
            forall|k: int| 0 <= k < i ==> filled_from(#[trigger] changes@[k], orig[k], session_id@),
        decreases n - i,
    {
        let mut c = rest.remove(0);
        assert(c == orig[i as int]);
        let ghost before = changes@;
        if c.proposal_id.is_none() {
            let mut p = string_of(session_id);
            append_str(&mut p, "-proposal-");
            let u = new_uuid_v7();
            append_str(&mut p, u.as_str());
            assert(p@.subrange(0, proposal_prefix(session_id@).len() as int) =~= proposal_prefix(session_id@));
            assert(p@.subrange(proposal_prefix(session_id@).len() as int, p@.len() as int) =~= u@);
            c.proposal_id = Some(p);
        }
        let ghost gc = c;
        assert(filled_from(gc, orig[i as int], session_id@));
        changes.push(c);
        assert(changes@[i as int] === gc);
        assert(forall|k: int| #![trigger changes@[k]] 0 <= k < i ==> changes@[k] === before[k]);
        i += 1;
        proof {
            assert(rest@ =~= orig.subrange(i as int, n as int));
        }
    }
}

/// The id of a session's approval request with the given sequence number.
pub open spec fn approval_id_text(session_id: Seq<char>, sequence: nat) -> Seq<char> {
    session_id + "-approval-"@ + nat_digits(sequence)
}

/// `{session_id}-approval-{sequence}`.
pub fn approval_id(session_id: &str, sequence: u64) -> (r: String)
    ensures
        r@ == approval_id_text(session_id@, sequence as nat),
{
    let mut r = string_of(session_id);
    append_str(&mut r, "-approval-");
    let d = u64_to_string(sequence);
    append_str(&mut r, d.as_str());
    r
}

/// How long an approval request stays open, in seconds.
pub const APPROVAL_TTL_SECONDS: i64 = 300;

/// The request a session makes for proposed changes at `now`, as the
/// `sequence`-th request of the session.
pub open spec fn request_for(
    r: ApprovalRequest,
    session_id: Seq<char>,
    sequence: nat,
    changes: Seq<ProposedChange>,
    inferred_fields: Seq<InferredField>,
    why: Option<String>,
    warnings: Seq<String>,
    now: i64,
) -> bool {
    &&& r.id@ == approval_id_text(session_id, sequence)
    &&& r.why@ == (match why { Some(w) => w@, None => DEFAULT_APPROVAL_WHY@ })
    &&& r.changes@.len() == changes.len()
    &&& forall|i: int| 0 <= i < changes.len() ==> filled_from(#[trigger] r.changes@[i], changes[i], session_id)
    &&& r.inferred_fields@ == inferred_fields
    &&& r.warnings@ == warnings
    &&& r.expires_at == now + APPROVAL_TTL_SECONDS
}

/// Make the approval request for proposed changes at `now`: none when there
/// is nothing to approve; otherwise the session's next request, with every
/// change given a proposal id and an expiry five minutes on.
pub fn make_approval_request(
    session_id: &str,
    sequence: &mut u64,
    changes: Vec<ProposedChange>,
    inferred_fields: Vec<InferredField>,
    why: Option<String>,
    warnings: Vec<String>,
    now: i64,
) -> (r: Option<ApprovalRequest>)
    requires
        changes@.len() > 0 ==> *old(sequence) < u64::MAX && in_timestamp_range(now + APPROVAL_TTL_SECONDS),
    ensures
        changes@.len() == 0 ==> r is None && *final(sequence) == *old(sequence),
        changes@.len() > 0 ==> *final(sequence) == *old(sequence) + 1 && (r matches Some(req) && request_for(
            req, session_id@, *final(sequence) as nat, changes@, inferred_fields@, why, warnings@, now)),
{
    if changes.len() == 0 {
        return None;
    }
    let mut changes = changes;
    fill_proposal_ids(session_id, &mut changes);
    *sequence = *sequence + 1;
    let id = approval_id(session_id, *sequence);
    let why = match why {
        Some(w) => w,
        None => string_of(DEFAULT_APPROVAL_WHY),
    };
    Some(ApprovalRequest {
        id,
        why,
        changes,
        inferred_fields,
        warnings,
        expires_at: now + APPROVAL_TTL_SECONDS,
    })
}

/// The sequence number in a digit text: `str::parse::<u64>`, which takes an
/// optional leading `+` and at least one ASCII digit, and refuses values
/// beyond `u64::MAX`.
pub open spec fn parse_u64_spec(s: Seq<char>) -> Option<u64> {
    let d = unsigned_part(s);
    if d.len() == 0 || !all_digits(d) {
        None
    } else if digits_value(d) > u64::MAX {
        None
    } else {
        Some(digits_value(d) as u64)
    }
}

/// The text without its optional leading `+`.
pub open spec fn unsigned_part(s: Seq<char>) -> Seq<char> {
    if s.len() > 0 && s[0] == '+' { s.drop_first() } else { s }
}

pub open spec fn is_digit(c: char) -> bool {
    '0' <= c <= '9'
}

/// Whether every character is an ASCII digit.
pub open spec fn all_digits(d: Seq<char>) -> bool {
    forall|i: int| 0 <= i < d.len() ==> is_digit(#[trigger] d[i])
}

/// The value of a text of decimal digits.
pub open spec fn digits_value(d: Seq<char>) -> nat
    decreases d.len(),
{
    if d.len() == 0 {
        0
    } else {
        digits_value(d.drop_last()) * 10 + ((d.last() as u32) - ('0' as u32)) as nat
    }
}

fn parse_u64(s: &str) -> (r: Option<u64>)
    ensures
        r == parse_u64_spec(s@),
{
    let v = chars_of(s);
    let mut start: usize = 0;
    if v.len() > 0 && v[0] == '+' {
        start = 1;
    }
    let ghost d = unsigned_part(s@);
    assert(d =~= v@.subrange(start as int, v@.len() as int));
    if start == v.len() {
        return None;
    }
    let mut value: u128 = 0;
    let mut overflow = false;
    let mut i: usize = start;
    while i < v.len()
        invariant
            v@ == s@,
            start <= i <= v@.len(),
            start < v@.len(),
            d == v@.subrange(start as int, v@.len() as int),
            d == unsigned_part(s@),
            forall|k: int| start <= k < i ==> '0' <= #[trigger] v@[k] <= '9',
            !overflow ==> value == digits_value(v@.subrange(start as int, i as int)) && value <= u64::MAX,
            overflow ==> digits_value(v@.subrange(start as int, i as int)) > u64::MAX,
        decreases v@.len() - i,
    {
        let c = v[i];
        if !('0' <= c && c <= '9') {
            proof {
                let j = i - start;
                assert(d[j] == c);
                assert(!is_digit(d[j]));
                assert(!all_digits(d));
            }
            return None;
        }
        let digit: u128 = ((c as u32) - ('0' as u32)) as u128;
        let ghost prefix = v@.subrange(start as int, i as int);
        let ghost next = v@.subrange(start as int, i as int + 1);
        assert(next.drop_last() =~= prefix);
        assert(next.last() == c);
        if !overflow {
            value = value * 10 + digit;
            if value > u64::MAX as u128 {
                overflow = true;
            }
        } else {
            assert(digits_value(next) >= digits_value(prefix) * 10) by (nonlinear_arith)
                requires
                    digits_value(next) == digits_value(prefix) * 10 + ((c as u32) - ('0' as u32)) as nat,
            ;
        }
        i += 1;
    }
    assert(v@.subrange(start as int, v@.len() as int) == d);
    assert forall|k: int| 0 <= k < d.len() implies is_digit(#[trigger] d[k]) by {
        assert(d[k] == v@[start + k]);
    }
    if overflow {
        None
    } else {
        Some(value as u64)
    }
}

/// The decimal digits of a number are non-empty digits that read back as
/// the number.
pub proof fn lemma_digits_round_trip(n: nat)
    ensures
        nat_digits(n).len() > 0,
        all_digits(nat_digits(n)),
        digits_value(nat_digits(n)) == n,
    decreases n,
{
    let d = nat_digits(n);
    let c = crate::text::digit_char(n % 10);
    assert(is_digit(c) && (c as u32) - ('0' as u32) == n % 10);
    assert(n == (n / 10) * 10 + n % 10) by (nonlinear_arith);
    if n < 10 {
        assert(d == seq![c]);
        assert(d.drop_last() =~= Seq::<char>::empty());
        assert(digits_value(d) == digits_value(d.drop_last()) * 10 + ((d.last() as u32) - ('0' as u32)) as nat);
        assert(digits_value(Seq::<char>::empty()) == 0);
    } else {
        lemma_digits_round_trip(n / 10);
        let p = nat_digits(n / 10);
        assert(d == p.push(c));
        assert(d.drop_last() =~= p);
        assert(digits_value(d) == digits_value(p) * 10 + ((c as u32) - ('0' as u32)) as nat);
        assert forall|i: int| 0 <= i < d.len() implies is_digit(#[trigger] d[i]) by {
            if i < p.len() {
                assert(d[i] == p[i]);
            }
        }
    }
}

/// An approval id that a session gives out reads back as its sequence
/// number: it carries the session's prefix, and the rest parses to the
/// number.
pub proof fn lemma_approval_id_round_trip(session_id: Seq<char>, sequence: u64)
    ensures
        ({
            let id = approval_id_text(session_id, sequence as nat);
            let prefix = session_id + "-approval-"@;
            &&& prefix.len() <= id.len()
            &&& id.subrange(0, prefix.len() as int) == prefix
            &&& parse_u64_spec(id.subrange(prefix.len() as int, id.len() as int)) == Some(sequence)
        }),
{
    let id = approval_id_text(session_id, sequence as nat);
    let prefix = session_id + "-approval-"@;
    let digits = nat_digits(sequence as nat);
    assert(id.subrange(0, prefix.len() as int) =~= prefix);
    assert(id.subrange(prefix.len() as int, id.len() as int) =~= digits);
    lemma_digits_round_trip(sequence as nat);
    assert(digits[0] != '+') by {
        assert(is_digit(digits[0]));
    }
    assert(unsigned_part(digits) == digits);
}

/// The sequence number of one of this session's approval request ids;
/// refused for another session's id or a non-numeric sequence.
pub fn approval_sequence_of(session_id: &str, id: &str) -> (r: Result<u64, InvalidArgsError>)
    ensures
        ({
            let prefix = session_id@ + "-approval-"@;
            if !(prefix.len() <= id@.len() && id@.subrange(0, prefix.len() as int) == prefix) {
                r matches Err(InvalidArgsError::Field { field, reason }) && field@ == "id"@
                    && reason@ == "approval id must belong to this session"@
            } else {
                match parse_u64_spec(id@.subrange(prefix.len() as int, id@.len() as int)) {
                    Some(n) => r == Ok::<u64, InvalidArgsError>(n),
                    None => r matches Err(InvalidArgsError::Field { field, reason }) && field@ == "id"@
                        && reason@ == "approval id must end with a numeric sequence"@,
                }
            }
        }),
{
    let mut prefix = string_of(session_id);
    append_str(&mut prefix, "-approval-");
    let p = chars_of(prefix.as_str());
    let v = chars_of(id);
    let mut matches = p.len() <= v.len();
    let mut k: usize = 0;
    while matches && k < p.len()
        invariant
            p@ == prefix@,
            v@ == id@,
            matches ==> p@.len() <= v@.len(),
            k <= p@.len(),
            matches ==> k <= p@.len() && forall|j: int| 0 <= j < k ==> p@[j] == v@[j],
            !matches ==> !(p@.len() <= v@.len() && v@.subrange(0, p@.len() as int) == p@),
        decreases p@.len() - k,
    {
        if p[k] != v[k] {
            proof {
                if p@.len() <= v@.len() && v@.subrange(0, p@.len() as int) == p@ {
                    assert(v@.subrange(0, p@.len() as int)[k as int] == v@[k as int]);
                }
            }
            matches = false;
        }
        k += 1;
    }
    if !matches {
        return Err(InvalidArgsError::new("id", "approval id must belong to this session"));
    }
    assert(v@.subrange(0, p@.len() as int) =~= p@);
    let rest = crate::text::string_from_range(&v, p.len(), v.len());
    match parse_u64(rest.as_str()) {
        Some(n) => Ok(n),
        None => Err(InvalidArgsError::new("id", "approval id must end with a numeric sequence")),
    }
}

// ---------------------------------------------------------------------------
// Executing an approved batch
// ---------------------------------------------------------------------------

pub open spec fn is_coverage(c: ProposedChange) -> bool {
    c.target.kind == TargetKind::Coverage
}

/// The changes of the batch that pass `keep`, in order.
pub open spec fn coverage_filter(cs: Seq<ProposedChange>, coverage: bool) -> Seq<ProposedChange>
    decreases cs.len(),
{
    if cs.len() == 0 {
        cs
    } else if is_coverage(cs.last()) == coverage {
        coverage_filter(cs.drop_last(), coverage).push(cs.last())
    } else {
        coverage_filter(cs.drop_last(), coverage)
    }
}

/// The order an approved batch runs in: coverage confirmations last, so that
/// a schedule the batch replaces is committed before a confirmation records
/// it; otherwise the order of the request.
pub fn execution_order(changes: Vec<ProposedChange>) -> (r: Vec<ProposedChange>)
    ensures
        r@ == coverage_filter(changes@, false) + coverage_filter(changes@, true),
{
    let ghost orig = changes@;
    let n = changes.len();
    let mut rest = changes;
    let mut first: Vec<ProposedChange> = Vec::new();
    let mut last: Vec<ProposedChange> = Vec::new();
    let mut i: usize = 0;
    while i < n
        invariant
            n == orig.len(),
            i <= n,
            rest@ == orig.subrange(i as int, n as int),
            first@ == coverage_filter(orig.subrange(0, i as int), false),
            last@ == coverage_filter(orig.subrange(0, i as int), true),
        decreases n - i,
    {
        let c = rest.remove(0);
        proof {
            let s = orig.subrange(0, i as int + 1);
            assert(s.drop_last() =~= orig.subrange(0, i as int));
            assert(s.last() == c);
        }
        if c.target.kind == TargetKind::Coverage {
            last.push(c);
        } else {
            first.push(c);
        }
        i += 1;
        proof {
            assert(rest@ =~= orig.subrange(i as int, n as int));
        }
    }
    assert(orig.subrange(0, n as int) =~= orig);
    first.append(&mut last);
    first
}

/// Whether a change replaces the schedule.
pub open spec fn commits_schedule_spec(c: ProposedChange) -> bool {
    c.target.kind == TargetKind::Schedule && (c.operation == ChangeOperation::Generate
        || c.operation == ChangeOperation::Reschedule || c.operation == ChangeOperation::Settle)
}

/// Whether the batch may replace the schedule, so that it is saved first and
/// restored on a partial failure.
pub fn commits_schedule(changes: &[ProposedChange]) -> (r: bool)
    ensures
        r == exists|i: int| 0 <= i < changes@.len() && commits_schedule_spec(#[trigger] changes@[i]),
{
    let mut i: usize = 0;
    while i < changes.len()
        invariant
            i <= changes@.len(),
            forall|k: int| 0 <= k < i ==> !commits_schedule_spec(#[trigger] changes@[k]),
        decreases changes@.len() - i,
    {
        let c = &changes[i];
        if c.target.kind == TargetKind::Schedule && (c.operation == ChangeOperation::Generate
            || c.operation == ChangeOperation::Reschedule || c.operation == ChangeOperation::Settle) {
            return true;
        }
        i += 1;
    }
    false
}

pub open spec fn touches_plan(c: ProposedChange) -> bool {
    c.target.kind == TargetKind::Task || c.target.kind == TargetKind::Habit
}

/// Whether the schedule needs regenerating after a successful batch: a batch
/// that replaced the schedule leaves it fresh; otherwise changed tasks or
/// habits make it stale, and a stale schedule stays stale.
pub fn batch_schedule_dirty(was_dirty: bool, executed: &[ProposedChange], schedule_committed: bool) -> (r: bool)
    ensures
        r == (!schedule_committed && (was_dirty
            || exists|i: int| 0 <= i < executed@.len() && touches_plan(#[trigger] executed@[i]))),
{
    if schedule_committed {
        return false;
    }
    let mut dirty = was_dirty;
    let mut i: usize = 0;
    while i < executed.len()
        invariant
            i <= executed@.len(),
            dirty == (was_dirty || exists|k: int| 0 <= k < i && touches_plan(#[trigger] executed@[k])),
        decreases executed@.len() - i,
    {
        let k = executed[i].target.kind;
        if k == TargetKind::Task || k == TargetKind::Habit {
            dirty = true;
        }
        i += 1;
    }
    dirty
}

/// The message telling the model that applying an approved change failed.
pub open spec fn batch_failure_text(auto: bool, error: Seq<char>, description: Seq<char>) -> Seq<char> {
    (if auto {
        "自動承認された変更の適用中にエラーが発生しました: "@
    } else {
        "ユーザーは以下の提案を承認しましたが、変更の適用中にエラーが発生しました: "@
    }) + error + "\n- "@ + description
}

/// The message telling the model that applying an approved change failed,
/// with the error and the change's description.
pub fn batch_failure_message(auto: bool, error: &str, description: &str) -> (r: String)
    ensures
        r@ == batch_failure_text(auto, error@, description@),
{
    let mut r = if auto {
        string_of("自動承認された変更の適用中にエラーが発生しました: ")
    } else {
        string_of("ユーザーは以下の提案を承認しましたが、変更の適用中にエラーが発生しました: ")
    };
    append_str(&mut r, error);
    append_str(&mut r, "\n- ");
    append_str(&mut r, description);
    r
}

// ---------------------------------------------------------------------------
// The intake interview after a batch
// ---------------------------------------------------------------------------

/// Whether a change confirms coverage.
pub open spec fn confirms_coverage(c: ProposedChange) -> bool {
    c.target.kind == TargetKind::Coverage && c.operation == ChangeOperation::Confirm
}

/// Whether a change creates something for the intake proposal.
pub open spec fn belongs_to_intake(c: ProposedChange, proposal: Option<String>) -> bool {
    !confirms_coverage(c) && c.operation == ChangeOperation::Create
        && (proposal matches Some(a) && (c.proposal_id matches Some(b) && a@ == b@))
}

/// The display id a receipt reports, as the intake records it: `#n` for a
/// task, `hn` for a habit, else `n`.
pub open spec fn collected_id(c: ProposedChange, r: ChangeReceipt) -> Option<Seq<char>> {
    match r.after {
        Some(after) => match json_i64_at(after@, "display_id"@) {
            Some(id) => Some(
                if c.target.kind == TargetKind::Task {
                    "#"@ + crate::text::int_digits(id as int)
                } else if c.target.kind == TargetKind::Habit {
                    "h"@ + crate::text::int_digits(id as int)
                } else {
                    crate::text::int_digits(id as int)
                },
            ),
            None => None,
        },
        None => None,
    }
}

/// The collected ids after the first `n` changes of a batch.
pub open spec fn collected_after(
    ids: Seq<Seq<char>>,
    proposal: Option<String>,
    cs: Seq<ProposedChange>,
    rs: Seq<ChangeReceipt>,
    n: int,
) -> Seq<Seq<char>>
    decreases n,
{
    if n <= 0 {
        ids
    } else {
        let prev = collected_after(ids, proposal, cs, rs, n - 1);
        if belongs_to_intake(cs[n - 1], proposal) && (collected_id(cs[n - 1], rs[n - 1]) matches Some(x) && !prev.contains(x)) {
            prev.push(collected_id(cs[n - 1], rs[n - 1]).unwrap())
        } else {
            prev
        }
    }
}

pub open spec fn string_views(v: Seq<String>) -> Seq<Seq<char>> {
    v.map_values(|x: String| x@)
}

fn collected_id_exec(c: &ProposedChange, r: &ChangeReceipt) -> (x: Option<String>)
    ensures
        match collected_id(*c, *r) {
            Some(t) => x matches Some(s) && s@ == t,
            None => x is None,
        },
{
    match &r.after {
        Some(after) => match json_i64_field(after.as_str(), "display_id") {
            Some(id) => {
                let digits = crate::text::i64_to_string(id);
                let mut s = if c.target.kind == TargetKind::Task {
                    string_of("#")
                } else if c.target.kind == TargetKind::Habit {
                    string_of("h")
                } else {
                    String::new()
                };
                append_str(&mut s, digits.as_str());
                Some(s)
            },
            None => None,
        },
        None => None,
    }
}

fn contains_text(v: &Vec<String>, x: &String) -> (r: bool)
    ensures
        r == string_views(v@).contains(x@),
{
    let mut i: usize = 0;
    while i < v.len()
        invariant
            i <= v@.len(),
            forall|k: int| 0 <= k < i ==> (#[trigger] v@[k])@ != x@,
        decreases v@.len() - i,
    {
        if crate::text::str_eq(v[i].as_str(), x.as_str()) {
            assert(string_views(v@)[i as int] == x@);
            return true;
        }
        i += 1;
    }
    proof {
        if string_views(v@).contains(x@) {
            let k = choose|k: int| 0 <= k < string_views(v@).len() && string_views(v@)[k] == x@;
            assert(v@[k]@ == x@);
        }
    }
    false
}

/// Record a successful batch in the intake interview: the display ids of
/// what the batch created for the intake proposal join the collected ids
/// (once each), and a committed coverage confirmation settles the pending
/// coverage question. Changes are paired with receipts in order.
pub fn update_intake_state_from_batch(state: &mut IntakeState, changes: &[ProposedChange], receipts: &[ChangeReceipt])
    ensures
        ({
            let n = if changes@.len() <= receipts@.len() { changes@.len() as int } else { receipts@.len() as int };
            &&& final(state).stage == old(state).stage
            &&& final(state).proposal_id == old(state).proposal_id
            &&& final(state).coverage_pending == (old(state).coverage_pending
                && !exists|i: int| 0 <= i < n && confirms_coverage(#[trigger] changes@[i]))
            &&& string_views(final(state).collected_ids@)
                == collected_after(string_views(old(state).collected_ids@), old(state).proposal_id, changes@, receipts@, n)
        }),
{
    let n = if changes.len() <= receipts.len() { changes.len() } else { receipts.len() };
    let ghost ids0 = string_views(state.collected_ids@);
    let ghost proposal = state.proposal_id;
    let mut confirmed = false;
    let mut i: usize = 0;
    while i < n
        invariant
            n <= changes@.len(),
            n <= receipts@.len(),
            i <= n,
            proposal == state.proposal_id,
            state.stage == old(state).stage,
            state.proposal_id == old(state).proposal_id,
            state.coverage_pending == old(state).coverage_pending,
            ids0 == string_views(old(state).collected_ids@),
            confirmed == exists|k: int| 0 <= k < i && confirms_coverage(#[trigger] changes@[k]),
            string_views(state.collected_ids@) == collected_after(ids0, proposal, changes@, receipts@, i as int),
        decreases n - i,
    {
        let c = &changes[i];
        if c.target.kind == TargetKind::Coverage && c.operation == ChangeOperation::Confirm {
            confirmed = true;
        } else {
            let matches_intake = match (&state.proposal_id, &c.proposal_id) {
                (Some(a), Some(b)) => crate::text::str_eq(a.as_str(), b.as_str()),
                _ => false,
            };
            if matches_intake && c.operation == ChangeOperation::Create {
                match collected_id_exec(c, &receipts[i]) {
                    Some(x) => {
                        if !contains_text(&state.collected_ids, &x) {
                            let ghost before = state.collected_ids@;
                            state.collected_ids.push(x);
                            assert(string_views(state.collected_ids@) =~= string_views(before).push(x@));
                        }
                    },
                    None => {},
                }
            }
        }
        i += 1;
    }
    if confirmed {
        state.coverage_pending = false;
    }
}

// ---------------------------------------------------------------------------
// Postpone reasons
// ---------------------------------------------------------------------------

/// Whole minutes from `now` to `target` (both Unix seconds), or 0 when the
/// target is not later.
pub open spec fn minutes_until(target: int, now: int) -> int {
    if target - now > 0 { (target - now) / 60 } else { 0 }
}

/// Unix seconds of a nanosecond timestamp, truncated toward zero.
pub open spec fn seconds_of_nanos(n: i128) -> int {
    if n >= 0 { n / 1_000_000_000 } else { -((-n) / 1_000_000_000) }
}

/// The seconds of a timestamp text, if it is one and they fit an `i64`.
pub open spec fn timestamp_seconds(text: Seq<char>) -> Option<int> {
    match parsed_timestamp_nanos(text) {
        Some(n) => if i64::MIN <= seconds_of_nanos(n) <= i64::MAX { Some(seconds_of_nanos(n)) } else { None },
        None => None,
    }
}

/// How far a move or snooze postpones the task, in minutes, read from its
/// arguments: `snooze_minutes`, else the minutes until `snooze_target`,
/// else until `start_at`.
pub open spec fn postpone_minutes_spec(args: Seq<char>, now: i64) -> Option<int> {
    match json_i64_at(args, "snooze_minutes"@) {
        Some(m) => Some(m as int),
        None => {
            let target = match json_str_at(args, "snooze_target"@) {
                Some(t) => timestamp_seconds(t),
                None => None,
            };
            match target {
                Some(t) => Some(minutes_until(t, now as int)),
                None => match json_str_at(args, "start_at"@) {
                    Some(t) => match timestamp_seconds(t) {
                        Some(s) => Some(minutes_until(s, now as int)),
                        None => None,
                    },
                    None => None,
                },
            }
        },
    }
}

fn timestamp_seconds_exec(text: &str) -> (r: Option<i64>)
    ensures
        match timestamp_seconds(text@) {
            Some(s) => r matches Some(v) && v == s,
            None => r is None,
        },
{
    match parse_timestamp_nanos(text) {
        Some(n) => {
            if n == i128::MIN {
                return None;
            }
            let q: i128 = if n >= 0 { n / 1_000_000_000 } else { -((-n) / 1_000_000_000) };
            if q < i64::MIN as i128 || q > i64::MAX as i128 {
                None
            } else {
                Some(q as i64)
            }
        },
        None => None,
    }
}

fn minutes_until_exec(target: i64, now: i64) -> (m: i64)
    ensures
        m == minutes_until(target as int, now as int),
{
    let d: i128 = target as i128 - now as i128;
    if d > 0 {
        (d / 60) as i64
    } else {
        0
    }
}

/// How far a move or snooze postpones the task, in minutes, from its
/// arguments (JSON text) at `now`; none when the arguments say nothing of
/// it.
pub fn postpone_minutes(arguments: &str, now: i64) -> (r: Option<i64>)
    ensures
        match postpone_minutes_spec(arguments@, now) {
            Some(m) => r matches Some(v) && v == m,
            None => r is None,
        },
{
    if let Some(m) = json_i64_field(arguments, "snooze_minutes") {
        return Some(m);
    }
    let target = match json_str_field(arguments, "snooze_target") {
        Some(t) => timestamp_seconds_exec(t.as_str()),
        None => None,
    };
    match target {
        Some(t) => Some(minutes_until_exec(t, now)),
        None => match json_str_field(arguments, "start_at") {
            Some(t) => match timestamp_seconds_exec(t.as_str()) {
                Some(s) => Some(minutes_until_exec(s, now)),
                None => None,
            },
            None => None,
        },
    }
}

/// The postponement of a change that asks for a reason: a move or snooze of
/// a task by more than the short-snooze threshold.
pub open spec fn asks_reason(c: ProposedChange, now: i64) -> Option<int> {
    if c.target.kind == TargetKind::Task && (c.operation == ChangeOperation::Move || c.operation == ChangeOperation::Snooze) {
        match c.arguments {
            Some(args) => match postpone_minutes_spec(args@, now) {
                Some(m) => if m > 30 { Some(m) } else { None },
                None => None,
            },
            None => None,
        }
    } else {
        None
    }
}

/// The tasks (by display id) and minutes of the first `n` changes that ask
/// for a postpone reason.
pub open spec fn reason_requests(cs: Seq<ProposedChange>, now: i64, n: int) -> Seq<(Seq<char>, int)>
    decreases n,
{
    if n <= 0 {
        Seq::empty()
    } else {
        let prev = reason_requests(cs, now, n - 1);
        match asks_reason(cs[n - 1], now) {
            Some(m) => prev.push((cs[n - 1].target.display_id@, m)),
            None => prev,
        }
    }
}

/// The postpone-reason check-ins that executed changes call for, as the
/// task's display id and the minutes it moved, in order.
pub fn postpone_reason_requests(changes: &[ProposedChange], now: i64) -> (r: Vec<(String, i64)>)
    ensures
        r@.len() == reason_requests(changes@, now, changes@.len() as int).len(),
        forall|i: int| 0 <= i < r@.len() ==> ((#[trigger] r@[i]).0@, r@[i].1 as int) == reason_requests(changes@, now, changes@.len() as int)[i],
{
    let mut out: Vec<(String, i64)> = Vec::new();
    let mut i: usize = 0;
    while i < changes.len()
        invariant
            i <= changes@.len(),
            out@.len() == reason_requests(changes@, now, i as int).len(),
            forall|k: int| 0 <= k < out@.len() ==> ((#[trigger] out@[k]).0@, out@[k].1 as int) == reason_requests(changes@, now, i as int)[k],
        decreases changes@.len() - i,
    {
        let c = &changes[i];
        if c.target.kind == TargetKind::Task && (c.operation == ChangeOperation::Move || c.operation == ChangeOperation::Snooze) {
            match &c.arguments {
                Some(args) => match postpone_minutes(args.as_str(), now) {
                    Some(m) => {
                        if should_ask_postpone_reason(m) {
                            out.push((string_of(c.target.display_id.as_str()), m));
                        }
                    },
                    None => {},
                },
                None => {},
            }
        }
        i += 1;
    }
    out
}

} // verus!
