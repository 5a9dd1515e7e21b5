//! Per-tool usage counters.
//!
//! The counters live in memory; persisting them (and sharing one
//! accumulator across a process) is the host's business.

use vstd::prelude::*;
use crate::clock::now_text;
use crate::text::string_of;

verus! {

/// Usage of one tool.
#[derive(Debug, Clone)]
pub struct ToolStat {
    pub count: u64,
    pub error_count: u64,
    pub last_used: Option<String>,
}

impl Default for ToolStat {
    fn default() -> (r: Self)
        ensures
            r.count == 0,
            r.error_count == 0,
            r.last_used is None,
    {
        ToolStat { count: 0, error_count: 0, last_used: None }
    }
}

/// Usage of every tool used so far, by tool name.
#[derive(Debug, Clone)]
pub struct ToolStatsSnapshot {
    pub tools: Vec<(String, ToolStat)>,
}

impl Default for ToolStatsSnapshot {
    fn default() -> (r: Self)
        ensures
            r.tools@.len() == 0,
    {
        ToolStatsSnapshot { tools: Vec::new() }
    }
}

/// Index of the entry for `name` at or after `i`.
pub open spec fn stat_index(tools: Seq<(String, ToolStat)>, name: Seq<char>, i: int) -> Option<int>
    decreases tools.len() - i,
{
    if i < 0 || i >= tools.len() {
        None
    } else if tools[i].0@ == name {
        Some(i)
    } else {
        stat_index(tools, name, i + 1)
    }
}

/// The counts recorded for `name`: (uses, errors, whether a last use is
/// recorded).
pub open spec fn stat_counts(tools: Seq<(String, ToolStat)>, name: Seq<char>) -> Option<(u64, u64, bool)> {
    match stat_index(tools, name, 0) {
        Some(k) => Some((tools[k].1.count, tools[k].1.error_count, tools[k].1.last_used is Some)),
        None => None,
    }
}

proof fn lemma_stat_index(tools: Seq<(String, ToolStat)>, name: Seq<char>, i: int)
    requires
        0 <= i,
    ensures
        stat_index(tools, name, i) matches Some(k) ==> i <= k < tools.len() && tools[k].0@ == name,
        stat_index(tools, name, i) is None ==> forall|k: int| i <= k < tools.len() ==> (#[trigger] tools[k]).0@ != name,
    decreases tools.len() - i,
{
    if i < tools.len() && tools[i].0@ != name {
        lemma_stat_index(tools, name, i + 1);
    }
}

proof fn lemma_stat_index_is_first(tools: Seq<(String, ToolStat)>, name: Seq<char>, i: int)
    requires
        0 <= i,
    ensures
        stat_index(tools, name, i) matches Some(k) ==> forall|j: int| i <= j < k ==> (#[trigger] tools[j]).0@ != name,
    decreases tools.len() - i,
{
    if i < tools.len() && tools[i].0@ != name {
        lemma_stat_index_is_first(tools, name, i + 1);
    }
}

proof fn lemma_stat_index_first(tools: Seq<(String, ToolStat)>, name: Seq<char>, i: int, k: int)
    requires
        0 <= i <= k < tools.len(),
        tools[k].0@ == name,
        forall|j: int| i <= j < k ==> (#[trigger] tools[j]).0@ != name,
    ensures
        stat_index(tools, name, i) == Some(k),
    decreases k - i,
{
    if i < k {
        lemma_stat_index_first(tools, name, i + 1, k);
    }
}

impl ToolStatsSnapshot {
    /// The usage of `name`, if it was used.
    pub fn get(&self, name: &str) -> (r: Option<&ToolStat>)
        ensures
            match stat_index(self.tools@, name@, 0) {
                Some(k) => r == Some(&self.tools@[k].1),
                None => r is None,
            },
    {
        match find_stat(&self.tools, name) {
            Some(k) => Some(&self.tools[k].1),
            None => None,
        }
    }

    /// Whether no tool was used.
    pub fn is_empty(&self) -> (r: bool)
        ensures
            r == (self.tools@.len() == 0),
    {
        self.tools.len() == 0
    }
}

fn find_stat(tools: &Vec<(String, ToolStat)>, name: &str) -> (r: Option<usize>)
    ensures
        match r {
            Some(k) => k < tools@.len() && stat_index(tools@, name@, 0) == Some(k as int),
            None => stat_index(tools@, name@, 0) is None,
        },
{
    let mut k: usize = 0;
    while k < tools.len()
        invariant
            k <= tools@.len(),
            stat_index(tools@, name@, 0) == stat_index(tools@, name@, k as int),
        decreases tools@.len() - k,
    {
        if crate::text::str_eq(tools[k].0.as_str(), name) {
            return Some(k);
        }
        k += 1;
    }
    None
}

fn copy_stat(s: &ToolStat) -> (r: ToolStat)
    ensures
        r.count == s.count,
        r.error_count == s.error_count,
        r.last_used is Some == s.last_used is Some,
        s.last_used matches Some(t) ==> r.last_used matches Some(u) && u@ == t@,
{
    ToolStat {
        count: s.count,
        error_count: s.error_count,
        last_used: match &s.last_used { Some(t) => Some(string_of(t.as_str())), None => None },
    }
}

/// In-memory tool usage counters.
#[derive(Debug)]
pub struct ToolStats {
    inner: ToolStatsSnapshot,
}

impl ToolStats {
    /// The recorded entries, by tool name.
    pub closed spec fn entries(self) -> Seq<(String, ToolStat)> {
        self.inner.tools@
    }

    /// Counters starting from a stored snapshot.
    pub fn from_snapshot(snapshot: ToolStatsSnapshot) -> (r: Self)
        ensures
            r.entries() == snapshot.tools@,
    {
        ToolStats { inner: snapshot }
    }

    /// Empty counters.
    pub fn new() -> (r: Self)
        ensures
            r.entries().len() == 0,
    {
        ToolStats { inner: ToolStatsSnapshot { tools: Vec::new() } }
    }

    /// Count one use of `tool_name`, and an error when `is_error`, stamping
    /// its last use with `now`.
    pub fn record_at(&mut self, tool_name: &str, is_error: bool, now: String)
        requires
            stat_counts(old(self).entries(), tool_name@) matches Some((c, e, _)) ==> c < u64::MAX && (is_error ==> e < u64::MAX),
        ensures
            stat_counts(final(self).entries(), tool_name@) == Some(match stat_counts(old(self).entries(), tool_name@) {
                Some((c, e, _)) => ((c + 1) as u64, (if is_error { e + 1 } else { e as int }) as u64, true),
                None => (1u64, if is_error { 1u64 } else { 0u64 }, true),
            }),
            forall|other: Seq<char>| other != tool_name@ ==>
                #[trigger] stat_counts(final(self).entries(), other) == stat_counts(old(self).entries(), other),
    {
        let ghost old_tools = self.inner.tools@;
        match find_stat(&self.inner.tools, tool_name) {
            Some(k) => {
                let (name, stat) = self.inner.tools.remove(k);
                let updated = ToolStat {
                    count: stat.count + 1,
                    error_count: if is_error { stat.error_count + 1 } else { stat.error_count },
                    last_used: Some(now),
                };
                self.inner.tools.insert(k, (name, updated));
                proof {
                    let t = self.inner.tools@;
                    assert(t == old_tools.update(k as int, t[k as int]));
                    lemma_stat_index(old_tools, tool_name@, 0);
                    lemma_stat_index_is_first(old_tools, tool_name@, 0);
                    assert forall|j: int| 0 <= j < k ==> (#[trigger] t[j]).0@ != tool_name@ by {
                        if 0 <= j < k {
                            assert(t[j] == old_tools[j]);
                        }
                    }
                    lemma_stat_index_first(t, tool_name@, 0, k as int);
                    assert forall|other: Seq<char>| other != tool_name@ implies
                        #[trigger] stat_counts(t, other) == stat_counts(old_tools, other) by {
                        lemma_same_names_index(old_tools, t, k as int, other, 0);
                    }
                }
            },
            None => {
                let stat = ToolStat {
                    count: 1,
                    error_count: if is_error { 1 } else { 0 },
                    last_used: Some(now),
                };
                self.inner.tools.push((string_of(tool_name), stat));
                proof {
                    let t = self.inner.tools@;
                    lemma_stat_index(old_tools, tool_name@, 0);
                    assert forall|j: int| 0 <= j < old_tools.len() ==> (#[trigger] t[j]).0@ != tool_name@ by {
                        if 0 <= j < old_tools.len() {
                            assert(t[j] == old_tools[j]);
                        }
                    }
                    lemma_stat_index_first(t, tool_name@, 0, old_tools.len() as int);
                    assert forall|other: Seq<char>| other != tool_name@ implies
                        #[trigger] stat_counts(t, other) == stat_counts(old_tools, other) by {
                        lemma_push_index(old_tools, t, other, 0);
                    }
                }
            },
        }
    }

    /// Count one use of `tool_name` now.
    pub fn record(&mut self, tool_name: &str, is_error: bool)
        requires
            stat_counts(old(self).entries(), tool_name@) matches Some((c, e, _)) ==> c < u64::MAX && (is_error ==> e < u64::MAX),
        ensures
            stat_counts(final(self).entries(), tool_name@) == Some(match stat_counts(old(self).entries(), tool_name@) {
                Some((c, e, _)) => ((c + 1) as u64, (if is_error { e + 1 } else { e as int }) as u64, true),
                None => (1u64, if is_error { 1u64 } else { 0u64 }, true),
            }),
            forall|other: Seq<char>| other != tool_name@ ==>
                #[trigger] stat_counts(final(self).entries(), other) == stat_counts(old(self).entries(), other),
    {
        let now = now_text();
        self.record_at(tool_name, is_error, now);
    }

    /// A copy of the counters.
    pub fn snapshot(&self) -> (r: ToolStatsSnapshot)
        ensures
            r.tools@.len() == self.entries().len(),
            forall|name: Seq<char>| #[trigger] stat_counts(r.tools@, name) == stat_counts(self.entries(), name),
    {
        let mut tools: Vec<(String, ToolStat)> = Vec::new();
        let mut i: usize = 0;
        while i < self.inner.tools.len()
            invariant
                i <= self.inner.tools@.len(),
                tools@.len() == i,
                forall|j: int| 0 <= j < i ==> {
                    &&& (#[trigger] tools@[j]).0@ == self.inner.tools@[j].0@
                    &&& tools@[j].1.count == self.inner.tools@[j].1.count
                    &&& tools@[j].1.error_count == self.inner.tools@[j].1.error_count
                    &&& (tools@[j].1.last_used is Some) == (self.inner.tools@[j].1.last_used is Some)
                },
            decreases self.inner.tools@.len() - i,
        {
            let name = string_of(self.inner.tools[i].0.as_str());
            let stat = copy_stat(&self.inner.tools[i].1);
            tools.push((name, stat));
            i += 1;
        }
        proof {
            assert forall|name: Seq<char>| #[trigger] stat_counts(tools@, name) == stat_counts(self.inner.tools@, name) by {
                lemma_copied_index(self.inner.tools@, tools@, name, 0);
            }
        }
        ToolStatsSnapshot { tools }
    }

    /// Forget every counter.
    pub fn clear(&mut self)
        ensures
            final(self).entries().len() == 0,
    {
        self.inner.tools = Vec::new();
    }
}

proof fn lemma_same_names_index(a: Seq<(String, ToolStat)>, b: Seq<(String, ToolStat)>, k: int, name: Seq<char>, i: int)
    requires
        a.len() == b.len(),
        0 <= k < a.len(),
        0 <= i,
        a[k].0@ == b[k].0@,
        forall|j: int| 0 <= j < a.len() && j != k ==> a[j] == b[j],
        b[k].0@ != name,
    ensures
        stat_index(a, name, i) == stat_index(b, name, i),
        match stat_index(a, name, i) {
            Some(m) => a[m] == b[m],
            None => true,
        },
    decreases a.len() - i,
{
    if 0 <= i < a.len() {
        if i != k {
            assert(a[i] == b[i]);
        }
        lemma_same_names_index(a, b, k, name, i + 1);
    }
}

proof fn lemma_push_index(a: Seq<(String, ToolStat)>, b: Seq<(String, ToolStat)>, name: Seq<char>, i: int)
    requires
        b.len() == a.len() + 1,
        0 <= i,
        forall|j: int| 0 <= j < a.len() ==> a[j] == b[j],
        b[a.len() as int].0@ != name,
    ensures
        stat_index(a, name, i) == stat_index(b, name, i),
        match stat_index(a, name, i) {
            Some(m) => a[m] == b[m],
            None => true,
        },
    decreases b.len() - i,
{
    if 0 <= i < b.len() {
        if i < a.len() {
            assert(a[i] == b[i]);
        }
        lemma_push_index(a, b, name, i + 1);
    }
}

proof fn lemma_copied_index(a: Seq<(String, ToolStat)>, b: Seq<(String, ToolStat)>, name: Seq<char>, i: int)
    requires
        a.len() == b.len(),
        0 <= i,
        forall|j: int| 0 <= j < a.len() ==> {
            &&& (#[trigger] b[j]).0@ == a[j].0@
            &&& b[j].1.count == a[j].1.count
            &&& b[j].1.error_count == a[j].1.error_count
            &&& (b[j].1.last_used is Some) == (a[j].1.last_used is Some)
        },
    ensures
        stat_index(a, name, i) == stat_index(b, name, i),
        match stat_index(a, name, i) {
            Some(m) => b[m].1.count == a[m].1.count && b[m].1.error_count == a[m].1.error_count
                && (b[m].1.last_used is Some) == (a[m].1.last_used is Some),
            None => true,
        },
    decreases a.len() - i,
{
    if 0 <= i < a.len() {
        assert(b[i].0@ == a[i].0@);
        lemma_copied_index(a, b, name, i + 1);
    }
}

} // verus!
