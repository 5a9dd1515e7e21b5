//! The registry of tools the agent can call.
//!
//! The registry knows each tool by name, with its description, exposure and
//! the JSON schema of its arguments. Listings come out sorted by name;
//! hidden tools never reach the model, and deferred tools are found through
//! the ranked keyword search.

use vstd::prelude::*;
use crate::events::{id_gt, id_gt_from, id_greater};
use crate::tool::{InvalidArgsError, OpenAITool, OpenAIToolFunction, ToolError, ToolExposure};
use crate::text::{string_of, append_str, to_lowercase, lowercase, split_words, words_from, string_views};
use crate::json::{json_member, json_member_at, json_object_keys, json_keys, json_quote, json_quoted};
use crate::tool_search::{SearchEntry, EntryView, entry_view, entry_score, score_entry, word_views, max_query_words};

verus! {

// ---------------------------------------------------------------------------
// The order of names, and ranking by score then name
// ---------------------------------------------------------------------------

pub proof fn lemma_gt_irreflexive(a: Seq<char>, i: int)
    ensures
        !id_gt_from(a, a, i),
    decreases a.len() - i,
{
    if 0 <= i < a.len() {
        lemma_gt_irreflexive(a, i + 1);
    }
}

pub proof fn lemma_gt_asymmetric(a: Seq<char>, b: Seq<char>, i: int)
    requires
        id_gt_from(a, b, i),
    ensures
        !id_gt_from(b, a, i),
    decreases a.len() - i,
{
    if 0 <= i < a.len() && i < b.len() && a[i] == b[i] {
        lemma_gt_asymmetric(a, b, i + 1);
    }
}

pub proof fn lemma_gt_transitive(a: Seq<char>, b: Seq<char>, c: Seq<char>, i: int)
    requires
        id_gt_from(a, b, i),
        id_gt_from(b, c, i),
    ensures
        id_gt_from(a, c, i),
    decreases a.len() - i,
{
    if 0 <= i < a.len() && i < b.len() && i < c.len() && a[i] == b[i] && b[i] == c[i] {
        lemma_gt_transitive(a, b, c, i + 1);
    }
}

pub proof fn lemma_gt_total(a: Seq<char>, b: Seq<char>, i: int)
    requires
        0 <= i <= a.len(),
        i <= b.len(),
        forall|k: int| 0 <= k < i ==> a[k] == b[k],
        a != b,
    ensures
        id_gt_from(a, b, i) || id_gt_from(b, a, i),
    decreases a.len() - i,
{
    if i == a.len() && i == b.len() {
        assert(a =~= b);
    } else if i < a.len() && i < b.len() && a[i] == b[i] {
        lemma_gt_total(a, b, i + 1);
    } else if i < a.len() && i < b.len() {
        let (x, y) = (a[i], b[i]);
        vstd::utf8::char_u32_cast(x, x as u32);
        vstd::utf8::char_u32_cast(y, y as u32);
    }
}

/// Whether the key `(score, name)` ranks before `(score2, name2)`: a
/// higher score first, and among equal scores the name that orders first.
pub open spec fn ranks_before(a: (int, Seq<char>), b: (int, Seq<char>)) -> bool {
    a.0 > b.0 || (a.0 == b.0 && id_gt(b.1, a.1))
}

/// Whether the keys are in strictly ranked order.
pub open spec fn ranked(s: Seq<(int, Seq<char>)>) -> bool {
    forall|i: int, j: int| 0 <= i < j < s.len() ==> ranks_before(#[trigger] s[i], #[trigger] s[j])
}

pub open spec fn key_view(k: (i64, String)) -> (int, Seq<char>) {
    (k.0 as int, k.1@)
}

pub open spec fn keys_view(ks: Seq<(i64, String)>) -> Seq<(int, Seq<char>)> {
    ks.map_values(|k: (i64, String)| key_view(k))
}

proof fn lemma_ranks_transitive(a: (int, Seq<char>), b: (int, Seq<char>), c: (int, Seq<char>))
    requires
        ranks_before(a, b),
        ranks_before(b, c),
    ensures
        ranks_before(a, c),
{
    if a.0 == b.0 && b.0 == c.0 {
        lemma_gt_transitive(c.1, b.1, a.1, 0);
    }
}

proof fn lemma_ranks_total(a: (int, Seq<char>), b: (int, Seq<char>))
    requires
        a.1 != b.1,
    ensures
        ranks_before(a, b) || ranks_before(b, a),
{
    if a.0 == b.0 {
        lemma_gt_total(a.1, b.1, 0);
    }
}

fn ranks_before_exec(a: &(i64, String), b: &(i64, String)) -> (r: bool)
    ensures
        r == ranks_before(key_view(*a), key_view(*b)),
{
    a.0 > b.0 || (a.0 == b.0 && id_greater(&b.1, &a.1))
}

/// Insert `item` into ranked keys, none of which has its name.
fn insert_ranked(v: &mut Vec<(i64, String)>, item: (i64, String))
    requires
        ranked(keys_view(old(v)@)),
        forall|i: int| 0 <= i < old(v)@.len() ==> (#[trigger] old(v)@[i]).1@ != item.1@,
    ensures
        ranked(keys_view(final(v)@)),
        final(v)@.len() == old(v)@.len() + 1,
        forall|k: (int, Seq<char>)| keys_view(final(v)@).contains(k) <==> (keys_view(old(v)@).contains(k) || k == key_view(item)),
{
    let ghost old_v = v@;
    let ghost ov = keys_view(v@);
    let mut p: usize = 0;
    while p < v.len() && !ranks_before_exec(&item, &v[p])
        invariant
            p <= v@.len(),
            v@ == old_v,
            ov == keys_view(old_v),
            forall|i: int| 0 <= i < p ==> !ranks_before(key_view(item), #[trigger] ov[i]),
        decreases v@.len() - p,
    {
        p += 1;
    }
    let ghost ki = key_view(item);
    proof {
        assert forall|i: int| 0 <= i < p implies ranks_before(#[trigger] ov[i], ki) by {
            assert(ov[i] == key_view(old_v[i]));
            lemma_ranks_total(ov[i], ki);
        }
        assert forall|i: int| p <= i < ov.len() implies ranks_before(ki, #[trigger] ov[i]) by {
            if i > p {
                assert(ranks_before(ov[p as int], ov[i]));
                lemma_ranks_transitive(ki, ov[p as int], ov[i]);
            }
        }
    }
    v.insert(p, item);
    proof {
        let nv = keys_view(v@);
        assert(nv =~= ov.insert(p as int, ki));
        assert forall|i: int, j: int| 0 <= i < j < nv.len() implies ranks_before(#[trigger] nv[i], #[trigger] nv[j]) by {
            if j < p {
                assert(nv[i] == ov[i] && nv[j] == ov[j]);
            } else if j == p {
                assert(nv[i] == ov[i]);
            } else if i < p {
                assert(nv[i] == ov[i] && nv[j] == ov[j - 1]);
                lemma_ranks_transitive(ov[i], ki, ov[j - 1]);
            } else if i == p {
                assert(nv[j] == ov[j - 1]);
            } else {
                assert(nv[i] == ov[i - 1] && nv[j] == ov[j - 1]);
            }
        }
        assert forall|k: (int, Seq<char>)| nv.contains(k) <==> (ov.contains(k) || k == ki) by {
            if nv.contains(k) {
                let i = choose|i: int| 0 <= i < nv.len() && nv[i] == k;
                if i < p {
                    assert(ov[i] == k);
                } else if i > p {
                    assert(ov[i - 1] == k);
                }
            }
            if ov.contains(k) {
                let i = choose|i: int| 0 <= i < ov.len() && ov[i] == k;
                if i < p {
                    assert(nv[i] == k);
                } else {
                    assert(nv[i + 1] == k);
                }
            }
            if k == ki {
                assert(nv[p as int] == k);
            }
        }
    }
}

// ---------------------------------------------------------------------------
// The registry
// ---------------------------------------------------------------------------

/// A tool as the registry knows it.
#[derive(Debug, Clone)]
pub struct ToolEntry {
    pub name: String,
    pub description: String,
    pub exposure: ToolExposure,
    /// JSON schema of the arguments object, as the compact JSON text that
    /// `serde_json` writes.
    pub parameters: String,
}

/// Index of the first entry from `i` on named `name`.
pub open spec fn entry_index(es: Seq<ToolEntry>, name: Seq<char>, i: int) -> Option<int>
    decreases es.len() - i,
{
    if i < 0 || i >= es.len() {
        None
    } else if es[i].name@ == name {
        Some(i)
    } else {
        entry_index(es, name, i + 1)
    }
}

pub open spec fn distinct_names(es: Seq<ToolEntry>) -> bool {
    forall|i: int, j: int| 0 <= i < j < es.len() ==> (#[trigger] es[i]).name@ != (#[trigger] es[j]).name@
}

proof fn lemma_entry_index(es: Seq<ToolEntry>, name: Seq<char>, i: int)
    requires
        0 <= i,
    ensures
        entry_index(es, name, i) matches Some(k) ==> i <= k < es.len() && es[k].name@ == name,
        entry_index(es, name, i) is None ==> forall|k: int| i <= k < es.len() ==> (#[trigger] es[k]).name@ != name,
    decreases es.len() - i,
{
    if i < es.len() && es[i].name@ != name {
        lemma_entry_index(es, name, i + 1);
    }
}

proof fn lemma_entry_index_of(es: Seq<ToolEntry>, j: int)
    requires
        distinct_names(es),
        0 <= j < es.len(),
    ensures
        entry_index(es, es[j].name@, 0) == Some(j),
{
    lemma_entry_index(es, es[j].name@, 0);
    if let Some(k) = entry_index(es, es[j].name@, 0) {
        if k < j {
            assert(es[k].name@ != es[j].name@);
        } else if k > j {
            assert(es[j].name@ != es[k].name@);
        }
    }
}

/// Whether `d` is the definition of the tool `e`.
pub open spec fn defines(d: OpenAITool, e: ToolEntry) -> bool {
    &&& d.type_@ == "function"@
    &&& d.function.name@ == e.name@
    &&& d.function.description@ == e.description@
    &&& d.function.parameters@ == e.parameters@
}

fn definition_of(e: &ToolEntry) -> (d: OpenAITool)
    ensures
        defines(d, *e),
{
    OpenAITool {
        function: OpenAIToolFunction {
            description: string_of(e.description.as_str()),
            name: string_of(e.name.as_str()),
            parameters: string_of(e.parameters.as_str()),
        },
        type_: "function",
    }
}

/// Which tools a listing takes.
#[derive(Clone, Copy)]
enum Listing {
    All,
    Exposed,
    Direct,
    Deferred,
}

spec fn listed(e: ToolEntry, l: Listing) -> bool {
    match l {
        Listing::All => true,
        Listing::Exposed => e.exposure != ToolExposure::Hidden,
        Listing::Direct => e.exposure == ToolExposure::Direct,
        Listing::Deferred => e.exposure == ToolExposure::Deferred,
    }
}

fn listed_exec(e: &ToolEntry, l: Listing) -> (r: bool)
    ensures
        r == listed(*e, l),
{
    match l {
        Listing::All => true,
        Listing::Exposed => e.exposure != ToolExposure::Hidden,
        Listing::Direct => e.exposure == ToolExposure::Direct,
        Listing::Deferred => e.exposure == ToolExposure::Deferred,
    }
}

/// Whether the names are in strictly increasing order.
pub open spec fn names_sorted(ns: Seq<String>) -> bool {
    forall|i: int, j: int| 0 <= i < j < ns.len() ==> id_gt((#[trigger] ns[j])@, (#[trigger] ns[i])@)
}

/// Whether `n` is among the names.
pub open spec fn lists(ns: Seq<String>, n: Seq<char>) -> bool {
    exists|i: int| 0 <= i < ns.len() && (#[trigger] ns[i])@ == n
}

/// The tools the agent can call, by name.
#[derive(Debug)]
pub struct ToolRegistry {
    tools: Vec<ToolEntry>,
}

impl ToolRegistry {
    #[verifier::type_invariant]
    spec fn names_are_distinct(self) -> bool {
        distinct_names(self.tools@)
    }

    /// The registered tools, in registration order.
    pub closed spec fn entries(self) -> Seq<ToolEntry> {
        self.tools@
    }

    /// The tool registered as `name`.
    pub open spec fn tool(self, name: Seq<char>) -> Option<ToolEntry> {
        match entry_index(self.entries(), name, 0) {
            Some(k) => Some(self.entries()[k]),
            None => None,
        }
    }

    /// An empty registry.
    pub fn new() -> (r: Self)
        ensures
            forall|n: Seq<char>| #[trigger] r.tool(n) is None,
            r.entries().len() == 0,
    {
        ToolRegistry { tools: Vec::new() }
    }

    fn find(&self, name: &str) -> (r: Option<usize>)
        ensures
            match r {
                Some(k) => k < self.tools@.len() && entry_index(self.tools@, name@, 0) == Some(k as int),
                None => entry_index(self.tools@, name@, 0) is None,
            },
    {
        let mut k: usize = 0;
        while k < self.tools.len()
            invariant
                k <= self.tools@.len(),
                entry_index(self.tools@, name@, 0) == entry_index(self.tools@, name@, k as int),
            decreases self.tools@.len() - k,
        {
            if crate::text::str_eq(self.tools[k].name.as_str(), name) {
                return Some(k);
            }
            k += 1;
        }
        None
    }

    /// Register a tool; one registered under the same name is replaced.
    pub fn register(&mut self, tool: ToolEntry)
        ensures
            forall|n: Seq<char>| #[trigger] final(self).tool(n) == (if n == tool.name@ { Some(tool) } else { old(self).tool(n) }),
    {
        proof {
            use_type_invariant(&*self);
        }
        let ghost old_tools = self.tools@;
        let ghost name = tool.name@;
        let found = self.find(tool.name.as_str());
        let mut ts: Vec<ToolEntry> = Vec::new();
        std::mem::swap(&mut ts, &mut self.tools);
        match found {
            Some(k) => {
                proof {
                    lemma_entry_index(old_tools, name, 0);
                    let nt = old_tools.update(k as int, tool);
                    assert forall|i: int, j: int| 0 <= i < j < nt.len() implies (#[trigger] nt[i]).name@ != (#[trigger] nt[j]).name@ by {
                        if i != k as int && j != k as int {
                            assert(old_tools[i].name@ != old_tools[j].name@);
                        } else if i == k as int {
                            assert(old_tools[k as int].name@ != old_tools[j].name@);
                        } else {
                            assert(old_tools[i].name@ != old_tools[k as int].name@);
                        }
                    }
                }
                ts.set(k, tool);
            },
            None => {
                proof {
                    lemma_entry_index(old_tools, name, 0);
                }
                ts.push(tool);
            },
        }
        self.tools = ts;
        proof {
            let nt = self.tools@;
            assert forall|n: Seq<char>| #[trigger] self.tool(n) == (if n == name { Some(tool) } else { old(self).tool(n) }) by {
                lemma_entry_index(nt, n, 0);
                lemma_entry_index(old_tools, n, 0);
                if n == name {
                    let j = if entry_index(old_tools, name, 0) is Some { entry_index(old_tools, name, 0).unwrap() } else { old_tools.len() as int };
                    assert(nt[j] == tool);
                    lemma_entry_index_of(nt, j);
                } else {
                    match entry_index(old_tools, n, 0) {
                        Some(j) => {
                            assert(nt[j] == old_tools[j]);
                            lemma_entry_index_of(nt, j);
                        },
                        None => {
                            if let Some(j) = entry_index(nt, n, 0) {
                                assert(nt[j] == old_tools[j]);
                            }
                        },
                    }
                }
            }
        }
    }

    /// The names of the tools a listing takes, sorted.
    fn names_where(&self, l: Listing) -> (r: Vec<String>)
        ensures
            names_sorted(r@),
            forall|n: Seq<char>| #[trigger] lists(r@, n) <==> (self.tool(n) matches Some(e) && listed(e, l)),
    {
        proof {
            use_type_invariant(self);
        }
        let ghost ts = self.tools@;
        let mut keys: Vec<(i64, String)> = Vec::new();
        let mut i: usize = 0;
        while i < self.tools.len()
            invariant
                ts == self.tools@,
                distinct_names(ts),
                i <= ts.len(),
                ranked(keys_view(keys@)),
                forall|k: (int, Seq<char>)| keys_view(keys@).contains(k) <==>
                    exists|j: int| 0 <= j < i && listed(#[trigger] ts[j], l) && k == (0int, ts[j].name@),
            decreases ts.len() - i,
        {
            if listed_exec(&self.tools[i], l) {
                let ghost ni = ts[i as int].name@;
                proof {
                    assert forall|m: int| 0 <= m < keys@.len() implies (#[trigger] keys@[m]).1@ != ni by {
                        assert(keys_view(keys@)[m] == key_view(keys@[m]));
                        assert(keys_view(keys@).contains(keys_view(keys@)[m]));
                        let j = choose|j: int| 0 <= j < i && listed(#[trigger] ts[j], l) && keys_view(keys@)[m] == (0int, ts[j].name@);
                        assert(ts[j].name@ != ts[i as int].name@);
                    }
                }
                let item: (i64, String) = (0, string_of(self.tools[i].name.as_str()));
                insert_ranked(&mut keys, item);
                proof {
                    assert forall|k: (int, Seq<char>)| keys_view(keys@).contains(k) <==>
                        exists|j: int| 0 <= j < i + 1 && listed(#[trigger] ts[j], l) && k == (0int, ts[j].name@) by {
                        if k == (0int, ni) {
                            assert(listed(ts[i as int], l));
                        }
                    }
                }
            } else {
                proof {
                    assert forall|k: (int, Seq<char>)| keys_view(keys@).contains(k) <==>
                        exists|j: int| 0 <= j < i + 1 && listed(#[trigger] ts[j], l) && k == (0int, ts[j].name@) by {
                        if exists|j: int| 0 <= j < i + 1 && listed(#[trigger] ts[j], l) && k == (0int, ts[j].name@) {
                            let j = choose|j: int| 0 <= j < i + 1 && listed(#[trigger] ts[j], l) && k == (0int, ts[j].name@);
                            assert(j < i);
                        }
                    }
                }
            }
            i += 1;
        }
        let mut out: Vec<String> = Vec::new();
        let mut m: usize = 0;
        while m < keys.len()
            invariant
                m <= keys@.len(),
                out@.len() == m,
                forall|x: int| 0 <= x < m ==> (#[trigger] out@[x])@ == keys@[x].1@,
            decreases keys@.len() - m,
        {
            out.push(string_of(keys[m].1.as_str()));
            m += 1;
        }
        proof {
            let kv = keys_view(keys@);
            assert forall|a: int, b: int| 0 <= a < b < out@.len() implies id_gt((#[trigger] out@[b])@, (#[trigger] out@[a])@) by {
                assert(kv[a] == key_view(keys@[a]) && kv[b] == key_view(keys@[b]));
                assert(ranks_before(kv[a], kv[b]));
                assert(kv.contains(kv[a]));
                assert(kv.contains(kv[b]));
            }
            assert forall|n: Seq<char>| #[trigger] lists(out@, n) <==> (self.tool(n) matches Some(e) && listed(e, l)) by {
                lemma_entry_index(ts, n, 0);
                if lists(out@, n) {
                    let x = choose|x: int| 0 <= x < out@.len() && (#[trigger] out@[x])@ == n;
                    assert(kv[x] == key_view(keys@[x]));
                    assert(kv.contains(kv[x]));
                    let j = choose|j: int| 0 <= j < ts.len() && listed(#[trigger] ts[j], l) && kv[x] == (0int, ts[j].name@);
                    lemma_entry_index_of(ts, j);
                }
                if self.tool(n) matches Some(e) && listed(e, l) {
                    let j = entry_index(ts, n, 0).unwrap();
                    assert(listed(ts[j], l));
                    assert(kv.contains((0int, n)));
                    let x = choose|x: int| 0 <= x < kv.len() && kv[x] == (0int, n);
                    assert(kv[x] == key_view(keys@[x]));
                    assert(out@[x]@ == n);
                }
            }
        }
        out
    }

    /// Names of all registered tools, hidden ones included, sorted.
    pub fn tool_names(&self) -> (r: Vec<String>)
        ensures
            names_sorted(r@),
            forall|n: Seq<char>| #[trigger] lists(r@, n) <==> self.tool(n) is Some,
    {
        let r = self.names_where(Listing::All);
        assert forall|n: Seq<char>| #[trigger] lists(r@, n) <==> self.tool(n) is Some by {
            assert(lists(r@, n) <==> (self.tool(n) matches Some(e) && listed(e, Listing::All)));
        }
        r
    }

    /// Names of the tools exposed to the model (not hidden), sorted.
    pub fn exposed_tool_names(&self) -> (r: Vec<String>)
        ensures
            names_sorted(r@),
            forall|n: Seq<char>| #[trigger] lists(r@, n) <==> (self.tool(n) matches Some(e) && e.exposure != ToolExposure::Hidden),
    {
        let r = self.names_where(Listing::Exposed);
        assert forall|n: Seq<char>| #[trigger] lists(r@, n) <==> (self.tool(n) matches Some(e) && e.exposure != ToolExposure::Hidden) by {
            assert(lists(r@, n) <==> (self.tool(n) matches Some(e) && listed(e, Listing::Exposed)));
        }
        r
    }

    /// Names of the tools that are always visible to the model, sorted.
    pub fn direct_tool_names(&self) -> (r: Vec<String>)
        ensures
            names_sorted(r@),
            forall|n: Seq<char>| #[trigger] lists(r@, n) <==> (self.tool(n) matches Some(e) && e.exposure == ToolExposure::Direct),
    {
        let r = self.names_where(Listing::Direct);
        assert forall|n: Seq<char>| #[trigger] lists(r@, n) <==> (self.tool(n) matches Some(e) && e.exposure == ToolExposure::Direct) by {
            assert(lists(r@, n) <==> (self.tool(n) matches Some(e) && listed(e, Listing::Direct)));
        }
        r
    }

    /// The definition of the tool `name`; none for unknown and hidden tools.
    pub fn definition_for_name(&self, name: &str) -> (r: Option<OpenAITool>)
        ensures
            match self.tool(name@) {
                Some(e) => if e.exposure != ToolExposure::Hidden {
                    r matches Some(d) && defines(d, e)
                } else {
                    r is None
                },
                None => r is None,
            },
    {
        match self.find(name) {
            Some(k) => {
                if self.tools[k].exposure != ToolExposure::Hidden {
                    Some(definition_of(&self.tools[k]))
                } else {
                    None
                }
            },
            None => None,
        }
    }

    /// The tools that the active names select, in the order of the names:
    /// unknown and hidden names are skipped.
    pub open spec fn active_entries(self, names: Seq<String>) -> Seq<ToolEntry>
        decreases names.len(),
    {
        if names.len() == 0 {
            Seq::empty()
        } else {
            let prev = self.active_entries(names.drop_last());
            match self.tool(names.last()@) {
                Some(e) => if e.exposure != ToolExposure::Hidden { prev.push(e) } else { prev },
                None => prev,
            }
        }
    }

    /// Definitions of the active tools, in the order of `active_names`;
    /// unknown and hidden names are skipped.
    pub fn definitions_for(&self, active_names: &[String]) -> (r: Vec<OpenAITool>)
        ensures
            r@.len() == self.active_entries(active_names@).len(),
            forall|i: int| 0 <= i < r@.len() ==> defines(#[trigger] r@[i], self.active_entries(active_names@)[i]),
    {
        let mut out: Vec<OpenAITool> = Vec::new();
        let mut i: usize = 0;
        while i < active_names.len()
            invariant
                i <= active_names@.len(),
                out@.len() == self.active_entries(active_names@.subrange(0, i as int)).len(),
                forall|x: int| 0 <= x < out@.len() ==> defines(#[trigger] out@[x], self.active_entries(active_names@.subrange(0, i as int))[x]),
            decreases active_names@.len() - i,
        {
            let ghost prev = self.active_entries(active_names@.subrange(0, i as int));
            proof {
                let s = active_names@.subrange(0, i as int + 1);
                assert(s.drop_last() =~= active_names@.subrange(0, i as int));
                assert(s.last() == active_names@[i as int]);
            }
            match self.definition_for_name(active_names[i].as_str()) {
                Some(d) => {
                    out.push(d);
                },
                None => {},
            }
            i += 1;
        }
        assert(active_names@.subrange(0, active_names@.len() as int) =~= active_names@);
        out
    }

    /// Definitions of every exposed tool, sorted by name.
    pub fn definitions(&self) -> (r: Vec<OpenAITool>)
        ensures
            forall|i: int, j: int| 0 <= i < j < r@.len() ==> id_gt((#[trigger] r@[j]).function.name@, (#[trigger] r@[i]).function.name@),
            forall|i: int| 0 <= i < r@.len() ==> (self.tool((#[trigger] r@[i]).function.name@) matches Some(e)
                && e.exposure != ToolExposure::Hidden && defines(r@[i], e)),
            forall|n: Seq<char>| (#[trigger] self.tool(n) matches Some(e) && e.exposure != ToolExposure::Hidden)
                ==> exists|i: int| 0 <= i < r@.len() && (#[trigger] r@[i]).function.name@ == n,
    {
        let names = self.exposed_tool_names();
        let r = self.definitions_for(names.as_slice());
        proof {
            assert forall|x: int| 0 <= x < names@.len() implies
                (self.tool((#[trigger] names@[x])@) matches Some(e) && e.exposure != ToolExposure::Hidden) by {
                assert(lists(names@, names@[x]@));
            }
            self.lemma_active_exposed(names@, names@.len() as int);
            assert(names@.subrange(0, names@.len() as int) =~= names@);
            assert forall|x: int| 0 <= x < r@.len() implies (#[trigger] r@[x]).function.name@ == names@[x]@ by {
                self.lemma_tool_name(names@[x]@);
            }
            assert forall|n: Seq<char>| (#[trigger] self.tool(n) matches Some(e) && e.exposure != ToolExposure::Hidden)
                implies exists|i: int| 0 <= i < r@.len() && (#[trigger] r@[i]).function.name@ == n by {
                assert(lists(names@, n));
                let x = choose|x: int| 0 <= x < names@.len() && (#[trigger] names@[x])@ == n;
                assert(r@[x].function.name@ == n);
            }
        }
        r
    }

    proof fn lemma_tool_name(self, n: Seq<char>)
        ensures
            self.tool(n) matches Some(e) ==> e.name@ == n,
    {
        lemma_entry_index(self.entries(), n, 0);
    }

    proof fn lemma_active_exposed(self, names: Seq<String>, n: int)
        requires
            0 <= n <= names.len(),
            forall|x: int| 0 <= x < names.len() ==> (self.tool((#[trigger] names[x])@) matches Some(e) && e.exposure != ToolExposure::Hidden),
        ensures
            self.active_entries(names.subrange(0, n)).len() == n,
            forall|x: int| 0 <= x < n ==> self.tool((#[trigger] names[x])@) == Some(self.active_entries(names.subrange(0, n))[x]),
        decreases n,
    {
        if n > 0 {
            self.lemma_active_exposed(names, n - 1);
            let s = names.subrange(0, n);
            assert(s.drop_last() =~= names.subrange(0, n - 1));
            assert(s.last() == names[n - 1]);
            assert(self.tool(names[n - 1]@) matches Some(e) && e.exposure != ToolExposure::Hidden);
        }
    }

    /// The argument schemas of all registered tools, in registration order.
    pub fn schemas(&self) -> (r: Vec<String>)
        ensures
            r@.len() == self.entries().len(),
            forall|i: int| 0 <= i < r@.len() ==> (#[trigger] r@[i])@ == self.entries()[i].parameters@,
    {
        let mut out: Vec<String> = Vec::new();
        let mut i: usize = 0;
        while i < self.tools.len()
            invariant
                i <= self.tools@.len(),
                out@.len() == i,
                forall|x: int| 0 <= x < i ==> (#[trigger] out@[x])@ == self.tools@[x].parameters@,
            decreases self.tools@.len() - i,
        {
            out.push(string_of(self.tools[i].parameters.as_str()));
            i += 1;
        }
        out
    }
}

// ---------------------------------------------------------------------------
// Token estimates
// ---------------------------------------------------------------------------

/// The JSON text `serde_json` writes for the definition of `e`.
pub open spec fn definition_text(e: ToolEntry) -> Seq<char> {
    "{\"function\":{\"description\":"@ + json_quoted(e.description@) + ",\"name\":"@ + json_quoted(e.name@)
        + ",\"parameters\":"@ + e.parameters@ + "},\"type\":"@ + json_quoted("function"@) + "}"@
}

/// The rough token count of a text: a quarter of its characters, rounded
/// up.
pub open spec fn text_tokens(t: Seq<char>) -> nat {
    ((t.len() + 3) / 4) as nat
}

/// The token estimate of the definitions of the tools.
pub open spec fn definitions_tokens(es: Seq<ToolEntry>) -> nat
    decreases es.len(),
{
    if es.len() == 0 {
        0
    } else {
        definitions_tokens(es.drop_last()) + text_tokens(definition_text(es.last()))
    }
}

/// The tools that are exposed to the model, in order.
pub open spec fn exposed_entries(es: Seq<ToolEntry>) -> Seq<ToolEntry>
    decreases es.len(),
{
    if es.len() == 0 {
        es
    } else if es.last().exposure != ToolExposure::Hidden {
        exposed_entries(es.drop_last()).push(es.last())
    } else {
        exposed_entries(es.drop_last())
    }
}

/// `n`, or `usize::MAX` when it is larger.
pub open spec fn clamp_usize(n: nat) -> usize {
    if n > usize::MAX { usize::MAX } else { n as usize }
}

fn definition_tokens(e: &ToolEntry) -> (r: usize)
    ensures
        r == text_tokens(definition_text(*e)),
{
    let mut t = string_of("{\"function\":{\"description\":");
    let q = json_quote(e.description.as_str());
    append_str(&mut t, q.as_str());
    append_str(&mut t, ",\"name\":");
    let q = json_quote(e.name.as_str());
    append_str(&mut t, q.as_str());
    append_str(&mut t, ",\"parameters\":");
    append_str(&mut t, e.parameters.as_str());
    append_str(&mut t, "},\"type\":");
    let q = json_quote("function");
    append_str(&mut t, q.as_str());
    append_str(&mut t, "}");
    assert(t@ == definition_text(*e));
    let n = t.unicode_len();
    n / 4 + (if n % 4 == 0 { 0 } else { 1 })
}

// ---------------------------------------------------------------------------
// Search
// ---------------------------------------------------------------------------

/// The parameter names of a schema: the lowercased keys of its
/// `properties` object, or none.
pub open spec fn schema_params(p: Seq<char>) -> Seq<Seq<char>> {
    match json_member_at(p, "properties"@) {
        Some(props) => match json_keys(props) {
            Some(ks) => ks.map_values(|k: Seq<char>| lowercase(k)),
            None => Seq::empty(),
        },
        None => Seq::empty(),
    }
}

/// What the search reads of a tool.
pub open spec fn tool_view(e: ToolEntry) -> EntryView {
    (lowercase(e.name@), lowercase(e.description@), schema_params(e.parameters@))
}

/// Whether `s` is the search-index entry of the tool `e`.
pub open spec fn indexes(s: SearchEntry, e: ToolEntry) -> bool {
    &&& s.name@ == e.name@
    &&& entry_view(s) == tool_view(e)
    &&& defines(s.definition, e)
}

fn search_entry_of(e: &ToolEntry) -> (s: SearchEntry)
    ensures
        indexes(s, *e),
{
    let name_lower = to_lowercase(e.name.as_str());
    let description_lower = to_lowercase(e.description.as_str());
    let mut param_names: Vec<String> = Vec::new();
    let ghost params = schema_params(e.parameters@);
    match json_member(e.parameters.as_str(), "properties") {
        Some(props) => match json_object_keys(props.as_str()) {
            Some(keys) => {
                let mut i: usize = 0;
                while i < keys.len()
                    invariant
                        i <= keys@.len(),
                        json_keys(props@) matches Some(ks) && ks.len() == keys@.len()
                            && forall|x: int| 0 <= x < keys@.len() ==> (#[trigger] keys@[x])@ == ks[x],
                        params == json_keys(props@).unwrap().map_values(|k: Seq<char>| lowercase(k)),
                        param_names@.len() == i,
                        forall|x: int| 0 <= x < i ==> (#[trigger] param_names@[x])@ == params[x],
                    decreases keys@.len() - i,
                {
                    param_names.push(to_lowercase(keys[i].as_str()));
                    i += 1;
                }
            },
            None => {},
        },
        None => {},
    }
    let s = SearchEntry {
        name: string_of(e.name.as_str()),
        name_lower,
        description_lower,
        param_names,
        definition: definition_of(e),
    };
    assert(entry_view(s).2 =~= params);
    s
}

/// The search words of a query: the whitespace-separated words of its
/// lowercase form.
pub open spec fn query_words(query: Seq<char>) -> Seq<Seq<char>> {
    words_from(lowercase(query), 0)
}

/// The score of a tool for the words, when every word matches.
pub open spec fn tool_score(e: ToolEntry, words: Seq<Seq<char>>) -> Option<int> {
    entry_score(tool_view(e), words, words.len() as int)
}

/// The ranking key of a search result.
pub open spec fn result_key(s: SearchEntry, words: Seq<Seq<char>>) -> (int, Seq<char>) {
    (entry_score(entry_view(s), words, words.len() as int).unwrap(), s.name@)
}

/// Whether the entries are sorted strictly by name.
pub open spec fn entries_sorted(es: Seq<SearchEntry>) -> bool {
    forall|i: int, j: int| 0 <= i < j < es.len() ==> id_gt((#[trigger] es[j]).name@, (#[trigger] es[i]).name@)
}

/// The matching entries of a name-sorted index, ranked by score then name.
fn rank_matches(index: &Vec<SearchEntry>, words: &[&str]) -> (r: Vec<(i64, String)>)
    requires
        entries_sorted(index@),
        words@.len() <= max_query_words(),
    ensures
        ranked(keys_view(r@)),
        forall|k: (int, Seq<char>)| keys_view(r@).contains(k) <==> exists|x: int| 0 <= x < index@.len()
            && (#[trigger] entry_score(entry_view(index@[x]), word_views(words@), words@.len() as int)) == Some(k.0)
            && k.1 == index@[x].name@,
{
    let ghost ws = word_views(words@);
    let ghost nw = words@.len() as int;
    let mut keys: Vec<(i64, String)> = Vec::new();
    let mut x: usize = 0;
    while x < index.len()
        invariant
            entries_sorted(index@),
            words@.len() <= max_query_words(),
            ws == word_views(words@),
            nw == words@.len(),
            x <= index@.len(),
            ranked(keys_view(keys@)),
            forall|k: (int, Seq<char>)| keys_view(keys@).contains(k) <==> exists|y: int| 0 <= y < x
                && (#[trigger] entry_score(entry_view(index@[y]), ws, nw)) == Some(k.0)
                && k.1 == index@[y].name@,
        decreases index@.len() - x,
    {
        let ghost nx = index@[x as int].name@;
        match score_entry(&index[x], words) {
            Some(sc) => {
                proof {
                    assert forall|m: int| 0 <= m < keys@.len() implies (#[trigger] keys@[m]).1@ != nx by {
                        assert(keys_view(keys@)[m] == key_view(keys@[m]));
                        assert(keys_view(keys@).contains(keys_view(keys@)[m]));
                        let y = choose|y: int| 0 <= y < x
                            && (#[trigger] entry_score(entry_view(index@[y]), ws, nw)) == Some(keys_view(keys@)[m].0)
                            && keys_view(keys@)[m].1 == index@[y].name@;
                        assert(id_gt(index@[x as int].name@, index@[y].name@));
                        lemma_gt_irreflexive(nx, 0);
                    }
                }
                insert_ranked(&mut keys, (sc, string_of(index[x].name.as_str())));
                proof {
                    assert forall|k: (int, Seq<char>)| keys_view(keys@).contains(k) <==> exists|y: int| 0 <= y < x + 1
                        && (#[trigger] entry_score(entry_view(index@[y]), ws, nw)) == Some(k.0)
                        && k.1 == index@[y].name@ by {
                        if exists|y: int| 0 <= y < x + 1
                            && (#[trigger] entry_score(entry_view(index@[y]), ws, nw)) == Some(k.0)
                            && k.1 == index@[y].name@ {
                            let y = choose|y: int| 0 <= y < x + 1
                                && (#[trigger] entry_score(entry_view(index@[y]), ws, nw)) == Some(k.0)
                                && k.1 == index@[y].name@;
                            if y == x as int {
                                assert(k == (sc as int, nx));
                            }
                        }
                    }
                }
            },
            None => {
                proof {
                    assert forall|k: (int, Seq<char>)| keys_view(keys@).contains(k) <==> exists|y: int| 0 <= y < x + 1
                        && (#[trigger] entry_score(entry_view(index@[y]), ws, nw)) == Some(k.0)
                        && k.1 == index@[y].name@ by {
                        if exists|y: int| 0 <= y < x + 1
                            && (#[trigger] entry_score(entry_view(index@[y]), ws, nw)) == Some(k.0)
                            && k.1 == index@[y].name@ {
                            let y = choose|y: int| 0 <= y < x + 1
                                && (#[trigger] entry_score(entry_view(index@[y]), ws, nw)) == Some(k.0)
                                && k.1 == index@[y].name@;
                            assert(y != x as int);
                        }
                    }
                }
            },
        }
        x += 1;
    }
    keys
}

impl ToolRegistry {
    /// Rough token estimate of the definitions of the active tools; it
    /// saturates at `usize::MAX`.
    pub fn definitions_estimate_tokens_for(&self, active_names: &[String]) -> (r: usize)
        ensures
            r == clamp_usize(definitions_tokens(self.active_entries(active_names@))),
    {
        let ghost active = self.active_entries(active_names@);
        let mut total: usize = 0;
        let mut i: usize = 0;
        while i < active_names.len()
            invariant
                i <= active_names@.len(),
                active == self.active_entries(active_names@),
                total == clamp_usize(definitions_tokens(self.active_entries(active_names@.subrange(0, i as int)))),
            decreases active_names@.len() - i,
        {
            let ghost prev = self.active_entries(active_names@.subrange(0, i as int));
            proof {
                let s = active_names@.subrange(0, i as int + 1);
                assert(s.drop_last() =~= active_names@.subrange(0, i as int));
                assert(s.last() == active_names@[i as int]);
            }
            match self.find(active_names[i].as_str()) {
                Some(k) => {
                    if self.tools[k].exposure != ToolExposure::Hidden {
                        let t = definition_tokens(&self.tools[k]);
                        total = total.saturating_add(t);
                        proof {
                            let now = self.active_entries(active_names@.subrange(0, i as int + 1));
                            assert(now.drop_last() =~= prev);
                        }
                    }
                },
                None => {},
            }
            i += 1;
        }
        assert(active_names@.subrange(0, active_names@.len() as int) =~= active_names@);
        total
    }

    /// Rough token estimate of the definitions of every exposed tool; it
    /// saturates at `usize::MAX`.
    pub fn definitions_estimate_tokens(&self) -> (r: usize)
        ensures
            r == clamp_usize(definitions_tokens(exposed_entries(self.entries()))),
    {
        let mut total: usize = 0;
        let mut i: usize = 0;
        while i < self.tools.len()
            invariant
                i <= self.tools@.len(),
                total == clamp_usize(definitions_tokens(exposed_entries(self.tools@.subrange(0, i as int)))),
            decreases self.tools@.len() - i,
        {
            proof {
                let s = self.tools@.subrange(0, i as int + 1);
                assert(s.drop_last() =~= self.tools@.subrange(0, i as int));
            }
            let ghost prev = exposed_entries(self.tools@.subrange(0, i as int));
            if self.tools[i].exposure != ToolExposure::Hidden {
                let t = definition_tokens(&self.tools[i]);
                total = total.saturating_add(t);
                proof {
                    let now = exposed_entries(self.tools@.subrange(0, i as int + 1));
                    assert(now == prev.push(self.tools@[i as int]));
                    assert(now.drop_last() =~= prev);
                }
            }
            i += 1;
        }
        assert(self.tools@.subrange(0, self.tools@.len() as int) =~= self.tools@);
        total
    }

    /// The search index: an entry for every deferred tool, sorted by name.
    pub fn build_search_index(&self) -> (r: Vec<SearchEntry>)
        ensures
            entries_sorted(r@),
            forall|i: int| 0 <= i < r@.len() ==> (self.tool((#[trigger] r@[i]).name@) matches Some(e)
                && e.exposure == ToolExposure::Deferred && indexes(r@[i], e)),
            forall|n: Seq<char>| (#[trigger] self.tool(n) matches Some(e) && e.exposure == ToolExposure::Deferred)
                ==> exists|i: int| 0 <= i < r@.len() && (#[trigger] r@[i]).name@ == n,
    {
        let names = self.names_where(Listing::Deferred);
        let mut out: Vec<SearchEntry> = Vec::new();
        let mut i: usize = 0;
        while i < names.len()
            invariant
                i <= names@.len(),
                names_sorted(names@),
                forall|n: Seq<char>| #[trigger] lists(names@, n) <==> (self.tool(n) matches Some(e) && listed(e, Listing::Deferred)),
                out@.len() == i,
                forall|x: int| 0 <= x < i ==> (#[trigger] out@[x]).name@ == names@[x]@
                    && (self.tool(out@[x].name@) matches Some(e) && e.exposure == ToolExposure::Deferred && indexes(out@[x], e)),
            decreases names@.len() - i,
        {
            proof {
                assert(lists(names@, names@[i as int]@));
            }
            proof {
                use_type_invariant(self);
                lemma_entry_index(self.tools@, names@[i as int]@, 0);
            }
            match self.find(names[i].as_str()) {
                Some(k) => {
                    let entry = search_entry_of(&self.tools[k]);
                    out.push(entry);
                },
                None => {},
            }
            i += 1;
        }
        proof {
            assert forall|a: int, b: int| 0 <= a < b < out@.len() implies id_gt((#[trigger] out@[b]).name@, (#[trigger] out@[a]).name@) by {
                assert(id_gt(names@[b]@, names@[a]@));
            }
            assert forall|n: Seq<char>| (#[trigger] self.tool(n) matches Some(e) && e.exposure == ToolExposure::Deferred)
                implies exists|i: int| 0 <= i < out@.len() && (#[trigger] out@[i]).name@ == n by {
                assert(lists(names@, n));
                let x = choose|x: int| 0 <= x < names@.len() && (#[trigger] names@[x])@ == n;
                assert(out@[x].name@ == n);
            }
        }
        out
    }
}

impl ToolRegistry {
    /// Search the deferred tools by name, description and parameter names.
    /// Every word of the lowercased query must match; results are ranked by
    /// score, then by name, and `limit` applies after ranking.
    pub fn search(&self, query: &str, limit: Option<usize>) -> (r: Vec<SearchEntry>)
        ensures
            ({
                let words = query_words(query@);
                if words.len() == 0 || words.len() > max_query_words() {
                    r@.len() == 0
                } else {
                    &&& (limit matches Some(l) ==> r@.len() <= l)
                    &&& forall|i: int| 0 <= i < r@.len() ==> (self.tool((#[trigger] r@[i]).name@) matches Some(e)
                        && e.exposure == ToolExposure::Deferred && indexes(r@[i], e) && tool_score(e, words) is Some)
                    &&& forall|i: int, j: int| 0 <= i < j < r@.len() ==>
                        ranks_before(result_key(#[trigger] r@[i], words), result_key(#[trigger] r@[j], words))
                    &&& forall|n: Seq<char>| (#[trigger] self.tool(n) matches Some(e) && e.exposure == ToolExposure::Deferred
                        && tool_score(e, words) is Some && !(exists|i: int| 0 <= i < r@.len() && (#[trigger] r@[i]).name@ == n))
                        ==> (limit matches Some(l) && r@.len() == l && forall|i: int| 0 <= i < r@.len() ==>
                            ranks_before(result_key(#[trigger] r@[i], words), (tool_score(self.tool(n).unwrap(), words).unwrap(), n)))
                }
            }),
    {
        let ghost qw = query_words(query@);
        let index = self.build_search_index();
        let q = to_lowercase(query);
        let words = split_words(q.as_str());
        assert(string_views(words@) == qw);
        if words.len() == 0 {
            return Vec::new();
        }
        if words.len() as u64 > 10_000_000_000_000_000u64 {
            return Vec::new();
        }
        let mut refs: Vec<&str> = Vec::new();
        let mut w: usize = 0;
        while w < words.len()
            invariant
                w <= words@.len(),
                refs@.len() == w,
                forall|x: int| 0 <= x < w ==> (#[trigger] refs@[x])@ == words@[x]@,
            decreases words@.len() - w,
        {
            refs.push(words[w].as_str());
            w += 1;
        }
        assert(word_views(refs@) =~= qw);
        let keys = rank_matches(&index, refs.as_slice());
        let ghost kv = keys_view(keys@);
        let lim: usize = match limit {
            Some(l) => if l < keys.len() { l } else { keys.len() },
            None => keys.len(),
        };
        let mut out: Vec<SearchEntry> = Vec::new();
        let mut m: usize = 0;
        while m < lim
            invariant
                lim <= keys@.len(),
                kv == keys_view(keys@),
                word_views(refs@) == qw,
                m <= lim,
                out@.len() == m,
                forall|k: (int, Seq<char>)| kv.contains(k) <==> exists|x: int| 0 <= x < index@.len()
                    && (#[trigger] entry_score(entry_view(index@[x]), word_views(refs@), refs@.len() as int)) == Some(k.0)
                    && k.1 == index@[x].name@,
                forall|i: int| 0 <= i < index@.len() ==> (self.tool((#[trigger] index@[i]).name@) matches Some(e)
                    && e.exposure == ToolExposure::Deferred && indexes(index@[i], e)),
                forall|x: int| 0 <= x < m ==> (self.tool((#[trigger] out@[x]).name@) matches Some(e)
                    && e.exposure == ToolExposure::Deferred && indexes(out@[x], e) && tool_score(e, qw) is Some
                    && result_key(out@[x], qw) == kv[x]),
            decreases lim - m,
        {
            let ghost key = kv[m as int];
            proof {
                assert(kv[m as int] == key_view(keys@[m as int]));
                assert(kv.contains(key));
                let y = choose|y: int| 0 <= y < index@.len()
                    && (#[trigger] entry_score(entry_view(index@[y]), word_views(refs@), refs@.len() as int)) == Some(key.0)
                    && key.1 == index@[y].name@;
                assert(self.tool(index@[y].name@) matches Some(e) && indexes(index@[y], e));
                use_type_invariant(self);
                lemma_entry_index(self.tools@, key.1, 0);
            }
            match self.find(keys[m].1.as_str()) {
                Some(k) => {
                    let entry = search_entry_of(&self.tools[k]);
                    out.push(entry);
                },
                None => {},
            }
            m += 1;
        }
        proof {
            assert forall|i: int, j: int| 0 <= i < j < out@.len() implies
                ranks_before(result_key(#[trigger] out@[i], qw), result_key(#[trigger] out@[j], qw)) by {
                assert(kv[i] == key_view(keys@[i]) && kv[j] == key_view(keys@[j]));
            }
            assert forall|n: Seq<char>| (#[trigger] self.tool(n) matches Some(e) && e.exposure == ToolExposure::Deferred
                && tool_score(e, qw) is Some && !(exists|i: int| 0 <= i < out@.len() && (#[trigger] out@[i]).name@ == n))
                implies (limit matches Some(l) && out@.len() == l && forall|i: int| 0 <= i < out@.len() ==>
                    ranks_before(result_key(#[trigger] out@[i], qw), (tool_score(self.tool(n).unwrap(), qw).unwrap(), n))) by {
                let e = self.tool(n).unwrap();
                let y = choose|y: int| 0 <= y < index@.len() && (#[trigger] index@[y]).name@ == n;
                assert(self.tool(index@[y].name@) matches Some(f) && indexes(index@[y], f));
                let sc = tool_score(e, qw).unwrap();
                assert(entry_score(entry_view(index@[y]), word_views(refs@), refs@.len() as int) == Some(sc));
                assert(kv.contains((sc, n)));
                let p = choose|p: int| 0 <= p < kv.len() && kv[p] == (sc, n);
                if p < lim {
                    assert(out@[p].name@ == n);
                }
                assert forall|i: int| 0 <= i < out@.len() implies
                    ranks_before(result_key(#[trigger] out@[i], qw), (sc, n)) by {
                    assert(kv[i] == key_view(keys@[i]) && kv[p] == key_view(keys@[p]));
                }
            }
        }
        out
    }
}

/// Why a call of the tool `name` is refused, if it is: an unknown tool, or
/// a hidden one.
pub open spec fn call_refusal(t: Option<ToolEntry>, name: Seq<char>) -> Option<Seq<char>> {
    match t {
        None => Some("unknown: "@ + name),
        Some(e) => if e.exposure == ToolExposure::Hidden { Some(name + " is not available"@) } else { None },
    }
}

impl ToolRegistry {
    /// Check that the tool `name` may be called: unknown and hidden tools
    /// are invalid arguments of the field `tool`.
    pub fn check_call(&self, name: &str) -> (r: Result<(), ToolError>)
        ensures
            match call_refusal(self.tool(name@), name@) {
                Some(reason) => r matches Err(ToolError::InvalidArgs(InvalidArgsError::Field { field, reason: why }))
                    && field@ == "tool"@ && why@ == reason,
                None => r is Ok,
            },
    {
        match self.find(name) {
            None => {
                let mut reason = string_of("unknown: ");
                append_str(&mut reason, name);
                Err(ToolError::InvalidArgs(InvalidArgsError::Field { field: string_of("tool"), reason }))
            },
            Some(k) => {
                if self.tools[k].exposure == ToolExposure::Hidden {
                    let mut reason = string_of(name);
                    append_str(&mut reason, " is not available");
                    Err(ToolError::InvalidArgs(InvalidArgsError::Field { field: string_of("tool"), reason }))
                } else {
                    Ok(())
                }
            },
        }
    }
}

} // verus!
