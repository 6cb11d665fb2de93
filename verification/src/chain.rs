//! Session-tree entries, the root-to-leaf chain a session executed, and its
//! grouping into LLM turns.

use vstd::prelude::*;
use crate::json::Json;
use crate::text::{str_eq, min_int};
use vstd::string::StrSliceExecFns;

verus! {

/// A parsed session-tree entry (JSONL line or materialized SessionEntry row).
#[derive(Debug)]
pub struct TreeEntry {
    /// Entry id (`u-*`, `a-*`, `t-*`, `c-*`, `s-*`, `h-*`).
    pub id: String,
    /// Parent entry id, absent for the header.
    pub parent_id: Option<String>,
    /// `header` | `message` | `compaction` | `steering`.
    pub entry_type: String,
    /// `user` | `assistant` | empty.
    pub role: String,
    /// Inline content when the entry was not externalized.
    pub content: Option<Json>,
    /// TemperFS file id when the body was externalized.
    pub content_file_id: Option<String>,
    /// Immutable file version for stable historical reads.
    pub content_file_version_id: Option<String>,
    /// Token estimate recorded with the entry.
    pub tokens: u64,
    /// The whole line, so extras (`ts_ms`, token signals, usage) stay reachable.
    pub raw: Json,
}

impl TreeEntry {
    /// The entry was written by the assistant.
    pub open spec fn spec_is_assistant(&self) -> bool {
        self.role@ == "assistant"@
    }

    /// The entry is the session header.
    pub open spec fn spec_is_header(&self) -> bool {
        self.entry_type@ == "header"@
    }

    /// Whether the entry was written by the assistant.
    pub fn is_assistant(&self) -> (res: bool)
        ensures
            res == self.spec_is_assistant(),
    {
        str_eq(self.role.as_str(), "assistant")
    }

    /// Whether the entry is the session header.
    pub fn is_header(&self) -> (res: bool)
        ensures
            res == self.spec_is_header(),
    {
        str_eq(self.entry_type.as_str(), "header")
    }
}

/// The largest index below `n` whose entry has id `id`.
pub open spec fn last_index_below(entries: Seq<TreeEntry>, id: Seq<char>, n: int) -> Option<int>
    decreases n,
{
    if n <= 0 {
        None
    } else if entries[n - 1].id@ == id {
        Some(n - 1)
    } else {
        last_index_below(entries, id, n - 1)
    }
}

/// A resolved index lies below the bound it was searched under.
pub proof fn lemma_last_index_below_range(entries: Seq<TreeEntry>, id: Seq<char>, n: int)
    ensures
        last_index_below(entries, id, n) matches Some(i) ==> 0 <= i < n && entries[i].id@ == id,
    decreases n,
{
    if n > 0 && entries[n - 1].id@ != id {
        lemma_last_index_below_range(entries, id, n - 1);
    }
}

/// Every parent link points at an entry.
pub proof fn lemma_link_in_range(entries: Seq<TreeEntry>, i: int)
    requires
        0 <= i < entries.len(),
    ensures
        spec_link(entries, i) matches ParentLink::Parent(j) ==> (j as int) < entries.len(),
{
    if let Some(p) = entries[i].parent_id {
        lemma_last_index_below_range(entries, p@, entries.len() as int);
    }
}

/// The index an id resolves to: the last entry carrying it.
pub open spec fn index_of_id(entries: Seq<TreeEntry>, id: Seq<char>) -> Option<int> {
    last_index_below(entries, id, entries.len() as int)
}

/// Where an entry's parent pointer leads.
pub enum ParentLink {
    /// The entry names no parent.
    Root,
    /// The parent is the entry at this index.
    Parent(usize),
    /// The entry names a parent that no entry carries.
    Missing,
}

/// The parent link of entry `i`.
pub open spec fn spec_link(entries: Seq<TreeEntry>, i: int) -> ParentLink {
    match entries[i].parent_id {
        None => ParentLink::Root,
        Some(p) => match index_of_id(entries, p@) {
            Some(j) => ParentLink::Parent(j as usize),
            None => ParentLink::Missing,
        },
    }
}

/// `c` is a root-to-leaf path ending at entry `leaf`: distinct in-range
/// indices, the first names no parent, and each later one's parent is the
/// one before it.
pub open spec fn is_chain(entries: Seq<TreeEntry>, c: Seq<usize>, leaf: int) -> bool {
    &&& c.len() > 0
    &&& c.last() == leaf
    &&& c.no_duplicates()
    &&& forall|k: int| 0 <= k < c.len() ==> (c[k] as int) < entries.len()
    &&& spec_link(entries, c[0] as int) == ParentLink::Root
    &&& forall|k: int|
        1 <= k < c.len() ==> #[trigger] spec_link(entries, c[k] as int) == ParentLink::Parent(
            c[k - 1],
        )
}

/// The root-to-leaf path ending at entry `leaf`, when the parent pointers
/// lead to a root without a missing ancestor or a loop.
pub open spec fn chain_from(entries: Seq<TreeEntry>, leaf: int) -> Option<Seq<usize>> {
    if exists|c: Seq<usize>| is_chain(entries, c, leaf) {
        Some(choose|c: Seq<usize>| is_chain(entries, c, leaf))
    } else {
        None
    }
}

/// The root-to-leaf path ending at the entry that `leaf_id` resolves to.
pub open spec fn chain_to(entries: Seq<TreeEntry>, leaf_id: Seq<char>) -> Option<Seq<usize>> {
    match index_of_id(entries, leaf_id) {
        Some(i) => chain_from(entries, i),
        None => None,
    }
}

/// Some entry on the path is not the header.
pub open spec fn has_message(entries: Seq<TreeEntry>, c: Seq<usize>) -> bool {
    exists|k: int| 0 <= k < c.len() && !(#[trigger] entries[c[k] as int]).spec_is_header()
}

/// Two chains ending at the same entry agree position by position, counted
/// from the leaf.
proof fn lemma_chain_suffix(entries: Seq<TreeEntry>, c1: Seq<usize>, c2: Seq<usize>, leaf: int, k: int)
    requires
        is_chain(entries, c1, leaf),
        is_chain(entries, c2, leaf),
        0 <= k < c1.len(),
        k < c2.len(),
    ensures
        c1[c1.len() - 1 - k] == c2[c2.len() - 1 - k],
    decreases k,
{
    if k > 0 {
        lemma_chain_suffix(entries, c1, c2, leaf, k - 1);
        let a = c1.len() - k;
        let b = c2.len() - k;
        assert(spec_link(entries, c1[a] as int) == ParentLink::Parent(c1[a - 1]));
        assert(spec_link(entries, c2[b] as int) == ParentLink::Parent(c2[b - 1]));
    }
}

/// A chain ending at a given entry is unique.
pub proof fn lemma_chain_unique(entries: Seq<TreeEntry>, c1: Seq<usize>, c2: Seq<usize>, leaf: int)
    requires
        is_chain(entries, c1, leaf),
        is_chain(entries, c2, leaf),
    ensures
        c1 == c2,
{
    let n1 = c1.len() as int;
    let n2 = c2.len() as int;
    if n1 < n2 {
        lemma_chain_suffix(entries, c1, c2, leaf, n1 - 1);
        let b = n2 - n1;
        assert(spec_link(entries, c2[b] as int) == ParentLink::Parent(c2[b - 1]));
    } else if n2 < n1 {
        lemma_chain_suffix(entries, c1, c2, leaf, n2 - 1);
        let a = n1 - n2;
        assert(spec_link(entries, c1[a] as int) == ParentLink::Parent(c1[a - 1]));
    }
    assert(c1 =~= c2) by {
        assert forall|t: int| 0 <= t < n1 implies c1[t] == c2[t] by {
            lemma_chain_suffix(entries, c1, c2, leaf, n1 - 1 - t);
        }
    }
}

/// A duplicate-free sequence of indices below `n` has at most `n` elements.
proof fn lemma_distinct_bounded(s: Seq<usize>, n: usize)
    requires
        s.no_duplicates(),
        forall|k: int| 0 <= k < s.len() ==> s[k] < n,
    ensures
        s.len() <= n,
{
    s.unique_seq_to_set();
    vstd::set_lib::range_set_properties::<usize>(0, n);
    assert(s.to_set().subset_of(Set::<usize>::range(0, n))) by {
        assert forall|x: usize| s.to_set().contains(x) implies Set::<usize>::range(0, n).contains(x) by {
            let k = choose|k: int| 0 <= k < s.len() && s[k] == x;
        }
    }
    vstd::set_lib::lemma_len_subset(s.to_set(), Set::<usize>::range(0, n));
}

/// `acc` follows parent links from `leaf` upward: `acc[0]` is the leaf and
/// each element's parent is the next one.
pub open spec fn walks_up(entries: Seq<TreeEntry>, acc: Seq<usize>, leaf: int) -> bool {
    &&& acc.len() >= 1
    &&& acc[0] == leaf
    &&& forall|k: int| 0 <= k < acc.len() ==> (acc[k] as int) < entries.len()
    &&& forall|k: int|
        0 <= k < acc.len() - 1 ==> #[trigger] spec_link(entries, acc[k] as int) == ParentLink::Parent(
            acc[k + 1],
        )
}

/// Any chain to `leaf` runs through the path walked up from it, in reverse.
proof fn lemma_walk_prefix(entries: Seq<TreeEntry>, c: Seq<usize>, leaf: int, acc: Seq<usize>, k: int)
    requires
        is_chain(entries, c, leaf),
        walks_up(entries, acc, leaf),
        0 <= k < acc.len(),
    ensures
        k < c.len(),
        c[c.len() - 1 - k] == acc[k],
    decreases k,
{
    if k > 0 {
        lemma_walk_prefix(entries, c, leaf, acc, k - 1);
        let p = c.len() - k;
        assert(spec_link(entries, acc[k - 1] as int) == ParentLink::Parent(acc[k]));
        if p > 0 {
            assert(spec_link(entries, c[p] as int) == ParentLink::Parent(c[p - 1]));
        }
    }
}

/// The index an optional index names.
pub open spec fn opt_index(o: Option<usize>) -> Option<int> {
    match o {
        Some(i) => Some(i as int),
        None => None,
    }
}

/// The index `id` resolves to: the last entry carrying it.
pub fn find_index_of_id(entries: &Vec<TreeEntry>, id: &str) -> (res: Option<usize>)
    ensures
        opt_index(res) == index_of_id(entries@, id@),
{
    let mut n = entries.len();
    while n > 0
        invariant
            n <= entries@.len(),
            index_of_id(entries@, id@) == last_index_below(entries@, id@, n as int),
        decreases n,
    {
        if str_eq(entries[n - 1].id.as_str(), id) {
            return Some(n - 1);
        }
        n -= 1;
    }
    None
}

/// The parent link of every entry.
pub fn parent_links(entries: &Vec<TreeEntry>) -> (res: Vec<ParentLink>)
    ensures
        res@.len() == entries@.len(),
        forall|i: int| 0 <= i < entries@.len() ==> res@[i] == spec_link(entries@, i),
{
    let mut res: Vec<ParentLink> = Vec::new();
    let mut i: usize = 0;
    while i < entries.len()
        invariant
            i <= entries@.len(),
            res@.len() == i,
            forall|k: int| 0 <= k < i ==> res@[k] == spec_link(entries@, k),
        decreases entries@.len() - i,
    {
        let link = match &entries[i].parent_id {
            None => ParentLink::Root,
            Some(p) => match find_index_of_id(entries, p.as_str()) {
                Some(j) => ParentLink::Parent(j),
                None => ParentLink::Missing,
            },
        };
        res.push(link);
        i += 1;
    }
    res
}

/// The root-to-leaf path ending at entry `leaf`, or `None` when an ancestor
/// is missing or the parent pointers loop.
pub fn walk(entries: &Vec<TreeEntry>, links: &Vec<ParentLink>, leaf: usize) -> (res: Option<Vec<usize>>)
    requires
        leaf < entries@.len(),
        links@.len() == entries@.len(),
        forall|i: int| 0 <= i < entries@.len() ==> links@[i] == spec_link(entries@, i),
    ensures
        match res {
            Some(c) => chain_from(entries@, leaf as int) == Some(c@),
            None => chain_from(entries@, leaf as int) is None,
        },
{
    let n = entries.len();
    let mut visited: Vec<bool> = Vec::new();
    let mut i: usize = 0;
    while i < n
        invariant
            i <= n,
            visited@.len() == i,
            forall|k: int| 0 <= k < i ==> !visited@[k],
        decreases n - i,
    {
        visited.push(false);
        i += 1;
    }
    let mut acc: Vec<usize> = Vec::new();
    acc.push(leaf);
    visited.set(leaf, true);
    assert(acc@.no_duplicates());
    assert forall|i: int| 0 <= i < n implies (visited@[i] <==> acc@.contains(i as usize)) by {
        if i == leaf {
            assert(acc@[0] == leaf);
        }
    }
    loop
        invariant
            n == entries@.len(),
            links@.len() == n,
            forall|i: int| 0 <= i < n ==> links@[i] == spec_link(entries@, i),
            walks_up(entries@, acc@, leaf as int),
            acc@.no_duplicates(),
            visited@.len() == n,
            forall|i: int| 0 <= i < n ==> (visited@[i] <==> acc@.contains(i as usize)),
        ensures
            walks_up(entries@, acc@, leaf as int),
            acc@.no_duplicates(),
            spec_link(entries@, acc@[acc@.len() - 1] as int) == ParentLink::Root,
        decreases n - acc@.len(),
    {
        proof {
            lemma_distinct_bounded(acc@, n);
        }
        let cur = acc[acc.len() - 1];
        match links[cur] {
            ParentLink::Root => {
                break;
            },
            ParentLink::Missing => {
                proof {
                    if exists|c: Seq<usize>| is_chain(entries@, c, leaf as int) {
                        let c = choose|c: Seq<usize>| is_chain(entries@, c, leaf as int);
                        let last = acc@.len() - 1;
                        lemma_walk_prefix(entries@, c, leaf as int, acc@, last);
                        let p = c.len() - 1 - last;
                        if p > 0 {
                            assert(spec_link(entries@, c[p] as int) == ParentLink::Parent(c[p - 1]));
                        }
                    }
                }
                return None;
            },
            ParentLink::Parent(j) => {
                proof {
                    lemma_link_in_range(entries@, cur as int);
                }
                if visited[j] {
                    proof {
                        assert(acc@.contains(j));
                        let m = choose|m: int| 0 <= m < acc@.len() && acc@[m] == j;
                        if exists|c: Seq<usize>| is_chain(entries@, c, leaf as int) {
                            let c = choose|c: Seq<usize>| is_chain(entries@, c, leaf as int);
                            let last = acc@.len() - 1;
                            lemma_walk_prefix(entries@, c, leaf as int, acc@, last);
                            lemma_walk_prefix(entries@, c, leaf as int, acc@, m);
                            let p = c.len() - 1 - last;
                            if p > 0 {
                                assert(spec_link(entries@, c[p] as int) == ParentLink::Parent(c[p - 1]));
                                assert(c[p - 1] == j);
                                assert(c[c.len() - 1 - m] == j);
                            }
                        }
                    }
                    return None;
                }
                proof {
                    assert(spec_link(entries@, cur as int) == ParentLink::Parent(j));
                }
                let ghost old_acc = acc@;
                visited.set(j, true);
                acc.push(j);
                proof {
                    assert forall|k: int| 0 <= k < acc@.len() - 1 implies #[trigger] spec_link(
                        entries@,
                        acc@[k] as int,
                    ) == ParentLink::Parent(acc@[k + 1]) by {
                        if k < old_acc.len() - 1 {
                            assert(spec_link(entries@, old_acc[k] as int) == ParentLink::Parent(old_acc[k + 1]));
                        }
                    }
                    assert forall|i: int| 0 <= i < n implies (visited@[i] <==> acc@.contains(i as usize)) by {
                        if acc@.contains(i as usize) && i != j {
                            let t = choose|t: int| 0 <= t < acc@.len() && acc@[t] == i as usize;
                            assert(old_acc[t] == i as usize);
                        }
                        if i == j {
                            assert(acc@[acc@.len() - 1] == j);
                        }
                        if old_acc.contains(i as usize) {
                            let t = choose|t: int| 0 <= t < old_acc.len() && old_acc[t] == i as usize;
                            assert(acc@[t] == i as usize);
                        }
                    }
                    assert(!old_acc.contains(j));
                    assert(acc@.no_duplicates()) by {
                        assert forall|a: int, b: int| 0 <= a < acc@.len() && 0 <= b < acc@.len() && a != b
                            implies acc@[a] != acc@[b] by {
                            if a == old_acc.len() {
                                assert(old_acc[b] == acc@[b]);
                            } else if b == old_acc.len() {
                                assert(old_acc[a] == acc@[a]);
                            }
                        }
                    }
                    lemma_distinct_bounded(acc@, n);
                }
            },
        }
    }
    // the walk reached a root: reverse it into root-to-leaf order
    let mut chain: Vec<usize> = Vec::new();
    let mut k: usize = acc.len();
    while k > 0
        invariant
            k <= acc@.len(),
            chain@ == acc@.reverse().take(acc@.len() - k),
        decreases k,
    {
        k -= 1;
        chain.push(acc[k]);
        assert(chain@ =~= acc@.reverse().take(acc@.len() - k));
    }
    proof {
        let r = acc@.reverse();
        assert(chain@ =~= r);
        let len = acc@.len() as int;
        assert(r.no_duplicates()) by {
            assert forall|a: int, b: int| 0 <= a < len && 0 <= b < len && a != b implies r[a] != r[b] by {
                assert(r[a] == acc@[len - 1 - a]);
                assert(r[b] == acc@[len - 1 - b]);
            }
        }
        assert forall|t: int| 1 <= t < len implies #[trigger] spec_link(entries@, r[t] as int)
            == ParentLink::Parent(r[t - 1]) by {
            assert(spec_link(entries@, acc@[len - 1 - t] as int) == ParentLink::Parent(acc@[len - 1 - t + 1]));
        }
        assert(is_chain(entries@, r, leaf as int));
        let c = choose|c: Seq<usize>| is_chain(entries@, c, leaf as int);
        lemma_chain_unique(entries@, c, r, leaf as int);
    }
    Some(chain)
}

/// How many of the newest entries the fallback tries as a leaf.
pub const FALLBACK_LEAF_ATTEMPTS: usize = 100;

/// A root-to-leaf chain, and whether the session's own leaf produced it.
pub struct ResolvedChain {
    /// Entry indices from root to leaf.
    pub chain: Vec<usize>,
    /// False when a recorded `session_leaf_id` could not be walked and the
    /// chain came from a fallback. An empty `session_leaf_id` claims nothing
    /// and stays true.
    pub from_recorded_leaf: bool,
}

/// The chain the fallback settles on: trying the entries from the newest
/// one down, the first of `limit` attempts (starting at attempt `k`) whose id
/// leads to a chain holding a message.
pub open spec fn fallback_chain(entries: Seq<TreeEntry>, k: int, limit: int) -> Option<Seq<usize>>
    decreases limit - k,
{
    if k >= limit {
        None
    } else {
        let candidate = chain_to(entries, entries[entries.len() - 1 - k].id@);
        if candidate is Some && has_message(entries, candidate->0) {
            candidate
        } else {
            fallback_chain(entries, k + 1, limit)
        }
    }
}

/// The chain `resolve_chain` returns and whether it came from the recorded leaf.
pub open spec fn spec_resolve_chain(entries: Seq<TreeEntry>, leaf_id: Seq<char>) -> (Seq<usize>, bool) {
    let recorded = chain_to(entries, leaf_id);
    if leaf_id.len() > 0 && recorded is Some && has_message(entries, recorded->0) {
        (recorded->0, true)
    } else {
        let from_recorded_leaf = leaf_id.len() == 0;
        let limit = min_int(FALLBACK_LEAF_ATTEMPTS as int, entries.len() as int);
        match fallback_chain(entries, 0, limit) {
            Some(c) => (c, from_recorded_leaf),
            None => (Seq::new(entries.len(), |i: int| i as usize), from_recorded_leaf),
        }
    }
}

/// Whether some entry on the chain is not the header.
pub fn chain_has_message(entries: &Vec<TreeEntry>, chain: &Vec<usize>) -> (res: bool)
    requires
        forall|k: int| 0 <= k < chain@.len() ==> (chain@[k] as int) < entries@.len(),
    ensures
        res == has_message(entries@, chain@),
{
    let mut k: usize = 0;
    while k < chain.len()
        invariant
            k <= chain@.len(),
            forall|k: int| 0 <= k < chain@.len() ==> (chain@[k] as int) < entries@.len(),
            forall|t: int| 0 <= t < k ==> (#[trigger] entries@[chain@[t] as int]).spec_is_header(),
        decreases chain@.len() - k,
    {
        if !entries[chain[k]].is_header() {
            return true;
        }
        k += 1;
    }
    false
}

/// The chain walked from the entry `leaf_id` resolves to.
fn walk_from_id(entries: &Vec<TreeEntry>, links: &Vec<ParentLink>, leaf_id: &str) -> (res: Option<Vec<usize>>)
    requires
        links@.len() == entries@.len(),
        forall|i: int| 0 <= i < entries@.len() ==> links@[i] == spec_link(entries@, i),
    ensures
        match res {
            Some(c) => chain_to(entries@, leaf_id@) == Some(c@),
            None => chain_to(entries@, leaf_id@) is None,
        },
{
    proof {
        lemma_last_index_below_range(entries@, leaf_id@, entries@.len() as int);
    }
    match find_index_of_id(entries, leaf_id) {
        Some(leaf) => walk(entries, links, leaf),
        None => None,
    }
}

/// A chain is made of entry indices.
proof fn lemma_chain_in_range(entries: Seq<TreeEntry>, leaf_id: Seq<char>)
    ensures
        chain_to(entries, leaf_id) matches Some(c) ==> forall|k: int| 0 <= k < c.len() ==> (c[k] as int) < entries.len(),
{
    if let Some(i) = index_of_id(entries, leaf_id) {
        if exists|c: Seq<usize>| is_chain(entries, c, i) {
            let c = choose|c: Seq<usize>| is_chain(entries, c, i);
        }
    }
}

/// Resolve the root-to-leaf chain the session actually executed.
///
/// Prefers the recorded `session_leaf_id`. When that leaf is missing or its
/// parent chain is broken, falls back to the newest walkable entry and
/// finally to raw file order, so a damaged tree still yields real turns.
pub fn resolve_chain(entries: &Vec<TreeEntry>, leaf_id: &str) -> (res: ResolvedChain)
    ensures
        (res.chain@, res.from_recorded_leaf) == spec_resolve_chain(entries@, leaf_id@),
{
    let links = parent_links(entries);
    if leaf_id.unicode_len() > 0 {
        if let Some(chain) = walk_from_id(entries, &links, leaf_id) {
            proof {
                lemma_chain_in_range(entries@, leaf_id@);
            }
            if chain_has_message(entries, &chain) {
                return ResolvedChain { chain, from_recorded_leaf: true };
            }
        }
    }
    let from_recorded_leaf = leaf_id.unicode_len() == 0;
    let n = entries.len();
    let limit = if FALLBACK_LEAF_ATTEMPTS < n { FALLBACK_LEAF_ATTEMPTS } else { n };
    let mut k: usize = 0;
    while k < limit
        invariant
            k <= limit,
            limit == min_int(FALLBACK_LEAF_ATTEMPTS as int, entries@.len() as int),
            n == entries@.len(),
            links@.len() == entries@.len(),
            forall|i: int| 0 <= i < entries@.len() ==> links@[i] == spec_link(entries@, i),
            fallback_chain(entries@, 0, limit as int) == fallback_chain(entries@, k as int, limit as int),
            from_recorded_leaf == (leaf_id@.len() == 0),
            !(leaf_id@.len() > 0 && chain_to(entries@, leaf_id@) is Some && has_message(
                entries@,
                chain_to(entries@, leaf_id@)->0,
            )),
        decreases limit - k,
    {
        let index = n - 1 - k;
        if let Some(chain) = walk_from_id(entries, &links, entries[index].id.as_str()) {
            proof {
                lemma_chain_in_range(entries@, entries@[index as int].id@);
            }
            if chain_has_message(entries, &chain) {
                return ResolvedChain { chain, from_recorded_leaf };
            }
        }
        k += 1;
    }
    let mut chain: Vec<usize> = Vec::new();
    let mut i: usize = 0;
    while i < n
        invariant
            i <= n,
            n == entries@.len(),
            chain@ == Seq::new(i as nat, |t: int| t as usize),
        decreases n - i,
    {
        chain.push(i);
        i += 1;
        assert(chain@ =~= Seq::new(i as nat, |t: int| t as usize));
    }
    ResolvedChain { chain, from_recorded_leaf }
}

/// One reconstructed LLM cycle: the prompt-side entries plus the assistant
/// entry that closed it.
#[derive(Debug)]
pub struct TurnDraft {
    /// Indices of prompt-side entries, in order.
    pub prompt: Vec<usize>,
    /// Index of the assistant entry that closed the turn.
    pub assistant: Option<usize>,
}

/// A turn as plain values: its prompt indices and its closing assistant entry.
pub open spec fn turn_view(t: TurnDraft) -> (Seq<usize>, Option<usize>) {
    (t.prompt@, t.assistant)
}

/// The turns a chain splits into, given the prompt entries already collected:
/// headers are skipped, each assistant entry closes a turn, and a prompt left
/// open at the end forms a last turn without an assistant.
pub open spec fn group_from(entries: Seq<TreeEntry>, chain: Seq<usize>, prompt: Seq<usize>) -> Seq<
    (Seq<usize>, Option<usize>),
>
    decreases chain.len(),
{
    if chain.len() == 0 {
        if prompt.len() > 0 {
            seq![(prompt, None)]
        } else {
            seq![]
        }
    } else {
        let i = chain[0];
        let rest = chain.drop_first();
        if entries[i as int].spec_is_header() {
            group_from(entries, rest, prompt)
        } else if entries[i as int].spec_is_assistant() {
            seq![(prompt, Some(i))] + group_from(entries, rest, seq![])
        } else {
            group_from(entries, rest, prompt.push(i))
        }
    }
}

/// Group a root-to-leaf chain into turns at assistant-message boundaries.
pub fn group_turns(entries: &Vec<TreeEntry>, chain: &Vec<usize>) -> (res: Vec<TurnDraft>)
    requires
        forall|k: int| 0 <= k < chain@.len() ==> (chain@[k] as int) < entries@.len(),
    ensures
        res@.map_values(|t: TurnDraft| turn_view(t)) == group_from(entries@, chain@, seq![]),
{
    let mut turns: Vec<TurnDraft> = Vec::new();
    let mut prompt: Vec<usize> = Vec::new();
    let mut k: usize = 0;
    assert(chain@.skip(0) =~= chain@);
    while k < chain.len()
        invariant
            k <= chain@.len(),
            forall|k: int| 0 <= k < chain@.len() ==> (chain@[k] as int) < entries@.len(),
            turns@.map_values(|t: TurnDraft| turn_view(t)) + group_from(
                entries@,
                chain@.skip(k as int),
                prompt@,
            ) == group_from(entries@, chain@, seq![]),
        decreases chain@.len() - k,
    {
        let index = chain[k];
        let ghost before = turns@.map_values(|t: TurnDraft| turn_view(t));
        let ghost rest = chain@.skip(k as int);
        assert(rest.drop_first() =~= chain@.skip(k + 1));
        assert(rest[0] == index);
        if entries[index].is_header() {
        } else if entries[index].is_assistant() {
            let ghost closed = (prompt@, Some(index));
            let finished = TurnDraft { prompt, assistant: Some(index) };
            turns.push(finished);
            prompt = Vec::new();
            assert(turns@.map_values(|t: TurnDraft| turn_view(t)) =~= before.push(closed));
            assert(before + (seq![closed] + group_from(entries@, chain@.skip(k + 1), seq![]))
                =~= before.push(closed) + group_from(entries@, chain@.skip(k + 1), seq![]));
        } else {
            prompt.push(index);
        }
        k += 1;
    }
    if prompt.len() > 0 {
        let ghost before = turns@.map_values(|t: TurnDraft| turn_view(t));
        let ghost last = (prompt@, None::<usize>);
        turns.push(TurnDraft { prompt, assistant: None });
        assert(turns@.map_values(|t: TurnDraft| turn_view(t)) =~= before + seq![last]);
    } else {
        assert(turns@.map_values(|t: TurnDraft| turn_view(t)) + seq![] =~= turns@.map_values(
            |t: TurnDraft| turn_view(t),
        ));
    }
    turns
}

/// The entries of a chain that are not the header, in order.
pub open spec fn message_entries(entries: Seq<TreeEntry>, chain: Seq<usize>) -> Seq<usize>
    decreases chain.len(),
{
    if chain.len() == 0 {
        seq![]
    } else if entries[chain[0] as int].spec_is_header() {
        message_entries(entries, chain.drop_first())
    } else {
        seq![chain[0]] + message_entries(entries, chain.drop_first())
    }
}

/// The entries of a sequence of turns read in order: each turn's prompt,
/// then its assistant entry.
pub open spec fn flatten_turns(turns: Seq<(Seq<usize>, Option<usize>)>) -> Seq<usize>
    decreases turns.len(),
{
    if turns.len() == 0 {
        seq![]
    } else {
        let closing = match turns[0].1 {
            Some(a) => seq![a],
            None => seq![],
        };
        turns[0].0 + closing + flatten_turns(turns.drop_first())
    }
}

/// Every turn's prompt holds only non-header, non-assistant entries; every
/// turn's assistant entry is an assistant entry; only the last turn may lack
/// one; and no turn is empty.
pub open spec fn well_formed_turns(entries: Seq<TreeEntry>, turns: Seq<(Seq<usize>, Option<usize>)>) -> bool {
    &&& forall|t: int, p: int|
        0 <= t < turns.len() && 0 <= p < turns[t].0.len() ==> {
            let e = #[trigger] entries[turns[t].0[p] as int];
            !e.spec_is_header() && !e.spec_is_assistant()
        }
    &&& forall|t: int|
        0 <= t < turns.len() && (#[trigger] turns[t]).1 is Some ==> entries[turns[t].1->0 as int].spec_is_assistant()
    &&& forall|t: int| 0 <= t < turns.len() - 1 ==> (#[trigger] turns[t]).1 is Some
    &&& forall|t: int|
        0 <= t < turns.len() ==> (#[trigger] turns[t]).0.len() > 0 || turns[t].1 is Some
}

proof fn lemma_group_from(entries: Seq<TreeEntry>, chain: Seq<usize>, prompt: Seq<usize>)
    requires
        forall|p: int| 0 <= p < prompt.len() ==> {
            let e = #[trigger] entries[prompt[p] as int];
            !e.spec_is_header() && !e.spec_is_assistant()
        },
    ensures
        flatten_turns(group_from(entries, chain, prompt)) == prompt + message_entries(entries, chain),
        well_formed_turns(entries, group_from(entries, chain, prompt)),
    decreases chain.len(),
{
    let g = group_from(entries, chain, prompt);
    if chain.len() == 0 {
        if prompt.len() > 0 {
            assert(flatten_turns(g) =~= prompt + seq![] + flatten_turns(g.drop_first()));
            assert(g.drop_first() =~= seq![]);
        } else {
            assert(prompt =~= seq![]);
        }
        assert(prompt + message_entries(entries, chain) =~= prompt);
    } else {
        let i = chain[0];
        let rest = chain.drop_first();
        if entries[i as int].spec_is_header() {
            lemma_group_from(entries, rest, prompt);
        } else if entries[i as int].spec_is_assistant() {
            lemma_group_from(entries, rest, seq![]);
            let tail = group_from(entries, rest, seq![]);
            assert(g.drop_first() =~= tail);
            assert(g[0] == (prompt, Some(i)));
            assert(seq![] + message_entries(entries, rest) =~= message_entries(entries, rest));
            assert(flatten_turns(g) =~= prompt + seq![i] + flatten_turns(tail));
            assert(prompt + message_entries(entries, chain) =~= prompt + seq![i] + message_entries(entries, rest));
            assert(well_formed_turns(entries, g)) by {
                assert forall|t: int| 0 <= t < g.len() - 1 implies (#[trigger] g[t]).1 is Some by {
                    if t > 0 {
                        assert(g[t] == tail[t - 1]);
                    }
                }
                assert forall|t: int, p: int|
                    0 <= t < g.len() && 0 <= p < g[t].0.len() implies {
                        let e = #[trigger] entries[g[t].0[p] as int];
                        !e.spec_is_header() && !e.spec_is_assistant()
                    } by {
                    if t > 0 {
                        assert(g[t] == tail[t - 1]);
                    }
                }
                assert forall|t: int|
                    0 <= t < g.len() && (#[trigger] g[t]).1 is Some implies entries[g[t].1->0 as int].spec_is_assistant() by {
                    if t > 0 {
                        assert(g[t] == tail[t - 1]);
                    }
                }
                assert forall|t: int| 0 <= t < g.len() implies (#[trigger] g[t]).0.len() > 0 || g[t].1 is Some by {
                    if t > 0 {
                        assert(g[t] == tail[t - 1]);
                    }
                }
            }
        } else {
            let pushed = prompt.push(i);
            assert forall|p: int| 0 <= p < pushed.len() implies {
                let e = #[trigger] entries[pushed[p] as int];
                !e.spec_is_header() && !e.spec_is_assistant()
            } by {
                if p < prompt.len() {
                    assert(pushed[p] == prompt[p]);
                }
            }
            lemma_group_from(entries, rest, pushed);
            assert(pushed + message_entries(entries, rest) =~= prompt + message_entries(entries, chain));
        }
    }
}

/// Turn grouping loses and invents nothing: reading the turns in order gives
/// back exactly the chain's non-header entries, prompts hold no assistant or
/// header entries, each closing entry is an assistant entry, and only the
/// last turn may be left without one.
pub proof fn law_turns_partition_the_chain(entries: Seq<TreeEntry>, chain: Seq<usize>)
    ensures
        flatten_turns(group_from(entries, chain, seq![])) == message_entries(entries, chain),
        well_formed_turns(entries, group_from(entries, chain, seq![])),
{
    lemma_group_from(entries, chain, seq![]);
    assert(seq![] + message_entries(entries, chain) =~= message_entries(entries, chain));
}

proof fn lemma_fallback_is_chain(entries: Seq<TreeEntry>, k: int, limit: int)
    requires
        limit <= entries.len(),
    ensures
        fallback_chain(entries, k, limit) matches Some(c) ==> (exists|leaf: int| is_chain(entries, c, leaf))
            && has_message(entries, c),
    decreases limit - k,
{
    if k < limit {
        let candidate = chain_to(entries, entries[entries.len() - 1 - k].id@);
        if candidate is Some && has_message(entries, candidate->0) {
            let i = index_of_id(entries, entries[entries.len() - 1 - k].id@)->0;
            assert(is_chain(entries, candidate->0, i));
        } else {
            lemma_fallback_is_chain(entries, k + 1, limit);
        }
    }
}

/// A resolved chain is never made up: it is the recorded leaf's own
/// root-to-leaf path when it is reported as coming from that leaf, otherwise
/// a genuine root-to-leaf path holding a message, or, when no leaf yields
/// one, the entries in file order.
pub proof fn law_resolved_chain_is_genuine(entries: Seq<TreeEntry>, leaf_id: Seq<char>)
    ensures
        ({
            let (c, from_recorded_leaf) = spec_resolve_chain(entries, leaf_id);
            &&& (from_recorded_leaf && leaf_id.len() > 0) ==> chain_to(entries, leaf_id) == Some(c)
                && has_message(entries, c)
            &&& ((exists|leaf: int| is_chain(entries, c, leaf)) && has_message(entries, c))
                || c == Seq::new(entries.len(), |i: int| i as usize)
        }),
{
    let limit = min_int(FALLBACK_LEAF_ATTEMPTS as int, entries.len() as int);
    lemma_fallback_is_chain(entries, 0, limit);
    let recorded = chain_to(entries, leaf_id);
    if leaf_id.len() > 0 && recorded is Some && has_message(entries, recorded->0) {
        let i = index_of_id(entries, leaf_id)->0;
        assert(is_chain(entries, recorded->0, i));
    }
}

/// The span queue kept for `id`: the first entry carrying that key.
pub open spec fn queue_for(queues: Seq<(String, Vec<usize>)>, id: Seq<char>) -> Option<Seq<usize>>
    decreases queues.len(),
{
    if queues.len() == 0 {
        None
    } else if queues[0].0@ == id {
        Some(queues[0].1@)
    } else {
        queue_for(queues.drop_first(), id)
    }
}

/// The earliest span of `queue` not yet claimed.
pub open spec fn first_unclaimed(queue: Seq<usize>, claimed: Seq<bool>) -> Option<usize>
    decreases queue.len(),
{
    if queue.len() == 0 {
        None
    } else if !claimed[queue[0] as int] {
        Some(queue[0])
    } else {
        first_unclaimed(queue.drop_first(), claimed)
    }
}

/// The span `claim_span` hands out for `id`.
pub open spec fn spec_claim(queues: Seq<(String, Vec<usize>)>, claimed: Seq<bool>, id: Seq<char>) -> Option<usize> {
    match queue_for(queues, id) {
        Some(q) => first_unclaimed(q, claimed),
        None => None,
    }
}

/// Every queued span index lies within the claim table.
pub open spec fn queues_in_range(queues: Seq<(String, Vec<usize>)>, n: int) -> bool {
    forall|q: int, k: int|
        0 <= q < queues.len() && 0 <= k < queues[q].1@.len() ==> (#[trigger] queues[q].1@[k] as int) < n
}

/// Take the earliest span carrying `id` that no decision has claimed yet,
/// and mark it claimed.
pub fn claim_span(span_queue_by_id: &Vec<(String, Vec<usize>)>, span_claimed: &mut Vec<bool>, id: &str) -> (res: Option<usize>)
    requires
        queues_in_range(span_queue_by_id@, old(span_claimed)@.len() as int),
    ensures
        res == spec_claim(span_queue_by_id@, old(span_claimed)@, id@),
        match res {
            Some(i) => final(span_claimed)@ == old(span_claimed)@.update(i as int, true),
            None => final(span_claimed)@ == old(span_claimed)@,
        },
{
    let mut q: usize = 0;
    assert(span_queue_by_id@.skip(0) =~= span_queue_by_id@);
    while q < span_queue_by_id.len()
        invariant
            q <= span_queue_by_id@.len(),
            queue_for(span_queue_by_id@, id@) == queue_for(span_queue_by_id@.skip(q as int), id@),
            span_claimed@ == old(span_claimed)@,
            queues_in_range(span_queue_by_id@, span_claimed@.len() as int),
        decreases span_queue_by_id@.len() - q,
    {
        assert(span_queue_by_id@.skip(q as int).drop_first() =~= span_queue_by_id@.skip(q + 1));
        assert(span_queue_by_id@.skip(q as int)[0] == span_queue_by_id@[q as int]);
        if str_eq(span_queue_by_id[q].0.as_str(), id) {
            let queue = &span_queue_by_id[q].1;
            assert(queue_for(span_queue_by_id@, id@) == Some(queue@));
            let mut k: usize = 0;
            assert(queue@.skip(0) =~= queue@);
            while k < queue.len()
                invariant
                    k <= queue@.len(),
                    queue@ == span_queue_by_id@[q as int].1@,
                    span_claimed@ == old(span_claimed)@,
                    queue_for(span_queue_by_id@, id@) == Some(queue@),
                    queues_in_range(span_queue_by_id@, span_claimed@.len() as int),
                    0 <= q < span_queue_by_id@.len(),
                    first_unclaimed(queue@, span_claimed@) == first_unclaimed(queue@.skip(k as int), span_claimed@),
                decreases queue@.len() - k,
            {
                assert(queue@.skip(k as int).drop_first() =~= queue@.skip(k + 1));
                assert(queue@.skip(k as int)[0] == queue@[k as int]);
                let index = queue[k];
                assert((span_queue_by_id@[q as int].1@[k as int] as int) < span_claimed@.len());
                if !span_claimed[index] {
                    span_claimed.set(index, true);
                    return Some(index);
                }
                k += 1;
            }
            return None;
        }
        q += 1;
    }
    None
}

/// Claims are handed out in execution order and never twice: a claimed span
/// was unclaimed and carries the id, and every earlier span queued for the id
/// had already been claimed.
pub proof fn law_claims_are_first_come(queue: Seq<usize>, claimed: Seq<bool>)
    ensures
        first_unclaimed(queue, claimed) matches Some(i) ==> {
            &&& !claimed[i as int]
            &&& exists|k: int| 0 <= k < queue.len() && queue[k] == i && forall|t: int|
                0 <= t < k ==> claimed[#[trigger] queue[t] as int]
        },
        first_unclaimed(queue, claimed) is None ==> forall|t: int| 0 <= t < queue.len() ==> claimed[#[trigger] queue[t] as int],
    decreases queue.len(),
{
    if queue.len() > 0 {
        law_claims_are_first_come(queue.drop_first(), claimed);
        if claimed[queue[0] as int] {
            if let Some(i) = first_unclaimed(queue.drop_first(), claimed) {
                let k = choose|k: int| 0 <= k < queue.drop_first().len() && queue.drop_first()[k] == i && forall|t: int|
                    0 <= t < k ==> claimed[#[trigger] queue.drop_first()[t] as int];
                assert(queue[k + 1] == i);
                assert forall|t: int| 0 <= t < k + 1 implies claimed[#[trigger] queue[t] as int] by {
                    if t > 0 {
                        assert(queue[t] == queue.drop_first()[t - 1]);
                    }
                }
            } else {
                assert forall|t: int| 0 <= t < queue.len() implies claimed[#[trigger] queue[t] as int] by {
                    if t > 0 {
                        assert(queue[t] == queue.drop_first()[t - 1]);
                    }
                }
            }
        } else {
            assert(queue[0] == queue[0]);
        }
    }
}

} // verus!
