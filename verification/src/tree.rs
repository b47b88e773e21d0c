//! The process hierarchy: every record of the enriched table becomes a node,
//! linked under the node of the parent that its record names, and annotated
//! with its depth.
//!
//! Nodes live in a table keyed by pid and refer to one another by pid.

use std::collections::HashMap;
use vstd::prelude::*;
use vstd::std_specs::hash::*;
use vstd::string::StringExecFns;
use crate::correlate::{
    enriched_map, entry_views, flattened, get_processes_map, lemma_sample_of, pids_of,
    record_views, referenced, sample_of, sample_views, snapshot_failure, snapshot_map,
};
use crate::depth::{
    compute_depth, depth_of, depth_view, ends_after, lemma_depth_counts_hops,
    lemma_no_depth_without_end,
};
use crate::error::{ApiError, ApiErrorView};
use crate::process::{ProcessInfo, ProcessInfoView, ProcessSample, ProcessSampleView};
use crate::socket::{SockInfoView, SocketEntry};
use crate::uptime::ProcessUptime;

verus! {

broadcast use vstd::std_specs::hash::group_hash_axioms;

/// Whether every parent that a record names has an entry of its own.
pub open spec fn parent_closed(table: Map<u32, ProcessInfoView>) -> bool {
    forall|pid: u32| #[trigger]
        table.contains_key(pid) ==> (table[pid].ppid matches Some(parent) ==> table.contains_key(
            parent,
        ))
}

/// The parent that a node is linked under: the pid that its record names,
/// provided that it has an entry and is not the node itself. A pid without
/// an entry has no linked parent.
pub open spec fn linked_parent(table: Map<u32, ProcessInfoView>, pid: u32) -> Option<u32> {
    if table.contains_key(pid) {
        match table[pid].ppid {
            Some(parent) => if parent != pid && table.contains_key(parent) {
                Some(parent)
            } else {
                None
            },
            None => None,
        }
    } else {
        None
    }
}

/// The parent that the node of `pid` is linked under.
pub fn find_linked_parent(process_map: &HashMap<u32, ProcessInfo>, pid: u32) -> (parent: Option<
    u32,
>)
    ensures
        parent == linked_parent(record_views(process_map@), pid),
{
    match process_map.get(&pid) {
        Some(record) => match record.ppid {
            Some(parent) => if parent != pid && process_map.contains_key(&parent) {
                Some(parent)
            } else {
                None
            },
            None => None,
        },
        None => None,
    }
}

/// One process in the hierarchy.
///
/// `parent` and `children` hold the pids of the nodes that this one is
/// linked to; `depth` is absent where the chain of parents does not end.
#[derive(Clone, Debug, PartialEq, Eq)]
pub struct ProcessTreeNode {
    pub value: ProcessInfo,
    pub parent: Option<u32>,
    pub children: Vec<u32>,
    pub depth: Option<usize>,
}

/// Mathematical model of [`ProcessTreeNode`].
pub struct ProcessTreeNodeView {
    pub value: ProcessInfoView,
    pub parent: Option<u32>,
    pub children: Seq<u32>,
    pub depth: Option<nat>,
}

impl View for ProcessTreeNode {
    type V = ProcessTreeNodeView;

    open spec fn view(&self) -> ProcessTreeNodeView {
        ProcessTreeNodeView {
            value: self.value@,
            parent: self.parent,
            children: self.children@,
            depth: depth_view(self.depth),
        }
    }
}

/// The process hierarchy of one snapshot: its nodes by pid, and the pids of
/// the nodes that are linked under no parent.
#[derive(Clone, Debug, PartialEq, Eq)]
pub struct ProcessForest {
    pub nodes: HashMap<u32, ProcessTreeNode>,
    pub roots: Vec<u32>,
}

/// Mathematical model of [`ProcessForest`].
pub struct ProcessForestView {
    pub nodes: Map<u32, ProcessTreeNodeView>,
    pub roots: Seq<u32>,
}

impl View for ProcessForest {
    type V = ProcessForestView;

    open spec fn view(&self) -> ProcessForestView {
        ProcessForestView {
            nodes: self.nodes@.map_values(|n: ProcessTreeNode| n@),
            roots: self.roots@,
        }
    }
}

/// What it is for a pid to be linked under `parent`.
pub open spec fn is_child_of(table: Map<u32, ProcessInfoView>, parent: u32) -> spec_fn(
    u32,
) -> bool {
    |pid: u32| linked_parent(table, pid) == Some(parent)
}

/// What it is for a pid to be linked under no parent.
pub open spec fn is_root(table: Map<u32, ProcessInfoView>) -> spec_fn(u32) -> bool {
    |pid: u32| linked_parent(table, pid) is None
}

impl ProcessTreeNodeView {
    /// Whether this is the node of `pid` with the entries listed in `linked`
    /// linked under their parents: it holds the record, the linked parent
    /// and the depth of `pid`, and its children are the entries of `linked`
    /// whose linked parent is `pid`, in the order of `linked`.
    pub open spec fn follows(
        self,
        table: Map<u32, ProcessInfoView>,
        pid: u32,
        linked: Seq<u32>,
    ) -> bool {
        &&& self.value == table[pid]
        &&& self.parent == linked_parent(table, pid)
        &&& self.depth == depth_of(table, pid)
        &&& self.children == linked.filter(is_child_of(table, pid))
    }

    /// Whether this is the node of `pid` in the hierarchy of `table`: it holds
    /// the record, the linked parent and the depth of `pid`, and its children
    /// are, each once, the entries whose linked parent is `pid`.
    pub open spec fn describes(self, table: Map<u32, ProcessInfoView>, pid: u32) -> bool {
        &&& self.value == table[pid]
        &&& self.parent == linked_parent(table, pid)
        &&& self.depth == depth_of(table, pid)
        &&& self.children.no_duplicates()
        &&& forall|child: u32|
            self.children.contains(child) <==> table.contains_key(child) && linked_parent(
                table,
                child,
            ) == Some(pid)
    }
}

impl ProcessForestView {
    /// Whether this is the hierarchy of `table` laid out in the order of
    /// `order`, a list of the keys of `table` that holds each once: there is
    /// one node for each entry, its children are what is linked under it, and
    /// the roots are what is linked under no parent, all in the order of
    /// `order`.
    pub open spec fn follows(self, table: Map<u32, ProcessInfoView>, order: Seq<u32>) -> bool {
        &&& order.no_duplicates()
        &&& order.to_set() == table.dom()
        &&& self.nodes.dom() == table.dom()
        &&& forall|pid: u32| #[trigger]
            self.nodes.contains_key(pid) ==> self.nodes[pid].follows(table, pid, order)
        &&& self.roots == order.filter(is_root(table))
    }

    /// Whether this is the hierarchy of `table`: one node for each entry, and
    /// for roots, each once, the entries that are linked under no parent.
    pub open spec fn describes(self, table: Map<u32, ProcessInfoView>) -> bool {
        &&& self.nodes.dom() == table.dom()
        &&& forall|pid: u32| #[trigger]
            self.nodes.contains_key(pid) ==> self.nodes[pid].describes(table, pid)
        &&& self.roots.no_duplicates()
        &&& forall|pid: u32|
            self.roots.contains(pid) <==> table.contains_key(pid) && linked_parent(table, pid)
                is None
    }
}

/// A list without duplicates stays so when a pid that it does not hold is
/// appended, and then holds that pid besides what it held.
proof fn lemma_push_fresh(list: Seq<u32>, pid: u32)
    requires
        list.no_duplicates(),
        !list.contains(pid),
    ensures
        list.push(pid).no_duplicates(),
        forall|p: u32| list.push(pid).contains(p) <==> list.contains(p) || p == pid,
{
    let longer = list.push(pid);
    assert forall|p: u32| longer.contains(p) <==> list.contains(p) || p == pid by {
        vstd::seq_lib::lemma_seq_contains_after_push(list, pid, p);
    }
    assert forall|a: int, b: int|
        0 <= a < longer.len() && 0 <= b < longer.len() && a != b implies longer[a]
        != longer[b] by {
        if a < list.len() {
            assert(list.contains(list[a]));
        }
        if b < list.len() {
            assert(list.contains(list[b]));
        }
    }
}

/// What is selected from a list without duplicates is without duplicates,
/// and holds what the list holds and the selection accepts.
pub proof fn lemma_filter_members(order: Seq<u32>, accepts: spec_fn(u32) -> bool)
    requires
        order.no_duplicates(),
    ensures
        order.filter(accepts).no_duplicates(),
        forall|pid: u32|
            order.filter(accepts).contains(pid) <==> order.contains(pid) && accepts(pid),
    decreases order.len(),
{
    reveal(Seq::filter);
    if order.len() > 0 {
        let shorter = order.drop_last();
        let last = order.last();
        assert(order =~= shorter.push(last));
        lemma_filter_members(shorter, accepts);
        if shorter.contains(last) {
            let j = choose|j: int| 0 <= j < shorter.len() && shorter[j] == last;
            assert(order[j] == order[order.len() - 1]);
        }
        assert forall|pid: u32| order.contains(pid) <==> shorter.contains(pid) || pid == last by {
            vstd::seq_lib::lemma_seq_contains_after_push(shorter, last, pid);
        }
        if accepts(last) {
            lemma_push_fresh(shorter.filter(accepts), last);
        }
    }
}

/// A hierarchy laid out in some order of the keys is the hierarchy of the
/// table.
pub proof fn lemma_follows_describes(
    forest: ProcessForestView,
    table: Map<u32, ProcessInfoView>,
    order: Seq<u32>,
)
    requires
        forest.follows(table, order),
    ensures
        forest.describes(table),
{
    assert forall|pid: u32| order.contains(pid) <==> table.contains_key(pid) by {
        assert(order.contains(pid) <==> order.to_set().contains(pid));
    }
    lemma_filter_members(order, is_root(table));
    assert forall|pid: u32| #[trigger]
        forest.nodes.contains_key(pid) implies forest.nodes[pid].describes(table, pid) by {
        assert(forest.nodes[pid].follows(table, pid, order));
        lemma_filter_members(order, is_child_of(table, pid));
    }
}

/// The message of the failure that an unresolved parent is reported with.
pub open spec fn unresolved_parent_message() -> Seq<char> {
    "a record names a parent that has no entry"@
}

/// Whether every record among the first `checked` of `pids` names a parent
/// that has an entry, if it names one.
spec fn closed_upto(table: Map<u32, ProcessInfoView>, pids: Seq<u32>, checked: int) -> bool {
    forall|j: int|
        0 <= j < checked ==> (table[#[trigger] pids[j]].ppid matches Some(parent)
            ==> table.contains_key(parent))
}

/// Finds out whether every parent that a record names has an entry.
pub fn check_parents(process_map: &HashMap<u32, ProcessInfo>) -> (closed: bool)
    ensures
        closed == parent_closed(record_views(process_map@)),
{
    let ghost table = record_views(process_map@);
    let pids = pids_of(process_map);
    assert(table.dom() =~= process_map@.dom());
    let mut i: usize = 0;
    while i < pids.len()
        invariant
            i <= pids.len(),
            table == record_views(process_map@),
            pids@.to_set() == process_map@.dom(),
            closed_upto(table, pids@, i as int),
        decreases pids.len() - i,
    {
        let pid = pids[i];
        assert(pids@.to_set().contains(pid));
        match process_map.get(&pid) {
            Some(record) => {
                if let Some(parent) = record.ppid {
                    if !process_map.contains_key(&parent) {
                        assert(table.contains_key(pid));
                        return false;
                    }
                }
            },
            None => {},
        }
        i += 1;
    }
    proof {
        assert forall|pid: u32| #[trigger] table.contains_key(pid) implies (table[pid].ppid
            matches Some(parent) ==> table.contains_key(parent)) by {
            assert(pids@.to_set().contains(pid));
            let j = choose|j: int| 0 <= j < pids@.len() && pids@[j] == pid;
            assert(pids@[j] == pid);
        }
    }
    true
}

/// Whether `forest` holds the nodes of the first `made` of `pids`, none of
/// them linked to a child yet, and the roots among them.
spec fn nodes_made(
    forest: ProcessForestView,
    table: Map<u32, ProcessInfoView>,
    pids: Seq<u32>,
    made: int,
) -> bool {
    &&& forall|pid: u32| forest.nodes.contains_key(pid) <==> pids.take(made).contains(pid)
    &&& forall|pid: u32| #[trigger]
        forest.nodes.contains_key(pid) ==> forest.nodes[pid].follows(table, pid, Seq::empty())
    &&& forest.roots == pids.take(made).filter(is_root(table))
}

/// Whether `forest` holds the node of every entry, with the first `linked`
/// of `pids` linked under their parents, and the roots.
spec fn nodes_linked(
    forest: ProcessForestView,
    table: Map<u32, ProcessInfoView>,
    pids: Seq<u32>,
    linked: int,
) -> bool {
    &&& forest.nodes.dom() == table.dom()
    &&& forall|pid: u32| #[trigger]
        forest.nodes.contains_key(pid) ==> forest.nodes[pid].follows(
            table,
            pid,
            pids.take(linked),
        )
    &&& forest.roots == pids.filter(is_root(table))
}

/// Nothing is selected from the empty list.
proof fn lemma_filter_nothing(accepts: spec_fn(u32) -> bool)
    ensures
        Seq::<u32>::empty().filter(accepts) == Seq::<u32>::empty(),
{
    reveal(Seq::filter);
}

/// Makes the node of every entry, linked to no child yet, and lists the
/// roots.
fn make_nodes(process_map: &HashMap<u32, ProcessInfo>, pids: &Vec<u32>) -> (forest: ProcessForest)
    requires
        pids@.no_duplicates(),
        pids@.to_set() == process_map@.dom(),
    ensures
        nodes_linked(forest@, record_views(process_map@), pids@, 0),
{
    let ghost table = record_views(process_map@);
    let mut forest = ProcessForest { nodes: HashMap::new(), roots: Vec::new() };
    let mut i: usize = 0;
    proof {
        assert(pids@.take(0) =~= Seq::<u32>::empty());
        lemma_filter_nothing(is_root(table));
    }
    while i < pids.len()
        invariant
            i <= pids.len(),
            table == record_views(process_map@),
            pids@.to_set() == process_map@.dom(),
            nodes_made(forest@, table, pids@, i as int),
        decreases pids.len() - i,
    {
        let pid = pids[i];
        assert(pids@.to_set().contains(pid));
        let parent = find_linked_parent(process_map, pid);
        let depth = compute_depth(process_map, pid);
        let value = match process_map.get(&pid) {
            Some(record) => record.clone(),
            None => ProcessInfo::placeholder(pid),
        };
        let ghost before = forest@;
        let node = ProcessTreeNode { value, parent, children: Vec::new(), depth };
        forest.nodes.insert(pid, node);
        if parent.is_none() {
            forest.roots.push(pid);
        }
        proof {
            let seen = pids@.take(i as int);
            assert(pids@.take(i + 1) =~= seen.push(pid));
            assert forall|p: u32| seen.push(pid).contains(p) <==> seen.contains(p) || p == pid by {
                vstd::seq_lib::lemma_seq_contains_after_push(seen, pid, p);
            }
            seen.lemma_filter_push(pid, is_root(table));
            assert(is_root(table)(pid) == (parent is None));
            if parent is None {
                assert(forest@.roots == before.roots.push(pid));
            } else {
                assert(forest@.roots == before.roots);
            }
            assert(forest@.roots == pids@.take(i + 1).filter(is_root(table)));
            lemma_filter_nothing(is_child_of(table, pid));
            assert(node@.follows(table, pid, Seq::empty()));
            assert(forest@.nodes =~= before.nodes.insert(pid, node@));
            assert forall|p: u32|
                forest@.nodes.contains_key(p) <==> pids@.take(i + 1).contains(p) by {
                assert(before.nodes.contains_key(p) <==> seen.contains(p));
            }
        }
        i += 1;
    }
    proof {
        assert(pids@.take(pids.len() as int) =~= pids@);
        assert forall|pid: u32| pids@.contains(pid) <==> table.contains_key(pid) by {
            assert(pids@.contains(pid) <==> pids@.to_set().contains(pid));
        }
        assert(forest@.nodes.dom() =~= table.dom());
        assert(pids@.take(0) =~= Seq::<u32>::empty());
    }
    forest
}

/// Enters every node that has a linked parent into the children of that
/// parent's node.
fn link_children(
    forest: &mut ProcessForest,
    process_map: &HashMap<u32, ProcessInfo>,
    pids: &Vec<u32>,
)
    requires
        pids@.no_duplicates(),
        pids@.to_set() == process_map@.dom(),
        nodes_linked(old(forest)@, record_views(process_map@), pids@, 0),
    ensures
        final(forest)@.follows(record_views(process_map@), pids@),
{
    let ghost table = record_views(process_map@);
    let mut k: usize = 0;
    while k < pids.len()
        invariant
            k <= pids.len(),
            table == record_views(process_map@),
            nodes_linked(forest@, table, pids@, k as int),
        decreases pids.len() - k,
    {
        let pid = pids[k];
        let ghost before = forest@;
        let ghost seen = pids@.take(k as int);
        proof {
            assert(pids@.take(k + 1) =~= seen.push(pid));
            assert forall|p: u32|
                seen.push(pid).filter(is_child_of(table, p)) == if linked_parent(table, pid)
                    == Some(p) {
                    seen.filter(is_child_of(table, p)).push(pid)
                } else {
                    seen.filter(is_child_of(table, p))
                } by {
                seen.lemma_filter_push(pid, is_child_of(table, p));
            }
        }
        if let Some(parent) = find_linked_parent(process_map, pid) {
            assert(forest@.nodes.dom().contains(parent));
            if let Some(mut node) = forest.nodes.remove(&parent) {
                node.children.push(pid);
                let ghost linked_node = node@;
                forest.nodes.insert(parent, node);
                assert(forest@.nodes =~= before.nodes.insert(parent, linked_node));
            }
        }
        k += 1;
    }
    proof {
        assert(pids@.take(pids.len() as int) =~= pids@);
        assert(table.dom() =~= process_map@.dom());
    }
}

/// Builds the hierarchy of an enriched table.
///
/// Every entry becomes one node that holds a copy of its record, its linked
/// parent and its depth. Each node with a linked parent is a child of that
/// parent's node, once; the others are the roots. Children and roots stand
/// in one order of the keys, that in which the table hands them out.
///
/// A table in which a record names a parent that has no entry is refused
/// with `InternalInvariantViolation`; no other table is.
pub fn build_process_tree(process_map: &HashMap<u32, ProcessInfo>) -> (forest: Result<
    ProcessForest,
    ApiError,
>)
    ensures
        forest is Ok <==> parent_closed(record_views(process_map@)),
        forest matches Ok(f) ==> f@.describes(record_views(process_map@)) && exists|
            order: Seq<u32>,
        | f@.follows(record_views(process_map@), order),
        forest matches Err(e) ==> e@ == ApiErrorView::InternalInvariantViolation(
            unresolved_parent_message(),
        ),
{
    if !check_parents(process_map) {
        return Err(
            ApiError::InternalInvariantViolation(
                String::from_str("a record names a parent that has no entry"),
            ),
        );
    }
    let pids = pids_of(process_map);
    let mut forest = make_nodes(process_map, &pids);
    link_children(&mut forest, process_map, &pids);
    proof {
        lemma_follows_describes(forest@, record_views(process_map@), pids@);
    }
    Ok(forest)
}

/// In the enriched table of a snapshot every parent that a record names has
/// an entry: correlation leaves no parent unresolved.
pub proof fn lemma_enriched_map_closed(
    processes: Seq<ProcessSampleView>,
    sockets: Seq<SockInfoView>,
    uptimes: Map<u32, ProcessUptime>,
)
    ensures
        parent_closed(enriched_map(processes, sockets, uptimes)),
{
    let table = enriched_map(processes, sockets, uptimes);
    assert forall|pid: u32| #[trigger] table.contains_key(pid) implies (table[pid].ppid
        matches Some(parent) ==> table.contains_key(parent)) by {
        lemma_sample_of(processes, pid);
        if sample_of(processes, pid) is Some {
            let sample = sample_of(processes, pid)->0;
            let i = choose|i: int| 0 <= i < processes.len() && processes[i] == sample;
            if sample.parent is Some {
                assert(processes[i].parent == Some(sample.parent->0));
                assert(referenced(processes, sample.parent->0));
            }
        }
    }
}

/// No node has two parents: a pid stands in the child lists of the whole
/// hierarchy at most once.
pub proof fn lemma_single_parent(
    forest: ProcessForestView,
    table: Map<u32, ProcessInfoView>,
    child: u32,
    first: u32,
    i: int,
    second: u32,
    j: int,
)
    requires
        forest.describes(table),
        forest.nodes.contains_key(first),
        0 <= i < forest.nodes[first].children.len(),
        forest.nodes[first].children[i] == child,
        forest.nodes.contains_key(second),
        0 <= j < forest.nodes[second].children.len(),
        forest.nodes[second].children[j] == child,
    ensures
        first == second,
        i == j,
{
    let a = forest.nodes[first];
    let b = forest.nodes[second];
    assert(a.describes(table, first));
    assert(b.describes(table, second));
    assert(linked_parent(table, child) == Some(first)) by {
        assert(a.children[i] == child);
        assert(a.children.contains(child));
    }
    assert(linked_parent(table, child) == Some(second)) by {
        assert(b.children[j] == child);
        assert(b.children.contains(child));
    }
    assert(a.children.no_duplicates());
}

/// A node is a child of the node that it names as its parent and of no
/// other, and the roots are the nodes that are nobody's child.
pub proof fn lemma_child_or_root(
    forest: ProcessForestView,
    table: Map<u32, ProcessInfoView>,
    pid: u32,
    other: u32,
)
    requires
        forest.describes(table),
        forest.nodes.contains_key(pid),
        forest.nodes.contains_key(other),
    ensures
        forest.roots.contains(pid) <==> forest.nodes[pid].parent is None,
        forest.nodes[other].children.contains(pid) <==> forest.nodes[pid].parent == Some(other),
{
    assert(forest.nodes[pid].describes(table, pid));
    assert(forest.nodes[other].describes(table, other));
    assert(table.dom().contains(pid));
}

/// The roots are complete: a node whose record names no parent, or names
/// the node itself, is a root, and a root never names another pid that has
/// an entry. Where every parent that is named has an entry, the roots are
/// the nodes without a parent pid and the nodes that are their own parent.
pub proof fn lemma_roots_complete(
    forest: ProcessForestView,
    table: Map<u32, ProcessInfoView>,
    pid: u32,
)
    requires
        forest.describes(table),
        table.contains_key(pid),
    ensures
        table[pid].ppid is None || table[pid].ppid == Some(pid) ==> forest.roots.contains(pid),
        forest.roots.contains(pid) ==> !(table[pid].ppid matches Some(parent) && parent != pid
            && table.contains_key(parent)),
        parent_closed(table) ==> (forest.roots.contains(pid) <==> table[pid].ppid is None
            || table[pid].ppid == Some(pid)),
{
}

/// The depth that a node carries is the number of hops after which the
/// chain of linked parents of its pid ends, and a node carries no depth
/// exactly when that chain never ends.
pub proof fn lemma_node_depth(
    forest: ProcessForestView,
    table: Map<u32, ProcessInfoView>,
    pid: u32,
    hops: nat,
)
    requires
        forest.describes(table),
        table.dom().finite(),
        table.contains_key(pid),
    ensures
        forest.nodes[pid].depth == Some(hops) <==> ends_after(table, pid, hops),
        forest.nodes[pid].depth is None <==> forall|n: nat| !ends_after(table, pid, n),
{
    assert(forest.nodes.dom().contains(pid));
    assert(forest.nodes[pid].describes(table, pid));
    lemma_depth_counts_hops(table, pid, hops);
    lemma_no_depth_without_end(table, pid);
}

/// In the enriched table of a snapshot every parent that a record names has
/// an entry.
pub proof fn lemma_snapshot_map_closed(
    processes: Seq<ProcessSample>,
    entries: Seq<SocketEntry>,
    uptimes: Map<u32, ProcessUptime>,
)
    ensures
        parent_closed(snapshot_map(processes, entries, uptimes)),
{
    lemma_enriched_map_closed(
        sample_views(processes),
        flattened(entry_views(entries)),
        uptimes,
    );
}

/// The process hierarchy of what the three inventories returned: that of
/// [`build_process_tree`] on the table of [`get_processes_map`]. It fails as
/// [`get_processes_map`] does, and for no other reason.
pub fn get_process_tree(
    sockets: Result<Vec<SocketEntry>, netstat2::error::Error>,
    uptimes: Result<HashMap<u32, ProcessUptime>, ApiError>,
    processes: Result<Vec<ProcessSample>, String>,
) -> (forest: Result<ProcessForest, ApiError>)
    ensures
        forest is Ok <==> sockets is Ok && uptimes is Ok && processes is Ok,
        forest matches Ok(f) ==> {
            let table = snapshot_map(processes->Ok_0@, sockets->Ok_0@, uptimes->Ok_0@);
            f@.describes(table) && exists|order: Seq<u32>| f@.follows(table, order)
        },
        forest matches Err(error) ==> snapshot_failure(sockets, uptimes, processes, error),
{
    proof {
        lemma_snapshot_map_closed(processes->Ok_0@, sockets->Ok_0@, uptimes->Ok_0@);
    }
    let process_map = match get_processes_map(sockets, uptimes, processes) {
        Ok(process_map) => process_map,
        Err(e) => { return Err(e); },
    };
    build_process_tree(&process_map)
}

} // verus!
