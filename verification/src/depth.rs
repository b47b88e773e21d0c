//! The depth of a node of the process hierarchy: the number of hops along
//! its chain of parents to a node without one, counted over the table of
//! records and not over the links of the hierarchy.

use std::collections::HashMap;
use vstd::prelude::*;
use vstd::std_specs::hash::*;
use crate::correlate::record_views;
use crate::process::{ProcessInfo, ProcessInfoView};
use crate::tree::{find_linked_parent, linked_parent};

verus! {

broadcast use vstd::std_specs::hash::group_hash_axioms;

/// The number of hops from `pid` along linked parents to a node without one,
/// as far as at most `fuel` hops reach such a node.
pub open spec fn depth_within(table: Map<u32, ProcessInfoView>, pid: u32, fuel: nat) -> Option<nat>
    decreases fuel,
{
    match linked_parent(table, pid) {
        None => Some(0),
        Some(parent) => if fuel == 0 {
            None
        } else {
            match depth_within(table, parent, (fuel - 1) as nat) {
                Some(d) => Some(d + 1),
                None => None,
            }
        },
    }
}

/// The depth of a node: the number of hops along linked parents to a node
/// without one, be that an enumerated process or a placeholder. The walk
/// takes no more hops than the table has entries; a chain that has not ended
/// by then has no depth, and neither has a pid without an entry.
pub open spec fn depth_of(table: Map<u32, ProcessInfoView>, pid: u32) -> Option<nat> {
    if table.contains_key(pid) {
        depth_within(table, pid, table.dom().len())
    } else {
        None
    }
}

/// A depth counted from a later node of the chain, carried back over the
/// hops already taken.
spec fn carried(rest: Option<nat>, hops: nat) -> Option<nat> {
    match rest {
        Some(d) => Some(d + hops),
        None => None,
    }
}

/// The model of a depth.
pub open spec fn depth_view(depth: Option<usize>) -> Option<nat> {
    match depth {
        Some(d) => Some(d as nat),
        None => None,
    }
}

/// Computes the depth of `pid` by walking its chain of linked parents, for
/// no more hops than the table has entries.
pub fn compute_depth(process_map: &HashMap<u32, ProcessInfo>, pid: u32) -> (depth: Option<usize>)
    ensures
        depth_view(depth) == depth_of(record_views(process_map@), pid),
{
    let ghost table = record_views(process_map@);
    if !process_map.contains_key(&pid) {
        return None;
    }
    let bound = process_map.len();
    assert(table.dom() =~= process_map@.dom());
    let mut current = pid;
    let mut hops: usize = 0;
    loop
        invariant
            table == record_views(process_map@),
            bound == table.dom().len(),
            hops <= bound,
            table.contains_key(current),
            depth_of(table, pid) == carried(
                depth_within(table, current, (bound - hops) as nat),
                hops as nat,
            ),
        decreases bound - hops,
    {
        match find_linked_parent(process_map, current) {
            None => {
                return Some(hops);
            },
            Some(parent) => {
                if hops == bound {
                    return None;
                }
                current = parent;
                hops += 1;
            },
        }
    }
}

/// The node reached from `pid` after `hops` hops along linked parents, if
/// the chain is that long.
pub open spec fn ancestor(table: Map<u32, ProcessInfoView>, pid: u32, hops: nat) -> Option<u32>
    decreases hops,
{
    if hops == 0 {
        Some(pid)
    } else {
        match linked_parent(table, pid) {
            Some(parent) => ancestor(table, parent, (hops - 1) as nat),
            None => None,
        }
    }
}

/// Whether the chain of linked parents of `pid` ends after exactly `hops`
/// hops: the node reached then has no linked parent.
pub open spec fn ends_after(table: Map<u32, ProcessInfoView>, pid: u32, hops: nat) -> bool {
    match ancestor(table, pid, hops) {
        Some(last) => linked_parent(table, last) is None,
        None => false,
    }
}

/// A walk of at most `fuel` hops finds the depth `hops` exactly when the
/// chain ends after `hops` hops and `fuel` allows that many.
pub proof fn lemma_depth_within(table: Map<u32, ProcessInfoView>, pid: u32, fuel: nat, hops: nat)
    ensures
        depth_within(table, pid, fuel) == Some(hops) <==> hops <= fuel && ends_after(
            table,
            pid,
            hops,
        ),
    decreases fuel,
{
    match linked_parent(table, pid) {
        None => {
            if hops > 0 {
                assert(ancestor(table, pid, hops) is None);
            }
        },
        Some(parent) => {
            if fuel > 0 && hops > 0 {
                lemma_depth_within(table, parent, (fuel - 1) as nat, (hops - 1) as nat);
                assert(ancestor(table, pid, hops) == ancestor(table, parent, (hops - 1) as nat));
            }
        },
    }
}

/// A chain ends after one number of hops at most.
pub proof fn lemma_chain_end_unique(
    table: Map<u32, ProcessInfoView>,
    pid: u32,
    first: nat,
    second: nat,
)
    requires
        ends_after(table, pid, first),
        ends_after(table, pid, second),
    ensures
        first == second,
{
    let fuel = first + second;
    lemma_depth_within(table, pid, fuel, first);
    lemma_depth_within(table, pid, fuel, second);
}

/// Where a chain ends after `hops` hops, the node reached after `taken` of
/// them has a chain that ends after the hops that are left.
proof fn lemma_chain_suffix(table: Map<u32, ProcessInfoView>, pid: u32, hops: nat, taken: nat)
    requires
        ends_after(table, pid, hops),
        taken <= hops,
    ensures
        ancestor(table, pid, taken) is Some,
        ends_after(table, ancestor(table, pid, taken)->0, (hops - taken) as nat),
    decreases taken,
{
    if taken > 0 {
        let parent = linked_parent(table, pid)->0;
        assert(ancestor(table, pid, hops) == ancestor(table, parent, (hops - 1) as nat));
        assert(ancestor(table, pid, taken) == ancestor(table, parent, (taken - 1) as nat));
        lemma_chain_suffix(table, parent, (hops - 1) as nat, (taken - 1) as nat);
    }
}

/// A chain that ends and never reaches `removed` ends after as many hops in
/// the table without the entry of `removed`.
proof fn lemma_chain_without(table: Map<u32, ProcessInfoView>, removed: u32, pid: u32, hops: nat)
    requires
        ends_after(table, pid, hops),
        forall|i: nat| i <= hops ==> ancestor(table, pid, i) != Some(removed),
    ensures
        ends_after(table.remove(removed), pid, hops),
    decreases hops,
{
    let smaller = table.remove(removed);
    assert(ancestor(table, pid, 0) != Some(removed));
    assert(pid != removed);
    assert(smaller[pid] == table[pid]);
    if hops == 0 {
        assert(linked_parent(smaller, pid) is None);
    } else {
        let parent = linked_parent(table, pid)->0;
        assert(ancestor(table, pid, 1) == ancestor(table, parent, 0));
        assert(parent != removed);
        assert(linked_parent(smaller, pid) == Some(parent));
        assert(ancestor(table, pid, hops) == ancestor(table, parent, (hops - 1) as nat));
        assert forall|i: nat| i <= hops - 1 implies ancestor(table, parent, i) != Some(removed) by {
            assert(ancestor(table, pid, i + 1) == ancestor(table, parent, i));
        }
        lemma_chain_without(table, removed, parent, (hops - 1) as nat);
        assert(ancestor(smaller, pid, hops) == ancestor(smaller, parent, (hops - 1) as nat));
    }
}

/// A chain that ends takes fewer hops than the table has entries: it never
/// comes back to a node that it has left.
pub proof fn lemma_chain_is_short(table: Map<u32, ProcessInfoView>, pid: u32, hops: nat)
    requires
        table.dom().finite(),
        table.contains_key(pid),
        ends_after(table, pid, hops),
    ensures
        hops < table.dom().len(),
    decreases hops,
{
    if hops == 0 {
        if table.dom().len() == 0 {
            table.dom().lemma_len0_is_empty();
            assert(table.dom().contains(pid));
        }
    } else {
        let parent = linked_parent(table, pid)->0;
        let smaller = table.remove(pid);
        assert(ancestor(table, pid, hops) == ancestor(table, parent, (hops - 1) as nat));
        assert forall|i: nat| i <= hops - 1 implies ancestor(table, parent, i) != Some(pid) by {
            assert(ancestor(table, pid, i + 1) == ancestor(table, parent, i));
            if ancestor(table, parent, i) == Some(pid) {
                lemma_chain_suffix(table, pid, hops, i + 1);
                lemma_chain_end_unique(table, pid, hops, (hops - (i + 1)) as nat);
            }
        }
        lemma_chain_without(table, pid, parent, (hops - 1) as nat);
        assert(smaller.dom() =~= table.dom().remove(pid));
        assert(smaller.contains_key(parent));
        lemma_chain_is_short(smaller, parent, (hops - 1) as nat);
    }
}

/// The depth of a node is the number of hops after which its chain of
/// linked parents ends.
pub proof fn lemma_depth_counts_hops(table: Map<u32, ProcessInfoView>, pid: u32, hops: nat)
    requires
        table.dom().finite(),
        table.contains_key(pid),
    ensures
        depth_of(table, pid) == Some(hops) <==> ends_after(table, pid, hops),
{
    lemma_depth_within(table, pid, table.dom().len(), hops);
    if ends_after(table, pid, hops) {
        lemma_chain_is_short(table, pid, hops);
    }
}

/// A node has no depth exactly when its chain of linked parents never ends,
/// which is when the chain runs into a cycle.
pub proof fn lemma_no_depth_without_end(table: Map<u32, ProcessInfoView>, pid: u32)
    requires
        table.dom().finite(),
        table.contains_key(pid),
    ensures
        depth_of(table, pid) is None <==> forall|hops: nat| !ends_after(table, pid, hops),
{
    if depth_of(table, pid) is Some {
        let hops = depth_of(table, pid)->0;
        lemma_depth_counts_hops(table, pid, hops);
    } else {
        assert forall|hops: nat| !ends_after(table, pid, hops) by {
            lemma_depth_counts_hops(table, pid, hops);
        }
    }
}

} // verus!
