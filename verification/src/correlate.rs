//! Correlation of the socket inventory with the process inventory: one
//! enriched record per process, and a placeholder for every parent that was
//! referenced but never enumerated.

use std::collections::HashMap;
use vstd::prelude::*;
use vstd::std_specs::hash::*;
use vstd::std_specs::iter::IteratorSpec;
use vstd::string::to_string_from_display_ensures;
use crate::error::ApiError;
use crate::process::{
    make_process_info, socket_view, ProcessInfo, ProcessInfoView, ProcessSample,
    ProcessSampleView,
};
use crate::socket::{SockInfo, SockInfoView, SocketEntry, SocketEntryView};
use crate::uptime::ProcessUptime;

verus! {

broadcast use vstd::std_specs::hash::group_hash_axioms;

/// The models of a list of process samples.
pub open spec fn sample_views(processes: Seq<ProcessSample>) -> Seq<ProcessSampleView> {
    processes.map_values(|p: ProcessSample| p@)
}

/// The models of a list of socket records.
pub open spec fn socket_views(sockets: Seq<SockInfo>) -> Seq<SockInfoView> {
    sockets.map_values(|s: SockInfo| s@)
}

/// The models of a list of socket table rows.
pub open spec fn entry_views(entries: Seq<SocketEntry>) -> Seq<SocketEntryView> {
    entries.map_values(|e: SocketEntry| e@)
}

/// The records that a list of socket table rows flattens to.
pub open spec fn flattened(entries: Seq<SocketEntryView>) -> Seq<SockInfoView> {
    entries.map_values(|e: SocketEntryView| SockInfoView::of_entry(e))
}

/// The models of the records of a pid-keyed table.
pub open spec fn record_views(records: Map<u32, ProcessInfo>) -> Map<u32, ProcessInfoView> {
    records.map_values(|r: ProcessInfo| r@)
}

/// Whether `pid` is the pid of an enumerated process.
pub open spec fn enumerated(processes: Seq<ProcessSampleView>, pid: u32) -> bool {
    exists|i: int| 0 <= i < processes.len() && (#[trigger] processes[i]).pid == pid
}

/// Whether an enumerated process names `pid` as its parent.
pub open spec fn referenced(processes: Seq<ProcessSampleView>, pid: u32) -> bool {
    exists|i: int| 0 <= i < processes.len() && (#[trigger] processes[i]).parent == Some(pid)
}

/// The sample that `pid` was enumerated with: the last one, should the list
/// hold several of the same pid.
pub open spec fn sample_of(processes: Seq<ProcessSampleView>, pid: u32) -> Option<ProcessSampleView>
    decreases processes.len(),
{
    if processes.len() == 0 {
        None
    } else if processes.last().pid == pid {
        Some(processes.last())
    } else {
        sample_of(processes.drop_last(), pid)
    }
}

/// The socket attached to `pid`: the first one in the list that the
/// operating system associates with it.
pub open spec fn attached_socket(sockets: Seq<SockInfoView>, pid: u32) -> Option<SockInfoView>
    decreases sockets.len(),
{
    if sockets.len() == 0 {
        None
    } else if sockets.first().owned_by(pid) {
        Some(sockets.first())
    } else {
        attached_socket(sockets.drop_first(), pid)
    }
}

/// The uptime of `pid` as far as the uptime table knows it.
pub open spec fn known_uptime(uptimes: Map<u32, ProcessUptime>, pid: u32) -> Option<u64> {
    if uptimes.contains_key(pid) {
        uptimes[pid].uptime
    } else {
        None
    }
}

/// The record of an enumerated pid.
pub open spec fn enriched_record(
    processes: Seq<ProcessSampleView>,
    sockets: Seq<SockInfoView>,
    uptimes: Map<u32, ProcessUptime>,
    pid: u32,
) -> ProcessInfoView {
    ProcessInfoView::enriched(
        sample_of(processes, pid)->0,
        attached_socket(sockets, pid),
        known_uptime(uptimes, pid),
    )
}

/// The enriched table of a snapshot. Its keys are the enumerated pids and the
/// pids referenced as a parent. An enumerated pid maps to its enriched
/// record, every other key to a placeholder.
pub open spec fn enriched_map(
    processes: Seq<ProcessSampleView>,
    sockets: Seq<SockInfoView>,
    uptimes: Map<u32, ProcessUptime>,
) -> Map<u32, ProcessInfoView> {
    Map::new(
        |pid: u32| enumerated(processes, pid) || referenced(processes, pid),
        |pid: u32|
            if enumerated(processes, pid) {
                enriched_record(processes, sockets, uptimes, pid)
            } else {
                ProcessInfoView::placeholder(pid)
            },
    )
}

/// A pid has a sample exactly when it was enumerated, and the sample carries
/// that pid.
pub proof fn lemma_sample_of(processes: Seq<ProcessSampleView>, pid: u32)
    ensures
        sample_of(processes, pid) is Some <==> enumerated(processes, pid),
        sample_of(processes, pid) matches Some(s) ==> s.pid == pid && processes.contains(s),
    decreases processes.len(),
{
    if processes.len() == 0 {
    } else if processes.last().pid == pid {
        assert(processes[processes.len() - 1].pid == pid);
    } else {
        let shorter = processes.drop_last();
        lemma_sample_of(shorter, pid);
        if enumerated(processes, pid) {
            let i = choose|i: int| 0 <= i < processes.len() && (#[trigger] processes[i]).pid == pid;
            assert(shorter[i].pid == pid);
        }
        if enumerated(shorter, pid) {
            let i = choose|i: int| 0 <= i < shorter.len() && (#[trigger] shorter[i]).pid == pid;
            assert(processes[i].pid == pid);
        }
        if sample_of(shorter, pid) is Some {
            let s = sample_of(shorter, pid)->0;
            let i = choose|i: int| 0 <= i < shorter.len() && shorter[i] == s;
            assert(processes[i] == s);
        }
    }
}

/// The attached socket is the first in the list that owns the pid: it owns
/// it, and no socket before it does. No socket is attached exactly when none
/// owns the pid.
pub proof fn lemma_attached_socket(sockets: Seq<SockInfoView>, pid: u32)
    ensures
        attached_socket(sockets, pid) is None <==> forall|j: int|
            0 <= j < sockets.len() ==> !(#[trigger] sockets[j]).owned_by(pid),
        attached_socket(sockets, pid) is Some ==> exists|i: int|
            0 <= i < sockets.len() && attached_socket(sockets, pid) == Some(#[trigger] sockets[i])
                && sockets[i].owned_by(pid) && forall|j: int|
                0 <= j < i ==> !(#[trigger] sockets[j]).owned_by(pid),
    decreases sockets.len(),
{
    if sockets.len() == 0 {
    } else if sockets.first().owned_by(pid) {
        assert(sockets[0].owned_by(pid));
    } else {
        let rest = sockets.drop_first();
        lemma_attached_socket(rest, pid);
        assert(forall|j: int| 0 <= j < rest.len() ==> rest[j] == sockets[j + 1]);
        if attached_socket(rest, pid) is Some {
            let i = choose|i: int|
                0 <= i < rest.len() && attached_socket(rest, pid) == Some(#[trigger] rest[i])
                    && rest[i].owned_by(pid) && forall|j: int|
                    0 <= j < i ==> !(#[trigger] rest[j]).owned_by(pid);
            assert(sockets[i + 1] == rest[i]);
            assert forall|j: int| 0 <= j < i + 1 implies !(#[trigger] sockets[j]).owned_by(pid) by {
                if j > 0 {
                    assert(rest[j - 1] == sockets[j]);
                }
            }
        } else {
            assert forall|j: int| 0 <= j < sockets.len() implies !(#[trigger] sockets[j]).owned_by(
                pid,
            ) by {
                if j > 0 {
                    assert(rest[j - 1] == sockets[j]);
                }
            }
        }
        if forall|j: int| 0 <= j < sockets.len() ==> !(#[trigger] sockets[j]).owned_by(pid) {
            assert forall|j: int| 0 <= j < rest.len() implies !(#[trigger] rest[j]).owned_by(
                pid,
            ) by {
                assert(rest[j] == sockets[j + 1]);
            }
        }
    }
}

/// Whether the operating system associates `pid` with `socket`.
pub fn owns(socket: &SockInfo, pid: u32) -> (b: bool)
    ensures
        b == socket@.owned_by(pid),
{
    let mut i: usize = 0;
    while i < socket.pids.len()
        invariant
            i <= socket.pids.len(),
            forall|j: int| 0 <= j < i ==> socket.pids@[j] != pid,
        decreases socket.pids.len() - i,
    {
        if socket.pids[i] == pid {
            return true;
        }
        i += 1;
    }
    false
}

/// Finds the socket attached to `pid`: the first in `sockets` that owns it.
pub fn find_socket<'a>(sockets: &'a Vec<SockInfo>, pid: u32) -> (found: Option<&'a SockInfo>)
    ensures
        socket_view(found) == attached_socket(socket_views(sockets@), pid),
{
    let ghost views = socket_views(sockets@);
    let mut i: usize = 0;
    while i < sockets.len()
        invariant
            i <= sockets.len(),
            views == socket_views(sockets@),
            forall|j: int| 0 <= j < i ==> !(#[trigger] views[j]).owned_by(pid),
        decreases sockets.len() - i,
    {
        if owns(&sockets[i], pid) {
            proof {
                lemma_attached_socket(views, pid);
                assert(views[i as int].owned_by(pid));
            }
            return Some(&sockets[i]);
        }
        i += 1;
    }
    proof {
        lemma_attached_socket(views, pid);
    }
    None
}

/// Looks up the uptime of `pid`.
pub fn find_uptime(uptimes: &HashMap<u32, ProcessUptime>, pid: u32) -> (uptime: Option<u64>)
    ensures
        uptime == known_uptime(uptimes@, pid),
{
    match uptimes.get(&pid) {
        Some(record) => record.uptime,
        None => None,
    }
}

/// The table as it stands while it is built: the samples in `seen` have
/// their records, and the parents named by the samples in `linked` have
/// their placeholders.
spec fn partial_map(
    seen: Seq<ProcessSampleView>,
    linked: Seq<ProcessSampleView>,
    sockets: Seq<SockInfoView>,
    uptimes: Map<u32, ProcessUptime>,
) -> Map<u32, ProcessInfoView> {
    Map::new(
        |pid: u32| sample_of(seen, pid) is Some || referenced(linked, pid),
        |pid: u32|
            if sample_of(seen, pid) is Some {
                enriched_record(seen, sockets, uptimes, pid)
            } else {
                ProcessInfoView::placeholder(pid)
            },
    )
}

/// A list references what its last sample references and what the samples
/// before it reference.
proof fn lemma_referenced_step(linked: Seq<ProcessSampleView>, pid: u32)
    requires
        linked.len() > 0,
    ensures
        referenced(linked, pid) <==> referenced(linked.drop_last(), pid) || linked.last().parent
            == Some(pid),
{
    let shorter = linked.drop_last();
    if referenced(linked, pid) {
        let i = choose|i: int| 0 <= i < linked.len() && (#[trigger] linked[i]).parent == Some(pid);
        if i < shorter.len() {
            assert(shorter[i].parent == Some(pid));
        }
    }
    if referenced(shorter, pid) {
        let i = choose|i: int|
            0 <= i < shorter.len() && (#[trigger] shorter[i]).parent == Some(pid);
        assert(linked[i].parent == Some(pid));
    }
    if linked.last().parent == Some(pid) {
        assert(linked[linked.len() - 1].parent == Some(pid));
    }
}

/// Correlates one snapshot: every enumerated process gets its enriched
/// record, with the first socket that owns its pid and its uptime, and every
/// parent that was referenced but not enumerated gets a placeholder.
pub fn correlate(
    processes: &Vec<ProcessSample>,
    sockets: &Vec<SockInfo>,
    uptimes: &HashMap<u32, ProcessUptime>,
) -> (process_map: HashMap<u32, ProcessInfo>)
    ensures
        record_views(process_map@) == enriched_map(
            sample_views(processes@),
            socket_views(sockets@),
            uptimes@,
        ),
{
    let ghost samples = sample_views(processes@);
    let ghost socks = socket_views(sockets@);
    let mut process_map: HashMap<u32, ProcessInfo> = HashMap::new();
    let mut i: usize = 0;
    assert(record_views(process_map@) =~= partial_map(
        samples.take(0),
        Seq::empty(),
        socks,
        uptimes@,
    ));
    while i < processes.len()
        invariant
            i <= processes.len(),
            samples == sample_views(processes@),
            socks == socket_views(sockets@),
            record_views(process_map@) == partial_map(
                samples.take(i as int),
                Seq::empty(),
                socks,
                uptimes@,
            ),
        decreases processes.len() - i,
    {
        let process = &processes[i];
        let pid = process.pid;
        let find_socket = find_socket(sockets, pid);
        let find_uptime = find_uptime(uptimes, pid);
        let info = make_process_info(process, find_socket, find_uptime);
        let ghost old_map = process_map@;
        let ghost info_view = info@;
        process_map.insert(pid, info);
        proof {
            let before = samples.take(i as int);
            let after = samples.take(i + 1);
            let old_spec = partial_map(before, Seq::empty(), socks, uptimes@);
            let new_spec = partial_map(after, Seq::empty(), socks, uptimes@);
            assert(after.drop_last() == before);
            assert(after.last() == process@);
            assert(process_map@ == old_map.insert(pid, info));
            assert forall|p: u32|
                record_views(process_map@).contains_key(p) <==> new_spec.contains_key(p) by {
                assert(record_views(old_map).contains_key(p) <==> old_spec.contains_key(p));
            }
            assert forall|p: u32| new_spec.contains_key(p) implies record_views(
                process_map@,
            )[p] == new_spec[p] by {
                if p != pid {
                    assert(old_spec.contains_key(p));
                    assert(record_views(old_map)[p] == old_spec[p]);
                } else {
                    assert(new_spec[p] == info_view);
                }
            }
            assert(record_views(process_map@) =~= new_spec);
        }
        i += 1;
    }
    assert(samples.take(processes.len() as int) == samples);
    assert(samples.take(0) == Seq::<ProcessSampleView>::empty());
    let mut k: usize = 0;
    while k < processes.len()
        invariant
            k <= processes.len(),
            samples == sample_views(processes@),
            record_views(process_map@) == partial_map(
                samples,
                samples.take(k as int),
                socks,
                uptimes@,
            ),
        decreases processes.len() - k,
    {
        proof {
            let after = samples.take(k + 1);
            assert(after.drop_last() == samples.take(k as int));
            assert(after.last() == processes@[k as int]@);
            assert forall|pid: u32|
                referenced(after, pid) <==> referenced(samples.take(k as int), pid)
                    || processes@[k as int]@.parent == Some(pid) by {
                lemma_referenced_step(after, pid);
            }
        }
        let ghost old_map = process_map@;
        if let Some(ppid) = processes[k].parent {
            if !process_map.contains_key(&ppid) {
                process_map.insert(ppid, ProcessInfo::placeholder(ppid));
            }
        }
        proof {
            let old_spec = partial_map(samples, samples.take(k as int), socks, uptimes@);
            let new_spec = partial_map(samples, samples.take(k + 1), socks, uptimes@);
            assert forall|p: u32|
                record_views(process_map@).contains_key(p) <==> new_spec.contains_key(p) by {
                assert(record_views(old_map).contains_key(p) <==> old_spec.contains_key(p));
            }
            assert forall|p: u32| new_spec.contains_key(p) implies record_views(
                process_map@,
            )[p] == new_spec[p] by {
                if old_map.contains_key(p) {
                    assert(old_spec.contains_key(p));
                    assert(record_views(old_map)[p] == old_spec[p]);
                } else {
                    assert(!record_views(old_map).contains_key(p));
                    assert(!old_spec.contains_key(p));
                }
            }
            assert(record_views(process_map@) =~= new_spec);
        }
        k += 1;
    }
    proof {
        assert forall|pid: u32| sample_of(samples, pid) is Some <==> enumerated(samples, pid) by {
            lemma_sample_of(samples, pid);
        }
        assert(partial_map(samples, samples, socks, uptimes@) =~= enriched_map(
            samples,
            socks,
            uptimes@,
        ));
    }
    process_map
}

/// Flattens every row of the socket table, in order.
pub fn flatten_sockets(entries: &Vec<SocketEntry>) -> (sockets: Vec<SockInfo>)
    ensures
        socket_views(sockets@) == flattened(entry_views(entries@)),
        forall|i: int| 0 <= i < sockets@.len() ==> (#[trigger] socket_views(sockets@)[i]).wf(),
{
    let mut sockets: Vec<SockInfo> = Vec::new();
    let mut i: usize = 0;
    while i < entries.len()
        invariant
            i <= entries.len(),
            sockets@.len() == i,
            forall|j: int|
                0 <= j < i ==> (#[trigger] sockets@[j])@ == SockInfoView::of_entry(entries@[j]@),
        decreases entries.len() - i,
    {
        sockets.push(SockInfo::from(&entries[i]));
        i += 1;
    }
    assert(socket_views(sockets@) =~= flattened(entry_views(entries@)));
    sockets
}

/// Whether `error` is what a snapshot fails with. A failed socket inventory
/// comes first and is a `NetstatError` that carries the failure as it
/// displays itself; then a failed uptime query, passed on as it came; then a
/// failed process enumeration, a `ProcessEnumerationFailed` with the
/// enumeration's own message.
pub open spec fn snapshot_failure(
    sockets: Result<Vec<SocketEntry>, netstat2::error::Error>,
    uptimes: Result<HashMap<u32, ProcessUptime>, ApiError>,
    processes: Result<Vec<ProcessSample>, String>,
    error: ApiError,
) -> bool {
    match (sockets, uptimes, processes) {
        (Err(e), _, _) => error matches ApiError::NetstatError(message)
            && to_string_from_display_ensures::<netstat2::error::Error>(&e, message),
        (Ok(_), Err(e), _) => error == e,
        (Ok(_), Ok(_), Err(message)) => error == ApiError::ProcessEnumerationFailed(message),
        (Ok(_), Ok(_), Ok(_)) => false,
    }
}

/// The enriched table of what the three inventories returned.
///
/// Where all three succeeded the table is that of [`correlate`] on the
/// flattened sockets. Otherwise the first failure is reported, annotated
/// with the inventory that failed: see [`snapshot_failure`].
pub fn get_processes_map(
    sockets: Result<Vec<SocketEntry>, netstat2::error::Error>,
    uptimes: Result<HashMap<u32, ProcessUptime>, ApiError>,
    processes: Result<Vec<ProcessSample>, String>,
) -> (process_map: Result<HashMap<u32, ProcessInfo>, ApiError>)
    ensures
        process_map is Ok <==> sockets is Ok && uptimes is Ok && processes is Ok,
        process_map matches Ok(table) ==> record_views(table@) == snapshot_map(
            processes->Ok_0@,
            sockets->Ok_0@,
            uptimes->Ok_0@,
        ),
        process_map matches Err(error) ==> snapshot_failure(sockets, uptimes, processes, error),
{
    let sockets_info = match sockets {
        Ok(entries) => entries,
        Err(e) => { return Err(ApiError::from(e)); },
    };
    let sockets = flatten_sockets(&sockets_info);
    let uptimes = match uptimes {
        Ok(table) => table,
        Err(e) => { return Err(e); },
    };
    let processes = match processes {
        Ok(samples) => samples,
        Err(message) => { return Err(ApiError::ProcessEnumerationFailed(message)); },
    };
    Ok(correlate(&processes, &sockets, &uptimes))
}

/// The enriched table of a snapshot given by its process samples, its socket
/// table rows and its uptime table.
pub open spec fn snapshot_map(
    processes: Seq<ProcessSample>,
    entries: Seq<SocketEntry>,
    uptimes: Map<u32, ProcessUptime>,
) -> Map<u32, ProcessInfoView> {
    enriched_map(
        sample_views(processes),
        flattened(entry_views(entries)),
        uptimes,
    )
}

/// The keys of a table, each once, in the order in which the table hands
/// them out.
pub fn pids_of(process_map: &HashMap<u32, ProcessInfo>) -> (pids: Vec<u32>)
    ensures
        pids@.no_duplicates(),
        pids@.to_set() == process_map@.dom(),
{
    let mut pids: Vec<u32> = Vec::new();
    for pid in it: process_map.keys()
        invariant
            pids@.len() == it.index(),
            forall|i: int| 0 <= i < pids@.len() ==> pids@[i] == *it.seq()[i],
    {
        pids.push(*pid);
    }
    proof {
        let keys = spec_keys_iter(process_map).remaining();
        assert(pids@ =~= keys.unref());
    }
    pids
}

/// The models of a list of records.
pub open spec fn record_list_views(records: Seq<ProcessInfo>) -> Seq<ProcessInfoView> {
    records.map_values(|r: ProcessInfo| r@)
}

/// Whether `list` holds the records of `table`, each once and under its own
/// pid, in some order.
pub open spec fn lists_table(list: Seq<ProcessInfoView>, table: Map<u32, ProcessInfoView>) -> bool {
    &&& forall|i: int|
        0 <= i < list.len() ==> table.contains_key((#[trigger] list[i]).pid) && table[list[i].pid]
            == list[i]
    &&& forall|i: int, j: int|
        0 <= i < j < list.len() ==> (#[trigger] list[i]).pid != (#[trigger] list[j]).pid
    &&& forall|pid: u32| #[trigger]
        table.contains_key(pid) ==> exists|i: int|
            0 <= i < list.len() && (#[trigger] list[i]).pid == pid
}

/// The pids of the enumerated processes.
pub open spec fn enumerated_pids(processes: Seq<ProcessSampleView>) -> Set<u32> {
    Set::new(|pid: u32| enumerated(processes, pid))
}

/// The pids that the enumerated processes name as their parent.
pub open spec fn referenced_pids(processes: Seq<ProcessSampleView>) -> Set<u32> {
    Set::new(|pid: u32| referenced(processes, pid))
}

/// The keys of the enriched table are the pids of the enumerated processes
/// together with the pids that these name as their parent.
pub proof fn lemma_keys_cover_snapshot(
    processes: Seq<ProcessSampleView>,
    sockets: Seq<SockInfoView>,
    uptimes: Map<u32, ProcessUptime>,
)
    ensures
        enriched_map(processes, sockets, uptimes).dom() == enumerated_pids(processes).union(
            referenced_pids(processes),
        ),
{
    assert(enriched_map(processes, sockets, uptimes).dom() =~= enumerated_pids(processes).union(
        referenced_pids(processes),
    ));
}

/// Every record of the enriched table carries the pid that it is kept under.
pub proof fn lemma_record_pid(
    processes: Seq<ProcessSampleView>,
    sockets: Seq<SockInfoView>,
    uptimes: Map<u32, ProcessUptime>,
    pid: u32,
)
    requires
        enriched_map(processes, sockets, uptimes).contains_key(pid),
    ensures
        enriched_map(processes, sockets, uptimes)[pid].pid == pid,
{
    lemma_sample_of(processes, pid);
}

/// The enriched table holds a placeholder under a pid exactly when that pid
/// was named as a parent and never enumerated.
pub proof fn lemma_placeholder_minimal(
    processes: Seq<ProcessSampleView>,
    sockets: Seq<SockInfoView>,
    uptimes: Map<u32, ProcessUptime>,
    pid: u32,
)
    ensures
        ({
            let table = enriched_map(processes, sockets, uptimes);
            table.contains_key(pid) && table[pid].is_placeholder() <==> referenced(processes, pid)
                && !enumerated(processes, pid)
        }),
{
    lemma_sample_of(processes, pid);
}

/// Where every socket record is well formed, so are the socket fields of
/// every record of the enriched table: in particular the record of a process
/// with a UDP socket has no remote endpoint and no state.
pub proof fn lemma_socket_fields_wf(
    processes: Seq<ProcessSampleView>,
    sockets: Seq<SockInfoView>,
    uptimes: Map<u32, ProcessUptime>,
    pid: u32,
)
    requires
        forall|i: int| 0 <= i < sockets.len() ==> (#[trigger] sockets[i]).wf(),
        enriched_map(processes, sockets, uptimes).contains_key(pid),
    ensures
        enriched_map(processes, sockets, uptimes)[pid].wf(),
{
    lemma_attached_socket(sockets, pid);
}

/// The socket fields of every record of a snapshot's table are well formed:
/// a record with a UDP socket has no remote endpoint and no state.
pub proof fn lemma_snapshot_records_wf(
    processes: Seq<ProcessSample>,
    entries: Seq<SocketEntry>,
    uptimes: Map<u32, ProcessUptime>,
    pid: u32,
)
    requires
        snapshot_map(processes, entries, uptimes).contains_key(pid),
    ensures
        snapshot_map(processes, entries, uptimes)[pid].wf(),
{
    lemma_socket_fields_wf(
        sample_views(processes),
        flattened(entry_views(entries)),
        uptimes,
        pid,
    );
}

/// Which socket a pid gets depends on nothing but the socket list: two
/// correlations of the same processes and sockets agree on the socket
/// fields of every record, whatever the uptimes were.
pub proof fn lemma_socket_attachment_deterministic(
    processes: Seq<ProcessSampleView>,
    sockets: Seq<SockInfoView>,
    first_uptimes: Map<u32, ProcessUptime>,
    second_uptimes: Map<u32, ProcessUptime>,
    pid: u32,
)
    ensures
        ({
            let first = enriched_map(processes, sockets, first_uptimes);
            let second = enriched_map(processes, sockets, second_uptimes);
            &&& first.dom() == second.dom()
            &&& first.contains_key(pid) ==> {
                &&& first[pid].local_addr == second[pid].local_addr
                &&& first[pid].local_port == second[pid].local_port
                &&& first[pid].protocol == second[pid].protocol
                &&& first[pid].remote_addr == second[pid].remote_addr
                &&& first[pid].remote_port == second[pid].remote_port
                &&& first[pid].state == second[pid].state
            }
            &&& enumerated(processes, pid) ==> {
                &&& first[pid].local_addr == match attached_socket(sockets, pid) {
                    Some(s) => Some(s.local_addr),
                    None => None,
                }
                &&& first[pid].local_port == match attached_socket(sockets, pid) {
                    Some(s) => Some(s.local_port),
                    None => None,
                }
                &&& first[pid].protocol == match attached_socket(sockets, pid) {
                    Some(s) => Some(s.protocol),
                    None => None,
                }
            }
        }),
{
    assert(enriched_map(processes, sockets, first_uptimes).dom() =~= enriched_map(
        processes,
        sockets,
        second_uptimes,
    ).dom());
}

/// The enriched records of what the three inventories returned, one for
/// each key of the table of [`get_processes_map`], in the order in which
/// that table hands out its keys. It fails as [`get_processes_map`] does.
pub fn get_processes(
    sockets: Result<Vec<SocketEntry>, netstat2::error::Error>,
    uptimes: Result<HashMap<u32, ProcessUptime>, ApiError>,
    processes: Result<Vec<ProcessSample>, String>,
) -> (process_vec: Result<Vec<ProcessInfo>, ApiError>)
    ensures
        process_vec is Ok <==> sockets is Ok && uptimes is Ok && processes is Ok,
        process_vec matches Ok(list) ==> lists_table(
            record_list_views(list@),
            snapshot_map(processes->Ok_0@, sockets->Ok_0@, uptimes->Ok_0@),
        ),
        process_vec matches Err(error) ==> snapshot_failure(sockets, uptimes, processes, error),
{
    let ghost samples = sample_views(processes->Ok_0@);
    let ghost socks = flattened(entry_views(sockets->Ok_0@));
    let ghost ups = uptimes->Ok_0@;
    let process_map = match get_processes_map(sockets, uptimes, processes) {
        Ok(process_map) => process_map,
        Err(e) => { return Err(e); },
    };
    let ghost table = enriched_map(samples, socks, ups);
    let pids = pids_of(&process_map);
    assert(table.dom() =~= process_map@.dom());
    let mut process_vec: Vec<ProcessInfo> = Vec::new();
    let mut i: usize = 0;
    while i < pids.len()
        invariant
            i <= pids.len(),
            table == record_views(process_map@),
            pids@.to_set() == process_map@.dom(),
            process_vec@.len() == i,
            forall|j: int| 0 <= j < i ==> (#[trigger] process_vec@[j])@ == table[pids@[j]],
        decreases pids.len() - i,
    {
        let pid = pids[i];
        assert(pids@.to_set().contains(pid));
        let info = match process_map.get(&pid) {
            Some(record) => record.clone(),
            None => ProcessInfo::placeholder(pid),
        };
        process_vec.push(info);
        i += 1;
    }
    proof {
        let list = record_list_views(process_vec@);
        assert forall|j: int| 0 <= j < list.len() implies (#[trigger] list[j]).pid == pids@[j]
            && table.contains_key(pids@[j]) && list[j] == table[pids@[j]] by {
            assert(list[j] == process_vec@[j]@);
            assert(pids@.to_set().contains(pids@[j]));
            lemma_record_pid(samples, socks, ups, pids@[j]);
        }
        assert forall|pid: u32| #[trigger] table.contains_key(pid) implies exists|i: int|
            0 <= i < list.len() && (#[trigger] list[i]).pid == pid by {
            assert(pids@.to_set().contains(pid));
            let j = choose|j: int| 0 <= j < pids@.len() && pids@[j] == pid;
            assert(list[j].pid == pid);
        }
        assert(lists_table(list, table));
    }
    Ok(process_vec)
}

} // verus!
