//! Process uptimes, derived from the creation time that the operating system
//! keeps for each process.

use std::collections::HashMap;
use vstd::prelude::*;
use vstd::std_specs::hash::*;
use crate::error::ApiError;

verus! {

broadcast use vstd::std_specs::hash::group_hash_axioms;

/// Number of 100-nanosecond ticks in one second.
pub const TICKS_PER_SECOND: u64 = 10_000_000;

/// Seconds from 1601-01-01, where tick counts begin, to 1970-01-01.
pub const EPOCH_OFFSET_SECS: u64 = 11_644_473_600;

/// A point in time as a count of 100-nanosecond ticks since 1601-01-01,
/// split into its high and low 32 bits.
#[derive(Clone, Copy, Debug, PartialEq, Eq, Structural)]
pub struct FileTime {
    pub high: u32,
    pub low: u32,
}

impl FileTime {
    /// The tick count that the two halves stand for.
    pub open spec fn ticks(self) -> int {
        self.high * 0x1_0000_0000 + self.low
    }

    /// The point in time in whole seconds relative to 1970-01-01; negative
    /// before that date.
    pub open spec fn unix_seconds(self) -> int {
        self.ticks() / 10_000_000 - 11_644_473_600
    }
}

/// Converts a tick count since 1601-01-01 to whole seconds since 1970-01-01.
/// There is no result for a point in time before 1970-01-01.
pub fn filetime_to_unix_epoch(ft: FileTime) -> (secs: Option<u64>)
    ensures
        secs == if ft.unix_seconds() >= 0 {
            Some(ft.unix_seconds() as u64)
        } else {
            None::<u64>
        },
{
    let total: u64 = ft.high as u64 * 0x1_0000_0000 + ft.low as u64;
    let since_1601: u64 = total / TICKS_PER_SECOND;
    if since_1601 >= EPOCH_OFFSET_SECS {
        Some(since_1601 - EPOCH_OFFSET_SECS)
    } else {
        None
    }
}

/// What was learnt of one process when its creation time was asked for:
/// `creation` is absent where the process could not be opened or gave no
/// times.
#[derive(Clone, Copy, Debug, PartialEq, Eq, Structural)]
pub struct CreationProbe {
    pub pid: u32,
    pub creation: Option<FileTime>,
}

/// The uptime of one process in seconds, where it is known.
#[derive(Clone, Copy, Debug, PartialEq, Eq, Structural)]
pub struct ProcessUptime {
    pub pid: u32,
    pub uptime: Option<u64>,
}

/// Whether a creation time is worth asking for: pid 0 stands for the idle
/// process, which cannot be opened.
pub fn needs_probe(pid: u32) -> (b: bool)
    ensures
        b == (pid != 0),
{
    pid != 0
}

/// The seconds a process has been running at `now_secs` (seconds since
/// 1970-01-01). Unknown for pid 0, where no creation time was read, and where
/// the creation time lies before 1970-01-01 or after `now_secs`.
pub open spec fn uptime_at(probe: CreationProbe, now_secs: u64) -> Option<u64> {
    match probe.creation {
        Some(ft) => if probe.pid != 0 && 0 <= ft.unix_seconds() <= now_secs {
            Some((now_secs - ft.unix_seconds()) as u64)
        } else {
            None
        },
        None => None,
    }
}

/// The uptime record of one probed process at `now_secs`.
pub fn process_uptime(probe: CreationProbe, now_secs: u64) -> (record: ProcessUptime)
    ensures
        record == (ProcessUptime { pid: probe.pid, uptime: uptime_at(probe, now_secs) }),
{
    let mut uptime: Option<u64> = None;
    if probe.pid != 0 {
        if let Some(ft) = probe.creation {
            if let Some(start_secs) = filetime_to_unix_epoch(ft) {
                if start_secs <= now_secs {
                    uptime = Some(now_secs - start_secs);
                }
            }
        }
    }
    ProcessUptime { pid: probe.pid, uptime }
}

/// The last probe of `pid` among `probes`, if there is one.
pub open spec fn probe_of(probes: Seq<CreationProbe>, pid: u32) -> Option<CreationProbe>
    decreases probes.len(),
{
    if probes.len() == 0 {
        None
    } else if probes.last().pid == pid {
        Some(probes.last())
    } else {
        probe_of(probes.drop_last(), pid)
    }
}

/// The uptime table of a list of probes at `now_secs`: one record for each
/// pid that was probed, from the last probe of that pid.
pub open spec fn uptime_table(probes: Seq<CreationProbe>, now_secs: u64) -> Map<
    u32,
    ProcessUptime,
> {
    Map::new(
        |pid: u32| probe_of(probes, pid) is Some,
        |pid: u32| ProcessUptime { pid, uptime: uptime_at(probe_of(probes, pid)->0, now_secs) },
    )
}

/// Builds the uptime table from the outcome of enumerating and probing the
/// processes. A failed enumeration is reported as `UptimeQueryFailed` with the
/// enumeration's own message.
pub fn get_process_uptime(enumeration: Result<Vec<CreationProbe>, String>, now_secs: u64) -> (table:
    Result<HashMap<u32, ProcessUptime>, ApiError>)
    ensures
        match enumeration {
            Ok(probes) => table is Ok && table->Ok_0@ == uptime_table(probes@, now_secs),
            Err(message) => table == Err::<HashMap<u32, ProcessUptime>, ApiError>(
                ApiError::UptimeQueryFailed(message),
            ),
        },
{
    match enumeration {
        Err(message) => Err(ApiError::UptimeQueryFailed(message)),
        Ok(probes) => {
            let mut processes_uptime: HashMap<u32, ProcessUptime> = HashMap::new();
            let mut i: usize = 0;
            while i < probes.len()
                invariant
                    i <= probes.len(),
                    processes_uptime@ == uptime_table(probes@.take(i as int), now_secs),
                decreases probes.len() - i,
            {
                let record = process_uptime(probes[i], now_secs);
                processes_uptime.insert(record.pid, record);
                proof {
                    let before = probes@.take(i as int);
                    let after = probes@.take(i + 1);
                    assert(after.drop_last() == before);
                    assert(after.last() == probes@[i as int]);
                    assert(processes_uptime@ =~= uptime_table(after, now_secs));
                }
                i += 1;
            }
            assert(probes@.take(probes.len() as int) == probes@);
            Ok(processes_uptime)
        },
    }
}

} // verus!
