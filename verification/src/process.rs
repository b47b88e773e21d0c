//! Process samples as the operating system reports them, and the enriched
//! per-process record that correlation produces.

use vstd::prelude::*;
use vstd::std_specs::convert::FromSpecImpl;
use crate::socket::{SockInfo, SockInfoView, SockProtocol, SockState};

verus! {

/// Disk transfer counters of a process as the operating system reports them.
#[derive(Clone, Copy, Debug, PartialEq, Eq, Structural)]
pub struct DiskCounters {
    pub total_written_bytes: u64,
    pub written_bytes: u64,
    pub total_read_bytes: u64,
    pub read_bytes: u64,
}

/// Disk transfer figures of a process as the record presents them.
#[derive(Clone, Copy, Debug, PartialEq, Eq, Structural)]
pub struct DiskInfo {
    pub read_bytes: u64,
    pub write_bytes: u64,
    pub total_read_bytes: u64,
    pub total_write_bytes: u64,
}

impl DiskInfo {
    /// The figures that a set of counters is presented as.
    pub open spec fn of_counters(counters: DiskCounters) -> DiskInfo {
        DiskInfo {
            read_bytes: counters.read_bytes,
            write_bytes: counters.written_bytes,
            total_read_bytes: counters.total_read_bytes,
            total_write_bytes: counters.total_written_bytes,
        }
    }
}

impl FromSpecImpl<&DiskCounters> for DiskInfo {
    open spec fn obeys_from_spec() -> bool {
        true
    }

    open spec fn from_spec(counters: &DiskCounters) -> DiskInfo {
        DiskInfo::of_counters(*counters)
    }
}

impl From<&DiskCounters> for DiskInfo {
    fn from(counters: &DiskCounters) -> (info: DiskInfo) {
        DiskInfo {
            read_bytes: counters.read_bytes,
            write_bytes: counters.written_bytes,
            total_read_bytes: counters.total_read_bytes,
            total_write_bytes: counters.total_written_bytes,
        }
    }
}

/// One process as the operating system enumerates it.
///
/// `cpu_usage` holds the IEEE 754 single-precision bit pattern of the
/// percentage; the library carries it and never computes with it.
#[derive(Clone, Debug, PartialEq, Eq)]
pub struct ProcessSample {
    pub pid: u32,
    pub parent: Option<u32>,
    pub name: String,
    pub exe: Option<String>,
    pub cpu_usage: u32,
    pub memory: u64,
    pub disk_usage: DiskCounters,
    pub accumulated_cpu_time: u64,
}

/// Mathematical model of [`ProcessSample`].
pub struct ProcessSampleView {
    pub pid: u32,
    pub parent: Option<u32>,
    pub name: Seq<char>,
    pub exe: Option<Seq<char>>,
    pub cpu_usage: u32,
    pub memory: u64,
    pub disk_usage: DiskCounters,
    pub accumulated_cpu_time: u64,
}

/// The model of an optional string.
pub open spec fn text_view(text: Option<String>) -> Option<Seq<char>> {
    match text {
        Some(t) => Some(t@),
        None => None,
    }
}

impl View for ProcessSample {
    type V = ProcessSampleView;

    open spec fn view(&self) -> ProcessSampleView {
        ProcessSampleView {
            pid: self.pid,
            parent: self.parent,
            name: self.name@,
            exe: text_view(self.exe),
            cpu_usage: self.cpu_usage,
            memory: self.memory,
            disk_usage: self.disk_usage,
            accumulated_cpu_time: self.accumulated_cpu_time,
        }
    }
}

/// The enriched record of one process: what the operating system reported of
/// it, the socket attached to it, and its uptime.
///
/// `cpu_usage` holds the IEEE 754 single-precision bit pattern of the
/// percentage.
#[derive(Debug, PartialEq, Eq)]
pub struct ProcessInfo {
    pub pid: u32,
    pub ppid: Option<u32>,
    pub name: Option<String>,
    pub exe: Option<String>,
    pub cpu_usage: Option<u32>,
    pub memory: Option<u64>,
    pub disk_usage: Option<DiskInfo>,
    pub accumulated_cpu_time: Option<u64>,
    pub local_addr: Option<String>,
    pub local_port: Option<u16>,
    pub protocol: Option<SockProtocol>,
    pub remote_addr: Option<String>,
    pub remote_port: Option<u16>,
    pub state: Option<SockState>,
    pub uptime: Option<u64>,
}

/// Mathematical model of [`ProcessInfo`].
pub struct ProcessInfoView {
    pub pid: u32,
    pub ppid: Option<u32>,
    pub name: Option<Seq<char>>,
    pub exe: Option<Seq<char>>,
    pub cpu_usage: Option<u32>,
    pub memory: Option<u64>,
    pub disk_usage: Option<DiskInfo>,
    pub accumulated_cpu_time: Option<u64>,
    pub local_addr: Option<Seq<char>>,
    pub local_port: Option<u16>,
    pub protocol: Option<SockProtocol>,
    pub remote_addr: Option<Seq<char>>,
    pub remote_port: Option<u16>,
    pub state: Option<SockState>,
    pub uptime: Option<u64>,
}

impl View for ProcessInfo {
    type V = ProcessInfoView;

    open spec fn view(&self) -> ProcessInfoView {
        ProcessInfoView {
            pid: self.pid,
            ppid: self.ppid,
            name: text_view(self.name),
            exe: text_view(self.exe),
            cpu_usage: self.cpu_usage,
            memory: self.memory,
            disk_usage: self.disk_usage,
            accumulated_cpu_time: self.accumulated_cpu_time,
            local_addr: text_view(self.local_addr),
            local_port: self.local_port,
            protocol: self.protocol,
            remote_addr: text_view(self.remote_addr),
            remote_port: self.remote_port,
            state: self.state,
            uptime: self.uptime,
        }
    }
}

impl ProcessInfoView {
    /// The record that stands for a parent that was referenced but never
    /// enumerated: nothing is known of it but its pid.
    pub open spec fn placeholder(pid: u32) -> ProcessInfoView {
        ProcessInfoView {
            pid,
            ppid: None,
            name: None,
            exe: None,
            cpu_usage: None,
            memory: None,
            disk_usage: None,
            accumulated_cpu_time: None,
            local_addr: None,
            local_port: None,
            protocol: None,
            remote_addr: None,
            remote_port: None,
            state: None,
            uptime: None,
        }
    }

    /// Whether nothing is known of the process but its pid.
    pub open spec fn is_placeholder(self) -> bool {
        self == Self::placeholder(self.pid)
    }

    /// The socket fields of a record are well formed when they are all
    /// absent where no socket is attached, the local endpoint is present
    /// where one is, and a UDP socket brings no remote endpoint and no state.
    pub open spec fn wf(self) -> bool {
        match self.protocol {
            None => self.local_addr is None && self.local_port is None && self.remote_addr is None
                && self.remote_port is None && self.state is None,
            Some(SockProtocol::Tcp) => self.local_addr is Some && self.local_port is Some,
            Some(SockProtocol::Udp) => self.local_addr is Some && self.local_port is Some
                && self.remote_addr is None && self.remote_port is None && self.state is None,
        }
    }

    /// The record of an enumerated process: the sample's own figures, the
    /// fields of the attached socket if there is one, and the uptime.
    pub open spec fn enriched(
        sample: ProcessSampleView,
        socket: Option<SockInfoView>,
        uptime: Option<u64>,
    ) -> ProcessInfoView {
        ProcessInfoView {
            pid: sample.pid,
            ppid: sample.parent,
            name: Some(sample.name),
            exe: sample.exe,
            cpu_usage: Some(sample.cpu_usage),
            memory: Some(sample.memory),
            disk_usage: Some(DiskInfo::of_counters(sample.disk_usage)),
            accumulated_cpu_time: Some(sample.accumulated_cpu_time),
            local_addr: match socket {
                Some(s) => Some(s.local_addr),
                None => None,
            },
            local_port: match socket {
                Some(s) => Some(s.local_port),
                None => None,
            },
            protocol: match socket {
                Some(s) => Some(s.protocol),
                None => None,
            },
            remote_addr: match socket {
                Some(s) => s.remote_addr,
                None => None,
            },
            remote_port: match socket {
                Some(s) => s.remote_port,
                None => None,
            },
            state: match socket {
                Some(s) => s.state,
                None => None,
            },
            uptime,
        }
    }
}

/// The model of an optional socket record.
pub open spec fn socket_view(socket: Option<&SockInfo>) -> Option<SockInfoView> {
    match socket {
        Some(s) => Some(s@),
        None => None,
    }
}

/// Copies an optional string.
pub fn clone_text(text: &Option<String>) -> (copy: Option<String>)
    ensures
        copy == *text,
{
    match text {
        Some(t) => Some(t.clone()),
        None => None,
    }
}

impl Clone for ProcessInfo {
    fn clone(&self) -> (copy: ProcessInfo)
        ensures
            copy == *self,
    {
        ProcessInfo {
            pid: self.pid,
            ppid: self.ppid,
            name: clone_text(&self.name),
            exe: clone_text(&self.exe),
            cpu_usage: self.cpu_usage,
            memory: self.memory,
            disk_usage: self.disk_usage,
            accumulated_cpu_time: self.accumulated_cpu_time,
            local_addr: clone_text(&self.local_addr),
            local_port: self.local_port,
            protocol: self.protocol,
            remote_addr: clone_text(&self.remote_addr),
            remote_port: self.remote_port,
            state: self.state,
            uptime: self.uptime,
        }
    }
}

impl Default for ProcessInfo {
    fn default() -> (info: ProcessInfo)
        ensures
            info@ == ProcessInfoView::placeholder(0),
    {
        ProcessInfo::placeholder(0)
    }
}

impl ProcessInfo {
    /// The record that stands for a parent that was referenced but never
    /// enumerated.
    pub fn placeholder(pid: u32) -> (info: ProcessInfo)
        ensures
            info@ == ProcessInfoView::placeholder(pid),
    {
        ProcessInfo {
            pid,
            ppid: None,
            name: None,
            exe: None,
            cpu_usage: None,
            memory: None,
            disk_usage: None,
            accumulated_cpu_time: None,
            local_addr: None,
            local_port: None,
            protocol: None,
            remote_addr: None,
            remote_port: None,
            state: None,
            uptime: None,
        }
    }

    /// Whether nothing is known of the process but its pid.
    pub fn is_placeholder(&self) -> (b: bool)
        ensures
            b == self@.is_placeholder(),
    {
        self.ppid.is_none() && self.name.is_none() && self.exe.is_none()
            && self.cpu_usage.is_none() && self.memory.is_none() && self.disk_usage.is_none()
            && self.accumulated_cpu_time.is_none() && self.local_addr.is_none()
            && self.local_port.is_none() && self.protocol.is_none() && self.remote_addr.is_none()
            && self.remote_port.is_none() && self.state.is_none() && self.uptime.is_none()
    }
}

/// Builds the enriched record of an enumerated process from its sample, the
/// socket attached to it, if any, and its uptime, if known.
pub fn make_process_info(
    process: &ProcessSample,
    socket_info: Option<&SockInfo>,
    uptime: Option<u64>,
) -> (info: ProcessInfo)
    ensures
        info@ == ProcessInfoView::enriched(process@, socket_view(socket_info), uptime),
        (socket_info matches Some(s) ==> s@.wf()) ==> info@.wf(),
{
    let (local_addr, local_port, protocol, remote_addr, remote_port, state) = match socket_info {
        Some(socket_info) => (
            Some(socket_info.local_addr.clone()),
            Some(socket_info.local_port),
            Some(socket_info.protocol),
            clone_text(&socket_info.remote_addr),
            socket_info.remote_port,
            socket_info.state,
        ),
        None => (None, None, None, None, None, None),
    };
    ProcessInfo {
        pid: process.pid,
        ppid: process.parent,
        name: Some(process.name.clone()),
        exe: clone_text(&process.exe),
        cpu_usage: Some(process.cpu_usage),
        memory: Some(process.memory),
        disk_usage: Some(DiskInfo::from(&process.disk_usage)),
        accumulated_cpu_time: Some(process.accumulated_cpu_time),
        local_addr,
        local_port,
        protocol,
        remote_addr,
        remote_port,
        state,
        uptime,
    }
}

} // verus!
