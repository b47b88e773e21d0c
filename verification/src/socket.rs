//! Socket observations and the per-socket record derived from them.

use vstd::prelude::*;
use vstd::std_specs::convert::FromSpecImpl;

verus! {

/// Transport protocol of a socket.
#[derive(Clone, Copy, Debug, PartialEq, Eq, Structural)]
pub enum SockProtocol {
    Tcp,
    Udp,
}

/// State of a TCP connection.
#[derive(Clone, Copy, Debug, PartialEq, Eq, Structural)]
pub enum SockState {
    Closed,
    Listen,
    SynSent,
    SynReceived,
    Established,
    FinWait1,
    FinWait2,
    CloseWait,
    Closing,
    LastAck,
    TimeWait,
    DeleteTcb,
    Unknown,
}

/// The protocol-specific part of one row of the operating system's socket table.
#[derive(Clone, Debug, PartialEq, Eq)]
pub enum SocketEndpoints {
    Tcp {
        local_addr: String,
        local_port: u16,
        remote_addr: String,
        remote_port: u16,
        state: SockState,
    },
    Udp { local_addr: String, local_port: u16 },
}

/// One row of the operating system's socket table.
#[derive(Clone, Debug, PartialEq, Eq)]
pub struct SocketEntry {
    pub endpoints: SocketEndpoints,
    pub associated_pids: Vec<u32>,
}

/// One observed socket, flattened for correlation with processes.
#[derive(Clone, Debug, PartialEq, Eq)]
pub struct SockInfo {
    pub local_addr: String,
    pub local_port: u16,
    pub protocol: SockProtocol,
    pub pids: Vec<u32>,
    pub remote_addr: Option<String>,
    pub remote_port: Option<u16>,
    pub state: Option<SockState>,
}

/// Mathematical model of [`SocketEndpoints`].
pub enum SocketEndpointsView {
    Tcp {
        local_addr: Seq<char>,
        local_port: u16,
        remote_addr: Seq<char>,
        remote_port: u16,
        state: SockState,
    },
    Udp { local_addr: Seq<char>, local_port: u16 },
}

/// Mathematical model of [`SocketEntry`].
pub struct SocketEntryView {
    pub endpoints: SocketEndpointsView,
    pub associated_pids: Seq<u32>,
}

/// Mathematical model of [`SockInfo`].
pub struct SockInfoView {
    pub local_addr: Seq<char>,
    pub local_port: u16,
    pub protocol: SockProtocol,
    pub pids: Seq<u32>,
    pub remote_addr: Option<Seq<char>>,
    pub remote_port: Option<u16>,
    pub state: Option<SockState>,
}

impl View for SocketEndpoints {
    type V = SocketEndpointsView;

    open spec fn view(&self) -> SocketEndpointsView {
        match *self {
            SocketEndpoints::Tcp {
                local_addr,
                local_port,
                remote_addr,
                remote_port,
                state,
            } => SocketEndpointsView::Tcp {
                local_addr: local_addr@,
                local_port,
                remote_addr: remote_addr@,
                remote_port,
                state,
            },
            SocketEndpoints::Udp { local_addr, local_port } => SocketEndpointsView::Udp {
                local_addr: local_addr@,
                local_port,
            },
        }
    }
}

impl View for SocketEntry {
    type V = SocketEntryView;

    open spec fn view(&self) -> SocketEntryView {
        SocketEntryView { endpoints: self.endpoints@, associated_pids: self.associated_pids@ }
    }
}

impl View for SockInfo {
    type V = SockInfoView;

    open spec fn view(&self) -> SockInfoView {
        SockInfoView {
            local_addr: self.local_addr@,
            local_port: self.local_port,
            protocol: self.protocol,
            pids: self.pids@,
            remote_addr: match self.remote_addr {
                Some(a) => Some(a@),
                None => None,
            },
            remote_port: self.remote_port,
            state: self.state,
        }
    }
}

impl SocketEndpointsView {
    /// The protocol this row was reported under.
    pub open spec fn protocol(self) -> SockProtocol {
        match self {
            SocketEndpointsView::Tcp { .. } => SockProtocol::Tcp,
            SocketEndpointsView::Udp { .. } => SockProtocol::Udp,
        }
    }
}

impl FromSpecImpl<&SocketEndpoints> for SockProtocol {
    open spec fn obeys_from_spec() -> bool {
        true
    }

    open spec fn from_spec(endpoints: &SocketEndpoints) -> SockProtocol {
        endpoints@.protocol()
    }
}

impl From<&SocketEndpoints> for SockProtocol {
    fn from(endpoints: &SocketEndpoints) -> (protocol: SockProtocol) {
        match endpoints {
            SocketEndpoints::Tcp { .. } => SockProtocol::Tcp,
            SocketEndpoints::Udp { .. } => SockProtocol::Udp,
        }
    }
}

impl SockInfoView {
    /// A record is well formed when it carries a remote endpoint and a
    /// connection state for TCP only: a UDP record has neither.
    pub open spec fn wf(self) -> bool {
        self.protocol == SockProtocol::Udp ==> self.remote_addr is None && self.remote_port is None
            && self.state is None
    }

    /// Whether the operating system associates `pid` with this socket.
    pub open spec fn owned_by(self, pid: u32) -> bool {
        self.pids.contains(pid)
    }

    /// The record that a socket table row flattens to.
    pub open spec fn of_entry(entry: SocketEntryView) -> SockInfoView {
        match entry.endpoints {
            SocketEndpointsView::Tcp {
                local_addr,
                local_port,
                remote_addr,
                remote_port,
                state,
            } => SockInfoView {
                local_addr,
                local_port,
                protocol: SockProtocol::Tcp,
                pids: entry.associated_pids,
                remote_addr: Some(remote_addr),
                remote_port: Some(remote_port),
                state: Some(state),
            },
            SocketEndpointsView::Udp { local_addr, local_port } => SockInfoView {
                local_addr,
                local_port,
                protocol: SockProtocol::Udp,
                pids: entry.associated_pids,
                remote_addr: None,
                remote_port: None,
                state: None,
            },
        }
    }
}

impl FromSpecImpl<&SocketEntry> for SockInfo {
    open spec fn obeys_from_spec() -> bool {
        false
    }

    open spec fn from_spec(entry: &SocketEntry) -> SockInfo {
        arbitrary()
    }
}

impl From<&SocketEntry> for SockInfo {
    /// Flattens a row: a TCP row keeps its remote endpoint and its state, a
    /// UDP row has none.
    fn from(entry: &SocketEntry) -> (info: SockInfo)
        ensures
            info@ == SockInfoView::of_entry(entry@),
            info@.wf(),
    {
        let protocol = SockProtocol::from(&entry.endpoints);
        let pids = entry.associated_pids.clone();
        match &entry.endpoints {
            SocketEndpoints::Tcp {
                local_addr,
                local_port,
                remote_addr,
                remote_port,
                state,
            } => SockInfo {
                local_addr: local_addr.clone(),
                local_port: *local_port,
                protocol,
                pids,
                remote_addr: Some(remote_addr.clone()),
                remote_port: Some(*remote_port),
                state: Some(*state),
            },
            SocketEndpoints::Udp { local_addr, local_port } => SockInfo {
                local_addr: local_addr.clone(),
                local_port: *local_port,
                protocol,
                pids,
                remote_addr: None,
                remote_port: None,
                state: None,
            },
        }
    }
}

} // verus!
