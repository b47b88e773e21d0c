use std::collections::HashMap;

use process_inventory::correlate::{
    correlate, find_socket, find_uptime, flatten_sockets, get_processes, get_processes_map, owns,
    pids_of,
};
use process_inventory::error::ApiError;
use process_inventory::process::{
    make_process_info, DiskCounters, DiskInfo, ProcessInfo, ProcessSample,
};
use process_inventory::socket::{
    SockInfo, SockProtocol, SockState, SocketEndpoints, SocketEntry,
};
use process_inventory::uptime::ProcessUptime;

fn sample(pid: u32, parent: Option<u32>) -> ProcessSample {
    ProcessSample {
        pid,
        parent,
        name: format!("proc{}", pid),
        exe: Some(format!("/bin/proc{}", pid)),
        cpu_usage: f32::to_bits(1.5),
        memory: 4096 * pid as u64,
        disk_usage: DiskCounters {
            total_written_bytes: 40,
            written_bytes: 4,
            total_read_bytes: 70,
            read_bytes: 7,
        },
        accumulated_cpu_time: 12,
    }
}

fn tcp_entry(addr: &str, port: u16, state: SockState, pids: Vec<u32>) -> SocketEntry {
    SocketEntry {
        endpoints: SocketEndpoints::Tcp {
            local_addr: addr.to_string(),
            local_port: port,
            remote_addr: "0.0.0.0".to_string(),
            remote_port: 0,
            state,
        },
        associated_pids: pids,
    }
}

fn udp_entry(addr: &str, port: u16, pids: Vec<u32>) -> SocketEntry {
    SocketEntry {
        endpoints: SocketEndpoints::Udp { local_addr: addr.to_string(), local_port: port },
        associated_pids: pids,
    }
}

fn sorted_keys(map: &HashMap<u32, ProcessInfo>) -> Vec<u32> {
    let mut keys: Vec<u32> = map.keys().copied().collect();
    keys.sort();
    keys
}

#[test]
fn test_get_processes() {
    let processes = vec![sample(1, None), sample(2, Some(1))];
    let sockets = vec![tcp_entry("127.0.0.1", 8080, SockState::Listen, vec![1])];
    let mut uptimes = HashMap::new();
    uptimes.insert(1, ProcessUptime { pid: 1, uptime: Some(5) });
    assert!(matches!(get_processes(Ok(sockets), Ok(uptimes), Ok(processes)), Ok(_)));
}

#[test]
fn get_processes_lists_every_record_once() {
    let processes = vec![sample(1, None), sample(2, Some(1)), sample(3, Some(99))];
    let list = get_processes(Ok(vec![]), Ok(HashMap::new()), Ok(processes)).unwrap();
    let mut pids: Vec<u32> = list.iter().map(|r| r.pid).collect();
    pids.sort();
    assert_eq!(pids, vec![1, 2, 3, 99]);
    let map = get_processes_map(
        Ok(vec![]),
        Ok(HashMap::new()),
        Ok(vec![sample(1, None), sample(2, Some(1)), sample(3, Some(99))]),
    )
    .unwrap();
    for record in &list {
        assert_eq!(map.get(&record.pid), Some(record));
    }
}

#[test]
fn missing_parent_gets_placeholder() {
    let processes = vec![sample(1, None), sample(2, Some(1)), sample(3, Some(99))];
    let map = get_processes_map(Ok(vec![]), Ok(HashMap::new()), Ok(processes)).unwrap();
    assert_eq!(sorted_keys(&map), vec![1, 2, 3, 99]);
    assert!(map[&99].is_placeholder());
    assert_eq!(map[&99], ProcessInfo::placeholder(99));
    assert!(!map[&1].is_placeholder());
    assert!(!map[&2].is_placeholder());
    assert!(!map[&3].is_placeholder());
    assert_eq!(map[&3].ppid, Some(99));
}

#[test]
fn tcp_listener_row_is_attached() {
    let sockets = vec![tcp_entry("127.0.0.1", 8080, SockState::Listen, vec![1])];
    let map = get_processes_map(Ok(sockets), Ok(HashMap::new()), Ok(vec![sample(1, None)])).unwrap();
    let record = &map[&1];
    assert_eq!(record.local_addr, Some("127.0.0.1".to_string()));
    assert_eq!(record.local_port, Some(8080));
    assert_eq!(record.protocol, Some(SockProtocol::Tcp));
    assert_eq!(record.state, Some(SockState::Listen));
}

#[test]
fn tcp_listener_without_remote_is_attached() {
    let socket = SockInfo {
        local_addr: "127.0.0.1".to_string(),
        local_port: 8080,
        protocol: SockProtocol::Tcp,
        pids: vec![1],
        remote_addr: None,
        remote_port: None,
        state: Some(SockState::Listen),
    };
    let map = correlate(&vec![sample(1, None)], &vec![socket], &HashMap::new());
    let record = &map[&1];
    assert_eq!(record.local_addr, Some("127.0.0.1".to_string()));
    assert_eq!(record.local_port, Some(8080));
    assert_eq!(record.protocol, Some(SockProtocol::Tcp));
    assert_eq!(record.state, Some(SockState::Listen));
    assert_eq!(record.remote_addr, None);
}

#[test]
fn udp_socket_brings_no_remote_and_no_state() {
    let sockets = vec![udp_entry("0.0.0.0", 53, vec![5])];
    let map = get_processes_map(Ok(sockets), Ok(HashMap::new()), Ok(vec![sample(5, None)])).unwrap();
    let record = &map[&5];
    assert_eq!(record.protocol, Some(SockProtocol::Udp));
    assert_eq!(record.local_addr, Some("0.0.0.0".to_string()));
    assert_eq!(record.local_port, Some(53));
    assert_eq!(record.remote_addr, None);
    assert_eq!(record.remote_port, None);
    assert_eq!(record.state, None);
}

#[test]
fn keys_are_enumerated_pids_and_referenced_parents() {
    let processes = vec![
        sample(10, Some(4)),
        sample(11, Some(10)),
        sample(12, Some(7)),
        sample(13, None),
        sample(14, Some(7)),
    ];
    let map = correlate(&processes, &vec![], &HashMap::new());
    assert_eq!(sorted_keys(&map), vec![4, 7, 10, 11, 12, 13, 14]);
    assert_eq!(map.len(), 7);
}

#[test]
fn placeholder_only_for_parents_never_enumerated() {
    let processes = vec![sample(2, Some(1)), sample(1, Some(50)), sample(3, Some(2))];
    let map = correlate(&processes, &vec![], &HashMap::new());
    for (pid, record) in &map {
        assert_eq!(record.pid, *pid);
        assert_eq!(record.is_placeholder(), *pid == 50);
    }
    assert_eq!(map[&1].name, Some("proc1".to_string()));
}

#[test]
fn enumerated_parent_is_not_overwritten() {
    let processes = vec![sample(2, Some(1)), sample(1, None)];
    let map = correlate(&processes, &vec![], &HashMap::new());
    assert_eq!(sorted_keys(&map), vec![1, 2]);
    assert_eq!(map[&1].name, Some("proc1".to_string()));
    assert_eq!(map[&1].memory, Some(4096));
}

#[test]
fn first_socket_in_list_wins() {
    let sockets = flatten_sockets(&vec![
        udp_entry("10.0.0.1", 1000, vec![8]),
        tcp_entry("10.0.0.2", 2000, SockState::Established, vec![7, 9]),
        udp_entry("10.0.0.3", 3000, vec![9, 7]),
    ]);
    assert_eq!(find_socket(&sockets, 7).map(|s| s.local_port), Some(2000));
    assert_eq!(find_socket(&sockets, 9).map(|s| s.local_port), Some(2000));
    assert_eq!(find_socket(&sockets, 8).map(|s| s.local_port), Some(1000));
    assert_eq!(find_socket(&sockets, 6), None);
    let map = correlate(&vec![sample(7, None), sample(6, None)], &sockets, &HashMap::new());
    assert_eq!(map[&7].local_addr, Some("10.0.0.2".to_string()));
    assert_eq!(map[&7].protocol, Some(SockProtocol::Tcp));
    assert_eq!(map[&7].remote_addr, Some("0.0.0.0".to_string()));
    assert_eq!(map[&7].remote_port, Some(0));
    assert_eq!(map[&7].state, Some(SockState::Established));
    assert_eq!(map[&6].local_addr, None);
    assert_eq!(map[&6].local_port, None);
    assert_eq!(map[&6].protocol, None);
}

#[test]
fn socket_attachment_is_repeatable() {
    let entries = vec![
        tcp_entry("10.0.0.2", 2000, SockState::Established, vec![7, 9]),
        udp_entry("10.0.0.3", 3000, vec![9, 7]),
    ];
    let processes = vec![sample(7, None), sample(9, Some(7))];
    let mut uptimes = HashMap::new();
    uptimes.insert(7, ProcessUptime { pid: 7, uptime: Some(1) });
    let first = get_processes_map(Ok(entries.clone()), Ok(HashMap::new()), Ok(processes.clone()))
        .unwrap();
    let second = get_processes_map(Ok(entries), Ok(uptimes), Ok(processes)).unwrap();
    for pid in [7u32, 9] {
        assert_eq!(first[&pid].local_addr, second[&pid].local_addr);
        assert_eq!(first[&pid].local_port, second[&pid].local_port);
        assert_eq!(first[&pid].protocol, second[&pid].protocol);
        assert_eq!(first[&pid].local_port, Some(2000));
    }
}

#[test]
fn last_sample_of_a_pid_wins() {
    let mut late = sample(4, Some(1));
    late.name = "late".to_string();
    let processes = vec![sample(4, None), late];
    let map = correlate(&processes, &vec![], &HashMap::new());
    assert_eq!(sorted_keys(&map), vec![1, 4]);
    assert_eq!(map[&4].name, Some("late".to_string()));
    assert_eq!(map[&4].ppid, Some(1));
}

#[test]
fn uptime_is_attached_where_known() {
    let mut uptimes = HashMap::new();
    uptimes.insert(1, ProcessUptime { pid: 1, uptime: Some(77) });
    uptimes.insert(2, ProcessUptime { pid: 2, uptime: None });
    assert_eq!(find_uptime(&uptimes, 1), Some(77));
    assert_eq!(find_uptime(&uptimes, 2), None);
    assert_eq!(find_uptime(&uptimes, 3), None);
    let map = correlate(&vec![sample(1, None), sample(2, None), sample(3, None)], &vec![], &uptimes);
    assert_eq!(map[&1].uptime, Some(77));
    assert_eq!(map[&2].uptime, None);
    assert_eq!(map[&3].uptime, None);
}

#[test]
fn make_process_info_copies_every_figure() {
    let socket = SockInfo::from(&tcp_entry("192.168.1.2", 443, SockState::TimeWait, vec![21]));
    let info = make_process_info(&sample(21, Some(20)), Some(&socket), Some(300));
    assert_eq!(
        info,
        ProcessInfo {
            pid: 21,
            ppid: Some(20),
            name: Some("proc21".to_string()),
            exe: Some("/bin/proc21".to_string()),
            cpu_usage: Some(f32::to_bits(1.5)),
            memory: Some(4096 * 21),
            disk_usage: Some(DiskInfo {
                read_bytes: 7,
                write_bytes: 4,
                total_read_bytes: 70,
                total_write_bytes: 40,
            }),
            accumulated_cpu_time: Some(12),
            local_addr: Some("192.168.1.2".to_string()),
            local_port: Some(443),
            protocol: Some(SockProtocol::Tcp),
            remote_addr: Some("0.0.0.0".to_string()),
            remote_port: Some(0),
            state: Some(SockState::TimeWait),
            uptime: Some(300),
        }
    );
    assert_eq!(f32::from_bits(info.cpu_usage.unwrap()), 1.5);
}

#[test]
fn make_process_info_without_socket_or_exe() {
    let mut bare = sample(3, None);
    bare.exe = None;
    let info = make_process_info(&bare, None, None);
    assert_eq!(info.pid, 3);
    assert_eq!(info.ppid, None);
    assert_eq!(info.exe, None);
    assert_eq!(info.name, Some("proc3".to_string()));
    assert_eq!(info.local_addr, None);
    assert_eq!(info.local_port, None);
    assert_eq!(info.protocol, None);
    assert_eq!(info.remote_addr, None);
    assert_eq!(info.remote_port, None);
    assert_eq!(info.state, None);
    assert_eq!(info.uptime, None);
    assert!(!info.is_placeholder());
}

#[test]
fn disk_info_renames_written_to_write() {
    let counters = DiskCounters {
        total_written_bytes: 1,
        written_bytes: 2,
        total_read_bytes: 3,
        read_bytes: 4,
    };
    assert_eq!(
        DiskInfo::from(&counters),
        DiskInfo { read_bytes: 4, write_bytes: 2, total_read_bytes: 3, total_write_bytes: 1 }
    );
}

#[test]
fn default_record_is_the_placeholder_of_pid_zero() {
    assert_eq!(ProcessInfo::default(), ProcessInfo::placeholder(0));
    assert!(ProcessInfo::default().is_placeholder());
    let copy = ProcessInfo::placeholder(8).clone();
    assert_eq!(copy.pid, 8);
    assert!(copy.is_placeholder());
}

#[test]
fn owns_looks_through_all_pids() {
    let socket = SockInfo::from(&udp_entry("::1", 9, vec![3, 5, 8]));
    assert!(owns(&socket, 3));
    assert!(owns(&socket, 8));
    assert!(!owns(&socket, 4));
    let nobody = SockInfo::from(&udp_entry("::1", 9, vec![]));
    assert!(!owns(&nobody, 0));
}

#[test]
fn socket_failure_comes_first() {
    let result = get_processes_map(
        Err(netstat2::error::Error::NotAValidSocket),
        Err(ApiError::UptimeQueryFailed("no times".to_string())),
        Err("no list".to_string()),
    );
    assert_eq!(result, Err(ApiError::NetstatError("Not a valid socket".to_string())));
    let list = get_processes(
        Err(netstat2::error::Error::UnknownProtocol(9)),
        Ok(HashMap::new()),
        Ok(vec![sample(1, None)]),
    );
    assert_eq!(list, Err(ApiError::NetstatError("Found unknown protocol 9".to_string())));
}

#[test]
fn uptime_failure_comes_second() {
    let result = get_processes_map(
        Ok(vec![]),
        Err(ApiError::UptimeQueryFailed("no times".to_string())),
        Err("no list".to_string()),
    );
    assert_eq!(result, Err(ApiError::UptimeQueryFailed("no times".to_string())));
}

#[test]
fn process_failure_comes_last() {
    let result = get_processes_map(Ok(vec![]), Ok(HashMap::new()), Err("no list".to_string()));
    assert_eq!(result, Err(ApiError::ProcessEnumerationFailed("no list".to_string())));
    let list = get_processes(Ok(vec![]), Ok(HashMap::new()), Err("no list".to_string()));
    assert_eq!(list, Err(ApiError::ProcessEnumerationFailed("no list".to_string())));
}

#[test]
fn empty_snapshot_gives_empty_table() {
    let map = get_processes_map(Ok(vec![]), Ok(HashMap::new()), Ok(vec![])).unwrap();
    assert!(map.is_empty());
    assert_eq!(get_processes(Ok(vec![]), Ok(HashMap::new()), Ok(vec![])), Ok(vec![]));
}

#[test]
fn pids_of_lists_each_key_once() {
    let map = correlate(&vec![sample(5, Some(6)), sample(7, Some(5))], &vec![], &HashMap::new());
    let mut pids = pids_of(&map);
    pids.sort();
    assert_eq!(pids, vec![5, 6, 7]);
}
