use process_inventory::error::ApiError;
use process_inventory::uptime::{
    filetime_to_unix_epoch, get_process_uptime, needs_probe, process_uptime, CreationProbe,
    FileTime, ProcessUptime, EPOCH_OFFSET_SECS, TICKS_PER_SECOND,
};

fn file_time_of_unix(secs: u64) -> FileTime {
    let ticks = (secs + EPOCH_OFFSET_SECS) * TICKS_PER_SECOND;
    FileTime { high: (ticks >> 32) as u32, low: ticks as u32 }
}

#[test]
fn test_get_process_uptime() {
    let probes = vec![
        CreationProbe { pid: 0, creation: None },
        CreationProbe { pid: 4, creation: Some(file_time_of_unix(1_577_836_800)) },
        CreationProbe { pid: 9, creation: None },
    ];
    assert!(matches!(get_process_uptime(Ok(probes), 1_577_836_900), Ok(_)));
}

#[test]
fn unix_epoch_is_second_zero() {
    assert_eq!(filetime_to_unix_epoch(FileTime { high: 0x019D_B1DE, low: 0xD53E_8000 }), Some(0));
    assert_eq!(filetime_to_unix_epoch(file_time_of_unix(0)), Some(0));
}

#[test]
fn ticks_within_a_second_are_dropped() {
    let start = FileTime { high: 0x019D_B1DE, low: 0xD53E_8000 + 9_999_999 };
    assert_eq!(filetime_to_unix_epoch(start), Some(0));
    let next = FileTime { high: 0x019D_B1DE, low: 0xD53E_8000 + 10_000_000 };
    assert_eq!(filetime_to_unix_epoch(next), Some(1));
}

#[test]
fn time_before_1970_has_no_unix_seconds() {
    assert_eq!(filetime_to_unix_epoch(FileTime { high: 0, low: 0 }), None);
    assert_eq!(filetime_to_unix_epoch(FileTime { high: 0x019D_B1DE, low: 0xD53E_7FFF }), None);
}

#[test]
fn largest_tick_count_converts() {
    let secs = u64::MAX / 10_000_000 - 11_644_473_600;
    assert_eq!(filetime_to_unix_epoch(FileTime { high: u32::MAX, low: u32::MAX }), Some(secs));
    assert_eq!(secs, 1_833_029_933_770);
}

#[test]
fn a_known_date_converts() {
    assert_eq!(filetime_to_unix_epoch(file_time_of_unix(1_577_836_800)), Some(1_577_836_800));
}

#[test]
fn uptime_is_now_minus_creation() {
    let probe = CreationProbe { pid: 4, creation: Some(file_time_of_unix(1_577_836_800)) };
    assert_eq!(
        process_uptime(probe, 1_577_836_900),
        ProcessUptime { pid: 4, uptime: Some(100) }
    );
    assert_eq!(
        process_uptime(probe, 1_577_836_800),
        ProcessUptime { pid: 4, uptime: Some(0) }
    );
}

#[test]
fn uptime_is_unknown_without_a_usable_creation_time() {
    let future = CreationProbe { pid: 4, creation: Some(file_time_of_unix(1_577_836_800)) };
    assert_eq!(process_uptime(future, 1_577_836_799), ProcessUptime { pid: 4, uptime: None });
    let ancient = CreationProbe { pid: 4, creation: Some(FileTime { high: 0, low: 0 }) };
    assert_eq!(process_uptime(ancient, 1_577_836_900), ProcessUptime { pid: 4, uptime: None });
    let unread = CreationProbe { pid: 4, creation: None };
    assert_eq!(process_uptime(unread, 1_577_836_900), ProcessUptime { pid: 4, uptime: None });
    let idle = CreationProbe { pid: 0, creation: Some(file_time_of_unix(1_577_836_800)) };
    assert_eq!(process_uptime(idle, 1_577_836_900), ProcessUptime { pid: 0, uptime: None });
}

#[test]
fn only_pid_zero_is_not_probed() {
    assert!(!needs_probe(0));
    assert!(needs_probe(1));
    assert!(needs_probe(u32::MAX));
}

#[test]
fn uptime_table_has_one_record_per_probed_pid() {
    let probes = vec![
        CreationProbe { pid: 0, creation: None },
        CreationProbe { pid: 4, creation: Some(file_time_of_unix(1_000)) },
        CreationProbe { pid: 9, creation: None },
        CreationProbe { pid: 4, creation: Some(file_time_of_unix(1_500)) },
    ];
    let table = get_process_uptime(Ok(probes), 2_000).unwrap();
    assert_eq!(table.len(), 3);
    assert_eq!(table[&0], ProcessUptime { pid: 0, uptime: None });
    assert_eq!(table[&4], ProcessUptime { pid: 4, uptime: Some(500) });
    assert_eq!(table[&9], ProcessUptime { pid: 9, uptime: None });
    assert!(get_process_uptime(Ok(vec![]), 2_000).unwrap().is_empty());
}

#[test]
fn failed_enumeration_is_an_uptime_failure() {
    assert_eq!(
        get_process_uptime(Err("access denied".to_string()), 2_000),
        Err(ApiError::UptimeQueryFailed("access denied".to_string()))
    );
}
