use chips_display::system_info::{filetime_as_u64, SystemInfo, Usage};

#[test]
fn filetime_joins_two_halves() {
    assert_eq!(filetime_as_u64(0, 0), 0);
    assert_eq!(filetime_as_u64(0, 7), 7);
    assert_eq!(filetime_as_u64(1, 0), 1 << 32);
    assert_eq!(filetime_as_u64(0x1234_5678, 0x9ABC_DEF0), 0x1234_5678_9ABC_DEF0);
    assert_eq!(filetime_as_u64(u32::MAX, u32::MAX), u64::MAX);
}

#[test]
fn first_sample_counts_from_zero() {
    let mut info = SystemInfo::new().unwrap();
    // kernel time includes idle time
    let usage = info.get_cpu_usage(60, 80, 20);
    assert_eq!(usage, Some(Usage { used: 40, total: 100 }));
}

#[test]
fn later_samples_count_from_the_last() {
    let mut info = SystemInfo::new().unwrap();
    assert_eq!(info.get_cpu_usage(60, 80, 20), Some(Usage { used: 40, total: 100 }));
    assert_eq!(info.get_cpu_usage(150, 190, 60), Some(Usage { used: 60, total: 150 }));
    assert_eq!(info.get_cpu_usage(150, 190, 60), Some(Usage { used: 0, total: 0 }));
}

#[test]
fn a_sample_that_runs_backwards_changes_nothing() {
    let mut info = SystemInfo::new().unwrap();
    assert!(info.get_cpu_usage(60, 80, 20).is_some());
    // total time below the last total
    assert_eq!(info.get_cpu_usage(10, 50, 10), None);
    // busy time below the last busy time
    assert_eq!(info.get_cpu_usage(90, 100, 20), None);
    // more idle time than time
    assert_eq!(info.get_cpu_usage(500, 100, 100), None);
    // the sum does not fit
    assert_eq!(info.get_cpu_usage(0, u64::MAX, 1), None);
    assert_eq!(info.get_cpu_usage(70, 100, 30), Some(Usage { used: 20, total: 30 }));
}

#[test]
fn memory_in_use() {
    let info = SystemInfo::new().unwrap();
    assert_eq!(info.get_memory_usage(1000, 250), Some(Usage { used: 750, total: 1000 }));
    assert_eq!(info.get_memory_usage(1000, 1000), Some(Usage { used: 0, total: 1000 }));
    assert_eq!(info.get_memory_usage(1000, 1001), None);
}

#[test]
fn gpu_load_from_a_percentage() {
    let info = SystemInfo::new().unwrap();
    assert_eq!(info.get_gpu_usage(Some(37)), Usage { used: 37, total: 100 });
    assert_eq!(info.get_gpu_usage(None), Usage { used: 0, total: 100 });
}
