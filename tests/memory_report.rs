use vos::memory::{format_memory_info, summarize_memory_map, MemoryInfo, MemoryKind, MemoryRegion};

fn region(kind: MemoryKind, page_count: u64) -> MemoryRegion {
    MemoryRegion { kind, page_count }
}

#[test]
fn summary_sums_by_kind() {
    let map = vec![
        region(MemoryKind::Conventional, 256),
        region(MemoryKind::BootServices, 3),
        region(MemoryKind::RuntimeServices, 2),
        region(MemoryKind::Other, 10),
        region(MemoryKind::Conventional, 1),
    ];
    let info = summarize_memory_map(&map).unwrap();
    assert_eq!(info.total_bytes, 272 * 4096);
    assert_eq!(info.free_bytes, 257 * 4096);
    assert_eq!(info.boot_services_bytes, 3 * 4096);
    assert_eq!(info.runtime_bytes, 2 * 4096);
    assert_eq!(info.entry_count, 5);
}

#[test]
fn summary_of_empty_map() {
    let info = summarize_memory_map(&vec![]).unwrap();
    assert_eq!((info.total_bytes, info.free_bytes, info.entry_count), (0, 0, 0));
}

#[test]
fn summary_refuses_overflowing_map() {
    assert!(summarize_memory_map(&vec![region(MemoryKind::Other, u64::MAX / 4096 + 1)]).is_none());
    let half = u64::MAX / 4096 / 2 + 1;
    assert!(summarize_memory_map(&vec![region(MemoryKind::Other, half), region(MemoryKind::Other, half)]).is_none());
}

#[test]
fn report_text() {
    let info = MemoryInfo {
        total_bytes: 512 * 1024 * 1024 + 5,
        free_bytes: 300 * 1024 * 1024,
        boot_services_bytes: 40960,
        runtime_bytes: 1023,
        entry_count: 47,
    };
    assert_eq!(
        format_memory_info(&info),
        "Memory Map (47 entries):\n  Total:          512 MB\n  Free:           300 MB\n  Used:           212 MB\n  Boot Services:  40 KB\n  Runtime:        0 KB\n"
    );
}
