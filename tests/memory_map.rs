use uefi_report::region::{find_region, is_conventional, locate_line, region_row, MemoryRegion, CONVENTIONAL};
use uefi_report::report::{location_heading, memory_map_report, page_totals, totals_line, Step};

const RESERVED: u32 = 0;

fn region(phys_start: u64, page_count: u64, ty: u32) -> MemoryRegion {
    MemoryRegion { phys_start, virt_start: phys_start, page_count, ty, att: 0 }
}

fn three_regions() -> Vec<MemoryRegion> {
    vec![
        region(0x1000, 1, CONVENTIONAL),
        region(0x2000, 300, RESERVED),
        region(0x20_0000, 2_000_000, CONVENTIONAL),
    ]
}

fn lines(steps: &[Step]) -> Vec<String> {
    steps
        .iter()
        .map(|s| match s {
            Step::Print(t) => t.clone(),
            Step::WaitForKey => "<wait>".to_string(),
        })
        .collect()
}

#[test]
fn end_to_end_three_regions() {
    let steps = memory_map_report(&three_regions());
    let expected = vec![
        "Memory map:",
        "Physical Addr    Virtual Addr     Num Pages    Size     Type",
        "0000000000001000 0000000000001000            1   4.0 KB CONVENTIONAL (MemoryAttribute(0x0))",
        "0000000000002000 0000000000002000          300   1.2 MB RESERVED (MemoryAttribute(0x0))",
        "0000000000200000 0000000000200000      2000000   7.6 GB CONVENTIONAL (MemoryAttribute(0x0))",
        "--- END ---",
        "Total:   7.6 GB, Usable:   7.6 GB",
        "",
    ];
    assert_eq!(lines(&steps), expected);
}

#[test]
fn totals_are_sums() {
    assert_eq!(page_totals(&three_regions()), (2_000_301, 2_000_001));
    assert_eq!(page_totals(&Vec::new()), (0, 0));
}

#[test]
fn totals_do_not_overflow() {
    let map = vec![region(0, u64::MAX, CONVENTIONAL), region(0, u64::MAX, RESERVED)];
    assert_eq!(page_totals(&map), (2 * u64::MAX as u128, u64::MAX as u128));
}

#[test]
fn totals_line_text() {
    assert_eq!(totals_line(1, 0), "Total:   4.0 KB, Usable:    0.0 B");
}

#[test]
fn report_is_repeatable() {
    let map = three_regions();
    assert_eq!(memory_map_report(&map), memory_map_report(&map));
}

#[test]
fn eighty_rows_pause_twice() {
    let map: Vec<MemoryRegion> = (0..80u64).map(|i| region(i * 0x1000, 1, CONVENTIONAL)).collect();
    let steps = memory_map_report(&map);
    let waits: Vec<usize> =
        steps.iter().enumerate().filter(|(_, s)| **s == Step::WaitForKey).map(|(i, _)| i).collect();
    assert_eq!(waits.len(), 2);
    // header (2) + 39 rows + marker, then wait
    assert_eq!(waits[0], 2 + 39 + 1);
    assert_eq!(steps[waits[0] - 1], Step::Print("--- MORE ---".to_string()));
    assert_eq!(waits[1], 2 + 78 + 3);
}

#[test]
fn thirty_nine_rows_never_pause() {
    let map: Vec<MemoryRegion> = (0..39u64).map(|i| region(i * 0x1000, 1, CONVENTIONAL)).collect();
    assert!(!memory_map_report(&map).contains(&Step::WaitForKey));
    assert!(!memory_map_report(&Vec::new()).contains(&Step::WaitForKey));
}

#[test]
fn lookup_edges() {
    let pages: u64 = 5;
    let map = vec![region(0x1000, pages, CONVENTIONAL)];
    assert_eq!(find_region(&map, 0x1000), Some(0));
    assert_eq!(find_region(&map, 0x1000 + pages * 4096 - 1), Some(0));
    assert_eq!(find_region(&map, 0x1000 + pages * 4096), None);
    assert_eq!(find_region(&map, 0xfff), None);
}

#[test]
fn lookup_next_region_starts_at_end() {
    let map = vec![region(0x1000, 1, CONVENTIONAL), region(0x2000, 1, RESERVED)];
    assert_eq!(find_region(&map, 0x2000), Some(1));
}

#[test]
fn lookup_first_match_wins() {
    let map = vec![region(0x1000, 4, RESERVED), region(0x2000, 1, CONVENTIONAL)];
    assert_eq!(find_region(&map, 0x2000), Some(0));
}

#[test]
fn lookup_near_top_of_address_space() {
    let map = vec![region(u64::MAX - 0xfff, 1, CONVENTIONAL)];
    assert_eq!(find_region(&map, u64::MAX), Some(0));
}

#[test]
fn stale_snapshot_may_miss() {
    // A snapshot taken before an allocation need not cover the new address.
    let snapshot = three_regions();
    let allocated_later: u64 = 0x8000_0000_0000;
    assert_eq!(find_region(&snapshot, allocated_later), None);
    assert_eq!(locate_line(&snapshot, allocated_later), "-- not found --");
}

#[test]
fn locate_line_shows_row() {
    let map = three_regions();
    assert_eq!(locate_line(&map, 0x2fff), region_row(&map[1]));
}

#[test]
fn row_with_attributes_and_unknown_type() {
    let r = MemoryRegion { phys_start: 0xABCD, virt_start: 0, page_count: 1, ty: 99, att: 0x9 };
    assert_eq!(
        region_row(&r),
        "000000000000ABCD 0000000000000000            1   4.0 KB MemoryType(99) (MemoryAttribute(UNCACHEABLE | WRITE_BACK))"
    );
}

#[test]
fn conventional_is_type_seven() {
    assert!(is_conventional(&region(0, 1, 7)));
    assert!(!is_conventional(&region(0, 1, 2)));
}

#[test]
fn heading_text() {
    assert_eq!(location_heading("buf (stack)", 0x1234), "buf (stack) is located at 0000000000001234, section:");
}
