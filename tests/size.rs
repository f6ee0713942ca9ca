use uefi_report::size::format_size;

#[test]
fn zero_pages_in_bytes() {
    assert_eq!(format_size(0), "   0.0 B");
}

#[test]
fn one_page_in_kilobytes() {
    assert_eq!(format_size(1), "  4.0 KB");
}

#[test]
fn largest_kilobyte_count() {
    assert_eq!(format_size(255), "1020.0 KB");
}

#[test]
fn first_megabyte_count() {
    assert_eq!(format_size(256), "  1.0 MB");
}

#[test]
fn megabytes_rounded() {
    assert_eq!(format_size(300), "  1.2 MB");
}

#[test]
fn ties_go_to_even() {
    assert_eq!(format_size(320), "  1.2 MB");
    assert_eq!(format_size(448), "  1.8 MB");
    assert_eq!(format_size(576), "  2.2 MB");
}

#[test]
fn just_below_a_gigabyte() {
    assert_eq!(format_size(262_143), "1024.0 MB");
}

#[test]
fn gigabytes() {
    assert_eq!(format_size(262_144), "  1.0 GB");
    assert_eq!(format_size(2_000_000), "  7.6 GB");
}

#[test]
fn huge_count_is_exact() {
    // 2^64 pages are 2^46 gigabytes.
    assert_eq!(format_size(1u128 << 64), "70368744177664.0 GB");
}

fn float_text(pages: u64) -> String {
    let size = (pages * 4096) as f64;
    if size < 1024f64 {
        format!("{:6.1} B", size)
    } else if size < 1024f64 * 1024f64 {
        format!("{:5.1} KB", size / 1024f64)
    } else if size < 1024f64 * 1024f64 * 1024f64 {
        format!("{:5.1} MB", size / (1024f64 * 1024f64))
    } else {
        format!("{:5.1} GB", size / (1024f64 * 1024f64 * 1024f64))
    }
}

#[test]
fn agrees_with_float_formatting() {
    for p in 0..20_000u64 {
        assert_eq!(format_size(p as u128), float_text(p), "pages {}", p);
    }
    let mut p: u64 = 20_000;
    while p < (1u64 << 40) {
        assert_eq!(format_size(p as u128), float_text(p), "pages {}", p);
        p = p * 3 / 2 + 7;
    }
}

#[test]
fn unit_follows_byte_thresholds() {
    for p in [0u64, 1, 255, 256, 262_143, 262_144, 1 << 30] {
        let s = format_size(p as u128);
        let bytes = p * 4096;
        let unit = if bytes < 1024 {
            " B"
        } else if bytes < 1024 * 1024 {
            " KB"
        } else if bytes < 1024 * 1024 * 1024 {
            " MB"
        } else {
            " GB"
        };
        assert!(s.ends_with(unit), "{}", s);
        let number = &s[..s.len() - unit.len()];
        let dot = number.find('.').unwrap();
        assert_eq!(number.len() - dot, 2);
    }
}
