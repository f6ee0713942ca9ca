use uefi_report::cpu::{cpu_report, flag_line, CpuSummary};
use uefi_report::display::{display_report, layout_name, mode_line, DisplayMode, PixelLayout};

#[test]
fn cpu_lines() {
    let c = CpuSummary {
        vendor: "GenuineIntel".to_string(),
        brand: "Test CPU".to_string(),
        family: 6,
        model: 0x9e,
        stepping: 10,
        max_logical_ids: 16,
        vmx: true,
        hypervisor: false,
        tsc: true,
        psn: false,
        sysenter_sysexit: true,
        syscall_sysret: true,
        svm: false,
        execute_disable: true,
        gib_pages: true,
        rdtscp: true,
        invariant_tsc: false,
    };
    let r = cpu_report(&c);
    assert_eq!(r.len(), 16);
    assert_eq!(r[0], "Vendor: GenuineIntel");
    assert_eq!(r[1], "Processor: Test CPU");
    assert_eq!(r[2], "Family: 06h, Model: 9Eh, Step: 0Ah");
    assert_eq!(r[3], "Max logical processor ids: 16");
    assert_eq!(r[4], "Features:");
    assert_eq!(r[5], "    vmx: true");
    assert_eq!(r[9], "    sysenter & sysexit: true");
    assert_eq!(r[15], "    invariant tsc: false");
}

#[test]
fn flag_line_text() {
    assert_eq!(flag_line("1g pages", false), "    1g pages: false");
}

#[test]
fn mode_lines() {
    let m = DisplayMode { width: 800, height: 600, layout: PixelLayout::Bgr };
    assert_eq!(mode_line(&m), "     800 x  600 @ Bgr");
    let big = DisplayMode { width: 12345, height: 6, layout: PixelLayout::BltOnly };
    assert_eq!(mode_line(&big), "    12345 x    6 @ BltOnly");
    assert_eq!(layout_name(PixelLayout::Rgb), "Rgb");
    assert_eq!(layout_name(PixelLayout::Bitmask), "Bitmask");
}

#[test]
fn display_lines() {
    let a = DisplayMode { width: 640, height: 480, layout: PixelLayout::Rgb };
    let b = DisplayMode { width: 1024, height: 768, layout: PixelLayout::Bgr };
    let r = display_report(&vec![a, b], &b);
    assert_eq!(
        r,
        vec![
            "Supported Modes:",
            "     640 x  480 @ Rgb",
            "    1024 x  768 @ Bgr",
            "Current Mode:",
            "    1024 x  768 @ Bgr",
        ]
    );
}
