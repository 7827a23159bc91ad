use sysmon::discovery::{
    discover, is_nvidia, is_primary_card, nvidia_descriptor, scan_card, GpuHandle, NvidiaDevice,
    SysfsCard,
};
use sysmon::metrics::{
    clock_usage, hwmon_temperature, sysfs_frequency, sysfs_memory, sysfs_reading, HwmonDir,
    SysfsProbe, Vram,
};
use sysmon::path::{FULL, PERCENT};
use sysmon::text::{is_freq_input, parse_active_level, parse_number, trim_text};

fn empty_probe() -> SysfsProbe {
    SysfsProbe {
        busy_percent: String::new(),
        gt_max_freq_mhz: String::new(),
        gt_cur_freq_mhz: String::new(),
        pp_dpm_sclk: String::new(),
        hwmon: Vec::new(),
        vram_total: String::new(),
        vram_used: String::new(),
        gtt_total: String::new(),
        gtt_used: String::new(),
    }
}

fn card(name: &str, vendor: &str, product: &str) -> SysfsCard {
    SysfsCard {
        name: name.to_string(),
        path: format!("/sys/class/drm/{}", name),
        vendor: vendor.to_string(),
        product_name: product.to_string(),
    }
}

#[test]
fn numbers_are_trimmed_and_parsed() {
    assert_eq!(parse_number("42\n"), Some(42));
    assert_eq!(parse_number("  \t1000 \r\n"), Some(1000));
    assert_eq!(parse_number("+7"), Some(7));
    assert_eq!(parse_number("18446744073709551615"), Some(u64::MAX));
    assert_eq!(parse_number("007"), Some(7));
}

#[test]
fn malformed_numbers_are_absent() {
    assert_eq!(parse_number(""), None);
    assert_eq!(parse_number("\n"), None);
    assert_eq!(parse_number("abc"), None);
    assert_eq!(parse_number("-5"), None);
    assert_eq!(parse_number("+"), None);
    assert_eq!(parse_number("12 34"), None);
    assert_eq!(parse_number("18446744073709551616"), None);
    assert_eq!(parse_number("99999999999999999999x"), None);
}

#[test]
fn text_is_trimmed() {
    assert_eq!(trim_text("  Radeon RX 7600\n"), "Radeon RX 7600");
    assert_eq!(trim_text("\n\t "), "");
    assert_eq!(trim_text("x"), "x");
}

#[test]
fn active_performance_level() {
    assert_eq!(parse_active_level("0: 300Mhz\n1: 1200Mhz *\n2: 1800Mhz\n"), Some(1200));
    assert_eq!(parse_active_level("0: 500Mhz *\n1: 800Mhz\n"), Some(500));
    assert_eq!(parse_active_level("0: 300Mhz\n1: 1200Mhz\n"), None);
    assert_eq!(parse_active_level(""), None);
    assert_eq!(parse_active_level("1 1200Mhz *\n"), None);
}

#[test]
fn primary_cards_only() {
    assert!(is_primary_card("card0"));
    assert!(is_primary_card("card12"));
    assert!(!is_primary_card("card0-DP-1"));
    assert!(!is_primary_card("card"));
    assert!(!is_primary_card("renderD128"));
    assert!(!is_primary_card("version"));
}

#[test]
fn nvidia_cards_are_not_scanned() {
    assert!(is_nvidia("0x10de\n"));
    assert!(!is_nvidia("0x1002\n"));
    assert!(scan_card(&card("card0", "0x10de\n", "")).is_none());
    assert!(scan_card(&card("card0", "0x10de\n", "GeForce")).is_none());
    // with or without devices of the vendor API
    let cards = vec![card("card0", "0x10de\n", ""), card("card1", "0x1002\n", "")];
    for nv in [Vec::new(), vec![NvidiaDevice { index: 0, name: Some("RTX".to_string()) }]] {
        let n = nv.len();
        let found = discover(&nv, &cards);
        assert_eq!(found.len(), n + 1);
        assert_eq!(found[n].name, "AMD Radeon Graphics");
        assert!(matches!(&found[n].handle, GpuHandle::Sysfs(p) if p == "/sys/class/drm/card1"));
    }
}

#[test]
fn card_names_by_priority() {
    let named = scan_card(&card("card0", "0x1002\n", " Radeon RX 7600\n")).unwrap();
    assert_eq!(named.name, "Radeon RX 7600");
    let amd = scan_card(&card("card0", "0x1002\n", "")).unwrap();
    assert_eq!(amd.name, "AMD Radeon Graphics");
    let intel = scan_card(&card("card1", "0x8086\n", "")).unwrap();
    assert_eq!(intel.name, "Intel HD/UHD Graphics");
    let other = scan_card(&card("card2", "0x1af4\n", "")).unwrap();
    assert_eq!(other.name, "GPU (card2)");
    assert!(scan_card(&card("card0-HDMI-A-1", "0x1002\n", "")).is_none());
}

#[test]
fn vendor_devices_come_first() {
    let nv = vec![
        NvidiaDevice { index: 0, name: Some("NVIDIA GeForce RTX 4070".to_string()) },
        NvidiaDevice { index: 3, name: None },
    ];
    let cards = vec![card("card1", "0x8086\n", ""), card("renderD128", "0x8086\n", "")];
    let found = discover(&nv, &cards);
    assert_eq!(found.len(), 3);
    assert_eq!(found[0].name, "NVIDIA GeForce RTX 4070");
    assert!(matches!(found[0].handle, GpuHandle::Nvidia(0)));
    assert_eq!(found[1].name, "GPU 3");
    assert!(matches!(found[1].handle, GpuHandle::Nvidia(3)));
    assert_eq!(found[2].name, "Intel HD/UHD Graphics");
    assert_eq!(nvidia_descriptor(&NvidiaDevice { index: 12, name: None }).name, "GPU 12");
}

#[test]
fn clock_ratio_scenario() {
    let mut p = empty_probe();
    p.gt_max_freq_mhz = "1000\n".to_string();
    p.gt_cur_freq_mhz = "250\n".to_string();
    let r = sysfs_reading(&p);
    assert_eq!(r.usage, 25 * PERCENT);
    assert_eq!(r.freq_mhz, Some(250));
}

#[test]
fn clock_ratio_edges() {
    assert_eq!(clock_usage(None, Some(1000)), 0);
    assert_eq!(clock_usage(Some(0), Some(1000)), 0);
    assert_eq!(clock_usage(Some(1000), Some(1000)), FULL);
    assert_eq!(clock_usage(Some(1500), Some(1000)), FULL);
    assert_eq!(clock_usage(Some(1), None), 0);
    assert_eq!(clock_usage(Some(500), Some(0)), 0);
    assert_eq!(clock_usage(None, None), 0);
    assert_eq!(clock_usage(Some(1), Some(3)), 33_333_333);
}

#[test]
fn busy_percent_wins() {
    let mut p = empty_probe();
    p.busy_percent = "37\n".to_string();
    p.gt_max_freq_mhz = "1000".to_string();
    p.gt_cur_freq_mhz = "250".to_string();
    assert_eq!(sysfs_reading(&p).usage, 37 * PERCENT);
    p.busy_percent = "250".to_string();
    assert_eq!(sysfs_reading(&p).usage, FULL);
}

#[test]
fn frequency_fallback_chain() {
    let mut p = empty_probe();
    assert_eq!(sysfs_frequency(&p), None);
    p.hwmon = vec![
        HwmonDir { freq_inputs: vec!["bad".to_string()], temp1_input: String::new() },
        HwmonDir {
            freq_inputs: vec![String::new(), "1850000000\n".to_string()],
            temp1_input: String::new(),
        },
    ];
    assert_eq!(sysfs_frequency(&p), Some(1850));
    p.pp_dpm_sclk = "0: 500Mhz\n1: 2100Mhz *\n".to_string();
    assert_eq!(sysfs_frequency(&p), Some(2100));
    p.gt_cur_freq_mhz = "300\n".to_string();
    assert_eq!(sysfs_frequency(&p), Some(300));
}

#[test]
fn temperature_from_first_monitor_with_one() {
    let dirs = vec![
        HwmonDir { freq_inputs: Vec::new(), temp1_input: String::new() },
        HwmonDir { freq_inputs: Vec::new(), temp1_input: "45000\n".to_string() },
        HwmonDir { freq_inputs: Vec::new(), temp1_input: "99000\n".to_string() },
    ];
    assert_eq!(hwmon_temperature(&dirs), Some(45000));
    assert_eq!(hwmon_temperature(&Vec::new()), None);
}

#[test]
fn shared_memory_scenario() {
    let mut p = empty_probe();
    assert!(matches!(sysfs_memory(&p), Vram::Shared));
    p.gtt_total = "4294967296\n".to_string();
    p.gtt_used = "1048576\n".to_string();
    assert!(matches!(
        sysfs_memory(&p),
        Vram::Known { total: 4294967296, used: 1048576 }
    ));
    p.vram_total = "8589934592\n".to_string();
    p.vram_used = "2097152\n".to_string();
    assert!(matches!(
        sysfs_memory(&p),
        Vram::Known { total: 12884901888, used: 3145728 }
    ));
    let mut d = empty_probe();
    d.vram_total = "8589934592\n".to_string();
    d.vram_used = "2097152\n".to_string();
    assert!(matches!(
        sysfs_memory(&d),
        Vram::Known { total: 8589934592, used: 2097152 }
    ));
    let mut q = empty_probe();
    q.vram_total = "0\n".to_string();
    assert!(matches!(sysfs_memory(&q), Vram::Shared));
    q.gtt_total = "18446744073709551615".to_string();
    q.vram_used = "5".to_string();
    q.gtt_used = "18446744073709551615".to_string();
    assert!(matches!(
        sysfs_memory(&q),
        Vram::Known { total: u64::MAX, used: u64::MAX }
    ));
}

#[test]
fn unicode_whitespace_is_trimmed() {
    assert_eq!(parse_number("\u{a0}7"), Some(7));
    assert_eq!(parse_number("\u{3000}12\u{2028}"), Some(12));
    assert_eq!(parse_number("\u{85}\u{2009}5\u{202f}"), Some(5));
    assert_eq!(trim_text("\u{a0}x"), "x");
    assert_eq!(trim_text("\u{1680}Radeon\u{205f}"), "Radeon");
    assert_eq!(trim_text("a\u{a0}b"), "a\u{a0}b");
    assert!(is_nvidia("\u{a0}0x10de\u{a0}"));
}

#[test]
fn vendor_labels_by_containment() {
    let amd = scan_card(&card("card0", "0x10020\n", "")).unwrap();
    assert_eq!(amd.name, "AMD Radeon Graphics");
    let intel = scan_card(&card("card1", "vendor 0x8086\n", "")).unwrap();
    assert_eq!(intel.name, "Intel HD/UHD Graphics");
    // NVIDIA is skipped only on an exact id
    let near = scan_card(&card("card2", "0x10de0\n", "")).unwrap();
    assert_eq!(near.name, "GPU (card2)");
}

#[test]
fn frequency_input_names() {
    assert!(is_freq_input("freq1_input"));
    assert!(is_freq_input("freq_input"));
    assert!(is_freq_input("freq12_input"));
    assert!(!is_freq_input("freq1_label"));
    assert!(!is_freq_input("temp1_input"));
    assert!(!is_freq_input("freq1_inpu"));
    assert!(!is_freq_input(""));
}
