use sysmon::discovery::{GpuDescriptor, GpuHandle};
use sysmon::display::{
    frequency_text, ghz_text, gib_text, gib_text_hundredths, mib_text, power_text,
    temperature_text, uptime_text, usage_text, usage_text_tenths, vram_text,
};
use sysmon::history::HISTORY_LEN;
use sysmon::metrics::{nvidia_reading, NvidiaProbe, SysfsProbe, Vram};
use sysmon::monitor::{memory_usage, GpuProbe, Monitor, SystemProbe};
use sysmon::path::{generate_svg_paths, FULL, PERCENT};
use sysmon::sensors::{cpu_temperature, is_cpu_label, Sensor};
use sysmon::text::contains_text;
use sysmon::smoothing::smooth;

const GIB: u64 = 1 << 30;

fn probe(util: Option<(u32, u32)>, temp: Option<u32>) -> NvidiaProbe {
    NvidiaProbe {
        utilization: util,
        temperature_c: temp,
        power_mw: Some(45_500),
        graphics_clock_mhz: Some(1_905),
        memory: Some((12 * GIB, 512 << 20)),
    }
}

fn system() -> SystemProbe {
    SystemProbe {
        cpu_usage: 7 * PERCENT + PERCENT / 2,
        cpu_freq_mhz: Some(4_200),
        mem_total: 16 * GIB,
        mem_used: 4 * GIB,
        mem_available: 12 * GIB,
        mem_free: 10 * GIB,
        uptime_secs: 3_725,
        sensors: vec![
            Sensor { label: "coretemp Package id 0".to_string(), milli_c: 51_400 },
            Sensor { label: "acpitz temp1".to_string(), milli_c: 90_000 },
        ],
    }
}

#[test]
fn temperature_failure_stays_local() {
    let r = nvidia_reading(0, &probe(Some((60, 20)), None));
    assert_eq!(r.temp_milli_c, None);
    assert_eq!(temperature_text(r.temp_milli_c), "N/A");
    assert_eq!(r.usage, smooth(0, 60 * PERCENT));
    assert_eq!(usage_text(r.usage), "24%");
    assert_eq!(r.power_mw, Some(45_500));
    assert_eq!(r.freq_mhz, Some(1_905));
}

#[test]
fn vendor_reading_is_smoothed_against_previous() {
    let r = nvidia_reading(50 * PERCENT, &probe(Some((20, 100)), Some(65)));
    assert_eq!(r.usage, 70 * PERCENT);
    assert_eq!(r.temp_milli_c, Some(65_000));
    assert_eq!(temperature_text(r.temp_milli_c), "65°C");
    let failed = nvidia_reading(50 * PERCENT, &probe(None, Some(65)));
    assert_eq!(failed.usage, 30 * PERCENT);
}

#[test]
fn display_texts() {
    assert_eq!(usage_text(72 * PERCENT + 400_000), "72%");
    assert_eq!(usage_text(72 * PERCENT + 500_000), "73%");
    assert_eq!(usage_text_tenths(7 * PERCENT + PERCENT / 2), "7.5%");
    assert_eq!(power_text(Some(45_500)), "45.5 W");
    assert_eq!(power_text(None), "N/A");
    assert_eq!(frequency_text(Some(1_905)), "1905 MHz");
    assert_eq!(frequency_text(None), "N/A");
    assert_eq!(temperature_text(Some(45_600)), "46°C");
    assert_eq!(gib_text(12 * GIB), "12.0 GB");
    assert_eq!(gib_text(GIB + GIB / 2), "1.5 GB");
    assert_eq!(gib_text_hundredths(16 * GIB), "16.00 GB");
    assert_eq!(gib_text_hundredths(GIB / 4), "0.25 GB");
    assert_eq!(mib_text(512 << 20), "512 MB");
    assert_eq!(ghz_text(4_200), "4.20 GHz");
    assert_eq!(ghz_text(3_456), "3.46 GHz");
    assert_eq!(uptime_text(3_725), "01:02:05");
    assert_eq!(uptime_text(0), "00:00:00");
    assert_eq!(uptime_text(360_000), "100:00:00");
}

#[test]
fn memory_labels() {
    assert_eq!(vram_text(&Vram::Shared), ("Shared".to_string(), "N/A".to_string()));
    assert_eq!(vram_text(&Vram::Unknown), ("N/A".to_string(), "N/A".to_string()));
    assert_eq!(
        vram_text(&Vram::Known { total: 4 * GIB, used: 1 << 20 }),
        ("4.0 GB".to_string(), "1 MB".to_string())
    );
}

#[test]
fn memory_share() {
    assert_eq!(memory_usage(4 * GIB, 16 * GIB), 25 * PERCENT);
    assert_eq!(memory_usage(1, 3), 33_333_333);
    assert_eq!(memory_usage(5, 0), 0);
    assert_eq!(memory_usage(u64::MAX, 1), FULL);
}

#[test]
fn one_tick_updates_everything() {
    let devices = vec![
        GpuDescriptor { name: "RTX".to_string(), handle: GpuHandle::Nvidia(0) },
        GpuDescriptor {
            name: "Intel HD/UHD Graphics".to_string(),
            handle: GpuHandle::Sysfs("/sys/class/drm/card1".to_string()),
        },
    ];
    let mut m = Monitor::new(devices);
    assert_eq!(m.device_count(), 2);
    let sysfs = SysfsProbe {
        busy_percent: String::new(),
        gt_max_freq_mhz: "1000\n".to_string(),
        gt_cur_freq_mhz: "250\n".to_string(),
        pp_dpm_sclk: String::new(),
        hwmon: Vec::new(),
        vram_total: String::new(),
        vram_used: String::new(),
        gtt_total: String::new(),
        gtt_used: String::new(),
    };
    let probes = vec![GpuProbe::Nvidia(Some(probe(Some((100, 0)), None))), GpuProbe::Sysfs(sysfs)];
    let out = m.tick(&system(), &probes);
    let s = &out.system;
    assert_eq!(s.cpu_freq.as_deref(), Some("4.20 GHz"));
    assert_eq!(s.cpu_usage, "7.5%");
    assert_eq!(s.cpu_temp, "51°C");
    assert_eq!(s.ram_total, "16.00 GB");
    assert_eq!(s.ram_active, "4.00 GB");
    assert_eq!(s.ram_available, "12.00 GB");
    assert_eq!(s.ram_cached, "2.00 GB");
    assert_eq!(s.ram_free, "10.00 GB");
    assert_eq!(s.uptime, "01:02:05");
    let mut cpu = vec![0u64; HISTORY_LEN - 1];
    cpu.push(7 * PERCENT + PERCENT / 2);
    assert_eq!((s.usage_line_data.clone(), s.usage_fill_data.clone()), generate_svg_paths(&cpu));
    let mut mem = vec![0u64; HISTORY_LEN - 1];
    mem.push(25 * PERCENT);
    assert_eq!(s.mem_line_data, generate_svg_paths(&mem).0);

    assert_eq!(out.gpus.len(), 2);
    let g = &out.gpus[0];
    assert_eq!(g.name, "RTX");
    assert_eq!(g.usage, "40%");
    assert_eq!(g.temp, "N/A");
    assert_eq!(g.wattage, "45.5 W");
    assert_eq!(g.freq, "1905 MHz");
    assert_eq!(g.vram_total, "12.0 GB");
    assert_eq!(g.vram_used, "512 MB");
    let i = &out.gpus[1];
    assert_eq!(i.usage, "25%");
    assert_eq!(i.freq, "250 MHz");
    assert_eq!(i.temp, "N/A");
    assert_eq!(i.wattage, "N/A");
    assert_eq!(i.vram_total, "Shared");
    assert_eq!(i.vram_used, "N/A");
    let mut gh = vec![0u64; HISTORY_LEN - 1];
    gh.push(25 * PERCENT);
    assert_eq!(i.line_data, generate_svg_paths(&gh).0);

    // the second tick smooths against the first
    let out2 = m.tick(&system(), &probes);
    assert_eq!(out2.gpus[0].usage, "64%");
}

#[test]
fn unreachable_device_reads_zero() {
    let devices = vec![GpuDescriptor { name: "GPU 0".to_string(), handle: GpuHandle::Nvidia(0) }];
    let mut m = Monitor::new(devices);
    let out = m.tick(&system(), &vec![GpuProbe::Nvidia(None)]);
    assert_eq!(out.gpus[0].usage, "0%");
    assert_eq!(out.gpus[0].vram_total, "N/A");
    assert_eq!(out.gpus[0].freq, "N/A");
}

#[test]
fn no_processor_clock() {
    let mut m = Monitor::new(Vec::new());
    let mut sys = system();
    sys.cpu_freq_mhz = None;
    let out = m.tick(&sys, &Vec::new());
    assert!(out.system.cpu_freq.is_none());
    assert!(out.gpus.is_empty());
}

#[test]
fn processor_sensors_by_label() {
    assert!(contains_text("K10TEMP TCTL", "TCTL"));
    assert!(!contains_text("TCT", "TCTL"));
    assert!(contains_text("abc", ""));
    assert!(is_cpu_label("CPU_THERMAL"));
    assert!(is_cpu_label("CORETEMP CORE 0"));
    assert!(!is_cpu_label("cpu_thermal"));
    assert!(!is_cpu_label("NVME COMPOSITE"));
    let sensors = vec![
        Sensor { label: "nvme Composite".to_string(), milli_c: 80_000 },
        Sensor { label: "cpu_thermal".to_string(), milli_c: 55_000 },
        Sensor { label: "k10temp Tctl".to_string(), milli_c: 61_000 },
        Sensor { label: "Core 1".to_string(), milli_c: 59_000 },
    ];
    assert_eq!(cpu_temperature(&sensors), 61_000);
    let lower_only = vec![Sensor { label: "cpu_thermal".to_string(), milli_c: 55_000 }];
    assert_eq!(cpu_temperature(&lower_only), 55_000);
    assert_eq!(cpu_temperature(&Vec::new()), 0);
    let none = vec![Sensor { label: "acpitz".to_string(), milli_c: 70_000 }];
    assert_eq!(cpu_temperature(&none), 0);
}

#[test]
fn poll_stops_when_display_is_gone() {
    let devices = vec![GpuDescriptor { name: "RTX".to_string(), handle: GpuHandle::Nvidia(0) }];
    let mut m = Monitor::new(devices);
    let probes = vec![GpuProbe::Nvidia(Some(probe(Some((100, 0)), Some(50))))];
    assert!(m.poll(false, &system(), &probes).is_none());
    // nothing moved: the next live poll is the first tick
    let out = m.poll(true, &system(), &probes).unwrap();
    assert_eq!(out.gpus[0].usage, "40%");
    assert_eq!(out.gpus[0].temp, "50°C");
    let mut cpu = vec![0u64; HISTORY_LEN - 1];
    cpu.push(7 * PERCENT + PERCENT / 2);
    assert_eq!(out.system.usage_line_data, generate_svg_paths(&cpu).0);
}
