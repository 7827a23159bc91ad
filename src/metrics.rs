//! Per-vendor metric extraction. Each field resolves on its own: a missing or
//! malformed source leaves that field unknown and touches no other.

use vstd::prelude::*;
use crate::fixed::{div_round, round_div};
use crate::path::{FULL, PERCENT};
use crate::smoothing::{busiest, smooth, smoothed};
use crate::text::{active_level_mhz, number_of, parse_active_level, parse_number};

verus! {

/// Memory figures of a device, in bytes.
pub enum Vram {
    Known { total: u64, used: u64 },
    /// The device has no dedicated memory of its own to report.
    Shared,
    /// The figures could not be read.
    Unknown,
}

/// The metrics of one device for one poll.
pub struct GpuReading {
    /// Utilization, in sample units (millionths of a percent), at most full scale.
    pub usage: u64,
    /// Temperature in millidegrees Celsius.
    pub temp_milli_c: Option<u64>,
    /// Power draw in milliwatts.
    pub power_mw: Option<u64>,
    /// Graphics clock in MHz.
    pub freq_mhz: Option<u64>,
    pub vram: Vram,
}

/// What the vendor telemetry API answered for one device in one poll; a
/// query that failed is `None`.
pub struct NvidiaProbe {
    /// Core and memory-controller load in percent.
    pub utilization: Option<(u32, u32)>,
    pub temperature_c: Option<u32>,
    pub power_mw: Option<u32>,
    pub graphics_clock_mhz: Option<u32>,
    /// Total and used memory in bytes.
    pub memory: Option<(u64, u64)>,
}

/// One hardware-monitor subdirectory of a card: the text of its
/// `freq*_input` files in name order, and of its `temp1_input` file.
pub struct HwmonDir {
    pub freq_inputs: Vec<String>,
    pub temp1_input: String,
}

/// The text of a card's device files for one poll (empty where a file could
/// not be read).
pub struct SysfsProbe {
    pub busy_percent: String,
    pub gt_max_freq_mhz: String,
    pub gt_cur_freq_mhz: String,
    pub pp_dpm_sclk: String,
    pub hwmon: Vec<HwmonDir>,
    pub vram_total: String,
    pub vram_used: String,
    pub gtt_total: String,
    pub gtt_used: String,
}

pub open spec fn min_full(v: nat) -> nat {
    if v > FULL {
        FULL as nat
    } else {
        v
    }
}

/// Utilization derived from the current and maximum graphics clock: the
/// ratio of the two at full scale, and zero where either clock is zero or
/// unknown.
pub open spec fn clock_ratio(cur: Option<u64>, max: Option<u64>) -> nat {
    let c = or_zero(cur);
    let m = or_zero(max);
    if c > 0 && m > 0 {
        min_full(round_div(c * FULL as nat, m))
    } else {
        0
    }
}

/// Utilization of a card: its busy percentage where it reports one, else
/// the clock ratio.
pub open spec fn sysfs_usage(p: SysfsProbe) -> nat {
    match number_of(p.busy_percent@) {
        Some(b) => min_full((b * PERCENT) as nat),
        None => clock_ratio(number_of(p.gt_cur_freq_mhz@), number_of(p.gt_max_freq_mhz@)),
    }
}

/// The first text in `texts` that holds a number.
pub open spec fn first_number(texts: Seq<String>) -> Option<u64>
    decreases texts.len(),
{
    if texts.len() == 0 {
        None
    } else if number_of(texts[0]@) is Some {
        number_of(texts[0]@)
    } else {
        first_number(texts.skip(1))
    }
}

/// The first frequency reading, in Hz, over the monitor directories in order.
pub open spec fn hwmon_hz(dirs: Seq<HwmonDir>) -> Option<u64>
    decreases dirs.len(),
{
    if dirs.len() == 0 {
        None
    } else if first_number(dirs[0].freq_inputs@) is Some {
        first_number(dirs[0].freq_inputs@)
    } else {
        hwmon_hz(dirs.skip(1))
    }
}

/// The first temperature reading, in millidegrees, over the monitor directories.
pub open spec fn hwmon_temp(dirs: Seq<HwmonDir>) -> Option<u64>
    decreases dirs.len(),
{
    if dirs.len() == 0 {
        None
    } else if number_of(dirs[0].temp1_input@) is Some {
        number_of(dirs[0].temp1_input@)
    } else {
        hwmon_temp(dirs.skip(1))
    }
}

/// The graphics clock of a card: the current-frequency file, else the active
/// performance level, else the first hardware-monitor frequency in MHz.
pub open spec fn sysfs_freq(p: SysfsProbe) -> Option<u64> {
    if number_of(p.gt_cur_freq_mhz@) is Some {
        number_of(p.gt_cur_freq_mhz@)
    } else if active_level_mhz(p.pp_dpm_sclk@) is Some {
        active_level_mhz(p.pp_dpm_sclk@)
    } else {
        match hwmon_hz(p.hwmon@) {
            Some(hz) => Some((hz / 1_000_000) as u64),
            None => None,
        }
    }
}

/// A sum of byte counts, held at the largest 64-bit value should it exceed it.
pub open spec fn capped_sum(a: nat, b: nat) -> u64 {
    if a + b > u64::MAX {
        u64::MAX
    } else {
        (a + b) as u64
    }
}

pub open spec fn or_zero(v: Option<u64>) -> nat {
    match v {
        Some(x) => x as nat,
        None => 0,
    }
}

/// Memory of a card. Where the card reports a shared (GTT) total, dedicated
/// and shared memory are summed into one figure, a missing dedicated figure
/// counting as zero; else its dedicated memory where it reports a non-zero
/// total; else it is shared.
pub open spec fn sysfs_vram(p: SysfsProbe) -> Vram {
    let vt = number_of(p.vram_total@);
    let vu = number_of(p.vram_used@);
    let gt = number_of(p.gtt_total@);
    let gu = number_of(p.gtt_used@);
    if gt is Some {
        Vram::Known {
            total: capped_sum(or_zero(vt), or_zero(gt)),
            used: capped_sum(or_zero(vu), or_zero(gu)),
        }
    } else if or_zero(vt) > 0 {
        Vram::Known { total: or_zero(vt) as u64, used: or_zero(vu) as u64 }
    } else {
        Vram::Shared
    }
}

/// The reading of a card from the text of its files.
pub open spec fn sysfs_reading_spec(p: SysfsProbe) -> GpuReading {
    GpuReading {
        usage: sysfs_usage(p) as u64,
        temp_milli_c: hwmon_temp(p.hwmon@),
        power_mw: None,
        freq_mhz: sysfs_freq(p),
        vram: sysfs_vram(p),
    }
}

/// The raw utilization that a vendor reading stands for; zero where the
/// query failed.
pub open spec fn nvidia_raw(p: NvidiaProbe) -> u64 {
    match p.utilization {
        Some((core, memory)) => (PERCENT * (if core > memory { core } else { memory })) as u64,
        None => 0,
    }
}

/// The reading of a device of the vendor API, smoothed against `previous`.
pub open spec fn nvidia_reading_spec(previous: u64, p: NvidiaProbe) -> GpuReading {
    GpuReading {
        usage: min_full(smoothed(previous, nvidia_raw(p))) as u64,
        temp_milli_c: match p.temperature_c {
            Some(t) => Some((t * 1000) as u64),
            None => None,
        },
        power_mw: match p.power_mw {
            Some(w) => Some(w as u64),
            None => None,
        },
        freq_mhz: match p.graphics_clock_mhz {
            Some(f) => Some(f as u64),
            None => None,
        },
        vram: match p.memory {
            Some((total, used)) => Vram::Known { total, used },
            None => Vram::Unknown,
        },
    }
}

fn cap_full(v: u128) -> (r: u64)
    ensures
        r == min_full(v as nat),
{
    if v > FULL as u128 {
        FULL
    } else {
        v as u64
    }
}

/// Utilization derived from the graphics clock files.
pub fn clock_usage(cur: Option<u64>, max: Option<u64>) -> (r: u64)
    ensures
        r == clock_ratio(cur, max),
{
    let c = zero_if_none(cur);
    let m = zero_if_none(max);
    if c > 0 && m > 0 {
        cap_full(div_round((c as u128) * (FULL as u128), m as u128))
    } else {
        0
    }
}

fn first_number_in(texts: &Vec<String>) -> (r: Option<u64>)
    ensures
        r == first_number(texts@),
{
    let mut i: usize = 0;
    assert(texts@.subrange(0, texts@.len() as int) =~= texts@);
    while i < texts.len()
        invariant
            i <= texts@.len(),
            first_number(texts@.subrange(i as int, texts@.len() as int)) == first_number(texts@),
        decreases texts@.len() - i,
    {
        assert(texts@.subrange(i as int, texts@.len() as int).skip(1) =~= texts@.subrange(
            i + 1,
            texts@.len() as int,
        ));
        let v = parse_number(texts[i].as_str());
        if v.is_some() {
            return v;
        }
        i += 1;
    }
    None
}

fn hwmon_freq_hz(dirs: &Vec<HwmonDir>) -> (r: Option<u64>)
    ensures
        r == hwmon_hz(dirs@),
{
    let mut i: usize = 0;
    assert(dirs@.subrange(0, dirs@.len() as int) =~= dirs@);
    while i < dirs.len()
        invariant
            i <= dirs@.len(),
            hwmon_hz(dirs@.subrange(i as int, dirs@.len() as int)) == hwmon_hz(dirs@),
        decreases dirs@.len() - i,
    {
        assert(dirs@.subrange(i as int, dirs@.len() as int).skip(1) =~= dirs@.subrange(
            i + 1,
            dirs@.len() as int,
        ));
        let v = first_number_in(&dirs[i].freq_inputs);
        if v.is_some() {
            return v;
        }
        i += 1;
    }
    None
}

/// The temperature of the first monitor directory that reports one.
pub fn hwmon_temperature(dirs: &Vec<HwmonDir>) -> (r: Option<u64>)
    ensures
        r == hwmon_temp(dirs@),
{
    let mut i: usize = 0;
    assert(dirs@.subrange(0, dirs@.len() as int) =~= dirs@);
    while i < dirs.len()
        invariant
            i <= dirs@.len(),
            hwmon_temp(dirs@.subrange(i as int, dirs@.len() as int)) == hwmon_temp(dirs@),
        decreases dirs@.len() - i,
    {
        assert(dirs@.subrange(i as int, dirs@.len() as int).skip(1) =~= dirs@.subrange(
            i + 1,
            dirs@.len() as int,
        ));
        let v = parse_number(dirs[i].temp1_input.as_str());
        if v.is_some() {
            return v;
        }
        i += 1;
    }
    None
}

/// The graphics clock of a card, by the first source that gives one.
pub fn sysfs_frequency(p: &SysfsProbe) -> (r: Option<u64>)
    ensures
        r == sysfs_freq(*p),
{
    let cur = parse_number(p.gt_cur_freq_mhz.as_str());
    if cur.is_some() {
        return cur;
    }
    let level = parse_active_level(p.pp_dpm_sclk.as_str());
    if level.is_some() {
        return level;
    }
    match hwmon_freq_hz(&p.hwmon) {
        Some(hz) => Some(hz / 1_000_000),
        None => None,
    }
}

fn add_capped(a: u64, b: u64) -> (r: u64)
    ensures
        r == capped_sum(a as nat, b as nat),
{
    if a > u64::MAX - b {
        u64::MAX
    } else {
        a + b
    }
}

fn zero_if_none(v: Option<u64>) -> (r: u64)
    ensures
        r == or_zero(v),
{
    match v {
        Some(x) => x,
        None => 0,
    }
}

/// The memory figures of a card.
pub fn sysfs_memory(p: &SysfsProbe) -> (r: Vram)
    ensures
        r == sysfs_vram(*p),
{
    let vt = zero_if_none(parse_number(p.vram_total.as_str()));
    let vu = zero_if_none(parse_number(p.vram_used.as_str()));
    let gt = parse_number(p.gtt_total.as_str());
    let gu = zero_if_none(parse_number(p.gtt_used.as_str()));
    match gt {
        Some(g) => Vram::Known { total: add_capped(vt, g), used: add_capped(vu, gu) },
        None => if vt > 0 {
            Vram::Known { total: vt, used: vu }
        } else {
            Vram::Shared
        },
    }
}

/// The utilization of a card.
pub fn sysfs_utilization(p: &SysfsProbe) -> (r: u64)
    ensures
        r == sysfs_usage(*p),
{
    match parse_number(p.busy_percent.as_str()) {
        Some(b) => cap_full((b as u128) * (PERCENT as u128)),
        None => clock_usage(
            parse_number(p.gt_cur_freq_mhz.as_str()),
            parse_number(p.gt_max_freq_mhz.as_str()),
        ),
    }
}

/// The metrics of a card reached through its device files.
pub fn sysfs_reading(p: &SysfsProbe) -> (r: GpuReading)
    ensures
        r == sysfs_reading_spec(*p),
{
    GpuReading {
        usage: sysfs_utilization(p),
        temp_milli_c: hwmon_temperature(&p.hwmon),
        power_mw: None,
        freq_mhz: sysfs_frequency(p),
        vram: sysfs_memory(p),
    }
}

/// The metrics of a device of the vendor API; its utilization is smoothed
/// against `previous`, the value displayed last poll.
pub fn nvidia_reading(previous: u64, p: &NvidiaProbe) -> (r: GpuReading)
    ensures
        r == nvidia_reading_spec(previous, *p),
{
    let raw: u64 = match p.utilization {
        Some((core, memory)) => busiest(core, memory),
        None => 0,
    };
    let usage = cap_full(smooth(previous, raw) as u128);
    let temp_milli_c = match p.temperature_c {
        Some(t) => Some((t as u64) * 1000),
        None => None,
    };
    let power_mw = match p.power_mw {
        Some(w) => Some(w as u64),
        None => None,
    };
    let freq_mhz = match p.graphics_clock_mhz {
        Some(f) => Some(f as u64),
        None => None,
    };
    let vram = match p.memory {
        Some((total, used)) => Vram::Known { total, used },
        None => Vram::Unknown,
    };
    GpuReading { usage, temp_milli_c, power_mw, freq_mhz, vram }
}

} // verus!
