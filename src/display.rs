//! The text that the display shows for each value.

use vstd::prelude::*;
use vstd::string::*;
use crate::fixed::{decimal, div_round, fixed, push_decimal, push_fixed, round_div};
use crate::history::HistoryBuffer;
use crate::metrics::{GpuReading, Vram};
use crate::path::{fill_path, line_path, PERCENT};

verus! {

/// Bytes in a gibibyte and in a mebibyte.
pub const GIB: u64 = 1_073_741_824;

pub const MIB: u64 = 1_048_576;

/// `v / per` rounded to `places` decimals, followed by `unit`; the caller
/// has already multiplied `v` by `10^places`.
pub open spec fn scaled(v: nat, per: nat, places: nat, unit: Seq<char>) -> Seq<char> {
    fixed(round_div(v, per), places) + unit
}

/// Text of an optional value: `N/A` where it is unknown.
pub open spec fn or_na(v: Option<Seq<char>>) -> Seq<char> {
    match v {
        Some(t) => t,
        None => "N/A"@,
    }
}

/// Utilization as a whole percentage, such as `72%`.
pub open spec fn usage_label(v: u64) -> Seq<char> {
    scaled(v as nat, PERCENT as nat, 0, "%"@)
}

/// Utilization with one decimal, such as `7.5%`.
pub open spec fn usage_label_tenths(v: u64) -> Seq<char> {
    scaled(v as nat, (PERCENT / 10) as nat, 1, "%"@)
}

pub open spec fn temperature_label(milli_c: Option<u64>) -> Seq<char> {
    or_na(
        match milli_c {
            Some(m) => Some(scaled(m as nat, 1000, 0, "°C"@)),
            None => None,
        },
    )
}

pub open spec fn power_label(mw: Option<u64>) -> Seq<char> {
    or_na(
        match mw {
            Some(m) => Some(scaled(m as nat, 100, 1, " W"@)),
            None => None,
        },
    )
}

pub open spec fn frequency_label(mhz: Option<u64>) -> Seq<char> {
    or_na(
        match mhz {
            Some(f) => Some(decimal(f as nat) + " MHz"@),
            None => None,
        },
    )
}

/// Bytes as gibibytes with one decimal, such as `7.5 GB`.
pub open spec fn gib_label(bytes: u64) -> Seq<char> {
    scaled(10 * bytes as nat, GIB as nat, 1, " GB"@)
}

/// Bytes as gibibytes with two decimals, such as `15.52 GB`.
pub open spec fn gib_label_hundredths(bytes: u64) -> Seq<char> {
    scaled(100 * bytes as nat, GIB as nat, 2, " GB"@)
}

/// Bytes as whole mebibytes, such as `512 MB`.
pub open spec fn mib_label(bytes: u64) -> Seq<char> {
    scaled(bytes as nat, MIB as nat, 0, " MB"@)
}

/// A clock in MHz shown in GHz with two decimals, such as `4.20 GHz`.
pub open spec fn ghz_label(mhz: u64) -> Seq<char> {
    scaled(mhz as nat, 10, 2, " GHz"@)
}

/// Total and used memory of a device.
pub open spec fn vram_labels(v: Vram) -> (Seq<char>, Seq<char>) {
    match v {
        Vram::Known { total, used } => (gib_label(total), mib_label(used)),
        Vram::Shared => ("Shared"@, "N/A"@),
        Vram::Unknown => ("N/A"@, "N/A"@),
    }
}

/// A number with at least two digits.
pub open spec fn two_digits(n: nat) -> Seq<char> {
    if n < 10 {
        seq!['0'] + decimal(n)
    } else {
        decimal(n)
    }
}

/// Seconds as `HH:MM:SS`.
pub open spec fn uptime_label(secs: u64) -> Seq<char> {
    two_digits(secs as nat / 3600) + seq![':'] + two_digits((secs as nat % 3600) / 60) + seq![':']
        + two_digits(secs as nat % 60)
}

/// One row of the GPU list as the display takes it.
pub struct GpuRow {
    pub name: String,
    pub usage: String,
    pub temp: String,
    pub wattage: String,
    pub freq: String,
    pub vram_total: String,
    pub vram_used: String,
    pub line_data: String,
    pub fill_data: String,
}

proof fn lemma_round_div_fits(v: nat, per: nat)
    requires
        per > 0,
        v <= u64::MAX * per,
    ensures
        round_div(v, per) <= u64::MAX,
{
    let k = u64::MAX + 1;
    assert(2 * v + per < (2 * per) * k) by (nonlinear_arith)
        requires
            v <= u64::MAX * per,
            per > 0,
            k == u64::MAX + 1,
    ;
    vstd::arithmetic::div_mod::lemma_multiply_divide_lt((2 * v + per) as int, (2 * per) as int, k);
}

fn scaled_text(v: u128, per: u128, places: u64, unit: &str) -> (r: String)
    requires
        0 < per <= GIB,
        v <= u64::MAX as u128 * per,
        places <= 2,
    ensures
        r@ == scaled(v as nat, per as nat, places as nat, unit@),
{
    proof { lemma_round_div_fits(v as nat, per as nat); }
    let n = div_round(v, per);
    let mut s = String::new();
    push_fixed(&mut s, n as u64, places);
    s.append(unit);
    s
}

fn na() -> (r: String)
    ensures
        r@ == "N/A"@,
{
    String::from_str("N/A")
}

pub fn usage_text(v: u64) -> (r: String)
    ensures
        r@ == usage_label(v),
{
    scaled_text(v as u128, PERCENT as u128, 0, "%")
}

pub fn usage_text_tenths(v: u64) -> (r: String)
    ensures
        r@ == usage_label_tenths(v),
{
    scaled_text(v as u128, (PERCENT / 10) as u128, 1, "%")
}

pub fn temperature_text(milli_c: Option<u64>) -> (r: String)
    ensures
        r@ == temperature_label(milli_c),
{
    match milli_c {
        Some(m) => scaled_text(m as u128, 1000, 0, "°C"),
        None => na(),
    }
}

pub fn power_text(mw: Option<u64>) -> (r: String)
    ensures
        r@ == power_label(mw),
{
    match mw {
        Some(m) => scaled_text(m as u128, 100, 1, " W"),
        None => na(),
    }
}

pub fn frequency_text(mhz: Option<u64>) -> (r: String)
    ensures
        r@ == frequency_label(mhz),
{
    match mhz {
        Some(f) => {
            let mut s = String::new();
            push_decimal(&mut s, f);
            s.append(" MHz");
            assert(s@ =~= decimal(f as nat) + " MHz"@);
            s
        },
        None => na(),
    }
}

pub fn gib_text(bytes: u64) -> (r: String)
    ensures
        r@ == gib_label(bytes),
{
    scaled_text(10 * (bytes as u128), GIB as u128, 1, " GB")
}

pub fn gib_text_hundredths(bytes: u64) -> (r: String)
    ensures
        r@ == gib_label_hundredths(bytes),
{
    scaled_text(100 * (bytes as u128), GIB as u128, 2, " GB")
}

pub fn mib_text(bytes: u64) -> (r: String)
    ensures
        r@ == mib_label(bytes),
{
    scaled_text(bytes as u128, MIB as u128, 0, " MB")
}

pub fn ghz_text(mhz: u64) -> (r: String)
    ensures
        r@ == ghz_label(mhz),
{
    scaled_text(mhz as u128, 10, 2, " GHz")
}

pub fn vram_text(v: &Vram) -> (r: (String, String))
    ensures
        (r.0@, r.1@) == vram_labels(*v),
{
    match v {
        Vram::Known { total, used } => (gib_text(*total), mib_text(*used)),
        Vram::Shared => (String::from_str("Shared"), na()),
        Vram::Unknown => (na(), na()),
    }
}

fn push_two_digits(s: &mut String, n: u64)
    ensures
        final(s)@ == old(s)@ + two_digits(n as nat),
{
    if n < 10 {
        proof { reveal_strlit("0"); }
        s.append("0");
    }
    push_decimal(s, n);
    assert(s@ =~= old(s)@ + two_digits(n as nat));
}

pub fn uptime_text(secs: u64) -> (r: String)
    ensures
        r@ == uptime_label(secs),
{
    proof { reveal_strlit(":"); }
    let mut s = String::new();
    push_two_digits(&mut s, secs / 3600);
    s.append(":");
    push_two_digits(&mut s, (secs % 3600) / 60);
    s.append(":");
    push_two_digits(&mut s, secs % 60);
    assert(s@ =~= uptime_label(secs));
    s
}

pub open spec fn gpu_row_is(row: GpuRow, name: Seq<char>, r: GpuReading, h: Seq<u64>) -> bool {
    &&& row.name@ == name
    &&& row.usage@ == usage_label(r.usage)
    &&& row.temp@ == temperature_label(r.temp_milli_c)
    &&& row.wattage@ == power_label(r.power_mw)
    &&& row.freq@ == frequency_label(r.freq_mhz)
    &&& (row.vram_total@, row.vram_used@) == vram_labels(r.vram)
    &&& row.line_data@ == line_path(h)
    &&& row.fill_data@ == fill_path(h)
}

/// The display row of a device from its name, its reading and its history.
pub fn gpu_row(name: &String, reading: &GpuReading, history: &HistoryBuffer) -> (r: GpuRow)
    ensures
        gpu_row_is(r, name@, *reading, history@),
{
    let (vram_total, vram_used) = vram_text(&reading.vram);
    let (line_data, fill_data) = history.paths();
    GpuRow {
        name: name.clone(),
        usage: usage_text(reading.usage),
        temp: temperature_text(reading.temp_milli_c),
        wattage: power_text(reading.power_mw),
        freq: frequency_text(reading.freq_mhz),
        vram_total,
        vram_used,
        line_data,
        fill_data,
    }
}

} // verus!
