//! The poll cycle: each tick takes what the system and every device reported,
//! advances every history by one sample and yields everything the display
//! shows. Ticks never overlap; the histories belong to the monitor alone.

use vstd::prelude::*;
use crate::discovery::GpuDescriptor;
use crate::display::{
    ghz_label, ghz_text, gib_label_hundredths, gib_text_hundredths, gpu_row, gpu_row_is,
    temperature_label, temperature_text, uptime_label, uptime_text, usage_label_tenths,
    usage_text_tenths, GpuRow,
};
use crate::sensors::{cpu_temperature, hottest, Sensor};
use crate::fixed::{div_round, round_div};
use crate::history::{HistoryBuffer, HISTORY_LEN};
use crate::metrics::{
    min_full, nvidia_reading, nvidia_reading_spec, sysfs_reading, sysfs_reading_spec, GpuReading,
    NvidiaProbe, SysfsProbe, Vram,
};
use crate::path::{fill_path, line_path, FULL};

verus! {

/// What one device reported in one poll, by the way it is reached. A device
/// of the vendor API that could not be reached this poll is `Nvidia(None)`.
pub enum GpuProbe {
    Nvidia(Option<NvidiaProbe>),
    Sysfs(SysfsProbe),
}

/// What the operating system reported in one poll.
pub struct SystemProbe {
    /// Overall processor load, in sample units.
    pub cpu_usage: u64,
    /// Clock of the first processor in MHz, where there is one.
    pub cpu_freq_mhz: Option<u64>,
    /// Memory in bytes.
    pub mem_total: u64,
    pub mem_used: u64,
    pub mem_available: u64,
    pub mem_free: u64,
    /// Seconds since boot.
    pub uptime_secs: u64,
    /// The machine's temperature sensors.
    pub sensors: Vec<Sensor>,
}

/// The processor and memory values as the display shows them.
pub struct SystemRow {
    pub cpu_freq: Option<String>,
    pub cpu_usage: String,
    pub cpu_temp: String,
    pub usage_line_data: String,
    pub usage_fill_data: String,
    pub ram_total: String,
    pub ram_active: String,
    pub ram_available: String,
    pub ram_cached: String,
    pub ram_free: String,
    pub mem_line_data: String,
    pub mem_fill_data: String,
    pub uptime: String,
}

/// Everything one tick yields.
pub struct TickOutput {
    pub system: SystemRow,
    /// One row per device, in discovery order.
    pub gpus: Vec<GpuRow>,
}

/// The rolling state of the display: one history per tracked series.
pub struct Monitor {
    devices: Vec<GpuDescriptor>,
    cpu: HistoryBuffer,
    mem: HistoryBuffer,
    gpus: Vec<HistoryBuffer>,
}

/// Memory in use as a sample: `used / total` at full scale; zero when the
/// total is unknown.
pub open spec fn memory_sample(used: u64, total: u64) -> u64 {
    if total == 0 {
        0
    } else {
        min_full(round_div((used * FULL) as nat, total as nat)) as u64
    }
}

/// Memory that is available without being free, i.e. held by caches.
pub open spec fn cached_bytes(available: u64, free: u64) -> u64 {
    if available >= free {
        (available - free) as u64
    } else {
        0
    }
}

/// The reading of one device, given the value its history showed last.
pub open spec fn reading_of(p: GpuProbe, previous: u64) -> GpuReading {
    match p {
        GpuProbe::Nvidia(Some(np)) => nvidia_reading_spec(previous, np),
        GpuProbe::Nvidia(None) => GpuReading {
            usage: 0,
            temp_milli_c: None,
            power_mw: None,
            freq_mhz: None,
            vram: Vram::Unknown,
        },
        GpuProbe::Sysfs(sp) => sysfs_reading_spec(sp),
    }
}

pub open spec fn system_row_is(row: SystemRow, p: SystemProbe, cpu: Seq<u64>, mem: Seq<u64>) -> bool {
    &&& row.cpu_freq matches Some(f) ==> p.cpu_freq_mhz matches Some(m) && f@ == ghz_label(m)
    &&& row.cpu_freq is None <==> p.cpu_freq_mhz is None
    &&& row.cpu_usage@ == usage_label_tenths(p.cpu_usage)
    &&& row.cpu_temp@ == temperature_label(Some(hottest(p.sensors@) as u64))
    &&& row.usage_line_data@ == line_path(cpu)
    &&& row.usage_fill_data@ == fill_path(cpu)
    &&& row.ram_total@ == gib_label_hundredths(p.mem_total)
    &&& row.ram_active@ == gib_label_hundredths(p.mem_used)
    &&& row.ram_available@ == gib_label_hundredths(p.mem_available)
    &&& row.ram_cached@ == gib_label_hundredths(cached_bytes(p.mem_available, p.mem_free))
    &&& row.ram_free@ == gib_label_hundredths(p.mem_free)
    &&& row.mem_line_data@ == line_path(mem)
    &&& row.mem_fill_data@ == fill_path(mem)
    &&& row.uptime@ == uptime_label(p.uptime_secs)
}

/// What one tick does: every history advances by one sample, and the output
/// holds what the display shows of the new state.
pub open spec fn ticked(
    before: Monitor,
    after: Monitor,
    sys: SystemProbe,
    probes: Seq<GpuProbe>,
    r: TickOutput,
) -> bool {
    &&& after.wf()
    &&& after.devices() == before.devices()
    &&& after.cpu_history() == before.cpu_history().skip(1).push(sys.cpu_usage)
    &&& after.mem_history() == before.mem_history().skip(1).push(
        memory_sample(sys.mem_used, sys.mem_total),
    )
    &&& system_row_is(r.system, sys, after.cpu_history(), after.mem_history())
    &&& r.gpus@.len() == probes.len()
    &&& forall|k: int|
        0 <= k < probes.len() ==> {
            let reading = reading_of(probes[k], before.gpu_history(k).last());
            &&& #[trigger] after.gpu_history(k) == before.gpu_history(k).skip(1).push(
                reading.usage,
            )
            &&& gpu_row_is(r.gpus@[k], before.devices()[k].name@, reading, after.gpu_history(k))
        }
}

impl Monitor {
    pub closed spec fn devices(&self) -> Seq<GpuDescriptor> {
        self.devices@
    }

    pub closed spec fn cpu_history(&self) -> Seq<u64> {
        self.cpu@
    }

    pub closed spec fn mem_history(&self) -> Seq<u64> {
        self.mem@
    }

    /// The history of device `k`.
    pub closed spec fn gpu_history(&self, k: int) -> Seq<u64> {
        self.gpus@[k]@
    }

    pub closed spec fn wf(&self) -> bool {
        &&& self.cpu.wf()
        &&& self.mem.wf()
        &&& self.gpus@.len() == self.devices@.len()
        &&& forall|k: int| 0 <= k < self.gpus@.len() ==> (#[trigger] self.gpus@[k]).wf()
    }

    /// Every history has the fixed depth.
    pub proof fn lemma_depth(&self)
        requires
            self.wf(),
        ensures
            self.cpu_history().len() == HISTORY_LEN,
            self.mem_history().len() == HISTORY_LEN,
            forall|k: int|
                0 <= k < self.devices().len() ==> (#[trigger] self.gpu_history(k)).len()
                    == HISTORY_LEN,
    {
        assert forall|k: int| 0 <= k < self.devices().len() implies (#[trigger] self.gpu_history(
            k,
        )).len() == HISTORY_LEN by {
            assert(self.gpus@[k].wf());
        }
    }

    /// A monitor of the discovered devices, every history at zero.
    pub fn new(devices: Vec<GpuDescriptor>) -> (r: Self)
        ensures
            r.wf(),
            r.devices() == devices@,
            r.cpu_history() == Seq::new(HISTORY_LEN as nat, |i: int| 0u64),
            r.mem_history() == Seq::new(HISTORY_LEN as nat, |i: int| 0u64),
            forall|k: int|
                0 <= k < devices@.len() ==> #[trigger] r.gpu_history(k) == Seq::new(
                    HISTORY_LEN as nat,
                    |i: int| 0u64,
                ),
    {
        let mut gpus: Vec<HistoryBuffer> = Vec::new();
        let mut k: usize = 0;
        while k < devices.len()
            invariant
                k <= devices@.len(),
                gpus@.len() == k,
                forall|j: int|
                    0 <= j < k ==> (#[trigger] gpus@[j]).wf() && gpus@[j]@ == Seq::new(
                        HISTORY_LEN as nat,
                        |i: int| 0u64,
                    ),
            decreases devices@.len() - k,
        {
            gpus.push(HistoryBuffer::new());
            k += 1;
        }
        Monitor { devices, cpu: HistoryBuffer::new(), mem: HistoryBuffer::new(), gpus }
    }

    /// The number of discovered devices.
    pub fn device_count(&self) -> (r: usize)
        requires
            self.wf(),
        ensures
            r == self.devices().len(),
    {
        self.devices.len()
    }

    /// One poll: every history advances by one sample and every displayed
    /// value is recomputed. `probes` holds one report per device, in
    /// discovery order.
    pub fn tick(&mut self, sys: &SystemProbe, probes: &Vec<GpuProbe>) -> (r: TickOutput)
        requires
            old(self).wf(),
            probes@.len() == old(self).devices().len(),
        ensures
            ticked(*old(self), *final(self), *sys, probes@, r),
    {
        self.cpu.push(sys.cpu_usage);
        let mem_sample = memory_usage(sys.mem_used, sys.mem_total);
        self.mem.push(mem_sample);
        let (usage_line_data, usage_fill_data) = self.cpu.paths();
        let (mem_line_data, mem_fill_data) = self.mem.paths();
        let cached = if sys.mem_available >= sys.mem_free {
            sys.mem_available - sys.mem_free
        } else {
            0
        };
        let cpu_freq = match sys.cpu_freq_mhz {
            Some(m) => Some(ghz_text(m)),
            None => None,
        };
        let system = SystemRow {
            cpu_freq,
            cpu_usage: usage_text_tenths(sys.cpu_usage),
            cpu_temp: temperature_text(Some(cpu_temperature(&sys.sensors))),
            usage_line_data,
            usage_fill_data,
            ram_total: gib_text_hundredths(sys.mem_total),
            ram_active: gib_text_hundredths(sys.mem_used),
            ram_available: gib_text_hundredths(sys.mem_available),
            ram_cached: gib_text_hundredths(cached),
            ram_free: gib_text_hundredths(sys.mem_free),
            mem_line_data,
            mem_fill_data,
            uptime: uptime_text(sys.uptime_secs),
        };
        let ghost before = *self;
        let mut rows: Vec<GpuRow> = Vec::new();
        let mut k: usize = 0;
        while k < probes.len()
            invariant
                k <= probes@.len(),
                probes@.len() == before.devices().len(),
                before.wf(),
                self.wf(),
                self.devices@ == before.devices@,
                self.cpu == before.cpu,
                self.mem == before.mem,
                rows@.len() == k,
                forall|j: int| k <= j < probes@.len() ==> self.gpus@[j] == before.gpus@[j],
                forall|j: int|
                    0 <= j < k ==> {
                        let reading = reading_of(probes@[j], before.gpu_history(j).last());
                        &&& #[trigger] self.gpu_history(j) == before.gpu_history(j).skip(1).push(
                            reading.usage,
                        )
                        &&& gpu_row_is(
                            rows@[j],
                            before.devices()[j].name@,
                            reading,
                            self.gpu_history(j),
                        )
                    },
            decreases probes@.len() - k,
        {
            assert(self.gpus@[k as int].wf());
            let previous = self.gpus[k].last();
            let reading = match &probes[k] {
                GpuProbe::Nvidia(Some(np)) => nvidia_reading(previous, np),
                GpuProbe::Nvidia(None) => GpuReading {
                    usage: 0,
                    temp_milli_c: None,
                    power_mw: None,
                    freq_mhz: None,
                    vram: Vram::Unknown,
                },
                GpuProbe::Sysfs(sp) => sysfs_reading(sp),
            };
            assert(reading == reading_of(probes@[k as int], before.gpu_history(k as int).last()));
            let ghost g0 = self.gpus@;
            let ghost s0 = *self;
            let ghost rows0 = rows@;
            let mut h = self.gpus.remove(k);
            h.push(reading.usage);
            let row = gpu_row(&self.devices[k].name, &reading, &h);
            self.gpus.insert(k, h);
            assert(self.gpus@ =~= g0.update(k as int, h));
            rows.push(row);
            proof {
                assert forall|j: int| 0 <= j < k + 1 implies {
                    let reading = reading_of(probes@[j], before.gpu_history(j).last());
                    &&& #[trigger] self.gpu_history(j) == before.gpu_history(j).skip(1).push(
                        reading.usage,
                    )
                    &&& gpu_row_is(
                        rows@[j],
                        before.devices()[j].name@,
                        reading,
                        self.gpu_history(j),
                    )
                } by {
                    let reading_j = reading_of(probes@[j], before.gpu_history(j).last());
                    if j < k {
                        assert(self.gpus@[j] == g0[j]);
                        assert(rows@[j] == rows0[j]);
                        assert(s0.gpu_history(j) == before.gpu_history(j).skip(1).push(
                            reading_j.usage,
                        ));
                    } else {
                        assert(self.gpus@[j] == h);
                        assert(rows@[j] == row);
                    }
                }
            }
            k += 1;
        }
        TickOutput { system, gpus: rows }
    }

    /// One poll as the display drives it. Where the display is gone the poll
    /// stops at once: nothing changes and nothing is yielded. Otherwise it is
    /// a tick.
    pub fn poll(&mut self, display_alive: bool, sys: &SystemProbe, probes: &Vec<GpuProbe>) -> (r:
        Option<TickOutput>)
        requires
            old(self).wf(),
            probes@.len() == old(self).devices().len(),
        ensures
            !display_alive ==> r is None && *final(self) == *old(self),
            display_alive ==> (r matches Some(out) && ticked(
                *old(self),
                *final(self),
                *sys,
                probes@,
                out,
            )),
    {
        if !display_alive {
            return None;
        }
        Some(self.tick(sys, probes))
    }
}

/// Memory in use as a sample.
pub fn memory_usage(used: u64, total: u64) -> (r: u64)
    ensures
        r == memory_sample(used, total),
{
    if total == 0 {
        return 0;
    }
    assert((used as u128) * (FULL as u128) <= u64::MAX as u128 * (FULL as u128)) by (nonlinear_arith);
    let v = div_round((used as u128) * (FULL as u128), total as u128);
    if v > FULL as u128 {
        FULL
    } else {
        v as u64
    }
}

} // verus!
