//! One sampling pass: readings in, a flat record out.
//!
//! A pass queries every installed device for the full metric set, computes
//! the derived values, and builds one record.  Metrics come in two kinds:
//! required ones, whose failure aborts the whole pass, and optional ones
//! (brand, fan speed, encoder utilization, enforced power limit, PCIe link
//! speed), whose failure merely omits the field.  When the target process
//! tree is using a device, a fixed subset of that device's metrics is
//! duplicated under the `gpu.process.<index>` namespace.
//!
//! Derived values are exact rationals: `memoryAllocated` is
//! `used / total * 100`, `powerWatts` is `milliwatts / 1000`, `powerPercent`
//! is `milliwatts / limit * 100`, and `pcieLinkSpeed` converts MB/s per lane
//! to bytes/s per lane.  A ratio whose denominator would be zero (total
//! memory or power limit reported as zero) is treated as unobtainable and
//! omitted, like any other unavailable metric.
use crate::keys::{
    count_key, cuda_key, dev_key, duration_key, make_dev_key, make_proc_key, proc_key,
    timestamp_key,
};
use crate::record::Record;
use crate::value::Value;
use vstd::prelude::*;
use vstd::string::StringExecFns;

verus! {

/// Everything one pass learned about one device.  Optional fields hold
/// `None` when the device could not report the metric.
pub struct DeviceReading {
    pub name: String,
    pub brand: Option<String>,
    pub fan_speed: Option<u32>,
    pub encoder_util: Option<u32>,
    pub util_gpu: u32,
    pub util_memory: u32,
    pub memory_used: u64,
    pub memory_total: u64,
    pub temperature: u32,
    pub power_usage_mw: u32,
    pub power_limit_mw: Option<u32>,
    pub graphics_clock_mhz: u32,
    pub memory_clock_mhz: u32,
    pub pcie_link_gen: u32,
    pub pcie_link_speed_mb_s: Option<u32>,
    pub pcie_link_width: u32,
    pub max_pcie_link_gen: u32,
    pub max_pcie_link_width: u32,
    pub cuda_cores: u32,
    pub architecture: String,
    /// Whether the target process tree was using this device.
    pub in_use: bool,
}

/// Outcome of a pass that could not produce a record because a required
/// metric (or the device count itself) was unavailable.  The caller falls
/// back to the minimal record and keeps the loop running.
#[derive(Debug, PartialEq, Eq)]
pub struct SampleFailed;

/// The global bindings a successful pass always carries.
pub open spec fn base_map(cuda_version: String, devs: Seq<DeviceReading>) -> Map<Seq<char>, Value> {
    Map::empty().insert(cuda_key(), Value::Text(cuda_version)).insert(
        count_key(),
        Value::Uint(devs.len() as u64),
    )
}

/// The bindings device `i` adds to a record under construction.
pub open spec fn with_device(m0: Map<Seq<char>, Value>, i: nat, d: DeviceReading) -> Map<
    Seq<char>,
    Value,
> {
    let m = m0.insert(dev_key(i, "name"@), Value::Text(d.name));
    let m = if d.brand is Some {
        m.insert(dev_key(i, "brand"@), Value::Text(d.brand->0))
    } else {
        m
    };
    let m = if d.fan_speed is Some {
        m.insert(dev_key(i, "fanSpeed"@), Value::Uint(d.fan_speed->0 as u64))
    } else {
        m
    };
    let m = if d.encoder_util is Some {
        m.insert(dev_key(i, "encoderUtilization"@), Value::Uint(d.encoder_util->0 as u64))
    } else {
        m
    };
    let m = m.insert(dev_key(i, "gpu"@), Value::Uint(d.util_gpu as u64));
    let m = m.insert(dev_key(i, "memory"@), Value::Uint(d.util_memory as u64));
    let m = if d.in_use {
        let m = m.insert(proc_key(i, "gpu"@), Value::Uint(d.util_gpu as u64));
        m.insert(proc_key(i, "memory"@), Value::Uint(d.util_memory as u64))
    } else {
        m
    };
    let m = m.insert(dev_key(i, "memoryTotal"@), Value::Uint(d.memory_total));
    let m = if d.memory_total > 0 {
        m.insert(
            dev_key(i, "memoryAllocated"@),
            Value::Ratio { num: (d.memory_used * 100) as u128, den: d.memory_total },
        )
    } else {
        m
    };
    let m = m.insert(dev_key(i, "memoryAllocatedBytes"@), Value::Uint(d.memory_used));
    let m = if d.in_use && d.memory_total > 0 {
        m.insert(
            proc_key(i, "memoryAllocated"@),
            Value::Ratio { num: (d.memory_used * 100) as u128, den: d.memory_total },
        )
    } else {
        m
    };
    let m = if d.in_use {
        m.insert(proc_key(i, "memoryAllocatedBytes"@), Value::Uint(d.memory_used))
    } else {
        m
    };
    let m = m.insert(dev_key(i, "temp"@), Value::Uint(d.temperature as u64));
    let m = if d.in_use {
        m.insert(proc_key(i, "temp"@), Value::Uint(d.temperature as u64))
    } else {
        m
    };
    let m = m.insert(
        dev_key(i, "powerWatts"@),
        Value::Ratio { num: d.power_usage_mw as u128, den: 1000u64 },
    );
    let m = if d.in_use {
        m.insert(
            proc_key(i, "powerWatts"@),
            Value::Ratio { num: d.power_usage_mw as u128, den: 1000u64 },
        )
    } else {
        m
    };
    let m = if d.power_limit_mw is Some {
        let limit = d.power_limit_mw->0;
        let m = m.insert(
            dev_key(i, "enforcedPowerLimitWatts"@),
            Value::Ratio { num: limit as u128, den: 1000u64 },
        );
        let m = if limit > 0 {
            m.insert(
                dev_key(i, "powerPercent"@),
                Value::Ratio { num: (d.power_usage_mw * 100) as u128, den: limit as u64 },
            )
        } else {
            m
        };
        let m = if d.in_use {
            m.insert(
                proc_key(i, "enforcedPowerLimitWatts"@),
                Value::Ratio { num: limit as u128, den: 1000u64 },
            )
        } else {
            m
        };
        if d.in_use && limit > 0 {
            m.insert(
                proc_key(i, "powerPercent"@),
                Value::Ratio { num: (d.power_usage_mw * 100) as u128, den: limit as u64 },
            )
        } else {
            m
        }
    } else {
        m
    };
    let m = m.insert(dev_key(i, "graphicsClock"@), Value::Uint(d.graphics_clock_mhz as u64));
    let m = m.insert(dev_key(i, "memoryClock"@), Value::Uint(d.memory_clock_mhz as u64));
    let m = m.insert(dev_key(i, "pcieLinkGen"@), Value::Uint(d.pcie_link_gen as u64));
    let m = if d.pcie_link_speed_mb_s is Some {
        m.insert(
            dev_key(i, "pcieLinkSpeed"@),
            Value::Uint((d.pcie_link_speed_mb_s->0 * 1000000) as u64),
        )
    } else {
        m
    };
    let m = m.insert(dev_key(i, "pcieLinkWidth"@), Value::Uint(d.pcie_link_width as u64));
    let m = m.insert(dev_key(i, "maxPcieLinkGen"@), Value::Uint(d.max_pcie_link_gen as u64));
    let m = m.insert(dev_key(i, "maxPcieLinkWidth"@), Value::Uint(d.max_pcie_link_width as u64));
    let m = m.insert(dev_key(i, "cudaCores"@), Value::Uint(d.cuda_cores as u64));
    let m = m.insert(dev_key(i, "architecture"@), Value::Text(d.architecture));
    m
}

/// The record mapping after the first `n` devices.
pub open spec fn sample_map_rec(cuda_version: String, devs: Seq<DeviceReading>, n: nat) -> Map<
    Seq<char>,
    Value,
>
    decreases n,
{
    if n == 0 {
        base_map(cuda_version, devs)
    } else {
        with_device(sample_map_rec(cuda_version, devs, (n - 1) as nat), (n - 1) as nat, devs[n - 1])
    }
}

/// The full record mapping of one successful pass, before the timestamp and
/// duration bindings are added.
pub open spec fn sample_map(cuda_version: String, devs: Seq<DeviceReading>) -> Map<
    Seq<char>,
    Value,
> {
    sample_map_rec(cuda_version, devs, devs.len())
}

/// The record of a pass that could not sample at all.
pub open spec fn fallback_map() -> Map<Seq<char>, Value> {
    Map::empty().insert(count_key(), Value::Uint(0))
}

/// Builds the record for one pass from the readings of every device.
pub fn build_sample_record(cuda_version: &String, devs: &Vec<DeviceReading>) -> (r: Record)
    requires
        devs@.len() <= 0xFFFF_FFFF,
    ensures
        r.wf(),
        r.as_map() == sample_map(*cuda_version, devs@),
{
    let mut r = Record::new();
    proof {
        reveal_strlit("cuda_version");
        reveal_strlit("gpu.count");
        assert("cuda_version"@ =~= cuda_key());
        assert("gpu.count"@ =~= count_key());
    }
    r.insert(String::from_str("cuda_version"), Value::Text(cuda_version.clone()));
    let count = devs.len();
    r.insert(String::from_str("gpu.count"), Value::Uint(count as u64));
    proof {
        assert(r.as_map() == sample_map_rec(*cuda_version, devs@, 0));
    }
    let mut di: usize = 0;
    while di < count
        invariant
            count == devs@.len(),
            devs@.len() <= 0xFFFF_FFFF,
            di <= count,
            r.wf(),
            r.as_map() == sample_map_rec(*cuda_version, devs@, di as nat),
        decreases count - di,
    {
        let ghost prev = r.as_map();
        let d = &devs[di];
        let iu = di as u32;
        r.insert(make_dev_key(iu, "name"), Value::Text(d.name.clone()));
        if let Some(b) = &d.brand {
            r.insert(make_dev_key(iu, "brand"), Value::Text(b.clone()));
        }
        if let Some(v) = d.fan_speed {
            r.insert(make_dev_key(iu, "fanSpeed"), Value::Uint(v as u64));
        }
        if let Some(v) = d.encoder_util {
            r.insert(make_dev_key(iu, "encoderUtilization"), Value::Uint(v as u64));
        }
        r.insert(make_dev_key(iu, "gpu"), Value::Uint(d.util_gpu as u64));
        r.insert(make_dev_key(iu, "memory"), Value::Uint(d.util_memory as u64));
        if d.in_use {
            r.insert(make_proc_key(iu, "gpu"), Value::Uint(d.util_gpu as u64));
            r.insert(make_proc_key(iu, "memory"), Value::Uint(d.util_memory as u64));
        }
        r.insert(make_dev_key(iu, "memoryTotal"), Value::Uint(d.memory_total));
        if d.memory_total > 0 {
            r.insert(
                make_dev_key(iu, "memoryAllocated"),
                Value::Ratio { num: d.memory_used as u128 * 100, den: d.memory_total },
            );
        }
        r.insert(make_dev_key(iu, "memoryAllocatedBytes"), Value::Uint(d.memory_used));
        if d.in_use && d.memory_total > 0 {
            r.insert(
                make_proc_key(iu, "memoryAllocated"),
                Value::Ratio { num: d.memory_used as u128 * 100, den: d.memory_total },
            );
        }
        if d.in_use {
            r.insert(make_proc_key(iu, "memoryAllocatedBytes"), Value::Uint(d.memory_used));
        }
        r.insert(make_dev_key(iu, "temp"), Value::Uint(d.temperature as u64));
        if d.in_use {
            r.insert(make_proc_key(iu, "temp"), Value::Uint(d.temperature as u64));
        }
        r.insert(
            make_dev_key(iu, "powerWatts"),
            Value::Ratio { num: d.power_usage_mw as u128, den: 1000u64 },
        );
        if d.in_use {
            r.insert(
                make_proc_key(iu, "powerWatts"),
                Value::Ratio { num: d.power_usage_mw as u128, den: 1000u64 },
            );
        }
        if let Some(limit) = d.power_limit_mw {
            r.insert(
                make_dev_key(iu, "enforcedPowerLimitWatts"),
                Value::Ratio { num: limit as u128, den: 1000u64 },
            );
            if limit > 0 {
                r.insert(
                    make_dev_key(iu, "powerPercent"),
                    Value::Ratio { num: d.power_usage_mw as u128 * 100, den: limit as u64 },
                );
            }
            if d.in_use {
                r.insert(
                    make_proc_key(iu, "enforcedPowerLimitWatts"),
                    Value::Ratio { num: limit as u128, den: 1000u64 },
                );
            }
            if d.in_use && limit > 0 {
                r.insert(
                    make_proc_key(iu, "powerPercent"),
                    Value::Ratio { num: d.power_usage_mw as u128 * 100, den: limit as u64 },
                );
            }
        }
        r.insert(make_dev_key(iu, "graphicsClock"), Value::Uint(d.graphics_clock_mhz as u64));
        r.insert(make_dev_key(iu, "memoryClock"), Value::Uint(d.memory_clock_mhz as u64));
        r.insert(make_dev_key(iu, "pcieLinkGen"), Value::Uint(d.pcie_link_gen as u64));
        if let Some(v) = d.pcie_link_speed_mb_s {
            r.insert(make_dev_key(iu, "pcieLinkSpeed"), Value::Uint(v as u64 * 1000000));
        }
        r.insert(make_dev_key(iu, "pcieLinkWidth"), Value::Uint(d.pcie_link_width as u64));
        r.insert(make_dev_key(iu, "maxPcieLinkGen"), Value::Uint(d.max_pcie_link_gen as u64));
        r.insert(make_dev_key(iu, "maxPcieLinkWidth"), Value::Uint(d.max_pcie_link_width as u64));
        r.insert(make_dev_key(iu, "cudaCores"), Value::Uint(d.cuda_cores as u64));
        r.insert(make_dev_key(iu, "architecture"), Value::Text(d.architecture.clone()));
        proof {
            assert(r.as_map() == with_device(prev, di as nat, devs@[di as int]));
            assert(sample_map_rec(*cuda_version, devs@, (di + 1) as nat) == with_device(
                sample_map_rec(*cuda_version, devs@, di as nat),
                di as nat,
                devs@[di as int],
            ));
        }
        di = di + 1;
    }
    r
}

/// The record of a pass that could not sample: just `gpu.count` bound to 0.
pub fn sample_metrics_fallback() -> (r: Record)
    ensures
        r.wf(),
        r.as_map() == fallback_map(),
{
    let mut r = Record::new();
    proof {
        reveal_strlit("gpu.count");
        assert("gpu.count"@ =~= count_key());
    }
    r.insert(String::from_str("gpu.count"), Value::Uint(0));
    r
}

/// Binds `_timestamp` to the pass start instant, given as microseconds since
/// the Unix epoch, rendered as fractional seconds.
pub fn add_timestamp(r: &mut Record, epoch_micros: u64)
    requires
        old(r).wf(),
    ensures
        final(r).wf(),
        final(r).as_map() == old(r).as_map().insert(
            timestamp_key(),
            Value::Ratio { num: epoch_micros as u128, den: 1000000u64 },
        ),
{
    proof {
        reveal_strlit("_timestamp");
        assert("_timestamp"@ =~= timestamp_key());
    }
    r.insert(
        String::from_str("_timestamp"),
        Value::Ratio { num: epoch_micros as u128, den: 1000000u64 },
    );
}

/// The version text `major.minor` of a CUDA driver version code: the major
/// version is `v / 1000`, the minor version `(v % 1000) / 10`.
pub open spec fn cuda_version_seq(v: nat) -> Seq<char> {
    crate::numtext::dec_str(v / 1000) + seq!['.'] + crate::numtext::dec_str((v % 1000) / 10)
}

/// Renders a CUDA driver version code as `major.minor`.
pub fn cuda_version_string(v: u32) -> (r: String)
    ensures
        r@ == cuda_version_seq(v as nat),
{
    let mut s = String::new();
    crate::numtext::push_dec_u64(&mut s, (v / 1000) as u64);
    s.push('.');
    crate::numtext::push_dec_u64(&mut s, ((v % 1000) / 10) as u64);
    proof {
        assert(s@ =~= cuda_version_seq(v as nat));
    }
    s
}

/// Binds `_sampling_duration_ms` to how long the pass took.
pub fn add_sampling_duration(r: &mut Record, duration_ms: u64)
    requires
        old(r).wf(),
    ensures
        final(r).wf(),
        final(r).as_map() == old(r).as_map().insert(duration_key(), Value::Uint(duration_ms)),
{
    proof {
        reveal_strlit("_sampling_duration_ms");
        assert("_sampling_duration_ms"@ =~= duration_key());
    }
    r.insert(String::from_str("_sampling_duration_ms"), Value::Uint(duration_ms));
}

} // verus!
