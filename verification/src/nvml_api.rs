//! Trusted boundary to the NVML device-management library.
//!
//! Every call into `nvml_wrapper` happens inside one of the small
//! `external_body` wrappers below, each converting the outside result to
//! plain values.  Device readings depend on the hardware at the instant of
//! the call, so the wrappers promise nothing about the values they return;
//! the verified sampling code states what holds of the record whatever the
//! hardware reported.
use crate::attribution::device_in_use;
use crate::record::Record;
use crate::sampler::{build_sample_record, sample_map, DeviceReading, SampleFailed};
use nvml_wrapper::error::NvmlError;
use nvml_wrapper::{Device, Nvml};
use vstd::prelude::*;

verus! {

#[verifier::external_type_specification]
#[verifier::external_body]
pub struct ExNvml(Nvml);

#[verifier::external_type_specification]
#[verifier::external_body]
pub struct ExDevice<'a>(Device<'a>);

#[verifier::external_type_specification]
#[verifier::external_body]
pub struct ExNvmlError(NvmlError);

/// Which clock domain a clock query asks about.
pub enum ClockKind {
    Graphics,
    Memory,
}

/// Relies on `Nvml::device_count`: the number of installed devices.
#[verifier::external_body]
fn nvml_device_count(nvml: &Nvml) -> Result<u32, NvmlError> {
    nvml.device_count()
}

/// Relies on `Nvml::device_by_index`: the device handle at one index.
#[verifier::external_body]
fn nvml_device_by_index<'n>(nvml: &'n Nvml, index: u32) -> Result<Device<'n>, NvmlError> {
    nvml.device_by_index(index)
}

/// Relies on `Nvml::sys_cuda_driver_version`: the CUDA driver version code.
#[verifier::external_body]
fn nvml_sys_cuda_driver_version(nvml: &Nvml) -> Result<i32, NvmlError> {
    nvml.sys_cuda_driver_version()
}

/// Relies on `Device::name`: the device's name.
#[verifier::external_body]
fn device_name(d: &Device) -> Result<String, NvmlError> {
    d.name()
}

/// Relies on `Device::brand`: the device's brand, as its debug tag.
#[verifier::external_body]
fn device_brand(d: &Device) -> Result<String, NvmlError> {
    d.brand().map(|b| format!("{:?}", b))
}

/// Relies on `Device::fan_speed` for fan 0: intended speed in percent.
#[verifier::external_body]
fn device_fan_speed(d: &Device) -> Result<u32, NvmlError> {
    d.fan_speed(0)
}

/// Relies on `Device::encoder_utilization`: the utilization percentage.
#[verifier::external_body]
fn device_encoder_utilization(d: &Device) -> Result<u32, NvmlError> {
    d.encoder_utilization().map(|u| u.utilization)
}

/// Relies on `Device::utilization_rates`: GPU and memory utilization
/// percentages.
#[verifier::external_body]
fn device_utilization_rates(d: &Device) -> Result<(u32, u32), NvmlError> {
    d.utilization_rates().map(|u| (u.gpu, u.memory))
}

/// Relies on `Device::memory_info`: used and total framebuffer memory in
/// bytes.
#[verifier::external_body]
fn device_memory_info(d: &Device) -> Result<(u64, u64), NvmlError> {
    d.memory_info().map(|m| (m.used, m.total))
}

/// Relies on `Device::temperature` for the GPU sensor: degrees Celsius.
#[verifier::external_body]
fn device_temperature(d: &Device) -> Result<u32, NvmlError> {
    d.temperature(nvml_wrapper::enum_wrappers::device::TemperatureSensor::Gpu)
}

/// Relies on `Device::power_usage`: power draw in milliwatts.
#[verifier::external_body]
fn device_power_usage(d: &Device) -> Result<u32, NvmlError> {
    d.power_usage()
}

/// Relies on `Device::enforced_power_limit`: the limit in milliwatts.
#[verifier::external_body]
fn device_enforced_power_limit(d: &Device) -> Result<u32, NvmlError> {
    d.enforced_power_limit()
}

/// Relies on `Device::clock_info`: the clock frequency in MHz for the
/// requested domain.
#[verifier::external_body]
fn device_clock_mhz(d: &Device, kind: &ClockKind) -> Result<u32, NvmlError> {
    let domain = match kind {
        ClockKind::Graphics => nvml_wrapper::enum_wrappers::device::Clock::Graphics,
        ClockKind::Memory => nvml_wrapper::enum_wrappers::device::Clock::Memory,
    };
    d.clock_info(domain)
}

/// Relies on `Device::current_pcie_link_gen`.
#[verifier::external_body]
fn device_current_pcie_link_gen(d: &Device) -> Result<u32, NvmlError> {
    d.current_pcie_link_gen()
}

/// Relies on `Device::pcie_link_speed`: MB/s per lane.
#[verifier::external_body]
fn device_pcie_link_speed(d: &Device) -> Result<u32, NvmlError> {
    d.pcie_link_speed()
}

/// Relies on `Device::current_pcie_link_width`.
#[verifier::external_body]
fn device_current_pcie_link_width(d: &Device) -> Result<u32, NvmlError> {
    d.current_pcie_link_width()
}

/// Relies on `Device::max_pcie_link_gen`.
#[verifier::external_body]
fn device_max_pcie_link_gen(d: &Device) -> Result<u32, NvmlError> {
    d.max_pcie_link_gen()
}

/// Relies on `Device::max_pcie_link_width`.
#[verifier::external_body]
fn device_max_pcie_link_width(d: &Device) -> Result<u32, NvmlError> {
    d.max_pcie_link_width()
}

/// Relies on `Device::num_cores`: the CUDA core count.
#[verifier::external_body]
fn device_num_cores(d: &Device) -> Result<u32, NvmlError> {
    d.num_cores()
}

/// Relies on `Device::architecture`: the architecture, as its debug tag.
#[verifier::external_body]
fn device_architecture(d: &Device) -> Result<String, NvmlError> {
    d.architecture().map(|a| format!("{:?}", a))
}

/// Relies on `Device::running_compute_processes`: the process ids running
/// compute work on the device.
#[verifier::external_body]
fn device_compute_pids(d: &Device) -> Result<Vec<u32>, NvmlError> {
    d.running_compute_processes().map(|v| v.into_iter().map(|p| p.pid).collect())
}

/// Relies on `Device::running_graphics_processes`: the process ids running
/// graphics work on the device.
#[verifier::external_body]
fn device_graphics_pids(d: &Device) -> Result<Vec<u32>, NvmlError> {
    d.running_graphics_processes().map(|v| v.into_iter().map(|p| p.pid).collect())
}

/// Queries the CUDA driver version and renders it as `major.minor`.
/// A version code the library reports as negative is treated as unavailable.
pub fn query_cuda_version(nvml: &Nvml) -> (r: Result<String, SampleFailed>)
    ensures
        match r {
            Ok(s) => exists|v: nat| s@ == crate::sampler::cuda_version_seq(v),
            Err(_) => true,
        },
{
    match nvml_sys_cuda_driver_version(nvml) {
        Ok(v) => {
            if v >= 0 {
                let s = crate::sampler::cuda_version_string(v as u32);
                proof {
                    assert(s@ == crate::sampler::cuda_version_seq((v as u32) as nat));
                }
                Ok(s)
            } else {
                Err(SampleFailed)
            }
        },
        Err(_) => Err(SampleFailed),
    }
}

/// One full sampling pass over every installed device.
///
/// Queries the device count, then every metric of every device, resolving
/// attribution against `our_pids`, and assembles the record.  A failing
/// required metric — the device count, a device handle, or any metric not
/// listed as optional — fails the whole pass for all devices (strict
/// short-circuit); a failing optional metric (brand,
/// fan speed, encoder utilization, power limit, link speed) only omits its
/// field; a failing process-list query means the device is simply not
/// attributed.  Whatever the hardware reported, a returned record is the
/// exact record of some sequence of device readings.
pub fn sample_metrics(nvml: &Nvml, our_pids: &Vec<u32>, cuda_version: &String) -> (r: Result<
    Record,
    SampleFailed,
>)
    ensures
        match r {
            Ok(rec) => rec.wf() && exists|devs: Seq<DeviceReading>|
                rec.as_map() == sample_map(*cuda_version, devs),
            Err(_) => true,
        },
{
    let count = match nvml_device_count(nvml) {
        Ok(c) => c,
        Err(_) => {
            return Err(SampleFailed);
        },
    };
    let mut readings: Vec<DeviceReading> = Vec::new();
    let mut di: u32 = 0;
    while di < count
        invariant
            di <= count,
            readings@.len() == di as nat,
        decreases count - di,
    {
        let device = match nvml_device_by_index(nvml, di) {
            Ok(d) => d,
            Err(_) => {
                return Err(SampleFailed);
            },
        };
        let compute = match device_compute_pids(&device) {
            Ok(v) => v,
            Err(_) => Vec::new(),
        };
        let graphics = match device_graphics_pids(&device) {
            Ok(v) => v,
            Err(_) => Vec::new(),
        };
        let in_use = device_in_use(our_pids, &compute, &graphics);
        let name = match device_name(&device) {
            Ok(v) => v,
            Err(_) => {
                return Err(SampleFailed);
            },
        };
        let brand = match device_brand(&device) {
            Ok(v) => Some(v),
            Err(_) => None,
        };
        let fan_speed = match device_fan_speed(&device) {
            Ok(v) => Some(v),
            Err(_) => None,
        };
        let encoder_util = match device_encoder_utilization(&device) {
            Ok(v) => Some(v),
            Err(_) => None,
        };
        let (util_gpu, util_memory) = match device_utilization_rates(&device) {
            Ok(v) => v,
            Err(_) => {
                return Err(SampleFailed);
            },
        };
        let (memory_used, memory_total) = match device_memory_info(&device) {
            Ok(v) => v,
            Err(_) => {
                return Err(SampleFailed);
            },
        };
        let temperature = match device_temperature(&device) {
            Ok(v) => v,
            Err(_) => {
                return Err(SampleFailed);
            },
        };
        let power_usage_mw = match device_power_usage(&device) {
            Ok(v) => v,
            Err(_) => {
                return Err(SampleFailed);
            },
        };
        let power_limit_mw = match device_enforced_power_limit(&device) {
            Ok(v) => Some(v),
            Err(_) => None,
        };
        let graphics_clock_mhz = match device_clock_mhz(&device, &ClockKind::Graphics) {
            Ok(v) => v,
            Err(_) => {
                return Err(SampleFailed);
            },
        };
        let memory_clock_mhz = match device_clock_mhz(&device, &ClockKind::Memory) {
            Ok(v) => v,
            Err(_) => {
                return Err(SampleFailed);
            },
        };
        let pcie_link_gen = match device_current_pcie_link_gen(&device) {
            Ok(v) => v,
            Err(_) => {
                return Err(SampleFailed);
            },
        };
        let pcie_link_speed_mb_s = match device_pcie_link_speed(&device) {
            Ok(v) => Some(v),
            Err(_) => None,
        };
        let pcie_link_width = match device_current_pcie_link_width(&device) {
            Ok(v) => v,
            Err(_) => {
                return Err(SampleFailed);
            },
        };
        let max_pcie_link_gen = match device_max_pcie_link_gen(&device) {
            Ok(v) => v,
            Err(_) => {
                return Err(SampleFailed);
            },
        };
        let max_pcie_link_width = match device_max_pcie_link_width(&device) {
            Ok(v) => v,
            Err(_) => {
                return Err(SampleFailed);
            },
        };
        let cuda_cores = match device_num_cores(&device) {
            Ok(v) => v,
            Err(_) => {
                return Err(SampleFailed);
            },
        };
        let architecture = match device_architecture(&device) {
            Ok(v) => v,
            Err(_) => {
                return Err(SampleFailed);
            },
        };
        readings.push(
            DeviceReading {
                name,
                brand,
                fan_speed,
                encoder_util,
                util_gpu,
                util_memory,
                memory_used,
                memory_total,
                temperature,
                power_usage_mw,
                power_limit_mw,
                graphics_clock_mhz,
                memory_clock_mhz,
                pcie_link_gen,
                pcie_link_speed_mb_s,
                pcie_link_width,
                max_pcie_link_gen,
                max_pcie_link_width,
                cuda_cores,
                architecture,
                in_use,
            },
        );
        di = di + 1;
    }
    let rec = build_sample_record(cuda_version, &readings);
    proof {
        assert(rec.as_map() == sample_map(*cuda_version, readings@));
    }
    Ok(rec)
}

} // verus!
