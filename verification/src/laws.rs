//! What a sampling pass guarantees about the record it builds.
//!
//! These proof functions state the record's shape over the spec mapping of
//! `sampler`: which keys every pass carries, that a pass with no devices
//! adds nothing else, the exact derived values each device contributes, and
//! that the attribution-filtered `gpu.process` keys of a device are present
//! exactly when the device was attributed to the target process tree.
use crate::keys::{
    count_key, cuda_key, dev_key, lemma_dev_key_injective, lemma_dev_key_not_global,
    lemma_dev_proc_keys_differ, lemma_global_keys_distinct, lemma_proc_key_injective,
    lemma_proc_key_not_global, proc_key, timestamp_key,
};
use crate::sampler::{
    fallback_map, sample_map, sample_map_rec, with_device, DeviceReading,
};
use crate::value::Value;
use vstd::prelude::*;

verus! {

/// Before device `i` has been added, no key of device `i` is bound.
proof fn lemma_rec_no_keys_of(cuda: String, devs: Seq<DeviceReading>, i: nat, n: nat)
    requires
        n <= i,
    ensures
        forall|f: Seq<char>|
            !sample_map_rec(cuda, devs, n).contains_key(#[trigger] dev_key(i, f)),
        forall|f: Seq<char>|
            !sample_map_rec(cuda, devs, n).contains_key(#[trigger] proc_key(i, f)),
    decreases n,
{
    broadcast use lemma_dev_key_injective, lemma_proc_key_injective, lemma_dev_proc_keys_differ,
        lemma_dev_key_not_global, lemma_proc_key_not_global;

    if n > 0 {
        lemma_rec_no_keys_of(cuda, devs, i, (n - 1) as nat);
    }
}

/// Every pass binds `gpu.count` to the device count and `cuda_version` to
/// the driver version text, whatever the devices reported.
pub proof fn lemma_sample_map_globals(cuda: String, devs: Seq<DeviceReading>)
    ensures
        sample_map(cuda, devs).contains_key(count_key()),
        sample_map(cuda, devs)[count_key()] == Value::Uint(devs.len() as u64),
        sample_map(cuda, devs).contains_key(cuda_key()),
        sample_map(cuda, devs)[cuda_key()] == Value::Text(cuda),
{
    lemma_rec_globals(cuda, devs, devs.len());
}

proof fn lemma_rec_globals(cuda: String, devs: Seq<DeviceReading>, n: nat)
    ensures
        sample_map_rec(cuda, devs, n).contains_key(count_key()),
        sample_map_rec(cuda, devs, n)[count_key()] == Value::Uint(devs.len() as u64),
        sample_map_rec(cuda, devs, n).contains_key(cuda_key()),
        sample_map_rec(cuda, devs, n)[cuda_key()] == Value::Text(cuda),
    decreases n,
{
    broadcast use lemma_dev_key_not_global, lemma_proc_key_not_global;

    lemma_global_keys_distinct();
    if n > 0 {
        lemma_rec_globals(cuda, devs, (n - 1) as nat);
    }
}

/// A pass that saw no devices binds exactly `cuda_version` and `gpu.count`:
/// no per-device key of any kind exists beside them.
pub proof fn lemma_sample_map_no_devices(cuda: String, devs: Seq<DeviceReading>)
    requires
        devs.len() == 0,
    ensures
        sample_map(cuda, devs).dom() == set![cuda_key(), count_key()],
{
    assert(sample_map(cuda, devs).dom() =~= set![cuda_key(), count_key()]);
}

/// The fallback record binds exactly `gpu.count`, to zero; with the
/// timestamp added, exactly `gpu.count` and `_timestamp`.
pub proof fn lemma_fallback_record(v: Value)
    ensures
        fallback_map().dom() == set![count_key()],
        fallback_map()[count_key()] == Value::Uint(0),
        fallback_map().insert(timestamp_key(), v).dom() == set![count_key(), timestamp_key()],
        fallback_map().insert(timestamp_key(), v)[count_key()] == Value::Uint(0),
        fallback_map().insert(timestamp_key(), v)[timestamp_key()] == v,
{
    lemma_global_keys_distinct();
    assert(fallback_map().dom() =~= set![count_key()]);
    assert(fallback_map().insert(timestamp_key(), v).dom() =~= set![count_key(), timestamp_key()]);
}

/// What device `i` contributes to the record of a pass: the exact derived
/// values of its metrics, optional fields present only when obtained, and
/// the `gpu.process.<i>` duplicates present exactly when the device was
/// attributed to the target process tree.
pub proof fn lemma_sample_map_device(cuda: String, devs: Seq<DeviceReading>, i: nat)
    requires
        i < devs.len(),
    ensures
        device_facts(sample_map(cuda, devs), i, devs[i as int]),
{
    lemma_rec_device(cuda, devs, i, devs.len());
}

proof fn lemma_rec_device(cuda: String, devs: Seq<DeviceReading>, i: nat, n: nat)
    requires
        i < n,
    ensures
        device_facts(sample_map_rec(cuda, devs, n), i, devs[i as int]),
    decreases n,
{
    let d = devs[i as int];
    if i == n - 1 {
        lemma_rec_no_keys_of(cuda, devs, i, (n - 1) as nat);
        let m0 = sample_map_rec(cuda, devs, (n - 1) as nat);
        lemma_with_device_required(m0, i, d);
        lemma_with_device_optional(m0, i, d);
        lemma_with_device_presence(m0, i, d);
        lemma_with_device_proc_values(m0, i, d);
    } else {
        lemma_rec_device(cuda, devs, i, (n - 1) as nat);
        lemma_with_device_preserves(
            sample_map_rec(cuda, devs, (n - 1) as nat),
            (n - 1) as nat,
            devs[n - 1],
            i,
            d,
        );
    }
}

/// Adding another device's bindings never disturbs the facts already
/// established for device `i`: its keys belong to a different index.
#[verifier::rlimit(100)]
#[verifier::spinoff_prover]
proof fn lemma_with_device_preserves(
    m0: Map<Seq<char>, Value>,
    j: nat,
    dj: DeviceReading,
    i: nat,
    d: DeviceReading,
)
    requires
        i != j,
        device_facts(m0, i, d),
    ensures
        device_facts(with_device(m0, j, dj), i, d),
{
    broadcast use lemma_dev_key_injective, lemma_proc_key_injective, lemma_dev_proc_keys_differ;

}

#[verifier::rlimit(100)]
#[verifier::spinoff_prover]
proof fn lemma_with_device_required(m0: Map<Seq<char>, Value>, i: nat, d: DeviceReading)
    requires
        forall|f: Seq<char>| !m0.contains_key(#[trigger] dev_key(i, f)),
        forall|f: Seq<char>| !m0.contains_key(#[trigger] proc_key(i, f)),
    ensures
        device_required_facts(with_device(m0, i, d), i, d),
{
    broadcast use lemma_dev_key_injective, lemma_proc_key_injective, lemma_dev_proc_keys_differ;

    lemma_field_names();
}

#[verifier::rlimit(100)]
#[verifier::spinoff_prover]
proof fn lemma_with_device_optional(m0: Map<Seq<char>, Value>, i: nat, d: DeviceReading)
    requires
        forall|f: Seq<char>| !m0.contains_key(#[trigger] dev_key(i, f)),
        forall|f: Seq<char>| !m0.contains_key(#[trigger] proc_key(i, f)),
    ensures
        device_optional_facts(with_device(m0, i, d), i, d),
{
    broadcast use lemma_dev_key_injective, lemma_proc_key_injective, lemma_dev_proc_keys_differ;

    lemma_field_names();
}

#[verifier::rlimit(100)]
#[verifier::spinoff_prover]
proof fn lemma_with_device_presence(m0: Map<Seq<char>, Value>, i: nat, d: DeviceReading)
    requires
        forall|f: Seq<char>| !m0.contains_key(#[trigger] dev_key(i, f)),
        forall|f: Seq<char>| !m0.contains_key(#[trigger] proc_key(i, f)),
    ensures
        device_process_presence(with_device(m0, i, d), i, d),
{
    broadcast use lemma_dev_key_injective, lemma_proc_key_injective, lemma_dev_proc_keys_differ;

    lemma_field_names();
}

#[verifier::rlimit(100)]
#[verifier::spinoff_prover]
proof fn lemma_with_device_proc_values(m0: Map<Seq<char>, Value>, i: nat, d: DeviceReading)
    requires
        forall|f: Seq<char>| !m0.contains_key(#[trigger] dev_key(i, f)),
        forall|f: Seq<char>| !m0.contains_key(#[trigger] proc_key(i, f)),
    ensures
        device_process_values(with_device(m0, i, d), i, d),
{
    broadcast use lemma_dev_key_injective, lemma_proc_key_injective, lemma_dev_proc_keys_differ;

    lemma_field_names();
}

/// The per-device claims of a pass, over any mapping `m`: the exact derived
/// values device `i` contributes, optional fields bound exactly when they
/// were obtained, and each `gpu.process.<i>` duplicate bound exactly when
/// the device was attributed to the target process tree (and, where the
/// derived ratio needs one, its denominator was positive).
pub open spec fn device_facts(m: Map<Seq<char>, Value>, i: nat, d: DeviceReading) -> bool {
    &&& device_required_facts(m, i, d)
    &&& device_optional_facts(m, i, d)
    &&& device_process_presence(m, i, d)
    &&& device_process_values(m, i, d)
}

/// The metrics a pass always binds for a device it sampled.
pub open spec fn device_required_facts(m: Map<Seq<char>, Value>, i: nat, d: DeviceReading) -> bool {
    &&& m.contains_pair(dev_key(i, "name"@), Value::Text(d.name))
    &&& m.contains_pair(dev_key(i, "gpu"@), Value::Uint(d.util_gpu as u64))
    &&& m.contains_pair(dev_key(i, "memory"@), Value::Uint(d.util_memory as u64))
    &&& m.contains_pair(dev_key(i, "memoryTotal"@), Value::Uint(d.memory_total))
    &&& m.contains_pair(dev_key(i, "memoryAllocatedBytes"@), Value::Uint(d.memory_used))
    &&& m.contains_pair(dev_key(i, "temp"@), Value::Uint(d.temperature as u64))
    &&& m.contains_pair(
        dev_key(i, "powerWatts"@),
        Value::Ratio { num: d.power_usage_mw as u128, den: 1000u64 },
    )
    &&& m.contains_pair(dev_key(i, "graphicsClock"@), Value::Uint(d.graphics_clock_mhz as u64))
    &&& m.contains_pair(dev_key(i, "memoryClock"@), Value::Uint(d.memory_clock_mhz as u64))
    &&& m.contains_pair(dev_key(i, "pcieLinkGen"@), Value::Uint(d.pcie_link_gen as u64))
    &&& m.contains_pair(dev_key(i, "pcieLinkWidth"@), Value::Uint(d.pcie_link_width as u64))
    &&& m.contains_pair(dev_key(i, "maxPcieLinkGen"@), Value::Uint(d.max_pcie_link_gen as u64))
    &&& m.contains_pair(dev_key(i, "maxPcieLinkWidth"@), Value::Uint(d.max_pcie_link_width as u64))
    &&& m.contains_pair(dev_key(i, "cudaCores"@), Value::Uint(d.cuda_cores as u64))
    &&& m.contains_pair(dev_key(i, "architecture"@), Value::Text(d.architecture))
}

/// The optional metrics: bound exactly when they were obtained, and, for the
/// derived ratios, when their denominator was positive.
pub open spec fn device_optional_facts(m: Map<Seq<char>, Value>, i: nat, d: DeviceReading) -> bool {
    &&& d.brand is Some ==> m.contains_pair(dev_key(i, "brand"@), Value::Text(d.brand->0))
    &&& d.brand is None ==> !m.contains_key(dev_key(i, "brand"@))
    &&& d.fan_speed is Some ==> m.contains_pair(
        dev_key(i, "fanSpeed"@),
        Value::Uint(d.fan_speed->0 as u64),
    )
    &&& d.fan_speed is None ==> !m.contains_key(dev_key(i, "fanSpeed"@))
    &&& d.encoder_util is Some ==> m.contains_pair(
        dev_key(i, "encoderUtilization"@),
        Value::Uint(d.encoder_util->0 as u64),
    )
    &&& d.encoder_util is None ==> !m.contains_key(dev_key(i, "encoderUtilization"@))
    &&& d.memory_total > 0 ==> m.contains_pair(
        dev_key(i, "memoryAllocated"@),
        Value::Ratio { num: (d.memory_used * 100) as u128, den: d.memory_total },
    )
    &&& d.memory_total == 0 ==> !m.contains_key(dev_key(i, "memoryAllocated"@))
    &&& d.power_limit_mw is Some ==> m.contains_pair(
        dev_key(i, "enforcedPowerLimitWatts"@),
        Value::Ratio { num: d.power_limit_mw->0 as u128, den: 1000u64 },
    )
    &&& d.power_limit_mw is None ==> !m.contains_key(dev_key(i, "enforcedPowerLimitWatts"@))
        && !m.contains_key(dev_key(i, "powerPercent"@))
    &&& (d.power_limit_mw is Some && d.power_limit_mw->0 > 0) ==> m.contains_pair(
        dev_key(i, "powerPercent"@),
        Value::Ratio { num: (d.power_usage_mw * 100) as u128, den: d.power_limit_mw->0 as u64 },
    )
    &&& (d.power_limit_mw is Some && d.power_limit_mw->0 == 0) ==> !m.contains_key(
        dev_key(i, "powerPercent"@),
    )
    &&& d.pcie_link_speed_mb_s is Some ==> m.contains_pair(
        dev_key(i, "pcieLinkSpeed"@),
        Value::Uint((d.pcie_link_speed_mb_s->0 * 1000000) as u64),
    )
    &&& d.pcie_link_speed_mb_s is None ==> !m.contains_key(dev_key(i, "pcieLinkSpeed"@))
}

/// Each `gpu.process.<i>` key is bound exactly when the device was
/// attributed to the target process tree (and its value was obtainable).
pub open spec fn device_process_presence(m: Map<Seq<char>, Value>, i: nat, d: DeviceReading) -> bool {
    &&& m.contains_key(proc_key(i, "gpu"@)) == d.in_use
    &&& m.contains_key(proc_key(i, "memory"@)) == d.in_use
    &&& m.contains_key(proc_key(i, "memoryAllocated"@)) == (d.in_use && d.memory_total > 0)
    &&& m.contains_key(proc_key(i, "memoryAllocatedBytes"@)) == d.in_use
    &&& m.contains_key(proc_key(i, "temp"@)) == d.in_use
    &&& m.contains_key(proc_key(i, "powerWatts"@)) == d.in_use
    &&& m.contains_key(proc_key(i, "enforcedPowerLimitWatts"@)) == (d.in_use && d.power_limit_mw
        is Some)
    &&& m.contains_key(proc_key(i, "powerPercent"@)) == (d.in_use && d.power_limit_mw is Some
        && d.power_limit_mw->0 > 0)
}

/// An attributed device's `gpu.process.<i>` keys duplicate the device values.
pub open spec fn device_process_values(m: Map<Seq<char>, Value>, i: nat, d: DeviceReading) -> bool {
    &&& d.in_use ==> m.contains_pair(proc_key(i, "gpu"@), Value::Uint(d.util_gpu as u64))
        && m.contains_pair(proc_key(i, "memory"@), Value::Uint(d.util_memory as u64))
        && m.contains_pair(proc_key(i, "temp"@), Value::Uint(d.temperature as u64))
        && m.contains_pair(
        proc_key(i, "powerWatts"@),
        Value::Ratio { num: d.power_usage_mw as u128, den: 1000u64 },
    )
    &&& (d.in_use && d.memory_total > 0) ==> m.contains_pair(
        proc_key(i, "memoryAllocated"@),
        Value::Ratio { num: (d.memory_used * 100) as u128, den: d.memory_total },
    )
    &&& d.in_use ==> m.contains_pair(
        proc_key(i, "memoryAllocatedBytes"@),
        Value::Uint(d.memory_used),
    )
    &&& (d.in_use && d.power_limit_mw is Some) ==> m.contains_pair(
        proc_key(i, "enforcedPowerLimitWatts"@),
        Value::Ratio { num: d.power_limit_mw->0 as u128, den: 1000u64 },
    )
    &&& (d.in_use && d.power_limit_mw is Some && d.power_limit_mw->0 > 0) ==> m.contains_pair(
        proc_key(i, "powerPercent"@),
        Value::Ratio { num: (d.power_usage_mw * 100) as u128, den: d.power_limit_mw->0 as u64 },
    )
}

/// The per-device field names are pairwise distinct: their lengths, and a
/// distinguishing character for the few names of equal length.
proof fn lemma_field_names()
    ensures
        "name"@.len() == 4,
        "brand"@.len() == 5,
        "fanSpeed"@.len() == 8,
        "encoderUtilization"@.len() == 18,
        "gpu"@.len() == 3,
        "memory"@.len() == 6,
        "memoryTotal"@.len() == 11,
        "memoryAllocated"@.len() == 15,
        "memoryAllocatedBytes"@.len() == 20,
        "temp"@.len() == 4,
        "powerWatts"@.len() == 10,
        "enforcedPowerLimitWatts"@.len() == 23,
        "powerPercent"@.len() == 12,
        "graphicsClock"@.len() == 13,
        "memoryClock"@.len() == 11,
        "pcieLinkGen"@.len() == 11,
        "pcieLinkSpeed"@.len() == 13,
        "pcieLinkWidth"@.len() == 13,
        "maxPcieLinkGen"@.len() == 14,
        "maxPcieLinkWidth"@.len() == 16,
        "cudaCores"@.len() == 9,
        "architecture"@.len() == 12,
        "name"@ != "temp"@,
        "memoryTotal"@ != "memoryClock"@,
        "memoryTotal"@ != "pcieLinkGen"@,
        "memoryClock"@ != "pcieLinkGen"@,
        "powerPercent"@ != "architecture"@,
        "graphicsClock"@ != "pcieLinkSpeed"@,
        "graphicsClock"@ != "pcieLinkWidth"@,
        "pcieLinkSpeed"@ != "pcieLinkWidth"@,
{
    reveal_strlit("name");
    reveal_strlit("brand");
    reveal_strlit("fanSpeed");
    reveal_strlit("encoderUtilization");
    reveal_strlit("gpu");
    reveal_strlit("memory");
    reveal_strlit("memoryTotal");
    reveal_strlit("memoryAllocated");
    reveal_strlit("memoryAllocatedBytes");
    reveal_strlit("temp");
    reveal_strlit("powerWatts");
    reveal_strlit("enforcedPowerLimitWatts");
    reveal_strlit("powerPercent");
    reveal_strlit("graphicsClock");
    reveal_strlit("memoryClock");
    reveal_strlit("pcieLinkGen");
    reveal_strlit("pcieLinkSpeed");
    reveal_strlit("pcieLinkWidth");
    reveal_strlit("maxPcieLinkGen");
    reveal_strlit("maxPcieLinkWidth");
    reveal_strlit("cudaCores");
    reveal_strlit("architecture");
    assert("name"@[0] == 'n');
    assert("temp"@[0] == 't');
    assert("memoryTotal"@[0] == 'm');
    assert("memoryClock"@[0] == 'm');
    assert("pcieLinkGen"@[0] == 'p');
    assert("memoryTotal"@[6] == 'T');
    assert("memoryClock"@[6] == 'C');
    assert("powerPercent"@[0] == 'p');
    assert("architecture"@[0] == 'a');
    assert("graphicsClock"@[0] == 'g');
    assert("pcieLinkSpeed"@[0] == 'p');
    assert("pcieLinkWidth"@[0] == 'p');
    assert("pcieLinkSpeed"@[8] == 'S');
    assert("pcieLinkWidth"@[8] == 'W');
}

} // verus!
