use gpu_stats::sampler::{
    add_sampling_duration, add_timestamp, build_sample_record, cuda_version_string,
    sample_metrics_fallback, DeviceReading,
};

fn reading() -> DeviceReading {
    DeviceReading {
        name: String::from("Device A"),
        brand: Some(String::from("GeForce")),
        fan_speed: Some(35),
        encoder_util: Some(0),
        util_gpu: 42,
        util_memory: 17,
        memory_used: 1_073_741_824,
        memory_total: 4_294_967_296,
        temperature: 61,
        power_usage_mw: 150_000,
        power_limit_mw: Some(300_000),
        graphics_clock_mhz: 1800,
        memory_clock_mhz: 7000,
        pcie_link_gen: 4,
        pcie_link_speed_mb_s: Some(16),
        pcie_link_width: 16,
        max_pcie_link_gen: 4,
        max_pcie_link_width: 16,
        cuda_cores: 3584,
        architecture: String::from("Ampere"),
        in_use: false,
    }
}

fn build_line(devs: &Vec<DeviceReading>, timestamp_micros: u64) -> serde_json::Value {
    let cuda = String::from("12.4");
    let mut rec = build_sample_record(&cuda, devs);
    add_timestamp(&mut rec, timestamp_micros);
    let line = rec.to_json_line();
    serde_json::from_str(&line).expect("line must be valid JSON")
}

#[test]
fn every_pass_line_is_json_with_count_and_timestamp() {
    let devs = vec![reading()];
    let parsed = build_line(&devs, 1_700_000_000_000_000);
    assert_eq!(parsed["gpu.count"].as_u64().unwrap(), 1);
    assert!(parsed.get("_timestamp").is_some());
    assert_eq!(parsed["cuda_version"].as_str().unwrap(), "12.4");
}

#[test]
fn memory_allocated_is_used_over_total_times_hundred() {
    let devs = vec![reading()];
    let parsed = build_line(&devs, 1);
    let allocated = parsed["gpu.0.memoryAllocated"].as_f64().unwrap();
    assert!((allocated - 25.0).abs() < 1e-9);
    assert_eq!(
        parsed["gpu.0.memoryAllocatedBytes"].as_u64().unwrap(),
        1_073_741_824
    );
    assert_eq!(
        parsed["gpu.0.memoryTotal"].as_u64().unwrap(),
        4_294_967_296
    );
}

#[test]
fn power_percent_is_usage_over_limit_times_hundred() {
    let devs = vec![reading()];
    let parsed = build_line(&devs, 1);
    let watts = parsed["gpu.0.powerWatts"].as_f64().unwrap();
    assert!((watts - 150.0).abs() < 1e-9);
    let limit = parsed["gpu.0.enforcedPowerLimitWatts"].as_f64().unwrap();
    assert!((limit - 300.0).abs() < 1e-9);
    let percent = parsed["gpu.0.powerPercent"].as_f64().unwrap();
    assert!((percent - 50.0).abs() < 1e-9);
}

#[test]
fn pcie_link_speed_converts_mb_per_lane_to_bytes() {
    let devs = vec![reading()];
    let parsed = build_line(&devs, 1);
    assert_eq!(parsed["gpu.0.pcieLinkSpeed"].as_u64().unwrap(), 16_000_000);
}

#[test]
fn optional_metrics_are_omitted_when_unavailable() {
    let mut d = reading();
    d.brand = None;
    d.fan_speed = None;
    d.encoder_util = None;
    d.power_limit_mw = None;
    d.pcie_link_speed_mb_s = None;
    let parsed = build_line(&vec![d], 1);
    assert!(parsed.get("gpu.0.brand").is_none());
    assert!(parsed.get("gpu.0.fanSpeed").is_none());
    assert!(parsed.get("gpu.0.encoderUtilization").is_none());
    assert!(parsed.get("gpu.0.enforcedPowerLimitWatts").is_none());
    assert!(parsed.get("gpu.0.powerPercent").is_none());
    assert!(parsed.get("gpu.0.pcieLinkSpeed").is_none());
    assert!(parsed.get("gpu.0.name").is_some());
}

#[test]
fn zero_denominators_omit_the_derived_ratios() {
    let mut d = reading();
    d.memory_total = 0;
    d.power_limit_mw = Some(0);
    let parsed = build_line(&vec![d], 1);
    assert!(parsed.get("gpu.0.memoryAllocated").is_none());
    assert!(parsed.get("gpu.0.powerPercent").is_none());
    assert_eq!(parsed["gpu.0.memoryTotal"].as_u64().unwrap(), 0);
    let limit = parsed["gpu.0.enforcedPowerLimitWatts"].as_f64().unwrap();
    assert!(limit.abs() < 1e-9);
}

#[test]
fn attributed_device_duplicates_metrics_under_process_namespace() {
    let mut d = reading();
    d.in_use = true;
    let parsed = build_line(&vec![d], 1);
    assert!(parsed.get("gpu.process.0.gpu").is_some());
    assert!(parsed.get("gpu.process.0.memory").is_some());
    assert!(parsed.get("gpu.process.0.memoryAllocated").is_some());
    assert!(parsed.get("gpu.process.0.memoryAllocatedBytes").is_some());
    assert!(parsed.get("gpu.process.0.temp").is_some());
    assert!(parsed.get("gpu.process.0.powerWatts").is_some());
    assert!(parsed.get("gpu.process.0.enforcedPowerLimitWatts").is_some());
    assert!(parsed.get("gpu.process.0.powerPercent").is_some());
    assert_eq!(
        parsed["gpu.process.0.memory"].as_u64().unwrap(),
        parsed["gpu.0.memory"].as_u64().unwrap()
    );
}

#[test]
fn unattributed_device_has_no_process_keys() {
    let parsed = build_line(&vec![reading()], 1);
    for (key, _) in parsed.as_object().unwrap() {
        assert!(!key.starts_with("gpu.process."), "unexpected key {}", key);
    }
}

#[test]
fn attribution_is_per_device() {
    let mut first = reading();
    first.in_use = true;
    let second = reading();
    let parsed = build_line(&vec![first, second], 1);
    assert_eq!(parsed["gpu.count"].as_u64().unwrap(), 2);
    assert!(parsed.get("gpu.process.0.memory").is_some());
    assert!(parsed.get("gpu.process.1.memory").is_none());
    assert!(parsed.get("gpu.1.memory").is_some());
}

#[test]
fn empty_device_list_has_no_gpu_keys_beside_count() {
    let parsed = build_line(&Vec::new(), 1);
    assert_eq!(parsed["gpu.count"].as_u64().unwrap(), 0);
    let keys: Vec<&String> = parsed.as_object().unwrap().keys().collect();
    assert_eq!(keys.len(), 3);
    assert!(parsed.get("cuda_version").is_some());
    assert!(parsed.get("_timestamp").is_some());
}

#[test]
fn fallback_lines_hold_exactly_count_and_timestamp() {
    let mut previous = 0.0f64;
    for pass in 0..5u64 {
        let micros = 1_700_000_000_000_000 + pass * 1_000_000 + 123_456;
        let mut rec = sample_metrics_fallback();
        add_timestamp(&mut rec, micros);
        let line = rec.to_json_line();
        let parsed: serde_json::Value = serde_json::from_str(&line).unwrap();
        let obj = parsed.as_object().unwrap();
        assert_eq!(obj.len(), 2);
        assert_eq!(obj["gpu.count"].as_u64().unwrap(), 0);
        let ts = obj["_timestamp"].as_f64().unwrap();
        assert!(ts > previous);
        previous = ts;
    }
}

#[test]
fn fallback_line_text_is_exact() {
    let mut rec = sample_metrics_fallback();
    add_timestamp(&mut rec, 1_700_000_000_123_456);
    assert_eq!(
        rec.to_json_line(),
        "{\"_timestamp\":1700000000.123456,\"gpu.count\":0}"
    );
}

#[test]
fn sampling_duration_is_recorded() {
    let mut rec = build_sample_record(&String::from("12.4"), &Vec::new());
    add_sampling_duration(&mut rec, 37);
    let parsed: serde_json::Value = serde_json::from_str(&rec.to_json_line()).unwrap();
    assert_eq!(parsed["_sampling_duration_ms"].as_u64().unwrap(), 37);
}

#[test]
fn memory_allocated_is_exact_at_the_largest_sizes() {
    let mut d = reading();
    d.memory_used = u64::MAX;
    d.memory_total = u64::MAX;
    let parsed = build_line(&vec![d], 1);
    let allocated = parsed["gpu.0.memoryAllocated"].as_f64().unwrap();
    assert!((allocated - 100.0).abs() < 1e-9);
    assert_eq!(
        parsed["gpu.0.memoryAllocatedBytes"].as_u64().unwrap(),
        u64::MAX
    );
}

#[test]
fn attribution_flows_from_process_sets_into_the_record() {
    let ours = vec![100, 4242];
    let compute = vec![4242];
    let graphics: Vec<u32> = Vec::new();
    let mut first = reading();
    first.in_use = gpu_stats::attribution::device_in_use(&ours, &compute, &graphics);
    let other_compute = vec![9999];
    let mut second = reading();
    second.in_use = gpu_stats::attribution::device_in_use(&ours, &other_compute, &graphics);
    let parsed = build_line(&vec![first, second], 1);
    assert!(parsed.get("gpu.process.0.memory").is_some());
    assert!(parsed.get("gpu.process.1.memory").is_none());
}

#[test]
fn cuda_version_text_is_major_dot_minor() {
    assert_eq!(cuda_version_string(12040), "12.4");
    assert_eq!(cuda_version_string(11080), "11.8");
    assert_eq!(cuda_version_string(0), "0.0");
}
