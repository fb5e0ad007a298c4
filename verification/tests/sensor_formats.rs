use gpu_monitor::sensors::{
    parse_csv_line, parse_usage_value, parse_wmi_temperature, GpuSensors,
};

#[test]
fn sensors_new_has_every_field_absent() {
    let s = GpuSensors::new();
    assert_eq!(s.temperature, None);
    assert_eq!(s.usage, None);
    assert_eq!(s.fan_speed, None);
    assert_eq!(s.power_usage, None);
    assert_eq!(s.memory_used, None);
    assert_eq!(s.memory_total, None);
}

#[test]
fn csv_six_fields_all_present() {
    let r = parse_csv_line("45,30,60,120.5,2048,8192").unwrap();
    assert_eq!(r.temperature, Some(45_000));
    assert_eq!(r.usage, Some(30_000));
    assert_eq!(r.fan_speed, Some(60_000));
    assert_eq!(r.power_usage, Some(120_500));
    assert_eq!(r.memory_used, Some(2_048_000));
    assert_eq!(r.memory_total, Some(8_192_000));
}

#[test]
fn csv_two_fields_is_insufficient() {
    assert!(parse_csv_line("45,30").is_none());
    assert!(parse_csv_line("").is_none());
    assert!(parse_csv_line("1,2,3,4,5").is_none());
}

#[test]
fn csv_non_numeric_field_does_not_invalidate_siblings() {
    let r = parse_csv_line("abc,30,60,120.5,2048,8192").unwrap();
    assert_eq!(r.temperature, None);
    assert_eq!(r.usage, Some(30_000));
    assert_eq!(r.fan_speed, Some(60_000));
    assert_eq!(r.power_usage, Some(120_500));
    assert_eq!(r.memory_used, Some(2_048_000));
    assert_eq!(r.memory_total, Some(8_192_000));
}

#[test]
fn csv_fields_and_line_are_trimmed() {
    let r = parse_csv_line(" 45 , 30 ,60, 120.5 ,2048, 8192 \n").unwrap();
    assert_eq!(r.temperature, Some(45_000));
    assert_eq!(r.power_usage, Some(120_500));
    assert_eq!(r.memory_total, Some(8_192_000));
}

#[test]
fn csv_extra_fields_are_ignored() {
    let r = parse_csv_line("1,2,3,4,5,6,7,8").unwrap();
    assert_eq!(r.temperature, Some(1_000));
    assert_eq!(r.memory_total, Some(6_000));
}

#[test]
fn csv_negative_and_fractional_values() {
    let r = parse_csv_line("-12.25,0,0.5,+3,0.0009,9").unwrap();
    assert_eq!(r.temperature, Some(-12_250));
    assert_eq!(r.usage, Some(0));
    assert_eq!(r.fan_speed, Some(500));
    assert_eq!(r.power_usage, Some(3_000));
    // A fourth fractional digit carries less than a thousandth.
    assert_eq!(r.memory_used, Some(0));
    assert_eq!(r.memory_total, Some(9_000));
}

#[test]
fn wmi_temperature_kelvin_tenths_transform() {
    // 3181 tenths of Kelvin is 318.1 K, which is 44.95 degrees Celsius.
    let t = parse_wmi_temperature("CurrentTemperature=3181\n");
    assert_eq!(t, Some(44_950));
}

#[test]
fn wmi_temperature_scans_past_other_lines() {
    let out = "\nInstanceName=ACPI\\ThermalZone\\THM__0\nCurrentTemperature=3181\n\n";
    assert_eq!(parse_wmi_temperature(out), Some(44_950));
}

#[test]
fn wmi_temperature_skips_unparsable_then_reads_next() {
    let out = "CurrentTemperature=abc\nCurrentTemperature=2981\n";
    // 2981 tenths of Kelvin is 298.1 K, which is 24.95 degrees Celsius.
    assert_eq!(parse_wmi_temperature(out), Some(24_950));
}

#[test]
fn wmi_temperature_missing_prefix_is_absent() {
    assert_eq!(parse_wmi_temperature(""), None);
    assert_eq!(parse_wmi_temperature("Temperature=3181\n"), None);
    assert_eq!(parse_wmi_temperature("CurrentTemperature=\n"), None);
}

#[test]
fn wmi_temperature_freezing_point() {
    // 2731.5 tenths of Kelvin is exactly 273.15 K, zero Celsius.
    assert_eq!(parse_wmi_temperature("CurrentTemperature=2731.5"), Some(0));
}

#[test]
fn usage_value_is_trimmed_and_parsed() {
    assert_eq!(parse_usage_value("42.5\n"), Some(42_500));
    assert_eq!(parse_usage_value("  7  "), Some(7_000));
}

#[test]
fn usage_value_absent_on_garbage() {
    assert_eq!(parse_usage_value(""), None);
    assert_eq!(parse_usage_value("N/A"), None);
    assert_eq!(parse_usage_value("12,5"), None);
}
