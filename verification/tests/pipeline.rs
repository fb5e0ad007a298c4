use gpu_monitor::acquire::{
    outcome_temperature, outcome_usage, placeholder_label, placeholder_record, platform_label,
    platform_strategy, vendor_label, vendor_strategy, AcquisitionPhase, CommandOutcome, Query,
    SensorCollection, SourceError,
};
use gpu_monitor::config::AppConfig;
use gpu_monitor::schedule::Monitor;
use gpu_monitor::sensors::GpuSensors;

fn ok_outcome(text: &str) -> CommandOutcome {
    CommandOutcome {
        launched: true,
        exit_ok: true,
        stdout_text: Some(text.to_string()),
    }
}

fn not_launched() -> CommandOutcome {
    CommandOutcome {
        launched: false,
        exit_ok: false,
        stdout_text: None,
    }
}

#[test]
fn vendor_strategy_reports_each_failure_kind() {
    assert_eq!(vendor_strategy(&not_launched()).unwrap_err(), SourceError::Execution);
    let failed = CommandOutcome {
        launched: true,
        exit_ok: false,
        stdout_text: Some(String::new()),
    };
    assert_eq!(vendor_strategy(&failed).unwrap_err(), SourceError::CommandFailed);
    let undecodable = CommandOutcome {
        launched: true,
        exit_ok: true,
        stdout_text: None,
    };
    assert_eq!(vendor_strategy(&undecodable).unwrap_err(), SourceError::InvalidEncoding);
    let short = ok_outcome("45,30");
    assert_eq!(vendor_strategy(&short).unwrap_err(), SourceError::InsufficientData);
}

#[test]
fn vendor_strategy_parses_full_line() {
    let out = ok_outcome("45, 30, 60, 120.5, 2048, 8192\n");
    let rec = vendor_strategy(&out).unwrap();
    assert_eq!(rec.temperature, Some(45_000));
    assert_eq!(rec.usage, Some(30_000));
    assert_eq!(rec.fan_speed, Some(60_000));
    assert_eq!(rec.power_usage, Some(120_500));
    assert_eq!(rec.memory_used, Some(2_048_000));
    assert_eq!(rec.memory_total, Some(8_192_000));
}

#[test]
fn platform_strategy_never_fails() {
    let r = platform_strategy(None, None).unwrap();
    assert_eq!(r.temperature, None);
    assert_eq!(r.usage, None);
    assert_eq!(r.fan_speed, None);
    assert_eq!(r.power_usage, None);
    let r = platform_strategy(Some(44_950), Some(55_000)).unwrap();
    assert_eq!(r.temperature, Some(44_950));
    assert_eq!(r.usage, Some(55_000));
    assert_eq!(r.memory_used, None);
}

#[test]
fn placeholder_is_zeros_not_absence_under_its_own_label() {
    let r = placeholder_record();
    assert_eq!(r.temperature, Some(0));
    assert_eq!(r.usage, Some(0));
    assert_eq!(r.fan_speed, Some(0));
    assert_eq!(r.power_usage, Some(0));
    assert_eq!(r.memory_used, None);
    assert_eq!(r.memory_total, None);
    assert_ne!(placeholder_label(), vendor_label());
    assert_ne!(placeholder_label(), platform_label());
}

#[test]
fn source_labels_are_fixed() {
    assert_eq!(vendor_label(), "NVIDIA GPU");
    assert_eq!(platform_label(), "GPU");
    assert_eq!(placeholder_label(), "GPU (данные недоступны)");
}

#[test]
fn fallback_vendor_success_stops_the_chain() {
    let mut queries_run = 0;
    let mut phase = AcquisitionPhase::start();
    while let Some(query) = phase.pending_query() {
        assert_eq!(queries_run, 0, "only the vendor query may run");
        assert_eq!(query, Query::VendorCsv);
        queries_run += 1;
        phase = phase.step(ok_outcome("45,30,60,120.5,2048,8192"));
    }
    assert_eq!(queries_run, 1);
    let sensors = match phase {
        AcquisitionPhase::Complete { sensors } => sensors,
        _ => panic!("acquisition did not complete"),
    };
    assert_eq!(sensors.len(), 1);
    let rec = sensors.get("NVIDIA GPU").expect("vendor label present");
    assert_eq!(rec.temperature, Some(45_000));
    assert!(sensors.get("GPU").is_none());
}

#[test]
fn fallback_vendor_failure_uses_platform_queries() {
    let mut phase = AcquisitionPhase::start();
    let mut asked = Vec::new();
    while let Some(query) = phase.pending_query() {
        asked.push(query);
        let outcome = match query {
            Query::VendorCsv => not_launched(),
            Query::PlatformTemperature => ok_outcome("CurrentTemperature=3181\n"),
            Query::PlatformUsage => ok_outcome("55\n"),
        };
        phase = phase.step(outcome);
    }
    assert_eq!(
        asked,
        vec![Query::VendorCsv, Query::PlatformTemperature, Query::PlatformUsage]
    );
    let sensors = match phase {
        AcquisitionPhase::Complete { sensors } => sensors,
        _ => panic!("acquisition did not complete"),
    };
    assert_eq!(sensors.len(), 1);
    let rec = sensors.get("GPU").expect("platform label present");
    assert_eq!(rec.temperature, Some(44_950));
    assert_eq!(rec.usage, Some(55_000));
    assert_eq!(rec.fan_speed, None);
    assert_eq!(rec.power_usage, None);
    assert_eq!(rec.memory_used, None);
    assert_eq!(rec.memory_total, None);
    assert!(sensors.get("NVIDIA GPU").is_none());
}

#[test]
fn platform_subqueries_tolerate_failure_individually() {
    assert_eq!(outcome_temperature(&not_launched()), None);
    assert_eq!(outcome_usage(&not_launched()), None);
    let bad = CommandOutcome {
        launched: true,
        exit_ok: true,
        stdout_text: None,
    };
    assert_eq!(outcome_temperature(&bad), None);
    assert_eq!(outcome_usage(&bad), None);
    // The exit status is not consulted for these best-effort queries.
    let odd_exit = CommandOutcome {
        launched: true,
        exit_ok: false,
        stdout_text: Some("CurrentTemperature=3181".to_string()),
    };
    assert_eq!(outcome_temperature(&odd_exit), Some(44_950));
}

#[test]
fn sensor_collection_lookup() {
    let c = SensorCollection::new();
    assert_eq!(c.len(), 0);
    assert!(c.get("GPU").is_none());
    let mut rec = GpuSensors::new();
    rec.temperature = Some(1_000);
    let c = SensorCollection::singleton(platform_label(), rec);
    assert_eq!(c.len(), 1);
    assert_eq!(c.get("GPU").unwrap().temperature, Some(1_000));
    assert!(c.get("NVIDIA GPU").is_none());
}

#[test]
fn config_defaults() {
    let c = AppConfig::default();
    assert_eq!(c.update_interval, 2000);
    assert_eq!(c.temperature_warning, 75_000);
    assert_eq!(c.temperature_critical, 85_000);
}

#[test]
fn staleness_window() {
    let config = AppConfig::default();
    let m = Monitor::new(config, Vec::new(), SensorCollection::new(), 10_000);
    // Immediately after a refresh, reads inside the interval are fresh.
    assert!(!m.is_stale(10_000));
    assert!(!m.is_stale(11_999));
    // Once the interval has elapsed, the snapshot is stale.
    assert!(m.is_stale(12_000));
    assert!(m.is_stale(20_000));
    // A clock that moved backwards counts as stale.
    assert!(m.is_stale(9_000));
}

#[test]
fn refresh_updates_timestamp_and_restores_freshness() {
    let config = AppConfig::default();
    let mut m = Monitor::new(config, Vec::new(), SensorCollection::new(), 10_000);
    assert!(m.is_stale(12_345));
    let mut rec = GpuSensors::new();
    rec.usage = Some(5_000);
    m.install(Vec::new(), SensorCollection::singleton(vendor_label(), rec), 12_345);
    assert_eq!(m.snapshot().refreshed_at_ms, 12_345);
    assert!(!m.is_stale(12_345));
    assert!(!m.is_stale(14_344));
    assert!(m.is_stale(14_345));
}

#[test]
fn fresh_reads_are_identical() {
    let config = AppConfig::default();
    let mut rec = GpuSensors::new();
    rec.temperature = Some(44_950);
    let m = Monitor::new(
        config,
        parse_wmic_output_sample(),
        SensorCollection::singleton(vendor_label(), rec),
        10_000,
    );
    // Two reads within one fresh window: no refresh may intervene, and
    // the observed content is identical.
    assert!(!m.is_stale(10_500));
    let first = m.snapshot();
    let first_names: Vec<String> = first.gpu_info.iter().map(|g| g.name.clone()).collect();
    let first_temp = first.sensors.get("NVIDIA GPU").unwrap().temperature;
    let first_stamp = first.refreshed_at_ms;
    assert!(!m.is_stale(11_000));
    let second = m.snapshot();
    let second_names: Vec<String> = second.gpu_info.iter().map(|g| g.name.clone()).collect();
    assert_eq!(first_names, second_names);
    assert_eq!(second.sensors.get("NVIDIA GPU").unwrap().temperature, first_temp);
    assert_eq!(second.refreshed_at_ms, first_stamp);
}

fn parse_wmic_output_sample() -> Vec<gpu_monitor::info::GpuInfo> {
    gpu_monitor::info::parse_wmic_output("Name=A\nStatus=OK\n\nName=B\n")
}
