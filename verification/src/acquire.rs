//! Source strategies and the acquisition coordinator.
//!
//! Running an external tool is the caller's job; the coordinator is a
//! state machine over plain values. Each phase names the query whose
//! output it waits for; feeding it the outcome of that query moves it
//! on. The fallback order is fixed: the vendor CSV query first, and
//! only if it fails the two platform management queries; the first
//! success wins and later sources are never asked.

use vstd::prelude::*;
use crate::sensors::{
    GpuSensors, spec_csv_has_fields, spec_csv_record, spec_wmi_temperature, spec_usage_value,
    parse_csv_line, parse_wmi_temperature, parse_usage_value,
};
use crate::text::str_range_eq;

verus! {

/// What happened when one external command was run: whether it could
/// be launched at all, whether it finished successfully, and its
/// standard output decoded as UTF-8 (`None` when the bytes were not
/// valid UTF-8). A command that could not be launched has no output
/// and no success.
#[derive(Debug)]
pub struct CommandOutcome {
    pub launched: bool,
    pub exit_ok: bool,
    pub stdout_text: Option<String>,
}

/// Why a source strategy failed.
#[derive(Clone, Copy, Debug, PartialEq, Eq, Structural)]
pub enum SourceError {
    /// The external tool could not be launched.
    Execution,
    /// The tool ran but finished with a failure status.
    CommandFailed,
    /// The tool's output was not valid UTF-8.
    InvalidEncoding,
    /// The response was structurally incomplete.
    InsufficientData,
}

/// The decoded output of an outcome, if any.
pub open spec fn outcome_text(launched: bool, stdout_text: Option<String>) -> Option<Seq<char>> {
    if launched {
        match stdout_text {
            Some(t) => Some(t@),
            None => None,
        }
    } else {
        None
    }
}

/// What the vendor strategy makes of its query's outcome: every
/// failure of the tool is reported, and a well-formed CSV line becomes
/// a full record.
pub open spec fn spec_vendor_result(
    launched: bool,
    exit_ok: bool,
    text: Option<Seq<char>>,
) -> Result<GpuSensors, SourceError> {
    if !launched {
        Err(SourceError::Execution)
    } else if !exit_ok {
        Err(SourceError::CommandFailed)
    } else {
        match text {
            None => Err(SourceError::InvalidEncoding),
            Some(t) => if spec_csv_has_fields(t) {
                Ok(spec_csv_record(t))
            } else {
                Err(SourceError::InsufficientData)
            },
        }
    }
}

/// The vendor strategy: reads the vendor CSV query's outcome. It
/// succeeds if and only if the tool launched, finished successfully,
/// produced valid UTF-8, and the line has its six fields; each failure
/// is reported as its own error, exactly as [`spec_vendor_result`]
/// describes.
pub fn vendor_strategy(out: &CommandOutcome) -> (r: Result<GpuSensors, SourceError>)
    ensures
        r == spec_vendor_result(out.launched, out.exit_ok, outcome_text(out.launched, out.stdout_text)),
{
    if !out.launched {
        return Err(SourceError::Execution);
    }
    if !out.exit_ok {
        return Err(SourceError::CommandFailed);
    }
    match &out.stdout_text {
        None => Err(SourceError::InvalidEncoding),
        Some(t) => match parse_csv_line(t.as_str()) {
            Some(rec) => Ok(rec),
            None => Err(SourceError::InsufficientData),
        },
    }
}

/// The temperature the management-interface query's outcome yields.
/// The exit status is not consulted: the tool's output decides.
pub open spec fn spec_outcome_temperature(launched: bool, text: Option<Seq<char>>) -> Option<
    i64,
> {
    match text {
        Some(t) => if launched {
            spec_wmi_temperature(t)
        } else {
            None
        },
        None => None,
    }
}

/// Reads the management-interface temperature query's outcome.
pub fn outcome_temperature(out: &CommandOutcome) -> (r: Option<i64>)
    ensures
        r == spec_outcome_temperature(out.launched, outcome_text(out.launched, out.stdout_text)),
{
    if !out.launched {
        return None;
    }
    match &out.stdout_text {
        None => None,
        Some(t) => parse_wmi_temperature(t.as_str()),
    }
}

/// The utilization the generic platform query's outcome yields.
pub open spec fn spec_outcome_usage(launched: bool, text: Option<Seq<char>>) -> Option<i64> {
    match text {
        Some(t) => if launched {
            spec_usage_value(t)
        } else {
            None
        },
        None => None,
    }
}

/// Reads the utilization query's outcome.
pub fn outcome_usage(out: &CommandOutcome) -> (r: Option<i64>)
    ensures
        r == spec_outcome_usage(out.launched, outcome_text(out.launched, out.stdout_text)),
{
    if !out.launched {
        return None;
    }
    match &out.stdout_text {
        None => None,
        Some(t) => parse_usage_value(t.as_str()),
    }
}

/// The platform-management strategy: a composite of the two
/// best-effort sub-queries. It never fails as a whole — each sub-query
/// may individually yield absence — and it never reports fan speed,
/// power draw or memory.
pub fn platform_strategy(temperature: Option<i64>, usage: Option<i64>) -> (r: Result<
    GpuSensors,
    SourceError,
>)
    ensures
        r == Ok::<GpuSensors, SourceError>(
            (GpuSensors {
                temperature,
                usage,
                fan_speed: None,
                power_usage: None,
                memory_used: None,
                memory_total: None,
            }),
        ),
{
    Ok(
        GpuSensors {
            temperature,
            usage,
            fan_speed: None,
            power_usage: None,
            memory_used: None,
            memory_total: None,
        },
    )
}

/// The fixed record of the terminal fallback: temperature,
/// utilization, fan speed and power draw all present as a measured
/// zero, memory absent. Its distinct label keeps "no source at all"
/// apart from a real source's zero readings.
pub fn placeholder_record() -> (r: GpuSensors)
    ensures
        r == (GpuSensors {
            temperature: Some(0),
            usage: Some(0),
            fan_speed: Some(0),
            power_usage: Some(0),
            memory_used: None,
            memory_total: None,
        }),
{
    GpuSensors {
        temperature: Some(0),
        usage: Some(0),
        fan_speed: Some(0),
        power_usage: Some(0),
        memory_used: None,
        memory_total: None,
    }
}

/// The label of a record the vendor strategy produced.
pub fn vendor_label() -> (s: String)
    ensures
        s@ == "NVIDIA GPU"@,
{
    String::from_str("NVIDIA GPU")
}

/// The label of a record the platform-management strategy produced.
pub fn platform_label() -> (s: String)
    ensures
        s@ == "GPU"@,
{
    String::from_str("GPU")
}

/// The label of the terminal fallback record.
pub fn placeholder_label() -> (s: String)
    ensures
        s@ == "GPU (данные недоступны)"@,
{
    String::from_str("GPU (данные недоступны)")
}

/// One labeled sensor record.
#[derive(Debug)]
pub struct SensorEntry {
    pub label: String,
    pub record: GpuSensors,
}

/// The mapping from source label to sensor record. Rebuilt from empty
/// on every refresh, never merged; labels are unique; insertion order
/// carries no meaning.
#[derive(Debug)]
pub struct SensorCollection {
    pub entries: Vec<SensorEntry>,
}

impl View for SensorCollection {
    type V = Seq<(Seq<char>, GpuSensors)>;

    open spec fn view(&self) -> Seq<(Seq<char>, GpuSensors)> {
        self.entries@.map_values(|e: SensorEntry| (e.label@, e.record))
    }
}

impl SensorCollection {
    /// Labels are pairwise distinct.
    pub open spec fn wf(&self) -> bool {
        forall|i: int, j: int|
            0 <= i < j < self@.len() ==> (#[trigger] self@[i]).0 != (#[trigger] self@[j]).0
    }

    /// An empty collection.
    pub fn new() -> (c: SensorCollection)
        ensures
            c@ == Seq::<(Seq<char>, GpuSensors)>::empty(),
            c.wf(),
    {
        let c = SensorCollection { entries: Vec::new() };
        proof {
            assert(c@ =~= Seq::<(Seq<char>, GpuSensors)>::empty());
        }
        c
    }

    /// The collection holding exactly one labeled record.
    pub fn singleton(label: String, record: GpuSensors) -> (c: SensorCollection)
        ensures
            c@ == seq![(label@, record)],
            c.wf(),
    {
        let mut entries: Vec<SensorEntry> = Vec::new();
        entries.push(SensorEntry { label, record });
        let c = SensorCollection { entries };
        proof {
            assert(c@ =~= seq![(label@, record)]);
        }
        c
    }

    /// How many sources reported.
    pub fn len(&self) -> (n: usize)
        ensures
            n == self@.len(),
    {
        self.entries.len()
    }

    /// The record some entry holds under `label`, or `None` if no
    /// entry does.
    pub fn get(&self, label: &str) -> (r: Option<&GpuSensors>)
        ensures
            match r {
                Some(rec) => exists|i: int|
                    0 <= i < self@.len() && (#[trigger] self@[i]).0 == label@ && self@[i].1
                        == *rec,
                None => forall|i: int|
                    0 <= i < self@.len() ==> (#[trigger] self@[i]).0 != label@,
            },
    {
        let mut i: usize = 0;
        while i < self.entries.len()
            invariant
                i <= self.entries@.len(),
                forall|j: int| 0 <= j < i ==> (#[trigger] self@[j]).0 != label@,
            decreases self.entries@.len() - i,
        {
            let a = self.entries[i].label.as_str();
            let n = a.unicode_len();
            proof {
                assert(a@.subrange(0, a@.len() as int) =~= a@);
                assert(self@[i as int] == (self.entries@[i as int].label@,
                    self.entries@[i as int].record));
            }
            if str_range_eq(a, 0, n, label) {
                return Some(&self.entries[i].record);
            }
            i = i + 1;
        }
        None
    }
}

/// Which external query the coordinator is waiting for.
#[derive(Clone, Copy, Debug, PartialEq, Eq, Structural)]
pub enum Query {
    /// The vendor diagnostic tool's CSV sensor query.
    VendorCsv,
    /// The management-interface temperature query.
    PlatformTemperature,
    /// The generic platform utilization query.
    PlatformUsage,
}

/// The coordinator's state: an ordered fallback chain run one external
/// outcome at a time.
#[derive(Debug)]
pub enum AcquisitionPhase {
    /// Waiting for the vendor CSV query.
    VendorPending,
    /// The vendor strategy failed; waiting for the temperature query.
    TemperaturePending,
    /// Waiting for the utilization query, the temperature sub-query
    /// already answered.
    UsagePending { temperature: Option<i64> },
    /// The collection is complete; nothing further will be asked.
    Complete { sensors: SensorCollection },
}

impl AcquisitionPhase {
    /// A fresh acquisition: the vendor source is asked first.
    pub fn start() -> (p: AcquisitionPhase)
        ensures
            p is VendorPending,
    {
        AcquisitionPhase::VendorPending
    }

    /// The query whose outcome the coordinator waits for, or `None`
    /// once the collection is complete. A completed acquisition asks
    /// nothing more: the untried sources stay untried.
    pub fn pending_query(&self) -> (q: Option<Query>)
        ensures
            self is VendorPending <==> q == Some(Query::VendorCsv),
            self is TemperaturePending <==> q == Some(Query::PlatformTemperature),
            self is UsagePending <==> q == Some(Query::PlatformUsage),
            self is Complete <==> q is None,
    {
        match self {
            AcquisitionPhase::VendorPending => Some(Query::VendorCsv),
            AcquisitionPhase::TemperaturePending => Some(Query::PlatformTemperature),
            AcquisitionPhase::UsagePending { .. } => Some(Query::PlatformUsage),
            AcquisitionPhase::Complete { .. } => None,
        }
    }

    /// Feeds the coordinator the outcome of the query it was waiting
    /// for. First success wins: a vendor record completes the
    /// acquisition under the vendor label and the platform queries are
    /// never asked; a vendor failure of any kind falls back to the
    /// platform-management strategy, whose composite record completes
    /// the acquisition under the generic label.
    pub fn step(self, outcome: CommandOutcome) -> (r: AcquisitionPhase)
        ensures
            self is VendorPending ==> match spec_vendor_result(
                outcome.launched,
                outcome.exit_ok,
                outcome_text(outcome.launched, outcome.stdout_text),
            ) {
                Ok(rec) => (r matches AcquisitionPhase::Complete { sensors } && sensors@
                    == seq![("NVIDIA GPU"@, rec)] && sensors.wf()),
                Err(_) => r is TemperaturePending,
            },
            self is TemperaturePending ==> (r matches AcquisitionPhase::UsagePending {
                temperature,
            } && temperature == spec_outcome_temperature(
                outcome.launched,
                outcome_text(outcome.launched, outcome.stdout_text),
            )),
            self matches AcquisitionPhase::UsagePending { temperature } ==> (r matches
                AcquisitionPhase::Complete { sensors } && sensors@ == seq![
                ("GPU"@, GpuSensors {
                    temperature,
                    usage: spec_outcome_usage(
                        outcome.launched,
                        outcome_text(outcome.launched, outcome.stdout_text),
                    ),
                    fan_speed: None,
                    power_usage: None,
                    memory_used: None,
                    memory_total: None,
                }),
            ] && sensors.wf()),
            self matches AcquisitionPhase::Complete { sensors } ==> (r matches
                AcquisitionPhase::Complete { sensors: s2 } && s2@ == sensors@),
    {
        match self {
            AcquisitionPhase::VendorPending => match vendor_strategy(&outcome) {
                Ok(rec) => AcquisitionPhase::Complete {
                    sensors: SensorCollection::singleton(vendor_label(), rec),
                },
                Err(_) => AcquisitionPhase::TemperaturePending,
            },
            AcquisitionPhase::TemperaturePending => AcquisitionPhase::UsagePending {
                temperature: outcome_temperature(&outcome),
            },
            AcquisitionPhase::UsagePending { temperature } => {
                match platform_strategy(temperature, outcome_usage(&outcome)) {
                    Ok(rec) => AcquisitionPhase::Complete {
                        sensors: SensorCollection::singleton(platform_label(), rec),
                    },
                    // The platform strategy never fails, so this terminal
                    // fallback cannot currently be reached; it stands so
                    // that a strategy that could fail would still leave
                    // the collection non-empty, under a label that keeps
                    // "no source at all" apart from measured zeros.
                    Err(_) => AcquisitionPhase::Complete {
                        sensors: SensorCollection::singleton(
                            placeholder_label(),
                            placeholder_record(),
                        ),
                    },
                }
            },
            AcquisitionPhase::Complete { sensors } => AcquisitionPhase::Complete { sensors },
        }
    }
}

} // verus!
