//! Live sensor readings and the parsers for the three raw sensor
//! formats: the vendor CSV line, the management-interface temperature
//! line, and the bare utilization percentage.
//!
//! Readings are carried in thousandths of their unit (milli-degrees
//! Celsius, milli-percent, milli-watts, milli-megabytes), so every
//! conversion is exact integer arithmetic. A field is `None` exactly
//! when the source never reported it or the reported text failed
//! numeric parsing: absence is never conflated with a measured zero.

use vstd::prelude::*;
use crate::text::{
    spec_trim, spec_split, spec_parse_milli, trim_range, split_ranges, parse_milli,
    str_range_eq,
};

verus! {

/// One source's readings. Every field is independently optional.
#[derive(Clone, Copy, Debug)]
pub struct GpuSensors {
    /// Temperature in milli-degrees Celsius.
    pub temperature: Option<i64>,
    /// Utilization in milli-percent.
    pub usage: Option<i64>,
    /// Fan speed in milli-percent.
    pub fan_speed: Option<i64>,
    /// Power draw in milli-watts.
    pub power_usage: Option<i64>,
    /// Memory in use, in milli-megabytes.
    pub memory_used: Option<i64>,
    /// Memory available, in milli-megabytes.
    pub memory_total: Option<i64>,
}

impl GpuSensors {
    /// A record with every reading absent.
    pub fn new() -> (r: GpuSensors)
        ensures
            r == (GpuSensors {
                temperature: None,
                usage: None,
                fan_speed: None,
                power_usage: None,
                memory_used: None,
                memory_total: None,
            }),
    {
        GpuSensors {
            temperature: None,
            usage: None,
            fan_speed: None,
            power_usage: None,
            memory_used: None,
            memory_total: None,
        }
    }
}

/// What a well-formed vendor CSV line means: the whole input trimmed,
/// cut at commas, and the first six fields read independently as
/// decimal numbers, in the fixed order temperature, utilization, fan
/// speed, power draw, memory used, memory total. A field that fails
/// numeric parsing is absent without invalidating its siblings.
pub open spec fn spec_csv_record(s: Seq<char>) -> GpuSensors {
    let fields = spec_split(spec_trim(s), ',');
    GpuSensors {
        temperature: spec_parse_milli(spec_trim(fields[0])),
        usage: spec_parse_milli(spec_trim(fields[1])),
        fan_speed: spec_parse_milli(spec_trim(fields[2])),
        power_usage: spec_parse_milli(spec_trim(fields[3])),
        memory_used: spec_parse_milli(spec_trim(fields[4])),
        memory_total: spec_parse_milli(spec_trim(fields[5])),
    }
}

/// Whether the vendor CSV line has the six comma-separated fields the
/// record requires.
pub open spec fn spec_csv_has_fields(s: Seq<char>) -> bool {
    spec_split(spec_trim(s), ',').len() >= 6
}

/// Parses one vendor CSV line. Returns `None` exactly when fewer than
/// six comma-separated fields are present (the caller reports that as
/// structurally insufficient data); otherwise the record of
/// [`spec_csv_record`].
pub fn parse_csv_line(s: &str) -> (r: Option<GpuSensors>)
    ensures
        r is Some <==> spec_csv_has_fields(s@),
        r matches Some(g) ==> g == spec_csv_record(s@),
{
    let n = s.unicode_len();
    proof {
        assert(s@.subrange(0, s@.len() as int) =~= s@);
    }
    let (a, b) = trim_range(s, 0, n);
    let fields = split_ranges(s, a, b, ',');
    let ghost pieces = spec_split(spec_trim(s@), ',');
    if fields.len() < 6 {
        return None;
    }
    let v0 = field_value(s, &fields, 0);
    let v1 = field_value(s, &fields, 1);
    let v2 = field_value(s, &fields, 2);
    let v3 = field_value(s, &fields, 3);
    let v4 = field_value(s, &fields, 4);
    let v5 = field_value(s, &fields, 5);
    proof {
        let fmap = fields@.map_values(|p: (usize, usize)| s@.subrange(p.0 as int, p.1 as int));
        assert(forall|j: int|
            0 <= j < fields@.len() ==> #[trigger] pieces[j] == s@.subrange(
                fields@[j].0 as int,
                fields@[j].1 as int,
            )) by {
            assert(forall|j: int|
                0 <= j < fields@.len() ==> #[trigger] fmap[j] == s@.subrange(
                    fields@[j].0 as int,
                    fields@[j].1 as int,
                ));
        }
    }
    Some(GpuSensors {
        temperature: v0,
        usage: v1,
        fan_speed: v2,
        power_usage: v3,
        memory_used: v4,
        memory_total: v5,
    })
}

/// Trims and reads one comma-separated field of a vendor CSV line.
fn field_value(s: &str, fields: &Vec<(usize, usize)>, i: usize) -> (r: Option<i64>)
    requires
        i < fields@.len(),
        forall|j: int|
            0 <= j < fields@.len() ==> 0 <= (#[trigger] fields@[j]).0 <= fields@[j].1
                <= s@.len(),
    ensures
        r == spec_parse_milli(
            spec_trim(s@.subrange(fields@[i as int].0 as int, fields@[i as int].1 as int)),
        ),
{
    let x = fields[i].0;
    let y = fields[i].1;
    let (ta, tb) = trim_range(s, x, y);
    parse_milli(s, ta, tb)
}

/// Tenths of Kelvin to milli-degrees Celsius: a tenth of the raw value
/// (the division truncating toward zero) less 273.15 degrees.
pub open spec fn spec_kelvin_tenths_to_milli(raw: int) -> int {
    (if raw >= 0 {
        raw / 10
    } else {
        -((-raw) / 10)
    }) - 273150
}

/// The reading one line of the management-interface output yields: the
/// text after the `CurrentTemperature=` prefix, trimmed and read as a
/// number of tenths of Kelvin, converted to milli-degrees Celsius.
/// A line without the prefix, or whose remainder fails numeric parsing,
/// yields nothing.
pub open spec fn spec_line_temperature(l: Seq<char>) -> Option<i64> {
    let p = "CurrentTemperature="@;
    if l.len() >= p.len() && l.subrange(0, p.len() as int) == p {
        match spec_parse_milli(spec_trim(l.subrange(p.len() as int, l.len() as int))) {
            Some(v) => Some(spec_kelvin_tenths_to_milli(v as int) as i64),
            None => None,
        }
    } else {
        None
    }
}

/// The first line that yields a reading decides; lines that yield
/// nothing are skipped; no such line means no reading.
pub open spec fn spec_scan_temperature(lines: Seq<Seq<char>>) -> Option<i64>
    decreases lines.len(),
{
    if lines.len() == 0 {
        None
    } else {
        match spec_line_temperature(lines[0]) {
            Some(v) => Some(v),
            None => spec_scan_temperature(lines.drop_first()),
        }
    }
}

/// The temperature reading of the whole management-interface output.
pub open spec fn spec_wmi_temperature(s: Seq<char>) -> Option<i64> {
    spec_scan_temperature(spec_split(s, '\n'))
}

/// Reads the reading, if any, that the line `[x, y)` of `s` yields,
/// exactly as [`spec_line_temperature`] describes.
fn scan_temperature_line(s: &str, x: usize, y: usize) -> (r: Option<i64>)
    requires
        x <= y <= s@.len(),
    ensures
        r == spec_line_temperature(s@.subrange(x as int, y as int)),
{
    let ghost l = s@.subrange(x as int, y as int);
    let prefix = "CurrentTemperature=";
    let plen = prefix.unicode_len();
    if y - x < plen {
        return None;
    }
    proof {
        assert(l.subrange(0, plen as int) =~= s@.subrange(x as int, (x + plen) as int));
        assert(l.subrange(plen as int, l.len() as int) =~= s@.subrange(
            (x + plen) as int,
            y as int,
        ));
    }
    if !str_range_eq(s, x, x + plen, prefix) {
        return None;
    }
    let (ta, tb) = trim_range(s, x + plen, y);
    match parse_milli(s, ta, tb) {
        Some(v) => {
            let tenth = if v >= 0 {
                v / 10
            } else {
                -((-v) / 10)
            };
            proof {
                assert(tenth as int - 273150 == spec_kelvin_tenths_to_milli(v as int));
            }
            Some(tenth - 273150)
        },
        None => None,
    }
}

/// Parses the management-interface temperature output, exactly as
/// [`spec_wmi_temperature`] describes.
pub fn parse_wmi_temperature(s: &str) -> (r: Option<i64>)
    ensures
        r == spec_wmi_temperature(s@),
{
    let n = s.unicode_len();
    proof {
        assert(s@.subrange(0, s@.len() as int) =~= s@);
    }
    let lines = split_ranges(s, 0, n, '\n');
    let ghost pieces = spec_split(s@, '\n');
    proof {
        assert(pieces.subrange(0, pieces.len() as int) =~= pieces);
    }
    let mut i: usize = 0;
    while i < lines.len()
        invariant
            i <= lines@.len(),
            pieces == spec_split(s@, '\n'),
            lines@.map_values(|p: (usize, usize)| s@.subrange(p.0 as int, p.1 as int))
                == pieces,
            forall|j: int|
                0 <= j < lines@.len() ==> 0 <= (#[trigger] lines@[j]).0 <= lines@[j].1
                    <= s@.len(),
            spec_scan_temperature(pieces.subrange(i as int, pieces.len() as int))
                == spec_scan_temperature(pieces),
        decreases lines@.len() - i,
    {
        let ghost rest = pieces.subrange(i as int, pieces.len() as int);
        let x = lines[i].0;
        let y = lines[i].1;
        let ghost l = pieces[i as int];
        proof {
            let lmap = lines@.map_values(
                |p: (usize, usize)| s@.subrange(p.0 as int, p.1 as int),
            );
            assert(lmap[i as int] == s@.subrange(x as int, y as int));
            assert(rest[0] == l);
            assert(rest.drop_first() =~= pieces.subrange(i + 1, pieces.len() as int));
        }
        match scan_temperature_line(s, x, y) {
            Some(v) => {
                proof {
                    assert(spec_scan_temperature(rest) == Some(v));
                }
                return Some(v);
            },
            None => {},
        }
        i = i + 1;
    }
    proof {
        assert(pieces.subrange(i as int, pieces.len() as int) =~= Seq::<Seq<char>>::empty());
    }
    None
}

/// The meaning of the utilization query output: the whole text,
/// trimmed, read as one decimal percentage.
pub open spec fn spec_usage_value(s: Seq<char>) -> Option<i64> {
    spec_parse_milli(spec_trim(s))
}

/// Parses the utilization query output, exactly as
/// [`spec_usage_value`] describes.
pub fn parse_usage_value(s: &str) -> (r: Option<i64>)
    ensures
        r == spec_usage_value(s@),
{
    let n = s.unicode_len();
    proof {
        assert(s@.subrange(0, s@.len() as int) =~= s@);
    }
    let (a, b) = trim_range(s, 0, n);
    parse_milli(s, a, b)
}

} // verus!
