//! Adapter identity: the list-format parser and the memory-size
//! normalization.
//!
//! The identity query lists one block per graphics adapter, blocks
//! separated by blank lines, each block made of `Key=Value` lines.
//! Recognized keys fill the fields of [`GpuInfo`]; unrecognized keys are
//! ignored; a block is emitted once a blank line or the end of the input
//! closes it.

use vstd::prelude::*;
use crate::text::{
    spec_trim, spec_find, spec_parse_u64, dec_digits, digit_char, trim_range,
    find_char, str_range_eq, parse_u64, append_dec_u64, digit_str,
};

verus! {

/// Identity of one graphics adapter, as the identity query reports it.
/// An empty string means the source never reported the field.
#[derive(Debug)]
pub struct GpuInfo {
    pub name: String,
    pub adapter_ram: String,
    pub driver_version: String,
    pub video_processor: String,
    pub status: String,
}

/// The mathematical content of a [`GpuInfo`]: its five fields as
/// character sequences.
#[verifier::ext_equal]
pub ghost struct GpuInfoView {
    pub name: Seq<char>,
    pub adapter_ram: Seq<char>,
    pub driver_version: Seq<char>,
    pub video_processor: Seq<char>,
    pub status: Seq<char>,
}

impl View for GpuInfo {
    type V = GpuInfoView;

    open spec fn view(&self) -> GpuInfoView {
        GpuInfoView {
            name: self.name@,
            adapter_ram: self.adapter_ram@,
            driver_version: self.driver_version@,
            video_processor: self.video_processor@,
            status: self.status@,
        }
    }
}

/// The identity with every field unknown.
pub open spec fn empty_identity() -> GpuInfoView {
    GpuInfoView {
        name: Seq::empty(),
        adapter_ram: Seq::empty(),
        driver_version: Seq::empty(),
        video_processor: Seq::empty(),
        status: Seq::empty(),
    }
}

impl GpuInfo {
    /// An identity with every field empty, meaning unknown.
    pub fn new() -> (r: GpuInfo)
        ensures
            r@ == empty_identity(),
    {
        let r = GpuInfo {
            name: String::new(),
            adapter_ram: String::new(),
            driver_version: String::new(),
            video_processor: String::new(),
            status: String::new(),
        };
        proof {
            assert(r@ =~= empty_identity());
        }
        r
    }
}

/// The memory size in tenths of a gigabyte (2^30 bytes), rounded to the
/// nearest tenth with ties broken to the even tenth.
pub open spec fn gb_tenths(bytes: int) -> int {
    let num = bytes * 10;
    let q = num / 0x40000000;
    let r = num % 0x40000000;
    if 2 * r > 0x40000000 || (2 * r == 0x40000000 && q % 2 == 1) {
        q + 1
    } else {
        q
    }
}

/// What the memory-size field becomes: a byte count is rendered as
/// gigabytes with one fractional digit and a `GB` suffix; anything that
/// does not read as an unsigned integer passes through unchanged.
pub open spec fn spec_format_ram(s: Seq<char>) -> Seq<char> {
    match spec_parse_u64(s) {
        Some(bytes) => {
            let t = gb_tenths(bytes as int);
            dec_digits(t / 10) + seq!['.', digit_char(t % 10), ' ', 'G', 'B']
        },
        None => s,
    }
}

/// Renders a raw memory-size string as gigabytes, as
/// [`spec_format_ram`] describes.
pub fn format_ram(ram: &str) -> (r: String)
    ensures
        r@ == spec_format_ram(ram@),
{
    let n = ram.unicode_len();
    proof {
        assert(ram@.subrange(0, ram@.len() as int) =~= ram@);
    }
    match parse_u64(ram, 0, n) {
        Some(bytes) => {
            let num: u128 = (bytes as u128) * 10;
            let q: u128 = num / 0x40000000;
            let rem: u128 = num % 0x40000000;
            proof {
                assert(num as int <= 184467440737095516150) by {
                    assert(bytes <= u64::MAX);
                };
                vstd::arithmetic::div_mod::lemma_div_is_ordered(
                    num as int,
                    184467440737095516150,
                    0x40000000,
                );
                assert(184467440737095516150int / 0x40000000 == 171798691839int) by (nonlinear_arith);
            }
            let mut t: u64 = q as u64;
            if 2 * rem > 0x40000000 || (2 * rem == 0x40000000 && t % 2 == 1) {
                t = t + 1;
            }
            proof {
                assert(t as int == gb_tenths(bytes as int));
            }
            let mut out = String::new();
            append_dec_u64(&mut out, t / 10);
            out.append(".");
            out.append(digit_str(t % 10));
            out.append(" GB");
            proof {
                reveal_strlit(".");
                reveal_strlit(" GB");
                assert("."@ =~= seq!['.']);
                assert(" GB"@ =~= seq![' ', 'G', 'B']);
                assert(out@ =~= spec_format_ram(ram@));
            }
            out
        },
        None => ram.to_owned(),
    }
}

/// Law: a memory-size string that does not read as an unsigned
/// integer passes through [`spec_format_ram`] unchanged.
pub proof fn lemma_format_ram_passthrough(s: Seq<char>)
    requires
        spec_parse_u64(s) is None,
    ensures
        spec_format_ram(s) == s,
{
}

/// One step of the list-format parse: the accumulated identities, the
/// block being filled, and whether the block has seen any content.
#[verifier::ext_equal]
pub ghost struct ParseState {
    pub done: Seq<GpuInfoView>,
    pub current: GpuInfoView,
    pub in_gpu: bool,
}

/// The state before any line has been read.
pub open spec fn initial_state() -> ParseState {
    ParseState { done: Seq::empty(), current: empty_identity(), in_gpu: false }
}

/// Applies one recognized `Key=Value` pair to the block being filled;
/// an unrecognized key changes nothing.
pub open spec fn apply_kv(g: GpuInfoView, key: Seq<char>, value: Seq<char>) -> GpuInfoView {
    if key == "Name"@ {
        GpuInfoView { name: value, ..g }
    } else if key == "AdapterRAM"@ {
        GpuInfoView { adapter_ram: spec_format_ram(value), ..g }
    } else if key == "DriverVersion"@ {
        GpuInfoView { driver_version: value, ..g }
    } else if key == "VideoProcessor"@ {
        GpuInfoView { video_processor: value, ..g }
    } else if key == "Status"@ {
        GpuInfoView { status: value, ..g }
    } else {
        g
    }
}

/// How one line of the listing changes the parse state: a blank line
/// closes the open block, any other line opens a block, and a
/// `Key=Value` line additionally fills a field.
pub open spec fn step_line(st: ParseState, line: Seq<char>) -> ParseState {
    let t = spec_trim(line);
    if t.len() == 0 {
        if st.in_gpu {
            ParseState { done: st.done.push(st.current), current: empty_identity(), in_gpu: false }
        } else {
            st
        }
    } else {
        let k = spec_find(t, '=');
        if 0 <= k < t.len() {
            ParseState {
                done: st.done,
                current: apply_kv(st.current, t.subrange(0, k), t.subrange(k + 1, t.len() as int)),
                in_gpu: true,
            }
        } else {
            ParseState { done: st.done, current: st.current, in_gpu: true }
        }
    }
}

/// Folds `step_line` over a sequence of lines.
pub open spec fn run_lines(st: ParseState, lines: Seq<Seq<char>>) -> ParseState
    decreases lines.len(),
{
    if lines.len() == 0 {
        st
    } else {
        run_lines(step_line(st, lines[0]), lines.drop_first())
    }
}

/// The input split at every line feed. Splitting keeps a final empty
/// piece after a trailing line feed; the parser treats it as one more
/// blank line, which changes nothing it emits.
pub open spec fn spec_lines(s: Seq<char>) -> Seq<Seq<char>>
    decreases s.len(),
{
    let k = spec_find(s, '\n');
    if 0 <= k < s.len() {
        seq![s.subrange(0, k)] + spec_lines(s.subrange(k + 1, s.len() as int))
    } else {
        seq![s]
    }
}

/// Emits the still-open trailing block, if any.
pub open spec fn finish(st: ParseState) -> Seq<GpuInfoView> {
    if st.in_gpu {
        st.done.push(st.current)
    } else {
        st.done
    }
}

/// The meaning of the whole listing: every blank-line-terminated block,
/// and the unterminated trailing block if the input ends inside one.
pub open spec fn spec_parse_wmic(s: Seq<char>) -> Seq<GpuInfoView> {
    finish(run_lines(initial_state(), spec_lines(s)))
}

/// How many blocks the lines hold: a block is a maximal run of lines
/// that are non-blank after trimming. `open_block` says whether a block
/// was already open when these lines began.
pub open spec fn block_count(lines: Seq<Seq<char>>, open_block: bool) -> int
    decreases lines.len(),
{
    if lines.len() == 0 {
        if open_block {
            1int
        } else {
            0int
        }
    } else if spec_trim(lines[0]).len() == 0 {
        (if open_block {
            1int
        } else {
            0int
        }) + block_count(lines.drop_first(), false)
    } else {
        block_count(lines.drop_first(), true)
    }
}

/// Folding the lines emits exactly one identity per block, counting a
/// block already open when the fold begins.
pub proof fn lemma_run_lines_block_count(st: ParseState, lines: Seq<Seq<char>>)
    ensures
        finish(run_lines(st, lines)).len() == st.done.len() + block_count(lines, st.in_gpu),
    decreases lines.len(),
{
    if lines.len() == 0 {
    } else {
        let st1 = step_line(st, lines[0]);
        lemma_run_lines_block_count(st1, lines.drop_first());
        if spec_trim(lines[0]).len() == 0 {
            assert(st1.done.len() == st.done.len() + if st.in_gpu {
                1int
            } else {
                0int
            });
        }
    }
}

/// Law: for every input, the list-format parser emits one record per
/// blank-line-terminated block, and one more for an unterminated
/// trailing block.
pub proof fn lemma_one_record_per_block(s: Seq<char>)
    ensures
        spec_parse_wmic(s).len() == block_count(spec_lines(s), false),
{
    lemma_run_lines_block_count(initial_state(), spec_lines(s));
}

/// Executable twin of [`ParseState`].
struct Accum {
    gpus: Vec<GpuInfo>,
    current: GpuInfo,
    in_gpu: bool,
}

impl Accum {
    spec fn st(&self) -> ParseState {
        ParseState {
            done: self.gpus@.map_values(|g: GpuInfo| g@),
            current: self.current@,
            in_gpu: self.in_gpu,
        }
    }
}

/// Processes the line `[start, end)` of `s`, mirroring [`step_line`].
fn apply_line(acc: Accum, s: &str, start: usize, end: usize) -> (r: Accum)
    requires
        start <= end <= s@.len(),
    ensures
        r.st() == step_line(acc.st(), s@.subrange(start as int, end as int)),
{
    let ghost st0 = acc.st();
    let ghost line = s@.subrange(start as int, end as int);
    let (a, b) = trim_range(s, start, end);
    let ghost t = spec_trim(line);
    proof {
        assert(t == s@.subrange(a as int, b as int));
    }
    if a == b {
        proof {
            assert(t.len() == 0);
        }
        if acc.in_gpu {
            let Accum { mut gpus, current, in_gpu: _ } = acc;
            gpus.push(current);
            let r = Accum { gpus, current: GpuInfo::new(), in_gpu: false };
            proof {
                assert(r.st().done =~= st0.done.push(st0.current));
                assert(r.st() =~= step_line(st0, line));
            }
            r
        } else {
            proof {
                assert(acc.st() =~= step_line(st0, line));
            }
            acc
        }
    } else {
        let k = find_char(s, a, b, '=');
        proof {
            assert(t.len() > 0);
            assert(spec_find(t, '=') == k - a);
        }
        let mut acc = acc;
        acc.in_gpu = true;
        if k < b {
            let ghost key = t.subrange(0, k - a);
            let ghost value = t.subrange(k - a + 1, t.len() as int);
            proof {
                assert(key =~= s@.subrange(a as int, k as int));
                assert(value =~= s@.subrange(k + 1, b as int));
            }
            if str_range_eq(s, a, k, "Name") {
                acc.current.name = s.substring_char(k + 1, b).to_owned();
            } else if str_range_eq(s, a, k, "AdapterRAM") {
                acc.current.adapter_ram = format_ram(s.substring_char(k + 1, b));
            } else if str_range_eq(s, a, k, "DriverVersion") {
                acc.current.driver_version = s.substring_char(k + 1, b).to_owned();
            } else if str_range_eq(s, a, k, "VideoProcessor") {
                acc.current.video_processor = s.substring_char(k + 1, b).to_owned();
            } else if str_range_eq(s, a, k, "Status") {
                acc.current.status = s.substring_char(k + 1, b).to_owned();
            }
            proof {
                assert(acc.st().current =~= apply_kv(st0.current, key, value));
                assert(acc.st() =~= step_line(st0, line));
            }
            acc
        } else {
            proof {
                assert(acc.st() =~= step_line(st0, line));
            }
            acc
        }
    }
}

/// Parses the full output of the identity query: one [`GpuInfo`] per
/// block of `Key=Value` lines, blocks separated by blank lines, with an
/// unterminated trailing block still emitted. The result is exactly
/// [`spec_parse_wmic`] of the input.
pub fn parse_wmic_output(output: &str) -> (r: Vec<GpuInfo>)
    ensures
        r@.map_values(|g: GpuInfo| g@) == spec_parse_wmic(output@),
{
    let n = output.unicode_len();
    let ghost target = run_lines(initial_state(), spec_lines(output@));
    let mut acc = Accum { gpus: Vec::new(), current: GpuInfo::new(), in_gpu: false };
    proof {
        assert(acc.st() =~= initial_state());
        assert(output@.subrange(0, n as int) =~= output@);
    }
    let mut pos: usize = 0;
    loop
        invariant_except_break
            run_lines(acc.st(), spec_lines(output@.subrange(pos as int, n as int))) == target,
        invariant
            pos <= n,
            n == output@.len(),
        ensures
            acc.st() == target,
        decreases n - pos,
    {
        let ghost prev = acc.st();
        let ghost rem = output@.subrange(pos as int, n as int);
        let k = find_char(output, pos, n, '\n');
        let ghost line = output@.subrange(pos as int, k as int);
        proof {
            assert(line =~= rem.subrange(0, k - pos));
            assert(spec_find(rem, '\n') == k - pos);
        }
        acc = apply_line(acc, output, pos, k);
        if k == n {
            proof {
                assert(spec_lines(rem) == seq![rem]);
                assert(seq![rem].drop_first() =~= Seq::<Seq<char>>::empty());
                assert(seq![rem][0] == rem);
                assert(line =~= rem);
                assert(run_lines(prev, seq![rem]) == run_lines(
                    step_line(prev, rem),
                    seq![rem].drop_first(),
                ));
                assert(run_lines(step_line(prev, rem), Seq::<Seq<char>>::empty())
                    == step_line(prev, rem));
                assert(run_lines(prev, spec_lines(rem)) == step_line(prev, rem));
            }
            break;
        }
        proof {
            let tail = rem.subrange(k - pos + 1, rem.len() as int);
            assert(spec_lines(rem) == seq![line] + spec_lines(tail));
            assert((seq![line] + spec_lines(tail)).drop_first() =~= spec_lines(tail));
            assert((seq![line] + spec_lines(tail))[0] == line);
            assert(tail =~= output@.subrange(k + 1, n as int));
        }
        pos = k + 1;
    }
    let ghost fin = acc.st();
    let Accum { mut gpus, current, in_gpu } = acc;
    if in_gpu {
        gpus.push(current);
        proof {
            assert(gpus@.map_values(|g: GpuInfo| g@) =~= finish(fin));
        }
    } else {
        proof {
            assert(gpus@.map_values(|g: GpuInfo| g@) =~= finish(fin));
        }
    }
    gpus
}

} // verus!
