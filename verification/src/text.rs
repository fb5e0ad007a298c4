//! Character-level text utilities shared by the format parsers.
//!
//! Every helper works on a `&str` together with an explicit character
//! range, so one input string can be cut into lines and fields without
//! copying. The specifications are stated over `Seq<char>` views.

use vstd::prelude::*;

verus! {

/// Whitespace as the parsers understand it: the ASCII whitespace
/// characters (space, tab, line feed, vertical tab, form feed, carriage
/// return).
pub open spec fn is_space(c: char) -> bool {
    c == ' ' || c == '\t' || c == '\n' || c == '\u{0B}' || c == '\u{0C}' || c == '\r'
}

/// `s` with leading whitespace removed.
pub open spec fn trim_front(s: Seq<char>) -> Seq<char>
    decreases s.len(),
{
    if s.len() > 0 && is_space(s[0]) {
        trim_front(s.drop_first())
    } else {
        s
    }
}

/// `s` with trailing whitespace removed.
pub open spec fn trim_back(s: Seq<char>) -> Seq<char>
    decreases s.len(),
{
    if s.len() > 0 && is_space(s.last()) {
        trim_back(s.drop_last())
    } else {
        s
    }
}

/// `s` with leading and trailing whitespace removed.
pub open spec fn spec_trim(s: Seq<char>) -> Seq<char> {
    trim_back(trim_front(s))
}

/// Index of the first occurrence of `c` in `s`, or `s.len()` if `c` does
/// not occur.
pub open spec fn spec_find(s: Seq<char>, c: char) -> int
    decreases s.len(),
{
    if s.len() == 0 {
        0
    } else if s[0] == c {
        0
    } else {
        1 + spec_find(s.drop_first(), c)
    }
}

/// An ASCII decimal digit.
pub open spec fn is_digit(c: char) -> bool {
    48 <= c as u32 <= 57
}

/// Numeric value of an ASCII digit.
pub open spec fn digit_val(c: char) -> int {
    c as u32 - 48
}

/// Every character of `s` is an ASCII digit.
pub open spec fn all_digits(s: Seq<char>) -> bool {
    forall|i: int| 0 <= i < s.len() ==> is_digit(#[trigger] s[i])
}

/// The number written by a sequence of ASCII digits, most significant
/// first. The empty sequence reads as zero.
pub open spec fn digits_val(s: Seq<char>) -> int
    decreases s.len(),
{
    if s.len() == 0 {
        0
    } else {
        digits_val(s.drop_last()) * 10 + digit_val(s.last())
    }
}

/// The ASCII digit for a value below ten.
pub open spec fn digit_char(d: int) -> char {
    if d == 0 {
        '0'
    } else if d == 1 {
        '1'
    } else if d == 2 {
        '2'
    } else if d == 3 {
        '3'
    } else if d == 4 {
        '4'
    } else if d == 5 {
        '5'
    } else if d == 6 {
        '6'
    } else if d == 7 {
        '7'
    } else if d == 8 {
        '8'
    } else {
        '9'
    }
}

/// The decimal rendering of a nonnegative number, without sign or
/// leading zeros (a single `'0'` for zero).
pub open spec fn dec_digits(n: int) -> Seq<char>
    decreases n,
{
    if n < 10 {
        seq![digit_char(n)]
    } else {
        dec_digits(n / 10).push(digit_char(n % 10))
    }
}

/// The pieces of `s` between occurrences of the separator `c`. There is
/// always one piece more than there are separators; in particular a
/// trailing separator yields a final empty piece.
pub open spec fn spec_split(s: Seq<char>, c: char) -> Seq<Seq<char>>
    decreases s.len(),
{
    let k = spec_find(s, c);
    if 0 <= k < s.len() {
        seq![s.subrange(0, k)] + spec_split(s.subrange(k + 1, s.len() as int), c)
    } else {
        seq![s]
    }
}

/// `spec_find` returns the one index that is preceded only by
/// non-occurrences and either holds `c` or is the length.
pub proof fn lemma_find_characterization(s: Seq<char>, c: char, k: int)
    requires
        0 <= k <= s.len(),
        forall|j: int| 0 <= j < k ==> s[j] != c,
        k < s.len() ==> s[k] == c,
    ensures
        spec_find(s, c) == k,
    decreases s.len(),
{
    if s.len() == 0 {
    } else if s[0] == c {
        assert(k == 0);
    } else {
        assert(k >= 1);
        let t = s.drop_first();
        assert(forall|j: int| 0 <= j < k - 1 ==> #[trigger] t[j] == s[j + 1]);
        lemma_find_characterization(t, c, k - 1);
    }
}

/// `trim_front` keeps exactly the suffix that starts at the first
/// non-whitespace character.
pub proof fn lemma_trim_front_suffix(s: Seq<char>, a: int)
    requires
        0 <= a <= s.len(),
        forall|j: int| 0 <= j < a ==> is_space(#[trigger] s[j]),
        a < s.len() ==> !is_space(s[a]),
    ensures
        trim_front(s) == s.subrange(a, s.len() as int),
    decreases s.len(),
{
    if s.len() == 0 {
        assert(trim_front(s) =~= s.subrange(a, s.len() as int));
    } else if is_space(s[0]) {
        assert(a >= 1);
        let t = s.drop_first();
        assert(forall|j: int| 0 <= j < a - 1 ==> #[trigger] t[j] == s[j + 1]);
        lemma_trim_front_suffix(t, a - 1);
        assert(t.subrange(a - 1, t.len() as int) =~= s.subrange(a, s.len() as int));
    } else {
        assert(a == 0);
        assert(trim_front(s) =~= s.subrange(0, s.len() as int));
    }
}

/// `trim_back` keeps exactly the prefix that ends after the last
/// non-whitespace character.
pub proof fn lemma_trim_back_prefix(s: Seq<char>, b: int)
    requires
        0 <= b <= s.len(),
        forall|j: int| b <= j < s.len() ==> is_space(#[trigger] s[j]),
        b > 0 ==> !is_space(s[b - 1]),
    ensures
        trim_back(s) == s.subrange(0, b),
    decreases s.len(),
{
    if s.len() == 0 {
        assert(trim_back(s) =~= s.subrange(0, b));
    } else if is_space(s.last()) {
        assert(b < s.len());
        let t = s.drop_last();
        lemma_trim_back_prefix(t, b);
        assert(t.subrange(0, b) =~= s.subrange(0, b));
    } else {
        assert(b == s.len());
        assert(trim_back(s) =~= s.subrange(0, b));
    }
}

/// Whether `c` counts as whitespace.
pub fn is_space_char(c: char) -> (b: bool)
    ensures
        b == is_space(c),
{
    c == ' ' || c == '\t' || c == '\n' || c == '\u{0B}' || c == '\u{0C}' || c == '\r'
}

/// First occurrence of `c` in `s` at or after `from` and before `to`,
/// or `to` if there is none.
pub fn find_char(s: &str, from: usize, to: usize, c: char) -> (k: usize)
    requires
        from <= to <= s@.len(),
    ensures
        from <= k <= to,
        spec_find(s@.subrange(from as int, to as int), c) == k - from,
        k < to ==> s@[k as int] == c,
        forall|j: int| from <= j < k ==> s@[j] != c,
{
    let mut i: usize = from;
    while i < to
        invariant
            from <= i <= to <= s@.len(),
            forall|j: int| from <= j < i ==> s@[j] != c,
        decreases to - i,
    {
        if s.get_char(i) == c {
            proof {
                let sub = s@.subrange(from as int, to as int);
                assert(forall|j: int| 0 <= j < i - from ==> #[trigger] sub[j] == s@[j + from]);
                lemma_find_characterization(sub, c, i - from);
            }
            return i;
        }
        i = i + 1;
    }
    proof {
        let sub = s@.subrange(from as int, to as int);
        assert(forall|j: int| 0 <= j < to - from ==> #[trigger] sub[j] == s@[j + from]);
        lemma_find_characterization(sub, c, to - from);
    }
    to
}

/// The subrange `[from, to)` of `s` with surrounding whitespace removed,
/// returned as a pair of indices into `s`.
pub fn trim_range(s: &str, from: usize, to: usize) -> (r: (usize, usize))
    requires
        from <= to <= s@.len(),
    ensures
        from <= r.0 <= r.1 <= to,
        s@.subrange(r.0 as int, r.1 as int) == spec_trim(
            s@.subrange(from as int, to as int),
        ),
{
    let mut a: usize = from;
    while a < to && is_space_char(s.get_char(a))
        invariant
            from <= a <= to <= s@.len(),
            forall|j: int| from <= j < a ==> is_space(#[trigger] s@[j]),
        decreases to - a,
    {
        a = a + 1;
    }
    let mut b: usize = to;
    while b > a && is_space_char(s.get_char(b - 1))
        invariant
            from <= a <= b <= to <= s@.len(),
            forall|j: int| b <= j < to ==> is_space(#[trigger] s@[j]),
        decreases b,
    {
        b = b - 1;
    }
    proof {
        let sub = s@.subrange(from as int, to as int);
        assert(forall|j: int| 0 <= j < to - from ==> #[trigger] sub[j] == s@[j + from]);
        lemma_trim_front_suffix(sub, a - from);
        let tf = sub.subrange(a - from, sub.len() as int);
        assert(forall|j: int| 0 <= j < tf.len() ==> #[trigger] tf[j] == s@[j + a]);
        lemma_trim_back_prefix(tf, b - a);
        assert(tf.subrange(0, b - a) =~= s@.subrange(a as int, b as int));
    }
    (a, b)
}

/// Whether the subrange `[from, to)` of `s` is exactly the text `t`.
pub fn str_range_eq(s: &str, from: usize, to: usize, t: &str) -> (b: bool)
    requires
        from <= to <= s@.len(),
    ensures
        b == (s@.subrange(from as int, to as int) == t@),
{
    let n = t.unicode_len();
    if to - from != n {
        proof {
            assert(s@.subrange(from as int, to as int).len() != t@.len());
        }
        return false;
    }
    let mut i: usize = 0;
    while i < n
        invariant
            to - from == n == t@.len(),
            from <= to <= s@.len(),
            i <= n,
            forall|j: int| 0 <= j < i ==> s@[from + j] == t@[j],
        decreases n - i,
    {
        if s.get_char(from + i) != t.get_char(i) {
            proof {
                assert(s@.subrange(from as int, to as int)[i as int] == s@[from + i]);
            }
            return false;
        }
        i = i + 1;
    }
    proof {
        assert(s@.subrange(from as int, to as int) =~= t@);
    }
    true
}

/// Whether every character of the subrange `[from, to)` of `s` is an
/// ASCII digit.
pub fn digits_only(s: &str, from: usize, to: usize) -> (b: bool)
    requires
        from <= to <= s@.len(),
    ensures
        b == all_digits(s@.subrange(from as int, to as int)),
{
    let mut i: usize = from;
    while i < to
        invariant
            from <= i <= to <= s@.len(),
            forall|j: int| from <= j < i ==> is_digit(#[trigger] s@[j]),
        decreases to - i,
    {
        let c = s.get_char(i);
        let u = c as u32;
        if !(48 <= u && u <= 57) {
            proof {
                let sub = s@.subrange(from as int, to as int);
                assert(sub[i - from] == s@[i as int]);
            }
            return false;
        }
        i = i + 1;
    }
    proof {
        let sub = s@.subrange(from as int, to as int);
        assert(forall|j: int| 0 <= j < sub.len() ==> #[trigger] sub[j] == s@[j + from]);
    }
    true
}

/// Appending one digit multiplies the value by ten and adds the digit.
pub proof fn lemma_digits_val_snoc(s: Seq<char>, c: char)
    ensures
        digits_val(s.push(c)) == digits_val(s) * 10 + digit_val(c),
{
    assert(s.push(c).drop_last() =~= s);
    assert(s.push(c).last() == c);
}

/// The numeric value of the digits in the subrange `[from, to)` of `s`,
/// or `None` if it exceeds `u64::MAX`.
pub fn digits_value_u64(s: &str, from: usize, to: usize) -> (r: Option<u64>)
    requires
        from <= to <= s@.len(),
        all_digits(s@.subrange(from as int, to as int)),
    ensures
        match r {
            Some(v) => v as int == digits_val(s@.subrange(from as int, to as int)),
            None => digits_val(s@.subrange(from as int, to as int)) > u64::MAX as int,
        },
{
    let ghost whole = s@.subrange(from as int, to as int);
    let mut acc: u64 = 0;
    let mut over: bool = false;
    let mut i: usize = from;
    while i < to
        invariant
            from <= i <= to <= s@.len(),
            all_digits(whole),
            whole == s@.subrange(from as int, to as int),
            !over ==> acc as int == digits_val(s@.subrange(from as int, i as int)),
            over ==> digits_val(s@.subrange(from as int, i as int)) > u64::MAX as int,
        decreases to - i,
    {
        let c = s.get_char(i);
        proof {
            assert(whole[i - from] == s@[i as int]);
            assert(s@.subrange(from as int, (i + 1) as int) =~= s@.subrange(
                from as int,
                i as int,
            ).push(s@[i as int]));
            lemma_digits_val_snoc(s@.subrange(from as int, i as int), s@[i as int]);
        }
        let d = (c as u32) as u64 - 48;
        if over {
        } else {
            match acc.checked_mul(10) {
                Some(m) => match m.checked_add(d) {
                    Some(v) => {
                        acc = v;
                    },
                    None => {
                        over = true;
                    },
                },
                None => {
                    over = true;
                },
            }
        }
        i = i + 1;
    }
    proof {
        assert(s@.subrange(from as int, to as int) =~= whole);
    }
    if over {
        None
    } else {
        Some(acc)
    }
}

/// Cuts the subrange `[from, to)` of `s` at every occurrence of `c`,
/// returning the pieces as index pairs into `s`, in order, exactly as
/// [`spec_split`] describes.
pub fn split_ranges(s: &str, from: usize, to: usize, c: char) -> (r: Vec<(usize, usize)>)
    requires
        from <= to <= s@.len(),
    ensures
        r@.map_values(|p: (usize, usize)| s@.subrange(p.0 as int, p.1 as int)) == spec_split(
            s@.subrange(from as int, to as int),
            c,
        ),
        forall|i: int|
            0 <= i < r@.len() ==> from <= (#[trigger] r@[i]).0 <= r@[i].1 <= to,
{
    let ghost whole = s@.subrange(from as int, to as int);
    let mut r: Vec<(usize, usize)> = Vec::new();
    let mut pos: usize = from;
    loop
        invariant_except_break
            spec_split(whole, c) == r@.map_values(
                |p: (usize, usize)| s@.subrange(p.0 as int, p.1 as int),
            ) + spec_split(s@.subrange(pos as int, to as int), c),
        invariant
            from <= pos <= to <= s@.len(),
            whole == s@.subrange(from as int, to as int),
            forall|i: int|
                0 <= i < r@.len() ==> from <= (#[trigger] r@[i]).0 <= r@[i].1 <= to,
        ensures
            spec_split(whole, c) == r@.map_values(
                |p: (usize, usize)| s@.subrange(p.0 as int, p.1 as int),
            ),
        decreases to - pos,
    {
        let ghost rmap0 = r@.map_values(|p: (usize, usize)| s@.subrange(p.0 as int, p.1 as int));
        let ghost rem = s@.subrange(pos as int, to as int);
        let k = find_char(s, pos, to, c);
        let ghost piece = s@.subrange(pos as int, k as int);
        proof {
            assert(piece =~= rem.subrange(0, k - pos));
            assert(spec_find(rem, c) == k - pos);
        }
        r.push((pos, k));
        proof {
            assert(r@.map_values(|p: (usize, usize)| s@.subrange(p.0 as int, p.1 as int))
                =~= rmap0.push(piece));
        }
        if k == to {
            proof {
                assert(spec_split(rem, c) == seq![rem]);
                assert(piece =~= rem);
                assert(rmap0 + seq![piece] =~= rmap0.push(piece));
            }
            break;
        }
        proof {
            let tail = rem.subrange(k - pos + 1, rem.len() as int);
            assert(spec_split(rem, c) == seq![piece] + spec_split(tail, c));
            assert(tail =~= s@.subrange(k + 1, to as int));
            assert(rmap0 + (seq![piece] + spec_split(tail, c)) =~= rmap0.push(piece)
                + spec_split(tail, c));
        }
        pos = k + 1;
    }
    r
}

/// The value of a digit string is nonnegative, and a string of at most
/// three digits stays below one thousand.
pub proof fn lemma_digits_val_bounds(s: Seq<char>)
    requires
        all_digits(s),
    ensures
        0 <= digits_val(s),
        s.len() == 0 ==> digits_val(s) == 0,
        s.len() <= 1 ==> digits_val(s) <= 9,
        s.len() <= 2 ==> digits_val(s) <= 99,
        s.len() <= 3 ==> digits_val(s) <= 999,
    decreases s.len(),
{
    if s.len() > 0 {
        let t = s.drop_last();
        assert(forall|i: int| 0 <= i < t.len() ==> t[i] == s[i]);
        lemma_digits_val_bounds(t);
    }
}

/// How `u64` reads a decimal string: an optional leading `'+'`, then at
/// least one ASCII digit, with a value that fits in the type.
pub open spec fn spec_parse_u64(s: Seq<char>) -> Option<u64> {
    let t = if s.len() > 0 && s[0] == '+' {
        s.drop_first()
    } else {
        s
    };
    if t.len() > 0 && all_digits(t) && digits_val(t) <= u64::MAX as int {
        Some(digits_val(t) as u64)
    } else {
        None
    }
}

/// Parses the subrange `[from, to)` of `s` as a `u64`, accepting exactly
/// what `spec_parse_u64` describes.
pub fn parse_u64(s: &str, from: usize, to: usize) -> (r: Option<u64>)
    requires
        from <= to <= s@.len(),
    ensures
        r == spec_parse_u64(s@.subrange(from as int, to as int)),
{
    let ghost whole = s@.subrange(from as int, to as int);
    let start: usize = if from < to && s.get_char(from) == '+' {
        from + 1
    } else {
        from
    };
    proof {
        if from < to {
            assert(whole[0] == s@[from as int]);
        }
        if start > from {
            assert(whole.drop_first() =~= s@.subrange(start as int, to as int));
        } else {
            assert(whole =~= s@.subrange(start as int, to as int));
        }
    }
    if start == to {
        return None;
    }
    if !digits_only(s, start, to) {
        return None;
    }
    digits_value_u64(s, start, to)
}

/// Thousandths contributed by the fractional digits of a decimal
/// literal. Digits beyond the third carry less than a thousandth and
/// are dropped.
pub open spec fn frac_milli(f: Seq<char>) -> int {
    if f.len() == 0 {
        0
    } else if f.len() == 1 {
        digit_val(f[0]) * 100
    } else if f.len() == 2 {
        digits_val(f) * 10
    } else {
        digits_val(f.subrange(0, 3))
    }
}

/// The fractional digits of a decimal literal contribute between zero
/// and just under one whole unit, in thousandths.
pub proof fn lemma_frac_milli_bounds(f: Seq<char>)
    requires
        all_digits(f),
    ensures
        0 <= frac_milli(f) <= 999,
{
    lemma_digits_val_bounds(f);
    if f.len() >= 3 {
        let f3 = f.subrange(0, 3);
        assert(forall|i: int| 0 <= i < 3 ==> f3[i] == f[i]);
        lemma_digits_val_bounds(f3);
    }
}

/// The crate's model of a decimal sensor reading: an optional sign,
/// digits with at most one decimal point and at least one digit, read
/// as a whole number of thousandths. The fourth and later fractional
/// digits are dropped; a magnitude beyond `i64::MAX` thousandths, an
/// exponent or a non-numeric word reads as absent.
pub open spec fn spec_parse_milli(s: Seq<char>) -> Option<i64> {
    let neg = s.len() > 0 && s[0] == '-';
    let t = if s.len() > 0 && (s[0] == '-' || s[0] == '+') {
        s.drop_first()
    } else {
        s
    };
    let k = spec_find(t, '.');
    let ip = t.subrange(0, k);
    let fp = if k < t.len() {
        t.subrange(k + 1, t.len() as int)
    } else {
        Seq::empty()
    };
    if ip.len() + fp.len() > 0 && all_digits(ip) && all_digits(fp) {
        let m = digits_val(ip) * 1000 + frac_milli(fp);
        if m <= i64::MAX as int {
            if neg {
                Some((-m) as i64)
            } else {
                Some(m as i64)
            }
        } else {
            None
        }
    } else {
        None
    }
}

/// Parses the subrange `[from, to)` of `s` as a decimal reading in
/// thousandths, accepting exactly what [`spec_parse_milli`] describes.
pub fn parse_milli(s: &str, from: usize, to: usize) -> (r: Option<i64>)
    requires
        from <= to <= s@.len(),
    ensures
        r == spec_parse_milli(s@.subrange(from as int, to as int)),
        r matches Some(v) ==> v > i64::MIN,
{
    let ghost whole = s@.subrange(from as int, to as int);
    let mut neg: bool = false;
    let mut start: usize = from;
    if from < to {
        let c0 = s.get_char(from);
        if c0 == '-' {
            neg = true;
            start = from + 1;
        } else if c0 == '+' {
            start = from + 1;
        }
    }
    let ghost t = if start > from {
        whole.drop_first()
    } else {
        whole
    };
    proof {
        if from < to {
            assert(whole[0] == s@[from as int]);
        }
        assert(t =~= s@.subrange(start as int, to as int));
    }
    let k = find_char(s, start, to, '.');
    let ghost ip = t.subrange(0, k - start);
    let ghost fp = if k < to {
        t.subrange(k - start + 1, t.len() as int)
    } else {
        Seq::<char>::empty()
    };
    proof {
        assert(spec_find(t, '.') == k - start);
        assert(ip =~= s@.subrange(start as int, k as int));
        if k < to {
            assert(fp =~= s@.subrange(k + 1, to as int));
        }
    }
    if !digits_only(s, start, k) {
        return None;
    }
    if k < to && !digits_only(s, k + 1, to) {
        return None;
    }
    if k == start && (k == to || k + 1 == to) {
        return None;
    }
    let fv: u64 = if k < to {
        let fl = to - (k + 1);
        proof {
            lemma_digits_val_bounds(fp);
        }
        if fl == 0 {
            0
        } else if fl == 1 {
            let d = match digits_value_u64(s, k + 1, to) {
                Some(v) => v,
                None => 0,
            };
            proof {
                assert(s@.subrange(k + 1, to as int) == fp);
            }
            d * 100
        } else if fl == 2 {
            let d = match digits_value_u64(s, k + 1, to) {
                Some(v) => v,
                None => 0,
            };
            d * 10
        } else {
            let d = match digits_value_u64(s, k + 1, k + 4) {
                Some(v) => v,
                None => 0,
            };
            proof {
                let f3 = fp.subrange(0, 3);
                assert(f3 =~= s@.subrange(k + 1, k + 4));
                assert(forall|i: int| 0 <= i < 3 ==> f3[i] == fp[i]);
                lemma_digits_val_bounds(f3);
            }
            d
        }
    } else {
        0
    };
    proof {
        assert(fv as int == frac_milli(fp));
        assert(fv <= 999);
    }
    match digits_value_u64(s, start, k) {
        None => {
            proof {
                lemma_frac_milli_bounds(fp);
                assert(digits_val(ip) * 1000 > i64::MAX as int);
            }
            None
        },
        Some(v) => {
            let m: u128 = (v as u128) * 1000 + (fv as u128);
            proof {
                assert(m as int == digits_val(ip) * 1000 + frac_milli(fp));
            }
            if m > i64::MAX as u128 {
                None
            } else {
                if neg {
                    Some(-(m as i64))
                } else {
                    Some(m as i64)
                }
            }
        },
    }
}

/// A `'0'`-to-`'9'` literal for a digit value.
pub fn digit_str(d: u64) -> (s: &'static str)
    requires
        d < 10,
    ensures
        s@ =~= seq![digit_char(d as int)],
{
    if d == 0 {
        let s = "0";
        proof {
            reveal_strlit("0");
        }
        s
    } else if d == 1 {
        let s = "1";
        proof {
            reveal_strlit("1");
        }
        s
    } else if d == 2 {
        let s = "2";
        proof {
            reveal_strlit("2");
        }
        s
    } else if d == 3 {
        let s = "3";
        proof {
            reveal_strlit("3");
        }
        s
    } else if d == 4 {
        let s = "4";
        proof {
            reveal_strlit("4");
        }
        s
    } else if d == 5 {
        let s = "5";
        proof {
            reveal_strlit("5");
        }
        s
    } else if d == 6 {
        let s = "6";
        proof {
            reveal_strlit("6");
        }
        s
    } else if d == 7 {
        let s = "7";
        proof {
            reveal_strlit("7");
        }
        s
    } else if d == 8 {
        let s = "8";
        proof {
            reveal_strlit("8");
        }
        s
    } else {
        let s = "9";
        proof {
            reveal_strlit("9");
        }
        s
    }
}

/// Appends the decimal rendering of `n` to `out`.
pub fn append_dec_u64(out: &mut String, n: u64)
    ensures
        final(out)@ == old(out)@ + dec_digits(n as int),
    decreases n,
{
    if n >= 10 {
        append_dec_u64(out, n / 10);
        out.append(digit_str(n % 10));
        proof {
            assert(old(out)@ + dec_digits((n / 10) as int) + seq![
                digit_char((n % 10) as int),
            ] =~= old(out)@ + dec_digits(n as int));
        }
    } else {
        out.append(digit_str(n));
        proof {
            assert(old(out)@ + seq![digit_char(n as int)] =~= old(out)@ + dec_digits(
                n as int,
            ));
        }
    }
}

} // verus!
