//! Parsers for the text the library is handed: option lines, decimal
//! numbers, and the parameter field of a comment record.

use vstd::prelude::*;

verus! {

/// Index of the first `c` in `s` at or after `i`, or `s.len()` if none.
pub open spec fn find_from(s: Seq<char>, c: char, i: int) -> int
    decreases s.len() - i,
{
    if i < 0 || i >= s.len() {
        s.len() as int
    } else if s[i] == c {
        i
    } else {
        find_from(s, c, i + 1)
    }
}

pub open spec fn is_digit(c: char) -> bool {
    '0' <= c <= '9'
}

pub open spec fn digit_value(c: char) -> int {
    (c as u32) - ('0' as u32)
}

/// The number that a string of decimal digits denotes.
pub open spec fn digits_value(s: Seq<char>) -> int
    decreases s.len(),
{
    if s.len() == 0 {
        0
    } else {
        digits_value(s.drop_last()) * 10 + digit_value(s.last())
    }
}

pub open spec fn pow10(n: nat) -> int
    decreases n,
{
    if n == 0 { 1 } else { 10 * pow10((n - 1) as nat) }
}

/// One to eighteen decimal digits: a number that fits in 64 bits.
pub open spec fn valid_digits(s: Seq<char>) -> bool {
    &&& 1 <= s.len() <= 18
    &&& forall|i: int| 0 <= i < s.len() ==> is_digit(#[trigger] s[i])
}

/// Thousandths of an unsigned decimal `I`, `I.`, `.F` or `I.F`, where `I` has
/// up to fifteen digits and `F` up to eighteen, not both empty; fraction
/// digits past the third are dropped.
pub open spec fn unsigned_milli(s: Seq<char>) -> Option<int> {
    let d = find_from(s, '.', 0);
    let ip = s.subrange(0, d);
    let fp = if d < s.len() { s.subrange(d + 1, s.len() as int) } else { Seq::<char>::empty() };
    let f3 = if fp.len() <= 3 { fp } else { fp.subrange(0, 3) };
    if ip.len() > 15 || (ip.len() > 0 && !valid_digits(ip)) || (fp.len() > 0 && !valid_digits(fp)) || (
    ip.len() == 0 && fp.len() == 0) {
        None
    } else {
        Some(digits_value(ip) * 1000 + digits_value(f3) * pow10((3 - f3.len()) as nat))
    }
}

/// Thousandths of a decimal with an optional sign (see `unsigned_milli`),
/// truncated toward zero.
pub open spec fn decimal_milli(s: Seq<char>) -> Option<int> {
    if s.len() > 0 && (s[0] == '-' || s[0] == '+') {
        match unsigned_milli(s.drop_first()) {
            Some(v) => Some(if s[0] == '-' { -v } else { v }),
            None => None,
        }
    } else {
        unsigned_milli(s)
    }
}

/// Index of the first `c` in `s` at or after `from`, or the length if none.
fn find_char(s: &str, n: usize, c: char, from: usize) -> (r: usize)
    requires
        n == s@.len(),
        from <= n,
    ensures
        r as int == find_from(s@, c, from as int),
        from <= r <= n,
{
    let mut j = from;
    while j < n
        invariant
            n == s@.len(),
            from <= j <= n,
            find_from(s@, c, from as int) == find_from(s@, c, j as int),
        decreases n - j,
    {
        if s.get_char(j) == c {
            return j;
        }
        j = j + 1;
    }
    j
}

proof fn lemma_digits_step(t: Seq<char>, k: int)
    requires
        0 <= k < t.len(),
    ensures
        digits_value(t.subrange(0, k + 1)) == digits_value(t.subrange(0, k)) * 10 + digit_value(t[k]),
{
    assert(t.subrange(0, k + 1).drop_last() =~= t.subrange(0, k));
}

/// The value of the digits `s[from..to]`, if they are `valid_digits`.
fn digits_in(s: &str, from: usize, to: usize) -> (r: Option<u64>)
    requires
        from <= to <= s@.len(),
    ensures
        r == (if valid_digits(s@.subrange(from as int, to as int)) {
            Some(digits_value(s@.subrange(from as int, to as int)) as u64)
        } else {
            None::<u64>
        }),
        r is Some ==> r.unwrap() < pow10((to - from) as nat) <= pow10(18),
{
    let ghost t = s@.subrange(from as int, to as int);
    if to == from || to - from > 18 {
        return None;
    }
    proof {
        lemma_pow10_18();
    }
    let mut v: u64 = 0;
    let mut j = from;
    while j < to
        invariant
            from <= j <= to <= s@.len(),
            to - from <= 18,
            t == s@.subrange(from as int, to as int),
            forall|i: int| 0 <= i < j - from ==> is_digit(#[trigger] t[i]),
            v as int == digits_value(t.subrange(0, j - from)),
            v < pow10((j - from) as nat),
            pow10(18) == 1_000_000_000_000_000_000,
        decreases to - j,
    {
        let c = s.get_char(j);
        assert(c == t[j - from]);
        if !('0' <= c && c <= '9') {
            return None;
        }
        proof {
            lemma_digits_step(t, j - from);
            assert(pow10((j + 1 - from) as nat) == 10 * pow10((j - from) as nat));
            lemma_pow10_mono((j + 1 - from) as nat, 18);
        }
        v = v * 10 + (c as u64 - '0' as u64);
        j = j + 1;
    }
    assert(t.subrange(0, (to - from) as int) =~= t);
    proof {
        lemma_pow10_mono((to - from) as nat, 18);
    }
    Some(v)
}

proof fn lemma_pow10_18()
    ensures
        pow10(18) == 1_000_000_000_000_000_000,
{
    reveal_with_fuel(pow10, 19);
}

proof fn lemma_pow10_mono(a: nat, b: nat)
    requires
        a <= b,
    ensures
        1 <= pow10(a) <= pow10(b),
    decreases b,
{
    if a < b {
        lemma_pow10_mono(a, (b - 1) as nat);
    } else if a > 0 {
        lemma_pow10_mono((a - 1) as nat, (a - 1) as nat);
    }
}

proof fn lemma_digits_range(t: Seq<char>)
    requires
        forall|i: int| 0 <= i < t.len() ==> is_digit(#[trigger] t[i]),
    ensures
        0 <= digits_value(t) < pow10(t.len()),
    decreases t.len(),
{
    if t.len() > 0 {
        let u = t.drop_last();
        assert(forall|i: int| 0 <= i < u.len() ==> u[i] == t[i]);
        lemma_digits_range(u);
        assert(is_digit(t[t.len() - 1]));
    }
}

proof fn lemma_pow10_small()
    ensures
        pow10(0) == 1,
        pow10(1) == 10,
        pow10(2) == 100,
        pow10(3) == 1000,
        pow10(15) == 1_000_000_000_000_000,
{
    reveal_with_fuel(pow10, 16);
}

/// Parses an unsigned decimal (see `unsigned_milli`) into thousandths.
fn parse_unsigned_milli(s: &str) -> (r: Option<i64>)
    ensures
        r == (match unsigned_milli(s@) {
            Some(v) => Some(v as i64),
            None => None::<i64>,
        }),
        unsigned_milli(s@) is Some ==> 0 <= unsigned_milli(s@).unwrap() < 1_000_000_000_000_000_000,
{
    proof {
        lemma_pow10_small();
    }
    let n = s.unicode_len();
    let d = find_char(s, n, '.', 0);
    if d > 15 {
        return None;
    }
    let iv: u64 = if d == 0 {
        0
    } else {
        match digits_in(s, 0, d) {
            Some(v) => v,
            None => return None,
        }
    };
    proof {
        lemma_pow10_mono(d as nat, 15);
        if d > 0 {
            lemma_digits_range(s@.subrange(0, d as int));
        }
    }
    let fstart = if d < n { d + 1 } else { n };
    if d == 0 && fstart == n {
        return None;
    }
    let ghost fp = if d < n { s@.subrange(d + 1, n as int) } else { Seq::<char>::empty() };
    let ghost f3 = if fp.len() <= 3 { fp } else { fp.subrange(0, 3) };
    assert(fp =~= s@.subrange(fstart as int, n as int));
    if fstart == n {
        assert(f3 =~= Seq::<char>::empty());
        assert(digits_value(f3) == 0);
        return Some(iv as i64 * 1000);
    }
    let fv = digits_in(s, fstart, n);
    if fv.is_none() {
        return None;
    }
    let e = if n - fstart <= 3 { n } else { fstart + 3 };
    assert(s@.subrange(fstart as int, e as int) =~= f3);
    let f = match digits_in(s, fstart, e) {
        Some(v) => v,
        None => return None,
    };
    proof {
        lemma_digits_range(f3);
    }
    let scale: i64 = if e - fstart == 1 { 100 } else if e - fstart == 2 { 10 } else { 1 };
    assert(scale == pow10((3 - f3.len()) as nat));
    Some(iv as i64 * 1000 + f as i64 * scale)
}

/// Parses a decimal with an optional sign (see `decimal_milli`) into
/// thousandths.
pub fn parse_decimal_milli(s: &str) -> (r: Option<i64>)
    ensures
        r == (match decimal_milli(s@) {
            Some(v) => Some(v as i64),
            None => None::<i64>,
        }),
        r is Some ==> -1_000_000_000_000_000_000 < r.unwrap() < 1_000_000_000_000_000_000,
        decimal_milli(s@) is Some ==> -1_000_000_000_000_000_000 < decimal_milli(s@).unwrap()
            < 1_000_000_000_000_000_000,
{
    let n = s.unicode_len();
    if n > 0 {
        let c = s.get_char(0);
        if c == '-' || c == '+' {
            let body = s.substring_char(1, n);
            assert(body@ =~= s@.drop_first());
            return match parse_unsigned_milli(body) {
                Some(v) => Some(if c == '-' { -v } else { v }),
                None => None,
            };
        }
    }
    parse_unsigned_milli(s)
}

/// Time (thousandths) and color of a record's parameter field
/// `time,mode,color[,...]`.
pub open spec fn comment_params(p: Seq<char>) -> Option<(int, int)> {
    let c1 = find_from(p, ',', 0);
    let c2 = find_from(p, ',', c1 + 1);
    let c3 = find_from(p, ',', c2 + 1);
    if c1 >= p.len() || c2 >= p.len() {
        None
    } else {
        match decimal_milli(p.subrange(0, c1)) {
            None => None,
            Some(t) => {
                let cf = p.subrange(c2 + 1, c3);
                if valid_digits(cf) {
                    Some((t, digits_value(cf)))
                } else {
                    None
                }
            },
        }
    }
}

/// Parses a record's parameter field into its time in milliseconds and its
/// packed color.
pub fn parse_comment_params(p: &str) -> (r: Option<(i64, u64)>)
    ensures
        r == (match comment_params(p@) {
            Some((t, c)) => Some((t as i64, c as u64)),
            None => None::<(i64, u64)>,
        }),
        r is Some ==> -1_000_000_000_000_000_000 < r.unwrap().0 < 1_000_000_000_000_000_000,
        comment_params(p@) is Some ==> -1_000_000_000_000_000_000 < comment_params(p@).unwrap().0
            < 1_000_000_000_000_000_000
            && 0 <= comment_params(p@).unwrap().1 < 1_000_000_000_000_000_000,
{
    proof {
        lemma_pow10_18();
    }
    let n = p.unicode_len();
    let c1 = find_char(p, n, ',', 0);
    if c1 >= n {
        return None;
    }
    let c2 = find_char(p, n, ',', c1 + 1);
    if c2 >= n {
        return None;
    }
    let c3 = find_char(p, n, ',', c2 + 1);
    let t = match parse_decimal_milli(p.substring_char(0, c1)) {
        Some(t) => t,
        None => return None,
    };
    proof {
        if valid_digits(p@.subrange(c2 + 1, c3 as int)) {
            lemma_digits_range(p@.subrange(c2 + 1, c3 as int));
            lemma_pow10_mono((c3 - (c2 + 1)) as nat, 18);
        }
    }
    match digits_in(p, c2 + 1, c3) {
        Some(c) => Some((t, c)),
        None => None,
    }
}

/// The key and value of an option line `key=value`; `#` starts a comment line.
pub open spec fn option_entry(line: Seq<char>) -> Option<(Seq<char>, Seq<char>)> {
    let e = find_from(line, '=', 0);
    if line.len() > 0 && line[0] == '#' {
        None
    } else if e >= line.len() {
        None
    } else {
        Some((line.subrange(0, e), line.subrange(e + 1, line.len() as int)))
    }
}

/// Splits an option line at its first `=`; `None` for a comment line or a
/// line without `=`.
pub fn parse_option_line(line: &str) -> (r: Option<(String, String)>)
    ensures
        r is Some <==> option_entry(line@) is Some,
        r is Some ==> option_entry(line@) == Some((r.unwrap().0@, r.unwrap().1@)),
{
    let n = line.unicode_len();
    if n > 0 && line.get_char(0) == '#' {
        return None;
    }
    let e = find_char(line, n, '=', 0);
    if e >= n {
        return None;
    }
    let k = line.substring_char(0, e).to_owned();
    let v = line.substring_char(e + 1, n).to_owned();
    Some((k, v))
}

/// Font size used when the options give none, in thousandths of a pixel.
pub const DEFAULT_FONT_SIZE: u32 = 40000;

/// The value of the last option line for `key`, if any.
pub open spec fn last_option(lines: Seq<String>, key: Seq<char>) -> Option<Seq<char>>
    decreases lines.len(),
{
    if lines.len() == 0 {
        None
    } else {
        match option_entry(lines.last()@) {
            Some((k, v)) => if k == key {
                Some(v)
            } else {
                last_option(lines.drop_last(), key)
            },
            None => last_option(lines.drop_last(), key),
        }
    }
}

/// A font size option in thousandths of a pixel: a positive decimal number
/// of pixels, at least a thousandth; finer fractions are dropped.
pub open spec fn font_size_value(v: Seq<char>) -> Option<int> {
    match decimal_milli(v) {
        Some(m) => if 1 <= m && m <= u32::MAX {
            Some(m)
        } else {
            None
        },
        None => None,
    }
}

/// The font size that the option lines give: the last `font_size` line if
/// its value is valid, else the default.
pub open spec fn font_size_from(lines: Seq<String>) -> int {
    match last_option(lines, "font_size"@) {
        Some(v) => match font_size_value(v) {
            Some(f) => f,
            None => DEFAULT_FONT_SIZE as int,
        },
        None => DEFAULT_FONT_SIZE as int,
    }
}

/// Reads the font size (thousandths of a pixel) from the lines of the
/// options file.
pub fn font_size_option(lines: &Vec<String>) -> (r: u32)
    ensures
        r as int == font_size_from(lines@),
        r >= 1,
{
    let key = "font_size".to_owned();
    let mut i = lines.len();
    assert(lines@.subrange(0, i as int) =~= lines@);
    while i > 0
        invariant
            i <= lines.len(),
            key@ == "font_size"@,
            last_option(lines@, "font_size"@) == last_option(lines@.subrange(0, i as int), "font_size"@),
        decreases i,
    {
        let ghost pre = lines@.subrange(0, i as int);
        assert(pre.drop_last() =~= lines@.subrange(0, i - 1));
        i = i - 1;
        match parse_option_line(lines[i].as_str()) {
            Some((k, v)) => {
                if k == key {
                    return match parse_decimal_milli(v.as_str()) {
                        Some(m) => if 1 <= m && m <= u32::MAX as i64 {
                            m as u32
                        } else {
                            DEFAULT_FONT_SIZE
                        },
                        None => DEFAULT_FONT_SIZE,
                    };
                }
            },
            None => {},
        }
    }
    DEFAULT_FONT_SIZE
}

} // verus!
