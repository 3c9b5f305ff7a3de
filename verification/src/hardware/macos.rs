//! macOS hardware detection: parsing what `sysctl`, `system_profiler` and `df` report.
use vstd::prelude::*;

use crate::hardware::str_in;
use crate::hardware::windows::gib_u16;
use crate::text::{
    chars_of, contains, digits_value, ends_with, ends_with_str, find_char, find_char_from,
    is_digit, lemma_digits_bound, lemma_digits_concat, lemma_find_char_from, lines, lines_of,
    lowercase, opt_str_view, parse_unsigned, parse_unsigned_chars, pow10, slice_chars, string_of,
    to_lowercase, trim, trim_chars, views, words, words_of,
};
use vstd::arithmetic::div_mod::{
    lemma_div_denominator, lemma_fundamental_div_mod, lemma_fundamental_div_mod_converse,
    lemma_hoist_over_denominator,
};
use crate::binary32::{lemma_two_pow_add, lemma_two_pow_constants, lemma_two_pow_le, two_pow};

verus! {

/// CPU brand, physical core count and logical processor count from the outputs of
/// `sysctl -n machdep.cpu.brand_string`, `hw.physicalcpu` and `hw.logicalcpu`, each trimmed;
/// `None` when a command did not run or a count does not parse.
pub open spec fn mac_cpu_info_of(
    brand: Option<Seq<char>>,
    physical: Option<Seq<char>>,
    logical: Option<Seq<char>>,
) -> Option<(Seq<char>, u16, u16)> {
    match (brand, physical, logical) {
        (Some(b), Some(p), Some(l)) => match (
            parse_unsigned(trim(p), 0xFFFF),
            parse_unsigned(trim(l), 0xFFFF),
        ) {
            (Some(c), Some(t)) => Some((trim(b), c as u16, t as u16)),
            _ => None,
        },
        _ => None,
    }
}

/// CPU brand, core count and logical processor count from `sysctl` outputs.
pub fn detect_cpu_info(brand: Option<&str>, physical: Option<&str>, logical: Option<&str>) -> (r:
    Option<(String, u16, u16)>)
    ensures
        match r {
            Some((name, c, l)) => mac_cpu_info_of(
                opt_str_view(brand),
                opt_str_view(physical),
                opt_str_view(logical),
            ) == Some((name@, c, l)),
            None => mac_cpu_info_of(
                opt_str_view(brand),
                opt_str_view(physical),
                opt_str_view(logical),
            ) is None,
        },
{
    let b = match brand {
        Some(b) => b,
        None => return None,
    };
    let name = trim_chars(chars_of(b).as_slice());
    let p = match physical {
        Some(p) => p,
        None => return None,
    };
    let cores = match parse_unsigned_chars(trim_chars(chars_of(p).as_slice()).as_slice(), 0xFFFF) {
        Some(c) => c as u16,
        None => return None,
    };
    let l = match logical {
        Some(l) => l,
        None => return None,
    };
    let threads = match parse_unsigned_chars(
        trim_chars(chars_of(l).as_slice()).as_slice(),
        0xFFFF,
    ) {
        Some(t) => t as u16,
        None => return None,
    };
    Some((string_of(&name), cores, threads))
}

/// Index of the last `c` before index `j`, or -1.
pub open spec fn last_char_before(s: Seq<char>, c: char, j: int) -> int
    decreases j,
{
    if j <= 0 || j > s.len() {
        -1
    } else if s[j - 1] == c {
        j - 1
    } else {
        last_char_before(s, c, j - 1)
    }
}

proof fn lemma_last_char_before(s: Seq<char>, c: char, j: int)
    requires
        0 <= j <= s.len(),
    ensures
        -1 <= last_char_before(s, c, j) < j,
        last_char_before(s, c, j) >= 0 ==> s[last_char_before(s, c, j)] == c,
        forall|k: int| last_char_before(s, c, j) < k < j ==> s[k] != c,
    decreases j,
{
    if j > 0 && s[j - 1] != c {
        lemma_last_char_before(s, c, j - 1);
    }
}

fn last_char(s: &[char], c: char) -> (r: Option<usize>)
    ensures
        match r {
            Some(k) => last_char_before(s@, c, s@.len() as int) == k as int,
            None => last_char_before(s@, c, s@.len() as int) == -1,
        },
{
    let mut j = s.len();
    while j > 0 && s[j - 1] != c
        invariant
            j <= s@.len(),
            last_char_before(s@, c, s@.len() as int) == last_char_before(s@, c, j as int),
        decreases j,
    {
        j -= 1;
    }
    if j == 0 {
        None
    } else {
        Some(j - 1)
    }
}

/// A line that names a GPU ("Chipset Model" or "GPU") and holds a double quote.
pub open spec fn is_gpu_name_line(l: Seq<char>) -> bool {
    (contains(l, "Chipset Model"@) || contains(l, "GPU"@)) && find_char_from(l, '"', 0) < l.len()
}

/// The first GPU-name line from index `i` on.
pub open spec fn gpu_name_line_from(ls: Seq<Seq<char>>, i: int) -> Option<Seq<char>>
    decreases ls.len() - i,
{
    if i < 0 || i >= ls.len() {
        None
    } else if is_gpu_name_line(ls[i]) {
        Some(ls[i])
    } else {
        gpu_name_line_from(ls, i + 1)
    }
}

/// The GPU name in `system_profiler` output: on the first line that names a GPU and holds a
/// double quote, the text between its first and its last double quote.
pub open spec fn gpu_name_of(text: Seq<char>) -> Option<Seq<char>> {
    match gpu_name_line_from(lines(text), 0) {
        None => None,
        Some(l) => Some(
            l.subrange(find_char_from(l, '"', 0) + 1, last_char_before(l, '"', l.len() as int)),
        ),
    }
}

/// The GPU-name line, if any, has two distinct double quotes (the slice between a single
/// quote and itself would panic).
pub open spec fn gpu_name_readable(text: Seq<char>) -> bool {
    match gpu_name_line_from(lines(text), 0) {
        None => true,
        Some(l) => find_char_from(l, '"', 0) < last_char_before(l, '"', l.len() as int),
    }
}

/// The GPU name in `system_profiler` output.
pub fn extract_gpu_name(text: &str) -> (r: Option<String>)
    requires
        gpu_name_readable(text@),
    ensures
        match r {
            Some(n) => gpu_name_of(text@) == Some(n@),
            None => gpu_name_of(text@) is None,
        },
{
    let t = chars_of(text);
    let ls = lines_of(t.as_slice());
    let mut i: usize = 0;
    while i < ls.len()
        invariant
            i <= ls@.len(),
            views(ls@) == lines(text@),
            gpu_name_readable(text@),
            gpu_name_line_from(views(ls@), 0) == gpu_name_line_from(views(ls@), i as int),
        decreases ls@.len() - i,
    {
        let line = ls[i].as_slice();
        assert(views(ls@)[i as int] == line@);
        if str_in(line, "Chipset Model") || str_in(line, "GPU") {
            let start = find_char(line, '"', 0);
            if start < line.len() {
                proof {
                    lemma_find_char_from(line@, '"', 0);
                    lemma_last_char_before(line@, '"', line@.len() as int);
                    assert(is_gpu_name_line(line@));
                    assert(gpu_name_line_from(views(ls@), 0) == Some(line@));
                }
                match last_char(line, '"') {
                    Some(end) => {
                        let name = slice_chars(line, start + 1, end);
                        return Some(string_of(&name));
                    },
                    None => {
                        return None;
                    },
                }
            }
        }
        i += 1;
    }
    None
}

/// Whether the GPU name of `system_profiler` output can be read: the first line that names
/// a GPU and holds a double quote, if any, holds a second one.
pub fn gpu_output_readable(text: &str) -> (b: bool)
    ensures
        b == gpu_name_readable(text@),
{
    let t = chars_of(text);
    let ls = lines_of(t.as_slice());
    let mut i: usize = 0;
    while i < ls.len()
        invariant
            i <= ls@.len(),
            views(ls@) == lines(text@),
            gpu_name_line_from(views(ls@), 0) == gpu_name_line_from(views(ls@), i as int),
        decreases ls@.len() - i,
    {
        let line = ls[i].as_slice();
        assert(views(ls@)[i as int] == line@);
        if str_in(line, "Chipset Model") || str_in(line, "GPU") {
            let start = find_char(line, '"', 0);
            if start < line.len() {
                proof {
                    lemma_find_char_from(line@, '"', 0);
                    lemma_last_char_before(line@, '"', line@.len() as int);
                    assert(is_gpu_name_line(line@));
                }
                return match last_char(line, '"') {
                    Some(end) => start < end,
                    None => false,
                };
            }
        }
        i += 1;
    }
    true
}

/// The first word, from index `j` on, that ends with "GB".
pub open spec fn gb_word_from(ws: Seq<Seq<char>>, j: int) -> Option<Seq<char>>
    decreases ws.len() - j,
{
    if j < 0 || j >= ws.len() {
        None
    } else if ends_with(ws[j], "GB"@) {
        Some(ws[j])
    } else {
        gb_word_from(ws, j + 1)
    }
}

/// On the first line from index `i` on that mentions "VRAM" or "Memory" and has a word ending
/// with "GB": that word without "GB", parsed as a 16-bit number (`None` if it does not parse).
pub open spec fn vram_from(ls: Seq<Seq<char>>, i: int) -> Option<u16>
    decreases ls.len() - i,
{
    if i < 0 || i >= ls.len() {
        None
    } else if (contains(ls[i], "VRAM"@) || contains(ls[i], "Memory"@)) && gb_word_from(
        words(ls[i]),
        0,
    ) is Some {
        let w = gb_word_from(words(ls[i]), 0)->0;
        match parse_unsigned(w.subrange(0, w.len() - 2), 0xFFFF) {
            Some(v) => Some(v as u16),
            None => None,
        }
    } else {
        vram_from(ls, i + 1)
    }
}

/// The VRAM size in GB in `system_profiler` output.
pub open spec fn vram_of(text: Seq<char>) -> Option<u16> {
    vram_from(lines(text), 0)
}

fn gb_word(ws: &Vec<Vec<char>>) -> (r: Option<usize>)
    ensures
        match r {
            Some(j) => j < ws@.len() && gb_word_from(views(ws@), 0) == Some(ws@[j as int]@) && ends_with(
                ws@[j as int]@,
                "GB"@,
            ),
            None => gb_word_from(views(ws@), 0) is None,
        },
{
    let mut j: usize = 0;
    while j < ws.len()
        invariant
            j <= ws@.len(),
            gb_word_from(views(ws@), 0) == gb_word_from(views(ws@), j as int),
        decreases ws@.len() - j,
    {
        assert(views(ws@)[j as int] == ws@[j as int]@);
        if ends_with_str(ws[j].as_slice(), "GB") {
            return Some(j);
        }
        j += 1;
    }
    None
}

/// The VRAM size in GB in `system_profiler` output.
pub fn extract_vram(text: &str) -> (r: Option<u16>)
    ensures
        r == vram_of(text@),
{
    let t = chars_of(text);
    let ls = lines_of(t.as_slice());
    let mut i: usize = 0;
    while i < ls.len()
        invariant
            i <= ls@.len(),
            views(ls@) == lines(text@),
            vram_from(views(ls@), 0) == vram_from(views(ls@), i as int),
        decreases ls@.len() - i,
    {
        let line = ls[i].as_slice();
        assert(views(ls@)[i as int] == line@);
        if str_in(line, "VRAM") || str_in(line, "Memory") {
            let ws = words_of(line);
            match gb_word(&ws) {
                Some(j) => {
                    let w = ws[j].as_slice();
                    proof {
                        reveal_strlit("GB");
                    }
                    let num = slice_chars(w, 0, w.len() - 2);
                    return match parse_unsigned_chars(num.as_slice(), 0xFFFF) {
                        Some(v) => Some(v as u16),
                        None => None,
                    };
                },
                None => {},
            }
        }
        i += 1;
    }
    None
}

/// The Apple-Silicon and AMD table of Macs: name fragment and score, in matching order.
pub open spec fn mac_gpu_table() -> Seq<(&'static str, u16)> {
    seq![
        ("rx 6800", 84),
        ("rx 6700", 76),
        ("rx 580", 48),
        ("radeon pro 580", 50),
        ("radeon pro 560", 40),
    ]
}

/// The score of the first table row, from index `i` on, whose fragment occurs in `n`; 30 if none.
pub open spec fn mac_table_score_from(n: Seq<char>, i: int) -> u16
    decreases mac_gpu_table().len() - i,
{
    if i < 0 || i >= mac_gpu_table().len() {
        30
    } else if contains(n, mac_gpu_table()[i].0@) {
        mac_gpu_table()[i].1
    } else {
        mac_table_score_from(n, i + 1)
    }
}

/// GPU score of a Mac GPU name: that of the name in lowercase.
pub open spec fn mac_gpu_score_of(name: Seq<char>) -> u16 {
    mac_gpu_score_of_lower(lowercase(name))
}

/// GPU score of a lowercase Mac GPU name: Apple M3 85/75/66, M2 72/62/55, M1 66/55/48 for
/// Max/Pro/plain; otherwise the AMD table, 30 if nothing matches.
pub open spec fn mac_gpu_score_of_lower(l: Seq<char>) -> u16 {
    if contains(l, "m3"@) {
        if contains(l, "max"@) {
            85
        } else if contains(l, "pro"@) {
            75
        } else {
            66
        }
    } else if contains(l, "m2"@) {
        if contains(l, "max"@) {
            72
        } else if contains(l, "pro"@) {
            62
        } else {
            55
        }
    } else if contains(l, "m1"@) {
        if contains(l, "max"@) {
            66
        } else if contains(l, "pro"@) {
            55
        } else {
            48
        }
    } else {
        mac_table_score_from(l, 0)
    }
}

/// GPU score of a Mac GPU name.
pub fn score_gpu_from_name(name: &str) -> (r: u16)
    ensures
        r == mac_gpu_score_of(name@),
{
    let lower = to_lowercase(name);
    score_gpu_from_lowercase(lower.as_str())
}

/// GPU score of a lowercase Mac GPU name.
pub fn score_gpu_from_lowercase(lower: &str) -> (r: u16)
    ensures
        r == mac_gpu_score_of_lower(lower@),
{
    let l = chars_of(lower);
    let l = l.as_slice();
    if str_in(l, "m3") {
        if str_in(l, "max") {
            return 85;
        } else if str_in(l, "pro") {
            return 75;
        } else {
            return 66;
        }
    } else if str_in(l, "m2") {
        if str_in(l, "max") {
            return 72;
        } else if str_in(l, "pro") {
            return 62;
        } else {
            return 55;
        }
    } else if str_in(l, "m1") {
        if str_in(l, "max") {
            return 66;
        } else if str_in(l, "pro") {
            return 55;
        } else {
            return 48;
        }
    }
    let mut rows: Vec<(&'static str, u16)> = Vec::new();
    rows.push(("rx 6800", 84));
    rows.push(("rx 6700", 76));
    rows.push(("rx 580", 48));
    rows.push(("radeon pro 580", 50));
    rows.push(("radeon pro 560", 40));
    assert(rows@ == mac_gpu_table());
    let mut i: usize = 0;
    while i < rows.len()
        invariant
            i <= rows@.len(),
            rows@ == mac_gpu_table(),
            l@ == lower@,
            !contains(l@, "m3"@),
            !contains(l@, "m2"@),
            !contains(l@, "m1"@),
            mac_table_score_from(l@, 0) == mac_table_score_from(l@, i as int),
        decreases rows@.len() - i,
    {
        let row = rows[i];
        if str_in(l, row.0) {
            return row.1;
        }
        i += 1;
    }
    30
}

/// GPU name, score and VRAM from `system_profiler SPDisplaysDataType -json` output.
pub open spec fn mac_gpu_info_of(output: Option<Seq<char>>) -> Option<(Seq<char>, u16, Option<u16>)> {
    match output {
        None => None,
        Some(text) => match gpu_name_of(text) {
            None => None,
            Some(n) => Some((n, mac_gpu_score_of(n), vram_of(text))),
        },
    }
}

/// GPU name, score and VRAM from `system_profiler` output.
pub fn detect_gpu_info(output: Option<&str>) -> (r: Option<(String, u16, Option<u16>)>)
    requires
        match output {
            Some(t) => gpu_name_readable(t@),
            None => true,
        },
    ensures
        match r {
            Some((n, s, v)) => mac_gpu_info_of(opt_str_view(output)) == Some((n@, s, v)),
            None => mac_gpu_info_of(opt_str_view(output)) is None,
        },
{
    let text = match output {
        None => return None,
        Some(t) => t,
    };
    match extract_gpu_name(text) {
        Some(name) => {
            let score = score_gpu_from_name(name.as_str());
            let vram = extract_vram(text);
            Some((name, score, vram))
        },
        None => None,
    }
}

/// Memory in GB from `sysctl -n hw.memsize`: the trimmed byte count in whole GiB,
/// truncated to 16 bits.
pub open spec fn mac_memory_gb_of(output: Option<Seq<char>>) -> Option<u16> {
    match output {
        None => None,
        Some(t) => match parse_unsigned(trim(t), u64::MAX as nat) {
            Some(b) => Some(gib_u16(b)),
            None => None,
        },
    }
}

/// Memory in GB from `sysctl` output.
pub fn detect_memory_gb(output: Option<&str>) -> (r: Option<u16>)
    ensures
        r == mac_memory_gb_of(opt_str_view(output)),
{
    let t = match output {
        None => return None,
        Some(t) => t,
    };
    let c = trim_chars(chars_of(t).as_slice());
    match parse_unsigned_chars(c.as_slice(), u64::MAX) {
        Some(b) => Some(((b / 1073741824) % 65536) as u16),
        None => None,
    }
}

/// A character kept in the number of a size string: an ASCII digit or a dot.
pub open spec fn numeric_char(c: char) -> bool {
    is_digit(c) || c == '.'
}

/// `numeric_char` as a predicate on characters.
pub open spec fn numeric_pred() -> spec_fn(char) -> bool {
    |c: char| numeric_char(c)
}

/// The number in a size string, as its integer digits and its fraction digits: the digits and
/// dots of `t`, in order, read as a decimal number with at most one dot and at least one digit.
pub open spec fn size_number(t: Seq<char>) -> Option<(Seq<char>, Seq<char>)> {
    let n = t.filter(numeric_pred());
    let p = find_char_from(n, '.', 0);
    if p >= n.len() {
        if n.len() > 0 {
            Some((n, Seq::<char>::empty()))
        } else {
            None
        }
    } else if n.len() == 1 || find_char_from(n, '.', p + 1) < n.len() {
        None
    } else {
        Some((n.subrange(0, p), n.subrange(p + 1, n.len() as int)))
    }
}

/// The largest `e`, from `e` on and below 64, with `2^e <= n`.
pub open spec fn log2_from(n: nat, e: nat) -> nat
    decreases 64 - e,
{
    if e >= 63 || two_pow(e + 1) > n {
        e
    } else {
        log2_from(n, e + 1)
    }
}

/// The non-negative decimal `n / d` (`d > 0`) parsed as an `f64` and converted to `u16`:
/// rounded to the nearest `f64` (53 significant bits, ties to even), then truncated toward
/// zero, at most 65535. Below 65535 the result is the integer part `f`, or `f + 1` where
/// `n / d` lies within half the `f64` spacing below `f + 1`: 2^(e - 53) for
/// `2^e <= f < 2^(e + 1)`, and 2^-54 for `f == 0` (a tie goes to `f + 1`, whose last bit is
/// even).
pub open spec fn f64_truncated(n: nat, d: nat) -> u16 {
    let f = n / d;
    let r = n % d;
    if f >= 65535 {
        65535
    } else if f == 0 {
        if two_pow(54) * (d - r) <= d {
            1
        } else {
            0
        }
    } else if two_pow(53) * (d - r) <= d * two_pow(log2_from(f, 0)) {
        (f + 1) as u16
    } else {
        f as u16
    }
}

/// `f64_truncated` from the integer part `f` (below 65535) and the first 64 bits of the
/// fraction, `frac = floor(2^64 * (n % d) / d)`.
pub open spec fn f64_choice(f: nat, frac: nat) -> u16 {
    if f == 0 {
        if frac >= two_pow(64) - two_pow(10) {
            1
        } else {
            0
        }
    } else if frac >= two_pow(64) - two_pow(11 + log2_from(f, 0)) {
        (f + 1) as u16
    } else {
        f as u16
    }
}

proof fn lemma_log2_from_bound(n: nat, e: nat)
    requires
        1 <= n < 0x1_0000,
        e <= 15,
        two_pow(e) <= n,
    ensures
        log2_from(n, e) <= 15,
        two_pow(log2_from(n, e)) <= n,
    decreases 64 - e,
{
    lemma_two_pow_constants();
    if e < 63 && two_pow(e + 1) <= n {
        if e == 15 {
            assert(two_pow(16) == 2 * two_pow(15));
            lemma_two_pow_add(8, 8);
            assert(two_pow(8) == 0x100) by {
                reveal_with_fuel(two_pow, 9);
            }
            assert(false);
        }
        lemma_log2_from_bound(n, e + 1);
    }
}

/// The first 64 bits of the fraction decide the rounding.
proof fn lemma_f64_choice(n: nat, d: nat)
    requires
        d > 0,
        n / d < 65535,
    ensures
        f64_truncated(n, d) == f64_choice(n / d, (two_pow(64) * (n % d)) / d),
{
    lemma_two_pow_constants();
    let f = n / d;
    let r = n % d;
    lemma_fundamental_div_mod(n as int, d as int);
    let frac = (two_pow(64) * r) / d;
    lemma_fundamental_div_mod((two_pow(64) * r) as int, d as int);
    let rem = (two_pow(64) * r) % d;
    assert(two_pow(64) * r == d * frac + rem && 0 <= rem < d);
    let e: nat = if f == 0 {
        0
    } else {
        lemma_log2_from_bound(f, 0);
        (log2_from(f, 0) + 1) as nat
    };
    // The threshold `t` of `f64_choice` is `2^64 - 2^(10 + e)`; `frac >= t` exactly when
    // `2^64 * r >= t * d`, that is when `2^(10 + e) * d >= 2^64 * (d - r)`.
    lemma_two_pow_le((10 + e) as nat, 26);
    lemma_two_pow_le(26, 64);
    let t = two_pow(64) - two_pow((10 + e) as nat);
    assert(frac >= t <==> two_pow(64) * r >= t * d) by (nonlinear_arith)
        requires
            two_pow(64) * r == d * frac + rem,
            0 <= rem < d,
            t >= 0,
    ;
    lemma_two_pow_add(10, 54);
    lemma_two_pow_add(11, 53);
    assert(two_pow(10) == 0x400);
    assert(two_pow(11) == 0x800);
    if f == 0 {
        assert(two_pow(64) * r >= t * d <==> two_pow(54) * (d - r) <= d) by (nonlinear_arith)
            requires
                t == two_pow(64) - two_pow(10),
                two_pow(64) == two_pow(10) * two_pow(54),
                two_pow(10) == 0x400,
                r < d,
        ;
    } else {
        let g = log2_from(f, 0);
        lemma_two_pow_add(11, g);
        assert((10 + e) as nat == 11 + g);
        assert(two_pow(64) * r >= t * d <==> two_pow(53) * (d - r) <= d * two_pow(g)) by (
        nonlinear_arith)
            requires
                t == two_pow(64) - two_pow(11 + g),
                two_pow(64) == two_pow(11) * two_pow(53),
                two_pow(11 + g) == two_pow(11) * two_pow(g),
                two_pow(11) == 0x800,
                r < d,
        ;
    }
}

/// Gigabytes in a size string of `df -h` ("500G", "1.5T"): the number of the trimmed text read
/// as an `f64`, kept for "G", divided by 1024 for "M", multiplied by 1024 for "T" (the first
/// of these letters, in that order, that occurs in the text decides), truncated toward zero
/// and at most 65535 (see `f64_truncated`; scaling by 1024 is exact in `f64`); `None` when
/// the number does not parse or no unit letter occurs.
pub open spec fn size_gb_of(s: Seq<char>) -> Option<u16> {
    let t = trim(s);
    match size_number(t) {
        None => None,
        Some((ip, fp)) => {
            let num = digits_value(ip + fp);
            let den = pow10(fp.len());
            if contains(t, "G"@) {
                Some(f64_truncated(num, den))
            } else if contains(t, "M"@) {
                Some(f64_truncated(num, 1024 * den))
            } else if contains(t, "T"@) {
                Some(f64_truncated(1024 * num, den))
            } else {
                None
            }
        },
    }
}

/// The digits and dots of `t`, in order.
fn numeric_chars(t: &[char]) -> (v: Vec<char>)
    ensures
        v@ == t@.filter(numeric_pred()),
{
    let mut v: Vec<char> = Vec::new();
    let mut k: usize = 0;
    proof {
        reveal(Seq::filter);
        assert(t@.take(0).filter(numeric_pred()) =~= Seq::<char>::empty());
    }
    while k < t.len()
        invariant
            k <= t@.len(),
            v@ == t@.take(k as int).filter(numeric_pred()),
        decreases t@.len() - k,
    {
        let c = t[k];
        assert(t@.take(k + 1) =~= t@.take(k as int).push(c));
        proof {
            t@.take(k as int).lemma_filter_push(c, numeric_pred());
        }
        let ghost before = t@.take(k as int).filter(numeric_pred());
        if ('0' <= c && c <= '9') || c == '.' {
            v.push(c);
            assert(t@.take(k + 1).filter(numeric_pred()) == before.push(c));
        } else {
            assert(t@.take(k + 1).filter(numeric_pred()) == before);
        }
        k += 1;
    }
    assert(t@.take(t@.len() as int) =~= t@);
    v
}

/// The value of the digits `ds`, or `cap` if it is larger.
fn capped_digits_value(ds: &[char], cap: u64) -> (r: u64)
    requires
        cap < 0x1_0000_0000,
        forall|k: int| 0 <= k < ds@.len() ==> is_digit(#[trigger] ds@[k]),
    ensures
        r as nat == if digits_value(ds@) < cap { digits_value(ds@) } else { cap as nat },
{
    let mut acc: u64 = 0;
    let mut k: usize = 0;
    while k < ds.len()
        invariant
            k <= ds@.len(),
            cap < 0x1_0000_0000,
            forall|m: int| 0 <= m < ds@.len() ==> is_digit(#[trigger] ds@[m]),
            acc as nat == if digits_value(ds@.take(k as int)) < cap {
                digits_value(ds@.take(k as int))
            } else {
                cap as nat
            },
        decreases ds@.len() - k,
    {
        let ghost pre = ds@.take(k as int);
        let ghost next = ds@.take(k + 1);
        assert(next.drop_last() =~= pre);
        assert(is_digit(ds@[k as int]));
        let d = (ds[k] as u32 - 48) as u64;
        assert(digits_value(next) == digits_value(pre) * 10 + d);
        if acc < cap {
            let v = acc * 10 + d;
            acc = if v < cap {
                v
            } else {
                cap
            };
        } else {
            assert(digits_value(pre) * 10 + d >= digits_value(pre)) by (nonlinear_arith);
        }
        k += 1;
    }
    assert(ds@.take(ds@.len() as int) =~= ds@);
    acc
}

/// One step of the fraction scaling: `m * 0.d f` from the digit `d` and the scaled rest `f`.
proof fn lemma_scale_step(m: nat, d: nat, v: nat, p: nat)
    requires
        p > 0,
    ensures
        ((m * d + (m * v) / p) / 10) == (m * (d * p + v)) / (10 * p),
{
    lemma_hoist_over_denominator((m * v) as int, (m * d) as int, p);
    assert(m * v + (m * d) * p == m * (d * p + v)) by (nonlinear_arith);
    lemma_div_denominator((m * (d * p + v)) as int, p as int, 10);
    assert(p * 10 == 10 * p);
}

/// The integer part of 2^74 times the decimal fraction whose digits are `fp`.
fn fraction_bits(fp: &[char]) -> (r: u128)
    requires
        forall|k: int| 0 <= k < fp@.len() ==> is_digit(#[trigger] fp@[k]),
    ensures
        r as nat == (two_pow(74) * digits_value(fp@)) / pow10(fp@.len()),
        r < two_pow(74),
{
    proof {
        lemma_two_pow_constants();
    }
    let n = fp.len();
    let mut c: u128 = 0;
    let mut j: usize = n;
    assert(fp@.subrange(n as int, n as int) =~= Seq::<char>::empty());
    while j > 0
        invariant
            j <= n == fp@.len(),
            forall|m: int| 0 <= m < fp@.len() ==> is_digit(#[trigger] fp@[m]),
            c < 0x400_0000_0000_0000_0000,
            two_pow(74) == 0x400_0000_0000_0000_0000,
            c as nat == (two_pow(74) * digits_value(fp@.subrange(j as int, n as int))) / pow10(
                (n - j) as nat,
            ),
        decreases j,
    {
        let ghost rest = fp@.subrange(j as int, n as int);
        let ghost all = fp@.subrange(j - 1, n as int);
        assert(is_digit(fp@[j - 1]));
        let d = (fp[j - 1] as u32 - 48) as u128;
        proof {
            let one = seq![fp@[j - 1]];
            assert(one + rest =~= all);
            lemma_digits_concat(one, rest);
            assert(one.drop_last() =~= Seq::<char>::empty());
            assert(digits_value(one.drop_last()) == 0);
            assert(one.last() == fp@[j - 1]);
            assert(digits_value(one) == d);
            assert(pow10((n - j + 1) as nat) == 10 * pow10((n - j) as nat));
            lemma_digits_bound(rest);
            lemma_scale_step(two_pow(74), d as nat, digits_value(rest), pow10((n - j) as nat));
        }
        c = (0x400_0000_0000_0000_0000 * d + c) / 10;
        j -= 1;
    }
    assert(fp@.subrange(0, n as int) =~= fp@);
    c
}

/// The largest `e` with `2^e <= f`, and `2^e`.
fn log2_exec(f: u64) -> (r: (u64, u64))
    requires
        1 <= f < 65535,
    ensures
        r.0 as nat == log2_from(f as nat, 0),
        r.1 as nat == two_pow(r.0 as nat),
        r.0 <= 15,
        r.1 <= f,
{
    proof {
        lemma_two_pow_constants();
        lemma_log2_from_bound(f as nat, 0);
    }
    let mut g: u64 = 0;
    let mut p: u64 = 1;
    while g < 63 && p * 2 <= f
        invariant
            1 <= f < 65535,
            g <= 15,
            p as nat == two_pow(g as nat),
            p <= f,
            log2_from(f as nat, 0) == log2_from(f as nat, g as nat),
            log2_from(f as nat, 0) <= 15,
        decreases 63 - g,
    {
        proof {
            assert(two_pow((g + 1) as nat) == 2 * two_pow(g as nat));
            if g + 1 >= 16 {
                lemma_two_pow_constants();
                lemma_two_pow_le(16, (g + 1) as nat);
            }
            lemma_log2_from_bound(f as nat, (g + 1) as nat);
        }
        g = g + 1;
        p = p * 2;
    }
    proof {
        assert(two_pow((g + 1) as nat) == 2 * two_pow(g as nat));
    }
    (g, p)
}

/// `f64_choice` of the integer part `f` and the 64 fraction bits `frac`.
fn f64_decide(f: u64, frac: u128) -> (r: u16)
    requires
        f < 65535,
        frac < 0x1_0000_0000_0000_0000,
    ensures
        r == f64_choice(f as nat, frac as nat),
{
    proof {
        lemma_two_pow_constants();
    }
    if f == 0 {
        if frac >= 0x1_0000_0000_0000_0000 - 0x400 {
            1
        } else {
            0
        }
    } else {
        let (g, p) = log2_exec(f);
        proof {
            lemma_two_pow_add(11, g as nat);
            assert(two_pow(11) == 0x800);
        }
        if frac >= 0x1_0000_0000_0000_0000 - 0x800 * p as u128 {
            (f + 1) as u16
        } else {
            f as u16
        }
    }
}

/// Gigabytes in a size string of `df -h` ("500G", "512M", "1T").
pub fn parse_size_string(size_str: &str) -> (r: Option<u16>)
    ensures
        r == size_gb_of(size_str@),
{
    let t = trim_chars(chars_of(size_str).as_slice());
    let n = numeric_chars(t.as_slice());
    let ghost nv = t@.filter(numeric_pred());
    proof {
        assert forall|k: int| 0 <= k < nv.len() implies numeric_char(#[trigger] nv[k]) by {
            t@.lemma_filter_pred(numeric_pred(), k);
        }
    }
    let len = n.len();
    let p = find_char(n.as_slice(), '.', 0);
    proof {
        lemma_find_char_from(nv, '.', 0);
    }
    let (ip, fp) = if p >= len {
        if len == 0 {
            return None;
        }
        (n.clone(), Vec::new())
    } else {
        if len == 1 {
            return None;
        }
        let q = find_char(n.as_slice(), '.', p + 1);
        if q < len {
            return None;
        }
        proof {
            lemma_find_char_from(nv, '.', p + 1);
        }
        (slice_chars(n.as_slice(), 0, p), slice_chars(n.as_slice(), p + 1, len))
    };
    assert(size_number(t@) == Some((ip@, fp@)));
    assert forall|k: int| 0 <= k < ip@.len() implies is_digit(#[trigger] ip@[k]) by {
        assert(numeric_char(nv[k]));
    }
    assert forall|k: int| 0 <= k < fp@.len() implies is_digit(#[trigger] fp@[k]) by {
        if p < len {
            assert(fp@[k] == nv[p + 1 + k]);
            assert(numeric_char(nv[p + 1 + k]));
        }
    }
    let whole = capped_digits_value(ip.as_slice(), 0x800_0000);
    let bits = fraction_bits(fp.as_slice());
    let ghost iv = digits_value(ip@);
    let ghost fv = digits_value(fp@);
    let ghost den = pow10(fp@.len());
    proof {
        lemma_digits_concat(ip@, fp@);
        lemma_digits_bound(fp@);
        lemma_size_quotients(iv, fv, den);
        lemma_two_pow_constants();
    }
    let ts = t.as_slice();
    if str_in(ts, "G") {
        if whole >= 65535 {
            Some(65535)
        } else {
            proof {
                lemma_size_bits_g(iv, fv, den, bits as nat);
                lemma_f64_choice(iv * den + fv, den);
            }
            Some(f64_decide(whole, bits / 0x400))
        }
    } else if str_in(ts, "M") {
        let g = whole / 1024;
        if g >= 65535 {
            Some(65535)
        } else {
            proof {
                lemma_size_bits_m(iv, fv, den, bits as nat);
                lemma_f64_choice(iv * den + fv, 1024 * den);
            }
            Some(f64_decide(g, (whole % 1024) as u128 * 0x40_0000_0000_0000 + bits / 0x10_0000))
        }
    } else if str_in(ts, "T") {
        if whole >= 64 {
            Some(65535)
        } else {
            let f = 1024 * whole + (bits / 0x1_0000_0000_0000_0000) as u64;
            proof {
                lemma_size_bits_t(iv, fv, den, bits as nat);
            }
            if f >= 65535 {
                Some(65535)
            } else {
                proof {
                    lemma_f64_choice(1024 * (iv * den + fv), den);
                }
                Some(f64_decide(f, bits % 0x1_0000_0000_0000_0000))
            }
        }
    } else {
        None
    }
}

/// `(c x) / (c d) == x / d`.
proof fn lemma_scaled_floor(x: nat, d: nat, c: nat)
    requires
        d > 0,
        c > 0,
    ensures
        (c * x) / (c * d) == x / d,
{
    lemma_fundamental_div_mod(x as int, d as int);
    assert(c * x == (x / d) * (c * d) + c * (x % d) && c * (x % d) < c * d) by (nonlinear_arith)
        requires
            x == d * (x / d) + x % d,
            0 <= x % d < d,
            c > 0,
    ;
    lemma_fundamental_div_mod_converse((c * x) as int, (c * d) as int, (x / d) as int, (c * (x % d)) as int);
}

/// For "G": the number `iv + fv / den` splits into `iv` and 64 fraction bits `bits / 2^10`.
proof fn lemma_size_bits_g(iv: nat, fv: nat, den: nat, bits: nat)
    requires
        fv < den,
        bits == (two_pow(74) * fv) / den,
        two_pow(74) == 0x400_0000_0000_0000_0000,
        two_pow(64) == 0x1_0000_0000_0000_0000,
    ensures
        (iv * den + fv) / den == iv,
        (two_pow(64) * ((iv * den + fv) % den)) / den == bits / 0x400,
        bits / 0x400 < 0x1_0000_0000_0000_0000,
{
    lemma_fundamental_div_mod_converse((iv * den + fv) as int, den as int, iv as int, fv as int);
    lemma_div_denominator((two_pow(74) * fv) as int, den as int, 0x400);
    assert(two_pow(74) * fv == 0x400 * (two_pow(64) * fv) && den * 0x400 == 0x400 * den)
        by (nonlinear_arith)
        requires
            two_pow(74) == 0x400_0000_0000_0000_0000,
            two_pow(64) == 0x1_0000_0000_0000_0000,
    ;
    lemma_scaled_floor(two_pow(64) * fv, den, 0x400);
    assert((two_pow(64) * fv) / den < two_pow(64)) by (nonlinear_arith)
        requires
            fv < den,
            two_pow(64) > 0,
    ;
}

/// For "M": the 1024th of `iv + fv / den` splits into `iv / 1024` and 64 fraction bits.
proof fn lemma_size_bits_m(iv: nat, fv: nat, den: nat, bits: nat)
    requires
        fv < den,
        bits == (two_pow(74) * fv) / den,
        two_pow(74) == 0x400_0000_0000_0000_0000,
        two_pow(64) == 0x1_0000_0000_0000_0000,
    ensures
        (iv * den + fv) / (1024 * den) == iv / 1024,
        (two_pow(64) * ((iv * den + fv) % (1024 * den))) / (1024 * den) == (iv % 1024)
            * 0x40_0000_0000_0000 + bits / 0x10_0000,
        (iv % 1024) * 0x40_0000_0000_0000 + bits / 0x10_0000 < 0x1_0000_0000_0000_0000,
{
    let a = iv % 1024;
    let rest = a * den + fv;
    assert(iv * den + fv == (iv / 1024) * (1024 * den) + rest && rest < 1024 * den)
        by (nonlinear_arith)
        requires
            iv == 1024 * (iv / 1024) + a,
            a < 1024,
            rest == a * den + fv,
            fv < den,
    ;
    lemma_fundamental_div_mod_converse(
        (iv * den + fv) as int,
        (1024 * den) as int,
        (iv / 1024) as int,
        rest as int,
    );
    // 2^64 * rest / (1024 den) == 2^54 * rest / den == 2^54 a + 2^54 fv / den.
    assert(two_pow(64) * rest == 1024 * (0x40_0000_0000_0000 * rest)) by (nonlinear_arith)
        requires
            two_pow(64) == 0x1_0000_0000_0000_0000,
    ;
    lemma_scaled_floor(0x40_0000_0000_0000 * rest, den, 1024);
    assert(0x40_0000_0000_0000 * rest == 0x40_0000_0000_0000 * fv + (0x40_0000_0000_0000 * a)
        * den) by (nonlinear_arith)
        requires
            rest == a * den + fv,
    ;
    lemma_hoist_over_denominator((0x40_0000_0000_0000 * fv) as int, (0x40_0000_0000_0000 * a) as int, den);
    lemma_div_denominator((two_pow(74) * fv) as int, den as int, 0x10_0000);
    assert(two_pow(74) * fv == 0x10_0000 * (0x40_0000_0000_0000 * fv) && den * 0x10_0000
        == 0x10_0000 * den) by (nonlinear_arith)
        requires
            two_pow(74) == 0x400_0000_0000_0000_0000,
    ;
    lemma_scaled_floor(0x40_0000_0000_0000 * fv, den, 0x10_0000);
    assert((0x40_0000_0000_0000 * fv) / den < 0x40_0000_0000_0000) by (nonlinear_arith)
        requires
            fv < den,
    ;
}

/// For "T": 1024 times `iv + fv / den` splits into `1024 iv + bits / 2^64` and the 64
/// fraction bits `bits % 2^64`.
proof fn lemma_size_bits_t(iv: nat, fv: nat, den: nat, bits: nat)
    requires
        fv < den,
        bits == (two_pow(74) * fv) / den,
        two_pow(74) == 0x400_0000_0000_0000_0000,
        two_pow(64) == 0x1_0000_0000_0000_0000,
    ensures
        (1024 * (iv * den + fv)) / den == 1024 * iv + bits / 0x1_0000_0000_0000_0000,
        (two_pow(64) * ((1024 * (iv * den + fv)) % den)) / den == bits % 0x1_0000_0000_0000_0000,
        bits / 0x1_0000_0000_0000_0000 < 1024,
{
    let w = 1024 * fv;
    lemma_fundamental_div_mod(w as int, den as int);
    let q1 = w / den;
    let r1 = w % den;
    assert(1024 * (iv * den + fv) == (1024 * iv + q1) * den + r1) by (nonlinear_arith)
        requires
            w == 1024 * fv,
            w == den * q1 + r1,
    ;
    lemma_fundamental_div_mod_converse(
        (1024 * (iv * den + fv)) as int,
        den as int,
        (1024 * iv + q1) as int,
        r1 as int,
    );
    assert(q1 < 1024) by (nonlinear_arith)
        requires
            w == 1024 * fv,
            w == den * q1 + r1,
            r1 >= 0,
            fv < den,
    ;
    // bits == (2^64 w) / den == 2^64 q1 + (2^64 r1) / den.
    assert(two_pow(74) * fv == two_pow(64) * w && two_pow(64) * w == two_pow(64) * r1 + (two_pow(
        64,
    ) * q1) * den) by (nonlinear_arith)
        requires
            two_pow(74) == 0x400_0000_0000_0000_0000,
            two_pow(64) == 0x1_0000_0000_0000_0000,
            w == 1024 * fv,
            w == den * q1 + r1,
    ;
    lemma_hoist_over_denominator((two_pow(64) * r1) as int, (two_pow(64) * q1) as int, den);
    let low = (two_pow(64) * r1) / den;
    assert(low < two_pow(64)) by (nonlinear_arith)
        requires
            r1 < den,
            low == (two_pow(64) * r1) / den,
            two_pow(64) > 0,
    ;
    lemma_fundamental_div_mod_converse(bits as int, two_pow(64) as int, q1 as int, low as int);
}

/// With `0 <= fv < den`, the number `iv + fv / den` has integer part `iv`, its 1024th has
/// integer part `iv / 1024`, and 1024 times it has integer part `1024 iv + (1024 fv) / den`.
proof fn lemma_size_quotients(iv: nat, fv: nat, den: nat)
    requires
        fv < den,
    ensures
        (iv * den + fv) / den == iv,
        (iv * den + fv) / (1024 * den) == iv / 1024,
        (1024 * (iv * den + fv)) / den == 1024 * iv + (1024 * fv) / den,
{
    lemma_hoist_over_denominator(fv as int, iv as int, den);
    assert(fv / den == 0) by (nonlinear_arith)
        requires
            fv < den,
    ;
    assert(iv * den == den * iv) by (nonlinear_arith);
    lemma_div_denominator((iv * den + fv) as int, den as int, 1024);
    assert(den * 1024 == 1024 * den);
    lemma_hoist_over_denominator((1024 * fv) as int, (1024 * iv) as int, den);
    assert(1024 * fv + (1024 * iv) * den == 1024 * (iv * den + fv)) by (nonlinear_arith);
}

/// Free space in GB from `df -h /` output: the fourth word of the second line, read as a
/// size string; `None` when the command did not run, the output has fewer than two lines,
/// the line fewer than four words, or the size does not read.
pub open spec fn mac_storage_gb_of(output: Option<Seq<char>>) -> Option<u16> {
    match output {
        None => None,
        Some(text) => {
            let ls = lines(text);
            if ls.len() < 2 {
                None
            } else {
                let ws = words(ls[1]);
                if ws.len() < 4 {
                    None
                } else {
                    size_gb_of(ws[3])
                }
            }
        },
    }
}

/// Free space in GB from `df -h /` output.
pub fn detect_storage_gb(output: Option<&str>) -> (r: Option<u16>)
    ensures
        r == mac_storage_gb_of(opt_str_view(output)),
{
    let text = match output {
        None => return None,
        Some(t) => t,
    };
    let ls = lines_of(chars_of(text).as_slice());
    if ls.len() < 2 {
        return None;
    }
    assert(views(ls@)[1] == ls@[1]@);
    let ws = words_of(ls[1].as_slice());
    if ws.len() < 4 {
        return None;
    }
    assert(views(ws@)[3] == ws@[3]@);
    let w = string_of(&ws[3]);
    parse_size_string(w.as_str())
}

} // verus!
