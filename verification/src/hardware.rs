//! The hardware profile and the parsing of what the system reports about it.
use vstd::prelude::*;

pub mod detect;
pub mod macos;
pub mod windows;

use crate::text::{
    chars_equal_str, chars_of, contains, contains_chars, digits_value, find, find_char, find_str,
    is_digit, leading_digits, leading_digits_chars, lemma_find_from, lines, lines_of, lowercase,
    opt_view,
    parse_unsigned, parse_unsigned_chars, push_char, push_str, slice_chars, split, split_chars,
    split_once, string_of, to_lowercase, trim, trim_chars, views, words, words_of,
};

verus! {

/// What the assessment knows about the machine.
#[derive(Clone, Debug)]
pub struct Hardware {
    pub cpu_name: String,
    pub cpu_score: u16,
    pub logical_cores: u16,
    pub gpu_name: String,
    pub gpu_score: u16,
    pub vram_gb: Option<u16>,
    pub ram_gb: u16,
    pub storage_gb: u16,
    pub os: String,
    pub is_linux: bool,
    pub is_laptop: bool,
    pub vulkan: bool,
}

} // verus!

verus! {

/// `line` is `key: value` with `key` (trimmed) equal to `name`: the trimmed value.
pub open spec fn field_of(line: Seq<char>, name: Seq<char>) -> Option<Seq<char>> {
    match split_once(line, ':') {
        None => None,
        Some((k, v)) => if trim(k) == name {
            Some(trim(v))
        } else {
            None
        },
    }
}

/// Reads a `key: value` line.
pub fn field(line: &str, name: &str) -> (r: Option<String>)
    ensures
        opt_view(r) == field_of(line@, name@),
{
    let l = chars_of(line);
    let l = l.as_slice();
    let k = find_char(l, ':', 0);
    if k >= l.len() {
        return None;
    }
    let key = slice_chars(l, 0, k);
    let value = slice_chars(l, k + 1, l.len());
    let key = trim_chars(key.as_slice());
    if chars_equal_str(key.as_slice(), name) {
        let v = trim_chars(value.as_slice());
        Some(string_of(&v))
    } else {
        None
    }
}

/// The first line, from index `i` on, that is a `name: value` field: its value.
pub open spec fn find_field_from(ls: Seq<Seq<char>>, name: Seq<char>, i: int) -> Option<Seq<char>>
    decreases ls.len() - i,
{
    if i < 0 || i >= ls.len() {
        None
    } else {
        match field_of(ls[i], name) {
            Some(v) => Some(v),
            None => find_field_from(ls, name, i + 1),
        }
    }
}

pub(crate) fn find_field(ls: &Vec<Vec<char>>, name: &str) -> (r: Option<String>)
    ensures
        opt_view(r) == find_field_from(views(ls@), name@, 0),
{
    let mut i: usize = 0;
    while i < ls.len()
        invariant
            i <= ls@.len(),
            find_field_from(views(ls@), name@, 0) == find_field_from(views(ls@), name@, i as int),
        decreases ls@.len() - i,
    {
        let line = string_of(&ls[i]);
        let f = field(line.as_str(), name);
        if f.is_some() {
            return f;
        }
        i += 1;
    }
    None
}

/// Total memory in GB from `/proc/meminfo` text: the first number of the first `MemTotal`
/// field, in kB, divided by 1048576 rounding up, at most 65535; 0 when it cannot be read.
pub open spec fn memory_gb_of(meminfo: Seq<char>) -> u16 {
    match find_field_from(lines(meminfo), "MemTotal"@, 0) {
        None => 0,
        Some(v) => {
            let ws = words(v);
            if ws.len() == 0 {
                0
            } else {
                match parse_unsigned(ws[0], u64::MAX as nat) {
                    None => 0,
                    Some(kb) => {
                        let gb = (kb + 1048575) / 1048576;
                        if gb <= 65535 {
                            gb as u16
                        } else {
                            65535
                        }
                    },
                }
            }
        },
    }
}

/// Total memory in GB from `/proc/meminfo` text.
pub fn memory_gb(meminfo: &str) -> (r: u16)
    ensures
        r == memory_gb_of(meminfo@),
{
    let text = chars_of(meminfo);
    let ls = lines_of(text.as_slice());
    match find_field(&ls, "MemTotal") {
        None => 0,
        Some(v) => {
            let vc = chars_of(v.as_str());
            let ws = words_of(vc.as_slice());
            if ws.len() == 0 {
                return 0;
            }
            assert(views(ws@)[0] == ws@[0]@);
            match parse_unsigned_chars(ws[0].as_slice(), u64::MAX) {
                None => 0,
                Some(kb) => {
                    let gb = kb / 1048576 + if kb % 1048576 == 0 {
                        0
                    } else {
                        1
                    };
                    assert(gb == (kb + 1048575) / 1048576);
                    if gb <= 65535 {
                        gb as u16
                    } else {
                        65535
                    }
                },
            }
        },
    }
}

/// The first line, from index `i` on, that mentions a VGA or 3D controller.
pub open spec fn controller_line_from(ls: Seq<Seq<char>>, i: int) -> Option<Seq<char>>
    decreases ls.len() - i,
{
    if i < 0 || i >= ls.len() {
        None
    } else if contains(ls[i], "VGA compatible controller"@) || contains(ls[i], "3D controller"@) {
        Some(ls[i])
    } else {
        controller_line_from(ls, i + 1)
    }
}

/// GPU name from `lspci -mm` output: on the first VGA/3D controller line, the trimmed
/// vendor and device (the fourth and sixth `"`-separated pieces) joined by a space;
/// `None` when there is no such line or the device is blank.
pub open spec fn lspci_gpu_of(text: Seq<char>) -> Option<Seq<char>> {
    match controller_line_from(lines(text), 0) {
        None => None,
        Some(line) => {
            let fields = split(line, '"');
            if fields.len() > 5 && trim(fields[5]).len() > 0 {
                Some(trim(fields[3]) + seq![' '] + trim(fields[5]))
            } else {
                None
            }
        },
    }
}

/// GPU name from `lspci -mm` output.
pub fn parse_lspci_gpu(text: &str) -> (r: Option<String>)
    ensures
        opt_view(r) == lspci_gpu_of(text@),
{
    let t = chars_of(text);
    let ls = lines_of(t.as_slice());
    let mut i: usize = 0;
    while i < ls.len()
        invariant
            i <= ls@.len(),
            views(ls@) == lines(text@),
            controller_line_from(views(ls@), 0) == controller_line_from(views(ls@), i as int),
        decreases ls@.len() - i,
    {
        let line = ls[i].as_slice();
        assert(views(ls@)[i as int] == line@);
        if str_in(line, "VGA compatible controller") || str_in(line, "3D controller") {
            let fields = split_chars(line, '"');
            if fields.len() > 5 {
                assert(views(fields@)[3] == fields@[3]@ && views(fields@)[5] == fields@[5]@);
                let device = trim_chars(fields[5].as_slice());
                if device.len() > 0 {
                    let vendor = trim_chars(fields[3].as_slice());
                    let mut out = string_of(&vendor);
                    push_char(&mut out, ' ');
                    let d = string_of(&device);
                    push_str(&mut out, d.as_str());
                    return Some(out);
                }
            }
            return None;
        }
        i += 1;
    }
    None
}

pub(crate) fn str_in(hay: &[char], needle: &str) -> (b: bool)
    ensures
        b == contains(hay@, needle@),
{
    let n = chars_of(needle);
    contains_chars(hay, n.as_slice())
}

/// Free space in GB from `df -Pk` output: the fourth word of the second line, in kB,
/// divided by 1048576 rounding down, at most 65535; 0 when it cannot be read.
pub open spec fn storage_gb_of(df: Seq<char>) -> u16 {
    let ls = lines(df);
    if ls.len() < 2 {
        0
    } else {
        let ws = words(ls[1]);
        if ws.len() < 4 {
            0
        } else {
            match parse_unsigned(ws[3], u64::MAX as nat) {
                None => 0,
                Some(kb) => if kb / 1048576 <= 65535 {
                    (kb / 1048576) as u16
                } else {
                    65535
                },
            }
        }
    }
}

/// Free space in GB from `df -Pk` output.
pub fn storage_gb(df: &str) -> (r: u16)
    ensures
        r == storage_gb_of(df@),
{
    let t = chars_of(df);
    let ls = lines_of(t.as_slice());
    if ls.len() < 2 {
        return 0;
    }
    assert(views(ls@)[1] == ls@[1]@);
    let ws = words_of(ls[1].as_slice());
    if ws.len() < 4 {
        return 0;
    }
    assert(views(ws@)[3] == ws@[3]@);
    match parse_unsigned_chars(ws[3].as_slice(), u64::MAX) {
        None => 0,
        Some(kb) => if kb / 1048576 <= 65535 {
            (kb / 1048576) as u16
        } else {
            65535
        },
    }
}

} // verus!

verus! {

/// The position right after the first marker among `i3-`, `i5-`, `i7-`, `i9-` (tried in that
/// order) that occurs in `name`.
pub open spec fn generation_marker(name: Seq<char>) -> Option<int> {
    match find(name, "i3-"@) {
        Some(k) => Some(k + 3),
        None => match find(name, "i5-"@) {
            Some(k) => Some(k + 3),
            None => match find(name, "i7-"@) {
                Some(k) => Some(k + 3),
                None => match find(name, "i9-"@) {
                    Some(k) => Some(k + 3),
                    None => None,
                },
            },
        },
    }
}

/// Intel Core generation of a lowercase CPU name: 12 for "core(tm) 5/7/9 1…" names;
/// otherwise from the model number after an `iN-` marker: its first digit for four digits,
/// its first two for five.
pub open spec fn intel_generation_of(name: Seq<char>) -> Option<u16> {
    if contains(name, "core(tm) 5 1"@) || contains(name, "core(tm) 7 1"@) || contains(
        name,
        "core(tm) 9 1"@,
    ) {
        Some(12)
    } else {
        match generation_marker(name) {
            None => None,
            Some(m) => {
                let digits = leading_digits(name.subrange(m, name.len() as int));
                if digits.len() == 4 {
                    Some(digits_value(digits.subrange(0, 1)) as u16)
                } else if digits.len() == 5 {
                    Some(digits_value(digits.subrange(0, 2)) as u16)
                } else {
                    None
                }
            },
        }
    }
}

proof fn lemma_digits_value_bound(s: Seq<char>)
    requires
        forall|k: int| 0 <= k < s.len() ==> is_digit(#[trigger] s[k]),
    ensures
        s.len() == 1 ==> digits_value(s) <= 9,
        s.len() == 2 ==> digits_value(s) <= 99,
{
    reveal_with_fuel(digits_value, 3);
    if s.len() == 2 {
        assert(is_digit(s[0]) && is_digit(s[1]));
        assert(s[0] as int <= 57 && s[1] as int <= 57);
        assert(s.drop_last().drop_last().len() == 0);
        assert(s.drop_last()[0] == s[0]);
    }
    if s.len() == 1 {
        assert(is_digit(s[0]));
        assert(s[0] as int <= 57);
        assert(s.drop_last().len() == 0);
    }
}

proof fn lemma_leading_digits_are_digits(s: Seq<char>)
    ensures
        forall|k: int| 0 <= k < leading_digits(s).len() ==> is_digit(#[trigger] leading_digits(s)[k]),
        leading_digits(s).len() <= s.len(),
    decreases s.len(),
{
    if s.len() > 0 && is_digit(s[0]) {
        lemma_leading_digits_are_digits(s.drop_first());
        let r = leading_digits(s);
        assert forall|k: int| 0 <= k < r.len() implies is_digit(#[trigger] r[k]) by {
            if k > 0 {
                assert(r[k] == leading_digits(s.drop_first())[k - 1]);
            }
        }
    }
}

fn marker_position(name: &[char]) -> (r: Option<usize>)
    ensures
        match r {
            Some(m) => generation_marker(name@) == Some(m as int) && m <= name@.len(),
            None => generation_marker(name@) is None,
        },
{
    let n = name.len();
    proof {
        reveal_strlit("i3-");
        reveal_strlit("i5-");
        reveal_strlit("i7-");
        reveal_strlit("i9-");
        lemma_find_from(name@, "i3-"@, 0);
        lemma_find_from(name@, "i5-"@, 0);
        lemma_find_from(name@, "i7-"@, 0);
        lemma_find_from(name@, "i9-"@, 0);
    }
    if let Some(k) = find_str(name, "i3-") {
        assert(k + 3 <= n);
        return Some(k + 3);
    }
    if let Some(k) = find_str(name, "i5-") {
        assert(k + 3 <= n);
        return Some(k + 3);
    }
    if let Some(k) = find_str(name, "i7-") {
        assert(k + 3 <= n);
        return Some(k + 3);
    }
    if let Some(k) = find_str(name, "i9-") {
        assert(k + 3 <= n);
        return Some(k + 3);
    }
    None
}

/// Intel Core generation of a lowercase CPU name.
pub fn intel_generation(name: &str) -> (r: Option<u16>)
    ensures
        r == intel_generation_of(name@),
        match r {
            Some(g) => g <= 99,
            None => true,
        },
{
    let n = chars_of(name);
    let n = n.as_slice();
    if str_in(n, "core(tm) 5 1") || str_in(n, "core(tm) 7 1") || str_in(n, "core(tm) 9 1") {
        return Some(12);
    }
    match marker_position(n) {
        None => None,
        Some(m) => {
            let rest = slice_chars(n, m, n.len());
            let digits = leading_digits_chars(rest.as_slice());
            proof {
                lemma_leading_digits_are_digits(rest@);
            }
            if digits.len() == 4 {
                let d = slice_chars(digits.as_slice(), 0, 1);
                proof {
                    lemma_digits_value_bound(d@);
                }
                match parse_unsigned_chars(d.as_slice(), 0xFFFF) {
                    Some(v) => Some(v as u16),
                    None => None,
                }
            } else if digits.len() == 5 {
                let d = slice_chars(digits.as_slice(), 0, 2);
                proof {
                    lemma_digits_value_bound(d@);
                }
                match parse_unsigned_chars(d.as_slice(), 0xFFFF) {
                    Some(v) => Some(v as u16),
                    None => None,
                }
            } else {
                None
            }
        },
    }
}

} // verus!

verus! {

/// CPU family points of a lowercase CPU name: 24 for i9/Ryzen 9/Core 9, 18 for 7,
/// 13 for 5, 7 for 3, otherwise 4.
pub open spec fn cpu_family(lower: Seq<char>) -> nat {
    if contains(lower, "i9"@) || contains(lower, "ryzen 9"@) || contains(lower, "core(tm) 9"@) {
        24
    } else if contains(lower, "i7"@) || contains(lower, "ryzen 7"@) || contains(
        lower,
        "core(tm) 7"@,
    ) {
        18
    } else if contains(lower, "i5"@) || contains(lower, "ryzen 5"@) || contains(
        lower,
        "core(tm) 5"@,
    ) {
        13
    } else if contains(lower, "i3"@) || contains(lower, "ryzen 3"@) || contains(
        lower,
        "core(tm) 3"@,
    ) {
        7
    } else {
        4
    }
}

/// CPU capability score of a lowercase CPU name: 18, plus family points, plus three per Intel
/// generation (5 when unknown), plus half the thread count up to 16; minus 8 for a mobile
/// ("u", without "cpu") name, not below 0; at most 100.
pub open spec fn cpu_score_of_lower(lower: Seq<char>, cores: u16) -> u16 {
    let generation: nat = match intel_generation_of(lower) {
        Some(g) => g as nat,
        None => 5,
    };
    let threads: nat = if cores <= 16 {
        cores as nat
    } else {
        16
    };
    let raw: nat = 18 + cpu_family(lower) + generation * 3 + threads / 2;
    let penalty: nat = if contains(lower, "u"@) && !contains(lower, "cpu"@) {
        8
    } else {
        0
    };
    let v: nat = if raw >= penalty {
        (raw - penalty) as nat
    } else {
        0
    };
    if v <= 100 {
        v as u16
    } else {
        100
    }
}

/// CPU capability score: that of the name in lowercase.
pub open spec fn cpu_score_of(name: Seq<char>, cores: u16) -> u16 {
    cpu_score_of_lower(lowercase(name), cores)
}

/// CPU capability score from the model name and thread count.
pub fn cpu_score(name: &str, cores: u16) -> (r: u16)
    ensures
        r == cpu_score_of(name@, cores),
{
    let lower = to_lowercase(name);
    cpu_score_from_lowercase(lower.as_str(), cores)
}

/// CPU capability score from the lowercase model name and thread count.
pub fn cpu_score_from_lowercase(lower: &str, cores: u16) -> (r: u16)
    ensures
        r == cpu_score_of_lower(lower@, cores),
{
    let generation = match intel_generation(lower) {
        Some(g) => g,
        None => 5,
    };
    let l = chars_of(lower);
    let l = l.as_slice();
    let family: u16 = if str_in(l, "i9") || str_in(l, "ryzen 9") || str_in(l, "core(tm) 9") {
        24
    } else if str_in(l, "i7") || str_in(l, "ryzen 7") || str_in(l, "core(tm) 7") {
        18
    } else if str_in(l, "i5") || str_in(l, "ryzen 5") || str_in(l, "core(tm) 5") {
        13
    } else if str_in(l, "i3") || str_in(l, "ryzen 3") || str_in(l, "core(tm) 3") {
        7
    } else {
        4
    };
    let mobile_penalty: u16 = if str_in(l, "u") && !str_in(l, "cpu") {
        8
    } else {
        0
    };
    let threads = if cores <= 16 {
        cores
    } else {
        16
    };
    let raw: u16 = 18 + family + generation * 3 + threads / 2;
    let v = if raw >= mobile_penalty {
        raw - mobile_penalty
    } else {
        0
    };
    if v <= 100 {
        v
    } else {
        100
    }
}

/// The GPU table: name fragment, score and VRAM in GB, in matching order.
pub open spec fn gpu_table() -> Seq<(&'static str, u16, u16)> {
    seq![
        ("rtx 4090", 100, 24),
        ("rtx 4080", 96, 16),
        ("rtx 4070", 88, 12),
        ("rtx 3090", 92, 24),
        ("rtx 3080", 86, 10),
        ("rtx 3070", 78, 8),
        ("rtx 3060", 70, 12),
        ("rtx 2080", 73, 8),
        ("rtx 2070", 68, 8),
        ("rtx 2060", 62, 6),
        ("gtx 1080", 66, 8),
        ("gtx 1070", 58, 8),
        ("gtx 1060", 50, 6),
        ("gtx 1050 ti", 39, 4),
        ("gtx 1050", 34, 2),
        ("rx 7900", 96, 20),
        ("rx 7800", 89, 16),
        ("rx 6800", 84, 16),
        ("rx 6700", 76, 12),
        ("rx 6600", 65, 8),
        ("rx 580", 48, 8),
        ("radeon 780m", 43, 4),
        ("radeon 680m", 38, 4),
        ("iris xe", 29, 2),
        ("raptor lake-u", 30, 2),
        ("intel graphics", 27, 2),
        ("uhd graphics 620", 18, 1),
        ("hd graphics 620", 17, 1),
        ("apple m3", 66, 8),
        ("apple m2", 55, 8),
        ("apple m1", 48, 8),
    ]
}

fn gpu_table_rows() -> (v: Vec<(&'static str, u16, u16)>)
    ensures
        v@ == gpu_table(),
{
    let mut v = Vec::new();
    v.push(("rtx 4090", 100, 24));
    v.push(("rtx 4080", 96, 16));
    v.push(("rtx 4070", 88, 12));
    v.push(("rtx 3090", 92, 24));
    v.push(("rtx 3080", 86, 10));
    v.push(("rtx 3070", 78, 8));
    v.push(("rtx 3060", 70, 12));
    v.push(("rtx 2080", 73, 8));
    v.push(("rtx 2070", 68, 8));
    v.push(("rtx 2060", 62, 6));
    v.push(("gtx 1080", 66, 8));
    v.push(("gtx 1070", 58, 8));
    v.push(("gtx 1060", 50, 6));
    v.push(("gtx 1050 ti", 39, 4));
    v.push(("gtx 1050", 34, 2));
    v.push(("rx 7900", 96, 20));
    v.push(("rx 7800", 89, 16));
    v.push(("rx 6800", 84, 16));
    v.push(("rx 6700", 76, 12));
    v.push(("rx 6600", 65, 8));
    v.push(("rx 580", 48, 8));
    v.push(("radeon 780m", 43, 4));
    v.push(("radeon 680m", 38, 4));
    v.push(("iris xe", 29, 2));
    v.push(("raptor lake-u", 30, 2));
    v.push(("intel graphics", 27, 2));
    v.push(("uhd graphics 620", 18, 1));
    v.push(("hd graphics 620", 17, 1));
    v.push(("apple m3", 66, 8));
    v.push(("apple m2", 55, 8));
    v.push(("apple m1", 48, 8));
    v
}

/// The first table row, from index `i` on, whose fragment occurs in `n`.
pub open spec fn first_gpu_row(n: Seq<char>, i: int) -> Option<(&'static str, u16, u16)>
    decreases gpu_table().len() - i,
{
    if i < 0 || i >= gpu_table().len() {
        None
    } else if contains(n, gpu_table()[i].0@) {
        Some(gpu_table()[i])
    } else {
        first_gpu_row(n, i + 1)
    }
}

/// GPU score and VRAM from the GPU name: those of the name in lowercase.
pub open spec fn gpu_score_of(name: Seq<char>) -> (u16, Option<u16>) {
    gpu_score_of_lower(lowercase(name))
}

/// GPU score and VRAM from a lowercase GPU name: the first table row whose fragment occurs;
/// otherwise no VRAM and a score of 0 for "unknown gpu", 25 for anything else.
pub open spec fn gpu_score_of_lower(n: Seq<char>) -> (u16, Option<u16>) {
    match first_gpu_row(n, 0) {
        Some(row) => (row.1, Some(row.2)),
        None => if n == "unknown gpu"@ {
            (0, None)
        } else {
            (25, None)
        },
    }
}

/// GPU score and VRAM from the GPU name.
pub fn gpu_score(name: &str) -> (r: (u16, Option<u16>))
    ensures
        r == gpu_score_of(name@),
{
    let lower = to_lowercase(name);
    gpu_score_from_lowercase(lower.as_str())
}

/// GPU score and VRAM from the lowercase GPU name.
pub fn gpu_score_from_lowercase(lower: &str) -> (r: (u16, Option<u16>))
    ensures
        r == gpu_score_of_lower(lower@),
{
    let n = chars_of(lower);
    let n = n.as_slice();
    let rows = gpu_table_rows();
    let mut i: usize = 0;
    while i < rows.len()
        invariant
            i <= rows@.len(),
            rows@ == gpu_table(),
            n@ == lower@,
            first_gpu_row(n@, 0) == first_gpu_row(n@, i as int),
        decreases rows@.len() - i,
    {
        let row = rows[i];
        if str_in(n, row.0) {
            return (row.1, Some(row.2));
        }
        i += 1;
    }
    if chars_equal_str(n, "unknown gpu") {
        (0, None)
    } else {
        (25, None)
    }
}

/// The CPU score with `family` family points: 18, plus those points, plus three per Intel
/// generation (5 when unknown), plus half the thread count up to 16; minus 8 for a mobile name
/// ("u", without "cpu"), not below 0; at most 100.
pub open spec fn score_with_family(lower: Seq<char>, cores: u16, family: nat) -> u16 {
    let generation: nat = match intel_generation_of(lower) {
        Some(g) => g as nat,
        None => 5,
    };
    let threads: nat = if cores <= 16 {
        cores as nat
    } else {
        16
    };
    let raw = 18 + family + 3 * generation + threads / 2;
    let penalty: nat = if contains(lower, "u"@) && !contains(lower, "cpu"@) {
        8
    } else {
        0
    };
    let v: nat = if raw >= penalty {
        (raw - penalty) as nat
    } else {
        0
    };
    if v <= 100 {
        v as u16
    } else {
        100
    }
}

/// Family points of a lowercase CPU name: a "9" family mark ("i9", "ryzen 9", "core(tm) 9")
/// earns 24, else a "7" mark 18, else a "5" mark 13, else a "3" mark 7, else 4.
pub proof fn law_cpu_family_points(lower: Seq<char>, cores: u16)
    ensures
        contains(lower, "i9"@) || contains(lower, "ryzen 9"@) || contains(lower, "core(tm) 9"@)
            ==> cpu_score_of_lower(lower, cores) == score_with_family(lower, cores, 24),
        !(contains(lower, "i9"@) || contains(lower, "ryzen 9"@) || contains(lower, "core(tm) 9"@))
            && (contains(lower, "i7"@) || contains(lower, "ryzen 7"@) || contains(
            lower,
            "core(tm) 7"@,
        )) ==> cpu_score_of_lower(lower, cores) == score_with_family(lower, cores, 18),
        !(contains(lower, "i9"@) || contains(lower, "ryzen 9"@) || contains(lower, "core(tm) 9"@))
            && !(contains(lower, "i7"@) || contains(lower, "ryzen 7"@) || contains(
            lower,
            "core(tm) 7"@,
        )) && (contains(lower, "i5"@) || contains(lower, "ryzen 5"@) || contains(
            lower,
            "core(tm) 5"@,
        )) ==> cpu_score_of_lower(lower, cores) == score_with_family(lower, cores, 13),
        !(contains(lower, "i9"@) || contains(lower, "ryzen 9"@) || contains(lower, "core(tm) 9"@))
            && !(contains(lower, "i7"@) || contains(lower, "ryzen 7"@) || contains(
            lower,
            "core(tm) 7"@,
        )) && !(contains(lower, "i5"@) || contains(lower, "ryzen 5"@) || contains(
            lower,
            "core(tm) 5"@,
        )) && (contains(lower, "i3"@) || contains(lower, "ryzen 3"@) || contains(
            lower,
            "core(tm) 3"@,
        )) ==> cpu_score_of_lower(lower, cores) == score_with_family(lower, cores, 7),
        !(contains(lower, "i9"@) || contains(lower, "ryzen 9"@) || contains(lower, "core(tm) 9"@))
            && !(contains(lower, "i7"@) || contains(lower, "ryzen 7"@) || contains(
            lower,
            "core(tm) 7"@,
        )) && !(contains(lower, "i5"@) || contains(lower, "ryzen 5"@) || contains(
            lower,
            "core(tm) 5"@,
        )) && !(contains(lower, "i3"@) || contains(lower, "ryzen 3"@) || contains(
            lower,
            "core(tm) 3"@,
        )) ==> cpu_score_of_lower(lower, cores) == score_with_family(lower, cores, 4),
{
}

/// A "9" family mark never scores below a "7" one: for two lowercase names with the same
/// generation, thread count and mobile mark, the one with a "9" mark scores at least as much.
pub proof fn law_nine_family_not_below_seven(a: Seq<char>, b: Seq<char>, cores: u16)
    requires
        contains(a, "i9"@) || contains(a, "ryzen 9"@) || contains(a, "core(tm) 9"@),
        !(contains(b, "i9"@) || contains(b, "ryzen 9"@) || contains(b, "core(tm) 9"@)),
        intel_generation_of(a) == intel_generation_of(b),
        (contains(a, "u"@) && !contains(a, "cpu"@)) == (contains(b, "u"@) && !contains(
            b,
            "cpu"@,
        )),
    ensures
        cpu_score_of_lower(b, cores) <= cpu_score_of_lower(a, cores),
{
    law_cpu_family_points(a, cores);
    law_cpu_family_points(b, cores);
}

} // verus!
