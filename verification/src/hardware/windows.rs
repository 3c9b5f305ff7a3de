//! Windows hardware detection: parsing what `wmic` reports.
use vstd::prelude::*;

use crate::hardware::str_in;
use crate::text::{
    chars_of, contains, lines, lines_of, lowercase, parse_unsigned, parse_unsigned_chars,
    opt_str_view, string_of, to_lowercase, trim, trim_chars, views, words, words_of,
};

verus! {

/// CPU name, core count and thread count from the output of
/// `wmic cpu get name,numberofcores,numberoflogicalprocessors`: the first three words of
/// the second line; `None` when the command did not run or the line does not parse.
pub open spec fn cpu_info_of(output: Option<Seq<char>>) -> Option<(Seq<char>, u16, u16)> {
    match output {
        None => None,
        Some(text) => {
            let ls = lines(text);
            if ls.len() < 2 {
                None
            } else {
                let parts = words(ls[1]);
                if parts.len() < 3 {
                    None
                } else {
                    match (parse_unsigned(parts[1], 0xFFFF), parse_unsigned(parts[2], 0xFFFF)) {
                        (Some(c), Some(l)) => Some((parts[0], c as u16, l as u16)),
                        _ => None,
                    }
                }
            }
        },
    }
}

/// CPU name, core count and thread count from `wmic` output.
pub fn detect_cpu_info(output: Option<&str>) -> (r: Option<(String, u16, u16)>)
    ensures
        match r {
            Some((name, c, l)) => cpu_info_of(opt_str_view(output)) == Some((name@, c, l)),
            None => cpu_info_of(opt_str_view(output)) is None,
        },
{
    let text = match output {
        None => return None,
        Some(t) => t,
    };
    let t = chars_of(text);
    let ls = lines_of(t.as_slice());
    if ls.len() < 2 {
        return None;
    }
    assert(views(ls@)[1] == ls@[1]@);
    let parts = words_of(ls[1].as_slice());
    if parts.len() < 3 {
        return None;
    }
    assert(views(parts@)[0] == parts@[0]@ && views(parts@)[1] == parts@[1]@ && views(parts@)[2]
        == parts@[2]@);
    let cores = match parse_unsigned_chars(parts[1].as_slice(), 0xFFFF) {
        Some(c) => c as u16,
        None => return None,
    };
    let logical = match parse_unsigned_chars(parts[2].as_slice(), 0xFFFF) {
        Some(l) => l as u16,
        None => return None,
    };
    Some((string_of(&parts[0]), cores, logical))
}

/// Bytes to whole GiB, truncated to 16 bits as `as u16` does.
pub open spec fn gib_u16(bytes: nat) -> u16 {
    ((bytes / 1073741824) % 65536) as u16
}

fn gib_u16_exec(bytes: u64) -> (r: u16)
    ensures
        r == gib_u16(bytes as nat),
{
    ((bytes / 1073741824) % 65536) as u16
}

/// The Windows GPU table: name fragment and score, in matching order.
pub open spec fn windows_gpu_table() -> Seq<(&'static str, u16)> {
    seq![
        ("rtx 4090", 100),
        ("rtx 4080", 96),
        ("rtx 4070", 88),
        ("rtx 3090", 92),
        ("rtx 3080", 86),
        ("rtx 3070", 78),
        ("rtx 3060", 70),
        ("rtx 2080", 73),
        ("rtx 2070", 68),
        ("rtx 2060", 62),
        ("gtx 1080", 66),
        ("gtx 1070", 58),
        ("gtx 1060", 50),
        ("rx 7900", 96),
        ("rx 7800", 89),
        ("rx 6800", 84),
        ("rx 6700", 76),
        ("rx 6600", 65),
    ]
}

fn windows_gpu_rows() -> (v: Vec<(&'static str, u16)>)
    ensures
        v@ == windows_gpu_table(),
{
    let mut v = Vec::new();
    v.push(("rtx 4090", 100));
    v.push(("rtx 4080", 96));
    v.push(("rtx 4070", 88));
    v.push(("rtx 3090", 92));
    v.push(("rtx 3080", 86));
    v.push(("rtx 3070", 78));
    v.push(("rtx 3060", 70));
    v.push(("rtx 2080", 73));
    v.push(("rtx 2070", 68));
    v.push(("rtx 2060", 62));
    v.push(("gtx 1080", 66));
    v.push(("gtx 1070", 58));
    v.push(("gtx 1060", 50));
    v.push(("rx 7900", 96));
    v.push(("rx 7800", 89));
    v.push(("rx 6800", 84));
    v.push(("rx 6700", 76));
    v.push(("rx 6600", 65));
    v
}

/// The score of the first table row, from index `i` on, whose fragment occurs in `n`; 25 if none.
pub open spec fn windows_gpu_score_from(n: Seq<char>, i: int) -> u16
    decreases windows_gpu_table().len() - i,
{
    if i < 0 || i >= windows_gpu_table().len() {
        25
    } else if contains(n, windows_gpu_table()[i].0@) {
        windows_gpu_table()[i].1
    } else {
        windows_gpu_score_from(n, i + 1)
    }
}

/// GPU score from a GPU name, compared in lowercase against the Windows table; 25 if none.
pub open spec fn windows_gpu_score_of(name: Seq<char>) -> u16 {
    windows_gpu_score_from(lowercase(name), 0)
}

/// GPU score from a GPU name.
pub fn score_gpu_from_name(name: &str) -> (r: u16)
    ensures
        r == windows_gpu_score_of(name@),
{
    let lower = to_lowercase(name);
    score_gpu_from_lowercase(lower.as_str())
}

/// GPU score from a lowercase GPU name: the first row of the Windows table whose fragment
/// occurs in it; 25 if none.
pub fn score_gpu_from_lowercase(lower: &str) -> (r: u16)
    ensures
        r == windows_gpu_score_from(lower@, 0),
{
    let n = chars_of(lower);
    let n = n.as_slice();
    let rows = windows_gpu_rows();
    let mut i: usize = 0;
    while i < rows.len()
        invariant
            i <= rows@.len(),
            rows@ == windows_gpu_table(),
            n@ == lower@,
            windows_gpu_score_from(n@, 0) == windows_gpu_score_from(n@, i as int),
        decreases rows@.len() - i,
    {
        let row = rows[i];
        if str_in(n, row.0) {
            return row.1;
        }
        i += 1;
    }
    25
}

/// GPU name, score and VRAM from the output of
/// `wmic path win32_videocontroller get name,adapterram`: on the second line, the first word
/// is the name and the second, if it parses, the VRAM in bytes.
pub open spec fn gpu_info_of(output: Option<Seq<char>>) -> Option<(Seq<char>, u16, Option<u16>)> {
    match output {
        None => None,
        Some(text) => {
            let ls = lines(text);
            if ls.len() < 2 {
                None
            } else {
                let parts = words(ls[1]);
                if parts.len() == 0 {
                    None
                } else {
                    let vram = if parts.len() > 1 {
                        match parse_unsigned(parts[1], u64::MAX as nat) {
                            Some(b) => Some(gib_u16(b)),
                            None => None,
                        }
                    } else {
                        None
                    };
                    Some((parts[0], windows_gpu_score_of(parts[0]), vram))
                }
            }
        },
    }
}

/// GPU name, score and VRAM from `wmic` output.
pub fn detect_gpu_info(output: Option<&str>) -> (r: Option<(String, u16, Option<u16>)>)
    ensures
        match r {
            Some((name, s, v)) => gpu_info_of(opt_str_view(output)) == Some((name@, s, v)),
            None => gpu_info_of(opt_str_view(output)) is None,
        },
{
    let text = match output {
        None => return None,
        Some(t) => t,
    };
    let t = chars_of(text);
    let ls = lines_of(t.as_slice());
    if ls.len() < 2 {
        return None;
    }
    assert(views(ls@)[1] == ls@[1]@);
    let parts = words_of(ls[1].as_slice());
    if parts.len() == 0 {
        return None;
    }
    assert(views(parts@)[0] == parts@[0]@);
    let name = string_of(&parts[0]);
    let vram = if parts.len() > 1 {
        assert(views(parts@)[1] == parts@[1]@);
        match parse_unsigned_chars(parts[1].as_slice(), u64::MAX) {
            Some(b) => Some(gib_u16_exec(b)),
            None => None,
        }
    } else {
        None
    };
    let score = score_gpu_from_name(name.as_str());
    Some((name, score, vram))
}

/// A byte count on the second line of `wmic` output, in whole GiB truncated to 16 bits.
pub open spec fn second_line_gib_of(output: Option<Seq<char>>) -> Option<u16> {
    match output {
        None => None,
        Some(text) => {
            let ls = lines(text);
            if ls.len() < 2 {
                None
            } else {
                match parse_unsigned(trim(ls[1]), u64::MAX as nat) {
                    Some(b) => Some(gib_u16(b)),
                    None => None,
                }
            }
        },
    }
}

fn second_line_gib(output: Option<&str>) -> (r: Option<u16>)
    ensures
        r == second_line_gib_of(opt_str_view(output)),
{
    let text = match output {
        None => return None,
        Some(t) => t,
    };
    let t = chars_of(text);
    let ls = lines_of(t.as_slice());
    if ls.len() < 2 {
        return None;
    }
    assert(views(ls@)[1] == ls@[1]@);
    let line = trim_chars(ls[1].as_slice());
    match parse_unsigned_chars(line.as_slice(), u64::MAX) {
        Some(b) => Some(gib_u16_exec(b)),
        None => None,
    }
}

/// Physical memory in GB from `wmic computersystem get totalphysicalmemory`.
pub fn detect_memory_gb(output: Option<&str>) -> (r: Option<u16>)
    ensures
        r == second_line_gib_of(opt_str_view(output)),
{
    second_line_gib(output)
}

/// Free disk space in GB from `wmic logicaldisk get freespace`.
pub fn detect_storage_gb(output: Option<&str>) -> (r: Option<u16>)
    ensures
        r == second_line_gib_of(opt_str_view(output)),
{
    second_line_gib(output)
}

} // verus!
