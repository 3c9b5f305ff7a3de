//! Comparing a machine with a game's requirements: checks, verdict, bottleneck, FPS estimate.
use vstd::prelude::*;

use crate::catalog::{Game, LinuxSupport, Tier};
use crate::hardware::Hardware;
use crate::binary32::{
    lemma_round_binary32_monotone, lemma_round_close, lemma_round_upper, lemma_two_pow_constants,
    lemma_two_pow_le,
    round_binary32, round_exec, two_pow,
};
use crate::text::{
    ascii_lowercase, ascii_lowercase_chars, chars_equal_str, chars_of, contains, push_str,
    str_contains, str_views, string_views, to_string,
};

pub mod multi_factor;

verus! {

/// The practical answer to "can I run it?".
#[derive(Clone, Copy, Debug, PartialEq, Eq, Structural)]
pub enum Verdict {
    Run,
    Compromises,
    DontRun,
}

/// The outcome of one requirement check.
#[derive(Clone, Copy, Debug, PartialEq, Eq, Structural)]
pub enum Status {
    Pass,
    Borderline,
    Fail,
    Unknown,
}

/// The full assessment of one game on one machine.
#[derive(Clone, Debug)]
pub struct Assessment {
    pub verdict: Verdict,
    pub confidence: u8,
    pub cpu: Status,
    pub gpu: Status,
    pub ram: Status,
    pub vram: Status,
    pub storage: Status,
    pub os: Status,
    pub api: Status,
    pub bottleneck: &'static str,
    pub fps: Vec<(String, u16)>,
    pub notes: Vec<String>,
}

/// Below the minimum fails, below the recommendation is borderline, otherwise it passes.
pub open spec fn compare_spec(value: u16, minimum: u16, recommended: u16) -> Status {
    if value < minimum {
        Status::Fail
    } else if value < recommended {
        Status::Borderline
    } else {
        Status::Pass
    }
}

/// Compares a value with a minimum and a recommended level.
pub fn compare(value: u16, minimum: u16, recommended: u16) -> (s: Status)
    ensures
        s == compare_spec(value, minimum, recommended),
{
    if value < minimum {
        Status::Fail
    } else if value < recommended {
        Status::Borderline
    } else {
        Status::Pass
    }
}

/// Off Linux the OS passes; on Linux it follows the game's Linux support.
pub open spec fn os_status_spec(support: LinuxSupport, linux: bool) -> Status {
    if !linux {
        Status::Pass
    } else {
        match support {
            LinuxSupport::Native | LinuxSupport::ProtonGood => Status::Pass,
            LinuxSupport::ProtonMixed => Status::Borderline,
        }
    }
}

/// The operating-system check.
pub fn os_status(support: LinuxSupport, linux: bool) -> (s: Status)
    ensures
        s == os_status_spec(support, linux),
{
    if !linux {
        return Status::Pass;
    }
    match support {
        LinuxSupport::Native | LinuxSupport::ProtonGood => Status::Pass,
        LinuxSupport::ProtonMixed => Status::Borderline,
    }
}

/// The GPU check: unknown when no GPU score was found.
pub open spec fn gpu_status(game: Game, hw: Hardware) -> Status {
    if hw.gpu_score == 0 {
        Status::Unknown
    } else {
        compare_spec(hw.gpu_score, game.minimum.gpu, game.recommended.gpu)
    }
}

/// The VRAM check: unknown when the VRAM size is unknown.
pub open spec fn vram_status(game: Game, hw: Hardware) -> Status {
    match hw.vram_gb {
        None => Status::Unknown,
        Some(v) => compare_spec(v, game.minimum.vram_gb, game.recommended.vram_gb),
    }
}

/// The storage check: unknown when no free space was found.
pub open spec fn storage_status(game: Game, hw: Hardware) -> Status {
    if hw.storage_gb == 0 {
        Status::Unknown
    } else if hw.storage_gb >= game.storage_gb {
        Status::Pass
    } else {
        Status::Fail
    }
}

/// The graphics-API check: unknown only for a Vulkan game on Linux without Vulkan.
pub open spec fn api_status(game: Game, hw: Hardware) -> Status {
    if !hw.is_linux || !contains(game.api@, "Vulkan"@) || hw.vulkan {
        Status::Pass
    } else {
        Status::Unknown
    }
}

/// How many of the statuses equal `st`.
pub open spec fn count_of(s: Seq<Status>, st: Status) -> nat
    decreases s.len(),
{
    if s.len() == 0 {
        0
    } else {
        count_of(s.drop_last(), st) + if s.last() == st {
            1nat
        } else {
            0nat
        }
    }
}

/// The six critical checks: CPU, GPU, RAM, VRAM, storage and OS.
pub open spec fn critical_checks(game: Game, hw: Hardware) -> Seq<Status> {
    seq![
        compare_spec(hw.cpu_score, game.minimum.cpu, game.recommended.cpu),
        gpu_status(game, hw),
        compare_spec(hw.ram_gb, game.minimum.ram_gb, game.recommended.ram_gb),
        vram_status(game, hw),
        storage_status(game, hw),
        os_status_spec(game.linux, hw.is_linux),
    ]
}

/// Two or more failures, a failed OS, or failed GPU and VRAM together: don't run.
/// One failure, or anything borderline or unknown: run with compromises. Otherwise: run.
pub open spec fn verdict_of(checks: Seq<Status>) -> Verdict {
    let failures = count_of(checks, Status::Fail);
    let unknowns = count_of(checks, Status::Unknown);
    let borderline = count_of(checks, Status::Borderline);
    let gpu = checks[1];
    let vram = checks[3];
    let os = checks[5];
    if failures >= 2 || os == Status::Fail || (gpu == Status::Fail && vram == Status::Fail) {
        Verdict::DontRun
    } else if failures == 1 || borderline > 0 || unknowns > 0 || os == Status::Borderline {
        Verdict::Compromises
    } else {
        Verdict::Run
    }
}

/// Confidence: 55, plus 6 per known critical check, plus a twelfth of the resolver's
/// confidence, at most 98.
pub open spec fn confidence_of(unknowns: nat, resolver_confidence: u8) -> nat {
    let known: nat = if unknowns <= 6 {
        (6 - unknowns) as nat
    } else {
        0
    };
    let c: nat = 55 + known * 6 + (resolver_confidence / 12) as nat;
    if c <= 98 {
        c
    } else {
        98
    }
}

/// `v as f32 / max(req, 1) as f32`, in units of 2^-39: the quotient rounded to binary32.
/// Every such quotient is 0 or at least 2^-16, so it is a whole number of units.
pub open spec fn component_ratio(v: u16, req: u16) -> nat {
    round_binary32(
        v as nat * two_pow(39),
        if req == 0 {
            1
        } else {
            req as nat
        },
    )
}

/// `a / max(b, 1)` is smaller than `c / max(d, 1)`, both computed in `f32`.
pub open spec fn ratio_lt(a: u16, b: u16, c: u16, d: u16) -> bool {
    component_ratio(a, b) < component_ratio(c, d)
}

fn ratio_of(v: u16, req: u16) -> (r: u128)
    ensures
        r as nat == component_ratio(v, req),
{
    proof {
        lemma_two_pow_constants();
    }
    let b: u128 = if req == 0 {
        1
    } else {
        req as u128
    };
    let (_, _, r) = round_exec(v as u128 * 0x80_0000_0000, b);
    r
}

fn ratio_less(a: u16, b: u16, c: u16, d: u16) -> (r: bool)
    ensures
        r == ratio_lt(a, b, c, d),
{
    ratio_of(a, b) < ratio_of(c, d)
}

/// The component with the smallest ratio of machine value to minimum requirement
/// (each requirement taken as at least 1), computed in `f32`, in the order CPU, GPU, RAM,
/// VRAM, the first one on ties; VRAM only when its size is known.
pub open spec fn bottleneck_of(min: Tier, hw: Hardware) -> &'static str {
    let (n1, v1, r1) = if ratio_lt(hw.gpu_score, min.gpu, hw.cpu_score, min.cpu) {
        ("GPU", hw.gpu_score, min.gpu)
    } else {
        ("CPU", hw.cpu_score, min.cpu)
    };
    let (n2, v2, r2) = if ratio_lt(hw.ram_gb, min.ram_gb, v1, r1) {
        ("RAM", hw.ram_gb, min.ram_gb)
    } else {
        (n1, v1, r1)
    };
    match hw.vram_gb {
        Some(v) => if ratio_lt(v, min.vram_gb, v2, r2) {
            "VRAM"
        } else {
            n2
        },
        None => n2,
    }
}

/// The likely bottleneck; see `bottleneck_of`.
pub fn bottleneck(min: Tier, hw: &Hardware) -> (r: &'static str)
    ensures
        r == bottleneck_of(min, *hw),
{
    let mut name = "CPU";
    let mut value = hw.cpu_score;
    let mut req = min.cpu;
    if ratio_less(hw.gpu_score, min.gpu, value, req) {
        name = "GPU";
        value = hw.gpu_score;
        req = min.gpu;
    }
    if ratio_less(hw.ram_gb, min.ram_gb, value, req) {
        name = "RAM";
        value = hw.ram_gb;
        req = min.ram_gb;
    }
    match hw.vram_gb {
        Some(v) => {
            if ratio_less(v, min.vram_gb, value, req) {
                name = "VRAM";
            }
        },
        None => {},
    }
    name
}

/// The canonical label of a resolution target, matched ASCII-case-insensitively:
/// 720/720p, 1440/1440p/2k, 2160/2160p/4k, and 1080p for anything else.
pub open spec fn canonical_target_of(target: Seq<char>) -> &'static str {
    let t = ascii_lowercase(target);
    if t == "720"@ || t == "720p"@ {
        "720p"
    } else if t == "1440"@ || t == "1440p"@ || t == "2k"@ {
        "1440p"
    } else if t == "2160"@ || t == "2160p"@ || t == "4k"@ {
        "4K"
    } else {
        "1080p"
    }
}

/// The canonical label of a resolution target.
pub fn canonical_target(target: &str) -> (r: &'static str)
    ensures
        r == canonical_target_of(target@),
{
    let chars = chars_of(target);
    let t = ascii_lowercase_chars(chars.as_slice());
    let t = t.as_slice();
    if chars_equal_str(t, "720") || chars_equal_str(t, "720p") {
        "720p"
    } else if chars_equal_str(t, "1440") || chars_equal_str(t, "1440p") || chars_equal_str(t, "2k") {
        "1440p"
    } else if chars_equal_str(t, "2160") || chars_equal_str(t, "2160p") || chars_equal_str(t, "4k") {
        "4K"
    } else {
        "1080p"
    }
}

} // verus!

verus! {

/// `x.clamp(lo, hi)` for `f32` values held as integers in one unit.
pub open spec fn clamp_value(x: nat, lo: nat, hi: nat) -> nat {
    if x < lo {
        lo
    } else if x > hi {
        hi
    } else {
        x
    }
}

/// `v as f32 / rec as f32` in binary32 for `rec > 0`, in units of 2^-28. The unit is fine
/// enough for every quotient of at least 2^-5; a smaller one comes out as a smaller value still,
/// and every use below clamps it to a bound of at least 0.25.
pub open spec fn headroom(v: u16, rec: u16) -> nat {
    round_binary32(v as nat * two_pow(28), rec as nat)
}

/// CPU headroom against the recommendation, clamped to [0.35, 1.35] as `f32` values
/// (94 and 362 hundredths in units of 2^-28: 0x5999998 and 0x159999a0); `None` where the
/// floating-point quotient 0/0 is not a number, and 1.35 for the infinite quotient `x / 0`.
pub open spec fn cpu_factor(cpu: u16, rec: u16) -> Option<nat> {
    if rec == 0 {
        if cpu == 0 {
            None
        } else {
            Some(0x159999a0)
        }
    } else {
        Some(clamp_value(headroom(cpu, rec), 0x5999998, 0x159999a0))
    }
}

/// GPU headroom against the recommendation (for a known, non-zero GPU score), clamped to
/// [0.25, 1.7] as `f32` values in units of 2^-28 (0x4000000 and 0x1b333340).
pub open spec fn gpu_factor(gpu: u16, rec: u16) -> nat {
    if rec == 0 {
        0x1b333340
    } else {
        clamp_value(headroom(gpu, rec), 0x4000000, 0x1b333340)
    }
}

/// VRAM headroom, clamped to [0.55, 1.0] as `f32` values in units of 2^-28 (0x8ccccd0 and
/// 0x10000000), or 0.82 (0xd1eb850) when the size is unknown; `None` where the
/// floating-point quotient 0/0 is not a number.
pub open spec fn vram_factor(vram: Option<u16>, rec: u16) -> Option<nat> {
    match vram {
        None => Some(0xd1eb850),
        Some(v) => if rec == 0 {
            if v == 0 {
                None
            } else {
                Some(0x10000000)
            }
        } else {
            Some(clamp_value(headroom(v, rec), 0x8ccccd0, 0x10000000))
        },
    }
}

/// Resolution scaling as `f32` values in units of 2^-28: 720p 1.55 (0x18ccccc0),
/// 1440p 0.68 (0xae147b0), 4K (either case) or 2160p 0.38 (0x6147ae0), anything else 1.0.
pub open spec fn target_scale(target: Seq<char>) -> nat {
    if target == "720p"@ {
        0x18ccccc0
    } else if target == "1440p"@ {
        0xae147b0
    } else if target == "4K"@ || target == "4k"@ || target == "2160p"@ {
        0x6147ae0
    } else {
        0x10000000
    }
}

/// The product of two `f32` values in units of 2^-28, rounded to `f32`.
pub open spec fn product32(x: nat, y: nat) -> nat {
    round_binary32(x * y, two_pow(28))
}

/// The FPS estimate for one quality factor (an `f32` in units of 2^-28), computed in `f32`:
/// `((52 * min(cpu, (gpu * scale) * quality)) * vram).round()` clamped to [5, 240];
/// 0 where the value is not a number. `f32::min` gives the other operand where one is not a
/// number, and `round` takes halves away from zero.
pub open spec fn fps_for(game: Game, hw: Hardware, target: Seq<char>, quality: nat) -> u16 {
    fps_from_gpu_term(
        game,
        hw,
        product32(
            product32(gpu_factor(hw.gpu_score, game.recommended.gpu), target_scale(target)),
            quality,
        ),
    )
}

/// The FPS estimate from the scaled GPU term `gsq = (gpu * scale) * quality`:
/// `((52 * min(cpu, gsq)) * vram).round()` clamped to [5, 240], 0 where not a number.
pub open spec fn fps_from_gpu_term(game: Game, hw: Hardware, gsq: nat) -> u16 {
    let m = match cpu_factor(hw.cpu_score, game.recommended.cpu) {
        None => gsq,
        Some(c) => if gsq < c {
            gsq
        } else {
            c
        },
    };
    match vram_factor(hw.vram_gb, game.recommended.vram_gb) {
        None => 0,
        Some(v) => {
            let x = product32(round_binary32(52 * m, 1), v);
            let r = (x + two_pow(27)) / two_pow(28);
            if r < 5 {
                5
            } else if r > 240 {
                240
            } else {
                r as u16
            }
        },
    }
}

/// FPS estimates for the Low (1.28, 0x147ae140), Medium (1.0) and High (0.78, 0xc7ae140)
/// presets, labelled with the canonical target; none when the GPU is unknown.
pub open spec fn fps_estimates(game: Game, hw: Hardware, target: Seq<char>) -> Seq<(Seq<char>, u16)> {
    if hw.gpu_score == 0 {
        seq![]
    } else {
        let label = canonical_target_of(target)@ + " "@;
        seq![
            (label + "Low"@, fps_for(game, hw, target, 0x147ae140)),
            (label + "Medium"@, fps_for(game, hw, target, 0x10000000)),
            (label + "High"@, fps_for(game, hw, target, 0xc7ae140)),
        ]
    }
}

/// The views of FPS rows.
pub open spec fn fps_views(v: Seq<(String, u16)>) -> Seq<(Seq<char>, u16)> {
    v.map_values(|p: (String, u16)| (p.0@, p.1))
}

fn headroom_exec(v: u16, rec: u16) -> (r: u128)
    requires
        rec > 0,
    ensures
        r as nat == headroom(v, rec),
        r <= 2 * 0xFFFF * 0x1000_0000 + 1,
{
    proof {
        lemma_two_pow_constants();
    }
    let (_, _, r) = round_exec(v as u128 * 0x1000_0000, rec as u128);
    assert((v as int * 0x1000_0000) / (rec as int) <= 0xFFFF * 0x1000_0000) by (nonlinear_arith)
        requires
            rec >= 1,
            v <= 0xFFFF,
    ;
    r
}

fn clamp_exec(x: u128, lo: u128, hi: u128) -> (r: u128)
    ensures
        r as nat == clamp_value(x as nat, lo as nat, hi as nat),
{
    if x < lo {
        lo
    } else if x > hi {
        hi
    } else {
        x
    }
}

fn product_exec(x: u128, y: u128) -> (r: u128)
    requires
        x <= 0x2000_0000_0000,
        y <= 0x2000_0000,
    ensures
        r as nat == product32(x as nat, y as nat),
        r <= 2 * (x * y / 0x1000_0000) + 1,
{
    proof {
        lemma_two_pow_constants();
    }
    assert(x * y <= 0x2000_0000_0000 * 0x2000_0000) by (nonlinear_arith)
        requires
            x <= 0x2000_0000_0000,
            y <= 0x2000_0000,
    ;
    let (_, _, r) = round_exec(x * y, 0x1000_0000);
    r
}

fn target_scale_exec(target: &str) -> (r: u128)
    ensures
        r as nat == target_scale(target@),
{
    let t = chars_of(target);
    let t = t.as_slice();
    if chars_equal_str(t, "720p") {
        0x18ccccc0
    } else if chars_equal_str(t, "1440p") {
        0xae147b0
    } else if chars_equal_str(t, "4K") || chars_equal_str(t, "4k") || chars_equal_str(t, "2160p") {
        0x6147ae0
    } else {
        0x10000000
    }
}

fn fps_value(game: &Game, hw: &Hardware, target: &str, quality: u128) -> (r: u16)
    requires
        hw.gpu_score > 0,
        quality <= 0x147ae140,
    ensures
        r == fps_for(*game, *hw, target@, quality as nat),
{
    proof {
        lemma_two_pow_constants();
    }
    let rg = game.recommended.gpu;
    let g: u128 = if rg == 0 {
        0x1b333340
    } else {
        clamp_exec(headroom_exec(hw.gpu_score, rg), 0x4000000, 0x1b333340)
    };
    let s = target_scale_exec(target);
    let gs = product_exec(g, s);
    assert(g * s / 0x1000_0000 <= 0x1b333340 * 0x18ccccc0 / 0x1000_0000) by (nonlinear_arith)
        requires
            g <= 0x1b333340,
            s <= 0x18ccccc0,
    ;
    let gsq = product_exec(gs, quality);
    assert(gs * quality / 0x1000_0000 <= 0x6000_0000 * 0x147ae140 / 0x1000_0000) by (
    nonlinear_arith)
        requires
            gs <= 0x6000_0000,
            quality <= 0x147ae140,
    ;
    let rc = game.recommended.cpu;
    let m: u128 = if rc == 0 {
        if hw.cpu_score == 0 {
            gsq
        } else if gsq < 0x159999a0 {
            gsq
        } else {
            0x159999a0
        }
    } else {
        let c = clamp_exec(headroom_exec(hw.cpu_score, rc), 0x5999998, 0x159999a0);
        if gsq < c {
            gsq
        } else {
            c
        }
    };
    let rv = game.recommended.vram_gb;
    let v: u128 = match hw.vram_gb {
        None => 0xd1eb850,
        Some(vv) => {
            if rv == 0 {
                if vv == 0 {
                    return 0;
                } else {
                    0x10000000
                }
            } else {
                clamp_exec(headroom_exec(vv, rv), 0x8ccccd0, 0x10000000)
            }
        },
    };
    assert(m <= 0x2_0000_0000);
    let (_, _, x52) = round_exec(52 * m, 1);
    assert(x52 <= 0x100_0000_0000);
    assert(x52 * v / 0x1000_0000 <= 0x100_0000_0000) by (nonlinear_arith)
        requires
            x52 <= 0x100_0000_0000,
            v <= 0x1000_0000,
    ;
    let x = product_exec(x52, v);
    let r = (x + 0x800_0000) / 0x1000_0000;
    if r < 5 {
        5
    } else if r > 240 {
        240
    } else {
        r as u16
    }
}

/// Heuristic FPS estimates; see `fps_estimates`.
pub fn estimate_fps(game: &Game, hw: &Hardware, target: &str) -> (r: Vec<(String, u16)>)
    ensures
        fps_views(r@) == fps_estimates(*game, *hw, target@),
{
    let mut r: Vec<(String, u16)> = Vec::new();
    if hw.gpu_score == 0 {
        assert(fps_views(r@) =~= fps_estimates(*game, *hw, target@));
        return r;
    }
    let canonical = canonical_target(target);
    let mut low = to_string(canonical);
    push_str(&mut low, " Low");
    let mut medium = to_string(canonical);
    push_str(&mut medium, " Medium");
    let mut high = to_string(canonical);
    push_str(&mut high, " High");
    let f_low = fps_value(game, hw, target, 0x147ae140);
    let f_medium = fps_value(game, hw, target, 0x10000000);
    let f_high = fps_value(game, hw, target, 0xc7ae140);
    r.push((low, f_low));
    r.push((medium, f_medium));
    r.push((high, f_high));
    proof {
        let label = canonical_target_of(target@)@ + " "@;
        reveal_strlit(" Low");
        reveal_strlit(" Medium");
        reveal_strlit(" High");
        reveal_strlit(" ");
        reveal_strlit("Low");
        reveal_strlit("Medium");
        reveal_strlit("High");
        assert(" Low"@ =~= " "@ + "Low"@);
        assert(" Medium"@ =~= " "@ + "Medium"@);
        assert(" High"@ =~= " "@ + "High"@);
        assert(low@ =~= label + "Low"@);
        assert(medium@ =~= label + "Medium"@);
        assert(high@ =~= label + "High"@);
    }
    assert(fps_views(r@) =~= fps_estimates(*game, *hw, target@));
    r
}

} // verus!

verus! {

/// The notes of an assessment: laptop power limits, then Linux/Proton support
/// (on Linux, for games without native support), then the game's known issues.
pub open spec fn notes_of(game: Game, hw: Hardware) -> Seq<Seq<char>> {
    let laptop: Seq<Seq<char>> = if hw.is_laptop {
        seq!["Laptop thermals and power limits may reduce sustained performance"@]
    } else {
        seq![]
    };
    let linux: Seq<Seq<char>> = if hw.is_linux && game.linux != LinuxSupport::Native {
        seq![
            if game.linux == LinuxSupport::ProtonGood {
                "Linux assessment assumes a current Proton release"@
            } else {
                "Linux/Proton support is mixed and can change after game updates"@
            },
        ]
    } else {
        seq![]
    };
    laptop + linux + str_views(game.issues@)
}

fn count_status(checks: &Vec<Status>, st: Status) -> (n: usize)
    ensures
        n == count_of(checks@, st),
        n <= checks@.len(),
{
    let mut n: usize = 0;
    let mut i: usize = 0;
    while i < checks.len()
        invariant
            i <= checks@.len(),
            n == count_of(checks@.take(i as int), st),
            n <= i,
        decreases checks@.len() - i,
    {
        assert(checks@.take(i + 1).drop_last() == checks@.take(i as int));
        if checks[i] == st {
            n += 1;
        }
        i += 1;
    }
    assert(checks@.take(checks@.len() as int) == checks@);
    n
}

fn notes_for(game: &Game, hw: &Hardware) -> (notes: Vec<String>)
    ensures
        string_views(notes@) == notes_of(*game, *hw),
{
    let mut notes: Vec<String> = Vec::new();
    if hw.is_laptop {
        notes.push(to_string("Laptop thermals and power limits may reduce sustained performance"));
    }
    if hw.is_linux && game.linux != LinuxSupport::Native {
        notes.push(
            to_string(
                match game.linux {
                    LinuxSupport::ProtonGood => "Linux assessment assumes a current Proton release",
                    _ => "Linux/Proton support is mixed and can change after game updates",
                },
            ),
        );
    }
    let ghost head = string_views(notes@);
    let mut i: usize = 0;
    while i < game.issues.len()
        invariant
            i <= game.issues@.len(),
            string_views(notes@) == head + str_views(game.issues@.take(i as int)),
        decreases game.issues@.len() - i,
    {
        notes.push(to_string(game.issues[i]));
        assert(str_views(game.issues@.take(i + 1)) =~= str_views(game.issues@.take(i as int)).push(
            game.issues@[i as int]@,
        ));
        assert(string_views(notes@) =~= (head + str_views(game.issues@.take(i as int))).push(
            game.issues@[i as int]@,
        ));
        i += 1;
    }
    assert(game.issues@.take(game.issues@.len() as int) == game.issues@);
    assert(string_views(notes@) =~= notes_of(*game, *hw));
    notes
}

fn critical_for(game: &Game, hw: &Hardware) -> (c: Vec<Status>)
    ensures
        c@ == critical_checks(*game, *hw),
{
    let cpu = compare(hw.cpu_score, game.minimum.cpu, game.recommended.cpu);
    let gpu = if hw.gpu_score == 0 {
        Status::Unknown
    } else {
        compare(hw.gpu_score, game.minimum.gpu, game.recommended.gpu)
    };
    let ram = compare(hw.ram_gb, game.minimum.ram_gb, game.recommended.ram_gb);
    let vram = match hw.vram_gb {
        None => Status::Unknown,
        Some(v) => compare(v, game.minimum.vram_gb, game.recommended.vram_gb),
    };
    let storage = if hw.storage_gb == 0 {
        Status::Unknown
    } else if hw.storage_gb >= game.storage_gb {
        Status::Pass
    } else {
        Status::Fail
    };
    let os = os_status(game.linux, hw.is_linux);
    let mut critical: Vec<Status> = Vec::new();
    critical.push(cpu);
    critical.push(gpu);
    critical.push(ram);
    critical.push(vram);
    critical.push(storage);
    critical.push(os);
    assert(critical@ == critical_checks(*game, *hw));
    critical
}

fn verdict_for(critical: &Vec<Status>) -> (v: Verdict)
    requires
        critical@.len() == 6,
    ensures
        v == verdict_of(critical@),
{
    let failures = count_status(critical, Status::Fail);
    let unknowns = count_status(critical, Status::Unknown);
    let borderline = count_status(critical, Status::Borderline);
    let gpu = critical[1];
    let vram = critical[3];
    let os = critical[5];
    if failures >= 2 || os == Status::Fail || gpu == Status::Fail && vram == Status::Fail {
        Verdict::DontRun
    } else if failures == 1 || borderline > 0 || unknowns > 0 || os == Status::Borderline {
        Verdict::Compromises
    } else {
        Verdict::Run
    }
}

/// Assesses a game on a machine at a resolution target, given the confidence (in percent)
/// with which the game was resolved from the user's query.
pub fn assess(game: &Game, hw: &Hardware, target: &str, resolver_confidence: u8) -> (r: Assessment)
    ensures
        r.cpu == compare_spec(hw.cpu_score, game.minimum.cpu, game.recommended.cpu),
        r.gpu == gpu_status(*game, *hw),
        r.ram == compare_spec(hw.ram_gb, game.minimum.ram_gb, game.recommended.ram_gb),
        r.vram == vram_status(*game, *hw),
        r.storage == storage_status(*game, *hw),
        r.os == os_status_spec(game.linux, hw.is_linux),
        r.api == api_status(*game, *hw),
        r.verdict == verdict_of(critical_checks(*game, *hw)),
        r.confidence == confidence_of(
            count_of(critical_checks(*game, *hw), Status::Unknown),
            resolver_confidence,
        ),
        r.bottleneck == bottleneck_of(game.minimum, *hw),
        fps_views(r.fps@) == fps_estimates(*game, *hw, target@),
        string_views(r.notes@) == notes_of(*game, *hw),
{
    let critical = critical_for(game, hw);
    let verdict = verdict_for(&critical);
    let unknowns = count_status(&critical, Status::Unknown);
    let api = if !hw.is_linux || !str_contains(game.api, "Vulkan") || hw.vulkan {
        Status::Pass
    } else {
        Status::Unknown
    };
    let bottleneck = bottleneck(game.minimum, hw);
    let known: u8 = 6 - unknowns as u8;
    let raw: u8 = 55 + known * 6 + resolver_confidence / 12;
    let confidence = if raw <= 98 {
        raw
    } else {
        98
    };
    let fps = estimate_fps(game, hw, target);
    let notes = notes_for(game, hw);
    Assessment {
        verdict,
        confidence,
        cpu: critical[0],
        gpu: critical[1],
        ram: critical[2],
        vram: critical[3],
        storage: critical[4],
        os: critical[5],
        api,
        bottleneck,
        fps,
        notes,
    }
}

} // verus!

verus! {

/// Two or more failed critical checks mean the game should not be run.
pub proof fn law_multiple_failures_dont_run(game: Game, hw: Hardware)
    requires
        count_of(critical_checks(game, hw), Status::Fail) >= 2,
    ensures
        verdict_of(critical_checks(game, hw)) == Verdict::DontRun,
{
}

/// A single shortfall, outside the OS check, means the game runs with compromises.
pub proof fn law_single_shortfall_compromises(game: Game, hw: Hardware)
    requires
        count_of(critical_checks(game, hw), Status::Fail) == 1,
        os_status_spec(game.linux, hw.is_linux) != Status::Fail,
    ensures
        verdict_of(critical_checks(game, hw)) == Verdict::Compromises,
{
    let c = critical_checks(game, hw);
    reveal_with_fuel(count_of, 7);
    assert(c.drop_last().drop_last().drop_last().drop_last().drop_last().drop_last() =~= seq![]);
    assert(!(c[1] == Status::Fail && c[3] == Status::Fail));
}

/// Without a failure, a borderline or unknown critical check means the game runs with
/// compromises.
pub proof fn law_doubt_compromises(game: Game, hw: Hardware)
    requires
        count_of(critical_checks(game, hw), Status::Fail) == 0,
        count_of(critical_checks(game, hw), Status::Borderline) > 0 || count_of(
            critical_checks(game, hw),
            Status::Unknown,
        ) > 0,
    ensures
        verdict_of(critical_checks(game, hw)) == Verdict::Compromises,
{
    let c = critical_checks(game, hw);
    reveal_with_fuel(count_of, 7);
    assert(c.drop_last().drop_last().drop_last().drop_last().drop_last().drop_last() =~= seq![]);
}

/// A machine that meets the recommended tier of a game (with known GPU, VRAM and free space,
/// enough storage, and an OS that passes) can run it, provided the game recommends no less
/// than its minimum.
pub proof fn law_recommended_runs(game: Game, hw: Hardware)
    requires
        game.minimum.cpu <= game.recommended.cpu,
        game.minimum.gpu <= game.recommended.gpu,
        game.minimum.ram_gb <= game.recommended.ram_gb,
        game.minimum.vram_gb <= game.recommended.vram_gb,
        hw.cpu_score >= game.recommended.cpu,
        hw.gpu_score >= game.recommended.gpu,
        hw.gpu_score > 0,
        hw.ram_gb >= game.recommended.ram_gb,
        hw.vram_gb matches Some(v) && v >= game.recommended.vram_gb,
        hw.storage_gb > 0,
        hw.storage_gb >= game.storage_gb,
        os_status_spec(game.linux, hw.is_linux) == Status::Pass,
    ensures
        verdict_of(critical_checks(game, hw)) == Verdict::Run,
{
    let c = critical_checks(game, hw);
    reveal_with_fuel(count_of, 7);
    assert(c.drop_last().drop_last().drop_last().drop_last().drop_last().drop_last() =~= seq![]);
    assert(forall|i: int| 0 <= i < 6 ==> c[i] == Status::Pass);
}

/// The confidence of an assessment lies between 55 and 98 percent.
pub proof fn law_confidence_bounds(unknowns: nat, resolver_confidence: u8)
    requires
        unknowns <= 6,
    ensures
        55 <= confidence_of(unknowns, resolver_confidence) <= 98,
{
}

/// A canonical target label is its own canonical label.
pub proof fn law_canonical_target_idempotent(target: Seq<char>)
    ensures
        canonical_target_of(canonical_target_of(target)@) == canonical_target_of(target),
{
    reveal_strlit("720p");
    reveal_strlit("720");
    reveal_strlit("1440p");
    reveal_strlit("1440");
    reveal_strlit("2k");
    reveal_strlit("4K");
    reveal_strlit("4k");
    reveal_strlit("2160");
    reveal_strlit("2160p");
    reveal_strlit("1080p");
    let r = canonical_target_of(target);
    assert(ascii_lowercase("720p"@) =~= "720p"@);
    assert(ascii_lowercase("1440p"@) =~= "1440p"@);
    assert(ascii_lowercase("4K"@) =~= "4k"@);
    assert(ascii_lowercase("1080p"@) =~= "1080p"@);
    if r == "720p" {
        assert(canonical_target_of("720p"@) == "720p");
    } else if r == "1440p" {
        assert("1440p"@ != "720"@ && "1440p"@ != "720p"@);
        assert(canonical_target_of("1440p"@) == "1440p");
    } else if r == "4K" {
        assert("4k"@[0] != "2k"@[0]);
        assert("4k"@ != "720"@ && "4k"@ != "720p"@ && "4k"@ != "1440"@ && "4k"@ != "1440p"@
            && "4k"@ != "2k"@);
        assert(canonical_target_of("4K"@) == "4K");
    } else {
        assert("1080p"@[1] != "1440p"@[1]);
        assert("1080p"@[0] != "2160p"@[0]);
        assert("1080p"@ != "720"@ && "1080p"@ != "720p"@ && "1080p"@ != "1440"@ && "1080p"@
            != "1440p"@ && "1080p"@ != "2k"@ && "1080p"@ != "2160"@ && "1080p"@ != "2160p"@
            && "1080p"@ != "4k"@);
        assert(canonical_target_of("1080p"@) == "1080p");
    }
}

} // verus!

verus! {

/// How bad a verdict is: run, run with compromises, don't run.
pub open spec fn verdict_rank(v: Verdict) -> nat {
    match v {
        Verdict::Run => 0,
        Verdict::Compromises => 1,
        Verdict::DontRun => 2,
    }
}

/// How good a check outcome is: fail, borderline, pass (unknown does not occur below).
pub open spec fn status_rank(s: Status) -> nat {
    match s {
        Status::Fail => 0,
        Status::Borderline => 1,
        Status::Pass => 2,
        Status::Unknown => 3,
    }
}

proof fn lemma_compare_monotone(a: u16, b: u16, minimum: u16, recommended: u16)
    requires
        a <= b,
    ensures
        status_rank(compare_spec(a, minimum, recommended)) <= status_rank(
            compare_spec(b, minimum, recommended),
        ),
{
}

proof fn lemma_count_zero(s: Seq<Status>, st: Status)
    ensures
        (count_of(s, st) == 0) <==> (forall|i: int| 0 <= i < s.len() ==> s[i] != st),
    decreases s.len(),
{
    if s.len() > 0 {
        lemma_count_zero(s.drop_last(), st);
        if count_of(s, st) == 0 {
            assert forall|i: int| 0 <= i < s.len() implies s[i] != st by {
                if i < s.len() - 1 {
                    assert(s.drop_last()[i] == s[i]);
                }
            }
        } else {
            if forall|i: int| 0 <= i < s.len() ==> s[i] != st {
                assert forall|i: int| 0 <= i < s.drop_last().len() implies s.drop_last()[i] != st by {
                    assert(s.drop_last()[i] == s[i]);
                }
                assert(s.last() != st);
            }
        }
    }
}

proof fn lemma_count_le(s1: Seq<Status>, s2: Seq<Status>, st: Status)
    requires
        s1.len() == s2.len(),
        forall|i: int| 0 <= i < s2.len() && s2[i] == st ==> s1[i] == st,
    ensures
        count_of(s2, st) <= count_of(s1, st),
    decreases s2.len(),
{
    if s2.len() > 0 {
        assert forall|i: int|
            0 <= i < s2.drop_last().len() && s2.drop_last()[i] == st implies s1.drop_last()[i]
            == st by {
            assert(s2.drop_last()[i] == s2[i] && s1.drop_last()[i] == s1[i]);
        }
        lemma_count_le(s1.drop_last(), s2.drop_last(), st);
    }
}

/// Six check outcomes, unknown in the same places, each known one no worse than before and the
/// OS outcome unchanged, never give a worse verdict.
proof fn lemma_verdict_monotone(s1: Seq<Status>, s2: Seq<Status>)
    requires
        s1.len() == 6,
        s2.len() == 6,
        forall|i: int| 0 <= i < 6 ==> (s1[i] == Status::Unknown <==> s2[i] == Status::Unknown),
        forall|i: int| 0 <= i < 6 ==> status_rank(s1[i]) <= status_rank(s2[i]),
        s1[5] == s2[5],
    ensures
        verdict_rank(verdict_of(s2)) <= verdict_rank(verdict_of(s1)),
{
    lemma_count_le(s1, s2, Status::Fail);
    lemma_count_zero(s1, Status::Fail);
    lemma_count_zero(s1, Status::Borderline);
    lemma_count_zero(s1, Status::Unknown);
    lemma_count_zero(s2, Status::Fail);
    lemma_count_zero(s2, Status::Borderline);
    lemma_count_zero(s2, Status::Unknown);
    if verdict_of(s1) == Verdict::Run {
        assert forall|i: int| 0 <= i < 6 implies s2[i] == Status::Pass by {
            assert(s1[i] != Status::Fail && s1[i] != Status::Borderline && s1[i]
                != Status::Unknown);
        }
    }
}

/// Known free space below what the game needs fails the storage check, so the machine never
/// gets the Run verdict, however well it meets the other requirements; known free space of at
/// least what the game needs passes it.
pub proof fn law_storage_shortfall_fails(game: Game, hw: Hardware)
    ensures
        0 < hw.storage_gb < game.storage_gb ==> storage_status(game, hw) == Status::Fail
            && critical_checks(game, hw)[4] == Status::Fail && verdict_of(
            critical_checks(game, hw),
        ) != Verdict::Run,
        0 < hw.storage_gb && hw.storage_gb >= game.storage_gb ==> storage_status(game, hw)
            == Status::Pass,
{
    let c = critical_checks(game, hw);
    lemma_count_zero(c, Status::Fail);
    if 0 < hw.storage_gb < game.storage_gb {
        assert(c[4] == Status::Fail);
    }
}

/// Better hardware (no lower CPU, GPU, RAM, VRAM or free space, same operating system) never
/// gets a worse verdict, where each of the GPU score, the VRAM size and the free space is known
/// on both machines or unknown on both.
pub proof fn law_better_hardware_never_worse(game: Game, hw: Hardware, better: Hardware)
    requires
        (hw.gpu_score == 0) == (better.gpu_score == 0),
        (hw.storage_gb == 0) == (better.storage_gb == 0),
        (hw.vram_gb is Some) == (better.vram_gb is Some),
        better.cpu_score >= hw.cpu_score,
        better.gpu_score >= hw.gpu_score,
        better.ram_gb >= hw.ram_gb,
        hw.vram_gb is Some ==> better.vram_gb->0 >= hw.vram_gb->0,
        better.storage_gb >= hw.storage_gb,
        better.is_linux == hw.is_linux,
    ensures
        verdict_rank(verdict_of(critical_checks(game, better))) <= verdict_rank(
            verdict_of(critical_checks(game, hw)),
        ),
{
    let c1 = critical_checks(game, hw);
    let c2 = critical_checks(game, better);
    lemma_compare_monotone(hw.cpu_score, better.cpu_score, game.minimum.cpu, game.recommended.cpu);
    lemma_compare_monotone(hw.gpu_score, better.gpu_score, game.minimum.gpu, game.recommended.gpu);
    lemma_compare_monotone(hw.ram_gb, better.ram_gb, game.minimum.ram_gb, game.recommended.ram_gb);
    if hw.vram_gb is Some {
        lemma_compare_monotone(
            hw.vram_gb->0,
            better.vram_gb->0,
            game.minimum.vram_gb,
            game.recommended.vram_gb,
        );
    }
    assert forall|i: int| 0 <= i < 6 implies (c1[i] == Status::Unknown <==> c2[i]
        == Status::Unknown) && status_rank(c1[i]) <= status_rank(c2[i]) by {
        if i == 5 {
            assert(c1[5] == c2[5]);
        }
    }
    lemma_verdict_monotone(c1, c2);
}

} // verus!

verus! {

/// Facts on powers of two that the FPS laws use.
proof fn lemma_fps_powers()
    ensures
        two_pow(28) == 0x1000_0000,
        two_pow(27) == 0x800_0000,
        two_pow(28) * two_pow(100) >= 0x1000_0000 * 0x1_0000_0000_0000_0000,
        two_pow(100) >= 1,
{
    lemma_two_pow_constants();
    lemma_two_pow_le(64, 100);
    assert(two_pow(28) * two_pow(100) >= 0x1000_0000 * 0x1_0000_0000_0000_0000) by (
    nonlinear_arith)
        requires
            two_pow(28) == 0x1000_0000,
            two_pow(100) >= 0x1_0000_0000_0000_0000,
    ;
}

/// A smaller scaled GPU term never gives a higher FPS estimate.
proof fn lemma_fps_from_gpu_term_monotone(game: Game, hw: Hardware, xl: nat, xs: nat)
    requires
        xl <= xs <= 0x2_0000_0000,
    ensures
        fps_from_gpu_term(game, hw, xl) <= fps_from_gpu_term(game, hw, xs),
{
    lemma_fps_powers();
    let u = two_pow(28);
    let (ml, ms) = match cpu_factor(hw.cpu_score, game.recommended.cpu) {
        None => (xl, xs),
        Some(c) => (
            if xl < c {
                xl
            } else {
                c
            },
            if xs < c {
                xs
            } else {
                c
            },
        ),
    };
    assert(ml <= ms);
    match vram_factor(hw.vram_gb, game.recommended.vram_gb) {
        None => {},
        Some(v) => {
            lemma_round_binary32_monotone(52 * ml, 52 * ms, 1);
            let yl = round_binary32(52 * ml, 1);
            let ys = round_binary32(52 * ms, 1);
            lemma_round_upper(52 * ms, 1);
            assert(v <= 0x1000_0000);
            assert(ys * v <= 0x100_0000_0000 * 0x1000_0000) by (nonlinear_arith)
                requires
                    ys * 1 <= 2 * (52 * ms) + 1,
                    ms <= 0x2_0000_0000,
                    v <= 0x1000_0000,
            ;
            assert(yl * v <= ys * v) by (nonlinear_arith)
                requires
                    yl <= ys,
            ;
            lemma_round_binary32_monotone(yl * v, ys * v, u);
            let zl = product32(yl, v);
            let zs = product32(ys, v);
            assert((zl + two_pow(27)) / two_pow(28) <= (zs + two_pow(27)) / two_pow(28)) by (
            nonlinear_arith)
                requires
                    zl <= zs,
                    two_pow(28) == 0x1000_0000,
            ;
        },
    }
}

/// `(gpu * scale)` rounded to `f32` is at most 0x6000_0000 units, and the scaled GPU term at
/// most 0x2_0000_0000.
proof fn lemma_gpu_term_bounds(g: nat, s: nat, q: nat)
    requires
        g <= 0x1b333340,
        s <= 0x18ccccc0,
        q <= 0x147ae140,
    ensures
        product32(g, s) <= 0x6000_0000,
        product32(product32(g, s), q) <= 0x2_0000_0000,
{
    lemma_fps_powers();
    let u = two_pow(28);
    assert(g * s <= 0x1b333340 * 0x18ccccc0) by (nonlinear_arith)
        requires
            g <= 0x1b333340,
            s <= 0x18ccccc0,
    ;
    lemma_round_upper(g * s, u);
    let gs = product32(g, s);
    assert(gs <= 0x6000_0000) by (nonlinear_arith)
        requires
            gs * u <= 2 * (g * s) + u,
            g * s <= 0x1b333340 * 0x18ccccc0,
            u == 0x1000_0000,
    ;
    assert(gs * q <= 0x6000_0000 * 0x147ae140) by (nonlinear_arith)
        requires
            gs <= 0x6000_0000,
            q <= 0x147ae140,
    ;
    lemma_round_upper(gs * q, u);
    assert(product32(gs, q) <= 0x2_0000_0000) by (nonlinear_arith)
        requires
            product32(gs, q) * u <= 2 * (gs * q) + u,
            gs * q <= 0x6000_0000 * 0x147ae140,
            u == 0x1000_0000,
    ;
}

/// A target that scales the GPU by no more than another never gets a higher FPS estimate.
pub proof fn law_smaller_scale_no_more_fps(
    game: Game,
    hw: Hardware,
    small: Seq<char>,
    large: Seq<char>,
    quality: nat,
)
    requires
        quality <= 0x147ae140,
        target_scale(large) <= target_scale(small),
    ensures
        fps_for(game, hw, large, quality) <= fps_for(game, hw, small, quality),
{
    lemma_fps_powers();
    let u = two_pow(28);
    let g = gpu_factor(hw.gpu_score, game.recommended.gpu);
    let sl = target_scale(large);
    let ss = target_scale(small);
    assert(g <= 0x1b333340 && ss <= 0x18ccccc0);
    assert(g * sl <= g * ss && g * ss <= 0x1b333340 * 0x18ccccc0) by (nonlinear_arith)
        requires
            sl <= ss,
            g <= 0x1b333340,
            ss <= 0x18ccccc0,
    ;
    lemma_round_binary32_monotone(g * sl, g * ss, u);
    let gl = product32(g, sl);
    let gs = product32(g, ss);
    lemma_gpu_term_bounds(g, ss, quality);
    assert(gl * quality <= gs * quality && gs * quality <= 0x6000_0000 * 0x147ae140) by (
    nonlinear_arith)
        requires
            gl <= gs,
            gs <= 0x6000_0000,
            quality <= 0x147ae140,
    ;
    lemma_round_binary32_monotone(gl * quality, gs * quality, u);
    lemma_fps_from_gpu_term_monotone(game, hw, product32(gl, quality), product32(gs, quality));
}

/// A smaller quality factor never gets a higher FPS estimate.
pub proof fn law_smaller_quality_no_more_fps(
    game: Game,
    hw: Hardware,
    target: Seq<char>,
    lower: nat,
    higher: nat,
)
    requires
        lower <= higher <= 0x147ae140,
    ensures
        fps_for(game, hw, target, lower) <= fps_for(game, hw, target, higher),
{
    lemma_fps_powers();
    let u = two_pow(28);
    let g = gpu_factor(hw.gpu_score, game.recommended.gpu);
    let s = target_scale(target);
    assert(g <= 0x1b333340 && s <= 0x18ccccc0);
    lemma_gpu_term_bounds(g, s, higher);
    let gs = product32(g, s);
    assert(gs * lower <= gs * higher && gs * higher <= 0x6000_0000 * 0x147ae140) by (
    nonlinear_arith)
        requires
            lower <= higher,
            gs <= 0x6000_0000,
            higher <= 0x147ae140,
    ;
    lemma_round_binary32_monotone(gs * lower, gs * higher, u);
    lemma_fps_from_gpu_term_monotone(game, hw, product32(gs, lower), product32(gs, higher));
}

/// The presets never gain FPS from Low to Medium to High.
pub proof fn law_fps_falls_with_quality(game: Game, hw: Hardware, target: Seq<char>)
    ensures
        fps_for(game, hw, target, 0xc7ae140) <= fps_for(game, hw, target, 0x10000000),
        fps_for(game, hw, target, 0x10000000) <= fps_for(game, hw, target, 0x147ae140),
{
    law_smaller_quality_no_more_fps(game, hw, target, 0xc7ae140, 0x10000000);
    law_smaller_quality_no_more_fps(game, hw, target, 0x10000000, 0x147ae140);
}

/// The Medium preset computes with the neutral quality factor 1.0: on a known GPU its estimate
/// at 1080p is never below the Low estimate at 1440p (1.0 against 0.68 * 1.28) and never above
/// the High estimate at 720p (1.0 against 1.55 * 0.78).
pub proof fn law_medium_preset_is_neutral(game: Game, hw: Hardware)
    requires
        hw.gpu_score > 0,
    ensures
        fps_estimates(game, hw, "1440p"@)[0].1 <= fps_estimates(game, hw, "1080p"@)[1].1,
        fps_estimates(game, hw, "1080p"@)[1].1 <= fps_estimates(game, hw, "720p"@)[2].1,
{
    reveal_strlit("720p");
    reveal_strlit("1440p");
    reveal_strlit("4K");
    reveal_strlit("4k");
    reveal_strlit("2160p");
    reveal_strlit("1080p");
    assert("1080p"@[1] != "1440p"@[1]);
    assert("1080p"@[0] != "2160p"@[0]);
    assert("1440p"@[0] != "720p"@[0] || "1440p"@.len() != "720p"@.len());
    assert(target_scale("1440p"@) == 0xae147b0);
    assert(target_scale("1080p"@) == 0x10000000);
    assert(target_scale("720p"@) == 0x18ccccc0);
    lemma_fps_powers();
    lemma_two_pow_constants();
    let g = gpu_factor(hw.gpu_score, game.recommended.gpu);
    assert(0x4000000 <= g <= 0x1b333340);
    // Medium at 1080p: `(g * 1.0) * 1.0`.
    lemma_round_close(g * 0x10000000, 0x10000000);
    let a = product32(g, 0x10000000);
    assert(a <= 0x2000_0000);
    lemma_round_close(a * 0x10000000, 0x10000000);
    let m = product32(a, 0x10000000);
    // Low at 1440p: `(g * 0.68) * 1.28`.
    lemma_round_close(g * 0xae147b0, 0x10000000);
    let b1 = product32(g, 0xae147b0);
    assert(b1 <= 0x2000_0000);
    lemma_round_close(b1 * 0x147ae140, 0x10000000);
    let b2 = product32(b1, 0x147ae140);
    // High at 720p: `(g * 1.55) * 0.78`.
    lemma_round_close(g * 0x18ccccc0, 0x10000000);
    let h1 = product32(g, 0x18ccccc0);
    assert(h1 <= 0x4000_0000);
    lemma_round_close(h1 * 0xc7ae140, 0x10000000);
    let h2 = product32(h1, 0xc7ae140);
    assert(b2 <= m);
    assert(m <= h2);
    assert(m <= 0x2_0000_0000);
    lemma_gpu_term_bounds(g, 0x18ccccc0, 0xc7ae140);
    lemma_fps_from_gpu_term_monotone(game, hw, b2, m);
    lemma_fps_from_gpu_term_monotone(game, hw, m, h2);
}

/// A larger target never gets a higher FPS estimate: 4K, then 1440p, then 1080p, then 720p.
pub proof fn law_fps_follows_target(game: Game, hw: Hardware, quality: nat)
    requires
        quality <= 0x147ae140,
    ensures
        fps_for(game, hw, "4K"@, quality) <= fps_for(game, hw, "1440p"@, quality),
        fps_for(game, hw, "1440p"@, quality) <= fps_for(game, hw, "1080p"@, quality),
        fps_for(game, hw, "1080p"@, quality) <= fps_for(game, hw, "720p"@, quality),
{
    reveal_strlit("720p");
    reveal_strlit("1440p");
    reveal_strlit("4K");
    reveal_strlit("4k");
    reveal_strlit("2160p");
    reveal_strlit("1080p");
    assert("1080p"@[1] != "1440p"@[1]);
    assert("1080p"@[0] != "2160p"@[0]);
    assert("1440p"@[0] != "720p"@[0] || "1440p"@.len() != "720p"@.len());
    assert(target_scale("4K"@) == 0x6147ae0);
    assert(target_scale("1440p"@) == 0xae147b0);
    assert(target_scale("1080p"@) == 0x10000000);
    assert(target_scale("720p"@) == 0x18ccccc0);
    law_smaller_scale_no_more_fps(game, hw, "1440p"@, "4K"@, quality);
    law_smaller_scale_no_more_fps(game, hw, "1080p"@, "1440p"@, quality);
    law_smaller_scale_no_more_fps(game, hw, "720p"@, "1080p"@, quality);
}

} // verus!
