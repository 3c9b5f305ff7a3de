//! Refined scores that weigh several factors beyond the tier comparison.
use vstd::prelude::*;

use crate::catalog::Game;
use crate::hardware::Hardware;
use crate::text::{chars_equal_str, chars_of, contains, lowercase, str_contains, to_lowercase};

verus! {

/// The catalog games known to be CPU-intensive.
pub open spec fn cpu_intensive(game: Game) -> bool {
    game.id@ == "cyberpunk-2077"@ || game.id@ == "elden-ring"@ || game.id@ == "baldurs-gate-3"@
}

/// Whether a game is particularly CPU-intensive.
pub fn is_cpu_intensive_game(game: &Game) -> (b: bool)
    ensures
        b == cpu_intensive(*game),
{
    let id = chars_of(game.id);
    let id = id.as_slice();
    chars_equal_str(id, "cyberpunk-2077") || chars_equal_str(id, "elden-ring") || chars_equal_str(
        id,
        "baldurs-gate-3",
    )
}

/// CPU score refined by core count: CPU-intensive games scale the score by
/// `min(cores / 8, 1.5)`, others add 5 with at least 8 threads; at most 100, rounded down.
pub open spec fn enhanced_cpu(hw: Hardware, game: Game) -> u16 {
    if cpu_intensive(game) {
        let cores: nat = if hw.logical_cores <= 12 {
            hw.logical_cores as nat
        } else {
            12
        };
        let v = hw.cpu_score * cores / 8;
        if v <= 100 {
            v as u16
        } else {
            100
        }
    } else {
        let v = hw.cpu_score + if hw.logical_cores >= 8 {
            5nat
        } else {
            0nat
        };
        if v <= 100 {
            v as u16
        } else {
            100
        }
    }
}

/// Enhanced CPU scoring that considers single-core vs multi-core performance.
pub fn enhanced_cpu_score(hw: &Hardware, game: &Game) -> (r: u16)
    requires
        !cpu_intensive(*game) && hw.logical_cores >= 8 ==> hw.cpu_score <= 0xFFFF - 5,
    ensures
        r == enhanced_cpu(*hw, *game),
{
    let base = hw.cpu_score;
    if is_cpu_intensive_game(game) {
        let cores: u64 = if hw.logical_cores <= 12 {
            hw.logical_cores as u64
        } else {
            12
        };
        assert(base as u64 * cores <= 0xFFFF * 12) by (nonlinear_arith)
            requires
                base <= 0xFFFF,
                cores <= 12,
        ;
        let v = base as u64 * cores / 8;
        if v <= 100 {
            v as u16
        } else {
            100
        }
    } else {
        let bonus: u16 = if hw.logical_cores >= 8 {
            5
        } else {
            0
        };
        let v = base + bonus;
        if v <= 100 {
            v
        } else {
            100
        }
    }
}

/// The issue texts of a game mention `needle`.
pub open spec fn issues_mention(game: Game, needle: Seq<char>) -> bool {
    exists|i: int| 0 <= i < game.issues@.len() && contains(#[trigger] game.issues@[i]@, needle)
}

fn any_issue_contains(game: &Game, needle: &str) -> (b: bool)
    ensures
        b == issues_mention(*game, needle@),
{
    let mut i: usize = 0;
    while i < game.issues.len()
        invariant
            i <= game.issues@.len(),
            forall|k: int| 0 <= k < i ==> !contains(#[trigger] game.issues@[k]@, needle@),
        decreases game.issues@.len() - i,
    {
        if str_contains(game.issues[i], needle) {
            return true;
        }
        i += 1;
    }
    false
}

/// VRAM factor in percent: 100 at the recommendation, 85 at the minimum, 70 below it,
/// 80 when unknown.
pub open spec fn vram_percent(hw: Hardware, game: Game) -> nat {
    match hw.vram_gb {
        Some(v) => if v >= game.recommended.vram_gb {
            100
        } else if v >= game.minimum.vram_gb {
            85
        } else {
            70
        },
        None => 80,
    }
}

/// Ray-tracing factor in percent: 90 for a game whose issues mention "ray tracing" on a GPU
/// whose lowercase name mentions neither "rtx" nor "rx 6000", otherwise 100.
pub open spec fn ray_tracing_percent(hw: Hardware, game: Game) -> nat {
    if issues_mention(game, "ray tracing"@) {
        let name = lowercase(hw.gpu_name@);
        if contains(name, "rtx"@) || contains(name, "rx 6000"@) {
            100
        } else {
            90
        }
    } else {
        100
    }
}

/// GPU score times the VRAM and ray-tracing factors, at most 100, rounded down.
pub open spec fn enhanced_gpu(hw: Hardware, game: Game) -> u16 {
    let v = hw.gpu_score * vram_percent(hw, game) * ray_tracing_percent(hw, game) / 10000;
    if v <= 100 {
        v as u16
    } else {
        100
    }
}

/// Enhanced GPU scoring that considers VRAM pressure and ray-tracing hardware.
pub fn enhanced_gpu_score(hw: &Hardware, game: &Game) -> (r: u16)
    ensures
        r == enhanced_gpu(*hw, *game),
{
    let vram: u64 = match hw.vram_gb {
        Some(v) => if v >= game.recommended.vram_gb {
            100
        } else if v >= game.minimum.vram_gb {
            85
        } else {
            70
        },
        None => 80,
    };
    let rt: u64 = if any_issue_contains(game, "ray tracing") {
        let name = to_lowercase(hw.gpu_name.as_str());
        if str_contains(name.as_str(), "rtx") || str_contains(name.as_str(), "rx 6000") {
            100
        } else {
            90
        }
    } else {
        100
    };
    assert(hw.gpu_score as u64 * vram * rt <= 0xFFFF * 100 * 100) by (nonlinear_arith)
        requires
            hw.gpu_score <= 0xFFFF,
            vram <= 100,
            rt <= 100,
    ;
    assert(hw.gpu_score as u64 * vram <= 0xFFFF * 100) by (nonlinear_arith)
        requires
            hw.gpu_score <= 0xFFFF,
            vram <= 100,
    ;
    let v = hw.gpu_score as u64 * vram * rt / 10000;
    if v <= 100 {
        v as u16
    } else {
        100
    }
}

/// RAM capacity factor in percent: 100 at the recommendation, 85 at the minimum, 60 below.
pub open spec fn capacity_percent(hw: Hardware, game: Game) -> nat {
    if hw.ram_gb >= game.recommended.ram_gb {
        100
    } else if hw.ram_gb >= game.minimum.ram_gb {
        85
    } else {
        60
    }
}

/// Memory-pressure factor in percent: 90 when the issues mention "CPU-heavy" or "dense".
pub open spec fn pressure_percent(game: Game) -> nat {
    if issues_mention(game, "CPU-heavy"@) || issues_mention(game, "dense"@) {
        90
    } else {
        100
    }
}

/// RAM in GB times the capacity and pressure factors, at most 64, rounded down.
pub open spec fn enhanced_ram(hw: Hardware, game: Game) -> u16 {
    let v = hw.ram_gb * capacity_percent(hw, game) * pressure_percent(game) / 10000;
    if v <= 64 {
        v as u16
    } else {
        64
    }
}

/// Enhanced RAM scoring that considers capacity headroom and memory pressure.
pub fn enhanced_ram_score(hw: &Hardware, game: &Game) -> (r: u16)
    ensures
        r == enhanced_ram(*hw, *game),
{
    let capacity: u64 = if hw.ram_gb >= game.recommended.ram_gb {
        100
    } else if hw.ram_gb >= game.minimum.ram_gb {
        85
    } else {
        60
    };
    let pressure: u64 = if any_issue_contains(game, "CPU-heavy") || any_issue_contains(
        game,
        "dense",
    ) {
        90
    } else {
        100
    };
    assert(hw.ram_gb as u64 * capacity <= 0xFFFF * 100) by (nonlinear_arith)
        requires
            hw.ram_gb <= 0xFFFF,
            capacity <= 100,
    ;
    assert(hw.ram_gb as u64 * capacity * pressure <= 0xFFFF * 100 * 100) by (nonlinear_arith)
        requires
            hw.ram_gb <= 0xFFFF,
            capacity <= 100,
            pressure <= 100,
    ;
    let v = hw.ram_gb as u64 * capacity * pressure / 10000;
    if v <= 64 {
        v as u16
    } else {
        64
    }
}

/// The enhanced CPU, GPU and RAM scores together.
pub fn multi_factor_assessment(hw: &Hardware, game: &Game) -> (r: (u16, u16, u16))
    requires
        !cpu_intensive(*game) && hw.logical_cores >= 8 ==> hw.cpu_score <= 0xFFFF - 5,
    ensures
        r == (enhanced_cpu(*hw, *game), enhanced_gpu(*hw, *game), enhanced_ram(*hw, *game)),
{
    let cpu_score = enhanced_cpu_score(hw, game);
    let gpu_score = enhanced_gpu_score(hw, game);
    let ram_score = enhanced_ram_score(hw, game);
    (cpu_score, gpu_score, ram_score)
}

} // verus!
