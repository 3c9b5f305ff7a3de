//! Upgrade planning: how ready a machine is for a game, what each component would need, and
//! which way its performance is heading.
use vstd::prelude::*;

use crate::catalog::Game;
use crate::hardware::Hardware;
use crate::text::{decimal, decimal_string, push_str, string_views, to_string};

verus! {

/// A hardware component.
#[derive(Clone, Copy, Debug, PartialEq, Eq, Structural)]
pub enum ComponentType {
    CPU,
    GPU,
    RAM,
    Storage,
}

/// The minimum a game expects: CPU and GPU scores, RAM and VRAM in GB.
#[derive(Clone, Copy, Debug)]
pub struct HardwareRequirements {
    pub min_cpu_score: u16,
    pub min_gpu_score: u16,
    pub min_ram_gb: u16,
    pub min_vram_gb: u16,
}

/// How far a machine is from a game's minimum.
#[derive(Clone, Copy, Debug, PartialEq, Eq, Structural)]
pub enum ReadinessLevel {
    Ready,
    MinorUpgrade,
    ModerateUpgrade,
    MajorUpgrade,
    NotReady,
}

/// Which way a component's performance is heading.
#[derive(Clone, Copy, Debug, PartialEq, Eq, Structural)]
pub enum TrendDirection {
    Improving,
    Stable,
    Declining,
}

/// How ready a machine is for a game, and what an upgrade would roughly cost.
#[derive(Clone, Debug)]
pub struct FutureCompatibility {
    pub game_id: String,
    pub expected_requirements: HardwareRequirements,
    pub current_readiness: ReadinessLevel,
    pub upgrade_needed: bool,
    pub estimated_upgrade_cost: String,
}

/// The number of requirements the machine misses (an unknown VRAM counts as 0 GB).
pub open spec fn missed_requirements(hw: Hardware, req: HardwareRequirements) -> nat {
    (if hw.cpu_score < req.min_cpu_score {
        1nat
    } else {
        0nat
    }) + (if hw.gpu_score < req.min_gpu_score {
        1nat
    } else {
        0nat
    }) + (if hw.ram_gb < req.min_ram_gb {
        1nat
    } else {
        0nat
    }) + (if (match hw.vram_gb {
        Some(v) => v,
        None => 0,
    }) < req.min_vram_gb {
        1nat
    } else {
        0nat
    })
}

/// Readiness by the number of missed requirements: none, one, two, three, four.
pub open spec fn readiness_of(missed: nat) -> ReadinessLevel {
    if missed == 0 {
        ReadinessLevel::Ready
    } else if missed == 1 {
        ReadinessLevel::MinorUpgrade
    } else if missed == 2 {
        ReadinessLevel::ModerateUpgrade
    } else if missed == 3 {
        ReadinessLevel::MajorUpgrade
    } else {
        ReadinessLevel::NotReady
    }
}

/// The rough cost of an upgrade to each readiness level.
pub open spec fn upgrade_cost(level: ReadinessLevel) -> Seq<char> {
    match level {
        ReadinessLevel::Ready => "$0"@,
        ReadinessLevel::MinorUpgrade => "$100-300"@,
        ReadinessLevel::ModerateUpgrade => "$300-800"@,
        ReadinessLevel::MajorUpgrade => "$800-2000"@,
        ReadinessLevel::NotReady => "$2000+"@,
    }
}

impl FutureCompatibility {
    /// Readiness of a machine for requirements.
    pub fn assess_readiness(hw: &Hardware, req: &HardwareRequirements) -> (r: ReadinessLevel)
        ensures
            r == readiness_of(missed_requirements(*hw, *req)),
    {
        let vram = match hw.vram_gb {
            Some(v) => v,
            None => 0,
        };
        let mut failures: u8 = 0;
        if hw.cpu_score < req.min_cpu_score {
            failures += 1;
        }
        if hw.gpu_score < req.min_gpu_score {
            failures += 1;
        }
        if hw.ram_gb < req.min_ram_gb {
            failures += 1;
        }
        if vram < req.min_vram_gb {
            failures += 1;
        }
        match failures {
            0 => ReadinessLevel::Ready,
            1 => ReadinessLevel::MinorUpgrade,
            2 => ReadinessLevel::ModerateUpgrade,
            3 => ReadinessLevel::MajorUpgrade,
            _ => ReadinessLevel::NotReady,
        }
    }

    /// How ready a machine is for the minimum of a game.
    pub fn analyze(game: &Game, hw: &Hardware) -> (r: Self)
        ensures
            r.game_id@ == game.id@,
            r.expected_requirements == (HardwareRequirements {
                min_cpu_score: game.minimum.cpu,
                min_gpu_score: game.minimum.gpu,
                min_ram_gb: game.minimum.ram_gb,
                min_vram_gb: game.minimum.vram_gb,
            }),
            r.current_readiness == readiness_of(
                missed_requirements(*hw, r.expected_requirements),
            ),
            r.upgrade_needed == (r.current_readiness != ReadinessLevel::Ready),
            r.estimated_upgrade_cost@ == upgrade_cost(r.current_readiness),
    {
        let expected_requirements = HardwareRequirements {
            min_cpu_score: game.minimum.cpu,
            min_gpu_score: game.minimum.gpu,
            min_ram_gb: game.minimum.ram_gb,
            min_vram_gb: game.minimum.vram_gb,
        };
        let current_readiness = Self::assess_readiness(hw, &expected_requirements);
        let upgrade_needed = !matches!(current_readiness, ReadinessLevel::Ready);
        let estimated_upgrade_cost = match current_readiness {
            ReadinessLevel::Ready => to_string("$0"),
            ReadinessLevel::MinorUpgrade => to_string("$100-300"),
            ReadinessLevel::ModerateUpgrade => to_string("$300-800"),
            ReadinessLevel::MajorUpgrade => to_string("$800-2000"),
            ReadinessLevel::NotReady => to_string("$2000+"),
        };
        FutureCompatibility {
            game_id: to_string(game.id),
            expected_requirements,
            current_readiness,
            upgrade_needed,
            estimated_upgrade_cost,
        }
    }
}

/// The direction of a component's performance: a laptop CPU and storage decline, the rest
/// stays stable.
pub open spec fn trend_of(hw: Hardware, component: ComponentType) -> TrendDirection {
    match component {
        ComponentType::CPU => if hw.is_laptop {
            TrendDirection::Declining
        } else {
            TrendDirection::Stable
        },
        ComponentType::GPU => TrendDirection::Stable,
        ComponentType::RAM => TrendDirection::Stable,
        ComponentType::Storage => TrendDirection::Declining,
    }
}

/// The direction of a component's performance.
pub fn trend_direction(hw: &Hardware, component: ComponentType) -> (r: TrendDirection)
    ensures
        r == trend_of(*hw, component),
{
    match component {
        ComponentType::CPU => if hw.is_laptop {
            TrendDirection::Declining
        } else {
            TrendDirection::Stable
        },
        ComponentType::GPU => TrendDirection::Stable,
        ComponentType::RAM => TrendDirection::Stable,
        ComponentType::Storage => TrendDirection::Declining,
    }
}

/// The largest of non-empty values.
pub open spec fn seq_max(vals: Seq<u16>) -> u16
    decreases vals.len(),
{
    if vals.len() <= 1 {
        vals[0]
    } else if seq_max(vals.drop_last()) >= vals.last() {
        seq_max(vals.drop_last())
    } else {
        vals.last()
    }
}

/// The largest of the values, or `default` when there is none.
pub open spec fn max_or(vals: Seq<u16>, default: u16) -> u16 {
    if vals.len() == 0 {
        default
    } else {
        seq_max(vals)
    }
}

/// What the games recommend for a component: CPU or GPU score, RAM in GB, or storage in GB.
pub open spec fn requirement_values(games: Seq<&Game>, component: ComponentType) -> Seq<u16> {
    games.map_values(
        |g: &Game|
            match component {
                ComponentType::CPU => g.recommended.cpu,
                ComponentType::GPU => g.recommended.gpu,
                ComponentType::RAM => g.recommended.ram_gb,
                ComponentType::Storage => g.storage_gb,
            },
    )
}

/// The recommendation for a component: the largest value the games ask for (50 for CPU and
/// GPU, 16 GB of RAM, 100 GB of storage when there is no game), plus 50 GB of headroom for
/// storage.
pub open spec fn recommended_amount(games: Seq<&Game>, component: ComponentType) -> int {
    match component {
        ComponentType::CPU => max_or(requirement_values(games, component), 50) as int,
        ComponentType::GPU => max_or(requirement_values(games, component), 50) as int,
        ComponentType::RAM => max_or(requirement_values(games, component), 16) as int,
        ComponentType::Storage => max_or(requirement_values(games, component), 100) + 50,
    }
}

/// What the machine has of a component.
pub open spec fn current_amount(hw: Hardware, component: ComponentType) -> u16 {
    match component {
        ComponentType::CPU => hw.cpu_score,
        ComponentType::GPU => hw.gpu_score,
        ComponentType::RAM => hw.ram_gb,
        ComponentType::Storage => hw.storage_gb,
    }
}

/// The score reported for an amount: scores as they are, RAM in units of 32 GB and storage
/// in units of 10 GB, at most 100.
pub open spec fn amount_score(component: ComponentType, amount: u16) -> u16 {
    match component {
        ComponentType::CPU => amount,
        ComponentType::GPU => amount,
        ComponentType::RAM => if amount / 32 > 100 {
            100
        } else {
            (amount / 32) as u16
        },
        ComponentType::Storage => if amount / 10 > 100 {
            100
        } else {
            (amount / 10) as u16
        },
    }
}

/// The advice for a component: below the recommendation, what is missing and how to upgrade;
/// otherwise that the component meets the requirements.
pub open spec fn advice_of(component: ComponentType, current: u16, recommended: u16) -> Seq<
    Seq<char>,
> {
    let c = decimal(current as nat);
    let r = decimal(recommended as nat);
    if current < recommended {
        match component {
            ComponentType::CPU => seq![
                "Current CPU score "@ + c + " below recommended "@ + r,
                "Consider upgrading to a modern CPU with better single-core performance"@,
                "Look for CPUs with higher clock speeds and more cores"@,
            ],
            ComponentType::GPU => seq![
                "Current GPU score "@ + c + " below recommended "@ + r,
                "Consider upgrading to a modern GPU with more VRAM"@,
                "Look for GPUs with ray tracing support for future-proofing"@,
            ],
            ComponentType::RAM => seq![
                "Current RAM "@ + c + "GB below recommended "@ + r + "GB"@,
                "Consider upgrading to 32GB for modern gaming"@,
                "Ensure dual-channel configuration for best performance"@,
            ],
            ComponentType::Storage => seq![
                "Current storage "@ + c + "GB below recommended "@ + r + "GB"@,
                "Consider adding additional storage or upgrading to SSD"@,
                "SSD storage significantly improves game loading times"@,
            ],
        }
    } else {
        match component {
            ComponentType::CPU => seq!["CPU meets requirements for target games"@],
            ComponentType::GPU => seq!["GPU meets requirements for target games"@],
            ComponentType::RAM => seq!["RAM meets requirements for target games"@],
            ComponentType::Storage => seq!["Storage meets requirements for target games"@],
        }
    }
}

/// What an upgrade analysis finds for one component, apart from the estimated gain: the
/// amounts it compares (scores, or GB of RAM or storage), the scores it reports and its advice.
pub struct UpgradeTarget {
    pub component: ComponentType,
    pub current: u16,
    pub recommended: u16,
    pub current_score: u16,
    pub recommended_score: u16,
    pub specific_recommendations: Vec<String>,
}

fn largest(games: &[&Game], component: ComponentType, default: u16) -> (m: u16)
    ensures
        m == max_or(requirement_values(games@, component), default),
{
    let ghost vals = requirement_values(games@, component);
    let n = games.len();
    if n == 0 {
        return default;
    }
    let mut m: u16 = 0;
    let mut i: usize = 0;
    while i < n
        invariant
            i <= n == games@.len() == vals.len(),
            vals == requirement_values(games@, component),
            i > 0 ==> m == seq_max(vals.take(i as int)),
        decreases n - i,
    {
        let g = games[i];
        let v = match component {
            ComponentType::CPU => g.recommended.cpu,
            ComponentType::GPU => g.recommended.gpu,
            ComponentType::RAM => g.recommended.ram_gb,
            ComponentType::Storage => g.storage_gb,
        };
        assert(v == vals[i as int]);
        assert(vals.take(i + 1).drop_last() =~= vals.take(i as int));
        if i == 0 || v > m {
            m = v;
        }
        i += 1;
    }
    assert(vals.take(n as int) =~= vals);
    m
}

fn line3(a: &str, c: u16, b: &str, r: u16, d: &str) -> (s: String)
    ensures
        s@ == a@ + decimal(c as nat) + b@ + decimal(r as nat) + d@,
{
    let mut s = to_string(a);
    push_str(&mut s, decimal_string(c as u64).as_str());
    push_str(&mut s, b);
    push_str(&mut s, decimal_string(r as u64).as_str());
    push_str(&mut s, d);
    s
}

fn advice(component: ComponentType, current: u16, recommended: u16) -> (v: Vec<String>)
    ensures
        string_views(v@) == advice_of(component, current, recommended),
{
    let mut v: Vec<String> = Vec::new();
    if current < recommended {
        match component {
            ComponentType::CPU => {
                v.push(line3("Current CPU score ", current, " below recommended ", recommended, ""));
                v.push(to_string("Consider upgrading to a modern CPU with better single-core performance"));
                v.push(to_string("Look for CPUs with higher clock speeds and more cores"));
            },
            ComponentType::GPU => {
                v.push(line3("Current GPU score ", current, " below recommended ", recommended, ""));
                v.push(to_string("Consider upgrading to a modern GPU with more VRAM"));
                v.push(to_string("Look for GPUs with ray tracing support for future-proofing"));
            },
            ComponentType::RAM => {
                v.push(line3("Current RAM ", current, "GB below recommended ", recommended, "GB"));
                v.push(to_string("Consider upgrading to 32GB for modern gaming"));
                v.push(to_string("Ensure dual-channel configuration for best performance"));
            },
            ComponentType::Storage => {
                v.push(line3("Current storage ", current, "GB below recommended ", recommended, "GB"));
                v.push(to_string("Consider adding additional storage or upgrading to SSD"));
                v.push(to_string("SSD storage significantly improves game loading times"));
            },
        }
        proof {
            reveal_strlit("");
        }
    } else {
        match component {
            ComponentType::CPU => v.push(to_string("CPU meets requirements for target games")),
            ComponentType::GPU => v.push(to_string("GPU meets requirements for target games")),
            ComponentType::RAM => v.push(to_string("RAM meets requirements for target games")),
            ComponentType::Storage => v.push(
                to_string("Storage meets requirements for target games"),
            ),
        }
    }
    assert(string_views(v@) =~= advice_of(component, current, recommended));
    v
}

fn score_of(component: ComponentType, amount: u16) -> (s: u16)
    ensures
        s == amount_score(component, amount),
{
    match component {
        ComponentType::CPU => amount,
        ComponentType::GPU => amount,
        ComponentType::RAM => if amount / 32 > 100 {
            100
        } else {
            amount / 32
        },
        ComponentType::Storage => if amount / 10 > 100 {
            100
        } else {
            amount / 10
        },
    }
}

/// What the upgrade analysis of one component finds for the target games. The storage
/// recommendation adds 50 GB to the largest storage a game asks for, which must fit in 16 bits.
pub fn upgrade_target(hw: &Hardware, games: &[&Game], component: ComponentType) -> (t: UpgradeTarget)
    requires
        recommended_amount(games@, component) <= u16::MAX,
    ensures
        t.component == component,
        t.current == current_amount(*hw, component),
        t.recommended == recommended_amount(games@, component),
        t.current_score == amount_score(component, t.current),
        t.recommended_score == amount_score(component, t.recommended),
        string_views(t.specific_recommendations@) == advice_of(component, t.current, t.recommended),
{
    let (current, recommended) = match component {
        ComponentType::CPU => (hw.cpu_score, largest(games, component, 50)),
        ComponentType::GPU => (hw.gpu_score, largest(games, component, 50)),
        ComponentType::RAM => (hw.ram_gb, largest(games, component, 16)),
        ComponentType::Storage => (hw.storage_gb, largest(games, component, 100) + 50),
    };
    UpgradeTarget {
        component,
        current,
        recommended,
        current_score: score_of(component, current),
        recommended_score: score_of(component, recommended),
        specific_recommendations: advice(component, current, recommended),
    }
}

} // verus!

verus! {

/// A machine is ready for requirements exactly when it meets each of them; then no upgrade is
/// needed, and each missed requirement moves readiness one level down.
pub proof fn law_ready_iff_requirements_met(hw: Hardware, req: HardwareRequirements)
    ensures
        (readiness_of(missed_requirements(hw, req)) == ReadinessLevel::Ready) <==> (hw.cpu_score
            >= req.min_cpu_score && hw.gpu_score >= req.min_gpu_score && hw.ram_gb
            >= req.min_ram_gb && (match hw.vram_gb {
            Some(v) => v,
            None => 0,
        }) >= req.min_vram_gb),
        missed_requirements(hw, req) <= 4,
{
}

} // verus!
