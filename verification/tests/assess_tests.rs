use ciri::assess::multi_factor::{is_cpu_intensive_game, multi_factor_assessment};
use ciri::assess::{assess, bottleneck, canonical_target, Status, Verdict};
use ciri::catalog::{games, Tier};
use ciri::hardware::Hardware;

fn assess_hardware(cpu: u16, gpu: u16, ram: u16, vram: Option<u16>) -> Hardware {
    Hardware {
        cpu_name: "Test CPU".into(),
        cpu_score: cpu,
        logical_cores: 8,
        gpu_name: "Test GPU".into(),
        gpu_score: gpu,
        vram_gb: vram,
        ram_gb: ram,
        storage_gb: 500,
        os: "Linux".into(),
        is_linux: true,
        is_laptop: false,
        vulkan: true,
    }
}

#[test]
fn produces_all_three_verdicts() {
    let game = &games()[1];
    assert_eq!(
        assess(game, &assess_hardware(90, 90, 32, Some(12)), "1080p", 100).verdict,
        Verdict::Run
    );
    assert_eq!(
        assess(game, &assess_hardware(60, 60, 16, Some(6)), "1080p", 100).verdict,
        Verdict::Compromises
    );
    assert_eq!(
        assess(game, &assess_hardware(30, 25, 8, Some(2)), "1080p", 100).verdict,
        Verdict::DontRun
    );
}

#[test]
fn test_cpu_intensive_detection() {
    let cyberpunk = &games()[1];
    assert!(is_cpu_intensive_game(cyberpunk));
    let gta = &games()[4];
    assert!(!is_cpu_intensive_game(gta));
}

#[test]
fn test_enhanced_scoring() {
    let hw = Hardware {
        cpu_name: "Test CPU".into(),
        cpu_score: 60,
        logical_cores: 8,
        gpu_name: "Test GPU".into(),
        gpu_score: 60,
        vram_gb: Some(8),
        ram_gb: 16,
        storage_gb: 500,
        os: "Linux".into(),
        is_linux: true,
        is_laptop: false,
        vulkan: true,
    };
    let game = &games()[1];
    let (cpu, gpu, ram) = multi_factor_assessment(&hw, game);
    assert!(cpu > 0);
    assert!(gpu > 0);
    assert!(ram > 0);
}

#[test]
fn checks_and_confidence_of_a_strong_machine() {
    let game = &games()[1];
    let r = assess(game, &assess_hardware(90, 90, 32, Some(12)), "1080p", 100);
    assert_eq!(r.cpu, Status::Pass);
    assert_eq!(r.gpu, Status::Pass);
    assert_eq!(r.vram, Status::Pass);
    // 55 + 6 known checks * 6 + 100 / 12 = 99, capped at 98.
    assert_eq!(r.confidence, 98);
    assert_eq!(r.fps.len(), 3);
    assert_eq!(r.fps[0].0, "1080p Low");
}

#[test]
fn unknown_gpu_gives_unknown_check_and_no_estimate() {
    let game = &games()[0];
    let r = assess(game, &assess_hardware(90, 0, 32, None), "720", 100);
    assert_eq!(r.gpu, Status::Unknown);
    assert_eq!(r.vram, Status::Unknown);
    assert_eq!(r.verdict, Verdict::Compromises);
    assert!(r.fps.is_empty());
    // 55 + 4 known checks * 6 + 8 = 87.
    assert_eq!(r.confidence, 87);
}

#[test]
fn single_shortfall_gives_compromises() {
    let game = &games()[1];
    // Only the CPU is below the minimum (52).
    let r = assess(game, &assess_hardware(40, 90, 32, Some(12)), "1080p", 100);
    assert_eq!(r.cpu, Status::Fail);
    assert_eq!(r.verdict, Verdict::Compromises);
}

#[test]
fn canonical_targets() {
    assert_eq!(canonical_target("720"), "720p");
    assert_eq!(canonical_target("2K"), "1440p");
    assert_eq!(canonical_target("2160P"), "4K");
    assert_eq!(canonical_target("4K"), "4K");
    assert_eq!(canonical_target(canonical_target("4k")), "4K");
    assert_eq!(canonical_target("8k"), "1080p");
}

fn verdict_rank(v: Verdict) -> u8 {
    match v {
        Verdict::Run => 0,
        Verdict::Compromises => 1,
        Verdict::DontRun => 2,
    }
}

#[test]
fn better_hardware_never_gets_a_worse_verdict() {
    let game = &games()[3];
    let levels = [(30, 25, 8, 2), (45, 45, 12, 4), (60, 60, 16, 6), (90, 90, 32, 12)];
    let mut previous = 2;
    for (cpu, gpu, ram, vram) in levels {
        let rank = verdict_rank(assess(game, &assess_hardware(cpu, gpu, ram, Some(vram)), "1080p", 100).verdict);
        assert!(rank <= previous);
        previous = rank;
    }
    assert_eq!(previous, 0);
}

#[test]
fn larger_targets_never_give_more_fps() {
    let game = &games()[1];
    let hw = assess_hardware(90, 90, 32, Some(12));
    let targets = ["720p", "1080p", "1440p", canonical_target("4k")];
    let estimates: Vec<_> = targets.iter().map(|t| ciri::assess::estimate_fps(game, &hw, t)).collect();
    for i in 0..3 {
        for w in estimates.windows(2) {
            assert!(w[1][i].1 <= w[0][i].1);
        }
    }
    assert!(estimates[3][0].1 < estimates[2][0].1);
    assert_eq!(estimates[3][0].0, "4K Low");
}

#[test]
fn bottleneck_ratios_compare_in_single_precision() {
    // 65534/65533 and 65535/65534 round to the same f32, so the first of them stays.
    let min = Tier { cpu: 65533, gpu: 65534, ram_gb: 1, vram_gb: 1 };
    let hw = assess_hardware(65534, 65535, 65535, None);
    assert_eq!(bottleneck(min, &hw), "CPU");
    let min = Tier { cpu: 100, gpu: 50, ram_gb: 16, vram_gb: 8 };
    let hw = assess_hardware(60, 40, 32, Some(4));
    assert_eq!(bottleneck(min, &hw), "VRAM");
}

#[test]
fn fps_is_computed_in_single_precision() {
    // 52 * (30 / 56) * 0.7 is 19.5 exactly, but 19.499998 in f32 arithmetic.
    let mut game = games()[0];
    game.recommended = Tier { cpu: 56, gpu: 100, ram_gb: 16, vram_gb: 10 };
    let hw = assess_hardware(30, 200, 32, Some(7));
    let rows = ciri::assess::estimate_fps(&game, &hw, "1080p");
    let fps: Vec<u16> = rows.iter().map(|r| r.1).collect();
    assert_eq!(fps, vec![19, 19, 19]);
}

#[test]
fn better_hardware_with_unknown_vram_is_never_worse() {
    for game in games().iter() {
        let weak = assess_hardware(30, 30, 8, None);
        let strong = assess_hardware(90, 90, 32, None);
        let a = assess(game, &weak, "1080p", 90);
        let b = assess(game, &strong, "1080p", 90);
        assert!(verdict_rank(b.verdict) <= verdict_rank(a.verdict));
    }
}

#[test]
fn fps_falls_from_low_to_high() {
    for game in games().iter() {
        for hw in [assess_hardware(40, 35, 16, Some(6)), assess_hardware(95, 99, 64, None)] {
            let rows = ciri::assess::estimate_fps(game, &hw, "1440p");
            assert_eq!(rows.len(), 3);
            assert!(rows[0].1 >= rows[1].1 && rows[1].1 >= rows[2].1);
        }
    }
}
