use ciri::assess::assess;
use ciri::catalog::games;
use ciri::hardware::Hardware;
use ciri::output::{escape, human, json};

fn output_hardware() -> Hardware {
    Hardware {
        cpu_name: "A \"CPU\"".into(),
        cpu_score: 80,
        logical_cores: 8,
        gpu_name: "GPU".into(),
        gpu_score: 80,
        vram_gb: Some(8),
        ram_gb: 16,
        storage_gb: 200,
        os: "Linux".into(),
        is_linux: true,
        is_laptop: false,
        vulkan: true,
    }
}

#[test]
fn explanation_is_json_shaped_and_escaped() {
    let hw = output_hardware();
    let result = assess(&games()[0], &hw, "1080p", 100);
    let value = json(&games()[0], &hw, &result);
    assert!(value.starts_with('{') && value.ends_with('}'));
    assert!(value.contains("A \\\"CPU\\\""));
}

#[test]
fn escaping_drops_controls_and_escapes_quotes() {
    assert_eq!(escape("a\"b\\c\nd\te\u{7f}f\u{85}g"), "a\\\"b\\\\c\\ndefg");
    assert_eq!(escape("ünïcode ✓"), "ünïcode ✓");
}

#[test]
fn json_fields_and_null_vram() {
    let mut hw = output_hardware();
    hw.vram_gb = None;
    let result = assess(&games()[1], &hw, "4k", 100);
    let value = json(&games()[1], &hw, &result);
    assert!(value.contains("\"vram_gb\": null"));
    assert!(value.contains("\"game\": {\"id\": \"cyberpunk-2077\", \"title\": \"Cyberpunk 2077\"}"));
    assert!(value.contains("\"linux_support\": \"proton_good\""));
    assert!(value.contains("\"checks\": {\"cpu\": \"pass\", \"gpu\": \"pass\""));
    assert!(value.contains("{\"profile\":\"4K Low\",\"fps\":"));
}

#[test]
fn human_report_layout() {
    let hw = output_hardware();
    let result = assess(&games()[0], &hw, "1080p", 100);
    let text = human(&games()[0], &hw, &result);
    assert!(text.starts_with("Ciri — Can I Run It?\n"));
    assert!(text.contains("Game: Batman: Arkham Knight\n\nSYSTEM\n"));
    assert!(text.contains("  CPU          A \"CPU\" (8 threads)              ✓\n"));
    assert!(text.contains("  RAM          16 GB                            ✓\n"));
    assert!(text.contains("  RAM / storage 6 GB / 45 GB\n"));
    assert!(text.contains("\nVERDICT\n  🟢 RUN\n"));
    assert!(text.contains("  Confidence: 98%\n"));
    assert!(text.contains("\nESTIMATED PERFORMANCE\n  1080p Low            ~"));
}
