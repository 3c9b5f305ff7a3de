use ciri::hardware::detect::{LinuxReport, MacReport, SystemReport, WindowsReport};
use ciri::hardware::{
    cpu_score, cpu_score_from_lowercase, gpu_score, gpu_score_from_lowercase, intel_generation, macos, memory_gb, parse_lspci_gpu, storage_gb, windows,
    Hardware,
};

#[test]
fn parses_memory_and_scores_hardware() {
    assert_eq!(memory_gb("MemTotal:       16384000 kB\n"), 16);
    assert!(cpu_score("Intel(R) Core(TM) i7-12700K CPU", 20) > cpu_score("Intel Core i5-7300U", 4));
    assert_eq!(gpu_score("NVIDIA GeForce GTX 1050 Ti").1, Some(4));
    assert_eq!(
        parse_lspci_gpu(
            "00:02.0 \"VGA compatible controller\" \"Intel Corporation\" \"Raptor Lake-U [Intel Graphics]\" -r04"
        )
        .as_deref(),
        Some("Intel Corporation Raptor Lake-U [Intel Graphics]")
    );
    assert!(cpu_score("Intel(R) Core(TM) 5 120U", 12) >= 60);
}

#[test]
fn hardware_parsing_edge_cases() {
    assert_eq!(memory_gb("MemFree: 10 kB\n"), 0);
    assert_eq!(memory_gb("MemTotal: 1 kB\n"), 1);
    assert_eq!(storage_gb("Filesystem 1024-blocks Used Available\n/dev/sda1 1 2 2097152 50% /\n"), 2);
    assert_eq!(storage_gb(""), 0);
    assert_eq!(intel_generation("intel core i7-12700k"), Some(12));
    assert_eq!(intel_generation("intel core i5-7300u"), Some(7));
    assert_eq!(gpu_score("Unknown GPU"), (0, None));
    assert_eq!(gpu_score("Some Other GPU"), (25, None));
    assert_eq!(gpu_score("NVIDIA GeForce RTX 4090"), (100, Some(24)));
}

#[test]
fn macos_test_gpu_scoring() {
    assert!(macos::score_gpu_from_name("Apple M3 Max") > macos::score_gpu_from_name("Apple M1"));
}

#[test]
fn test_size_parsing() {
    assert_eq!(macos::parse_size_string("500G"), Some(500));
    assert_eq!(macos::parse_size_string("512M"), Some(0));
    assert_eq!(macos::parse_size_string("1T"), Some(1024));
}

#[test]
fn size_strings_with_fractions_and_bad_input() {
    assert_eq!(macos::parse_size_string(" 1.5T "), Some(1536));
    assert_eq!(macos::parse_size_string("2048M"), Some(2));
    assert_eq!(macos::parse_size_string("99.9G"), Some(99));
    assert_eq!(macos::parse_size_string("100T"), Some(65535));
    assert_eq!(macos::parse_size_string("1.2.3G"), None);
    assert_eq!(macos::parse_size_string("G"), None);
    assert_eq!(macos::parse_size_string("500K"), None);
    assert_eq!(macos::parse_size_string(".5T"), Some(512));
}

#[test]
fn windows_test_gpu_scoring() {
    assert!(
        windows::score_gpu_from_name("NVIDIA GeForce RTX 4090")
            > windows::score_gpu_from_name("NVIDIA GeForce GTX 1060")
    );
}

#[test]
fn macos_outputs() {
    let profiler = "Graphics:\n    Chipset Model: \"Apple M2 Pro\"\n    VRAM (Total): 16GB\n";
    assert!(macos::gpu_output_readable(profiler));
    assert_eq!(
        macos::detect_gpu_info(Some(profiler)),
        Some(("Apple M2 Pro".to_string(), 62, Some(16)))
    );
    assert_eq!(macos::detect_memory_gb(Some("17179869184\n")), Some(16));
    assert_eq!(
        macos::detect_cpu_info(Some("Apple M2 Pro\n"), Some("10\n"), Some("12\n")),
        Some(("Apple M2 Pro".to_string(), 10, 12))
    );
    assert_eq!(
        macos::detect_storage_gb(Some("Filesystem Size Used Avail\n/dev/disk1 500Gi 100Gi 250Gi\n")),
        Some(250)
    );
    assert!(!macos::gpu_output_readable("GPU: \"broken\n"));
}

#[test]
fn linux_profile_from_report() {
    let report = LinuxReport {
        cpuinfo: "processor : 0\nmodel name : Intel(R) Core(TM) i7-12700K CPU\nprocessor : 1\n".into(),
        lspci: Some("00:02.0 \"VGA compatible controller\" \"NVIDIA\" \"GeForce RTX 3070\"\n".into()),
        meminfo: "MemTotal: 33554432 kB\n".into(),
        df: "Filesystem 1024-blocks Used Available\n/dev/sda1 1 2 104857600 50% /\n".into(),
        os_release: "NAME=Fedora\nPRETTY_NAME=\"Fedora Linux 40\"\n".into(),
        power_supplies: vec!["AC".into(), "BAT0".into()],
        vulkan: true,
        arch: "x86_64".into(),
        os: "linux".into(),
    };
    let hw = Hardware::detect(&SystemReport::Linux(report));
    assert_eq!(hw.cpu_name, "Intel(R) Core(TM) i7-12700K CPU");
    assert_eq!(hw.logical_cores, 2);
    assert_eq!(hw.gpu_name, "NVIDIA GeForce RTX 3070");
    assert_eq!((hw.gpu_score, hw.vram_gb), (78, Some(8)));
    assert_eq!(hw.ram_gb, 32);
    assert_eq!(hw.storage_gb, 100);
    assert_eq!(hw.os, "Fedora Linux 40");
    assert!(hw.is_linux && hw.is_laptop && hw.vulkan);
}

#[test]
fn empty_linux_report_uses_fallbacks() {
    let report = LinuxReport {
        cpuinfo: String::new(),
        lspci: None,
        meminfo: String::new(),
        df: String::new(),
        os_release: String::new(),
        power_supplies: Vec::new(),
        vulkan: false,
        arch: "aarch64".into(),
        os: "linux".into(),
    };
    let hw = Hardware::detect_linux(&report);
    assert_eq!(hw.cpu_name, "aarch64");
    assert_eq!(hw.logical_cores, 1);
    assert_eq!(hw.gpu_name, "Unknown GPU");
    assert_eq!((hw.gpu_score, hw.vram_gb), (0, None));
    assert_eq!((hw.ram_gb, hw.storage_gb), (0, 0));
    assert_eq!(hw.os, "linux");
    assert!(!hw.is_laptop);
}

#[test]
fn windows_mac_and_other_profiles() {
    let win = Hardware::detect(&SystemReport::Windows(WindowsReport {
        cpu: None,
        gpu: Some("Name AdapterRAM\nRTX4090 25769803776\n".into()),
        memory: None,
        storage: Some("FreeSpace\n107374182400\n".into()),
    }));
    assert_eq!((win.cpu_name.as_str(), win.logical_cores), ("Unknown CPU", 4));
    assert_eq!(win.ram_gb, 8);
    assert_eq!(win.storage_gb, 100);
    assert_eq!(win.vram_gb, Some(24));
    assert_eq!(win.os, "Windows");
    let mac = Hardware::detect(&SystemReport::MacOs(MacReport {
        cpu_brand: None,
        physical_cpus: None,
        logical_cpus: None,
        displays: None,
        memsize: None,
        df: None,
    }));
    assert_eq!(mac.gpu_name, "Unknown GPU");
    assert!(mac.is_laptop && !mac.is_linux);
    assert_eq!(mac.os, "macOS");
    let other = Hardware::detect(&SystemReport::Other { arch: "riscv64".into(), os: "freebsd".into() });
    assert_eq!(other.cpu_score, 50);
    assert_eq!(other.os, "freebsd");
}

#[test]
fn size_strings_are_read_as_f64() {
    // Within half an f64 spacing below 500, the parsed value is 500 itself.
    assert_eq!(macos::parse_size_string("499.99999999999999999G"), Some(500));
    assert_eq!(macos::parse_size_string("499.9999999999999G"), Some(499));
    assert_eq!(macos::parse_size_string("1023.99999999999999999M"), Some(1));
    assert_eq!(macos::parse_size_string("0.99999999999999999T"), Some(1024));
    assert_eq!(macos::parse_size_string("0.9999999999999999T"), Some(1023));
    assert_eq!(macos::parse_size_string("0.999999999999999999G"), Some(1));
    assert_eq!(macos::parse_size_string("65534.9999999999999999G"), Some(65535));
}

#[test]
fn scores_from_lowercase_names() {
    assert_eq!(cpu_score_from_lowercase("intel(r) core(tm) i7-12700k cpu", 20), 80);
    assert_eq!(cpu_score_from_lowercase("intel core i5-7300u", 4), 46);
    assert_eq!(cpu_score("Intel Core i5-7300U", 4), cpu_score_from_lowercase("intel core i5-7300u", 4));
    // The lowercase forms look for lowercase fragments only.
    assert_eq!(gpu_score_from_lowercase("nvidia geforce rtx 4090"), (100, Some(24)));
    assert_eq!(gpu_score_from_lowercase("NVIDIA GEFORCE RTX 4090"), (25, None));
    assert_eq!(gpu_score_from_lowercase("unknown gpu"), (0, None));
    assert_eq!(macos::score_gpu_from_lowercase("apple m3 max"), 85);
    assert_eq!(macos::score_gpu_from_lowercase("apple m1 pro"), 55);
    assert_eq!(macos::score_gpu_from_lowercase("radeon pro 560"), 40);
    assert_eq!(
        windows::score_gpu_from_lowercase("nvidia geforce rtx 4090"),
        windows::score_gpu_from_name("NVIDIA GeForce RTX 4090")
    );
    assert_eq!(windows::score_gpu_from_lowercase("mystery adapter"), 25);
}
