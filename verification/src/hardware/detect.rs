//! Building the hardware profile from what the operating system reported.
use vstd::prelude::*;

use crate::hardware::{
    cpu_score, cpu_score_of, find_field, find_field_from, gpu_score, gpu_score_of, lspci_gpu_of,
    macos, memory_gb, memory_gb_of, parse_lspci_gpu, storage_gb, storage_gb_of, windows,
    Hardware,
};
use crate::text::{
    chars_of, lines, lines_of, opt_as_str, opt_str_view, opt_view, slice_chars, starts_with,
    starts_with_str, string_of, to_string, trim_matches, trim_matches_chars, views,
};

verus! {

/// What a Linux system reported: file contents read as text (empty when unreadable) and
/// command results.
pub struct LinuxReport {
    /// `/proc/cpuinfo`.
    pub cpuinfo: String,
    /// Standard output of `lspci -mm`, `None` when the command did not run.
    pub lspci: Option<String>,
    /// `/proc/meminfo`.
    pub meminfo: String,
    /// Standard output of `df -Pk .`, empty when the command did not run.
    pub df: String,
    /// `/etc/os-release`.
    pub os_release: String,
    /// The entry names under `/sys/class/power_supply` (none when it cannot be read).
    pub power_supplies: Vec<String>,
    /// Whether `vulkaninfo --summary` ran and succeeded.
    pub vulkan: bool,
    /// The architecture the program was built for.
    pub arch: String,
    /// The operating system the program was built for.
    pub os: String,
}

/// What `wmic` reported on Windows: the standard output of each query, `None` when it did not
/// run.
pub struct WindowsReport {
    pub cpu: Option<String>,
    pub gpu: Option<String>,
    pub memory: Option<String>,
    pub storage: Option<String>,
}

/// What `sysctl`, `system_profiler` and `df` reported on macOS, `None` when a command did not
/// run.
pub struct MacReport {
    pub cpu_brand: Option<String>,
    pub physical_cpus: Option<String>,
    pub logical_cpus: Option<String>,
    pub displays: Option<String>,
    pub memsize: Option<String>,
    pub df: Option<String>,
}

/// What the system reported, by operating system.
pub enum SystemReport {
    Linux(LinuxReport),
    Windows(WindowsReport),
    MacOs(MacReport),
    /// Any other system: only the build's architecture and operating system names.
    Other { arch: String, os: String },
}

/// The number of lines that start with `p`.
pub open spec fn prefixed_count(ls: Seq<Seq<char>>, p: Seq<char>) -> nat
    decreases ls.len(),
{
    if ls.len() == 0 {
        0
    } else {
        prefixed_count(ls.drop_last(), p) + if starts_with(ls.last(), p) {
            1nat
        } else {
            0nat
        }
    }
}

/// Logical cores from `/proc/cpuinfo`: the number of lines that start with "processor", at
/// least 1, converted to `u16` with `as` (keeping the low 16 bits).
pub open spec fn logical_cores_of(cpuinfo: Seq<char>) -> u16 {
    let n = prefixed_count(lines(cpuinfo), "processor"@);
    (if n == 0 {
        1
    } else {
        n
    }) as u16
}

/// The CPU name from `/proc/cpuinfo`: the first `model name` field, else the architecture.
pub open spec fn linux_cpu_name_of(cpuinfo: Seq<char>, arch: Seq<char>) -> Seq<char> {
    match find_field_from(lines(cpuinfo), "model name"@, 0) {
        Some(n) => n,
        None => arch,
    }
}

/// The first line, from index `i` on, that starts with `PRETTY_NAME=`: the rest of it without
/// its surrounding double quotes.
pub open spec fn pretty_name_from(ls: Seq<Seq<char>>, i: int) -> Option<Seq<char>>
    decreases ls.len() - i,
{
    if i < 0 || i >= ls.len() {
        None
    } else if starts_with(ls[i], "PRETTY_NAME="@) {
        Some(trim_matches(ls[i].subrange(12, ls[i].len() as int), '"'))
    } else {
        pretty_name_from(ls, i + 1)
    }
}

/// The OS name from `/etc/os-release`, else the build's operating system name.
pub open spec fn linux_os_name_of(os_release: Seq<char>, os: Seq<char>) -> Seq<char> {
    match pretty_name_from(lines(os_release), 0) {
        Some(n) => n,
        None => os,
    }
}

/// A power supply whose name starts with "BAT" is a battery.
pub open spec fn has_battery(names: Seq<String>) -> bool {
    exists|i: int| 0 <= i < names.len() && starts_with(#[trigger] names[i]@, "BAT"@)
}

/// The GPU name from `lspci -mm`, else "Unknown GPU".
pub open spec fn linux_gpu_name_of(lspci: Option<Seq<char>>) -> Seq<char> {
    match lspci {
        Some(t) => match lspci_gpu_of(t) {
            Some(n) => n,
            None => "Unknown GPU"@,
        },
        None => "Unknown GPU"@,
    }
}

/// `h` is the profile of the Linux system that reported `r`.
pub open spec fn linux_profile(r: LinuxReport, h: Hardware) -> bool {
    &&& h.cpu_name@ == linux_cpu_name_of(r.cpuinfo@, r.arch@)
    &&& h.logical_cores == logical_cores_of(r.cpuinfo@)
    &&& h.cpu_score == cpu_score_of(h.cpu_name@, h.logical_cores)
    &&& h.gpu_name@ == linux_gpu_name_of(opt_view(r.lspci))
    &&& (h.gpu_score, h.vram_gb) == gpu_score_of(h.gpu_name@)
    &&& h.ram_gb == memory_gb_of(r.meminfo@)
    &&& h.storage_gb == storage_gb_of(r.df@)
    &&& h.os@ == linux_os_name_of(r.os_release@, r.os@)
    &&& h.is_linux
    &&& h.is_laptop == has_battery(r.power_supplies@)
    &&& h.vulkan == r.vulkan
}

fn count_prefixed(ls: &Vec<Vec<char>>, p: &str) -> (n: usize)
    ensures
        n as nat == prefixed_count(views(ls@), p@),
{
    let mut n: usize = 0;
    let mut i: usize = 0;
    while i < ls.len()
        invariant
            i <= ls@.len(),
            n <= i,
            n as nat == prefixed_count(views(ls@).take(i as int), p@),
        decreases ls@.len() - i,
    {
        assert(views(ls@).take(i + 1).drop_last() =~= views(ls@).take(i as int));
        assert(views(ls@).take(i + 1).last() == ls@[i as int]@);
        if starts_with_str(ls[i].as_slice(), p) {
            n += 1;
        }
        i += 1;
    }
    assert(views(ls@).take(ls@.len() as int) =~= views(ls@));
    n
}

fn pretty_name(ls: &Vec<Vec<char>>) -> (r: Option<Vec<char>>)
    ensures
        match r {
            Some(v) => pretty_name_from(views(ls@), 0) == Some(v@),
            None => pretty_name_from(views(ls@), 0) is None,
        },
{
    let mut i: usize = 0;
    while i < ls.len()
        invariant
            i <= ls@.len(),
            pretty_name_from(views(ls@), 0) == pretty_name_from(views(ls@), i as int),
        decreases ls@.len() - i,
    {
        let line = ls[i].as_slice();
        assert(views(ls@)[i as int] == line@);
        if starts_with_str(line, "PRETTY_NAME=") {
            proof {
                reveal_strlit("PRETTY_NAME=");
            }
            let rest = slice_chars(line, 12, line.len());
            return Some(trim_matches_chars(rest.as_slice(), '"'));
        }
        i += 1;
    }
    None
}

fn any_battery(names: &Vec<String>) -> (b: bool)
    ensures
        b == has_battery(names@),
{
    let mut i: usize = 0;
    while i < names.len()
        invariant
            i <= names@.len(),
            forall|k: int| 0 <= k < i ==> !starts_with(#[trigger] names@[k]@, "BAT"@),
        decreases names@.len() - i,
    {
        let c = chars_of(names[i].as_str());
        if starts_with_str(c.as_slice(), "BAT") {
            return true;
        }
        i += 1;
    }
    false
}

impl Hardware {
    /// The profile of a Linux system.
    pub fn detect_linux(r: &LinuxReport) -> (h: Hardware)
        ensures
            linux_profile(*r, h),
    {
        let cpuinfo = lines_of(chars_of(r.cpuinfo.as_str()).as_slice());
        let cpu_name = match find_field(&cpuinfo, "model name") {
            Some(n) => n,
            None => r.arch.clone(),
        };
        let count = count_prefixed(&cpuinfo, "processor");
        let logical_cores = (if count == 0 {
            1
        } else {
            count
        }) as u16;
        let cpu_score = cpu_score(cpu_name.as_str(), logical_cores);
        let gpu_name = match &r.lspci {
            Some(t) => match parse_lspci_gpu(t.as_str()) {
                Some(n) => n,
                None => to_string("Unknown GPU"),
            },
            None => to_string("Unknown GPU"),
        };
        let (gpu_score, vram_gb) = gpu_score(gpu_name.as_str());
        let ram_gb = memory_gb(r.meminfo.as_str());
        let storage_gb = storage_gb(r.df.as_str());
        let release = lines_of(chars_of(r.os_release.as_str()).as_slice());
        let os = match pretty_name(&release) {
            Some(n) => string_of(&n),
            None => r.os.clone(),
        };
        let is_laptop = any_battery(&r.power_supplies);
        Hardware {
            cpu_name,
            cpu_score,
            logical_cores,
            gpu_name,
            gpu_score,
            vram_gb,
            ram_gb,
            storage_gb,
            os,
            is_linux: true,
            is_laptop,
            vulkan: r.vulkan,
        }
    }
}

/// `h` is the profile of the Windows system that reported `r`: the `wmic` results, with
/// "Unknown CPU" on 4 threads, "Unknown GPU" scored 0, 8 GB of RAM and 0 GB of storage for
/// what could not be read.
pub open spec fn windows_profile(r: WindowsReport, h: Hardware) -> bool {
    &&& match windows::cpu_info_of(opt_view(r.cpu)) {
        Some((n, _, l)) => h.cpu_name@ == n && h.logical_cores == l,
        None => h.cpu_name@ == "Unknown CPU"@ && h.logical_cores == 4,
    }
    &&& h.cpu_score == cpu_score_of(h.cpu_name@, h.logical_cores)
    &&& match windows::gpu_info_of(opt_view(r.gpu)) {
        Some((n, s, v)) => h.gpu_name@ == n && h.gpu_score == s && h.vram_gb == v,
        None => h.gpu_name@ == "Unknown GPU"@ && h.gpu_score == 0 && h.vram_gb is None,
    }
    &&& h.ram_gb == match windows::second_line_gib_of(opt_view(r.memory)) {
        Some(g) => g,
        None => 8,
    }
    &&& h.storage_gb == match windows::second_line_gib_of(opt_view(r.storage)) {
        Some(g) => g,
        None => 0,
    }
    &&& h.os@ == "Windows"@
    &&& !h.is_linux
    &&& !h.is_laptop
    &&& !h.vulkan
}

/// `h` is the profile of the macOS system that reported `r`: the `sysctl`, `system_profiler`
/// and `df` results, with "Unknown CPU" on 4 threads, "Unknown GPU" scored 0, 8 GB of RAM and
/// 0 GB of storage for what could not be read; a Mac counts as a laptop.
pub open spec fn mac_profile(r: MacReport, h: Hardware) -> bool {
    &&& match macos::mac_cpu_info_of(
        opt_view(r.cpu_brand),
        opt_view(r.physical_cpus),
        opt_view(r.logical_cpus),
    ) {
        Some((n, _, l)) => h.cpu_name@ == n && h.logical_cores == l,
        None => h.cpu_name@ == "Unknown CPU"@ && h.logical_cores == 4,
    }
    &&& h.cpu_score == cpu_score_of(h.cpu_name@, h.logical_cores)
    &&& match macos::mac_gpu_info_of(opt_view(r.displays)) {
        Some((n, s, v)) => h.gpu_name@ == n && h.gpu_score == s && h.vram_gb == v,
        None => h.gpu_name@ == "Unknown GPU"@ && h.gpu_score == 0 && h.vram_gb is None,
    }
    &&& h.ram_gb == match macos::mac_memory_gb_of(opt_view(r.memsize)) {
        Some(g) => g,
        None => 8,
    }
    &&& h.storage_gb == match macos::mac_storage_gb_of(opt_view(r.df)) {
        Some(g) => g,
        None => 0,
    }
    &&& h.os@ == "macOS"@
    &&& !h.is_linux
    &&& h.is_laptop
    &&& !h.vulkan
}

/// `h` is the profile assumed on any other system: the build's architecture as CPU name,
/// CPU score 50 on 4 threads, "Unknown GPU" scored 0, 8 GB of RAM, 0 GB of storage.
pub open spec fn fallback_profile(arch: Seq<char>, os: Seq<char>, h: Hardware) -> bool {
    &&& h.cpu_name@ == arch
    &&& h.cpu_score == 50
    &&& h.logical_cores == 4
    &&& h.gpu_name@ == "Unknown GPU"@
    &&& h.gpu_score == 0
    &&& h.vram_gb is None
    &&& h.ram_gb == 8
    &&& h.storage_gb == 0
    &&& h.os@ == os
    &&& !h.is_linux
    &&& !h.is_laptop
    &&& !h.vulkan
}

/// The display report of a Mac, if any, can be read (see `macos::gpu_name_readable`).
pub open spec fn report_readable(report: SystemReport) -> bool {
    match report {
        SystemReport::MacOs(r) => match r.displays {
            Some(t) => macos::gpu_name_readable(t@),
            None => true,
        },
        _ => true,
    }
}

/// `h` is the profile of the system that sent `report`.
pub open spec fn profile_of(report: SystemReport, h: Hardware) -> bool {
    match report {
        SystemReport::Linux(r) => linux_profile(r, h),
        SystemReport::Windows(r) => windows_profile(r, h),
        SystemReport::MacOs(r) => mac_profile(r, h),
        SystemReport::Other { arch, os } => fallback_profile(arch@, os@, h),
    }
}

impl Hardware {
    /// The profile of a Windows system.
    pub fn detect_windows(r: &WindowsReport) -> (h: Hardware)
        ensures
            windows_profile(*r, h),
    {
        let (cpu_name, logical_cores) = match windows::detect_cpu_info(opt_as_str(&r.cpu)) {
            Some((n, _, l)) => (n, l),
            None => (to_string("Unknown CPU"), 4),
        };
        let cpu_score = cpu_score(cpu_name.as_str(), logical_cores);
        let (gpu_name, gpu_score, vram_gb) = match windows::detect_gpu_info(opt_as_str(&r.gpu)) {
            Some(g) => g,
            None => (to_string("Unknown GPU"), 0, None),
        };
        let ram_gb = match windows::detect_memory_gb(opt_as_str(&r.memory)) {
            Some(g) => g,
            None => 8,
        };
        let storage_gb = match windows::detect_storage_gb(opt_as_str(&r.storage)) {
            Some(g) => g,
            None => 0,
        };
        Hardware {
            cpu_name,
            cpu_score,
            logical_cores,
            gpu_name,
            gpu_score,
            vram_gb,
            ram_gb,
            storage_gb,
            os: to_string("Windows"),
            is_linux: false,
            is_laptop: false,
            vulkan: false,
        }
    }

    /// The profile of a Mac.
    pub fn detect_macos(r: &MacReport) -> (h: Hardware)
        requires
            match r.displays {
                Some(t) => macos::gpu_name_readable(t@),
                None => true,
            },
        ensures
            mac_profile(*r, h),
    {
        let (cpu_name, logical_cores) = match macos::detect_cpu_info(
            opt_as_str(&r.cpu_brand),
            opt_as_str(&r.physical_cpus),
            opt_as_str(&r.logical_cpus),
        ) {
            Some((n, _, l)) => (n, l),
            None => (to_string("Unknown CPU"), 4),
        };
        let cpu_score = cpu_score(cpu_name.as_str(), logical_cores);
        let (gpu_name, gpu_score, vram_gb) = match macos::detect_gpu_info(opt_as_str(&r.displays)) {
            Some(g) => g,
            None => (to_string("Unknown GPU"), 0, None),
        };
        let ram_gb = match macos::detect_memory_gb(opt_as_str(&r.memsize)) {
            Some(g) => g,
            None => 8,
        };
        let storage_gb = match macos::detect_storage_gb(opt_as_str(&r.df)) {
            Some(g) => g,
            None => 0,
        };
        Hardware {
            cpu_name,
            cpu_score,
            logical_cores,
            gpu_name,
            gpu_score,
            vram_gb,
            ram_gb,
            storage_gb,
            os: to_string("macOS"),
            is_linux: false,
            is_laptop: true,
            vulkan: false,
        }
    }

    /// The profile assumed on any other system.
    pub fn detect_fallback(arch: &str, os: &str) -> (h: Hardware)
        ensures
            fallback_profile(arch@, os@, h),
    {
        Hardware {
            cpu_name: to_string(arch),
            cpu_score: 50,
            logical_cores: 4,
            gpu_name: to_string("Unknown GPU"),
            gpu_score: 0,
            vram_gb: None,
            ram_gb: 8,
            storage_gb: 0,
            os: to_string(os),
            is_linux: false,
            is_laptop: false,
            vulkan: false,
        }
    }

    /// The profile of the system that sent `report`.
    pub fn detect(report: &SystemReport) -> (h: Hardware)
        requires
            report_readable(*report),
        ensures
            profile_of(*report, h),
    {
        match report {
            SystemReport::Linux(r) => Self::detect_linux(r),
            SystemReport::Windows(r) => Self::detect_windows(r),
            SystemReport::MacOs(r) => Self::detect_macos(r),
            SystemReport::Other { arch, os } => Self::detect_fallback(arch.as_str(), os.as_str()),
        }
    }
}

} // verus!
