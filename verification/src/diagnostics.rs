//! System health checks, game-specific diagnostics and remediation guidance.
use vstd::prelude::*;

use crate::hardware::Hardware;
use crate::text::{
    chars_equal_str, chars_of, contains, push_str, str_contains, string_views, to_string,
};

verus! {

/// How healthy a component or the whole system is.
#[derive(Clone, Copy, Debug, PartialEq, Eq, Structural)]
pub enum HealthStatus {
    Healthy,
    Warning,
    Critical,
}

/// The health of one component: status, a score and the issues found.
#[derive(Clone, Debug)]
pub struct ComponentHealth {
    pub status: HealthStatus,
    pub score: u8,
    pub issues: Vec<String>,
}

/// What is known of the graphics driver and APIs.
#[derive(Clone, Debug)]
pub struct DriverStatus {
    pub gpu_driver: Option<String>,
    pub vulkan_support: bool,
    pub directx_support: bool,
    pub outdated: bool,
}

/// Temperatures, in thousandths of a degree Celsius, and throttling.
#[derive(Clone, Copy, Debug)]
pub struct ThermalStatus {
    pub cpu_temp: Option<i32>,
    pub gpu_temp: Option<i32>,
    pub thermal_throttling: bool,
}

/// The health of a whole system.
#[derive(Clone, Debug)]
pub struct SystemHealth {
    pub overall_status: HealthStatus,
    pub cpu_health: ComponentHealth,
    pub gpu_health: ComponentHealth,
    pub memory_health: ComponentHealth,
    pub storage_health: ComponentHealth,
    pub driver_status: DriverStatus,
    pub thermal_status: ThermalStatus,
    pub recommendations: Vec<String>,
}

/// The status of a value against a healthy and a warning threshold.
pub open spec fn graded(value: u16, healthy: u16, warning: u16) -> HealthStatus {
    if value >= healthy {
        HealthStatus::Healthy
    } else if value >= warning {
        HealthStatus::Warning
    } else {
        HealthStatus::Critical
    }
}

fn grade(value: u16, healthy: u16, warning: u16) -> (s: HealthStatus)
    ensures
        s == graded(value, healthy, warning),
{
    if value >= healthy {
        HealthStatus::Healthy
    } else if value >= warning {
        HealthStatus::Warning
    } else {
        HealthStatus::Critical
    }
}

/// CPU health: healthy from score 50, warning from 30; the score kept as its low byte.
pub open spec fn cpu_health_of(hw: Hardware, h: ComponentHealth) -> bool {
    &&& h.status == graded(hw.cpu_score, 50, 30)
    &&& h.score == hw.cpu_score as u8
    &&& string_views(h.issues@) == if hw.cpu_score < 30 {
        seq!["CPU performance below minimum requirements for modern games"@]
    } else {
        seq![]
    }
}

/// GPU health: healthy from score 50, warning from 30; a missing GPU or VRAM is an issue.
pub open spec fn gpu_health_of(hw: Hardware, h: ComponentHealth) -> bool {
    &&& h.status == graded(hw.gpu_score, 50, 30)
    &&& h.score == hw.gpu_score as u8
    &&& string_views(h.issues@) == (if hw.gpu_score == 0 {
        seq!["GPU not detected or unsupported"@]
    } else if hw.gpu_score < 30 {
        seq!["GPU performance below minimum requirements for modern games"@]
    } else {
        seq![]
    }) + (if hw.vram_gb is None {
        seq!["VRAM not detected - performance estimates may be inaccurate"@]
    } else {
        seq![]
    })
}

/// Memory health: healthy from 16 GB, warning from 8 GB; the score is RAM in units of 32 GB,
/// at most 100.
pub open spec fn memory_health_of(hw: Hardware, h: ComponentHealth) -> bool {
    &&& h.status == graded(hw.ram_gb, 16, 8)
    &&& h.score == if hw.ram_gb / 32 > 100 {
        100
    } else {
        hw.ram_gb / 32
    }
    &&& string_views(h.issues@) == if hw.ram_gb < 8 {
        seq!["RAM below minimum requirements for modern games"@]
    } else if hw.ram_gb < 16 {
        seq!["RAM below recommended for optimal performance"@]
    } else {
        seq![]
    }
}

/// Storage health: healthy from 100 GB, warning from 50 GB; the score is storage in units of
/// 10 GB, at most 100.
pub open spec fn storage_health_of(hw: Hardware, h: ComponentHealth) -> bool {
    &&& h.status == graded(hw.storage_gb, 100, 50)
    &&& h.score == if hw.storage_gb / 10 > 100 {
        100
    } else {
        hw.storage_gb / 10
    }
    &&& string_views(h.issues@) == if hw.storage_gb < 50 {
        seq!["Limited storage space - may not fit modern games"@]
    } else {
        seq![]
    }
}

/// The overall status: critical if any component is, else warning if any is, else healthy.
pub open spec fn overall_of(statuses: Seq<HealthStatus>) -> HealthStatus {
    if statuses.contains(HealthStatus::Critical) {
        HealthStatus::Critical
    } else if statuses.contains(HealthStatus::Warning) {
        HealthStatus::Warning
    } else {
        HealthStatus::Healthy
    }
}

/// The advice of a health check: upgrade a critical CPU or GPU, add RAM when memory is at
/// warning level, free storage when storage is at warning level; else the system is healthy.
pub open spec fn health_advice(
    cpu: HealthStatus,
    gpu: HealthStatus,
    memory: HealthStatus,
    storage: HealthStatus,
) -> Seq<Seq<char>> {
    let r = (if cpu == HealthStatus::Critical {
        seq!["Consider upgrading CPU for better performance"@]
    } else {
        seq![]
    }) + (if gpu == HealthStatus::Critical {
        seq!["Consider upgrading GPU for better performance"@]
    } else {
        seq![]
    }) + (if memory == HealthStatus::Warning {
        seq!["Consider upgrading to 16GB+ RAM for modern games"@]
    } else {
        seq![]
    }) + (if storage == HealthStatus::Warning {
        seq!["Free up storage space or install games on larger drive"@]
    } else {
        seq![]
    });
    if r.len() == 0 {
        seq!["System appears healthy for gaming"@]
    } else {
        r
    }
}

/// The components' statuses.
pub open spec fn statuses_of(components: Seq<&ComponentHealth>) -> Seq<HealthStatus> {
    components.map_values(|c: &ComponentHealth| c.status)
}

impl SystemHealth {
    /// The health of a machine.
    pub fn diagnose(hw: &Hardware) -> (h: Self)
        ensures
            cpu_health_of(*hw, h.cpu_health),
            gpu_health_of(*hw, h.gpu_health),
            memory_health_of(*hw, h.memory_health),
            storage_health_of(*hw, h.storage_health),
            h.driver_status.gpu_driver matches Some(d) && d@ == hw.gpu_name@,
            h.driver_status.vulkan_support == hw.vulkan,
            h.driver_status.directx_support == !hw.is_linux,
            !h.driver_status.outdated,
            h.thermal_status == (ThermalStatus {
                cpu_temp: None,
                gpu_temp: None,
                thermal_throttling: false,
            }),
            h.overall_status == overall_of(
                seq![
                    h.cpu_health.status,
                    h.gpu_health.status,
                    h.memory_health.status,
                    h.storage_health.status,
                ],
            ),
            string_views(h.recommendations@) == health_advice(
                h.cpu_health.status,
                h.gpu_health.status,
                h.memory_health.status,
                h.storage_health.status,
            ),
    {
        let cpu_health = Self::check_cpu_health(hw);
        let gpu_health = Self::check_gpu_health(hw);
        let memory_health = Self::check_memory_health(hw);
        let storage_health = Self::check_storage_health(hw);
        let driver_status = Self::check_driver_status(hw);
        let thermal_status = Self::check_thermal_status();
        let mut components: Vec<&ComponentHealth> = Vec::new();
        components.push(&cpu_health);
        components.push(&gpu_health);
        components.push(&memory_health);
        components.push(&storage_health);
        let overall_status = Self::calculate_overall_status(components.as_slice());
        assert(statuses_of(components@) =~= seq![
            cpu_health.status,
            gpu_health.status,
            memory_health.status,
            storage_health.status,
        ]);
        let recommendations = Self::generate_recommendations(
            &cpu_health,
            &gpu_health,
            &memory_health,
            &storage_health,
        );
        SystemHealth {
            overall_status,
            cpu_health,
            gpu_health,
            memory_health,
            storage_health,
            driver_status,
            thermal_status,
            recommendations,
        }
    }

    /// CPU health of a machine.
    pub fn check_cpu_health(hw: &Hardware) -> (h: ComponentHealth)
        ensures
            cpu_health_of(*hw, h),
    {
        let mut issues: Vec<String> = Vec::new();
        if hw.cpu_score < 30 {
            issues.push(to_string("CPU performance below minimum requirements for modern games"));
        }
        assert(string_views(issues@) =~= if hw.cpu_score < 30 {
            seq!["CPU performance below minimum requirements for modern games"@]
        } else {
            seq![]
        });
        ComponentHealth {
            status: grade(hw.cpu_score, 50, 30),
            score: hw.cpu_score as u8,
            issues,
        }
    }

    /// GPU health of a machine.
    pub fn check_gpu_health(hw: &Hardware) -> (h: ComponentHealth)
        ensures
            gpu_health_of(*hw, h),
    {
        let mut issues: Vec<String> = Vec::new();
        if hw.gpu_score == 0 {
            issues.push(to_string("GPU not detected or unsupported"));
        } else if hw.gpu_score < 30 {
            issues.push(to_string("GPU performance below minimum requirements for modern games"));
        }
        if hw.vram_gb.is_none() {
            issues.push(to_string("VRAM not detected - performance estimates may be inaccurate"));
        }
        assert(string_views(issues@) =~= (if hw.gpu_score == 0 {
            seq!["GPU not detected or unsupported"@]
        } else if hw.gpu_score < 30 {
            seq!["GPU performance below minimum requirements for modern games"@]
        } else {
            seq![]
        }) + (if hw.vram_gb is None {
            seq!["VRAM not detected - performance estimates may be inaccurate"@]
        } else {
            seq![]
        }));
        ComponentHealth {
            status: grade(hw.gpu_score, 50, 30),
            score: hw.gpu_score as u8,
            issues,
        }
    }

    /// Memory health of a machine.
    pub fn check_memory_health(hw: &Hardware) -> (h: ComponentHealth)
        ensures
            memory_health_of(*hw, h),
    {
        let mut issues: Vec<String> = Vec::new();
        if hw.ram_gb < 8 {
            issues.push(to_string("RAM below minimum requirements for modern games"));
        } else if hw.ram_gb < 16 {
            issues.push(to_string("RAM below recommended for optimal performance"));
        }
        assert(string_views(issues@) =~= if hw.ram_gb < 8 {
            seq!["RAM below minimum requirements for modern games"@]
        } else if hw.ram_gb < 16 {
            seq!["RAM below recommended for optimal performance"@]
        } else {
            seq![]
        });
        let units = hw.ram_gb / 32;
        ComponentHealth {
            status: grade(hw.ram_gb, 16, 8),
            score: (if units > 100 {
                100
            } else {
                units
            }) as u8,
            issues,
        }
    }

    /// Storage health of a machine.
    pub fn check_storage_health(hw: &Hardware) -> (h: ComponentHealth)
        ensures
            storage_health_of(*hw, h),
    {
        let mut issues: Vec<String> = Vec::new();
        if hw.storage_gb < 50 {
            issues.push(to_string("Limited storage space - may not fit modern games"));
        }
        assert(string_views(issues@) =~= if hw.storage_gb < 50 {
            seq!["Limited storage space - may not fit modern games"@]
        } else {
            seq![]
        });
        let tenth = hw.storage_gb / 10;
        ComponentHealth {
            status: grade(hw.storage_gb, 100, 50),
            score: (if tenth > 100 {
                100
            } else {
                tenth
            }) as u8,
            issues,
        }
    }

    /// What is known of the driver: the GPU name, Vulkan as detected, DirectX everywhere but
    /// on Linux, never outdated.
    pub fn check_driver_status(hw: &Hardware) -> (d: DriverStatus)
        ensures
            d.gpu_driver matches Some(n) && n@ == hw.gpu_name@,
            d.vulkan_support == hw.vulkan,
            d.directx_support == !hw.is_linux,
            !d.outdated,
    {
        DriverStatus {
            gpu_driver: Some(hw.gpu_name.clone()),
            vulkan_support: hw.vulkan,
            directx_support: !hw.is_linux,
            outdated: false,
        }
    }

    /// Thermal status: no sensor is read.
    pub fn check_thermal_status() -> (t: ThermalStatus)
        ensures
            t == (ThermalStatus { cpu_temp: None, gpu_temp: None, thermal_throttling: false }),
    {
        ThermalStatus { cpu_temp: None, gpu_temp: None, thermal_throttling: false }
    }

    /// The overall status of components.
    pub fn calculate_overall_status(components: &[&ComponentHealth]) -> (s: HealthStatus)
        ensures
            s == overall_of(statuses_of(components@)),
    {
        let ghost st = statuses_of(components@);
        let mut critical = false;
        let mut warning = false;
        let mut i: usize = 0;
        while i < components.len()
            invariant
                i <= components@.len() == st.len(),
                st == statuses_of(components@),
                critical == st.take(i as int).contains(HealthStatus::Critical),
                warning == st.take(i as int).contains(HealthStatus::Warning),
            decreases components@.len() - i,
        {
            let s = components[i].status;
            assert(st[i as int] == s);
            proof {
                let t0 = st.take(i as int);
                let t1 = st.take(i + 1);
                assert(t1 =~= t0.push(s));
                assert forall|x: HealthStatus| t1.contains(x) == (t0.contains(x) || x == s) by {
                    if t1.contains(x) {
                        let j = choose|j: int| 0 <= j < t1.len() && t1[j] == x;
                        if j < t0.len() {
                            assert(t0[j] == x);
                        }
                    }
                    if t0.contains(x) {
                        let j = choose|j: int| 0 <= j < t0.len() && t0[j] == x;
                        assert(t1[j] == x);
                    }
                    if x == s {
                        assert(t1[i as int] == x);
                    }
                }
            }
            if s == HealthStatus::Critical {
                critical = true;
            }
            if s == HealthStatus::Warning {
                warning = true;
            }
            i += 1;
        }
        assert(st.take(st.len() as int) =~= st);
        if critical {
            HealthStatus::Critical
        } else if warning {
            HealthStatus::Warning
        } else {
            HealthStatus::Healthy
        }
    }

    /// The advice of a health check.
    pub fn generate_recommendations(
        cpu: &ComponentHealth,
        gpu: &ComponentHealth,
        memory: &ComponentHealth,
        storage: &ComponentHealth,
    ) -> (r: Vec<String>)
        ensures
            string_views(r@) == health_advice(cpu.status, gpu.status, memory.status, storage.status),
    {
        let mut r: Vec<String> = Vec::new();
        if cpu.status == HealthStatus::Critical {
            r.push(to_string("Consider upgrading CPU for better performance"));
        }
        if gpu.status == HealthStatus::Critical {
            r.push(to_string("Consider upgrading GPU for better performance"));
        }
        if memory.status == HealthStatus::Warning {
            r.push(to_string("Consider upgrading to 16GB+ RAM for modern games"));
        }
        if storage.status == HealthStatus::Warning {
            r.push(to_string("Free up storage space or install games on larger drive"));
        }
        if r.len() == 0 {
            r.push(to_string("System appears healthy for gaming"));
        }
        assert(string_views(r@) =~= health_advice(
            cpu.status,
            gpu.status,
            memory.status,
            storage.status,
        ));
        r
    }
}

/// How serious a compatibility issue is.
#[derive(Clone, Copy, Debug, PartialEq, Eq, Structural)]
pub enum IssueSeverity {
    Low,
    Medium,
    High,
    Critical,
}

/// What a compatibility issue is about.
#[derive(Clone, Copy, Debug, PartialEq, Eq, Structural)]
pub enum IssueCategory {
    Hardware,
    Software,
    Configuration,
    Network,
    AntiCheat,
}

/// One compatibility issue of a game on a machine.
#[derive(Clone, Debug)]
pub struct CompatibilityIssue {
    pub severity: IssueSeverity,
    pub description: String,
    pub category: IssueCategory,
}

/// Diagnostics of one game on one machine.
#[derive(Clone, Debug)]
pub struct GameDiagnostics {
    pub game_id: String,
    pub compatibility_issues: Vec<CompatibilityIssue>,
    pub known_fixes: Vec<String>,
    pub community_solutions: Vec<String>,
    pub configuration_recommendations: Vec<String>,
}

/// The views of compatibility issues.
pub open spec fn issue_views(v: Seq<CompatibilityIssue>) -> Seq<(IssueSeverity, Seq<char>, IssueCategory)> {
    v.map_values(|i: CompatibilityIssue| (i.severity, i.description@, i.category))
}

/// The compatibility issues of a game on a machine: GTA V's anti-cheat on Linux, a GPU below
/// score 40, less than 8 GB of RAM.
pub open spec fn compatibility_issues_of(game_id: Seq<char>, hw: Hardware) -> Seq<
    (IssueSeverity, Seq<char>, IssueCategory),
> {
    (if hw.is_linux && (game_id == "grand-theft-auto-v"@ || game_id == "gta v"@) {
        seq![
            (
                IssueSeverity::Medium,
                "GTA Online anti-cheat may have issues on Linux"@,
                IssueCategory::AntiCheat,
            ),
        ]
    } else {
        seq![]
    }) + (if hw.gpu_score < 40 {
        seq![
            (
                IssueSeverity::High,
                "GPU may not meet minimum requirements"@,
                IssueCategory::Hardware,
            ),
        ]
    } else {
        seq![]
    }) + (if hw.ram_gb < 8 {
        seq![(IssueSeverity::High, "RAM below minimum requirements"@, IssueCategory::Hardware)]
    } else {
        seq![]
    })
}

/// The known fixes of a game.
pub open spec fn known_fixes_of(game_id: Seq<char>) -> Seq<Seq<char>> {
    if game_id == "cyberpunk-2077"@ {
        seq![
            "Disable ray tracing for better performance"@,
            "Use DLSS if supported by GPU"@,
            "Install on SSD for reduced loading times"@,
        ]
    } else if game_id == "elden-ring"@ {
        seq![
            "Enable game mode for better performance"@,
            "Update GPU drivers for shader compilation fixes"@,
        ]
    } else {
        seq!["Ensure latest GPU drivers are installed"@]
    }
}

/// Where the community may help with a game.
pub open spec fn community_solutions_of(game_id: Seq<char>) -> Seq<Seq<char>> {
    seq![
        "Check ProtonDB for "@ + game_id + " Linux compatibility"@,
        "Consult PCGamingWiki for community fixes"@,
    ]
}

/// Settings advice for a machine.
pub open spec fn config_recommendations_of(hw: Hardware) -> Seq<Seq<char>> {
    (if hw.is_laptop {
        seq!["Enable power saving mode may reduce performance"@]
    } else {
        seq![]
    }) + (if hw.gpu_score < 50 {
        seq!["Consider lowering graphics settings"@]
    } else {
        seq![]
    }) + seq!["Start with Medium settings and adjust based on performance"@]
}

fn issue(severity: IssueSeverity, description: &str, category: IssueCategory) -> (i:
    CompatibilityIssue)
    ensures
        i.severity == severity,
        i.description@ == description@,
        i.category == category,
{
    CompatibilityIssue { severity, description: to_string(description), category }
}

impl GameDiagnostics {
    /// Diagnostics of a game on a machine.
    pub fn diagnose_game(game_id: &str, hw: &Hardware) -> (d: Self)
        ensures
            d.game_id@ == game_id@,
            issue_views(d.compatibility_issues@) == compatibility_issues_of(game_id@, *hw),
            string_views(d.known_fixes@) == known_fixes_of(game_id@),
            string_views(d.community_solutions@) == community_solutions_of(game_id@),
            string_views(d.configuration_recommendations@) == config_recommendations_of(*hw),
    {
        GameDiagnostics {
            game_id: to_string(game_id),
            compatibility_issues: Self::check_compatibility(game_id, hw),
            known_fixes: Self::get_known_fixes(game_id),
            community_solutions: Self::get_community_solutions(game_id),
            configuration_recommendations: Self::get_config_recommendations(game_id, hw),
        }
    }

    /// The compatibility issues of a game on a machine.
    pub fn check_compatibility(game_id: &str, hw: &Hardware) -> (v: Vec<CompatibilityIssue>)
        ensures
            issue_views(v@) == compatibility_issues_of(game_id@, *hw),
    {
        let id = chars_of(game_id);
        let mut v: Vec<CompatibilityIssue> = Vec::new();
        if hw.is_linux && (chars_equal_str(id.as_slice(), "grand-theft-auto-v") || chars_equal_str(
            id.as_slice(),
            "gta v",
        )) {
            v.push(
                issue(
                    IssueSeverity::Medium,
                    "GTA Online anti-cheat may have issues on Linux",
                    IssueCategory::AntiCheat,
                ),
            );
        }
        if hw.gpu_score < 40 {
            v.push(
                issue(
                    IssueSeverity::High,
                    "GPU may not meet minimum requirements",
                    IssueCategory::Hardware,
                ),
            );
        }
        if hw.ram_gb < 8 {
            v.push(
                issue(IssueSeverity::High, "RAM below minimum requirements", IssueCategory::Hardware),
            );
        }
        assert(issue_views(v@) =~= compatibility_issues_of(game_id@, *hw));
        v
    }

    /// The known fixes of a game.
    pub fn get_known_fixes(game_id: &str) -> (v: Vec<String>)
        ensures
            string_views(v@) == known_fixes_of(game_id@),
    {
        let id = chars_of(game_id);
        let mut v: Vec<String> = Vec::new();
        if chars_equal_str(id.as_slice(), "cyberpunk-2077") {
            v.push(to_string("Disable ray tracing for better performance"));
            v.push(to_string("Use DLSS if supported by GPU"));
            v.push(to_string("Install on SSD for reduced loading times"));
        } else if chars_equal_str(id.as_slice(), "elden-ring") {
            v.push(to_string("Enable game mode for better performance"));
            v.push(to_string("Update GPU drivers for shader compilation fixes"));
        } else {
            v.push(to_string("Ensure latest GPU drivers are installed"));
        }
        assert(string_views(v@) =~= known_fixes_of(game_id@));
        v
    }

    /// Where the community may help with a game.
    pub fn get_community_solutions(game_id: &str) -> (v: Vec<String>)
        ensures
            string_views(v@) == community_solutions_of(game_id@),
    {
        let mut first = to_string("Check ProtonDB for ");
        push_str(&mut first, game_id);
        push_str(&mut first, " Linux compatibility");
        let mut v: Vec<String> = Vec::new();
        v.push(first);
        v.push(to_string("Consult PCGamingWiki for community fixes"));
        assert(string_views(v@) =~= community_solutions_of(game_id@));
        v
    }

    /// Settings advice for a machine.
    pub fn get_config_recommendations(game_id: &str, hw: &Hardware) -> (v: Vec<String>)
        ensures
            string_views(v@) == config_recommendations_of(*hw),
    {
        let mut v: Vec<String> = Vec::new();
        if hw.is_laptop {
            v.push(to_string("Enable power saving mode may reduce performance"));
        }
        if hw.gpu_score < 50 {
            v.push(to_string("Consider lowering graphics settings"));
        }
        v.push(to_string("Start with Medium settings and adjust based on performance"));
        assert(string_views(v@) =~= config_recommendations_of(*hw));
        v
    }
}

/// The kind of an automated fix.
#[derive(Clone, Copy, Debug, PartialEq, Eq, Structural)]
pub enum FixType {
    ConfigChange,
    DriverUpdate,
    SystemSetting,
    FileModification,
}

/// A fix that can be applied automatically.
#[derive(Clone, Debug)]
pub struct AutomatedFix {
    pub fix_type: FixType,
    pub description: String,
    pub safe: bool,
}

/// Guidance for one issue.
#[derive(Clone, Debug)]
pub struct RemediationGuidance {
    pub issue: String,
    pub automated_fix: Option<AutomatedFix>,
    pub manual_steps: Vec<String>,
    pub community_links: Vec<String>,
    pub estimated_fix_time: String,
}

/// The automated fix for an issue: a driver update when it mentions "driver", else a
/// configuration change when it mentions "config", else none; both are safe.
pub open spec fn automated_fix_of(issue: Seq<char>) -> Option<(FixType, Seq<char>, bool)> {
    if contains(issue, "driver"@) {
        Some((FixType::DriverUpdate, "Update GPU drivers to latest version"@, true))
    } else if contains(issue, "config"@) {
        Some((FixType::ConfigChange, "Modify game configuration file"@, true))
    } else {
        None
    }
}

/// The view of an optional automated fix.
pub open spec fn fix_view(f: Option<AutomatedFix>) -> Option<(FixType, Seq<char>, bool)> {
    match f {
        Some(x) => Some((x.fix_type, x.description@, x.safe)),
        None => None,
    }
}

/// The manual steps for an issue.
pub open spec fn manual_steps_of(issue: Seq<char>) -> Seq<Seq<char>> {
    seq![
        "Identify the specific issue: "@ + issue,
        "Check for known solutions in game documentation"@,
        "Verify system requirements are met"@,
        "Test with different graphics settings"@,
    ]
}

/// Where to look for help with an issue.
pub open spec fn community_links_of(issue: Seq<char>) -> Seq<Seq<char>> {
    seq![
        "Search for '"@ + issue + "' on Steam Community"@,
        "Check Reddit for similar issues"@,
        "Consult PCGamingWiki"@,
    ]
}

/// How long fixing an issue takes: 5-10 minutes for a driver, 2-5 for a configuration,
/// 10-30 otherwise.
pub open spec fn fix_time_of(issue: Seq<char>) -> Seq<char> {
    if contains(issue, "driver"@) {
        "5-10 minutes"@
    } else if contains(issue, "config"@) {
        "2-5 minutes"@
    } else {
        "10-30 minutes"@
    }
}

impl RemediationGuidance {
    /// Guidance for an issue.
    pub fn generate(issue: &str) -> (g: Self)
        ensures
            g.issue@ == issue@,
            fix_view(g.automated_fix) == automated_fix_of(issue@),
            string_views(g.manual_steps@) == manual_steps_of(issue@),
            string_views(g.community_links@) == community_links_of(issue@),
            g.estimated_fix_time@ == fix_time_of(issue@),
    {
        RemediationGuidance {
            issue: to_string(issue),
            automated_fix: Self::determine_automated_fix(issue),
            manual_steps: Self::generate_manual_steps(issue),
            community_links: Self::get_community_links(issue),
            estimated_fix_time: Self::estimate_fix_time(issue),
        }
    }

    /// The automated fix for an issue.
    pub fn determine_automated_fix(issue: &str) -> (f: Option<AutomatedFix>)
        ensures
            fix_view(f) == automated_fix_of(issue@),
    {
        if str_contains(issue, "driver") {
            Some(
                AutomatedFix {
                    fix_type: FixType::DriverUpdate,
                    description: to_string("Update GPU drivers to latest version"),
                    safe: true,
                },
            )
        } else if str_contains(issue, "config") {
            Some(
                AutomatedFix {
                    fix_type: FixType::ConfigChange,
                    description: to_string("Modify game configuration file"),
                    safe: true,
                },
            )
        } else {
            None
        }
    }

    /// The manual steps for an issue.
    pub fn generate_manual_steps(issue: &str) -> (v: Vec<String>)
        ensures
            string_views(v@) == manual_steps_of(issue@),
    {
        let mut first = to_string("Identify the specific issue: ");
        push_str(&mut first, issue);
        let mut v: Vec<String> = Vec::new();
        v.push(first);
        v.push(to_string("Check for known solutions in game documentation"));
        v.push(to_string("Verify system requirements are met"));
        v.push(to_string("Test with different graphics settings"));
        assert(string_views(v@) =~= manual_steps_of(issue@));
        v
    }

    /// Where to look for help with an issue.
    pub fn get_community_links(issue: &str) -> (v: Vec<String>)
        ensures
            string_views(v@) == community_links_of(issue@),
    {
        let mut first = to_string("Search for '");
        push_str(&mut first, issue);
        push_str(&mut first, "' on Steam Community");
        let mut v: Vec<String> = Vec::new();
        v.push(first);
        v.push(to_string("Check Reddit for similar issues"));
        v.push(to_string("Consult PCGamingWiki"));
        assert(string_views(v@) =~= community_links_of(issue@));
        v
    }

    /// How long fixing an issue takes.
    pub fn estimate_fix_time(issue: &str) -> (t: String)
        ensures
            t@ == fix_time_of(issue@),
    {
        if str_contains(issue, "driver") {
            to_string("5-10 minutes")
        } else if str_contains(issue, "config") {
            to_string("2-5 minutes")
        } else {
            to_string("10-30 minutes")
        }
    }
}

} // verus!
