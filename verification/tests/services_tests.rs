use std::path::PathBuf;

use ciri::analytics::{
    trend_direction, upgrade_target, ComponentType, FutureCompatibility, ReadinessLevel,
    TrendDirection,
};
use ciri::catalog::games;
use ciri::config::{Config, ConfigError, OutputFormat};
use ciri::diagnostics::{
    FixType, GameDiagnostics, HealthStatus, IssueCategory, IssueSeverity, RemediationGuidance,
    SystemHealth,
};
use ciri::hardware::Hardware;
use ciri::ml::federated::FederatedLearningClient;
use ciri::ml::models::{PerformancePredictor, PredictionSource};
use ciri::ml::onnx_runtime::ONNXModel;
use ciri::ml::MLError;
use ciri::telemetry::{CommunityDatabase, SteamTelemetry, TelemetryError};

fn service_hardware(cpu: u16, gpu: u16, ram: u16, storage: u16) -> Hardware {
    Hardware {
        cpu_name: "Test CPU".into(),
        cpu_score: cpu,
        logical_cores: 8,
        gpu_name: "Test GPU".into(),
        gpu_score: gpu,
        vram_gb: Some(4),
        ram_gb: ram,
        storage_gb: storage,
        os: "Linux".into(),
        is_linux: true,
        is_laptop: false,
        vulkan: true,
    }
}

#[test]
fn test_future_compatibility() {
    let hw = service_hardware(40, 30, 8, 100);
    let game = &games()[1];
    let compatibility = FutureCompatibility::analyze(game, &hw);
    assert!(compatibility.upgrade_needed);
    assert!(!compatibility.estimated_upgrade_cost.is_empty());
    // CPU, GPU, RAM and VRAM are all below Cyberpunk's minimum.
    assert_eq!(compatibility.current_readiness, ReadinessLevel::NotReady);
    assert_eq!(compatibility.estimated_upgrade_cost, "$2000+");
}

#[test]
fn ready_machine_needs_no_upgrade() {
    let hw = service_hardware(90, 90, 32, 500);
    let compatibility = FutureCompatibility::analyze(&games()[0], &hw);
    assert_eq!(compatibility.current_readiness, ReadinessLevel::Ready);
    assert!(!compatibility.upgrade_needed);
    assert_eq!(compatibility.estimated_upgrade_cost, "$0");
}

#[test]
fn upgrade_targets_for_the_catalog() {
    let hw = service_hardware(40, 30, 8, 100);
    let all = games();
    let refs: Vec<&ciri::catalog::Game> = all.iter().collect();
    let cpu = upgrade_target(&hw, &refs, ComponentType::CPU);
    assert_eq!((cpu.current, cpu.recommended), (40, 68));
    assert_eq!(cpu.specific_recommendations[0], "Current CPU score 40 below recommended 68");
    let storage = upgrade_target(&hw, &refs, ComponentType::Storage);
    assert_eq!((storage.recommended, storage.current_score, storage.recommended_score), (200, 10, 20));
    assert_eq!(storage.specific_recommendations[0], "Current storage 100GB below recommended 200GB");
    let none = upgrade_target(&hw, &[], ComponentType::RAM);
    assert_eq!(none.recommended, 16);
    assert_eq!(none.recommended_score, 0);
    assert_eq!(trend_direction(&hw, ComponentType::Storage), TrendDirection::Declining);
    assert_eq!(trend_direction(&hw, ComponentType::CPU), TrendDirection::Stable);
}

#[test]
fn test_system_health() {
    let hw = service_hardware(70, 70, 16, 500);
    let health = SystemHealth::diagnose(&hw);
    assert!(matches!(health.overall_status, HealthStatus::Healthy));
}

#[test]
fn weak_system_health() {
    let mut hw = service_hardware(20, 0, 12, 60);
    hw.vram_gb = None;
    let health = SystemHealth::diagnose(&hw);
    assert_eq!(health.overall_status, HealthStatus::Critical);
    assert_eq!(
        health.gpu_health.issues,
        vec![
            "GPU not detected or unsupported".to_string(),
            "VRAM not detected - performance estimates may be inaccurate".to_string()
        ]
    );
    assert_eq!(health.memory_health.status, HealthStatus::Warning);
    assert_eq!(
        health.recommendations,
        vec![
            "Consider upgrading CPU for better performance".to_string(),
            "Consider upgrading GPU for better performance".to_string(),
            "Consider upgrading to 16GB+ RAM for modern games".to_string(),
            "Free up storage space or install games on larger drive".to_string(),
        ]
    );
    assert_eq!(health.storage_health.score, 6);
    assert_eq!(health.driver_status.gpu_driver.as_deref(), Some("Test GPU"));
    assert!(!health.driver_status.directx_support);
    let mut windows = service_hardware(70, 70, 16, 500);
    windows.is_linux = false;
    assert!(SystemHealth::diagnose(&windows).driver_status.directx_support);
}

#[test]
fn test_game_diagnostics() {
    let hw = service_hardware(70, 70, 16, 500);
    let diagnostics = GameDiagnostics::diagnose_game("cyberpunk-2077", &hw);
    assert_eq!(diagnostics.game_id, "cyberpunk-2077");
    assert!(!diagnostics.known_fixes.is_empty());
}

#[test]
fn gta_on_a_weak_linux_machine() {
    let hw = service_hardware(70, 30, 4, 500);
    let d = GameDiagnostics::diagnose_game("gta v", &hw);
    assert_eq!(d.compatibility_issues.len(), 3);
    assert_eq!(d.compatibility_issues[0].severity, IssueSeverity::Medium);
    assert_eq!(d.compatibility_issues[0].category, IssueCategory::AntiCheat);
    assert_eq!(d.known_fixes, vec!["Ensure latest GPU drivers are installed".to_string()]);
    assert_eq!(d.community_solutions[0], "Check ProtonDB for gta v Linux compatibility");
    assert_eq!(d.configuration_recommendations.len(), 2);
}

#[test]
fn test_remediation_guidance() {
    let guidance = RemediationGuidance::generate("GPU driver outdated");
    assert!(guidance.automated_fix.is_some());
    assert!(!guidance.manual_steps.is_empty());
}

#[test]
fn remediation_kinds() {
    let g = RemediationGuidance::generate("bad config file");
    assert_eq!(g.automated_fix.as_ref().map(|f| f.fix_type), Some(FixType::ConfigChange));
    assert_eq!(g.estimated_fix_time, "2-5 minutes");
    let g = RemediationGuidance::generate("stutter");
    assert!(g.automated_fix.is_none());
    assert_eq!(g.estimated_fix_time, "10-30 minutes");
    assert_eq!(g.community_links[0], "Search for 'stutter' on Steam Community");
}

#[test]
fn test_default_config() {
    let config = Config::default();
    assert_eq!(config.default_target, "1080p");
    assert!(config.show_notes);
    assert_eq!(config.confidence_threshold, 70);
    assert_eq!(config.output_format, OutputFormat::Human);
}

#[test]
fn config_error_messages() {
    assert_eq!(ConfigError::IoError("x".into()).message(), "IO error: x");
    assert_eq!(ConfigError::ParseError("x".into()).message(), "Parse error: x");
    assert_eq!(ConfigError::NoConfigDir.message(), "Could not find config directory");
    assert_eq!(
        ConfigError::FeatureNotEnabled.message(),
        "Config feature not enabled. Build with --features config"
    );
}

#[test]
fn test_federated_client_default() {
    let client = FederatedLearningClient::new();
    assert!(!client.is_enabled());
}

#[test]
fn test_federated_client_with_server() {
    let client = FederatedLearningClient::new().with_server("http://example.com".to_string());
    assert!(client.is_enabled());
}

#[test]
fn federated_update_server() {
    assert!(matches!(FederatedLearningClient::new().update_server(), Err(MLError::FeatureNotEnabled)));
    let client = FederatedLearningClient::new().with_server("http://example.com".to_string());
    assert_eq!(client.update_server().unwrap(), "http://example.com");
    let half = FederatedLearningClient { enabled: true, server_url: None };
    assert_eq!(half.update_server().unwrap_err().message(), "Inference failed: No server URL configured");
}

#[test]
fn test_ml_error_display() {
    let err = MLError::FeatureNotEnabled;
    assert!(err.message().contains("ML feature not enabled"));
}

#[test]
fn ml_error_messages() {
    assert_eq!(MLError::ModelNotLoaded("x".into()).message(), "Model not loaded: x");
    assert_eq!(MLError::FeatureExtractionFailed("x".into()).message(), "Feature extraction failed: x");
}

#[test]
fn test_predictor_creation() {
    let predictor = PerformancePredictor::new();
    assert!(predictor.is_ok());
}

#[test]
fn predictor_sources() {
    let p = PerformancePredictor::with_heuristic_fallback();
    assert_eq!(p.prediction_source().unwrap(), PredictionSource::Heuristic);
    let loaded = PerformancePredictor { model_loaded: true, use_heuristic_fallback: false };
    assert_eq!(loaded.prediction_source().unwrap(), PredictionSource::Model);
    let none = PerformancePredictor { model_loaded: false, use_heuristic_fallback: false };
    assert_eq!(none.prediction_source().unwrap_err().message(), "Model not loaded: No model loaded");
}

#[test]
fn test_onnx_model_default() {
    let model = ONNXModel::default();
    assert!(!model.is_loaded());
}

#[test]
fn test_onnx_model_load() {
    let model = ONNXModel::load(PathBuf::from("test_model.onnx"));
    assert!(model.is_ok());
}

#[test]
fn onnx_inference_refusal() {
    assert!(ONNXModel::default().inference_refusal().is_some());
    assert!(ONNXModel::load(PathBuf::from("m.onnx")).unwrap().inference_refusal().is_none());
}

#[test]
fn test_community_database() {
    let db = CommunityDatabase::new();
    assert!(!db.enabled);
    let db = db.with_endpoint("http://example.com".to_string());
    assert!(db.enabled);
}

#[test]
fn test_steam_telemetry() {
    let steam = SteamTelemetry::new();
    assert!(!steam.enabled);
    let steam = steam.with_user("76561198354374976".to_string());
    assert!(steam.enabled);
}

#[test]
fn telemetry_refusals() {
    assert!(matches!(SteamTelemetry::new().library_user(), Err(TelemetryError::NotEnabled)));
    let half = SteamTelemetry { enabled: true, user_id: None };
    assert!(matches!(half.library_user(), Err(TelemetryError::MissingCredentials)));
    let steam = SteamTelemetry::new().with_user("u".to_string());
    assert_eq!(steam.library_user().unwrap(), "u");
    assert!(CommunityDatabase::new().check_enabled().is_err());
    assert_eq!(TelemetryError::RequestFailed("x".into()).message(), "Request failed: x");
    assert_eq!(TelemetryError::MissingCredentials.message(), "Missing credentials");
}
