use umadev::config::{animations_enabled_default, tier_value, UserConfig, MODEL_BUILD_VAR, MODEL_PLAN_VAR};

#[test]
fn default_config_has_no_backend() {
    let cfg = UserConfig::default();
    assert!(cfg.backend.is_none());
    assert!(!cfg.has_backend());
}

#[test]
fn backend_or_default_falls_back_to_offline() {
    let cfg = UserConfig::default();
    assert_eq!(cfg.backend_or_default(), "offline");
    let cfg = UserConfig {
        backend: Some("codex".into()),
        model: None,
        ..Default::default()
    };
    assert_eq!(cfg.backend_or_default(), "codex");
}

#[test]
fn model_tiers_export_only_non_empty_models() {
    let mut config = UserConfig::default();
    config.model_plan = Some("small-model".to_string());
    config.model_build = Some(String::new());
    let (plan, build) = config.model_tier_exports();
    assert_eq!(plan, Some("small-model".to_string()));
    assert_eq!(build, None);
    assert_eq!(tier_value(&None), None);
    assert_eq!(MODEL_PLAN_VAR, "UMADEV_MODEL_PLAN");
    assert_eq!(MODEL_BUILD_VAR, "UMADEV_MODEL_BUILD");
}

#[test]
fn animations_follow_terminal_and_preference() {
    assert!(!animations_enabled_default(false, None));
    assert!(!animations_enabled_default(false, Some(true)));
    assert!(animations_enabled_default(true, None));
    assert!(animations_enabled_default(true, Some(true)));
    assert!(!animations_enabled_default(true, Some(false)));
}
