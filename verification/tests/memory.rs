use umadev::memory::{
    capture_enabled, recall_enabled, MemoryPolicy, MemoryStore, PolicyError,
    RetentionEnforcement, StorePolicy,
};

#[test]
fn missing_policy_enables_capture_and_recall() {
    // A missing policy file loads as the default policy.
    let policy = MemoryPolicy::default();
    assert!(capture_enabled(Some(&policy), MemoryStore::Facts));
    assert!(recall_enabled(Some(&policy), MemoryStore::Facts));
}

#[test]
fn store_override_roundtrips_and_replaces_on_second_save() {
    let mut policy = MemoryPolicy::default();
    policy.set_capture(Some(MemoryStore::Facts), false);
    assert!(policy.validate().is_ok());
    assert!(!capture_enabled(Some(&policy), MemoryStore::Facts));
    assert!(capture_enabled(Some(&policy), MemoryStore::Pitfalls));

    policy.set_recall(Some(MemoryStore::Facts), false);
    assert!(policy.validate().is_ok());
    assert!(!policy.capture_enabled(MemoryStore::Facts));
    assert!(!policy.recall_enabled(MemoryStore::Facts));
    assert_eq!(policy.stores.len(), 1);
}

#[test]
fn malformed_policy_disables_use_instead_of_ignoring_privacy_intent() {
    // A policy that cannot be read or parsed is passed on as `None`.
    assert!(!capture_enabled(None, MemoryStore::Facts));
    assert!(!recall_enabled(None, MemoryStore::Facts));
}

#[test]
fn derived_and_user_owned_stores_are_not_toggled_as_learned_memory() {
    let policy = MemoryPolicy::default();
    for store in [
        MemoryStore::KnowledgeIndex,
        MemoryStore::RepoMap,
        MemoryStore::SkillPackages,
        MemoryStore::DeletionAudit,
    ] {
        assert!(!capture_enabled(Some(&policy), store));
    }
    assert!(!recall_enabled(Some(&policy), MemoryStore::KnowledgeIndex));
    assert!(capture_enabled(Some(&policy), MemoryStore::GateAdrs));
    assert!(!recall_enabled(Some(&policy), MemoryStore::GateAdrs));
}

#[test]
fn global_utility_capture_requires_an_explicit_opt_in() {
    let default = MemoryPolicy::default();
    assert!(!capture_enabled(Some(&default), MemoryStore::KnowledgeUtility));
    let mut policy = MemoryPolicy::default();
    policy.set_capture(Some(MemoryStore::KnowledgeUtility), true);
    assert!(capture_enabled(Some(&policy), MemoryStore::KnowledgeUtility));
    assert!(recall_enabled(Some(&policy), MemoryStore::KnowledgeUtility));
}

#[test]
fn non_canonical_store_keys_fail_closed_instead_of_being_ignored() {
    let policy = MemoryPolicy {
        version: 1,
        capture: true,
        recall: true,
        stores: vec![(
            "FACTS".to_string(),
            StorePolicy {
                capture: Some(false),
                recall: None,
                retention_days: None,
            },
        )],
    };
    assert!(matches!(policy.validate(), Err(PolicyError::UnknownStore(key)) if key == "FACTS"));
    let loaded = policy.validate().ok().map(|()| &policy);
    assert!(!capture_enabled(loaded, MemoryStore::Facts));
}

#[test]
fn unsupported_versions_are_refused() {
    let mut policy = MemoryPolicy::default();
    policy.version = 2;
    assert!(matches!(policy.validate(), Err(PolicyError::UnsupportedVersion(2))));
}

#[test]
fn store_ids_parse_back_leniently() {
    for store in MemoryStore::ALL {
        assert_eq!(MemoryStore::parse(store.id()), Some(store));
    }
    assert_eq!(MemoryStore::parse("  Run_Notes "), Some(MemoryStore::RunNotes));
    assert_eq!(MemoryStore::parse("REPOMAP"), Some(MemoryStore::RepoMap));
    assert_eq!(MemoryStore::parse("repo-map"), None);
    assert_eq!(MemoryStore::parse(""), None);
}

#[test]
fn store_capabilities_match_their_tables() {
    assert!(MemoryStore::Facts.capture_controllable());
    assert!(!MemoryStore::OpenDecisions.capture_controllable());
    assert!(MemoryStore::OpenDecisions.recall_controllable());
    assert!(!MemoryStore::KnowledgeUtility.default_capture());
    assert!(MemoryStore::KnowledgeUtility.default_recall());
    assert!(!MemoryStore::EmbeddingModel.supports_project_scope());
    assert!(MemoryStore::Tombstones.supports_global_scope());
    assert!(MemoryStore::LessonSediment.derived());
    assert!(MemoryStore::RepoMap.clearable_cache());
    assert!(!MemoryStore::LessonSediment.clearable_cache());
    assert_eq!(
        MemoryStore::Facts.retention_enforcement(),
        RetentionEnforcement::Fixed
    );
    assert_eq!(
        MemoryStore::ChatSessions.retention_enforcement(),
        RetentionEnforcement::PolicyOnly
    );
    assert_eq!(
        MemoryStore::RepoMap.retention_enforcement(),
        RetentionEnforcement::Unsupported
    );
}

#[test]
fn master_switch_overrides_every_store() {
    let mut policy = MemoryPolicy::default();
    policy.set_capture(Some(MemoryStore::Facts), true);
    policy.set_capture(None, false);
    assert!(!policy.capture_enabled(MemoryStore::Facts));
    assert!(policy.recall_enabled(MemoryStore::Facts));
    policy.set_recall(None, false);
    assert!(!policy.recall_enabled(MemoryStore::Facts));
}

#[test]
fn retention_overrides_are_set_and_cleared() {
    let mut policy = MemoryPolicy::default();
    policy.set_retention_days(MemoryStore::ChatSessions, Some(30));
    assert_eq!(policy.retention_days(MemoryStore::ChatSessions), Some(30));
    assert_eq!(policy.stores.len(), 1);
    policy.set_retention_days(MemoryStore::ChatSessions, Some(0));
    assert_eq!(policy.retention_days(MemoryStore::ChatSessions), None);
    assert!(policy.stores.is_empty());

    policy.set_capture(Some(MemoryStore::Facts), false);
    policy.set_retention_days(MemoryStore::Facts, Some(7));
    policy.set_retention_days(MemoryStore::Facts, None);
    assert_eq!(policy.retention_days(MemoryStore::Facts), None);
    assert_eq!(policy.stores.len(), 1);
    assert!(!policy.capture_enabled(MemoryStore::Facts));
}

use umadev::memory::{load_policy_rooted, PolicyFile};

#[test]
fn policy_files_load_or_fail_closed() {
    let loaded = load_policy_rooted(PolicyFile::Missing).unwrap();
    assert!(loaded.capture && loaded.recall && loaded.stores.is_empty());
    assert!(matches!(load_policy_rooted(PolicyFile::Malformed), Err(PolicyError::Malformed)));
    assert!(matches!(load_policy_rooted(PolicyFile::Unreadable), Err(PolicyError::Unreadable)));
    let mut policy = MemoryPolicy::default();
    policy.set_recall(Some(MemoryStore::Beliefs), false);
    let loaded = load_policy_rooted(PolicyFile::Parsed(policy)).unwrap();
    assert!(!loaded.recall_enabled(MemoryStore::Beliefs));
}

#[test]
fn overrides_are_kept_once_each_in_ascending_key_order() {
    let mut policy = MemoryPolicy::default();
    policy.set_capture(Some(MemoryStore::Pitfalls), false);
    policy.set_recall(Some(MemoryStore::Facts), false);
    policy.set_capture(Some(MemoryStore::Beliefs), false);
    policy.set_retention_days(MemoryStore::TechDebt, Some(7));
    policy.set_capture(Some(MemoryStore::Facts), false);
    let keys: Vec<&str> = policy.stores.iter().map(|(k, _)| k.as_str()).collect();
    assert_eq!(keys, ["beliefs", "facts", "pitfalls", "tech-debt"]);
    policy.set_retention_days(MemoryStore::TechDebt, None);
    let keys: Vec<&str> = policy.stores.iter().map(|(k, _)| k.as_str()).collect();
    assert_eq!(keys, ["beliefs", "facts", "pitfalls"]);
}

#[test]
fn store_names_round_trip_in_any_spelling() {
    for store in [MemoryStore::Facts, MemoryStore::QualityFailures, MemoryStore::LearnedSkillMirrors] {
        assert_eq!(MemoryStore::parse(store.id()), Some(store));
        let shouted = format!(" {} ", store.id().to_ascii_uppercase().replace('-', "_"));
        assert_eq!(MemoryStore::parse(&shouted), Some(store));
    }
    assert_eq!(MemoryStore::parse("no-such-store"), None);
}
