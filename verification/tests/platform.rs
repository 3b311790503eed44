use bllvm_commons::api_key::validate_api_key;
use bllvm_commons::backup::{
    backup_filename, check_backup_supported, check_integrity_result, compressed_path, is_expired_backup,
    retention_cutoff, vacuum_into_statement, BackupConfig, DatabaseKind,
};
use bllvm_commons::block_notification::{block_parse_failed, block_precheck, block_processed};
use bllvm_commons::config::{
    default_network, default_true, default_weight_update_interval, get_database_url, get_github_token,
    get_governance_repo, is_github_actions, parse_bool, AppConfig, AuditConfig, GovernanceConfig, NostrConfig, OtsConfig,
};
use bllvm_commons::database_health::{postgres_health, postgres_performance, production_backend, sqlite_health, sqlite_performance, BackendKind};
use bllvm_commons::deadlines::{case_deadline_message, days_remaining, due_ids, tally, DeadlineKind, DeadlineNotificationResult};
use bllvm_commons::error::GovernanceError;
use bllvm_commons::nostr_tags::{governance_action_tags, pr_url, ActionTagInput};
use bllvm_commons::voting_keys::{chain_code_from_hex, chain_code_to_hex, get_voting_key_path, voting_key_child_numbers};
use std::path::PathBuf;
use std::time::Duration;

fn vars(pairs: &[(&str, &str)]) -> Vec<(String, String)> {
    pairs.iter().map(|(k, v)| (k.to_string(), v.to_string())).collect()
}

#[test]
fn config_defaults_from_empty_environment() {
    let c = AppConfig::from_env_values(&vec![]).unwrap();
    assert_eq!(c.database_url, "sqlite://governance.db");
    assert_eq!(c.github_app_id, 123456);
    assert_eq!(c.server_port, 3000);
    assert!(!c.dry_run_mode);
    assert!(c.log_enforcement_decisions);
    assert_eq!(c.enforcement_log_path, None);
    assert_eq!(c.nostr.relays, vec!["wss://relay.damus.io".to_string(), "wss://nos.lol".to_string()]);
    assert_eq!(c.nostr.publish_interval_secs, 3600);
    assert_eq!(c.nostr.logo_url.as_deref(), Some("https://btcdecoded.org/assets/bitcoin-commons-logo.png"));
    assert_eq!(c.ots.monthly_anchor_day, 1);
    assert!(c.audit.enabled);
    assert_eq!(c.audit.rotation_interval_days, 30);
    assert!(c.governance.commons_addresses.is_empty());
    assert_eq!(c.governance.network, "mainnet");
    assert_eq!(c.governance.weight_update_interval_secs, 86400);
}

#[test]
fn config_reads_settings() {
    let env = vars(&[
        ("GITHUB_APP_ID", "42"),
        ("SERVER_PORT", "+8080"),
        ("DRY_RUN_MODE", "true"),
        ("LOG_ENFORCEMENT_DECISIONS", "TRUE"),
        ("NOSTR_RELAYS", " wss://a , wss://b,"),
        ("OTS_MONTHLY_ANCHOR_DAY", "300"),
        ("GOVERNANCE_COMMONS_ADDRESSES", "bc1a, ,bc1b,,"),
        ("ENFORCEMENT_LOG_PATH", "/tmp/log"),
    ]);
    let c = AppConfig::from_env_values(&env).unwrap();
    assert_eq!(c.github_app_id, 42);
    assert_eq!(c.server_port, 8080);
    assert!(c.dry_run_mode);
    assert!(c.log_enforcement_decisions);
    assert_eq!(c.nostr.relays, vec!["wss://a".to_string(), "wss://b".to_string(), String::new()]);
    assert_eq!(c.ots.monthly_anchor_day, 1);
    assert_eq!(c.governance.commons_addresses, vec!["bc1a".to_string(), String::new(), "bc1b".to_string()]);
    assert_eq!(c.enforcement_log_path.as_deref(), Some("/tmp/log"));
}

#[test]
fn config_number_errors() {
    let msg = |e: GovernanceError| match e {
        GovernanceError::ConfigError(m) => m,
        _ => panic!("wrong kind"),
    };
    assert_eq!(msg(AppConfig::from_env_values(&vars(&[("GITHUB_APP_ID", "x1")])).unwrap_err()), "invalid digit found in string");
    assert_eq!(msg(AppConfig::from_env_values(&vars(&[("SERVER_PORT", "")])).unwrap_err()), "cannot parse integer from empty string");
    assert_eq!(msg(AppConfig::from_env_values(&vars(&[("SERVER_PORT", "70000")])).unwrap_err()), "number too large to fit in target type");
    assert_eq!(msg(AppConfig::from_env_values(&vars(&[("GITHUB_APP_ID", "+")])).unwrap_err()), "invalid digit found in string");
}

#[test]
fn config_defaults() {
    let c = AppConfig::default();
    assert_eq!(c.github_app_id, 0);
    assert_eq!(c.server_host, "0.0.0.0");
    let n = NostrConfig::default();
    assert_eq!(n.server_nsec_path, "/etc/governance/server.nsec");
    assert!(n.bots.is_empty());
    let o = OtsConfig::default();
    assert_eq!(o.aggregator_url, "https://alice.btc.calendar.opentimestamps.org");
    let a = AuditConfig::default();
    assert_eq!(a.log_path, "/var/lib/governance/audit-log.jsonl");
    let g = GovernanceConfig::default();
    assert!(g.contribution_tracking_enabled && g.weight_updates_enabled);
    assert!(default_true());
    assert_eq!(default_weight_update_interval(), 86400);
    assert_eq!(default_network(), "mainnet");
    assert_eq!(parse_bool("false"), Some(false));
    assert_eq!(parse_bool("False"), None);
}

#[test]
fn environment_helpers() {
    assert_eq!(get_github_token(&vars(&[("GITHUB_TOKEN", ""), ("GITHUB_INSTALLATION_TOKEN", "inst")])), Some("inst".to_string()));
    assert_eq!(get_github_token(&vars(&[("GITHUB_TOKEN", "t"), ("GITHUB_INSTALLATION_TOKEN", "inst")])), Some("t".to_string()));
    assert_eq!(get_github_token(&vars(&[])), None);
    assert_eq!(
        get_governance_repo(&vars(&[("GOVERNANCE_REPO", " org / repo/x ")])),
        Some(("org".to_string(), "repo/x".to_string()))
    );
    assert_eq!(
        get_governance_repo(&vars(&[("GOVERNANCE_REPO", "noslash"), ("GOVERNANCE_REPO_OWNER", "o"), ("GOVERNANCE_REPO_NAME", "n")])),
        Some(("o".to_string(), "n".to_string()))
    );
    assert_eq!(get_governance_repo(&vars(&[("GOVERNANCE_REPO_OWNER", "o"), ("GOVERNANCE_REPO_NAME", "")])), None);
    assert!(is_github_actions(&vars(&[("GITHUB_ACTIONS", "")])));
    assert!(!is_github_actions(&vars(&[])));
    assert_eq!(get_database_url(&vars(&[])), "sqlite://governance.db");
}

#[test]
fn backup_policy() {
    let c = BackupConfig::default();
    assert_eq!(c.directory, PathBuf::from("/opt/bllvm-commons/backups"));
    assert_eq!(c.interval, Duration::from_secs(86400));
    assert_eq!(c.retention_days, 30);
    assert_eq!(backup_filename("20240101_000000"), "governance_backup_20240101_000000.db");
    assert_eq!(vacuum_into_statement("/tmp/it's.db"), "VACUUM INTO '/tmp/it''s.db'");
    assert!(check_integrity_result("ok").is_ok());
    assert!(check_integrity_result("corrupt").is_err());
    assert_eq!(compressed_path("/b/x.db"), "/b/x.db.gz");
    assert!(check_backup_supported(DatabaseKind::Sqlite).is_ok());
    assert!(check_backup_supported(DatabaseKind::Postgres).is_err());
    assert_eq!(retention_cutoff(100 * 86_400_000, 30).unwrap(), 70 * 86_400_000);
    assert!(retention_cutoff(i64::MIN + 5, 1).is_err());
    assert!(is_expired_backup("/b/governance_backup_1.db", true, Some(1), 2));
    assert!(!is_expired_backup("/b/governance_backup_1.db", true, Some(2), 2));
    assert!(!is_expired_backup("/b/other.db", true, Some(1), 2));
    assert!(!is_expired_backup("/b/governance_backup_1.db", false, Some(1), 2));
    assert!(!is_expired_backup("/b/governance_backup_1.db", true, None, 2));
}

#[test]
fn database_figures() {
    let h = sqlite_health(10, 4, "ok", "wal".to_string(), 100, 4096);
    assert_eq!(h.active_connections, 6);
    assert!(h.integrity_ok && h.wal_mode_active);
    assert_eq!(h.database_size_bytes, 409600);
    let h = sqlite_health(1, 1, "bad", "delete".to_string(), 1, 1);
    assert!(!h.integrity_ok && !h.wal_mode_active);
    let p = postgres_health(3, 1, 77);
    assert_eq!(p.journal_mode, "wal");
    assert_eq!(sqlite_performance(2000, 1000, 12).slow_queries_count, 12);
    assert_eq!(postgres_performance().cache_size, 0);
    assert_eq!(production_backend("sqlite://x").unwrap(), BackendKind::Sqlite);
    assert_eq!(production_backend("postgresql://x").unwrap(), BackendKind::Postgres);
    assert_eq!(production_backend("postgres://x").unwrap(), BackendKind::Postgres);
    assert!(production_backend("mysql://x").is_err());
}

#[test]
fn deadline_selection() {
    let now = 1_000_000_000_000i64;
    let day = 86_400_000i64;
    let rows = vec![
        (1, "open".to_string(), Some(now + day)),
        (2, "resolved".to_string(), Some(now + day)),
        (3, "open".to_string(), Some(now + 8 * day)),
        (4, "open".to_string(), Some(now)),
        (5, "open".to_string(), None),
        (6, "open".to_string(), Some(now + 7 * day)),
    ];
    assert_eq!(due_ids(DeadlineKind::Case, &rows, now), vec![1, 6]);
    let appeals = vec![(7, "pending".to_string(), Some(now + day)), (8, "closed".to_string(), Some(now + day))];
    assert_eq!(due_ids(DeadlineKind::Appeal, &appeals, now), vec![7]);
    let r = tally(&vec![1, 6], &vec![7], &vec![]);
    assert_eq!(r, DeadlineNotificationResult { cases_notified: 2, appeals_notified: 1, mediations_notified: 0 });
    assert_eq!(DeadlineNotificationResult::default().cases_notified, 0);
    assert_eq!(days_remaining(now + 3 * day + 5, now), 3);
    assert_eq!(days_remaining(now - day - 5, now), -1);
    let m = case_deadline_message("GR-1", "2024-01-01 00:00:00 UTC", 3);
    assert!(m.starts_with("## ⚠️ Deadline Approaching\n\n**Case:** GR-1\n**Deadline:** 2024-01-01 00:00:00 UTC (3 days remaining)"));
}

#[test]
fn block_notification_replies() {
    let r = block_precheck(false, true).unwrap();
    assert!(!r.success);
    assert_eq!(r.message, "Fee forwarding not configured (no Commons addresses)");
    assert_eq!(block_precheck(true, false).unwrap().message, "Database pool not available");
    assert!(block_precheck(true, true).is_none());
    assert_eq!(block_parse_failed("eof").message, "Failed to parse block: eof");
    let ok = block_processed(Ok(3));
    assert!(ok.success);
    assert_eq!(ok.contributions_found, 3);
    assert_eq!(block_processed(Err("db".to_string())).message, "Failed to process block: db");
}

#[test]
fn voting_key_paths() {
    assert_eq!(get_voting_key_path(123, 0), "m/0'/123'/0'");
    assert_eq!(get_voting_key_path(-5, 7), "m/0'/-5'/7'");
    assert_eq!(voting_key_child_numbers(5, 1).unwrap(), [0x8000_0000, 0x8000_0005, 0x8000_0001]);
    match voting_key_child_numbers(-1, 0) {
        Err(GovernanceError::CryptoError(m)) => assert_eq!(m, "PR ID overflow"),
        _ => panic!("expected an error"),
    }
    match voting_key_child_numbers(1, 0x8000_0000) {
        Err(GovernanceError::CryptoError(m)) => assert_eq!(m, "Signal index overflow"),
        _ => panic!("expected an error"),
    }
    let code = [7u8; 32];
    let hex = chain_code_to_hex(&code);
    assert_eq!(hex, "07".repeat(32));
    assert_eq!(chain_code_from_hex(&hex).unwrap(), code);
    assert!(chain_code_from_hex("abcd").is_err());
    assert!(chain_code_from_hex("zz").is_err());
}

#[test]
fn api_key_comparison() {
    assert!(validate_api_key(Some("secret"), Some("secret")));
    assert!(!validate_api_key(Some("secret"), Some("secreT")));
    assert!(!validate_api_key(Some("secret"), Some("secret1")));
    assert!(!validate_api_key(None, Some("secret")));
    assert!(!validate_api_key(Some("secret"), None));
}

#[test]
fn governance_action_event_tags() {
    assert_eq!(pr_url("bllvm", 12), "https://github.com/BTCDecoded/bllvm/pull/12");
    let input = ActionTagInput {
        action: "merge".to_string(),
        governance_tier: 3,
        governance_layer: 2,
        repository: "bllvm".to_string(),
        governance_config: "commons_mainnet".to_string(),
        final_signatures: "6-of-7".to_string(),
        final_review_days: 90,
        timestamp: 1700000000,
        commit_hash: None,
        pr_number: Some(12),
        zap_address: Some("zap@example.com".to_string()),
    };
    let tags = governance_action_tags(&input);
    let kinds: Vec<&str> = tags.iter().map(|(k, _)| k.as_str()).collect();
    assert_eq!(
        kinds,
        vec!["d", "action", "governance_tier", "governance_layer", "repository", "governance_config", "final_signatures", "final_review_days", "timestamp", "pr_number", "zap", "t"]
    );
    assert_eq!(tags[2].1, vec!["3".to_string()]);
    assert_eq!(tags[8].1, vec!["1700000000".to_string()]);
    assert_eq!(tags[11].1, vec!["btc-commons".to_string(), "governance".to_string()]);
}
