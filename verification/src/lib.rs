//! Verified core of the Bitcoin Commons governance application: the rules,
//! parsers, graph algorithms and state transitions that decide what the
//! governance bot does, each with a contract proved by Verus.

pub mod error;
pub mod codec;
pub mod voting_keys;
pub mod strings;
pub mod text;
pub mod dependency;
pub mod node_registry;
pub mod zap_voting;
pub mod economic_types;
pub mod build_monitor;
pub mod merkle;
pub mod phase;
pub mod time_lock;
pub mod yaml_config;
pub mod veto;
pub mod merge_block;
pub mod config;
pub mod release;
pub mod webhook;
pub mod pr_status;
pub mod qualification;
pub mod block_notification;
pub mod btc_price;
pub mod github_types;
pub mod backup;
pub mod database_health;
pub mod deadlines;
pub mod api_key;
pub mod nostr_tags;
