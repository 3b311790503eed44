//! Application configuration: its parts, their defaults, and how the
//! configuration is formed from environment settings.  Reading the process
//! environment is the caller's part; it hands over the (name, value) pairs.
use vstd::prelude::*;
use crate::error::GovernanceError;
use crate::text::{int_error_message, int_error_message_spec, parse_uint, parse_uint_spec, split_on, split_spec, text_chars, trim_spec, trim_text, piece_string, IntErrorKind};
use crate::strings::str_eq;

verus! {

broadcast use vstd::string::group_string_axioms;

/// Application configuration.
#[derive(Debug, Clone)]
pub struct AppConfig {
    pub database_url: String,
    pub github_app_id: u64,
    pub github_private_key_path: String,
    pub github_webhook_secret: String,
    pub governance_repo: String,
    pub server_host: String,
    pub server_port: u16,
    pub dry_run_mode: bool,
    pub log_enforcement_decisions: bool,
    pub enforcement_log_path: Option<String>,
    pub server_id: String,
    pub nostr: NostrConfig,
    pub ots: OtsConfig,
    pub audit: AuditConfig,
    pub governance: GovernanceConfig,
}

/// Nostr publishing configuration.
#[derive(Debug, Clone)]
pub struct NostrConfig {
    pub enabled: bool,
    /// Single-bot key path (superseded by `bots`).
    pub server_nsec_path: String,
    pub relays: Vec<String>,
    pub publish_interval_secs: u64,
    /// e.g. "commons_mainnet".
    pub governance_config: String,
    /// Single-bot zap address (superseded by `bots`).
    pub zap_address: Option<String>,
    pub logo_url: Option<String>,
    /// Bots by name.
    pub bots: Vec<(String, BotConfig)>,
}

/// One Nostr bot.
#[derive(Debug, Clone)]
pub struct BotConfig {
    /// Path to the nsec file, or "env:VAR_NAME".
    pub nsec_path: String,
    pub npub: String,
    pub lightning_address: String,
    pub profile: BotProfile,
}

/// A bot's public profile.
#[derive(Debug, Clone)]
pub struct BotProfile {
    pub name: String,
    pub about: String,
    pub picture: String,
}

/// OpenTimestamps anchoring configuration.
#[derive(Debug, Clone)]
pub struct OtsConfig {
    pub enabled: bool,
    pub aggregator_url: String,
    pub monthly_anchor_day: u8,
    pub registry_path: String,
    pub proofs_path: String,
}

/// Audit log configuration.
#[derive(Debug, Clone)]
pub struct AuditConfig {
    pub enabled: bool,
    pub log_path: String,
    pub rotation_interval_days: u32,
}

/// Governance contribution tracking configuration.
#[derive(Debug, Clone)]
pub struct GovernanceConfig {
    /// Commons addresses to monitor for fee forwarding.
    pub commons_addresses: Vec<String>,
    /// Bitcoin network (mainnet, testnet, regtest).
    pub network: String,
    pub contribution_tracking_enabled: bool,
    pub weight_updates_enabled: bool,
    /// Weight update interval in seconds (86400 = daily).
    pub weight_update_interval_secs: u64,
}

/// Default for flags that are on unless set.
pub fn default_true() -> (res: bool)
    ensures
        res,
{
    true
}

/// Default weight update interval: daily.
pub fn default_weight_update_interval() -> (res: u64)
    ensures
        res == 86400,
{
    86400
}

/// Default network.
pub fn default_network() -> (res: String)
    ensures
        res@ == "mainnet"@,
{
    String::from_str("mainnet")
}

impl Default for GovernanceConfig {
    fn default() -> (res: Self)
        ensures
            res.commons_addresses@.len() == 0,
            res.network@ == "mainnet"@,
            res.contribution_tracking_enabled,
            res.weight_updates_enabled,
            res.weight_update_interval_secs == 86400,
    {
        GovernanceConfig {
            commons_addresses: Vec::new(),
            network: String::from_str("mainnet"),
            contribution_tracking_enabled: true,
            weight_updates_enabled: true,
            weight_update_interval_secs: 86400,
        }
    }
}

impl Default for NostrConfig {
    fn default() -> (res: Self)
        ensures
            !res.enabled,
            res.server_nsec_path@ == "/etc/governance/server.nsec"@,
            res.relays.deep_view() == seq!["wss://relay.damus.io"@, "wss://nos.lol"@],
            res.publish_interval_secs == 3600,
            res.governance_config@ == "commons_mainnet"@,
            res.zap_address is None,
            res.logo_url matches Some(u) && u@ == "https://btcdecoded.org/assets/bitcoin-commons-logo.png"@,
            res.bots@.len() == 0,
    {
        let mut relays: Vec<String> = Vec::new();
        relays.push(String::from_str("wss://relay.damus.io"));
        relays.push(String::from_str("wss://nos.lol"));
        assert(relays.deep_view() =~= seq!["wss://relay.damus.io"@, "wss://nos.lol"@]);
        NostrConfig {
            enabled: false,
            server_nsec_path: String::from_str("/etc/governance/server.nsec"),
            relays,
            publish_interval_secs: 3600,
            governance_config: String::from_str("commons_mainnet"),
            zap_address: None,
            logo_url: Some(String::from_str("https://btcdecoded.org/assets/bitcoin-commons-logo.png")),
            bots: Vec::new(),
        }
    }
}

impl Default for OtsConfig {
    fn default() -> (res: Self)
        ensures
            !res.enabled,
            res.aggregator_url@ == "https://alice.btc.calendar.opentimestamps.org"@,
            res.monthly_anchor_day == 1,
            res.registry_path@ == "/var/lib/governance/registries"@,
            res.proofs_path@ == "/var/lib/governance/ots-proofs"@,
    {
        OtsConfig {
            enabled: false,
            aggregator_url: String::from_str("https://alice.btc.calendar.opentimestamps.org"),
            monthly_anchor_day: 1,
            registry_path: String::from_str("/var/lib/governance/registries"),
            proofs_path: String::from_str("/var/lib/governance/ots-proofs"),
        }
    }
}

impl Default for AuditConfig {
    fn default() -> (res: Self)
        ensures
            res.enabled,
            res.log_path@ == "/var/lib/governance/audit-log.jsonl"@,
            res.rotation_interval_days == 30,
    {
        AuditConfig {
            enabled: true,
            log_path: String::from_str("/var/lib/governance/audit-log.jsonl"),
            rotation_interval_days: 30,
        }
    }
}

impl Default for AppConfig {
    fn default() -> (res: Self)
        ensures
            res.database_url@ == "sqlite://governance.db"@,
            res.github_app_id == 0,
            res.github_private_key_path@ == "/path/to/private-key.pem"@,
            res.github_webhook_secret@ == "your_webhook_secret_here"@,
            res.governance_repo@ == "BTCDecoded/governance"@,
            res.server_host@ == "0.0.0.0"@,
            res.server_port == 3000,
            !res.dry_run_mode,
            res.log_enforcement_decisions,
            res.enforcement_log_path is None,
            res.server_id@ == "governance-01"@,
            !res.nostr.enabled && res.nostr.publish_interval_secs == 3600,
            !res.ots.enabled && res.ots.monthly_anchor_day == 1,
            res.audit.enabled && res.audit.rotation_interval_days == 30,
            res.governance.network@ == "mainnet"@ && res.governance.weight_update_interval_secs == 86400,
    {
        AppConfig {
            database_url: String::from_str("sqlite://governance.db"),
            github_app_id: 0,
            github_private_key_path: String::from_str("/path/to/private-key.pem"),
            github_webhook_secret: String::from_str("your_webhook_secret_here"),
            governance_repo: String::from_str("BTCDecoded/governance"),
            server_host: String::from_str("0.0.0.0"),
            server_port: 3000,
            dry_run_mode: false,
            log_enforcement_decisions: true,
            enforcement_log_path: None,
            server_id: String::from_str("governance-01"),
            nostr: NostrConfig::default(),
            ots: OtsConfig::default(),
            audit: AuditConfig::default(),
            governance: GovernanceConfig::default(),
        }
    }
}

/// The (name, value) pairs as text.
pub open spec fn env_view(vars: Seq<(String, String)>) -> Seq<(Seq<char>, Seq<char>)> {
    Seq::new(vars.len(), |i: int| (vars[i].0@, vars[i].1@))
}

/// The value of the first setting named `name`, if any.
pub open spec fn env_lookup(vars: Seq<(Seq<char>, Seq<char>)>, name: Seq<char>) -> Option<Seq<char>>
    decreases vars.len(),
{
    if vars.len() == 0 {
        None
    } else if vars[0].0 == name {
        Some(vars[0].1)
    } else {
        env_lookup(vars.drop_first(), name)
    }
}

/// A setting's value, or its default text when unset.
pub open spec fn or_default(v: Option<Seq<char>>, d: Seq<char>) -> Seq<char> {
    match v {
        Some(x) => x,
        None => d,
    }
}

/// `bool::from_str`: exactly "true" or "false".
pub open spec fn parse_bool_spec(s: Seq<char>) -> Option<bool> {
    if s == "true"@ {
        Some(true)
    } else if s == "false"@ {
        Some(false)
    } else {
        None
    }
}

/// A flag setting: its value (or the default text) read as a bool, or the
/// default when that does not read.
pub open spec fn flag_setting(v: Option<Seq<char>>, default_text: Seq<char>, default: bool) -> bool {
    match parse_bool_spec(or_default(v, default_text)) {
        Some(b) => b,
        None => default,
    }
}

/// A number setting: its value (or the default text) read as an unsigned
/// number no larger than `max`, or the default when that does not read.
pub open spec fn number_setting(v: Option<Seq<char>>, default_text: Seq<char>, max: int, default: int) -> int {
    match parse_uint_spec(or_default(v, default_text), max) {
        Ok(n) => n,
        Err(_) => default,
    }
}

/// Each piece, trimmed.
pub open spec fn trimmed(pieces: Seq<Seq<char>>) -> Seq<Seq<char>> {
    Seq::new(pieces.len(), |i: int| trim_spec(pieces[i]))
}

/// The non-empty pieces, each trimmed afterwards.
pub open spec fn nonempty_trimmed(pieces: Seq<Seq<char>>) -> Seq<Seq<char>>
    decreases pieces.len(),
{
    if pieces.len() == 0 {
        Seq::empty()
    } else {
        let prev = nonempty_trimmed(pieces.drop_last());
        if pieces.last().len() == 0 { prev } else { prev.push(trim_spec(pieces.last())) }
    }
}

/// The first number setting that fails to read, among the GitHub app id and
/// the server port, with the reason.
pub open spec fn config_number_error(env: Seq<(Seq<char>, Seq<char>)>) -> Option<IntErrorKind> {
    match parse_uint_spec(or_default(env_lookup(env, "GITHUB_APP_ID"@), "123456"@), u64::MAX as int) {
        Err(e) => Some(e),
        Ok(_) => match parse_uint_spec(or_default(env_lookup(env, "SERVER_PORT"@), "3000"@), u16::MAX as int) {
            Err(e) => Some(e),
            Ok(_) => None,
        },
    }
}

/// The configuration formed from the settings `env`, field by field.
pub open spec fn config_from_env_ok(c: AppConfig, env: Seq<(Seq<char>, Seq<char>)>) -> bool {
    let look = |name: Seq<char>| env_lookup(env, name);
    &&& c.database_url@ == or_default(look("DATABASE_URL"@), "sqlite://governance.db"@)
    &&& Ok::<int, IntErrorKind>(c.github_app_id as int) == parse_uint_spec(or_default(look("GITHUB_APP_ID"@), "123456"@), u64::MAX as int)
    &&& c.github_private_key_path@ == or_default(look("GITHUB_PRIVATE_KEY_PATH"@), "/path/to/private-key.pem"@)
    &&& c.github_webhook_secret@ == or_default(look("GITHUB_WEBHOOK_SECRET"@), "your_webhook_secret_here"@)
    &&& c.governance_repo@ == or_default(look("GOVERNANCE_REPO"@), "BTCDecoded/governance"@)
    &&& c.server_host@ == or_default(look("SERVER_HOST"@), "0.0.0.0"@)
    &&& Ok::<int, IntErrorKind>(c.server_port as int) == parse_uint_spec(or_default(look("SERVER_PORT"@), "3000"@), u16::MAX as int)
    &&& c.dry_run_mode == flag_setting(look("DRY_RUN_MODE"@), "false"@, false)
    &&& c.log_enforcement_decisions == flag_setting(look("LOG_ENFORCEMENT_DECISIONS"@), "true"@, true)
    &&& (match c.enforcement_log_path { Some(p) => Some(p@), None => None }) == look("ENFORCEMENT_LOG_PATH"@)
    &&& c.server_id@ == or_default(look("SERVER_ID"@), "governance-01"@)
    &&& c.nostr.enabled == flag_setting(look("NOSTR_ENABLED"@), "false"@, false)
    &&& c.nostr.server_nsec_path@ == or_default(look("NOSTR_SERVER_NSEC_PATH"@), "/etc/governance/server.nsec"@)
    &&& c.nostr.relays.deep_view() == trimmed(split_spec(or_default(look("NOSTR_RELAYS"@), "wss://relay.damus.io,wss://nos.lol"@), seq![',']))
    &&& c.nostr.publish_interval_secs == number_setting(look("NOSTR_PUBLISH_INTERVAL_SECS"@), "3600"@, u64::MAX as int, 3600)
    &&& c.nostr.governance_config@ == or_default(look("GOVERNANCE_CONFIG"@), "commons_mainnet"@)
    &&& (match c.nostr.zap_address { Some(p) => Some(p@), None => None }) == look("NOSTR_ZAP_ADDRESS"@)
    &&& (match c.nostr.logo_url { Some(p) => Some(p@), None => None }) == Some(or_default(look("NOSTR_LOGO_URL"@), "https://btcdecoded.org/assets/bitcoin-commons-logo.png"@))
    &&& c.nostr.bots@.len() == 0
    &&& c.ots.enabled == flag_setting(look("OTS_ENABLED"@), "false"@, false)
    &&& c.ots.aggregator_url@ == or_default(look("OTS_AGGREGATOR_URL"@), "https://alice.btc.calendar.opentimestamps.org"@)
    &&& c.ots.monthly_anchor_day == number_setting(look("OTS_MONTHLY_ANCHOR_DAY"@), "1"@, u8::MAX as int, 1)
    &&& c.ots.registry_path@ == or_default(look("OTS_REGISTRY_PATH"@), "/var/lib/governance/registries"@)
    &&& c.ots.proofs_path@ == or_default(look("OTS_PROOFS_PATH"@), "/var/lib/governance/ots-proofs"@)
    &&& c.audit.enabled == flag_setting(look("AUDIT_ENABLED"@), "true"@, true)
    &&& c.audit.log_path@ == or_default(look("AUDIT_LOG_PATH"@), "/var/lib/governance/audit-log.jsonl"@)
    &&& c.audit.rotation_interval_days == number_setting(look("AUDIT_ROTATION_INTERVAL_DAYS"@), "30"@, u32::MAX as int, 30)
    &&& c.governance.commons_addresses.deep_view() == nonempty_trimmed(split_spec(or_default(look("GOVERNANCE_COMMONS_ADDRESSES"@), ""@), seq![',']))
    &&& c.governance.network@ == or_default(look("GOVERNANCE_NETWORK"@), "mainnet"@)
    &&& c.governance.contribution_tracking_enabled == flag_setting(look("GOVERNANCE_CONTRIBUTION_TRACKING_ENABLED"@), "true"@, true)
    &&& c.governance.weight_updates_enabled == flag_setting(look("GOVERNANCE_WEIGHT_UPDATES_ENABLED"@), "true"@, true)
    &&& c.governance.weight_update_interval_secs == number_setting(look("GOVERNANCE_WEIGHT_UPDATE_INTERVAL_SECS"@), "86400"@, u64::MAX as int, 86400)
}

/// The value of the first setting named `name`.
pub fn env_value(vars: &Vec<(String, String)>, name: &str) -> (res: Option<String>)
    ensures
        (match res { Some(v) => Some(v@), None => None }) == env_lookup(env_view(vars@), name@),
{
    let ghost ev = env_view(vars@);
    let mut i: usize = 0;
    assert(ev.skip(0) =~= ev);
    while i < vars.len()
        invariant
            i <= vars@.len(),
            ev == env_view(vars@),
            env_lookup(ev, name@) == env_lookup(ev.skip(i as int), name@),
        decreases vars@.len() - i,
    {
        assert(ev.skip(i as int).drop_first() =~= ev.skip(i + 1));
        assert(ev.skip(i as int)[0] == (vars@[i as int].0@, vars@[i as int].1@));
        if str_eq(vars[i].0.as_str(), name) {
            return Some(vars[i].1.clone());
        }
        i = i + 1;
    }
    assert(ev.skip(i as int).len() == 0);
    None
}

/// A setting's value, or the default text.
fn text_setting(vars: &Vec<(String, String)>, name: &str, default: &str) -> (res: String)
    ensures
        res@ == or_default(env_lookup(env_view(vars@), name@), default@),
{
    match env_value(vars, name) {
        Some(v) => v,
        None => String::from_str(default),
    }
}

/// `bool::from_str`.
pub fn parse_bool(s: &str) -> (res: Option<bool>)
    ensures
        res == parse_bool_spec(s@),
{
    if str_eq(s, "true") {
        Some(true)
    } else if str_eq(s, "false") {
        Some(false)
    } else {
        None
    }
}

fn flag(vars: &Vec<(String, String)>, name: &str, default_text: &str, default: bool) -> (res: bool)
    ensures
        res == flag_setting(env_lookup(env_view(vars@), name@), default_text@, default),
{
    let v = text_setting(vars, name, default_text);
    match parse_bool(v.as_str()) {
        Some(b) => b,
        None => default,
    }
}

fn number(vars: &Vec<(String, String)>, name: &str, default_text: &str, max: u64, default: u64) -> (res: u64)
    requires
        default <= max,
    ensures
        res == number_setting(env_lookup(env_view(vars@), name@), default_text@, max as int, default as int),
        res <= max,
{
    let v = text_setting(vars, name, default_text);
    match parse_uint(&text_chars(v.as_str()), max) {
        Ok(n) => {
            proof { lemma_parse_uint_bound(v@, max as int); }
            n
        },
        Err(_) => default,
    }
}

/// A parsed number is at most the bound.
proof fn lemma_parse_uint_bound(s: Seq<char>, max: int)
    requires
        parse_uint_spec(s, max) is Ok,
        max >= 0,
    ensures
        parse_uint_spec(s, max) matches Ok(n) && 0 <= n <= max,
{
    let d = if s[0] == '+' { s.drop_first() } else { s };
    lemma_scan_bound(d, d.len() as int, max);
}

proof fn lemma_scan_bound(d: Seq<char>, k: int, max: int)
    requires
        0 <= k <= d.len(),
        crate::text::scan_digits(d, k, max) is Ok,
        max >= 0,
    ensures
        crate::text::scan_digits(d, k, max) matches Ok(n) && 0 <= n <= max,
    decreases k,
{
    if k > 0 {
        lemma_scan_bound(d, k - 1, max);
    }
}

/// The text split at ',' with each piece trimmed.
fn comma_list(text: &str) -> (res: Vec<String>)
    ensures
        res.deep_view() == trimmed(split_spec(text@, seq![','])),
{
    let cs = text_chars(text);
    let mut seps: Vec<char> = Vec::new();
    seps.push(',');
    assert(seps@ =~= seq![',']);
    let parts = split_on(&cs, &seps);
    let ghost ps = split_spec(text@, seq![',']);
    let mut out: Vec<String> = Vec::new();
    let mut i: usize = 0;
    while i < parts.len()
        invariant
            i <= parts@.len(),
            parts@.len() == ps.len(),
            forall|k: int| 0 <= k < parts@.len() ==> (#[trigger] parts@[k])@ == ps[k],
            out.deep_view() == trimmed(ps).take(i as int),
        decreases parts@.len() - i,
    {
        let t = trim_text(&parts[i]);
        let s = piece_string(&t);
        let ghost o0 = out.deep_view();
        out.push(s);
        assert(out.deep_view() =~= o0.push(s@));
        assert(s@ == trimmed(ps)[i as int]);
        assert(out.deep_view() =~= trimmed(ps).take(i + 1));
        i = i + 1;
    }
    assert(trimmed(ps).take(ps.len() as int) =~= trimmed(ps));
    out
}

/// The text split at ',', empty pieces dropped, each remaining piece trimmed.
fn address_list(text: &str) -> (res: Vec<String>)
    ensures
        res.deep_view() == nonempty_trimmed(split_spec(text@, seq![','])),
{
    let cs = text_chars(text);
    let mut seps: Vec<char> = Vec::new();
    seps.push(',');
    assert(seps@ =~= seq![',']);
    let parts = split_on(&cs, &seps);
    let ghost ps = split_spec(text@, seq![',']);
    let mut out: Vec<String> = Vec::new();
    let mut i: usize = 0;
    while i < parts.len()
        invariant
            i <= parts@.len(),
            parts@.len() == ps.len(),
            forall|k: int| 0 <= k < parts@.len() ==> (#[trigger] parts@[k])@ == ps[k],
            out.deep_view() == nonempty_trimmed(ps.take(i as int)),
        decreases parts@.len() - i,
    {
        assert(ps.take(i + 1).drop_last() =~= ps.take(i as int));
        assert(ps.take(i + 1).last() == parts@[i as int]@);
        if parts[i].len() > 0 {
            let t = trim_text(&parts[i]);
            let s = piece_string(&t);
            out.push(s);
            assert(out.deep_view() =~= nonempty_trimmed(ps.take(i + 1)));
        }
        i = i + 1;
    }
    assert(ps.take(ps.len() as int) =~= ps);
    out
}


/// The GitHub token: `GITHUB_TOKEN` when set and non-empty, else
/// `GITHUB_INSTALLATION_TOKEN` when set and non-empty, else none.
pub open spec fn github_token_spec(env: Seq<(Seq<char>, Seq<char>)>) -> Option<Seq<char>> {
    match env_lookup(env, "GITHUB_TOKEN"@) {
        Some(t) if t.len() > 0 => Some(t),
        _ => match env_lookup(env, "GITHUB_INSTALLATION_TOKEN"@) {
            Some(t) if t.len() > 0 => Some(t),
            _ => None,
        },
    }
}

/// The GitHub token from the settings.
pub fn get_github_token(vars: &Vec<(String, String)>) -> (res: Option<String>)
    ensures
        (match res { Some(t) => Some(t@), None => None }) == github_token_spec(env_view(vars@)),
{
    if let Some(token) = env_value(vars, "GITHUB_TOKEN") {
        if token.as_str().unicode_len() > 0 {
            return Some(token);
        }
    }
    if let Some(token) = env_value(vars, "GITHUB_INSTALLATION_TOKEN") {
        if token.as_str().unicode_len() > 0 {
            return Some(token);
        }
    }
    None
}

/// Position of the first '/' in `s`, if any.
pub open spec fn first_slash(s: Seq<char>) -> Option<int> {
    if exists|i: int| 0 <= i < s.len() && s[i] == '/' {
        Some(choose|i: int| 0 <= i < s.len() && s[i] == '/' && forall|j: int| 0 <= j < i ==> s[j] != '/')
    } else {
        None
    }
}

/// The governance repository (owner, name): from `GOVERNANCE_REPO` split at
/// its first '/' with both parts trimmed; otherwise from
/// `GOVERNANCE_REPO_OWNER` and `GOVERNANCE_REPO_NAME` when both are set and
/// non-empty; otherwise none.
pub open spec fn governance_repo_spec(env: Seq<(Seq<char>, Seq<char>)>) -> Option<(Seq<char>, Seq<char>)> {
    let from_repo = match env_lookup(env, "GOVERNANCE_REPO"@) {
        Some(r) => match first_slash(r) {
            Some(i) => Some((trim_spec(r.take(i)), trim_spec(r.skip(i + 1)))),
            None => None,
        },
        None => None,
    };
    match from_repo {
        Some(p) => Some(p),
        None => match (env_lookup(env, "GOVERNANCE_REPO_OWNER"@), env_lookup(env, "GOVERNANCE_REPO_NAME"@)) {
            (Some(o), Some(n)) => if o.len() > 0 && n.len() > 0 { Some((o, n)) } else { None },
            _ => None,
        },
    }
}

/// The governance repository from the settings.
pub fn get_governance_repo(vars: &Vec<(String, String)>) -> (res: Option<(String, String)>)
    ensures
        (match res { Some(p) => Some((p.0@, p.1@)), None => None }) == governance_repo_spec(env_view(vars@)),
{
    if let Some(repo) = env_value(vars, "GOVERNANCE_REPO") {
        let cs = text_chars(repo.as_str());
        let mut i: usize = 0;
        while i < cs.len() && cs[i] != '/'
            invariant
                i <= cs@.len(),
                cs@ == repo@,
                forall|j: int| 0 <= j < i ==> cs@[j] != '/',
            decreases cs@.len() - i,
        {
            i = i + 1;
        }
        if i < cs.len() {
            proof {
                assert(cs@[i as int] == '/');
                let w = first_slash(repo@);
                assert(w is Some);
                let k = w.unwrap();
                assert(k == i) by {
                    if k < i {
                        assert(cs@[k] != '/');
                    } else if k > i {
                        assert(repo@[i as int] == '/');
                    }
                }
            }
            let mut owner: Vec<char> = Vec::new();
            let mut k: usize = 0;
            while k < i
                invariant
                    k <= i < cs@.len(),
                    owner@ == cs@.take(k as int),
                decreases i - k,
            {
                owner.push(cs[k]);
                k = k + 1;
                assert(owner@ =~= cs@.take(k as int));
            }
            let mut name: Vec<char> = Vec::new();
            let mut m: usize = i + 1;
            while m < cs.len()
                invariant
                    i < m <= cs@.len(),
                    name@ == cs@.subrange(i + 1, m as int),
                decreases cs@.len() - m,
            {
                name.push(cs[m]);
                m = m + 1;
                assert(name@ =~= cs@.subrange(i + 1, m as int));
            }
            assert(name@ =~= cs@.skip(i + 1));
            let o = piece_string(&trim_text(&owner));
            let n = piece_string(&trim_text(&name));
            return Some((o, n));
        } else {
            proof {
                assert(!exists|j: int| 0 <= j < repo@.len() && repo@[j] == '/');
            }
        }
    }
    let owner = env_value(vars, "GOVERNANCE_REPO_OWNER");
    let name = env_value(vars, "GOVERNANCE_REPO_NAME");
    match (owner, name) {
        (Some(o), Some(n)) => {
            if o.as_str().unicode_len() > 0 && n.as_str().unicode_len() > 0 {
                Some((o, n))
            } else {
                None
            }
        },
        _ => None,
    }
}

/// Whether the settings say this runs in GitHub Actions (`GITHUB_ACTIONS` is set).
pub fn is_github_actions(vars: &Vec<(String, String)>) -> (res: bool)
    ensures
        res == env_lookup(env_view(vars@), "GITHUB_ACTIONS"@) is Some,
{
    env_value(vars, "GITHUB_ACTIONS").is_some()
}

/// The database URL: `DATABASE_URL`, or "sqlite://governance.db".
pub fn get_database_url(vars: &Vec<(String, String)>) -> (res: String)
    ensures
        res@ == or_default(env_lookup(env_view(vars@), "DATABASE_URL"@), "sqlite://governance.db"@),
{
    text_setting(vars, "DATABASE_URL", "sqlite://governance.db")
}

impl AppConfig {
    /// The configuration formed from environment settings given as (name,
    /// value) pairs.  Every setting has a default; flags and numbers that do
    /// not read fall back to their default, except the GitHub app id and the
    /// server port, whose parse error is returned (its standard message).
    pub fn from_env_values(vars: &Vec<(String, String)>) -> (res: Result<AppConfig, GovernanceError>)
        ensures
            res is Ok <==> config_number_error(env_view(vars@)) is None,
            res matches Ok(c) ==> config_from_env_ok(c, env_view(vars@)),
            res matches Err(e) ==> e is ConfigError && (match config_number_error(env_view(vars@)) {
                Some(k) => e.message() == int_error_message_spec(k),
                None => false,
            }),
    {
        let ghost env = env_view(vars@);
        let database_url = text_setting(vars, "DATABASE_URL", "sqlite://governance.db");
        let app_id_text = text_setting(vars, "GITHUB_APP_ID", "123456");
        let github_app_id = match parse_uint(&text_chars(app_id_text.as_str()), u64::MAX) {
            Ok(n) => {
                proof { lemma_parse_uint_bound(app_id_text@, u64::MAX as int); }
                n
            },
            Err(k) => {
                return Err(GovernanceError::ConfigError(String::from_str(int_error_message(k))));
            },
        };
        let github_private_key_path = text_setting(vars, "GITHUB_PRIVATE_KEY_PATH", "/path/to/private-key.pem");
        let github_webhook_secret = text_setting(vars, "GITHUB_WEBHOOK_SECRET", "your_webhook_secret_here");
        let governance_repo = text_setting(vars, "GOVERNANCE_REPO", "BTCDecoded/governance");
        let server_host = text_setting(vars, "SERVER_HOST", "0.0.0.0");
        let port_text = text_setting(vars, "SERVER_PORT", "3000");
        let port = match parse_uint(&text_chars(port_text.as_str()), 65535) {
            Ok(n) => {
                proof { lemma_parse_uint_bound(port_text@, 65535); }
                n
            },
            Err(k) => {
                return Err(GovernanceError::ConfigError(String::from_str(int_error_message(k))));
            },
        };
        let dry_run_mode = flag(vars, "DRY_RUN_MODE", "false", false);
        let log_enforcement_decisions = flag(vars, "LOG_ENFORCEMENT_DECISIONS", "true", true);
        let enforcement_log_path = env_value(vars, "ENFORCEMENT_LOG_PATH");
        let server_id = text_setting(vars, "SERVER_ID", "governance-01");
        let nostr_enabled = flag(vars, "NOSTR_ENABLED", "false", false);
        let nostr_server_nsec_path = text_setting(vars, "NOSTR_SERVER_NSEC_PATH", "/etc/governance/server.nsec");
        let relays_text = text_setting(vars, "NOSTR_RELAYS", "wss://relay.damus.io,wss://nos.lol");
        let nostr_relays = comma_list(relays_text.as_str());
        let nostr_publish_interval = number(vars, "NOSTR_PUBLISH_INTERVAL_SECS", "3600", u64::MAX, 3600);
        let governance_config = text_setting(vars, "GOVERNANCE_CONFIG", "commons_mainnet");
        let zap_address = env_value(vars, "NOSTR_ZAP_ADDRESS");
        let logo_url = Some(text_setting(vars, "NOSTR_LOGO_URL", "https://btcdecoded.org/assets/bitcoin-commons-logo.png"));
        let ots_enabled = flag(vars, "OTS_ENABLED", "false", false);
        let ots_aggregator_url = text_setting(vars, "OTS_AGGREGATOR_URL", "https://alice.btc.calendar.opentimestamps.org");
        let ots_monthly_anchor_day = number(vars, "OTS_MONTHLY_ANCHOR_DAY", "1", 255, 1);
        let ots_registry_path = text_setting(vars, "OTS_REGISTRY_PATH", "/var/lib/governance/registries");
        let ots_proofs_path = text_setting(vars, "OTS_PROOFS_PATH", "/var/lib/governance/ots-proofs");
        let audit_enabled = flag(vars, "AUDIT_ENABLED", "true", true);
        let audit_log_path = text_setting(vars, "AUDIT_LOG_PATH", "/var/lib/governance/audit-log.jsonl");
        let audit_rotation_interval = number(vars, "AUDIT_ROTATION_INTERVAL_DAYS", "30", 0xffff_ffff, 30);
        let addresses_text = text_setting(vars, "GOVERNANCE_COMMONS_ADDRESSES", "");
        let commons_addresses = address_list(addresses_text.as_str());
        let network = text_setting(vars, "GOVERNANCE_NETWORK", "mainnet");
        let contribution_tracking_enabled = flag(vars, "GOVERNANCE_CONTRIBUTION_TRACKING_ENABLED", "true", true);
        let weight_updates_enabled = flag(vars, "GOVERNANCE_WEIGHT_UPDATES_ENABLED", "true", true);
        let weight_update_interval_secs = number(vars, "GOVERNANCE_WEIGHT_UPDATE_INTERVAL_SECS", "86400", u64::MAX, 86400);
        let config = AppConfig {
            database_url,
            github_app_id,
            github_private_key_path,
            github_webhook_secret,
            governance_repo,
            server_host,
            server_port: port as u16,
            dry_run_mode,
            log_enforcement_decisions,
            enforcement_log_path,
            server_id,
            nostr: NostrConfig {
                enabled: nostr_enabled,
                server_nsec_path: nostr_server_nsec_path,
                relays: nostr_relays,
                publish_interval_secs: nostr_publish_interval,
                governance_config,
                zap_address,
                logo_url,
                bots: Vec::new(),
            },
            ots: OtsConfig {
                enabled: ots_enabled,
                aggregator_url: ots_aggregator_url,
                monthly_anchor_day: ots_monthly_anchor_day as u8,
                registry_path: ots_registry_path,
                proofs_path: ots_proofs_path,
            },
            audit: AuditConfig {
                enabled: audit_enabled,
                log_path: audit_log_path,
                rotation_interval_days: audit_rotation_interval as u32,
            },
            governance: GovernanceConfig {
                commons_addresses,
                network,
                contribution_tracking_enabled,
                weight_updates_enabled,
                weight_update_interval_secs,
            },
        };
        Ok(config)
    }
}

} // verus!
