//! Governance configuration as read from the YAML files, and the mapping of
//! its values onto flat configuration keys such as
//! `tier_3_signatures_required`.  Reading and parsing the files is done by
//! the caller; maps of the files are held as lists of (key, entry) pairs.
use vstd::prelude::*;
use crate::error::GovernanceError;
use crate::strings::{nat_digits, str_eq, u64_to_decimal};
use crate::text::{parse_u32, parse_u32_spec, piece_string, split_on, split_spec, text_chars, trim_spec, trim_text};

verus! {

broadcast use vstd::string::group_string_axioms;

/// `std::path::PathBuf`, carried unread.
#[verifier::external_type_specification]
#[verifier::external_body]
pub struct ExPathBuf(std::path::PathBuf);

/// Action tier configuration.
#[derive(Debug, Clone)]
pub struct ActionTiersYaml {
    pub tiers: Vec<(String, TierYaml)>,
    pub emergency_tiers: Option<Vec<(String, EmergencyTierYaml)>>,
}

/// One action tier.
#[derive(Debug, Clone)]
pub struct TierYaml {
    pub name: String,
    pub description: String,
    pub signatures: SignatureYaml,
    pub review_period_days: i64,
    pub economic_veto: bool,
    pub emergency_override: bool,
}

/// Signature requirement: `required` of `total` maintainers.
#[derive(Debug, Clone, Copy)]
pub struct SignatureYaml {
    pub required: u32,
    pub total: u32,
}

/// Emergency tier as listed with the action tiers.
#[derive(Debug, Clone)]
pub struct EmergencyTierYaml {
    pub name: String,
    pub description: String,
    /// "N-of-M" text.
    pub activation_threshold: String,
    pub review_period_days: u32,
    pub max_duration_days: u32,
    pub extensions_allowed: u32,
}

/// Repository layer configuration.
#[derive(Debug, Clone)]
pub struct RepositoryLayersYaml {
    pub layers: Vec<(String, LayerYaml)>,
}

/// One repository layer.
#[derive(Debug, Clone)]
pub struct LayerYaml {
    pub name: String,
    pub description: String,
    pub signatures: SignatureYaml,
    pub review_period_days: i64,
    pub consensus_review_period_days: Option<i64>,
}

/// Emergency tier configuration.
#[derive(Debug, Clone)]
pub struct EmergencyTiersYaml {
    pub tiers: Vec<(String, EmergencyTierDetailYaml)>,
}

/// One emergency tier.
#[derive(Debug, Clone)]
pub struct EmergencyTierDetailYaml {
    pub name: String,
    pub description: String,
    pub requirements: EmergencyRequirementsYaml,
}

/// Requirements of an emergency tier.
#[derive(Debug, Clone)]
pub struct EmergencyRequirementsYaml {
    pub review_period_days: u32,
    /// "N-of-M" text.
    pub signature_threshold: String,
    pub max_duration_days: u32,
    /// "N-of-M" text.
    pub activation_threshold: String,
    pub max_extensions: Option<u32>,
}

/// Economic node configuration.
#[derive(Debug, Clone)]
pub struct EconomicNodesYaml {
    pub veto_mechanism: VetoMechanismYaml,
}

/// Veto mechanism settings.
#[derive(Debug, Clone)]
pub struct VetoMechanismYaml {
    pub veto_thresholds: VetoThresholdsYaml,
}

/// Veto thresholds per tier.
#[derive(Debug, Clone)]
pub struct VetoThresholdsYaml {
    pub tier_3: Option<VetoThresholdYaml>,
    pub tier_4: Option<VetoThresholdYaml>,
    pub tier_5: Option<VetoThresholdYaml>,
}

/// Veto threshold of one tier.
#[derive(Debug, Clone)]
pub struct VetoThresholdYaml {
    /// e.g. "30%+".
    pub mining_veto: String,
    /// e.g. "40%+".
    pub economic_veto: String,
    pub review_period_days: u32,
}

/// What reading and parsing one YAML file gave: the file is missing, could
/// not be read, did not parse (with the reason), or parsed to a value.
#[derive(Debug, Clone)]
pub enum YamlFileOutcome<T> {
    Missing,
    ReadFailed(String),
    ParseFailed(String),
    Parsed(T),
}

/// The error message for a file outcome, with the path as displayed.
pub open spec fn load_error_spec<T>(outcome: YamlFileOutcome<T>, path_text: Seq<char>) -> Option<Seq<char>> {
    match outcome {
        YamlFileOutcome::Missing => Some("Configuration file not found: "@ + path_text),
        YamlFileOutcome::ReadFailed(e) => Some("Failed to read "@ + path_text + ": "@ + e@),
        YamlFileOutcome::ParseFailed(e) => Some("Failed to parse "@ + path_text + ": "@ + e@),
        YamlFileOutcome::Parsed(_) => None,
    }
}

/// File name of the action tier configuration.
pub const ACTION_TIERS_FILE: &'static str = "action-tiers.yml";
/// File name of the repository layer configuration.
pub const REPOSITORY_LAYERS_FILE: &'static str = "repository-layers.yml";
/// File name of the emergency tier configuration.
pub const EMERGENCY_TIERS_FILE: &'static str = "emergency-tiers.yml";
/// File name of the economic node configuration.
pub const ECONOMIC_NODES_FILE: &'static str = "economic-nodes.yml";

/// Loader of the governance YAML files under one directory.
pub struct YamlConfigLoader {
    config_path: std::path::PathBuf,
}

/// The number named by a tier key: the piece after "tier_" up to the next
/// '_' (or the end), read as a `u32`; `None` for any other key.
pub open spec fn tier_number_spec(key: Seq<char>) -> Option<u32> {
    if key.len() >= 5 && key.take(5) == "tier_"@ {
        parse_u32_spec(split_spec(key, seq!['_'])[1])
    } else {
        None
    }
}

/// The layer name of a layer key: layers 1 and 2 are the constitutional
/// layers "1_2"; any other layer keeps the piece after "layer_" up to the
/// next '_' (or the end); `None` for a key not starting with "layer_".
pub open spec fn layer_number_spec(key: Seq<char>) -> Option<Seq<char>> {
    if key.len() >= 6 && key.take(6) == "layer_"@ {
        let num = split_spec(key, seq!['_'])[1];
        if num == "1"@ || num == "2"@ { Some("1_2"@) } else { Some(num) }
    } else {
        None
    }
}

/// The (N, M) of an "N-of-M" threshold: the text is split at '-', ' ' and
/// '/'; the first and the last piece, trimmed, are read as `u32`.  `None`
/// when there is no separator or either number does not read.
pub open spec fn threshold_pair_spec(t: Seq<char>) -> Option<(u32, u32)> {
    let parts = split_spec(t, seq!['-', ' ', '/']);
    if parts.len() >= 2 {
        match (parse_u32_spec(trim_spec(parts[0])), parse_u32_spec(trim_spec(parts.last()))) {
            (Some(n), Some(m)) => Some((n, m)),
            _ => None,
        }
    } else {
        None
    }
}

/// A list of (key, value) pairs as text and number.
pub open spec fn pairs_view(s: Seq<(String, i64)>) -> Seq<(Seq<char>, i64)> {
    Seq::new(s.len(), |i: int| (s[i].0@, s[i].1))
}

/// The configuration map a list of pairs stands for: later pairs override
/// earlier ones with the same key.
pub open spec fn values_map(s: Seq<(Seq<char>, i64)>) -> Map<Seq<char>, i64>
    decreases s.len(),
{
    if s.len() == 0 {
        Map::empty()
    } else {
        values_map(s.drop_last()).insert(s.last().0, s.last().1)
    }
}

/// Key text `prefix + number + suffix`.
pub open spec fn key_text(prefix: Seq<char>, n: nat, suffix: Seq<char>) -> Seq<char> {
    prefix + nat_digits(n) + suffix
}

/// The values one action tier contributes.
pub open spec fn action_tier_values(n: u32, t: TierYaml) -> Seq<(Seq<char>, i64)> {
    seq![
        (key_text("tier_"@, n as nat, "_signatures_required"@), t.signatures.required as i64),
        (key_text("tier_"@, n as nat, "_signatures_total"@), t.signatures.total as i64),
        (key_text("tier_"@, n as nat, "_review_period_days"@), t.review_period_days),
    ]
}

/// The values the action tiers contribute, in order, up to the first
/// invalid tier key; the flag says whether all keys were valid.
pub open spec fn action_tier_inserts(tiers: Seq<(String, TierYaml)>) -> (Seq<(Seq<char>, i64)>, bool)
    decreases tiers.len(),
{
    if tiers.len() == 0 {
        (Seq::empty(), true)
    } else {
        let prev = action_tier_inserts(tiers.drop_last());
        if !prev.1 {
            prev
        } else {
            match tier_number_spec(tiers.last().0@) {
                Some(n) => (prev.0 + action_tier_values(n, tiers.last().1), true),
                None => (prev.0, false),
            }
        }
    }
}

/// The values one repository layer contributes.
pub open spec fn layer_values(num: Seq<char>, l: LayerYaml) -> Seq<(Seq<char>, i64)> {
    seq![
        ("layer_"@ + num + "_signatures_required"@, l.signatures.required as i64),
        ("layer_"@ + num + "_signatures_total"@, l.signatures.total as i64),
        ("layer_"@ + num + "_review_period_days"@, l.review_period_days),
    ]
}

/// The values the repository layers contribute, up to the first invalid
/// layer key; the flag says whether all keys were valid.
pub open spec fn layer_inserts(layers: Seq<(String, LayerYaml)>) -> (Seq<(Seq<char>, i64)>, bool)
    decreases layers.len(),
{
    if layers.len() == 0 {
        (Seq::empty(), true)
    } else {
        let prev = layer_inserts(layers.drop_last());
        if !prev.1 {
            prev
        } else {
            match layer_number_spec(layers.last().0@) {
                Some(num) => (prev.0 + layer_values(num, layers.last().1), true),
                None => (prev.0, false),
            }
        }
    }
}

/// The values one emergency tier contributes, and whether both of its
/// thresholds read: review period and maximum duration first, then the
/// signature threshold's N and M, then the activation threshold's N and M,
/// then the maximum number of extensions when one is set.  Values stop at
/// the first threshold that does not read.
pub open spec fn emergency_values(n: u32, t: EmergencyTierDetailYaml) -> (Seq<(Seq<char>, i64)>, bool) {
    let r = t.requirements;
    let base = seq![
        (key_text("emergency_tier_"@, n as nat, "_review_period_days"@), r.review_period_days as i64),
        (key_text("emergency_tier_"@, n as nat, "_max_duration_days"@), r.max_duration_days as i64),
    ];
    match threshold_pair_spec(r.signature_threshold@) {
        None => (base, false),
        Some((sn, sm)) => {
            let with_sig = base + seq![
                (key_text("emergency_tier_"@, n as nat, "_signature_threshold_n"@), sn as i64),
                (key_text("emergency_tier_"@, n as nat, "_signature_threshold_m"@), sm as i64),
            ];
            match threshold_pair_spec(r.activation_threshold@) {
                None => (with_sig, false),
                Some((an, am)) => {
                    let with_act = with_sig + seq![
                        (key_text("emergency_tier_"@, n as nat, "_activation_threshold_n"@), an as i64),
                        (key_text("emergency_tier_"@, n as nat, "_activation_threshold_m"@), am as i64),
                    ];
                    match r.max_extensions {
                        Some(x) => (with_act.push((key_text("emergency_tier_"@, n as nat, "_max_extensions"@), x as i64)), true),
                        None => (with_act, true),
                    }
                },
            }
        },
    }
}

/// The values the emergency tiers contribute, up to the first failure.
pub open spec fn emergency_inserts(tiers: Seq<(String, EmergencyTierDetailYaml)>) -> (Seq<(Seq<char>, i64)>, bool)
    decreases tiers.len(),
{
    if tiers.len() == 0 {
        (Seq::empty(), true)
    } else {
        let prev = emergency_inserts(tiers.drop_last());
        if !prev.1 {
            prev
        } else {
            match tier_number_spec(tiers.last().0@) {
                Some(n) => {
                    let step = emergency_values(n, tiers.last().1);
                    (prev.0 + step.0, step.1)
                },
                None => (prev.0, false),
            }
        }
    }
}

/// Append `prefix`, the decimal digits of `n`, and `suffix`.
fn make_key(prefix: &str, n: u32, suffix: &str) -> (res: String)
    ensures
        res@ == key_text(prefix@, n as nat, suffix@),
{
    let mut k = String::from_str(prefix);
    let digits = u64_to_decimal(n as u64);
    k.append(digits.as_str());
    k.append(suffix);
    k
}

/// Append one (key, value) pair.
fn put(values: &mut Vec<(String, i64)>, key: String, value: i64)
    ensures
        pairs_view(final(values)@) == pairs_view(old(values)@).push((key@, value)),
{
    let ghost v0 = values@;
    values.push((key, value));
    assert(pairs_view(values@) =~= pairs_view(v0).push((key@, value)));
}

impl YamlConfigLoader {
    /// The directory the loader reads from.
    pub closed spec fn path_spec(self) -> std::path::PathBuf {
        self.config_path
    }

    /// A loader for the YAML files under `config_path`.
    pub fn new(config_path: std::path::PathBuf) -> (res: Self)
        ensures
            res.path_spec() == config_path,
    {
        YamlConfigLoader { config_path }
    }

    /// The directory the loader reads from.
    pub fn config_path(&self) -> (res: &std::path::PathBuf)
        ensures
            *res == self.path_spec(),
    {
        &self.config_path
    }

    /// The result of loading one YAML file whose path displays as
    /// `path_text`: the parsed value, or a configuration error naming the path.
    pub fn load_yaml<T>(&self, outcome: YamlFileOutcome<T>, path_text: &str) -> (res: Result<T, GovernanceError>)
        ensures
            match load_error_spec(outcome, path_text@) {
                None => outcome matches YamlFileOutcome::Parsed(v) && res matches Ok(r) && r == v,
                Some(m) => res matches Err(e) && e is ConfigError && e.message() == m,
            },
    {
        match outcome {
            YamlFileOutcome::Missing => {
                let mut m = String::from_str("Configuration file not found: ");
                m.append(path_text);
                Err(GovernanceError::ConfigError(m))
            },
            YamlFileOutcome::ReadFailed(e) => {
                let mut m = String::from_str("Failed to read ");
                m.append(path_text);
                m.append(": ");
                m.append(e.as_str());
                Err(GovernanceError::ConfigError(m))
            },
            YamlFileOutcome::ParseFailed(e) => {
                let mut m = String::from_str("Failed to parse ");
                m.append(path_text);
                m.append(": ");
                m.append(e.as_str());
                Err(GovernanceError::ConfigError(m))
            },
            YamlFileOutcome::Parsed(v) => Ok(v),
        }
    }

    /// The action tiers, from the outcome of reading "action-tiers.yml".
    pub fn load_action_tiers(&self, outcome: YamlFileOutcome<ActionTiersYaml>, path_text: &str) -> (res: Result<ActionTiersYaml, GovernanceError>)
        ensures
            match load_error_spec(outcome, path_text@) {
                None => outcome matches YamlFileOutcome::Parsed(v) && res matches Ok(r) && r == v,
                Some(m) => res matches Err(e) && e is ConfigError && e.message() == m,
            },
    {
        self.load_yaml(outcome, path_text)
    }

    /// The repository layers, from the outcome of reading "repository-layers.yml".
    pub fn load_repository_layers(&self, outcome: YamlFileOutcome<RepositoryLayersYaml>, path_text: &str) -> (res: Result<RepositoryLayersYaml, GovernanceError>)
        ensures
            match load_error_spec(outcome, path_text@) {
                None => outcome matches YamlFileOutcome::Parsed(v) && res matches Ok(r) && r == v,
                Some(m) => res matches Err(e) && e is ConfigError && e.message() == m,
            },
    {
        self.load_yaml(outcome, path_text)
    }

    /// The emergency tiers, from the outcome of reading "emergency-tiers.yml".
    pub fn load_emergency_tiers(&self, outcome: YamlFileOutcome<EmergencyTiersYaml>, path_text: &str) -> (res: Result<EmergencyTiersYaml, GovernanceError>)
        ensures
            match load_error_spec(outcome, path_text@) {
                None => outcome matches YamlFileOutcome::Parsed(v) && res matches Ok(r) && r == v,
                Some(m) => res matches Err(e) && e is ConfigError && e.message() == m,
            },
    {
        self.load_yaml(outcome, path_text)
    }

    /// The economic node settings, from the outcome of reading "economic-nodes.yml".
    pub fn load_economic_nodes(&self, outcome: YamlFileOutcome<EconomicNodesYaml>, path_text: &str) -> (res: Result<EconomicNodesYaml, GovernanceError>)
        ensures
            match load_error_spec(outcome, path_text@) {
                None => outcome matches YamlFileOutcome::Parsed(v) && res matches Ok(r) && r == v,
                Some(m) => res matches Err(e) && e is ConfigError && e.message() == m,
            },
    {
        self.load_yaml(outcome, path_text)
    }

    /// The piece after the prefix up to the next '_', when the key starts
    /// with the prefix of length `plen`.
    fn second_piece(key: &str) -> (res: Vec<char>)
        ensures
            split_spec(key@, seq!['_']).len() >= 2 ==> res@ == split_spec(key@, seq!['_'])[1],
    {
        let cs = text_chars(key);
        let mut seps: Vec<char> = Vec::new();
        seps.push('_');
        assert(seps@ =~= seq!['_']);
        let parts = split_on(&cs, &seps);
        if parts.len() >= 2 {
            let mut out: Vec<char> = Vec::new();
            let p = &parts[1];
            let mut i: usize = 0;
            while i < p.len()
                invariant
                    i <= p@.len(),
                    out@ == p@.subrange(0, i as int),
                decreases p@.len() - i,
            {
                out.push(p[i]);
                i = i + 1;
                assert(out@ =~= p@.subrange(0, i as int));
            }
            assert(out@ =~= p@);
            out
        } else {
            Vec::new()
        }
    }

    /// Whether `key` starts with `prefix`.
    fn starts_with(key: &str, prefix: &str) -> (res: bool)
        ensures
            res == (key@.len() >= prefix@.len() && key@.take(prefix@.len() as int) == prefix@),
    {
        let k = text_chars(key);
        let p = text_chars(prefix);
        if k.len() < p.len() {
            return false;
        }
        let mut i: usize = 0;
        while i < p.len()
            invariant
                k@ == key@,
                p@ == prefix@,
                p@.len() <= k@.len(),
                i <= p@.len(),
                forall|j: int| 0 <= j < i ==> k@[j] == p@[j],
            decreases p@.len() - i,
        {
            if k[i] != p[i] {
                assert(key@.take(prefix@.len() as int)[i as int] != prefix@[i as int]);
                return false;
            }
            i = i + 1;
        }
        assert(key@.take(prefix@.len() as int) =~= prefix@);
        true
    }

    /// Tier number of a tier key (e.g. "tier_1_routine" gives 1).
    pub fn extract_tier_number(&self, tier_key: &str) -> (res: Result<u32, GovernanceError>)
        ensures
            res matches Ok(n) ==> tier_number_spec(tier_key@) == Some(n),
            res is Err ==> tier_number_spec(tier_key@) is None,
            res matches Err(e) ==> e is ConfigError && e.message() == "Invalid tier key format: "@ + tier_key@,
    {
        Self::tier_number(tier_key, "Invalid tier key format: ")
    }

    /// Emergency tier number of a tier key (e.g. "tier_1_critical" gives 1).
    pub fn extract_emergency_tier_number(&self, tier_key: &str) -> (res: Result<u32, GovernanceError>)
        ensures
            res matches Ok(n) ==> tier_number_spec(tier_key@) == Some(n),
            res is Err ==> tier_number_spec(tier_key@) is None,
            res matches Err(e) ==> e is ConfigError && e.message() == "Invalid emergency tier key format: "@ + tier_key@,
    {
        Self::tier_number(tier_key, "Invalid emergency tier key format: ")
    }

    fn tier_number(tier_key: &str, err_prefix: &str) -> (res: Result<u32, GovernanceError>)
        ensures
            res matches Ok(n) ==> tier_number_spec(tier_key@) == Some(n),
            res is Err ==> tier_number_spec(tier_key@) is None,
            res matches Err(e) ==> e is ConfigError && e.message() == err_prefix@ + tier_key@,
    {
        proof {
            reveal_strlit("tier_");
        }
        if Self::starts_with(tier_key, "tier_") {
            let piece = Self::second_piece(tier_key);
            proof {
                assert(tier_key@.take(5)[4] == "tier_"@[4]);
                lemma_split_has_two(tier_key@, 4);
            }
            match parse_u32(&piece) {
                Some(n) => {
                    return Ok(n);
                },
                None => {},
            }
        }
        let mut msg = String::from_str(err_prefix);
        msg.append(tier_key);
        Err(GovernanceError::ConfigError(msg))
    }

    /// Layer name of a layer key: "layer_1_..." and "layer_2_..." give
    /// "1_2", any other layer its own number (e.g. "layer_3_implementation" gives "3").
    pub fn extract_layer_number(&self, layer_key: &str) -> (res: Result<String, GovernanceError>)
        ensures
            res matches Ok(s) ==> layer_number_spec(layer_key@) == Some(s@),
            res is Err ==> layer_number_spec(layer_key@) is None,
            res matches Err(e) ==> e is ConfigError && e.message() == "Invalid layer key format: "@ + layer_key@,
    {
        proof {
            reveal_strlit("layer_");
        }
        if Self::starts_with(layer_key, "layer_") {
            let piece = Self::second_piece(layer_key);
            proof {
                assert(layer_key@.take(6)[5] == "layer_"@[5]);
                lemma_split_has_two(layer_key@, 5);
            }
            let num = piece_string(&piece);
            if str_eq(num.as_str(), "1") || str_eq(num.as_str(), "2") {
                return Ok(String::from_str("1_2"));
            }
            return Ok(num);
        }
        let mut msg = String::from_str("Invalid layer key format: ");
        msg.append(layer_key);
        Err(GovernanceError::ConfigError(msg))
    }


    /// Add the signature and review period values of every action tier,
    /// keyed by tier number.  Stops with an error at the first invalid tier key.
    pub fn extract_action_tier_values(&self, action_tiers: &ActionTiersYaml, config_values: &mut Vec<(String, i64)>) -> (res: Result<(), GovernanceError>)
        ensures
            pairs_view(final(config_values)@) == pairs_view(old(config_values)@) + action_tier_inserts(action_tiers.tiers@).0,
            res is Ok <==> action_tier_inserts(action_tiers.tiers@).1,
            res matches Err(e) ==> e is ConfigError,
    {
        proof {
            reveal_strlit("tier_");
        }
        let tiers = &action_tiers.tiers;
        let ghost start = pairs_view(config_values@);
        let mut i: usize = 0;
        assert(tiers@.take(0) =~= Seq::<(String, TierYaml)>::empty());
        while i < tiers.len()
            invariant
                i <= tiers@.len(),
                action_tier_inserts(tiers@.take(i as int)).1,
                tiers@ == action_tiers.tiers@,
                start == pairs_view(old(config_values)@),
                pairs_view(config_values@) == start + action_tier_inserts(tiers@.take(i as int)).0,
            decreases tiers@.len() - i,
        {
            assert(tiers@.take(i + 1).drop_last() =~= tiers@.take(i as int));
            let (key, tier) = (&tiers[i].0, &tiers[i].1);
            let n = match self.extract_tier_number(key.as_str()) {
                Ok(n) => n,
                Err(e) => {
                    proof {
                        lemma_action_inserts_stop(tiers@, i as int + 1);
                    }
                    return Err(e);
                },
            };
            let ghost before = pairs_view(config_values@);
            put(config_values, make_key("tier_", n, "_signatures_required"), tier.signatures.required as i64);
            put(config_values, make_key("tier_", n, "_signatures_total"), tier.signatures.total as i64);
            put(config_values, make_key("tier_", n, "_review_period_days"), tier.review_period_days);
            assert(pairs_view(config_values@) =~= before + action_tier_values(n, *tier));
            i = i + 1;
        }
        assert(tiers@.take(tiers@.len() as int) =~= tiers@);
        Ok(())
    }

    /// Add the signature and review period values of every repository
    /// layer, keyed by layer name.  Stops with an error at the first invalid
    /// layer key.
    pub fn extract_repository_layer_values(&self, repo_layers: &RepositoryLayersYaml, config_values: &mut Vec<(String, i64)>) -> (res: Result<(), GovernanceError>)
        ensures
            pairs_view(final(config_values)@) == pairs_view(old(config_values)@) + layer_inserts(repo_layers.layers@).0,
            res is Ok <==> layer_inserts(repo_layers.layers@).1,
            res matches Err(e) ==> e is ConfigError,
    {
        let layers = &repo_layers.layers;
        let ghost start = pairs_view(config_values@);
        let mut i: usize = 0;
        assert(layers@.take(0) =~= Seq::<(String, LayerYaml)>::empty());
        while i < layers.len()
            invariant
                i <= layers@.len(),
                layer_inserts(layers@.take(i as int)).1,
                layers@ == repo_layers.layers@,
                start == pairs_view(old(config_values)@),
                pairs_view(config_values@) == start + layer_inserts(layers@.take(i as int)).0,
            decreases layers@.len() - i,
        {
            assert(layers@.take(i + 1).drop_last() =~= layers@.take(i as int));
            let (key, layer) = (&layers[i].0, &layers[i].1);
            let num = match self.extract_layer_number(key.as_str()) {
                Ok(n) => n,
                Err(e) => {
                    proof {
                        lemma_layer_inserts_stop(layers@, i as int + 1);
                    }
                    return Err(e);
                },
            };
            let ghost before = pairs_view(config_values@);
            put(config_values, layer_key(num.as_str(), "_signatures_required"), layer.signatures.required as i64);
            put(config_values, layer_key(num.as_str(), "_signatures_total"), layer.signatures.total as i64);
            put(config_values, layer_key(num.as_str(), "_review_period_days"), layer.review_period_days);
            assert(pairs_view(config_values@) =~= before + layer_values(num@, *layer));
            i = i + 1;
        }
        assert(layers@.take(layers@.len() as int) =~= layers@);
        Ok(())
    }

    /// Add the review period, duration, thresholds and extension values of
    /// every emergency tier, keyed by tier number.  Stops with an error at
    /// the first invalid tier key or threshold.
    pub fn extract_emergency_tier_values(&self, emergency_tiers: &EmergencyTiersYaml, config_values: &mut Vec<(String, i64)>) -> (res: Result<(), GovernanceError>)
        ensures
            pairs_view(final(config_values)@) == pairs_view(old(config_values)@) + emergency_inserts(emergency_tiers.tiers@).0,
            res is Ok <==> emergency_inserts(emergency_tiers.tiers@).1,
            res matches Err(e) ==> e is ConfigError,
    {
        let tiers = &emergency_tiers.tiers;
        let ghost start = pairs_view(config_values@);
        let mut i: usize = 0;
        assert(tiers@.take(0) =~= Seq::<(String, EmergencyTierDetailYaml)>::empty());
        while i < tiers.len()
            invariant
                i <= tiers@.len(),
                emergency_inserts(tiers@.take(i as int)).1,
                tiers@ == emergency_tiers.tiers@,
                start == pairs_view(old(config_values)@),
                pairs_view(config_values@) == start + emergency_inserts(tiers@.take(i as int)).0,
            decreases tiers@.len() - i,
        {
            assert(tiers@.take(i + 1).drop_last() =~= tiers@.take(i as int));
            let (key, tier) = (&tiers[i].0, &tiers[i].1);
            let n = match self.extract_emergency_tier_number(key.as_str()) {
                Ok(n) => n,
                Err(e) => {
                    proof {
                        lemma_emergency_inserts_stop(tiers@, i as int + 1);
                    }
                    return Err(e);
                },
            };
            let ghost before = pairs_view(config_values@);
            let step = self.emergency_tier_values(n, tier, config_values);
            assert(pairs_view(config_values@) =~= before + emergency_values(n, *tier).0);
            if let Err(e) = step {
                proof {
                    lemma_emergency_inserts_stop(tiers@, i as int + 1);
                }
                return Err(e);
            }
            i = i + 1;
        }
        assert(tiers@.take(tiers@.len() as int) =~= tiers@);
        Ok(())
    }

    /// The values of one emergency tier; fails when a threshold does not read.
    fn emergency_tier_values(&self, n: u32, tier: &EmergencyTierDetailYaml, config_values: &mut Vec<(String, i64)>) -> (res: Result<(), GovernanceError>)
        ensures
            pairs_view(final(config_values)@) == pairs_view(old(config_values)@) + emergency_values(n, *tier).0,
            res is Ok <==> emergency_values(n, *tier).1,
            res matches Err(e) ==> e is ConfigError,
    {
        let r = &tier.requirements;
        let ghost before = pairs_view(config_values@);
        put(config_values, make_key("emergency_tier_", n, "_review_period_days"), r.review_period_days as i64);
        put(config_values, make_key("emergency_tier_", n, "_max_duration_days"), r.max_duration_days as i64);
        let (sn, sm) = match self.parse_threshold_pair(r.signature_threshold.as_str()) {
            Ok(p) => p,
            Err(e) => {
                assert(pairs_view(config_values@) =~= before + emergency_values(n, *tier).0);
                return Err(e);
            },
        };
        put(config_values, make_key("emergency_tier_", n, "_signature_threshold_n"), sn as i64);
        put(config_values, make_key("emergency_tier_", n, "_signature_threshold_m"), sm as i64);
        let (an, am) = match self.parse_threshold_pair(r.activation_threshold.as_str()) {
            Ok(p) => p,
            Err(e) => {
                assert(pairs_view(config_values@) =~= before + emergency_values(n, *tier).0);
                return Err(e);
            },
        };
        put(config_values, make_key("emergency_tier_", n, "_activation_threshold_n"), an as i64);
        put(config_values, make_key("emergency_tier_", n, "_activation_threshold_m"), am as i64);
        match r.max_extensions {
            Some(x) => {
                put(config_values, make_key("emergency_tier_", n, "_max_extensions"), x as i64);
            },
            None => {},
        }
        assert(pairs_view(config_values@) =~= before + emergency_values(n, *tier).0);
        Ok(())
    }

    /// Parse an "N-of-M" threshold (also "N of M" and "N/M").
    pub fn parse_threshold_pair(&self, threshold: &str) -> (res: Result<(u32, u32), GovernanceError>)
        ensures
            res matches Ok(p) ==> threshold_pair_spec(threshold@) == Some(p),
            res is Err ==> threshold_pair_spec(threshold@) is None,
            res matches Err(e) ==> e is ConfigError && e.message() == ({
                let parts = split_spec(threshold@, seq!['-', ' ', '/']);
                if parts.len() < 2 {
                    "Invalid threshold format: "@ + threshold@ + " (expected 'N-of-M')"@
                } else if parse_u32_spec(trim_spec(parts[0])) is None {
                    "Invalid threshold N value: "@ + threshold@
                } else {
                    "Invalid threshold M value: "@ + threshold@
                }
            }),
    {
        let cs = text_chars(threshold);
        let mut seps: Vec<char> = Vec::new();
        seps.push('-');
        seps.push(' ');
        seps.push('/');
        assert(seps@ =~= seq!['-', ' ', '/']);
        let parts = split_on(&cs, &seps);
        if parts.len() >= 2 {
            let first = trim_text(&parts[0]);
            let last = trim_text(&parts[parts.len() - 1]);
            let n = match parse_u32(&first) {
                Some(v) => v,
                None => {
                    let mut msg = String::from_str("Invalid threshold N value: ");
                    msg.append(threshold);
                    return Err(GovernanceError::ConfigError(msg));
                },
            };
            let m = match parse_u32(&last) {
                Some(v) => v,
                None => {
                    let mut msg = String::from_str("Invalid threshold M value: ");
                    msg.append(threshold);
                    return Err(GovernanceError::ConfigError(msg));
                },
            };
            return Ok((n, m));
        }
        let mut msg = String::from_str("Invalid threshold format: ");
        msg.append(threshold);
        msg.append(" (expected 'N-of-M')");
        Err(GovernanceError::ConfigError(msg))
    }
}


/// Key text "layer_" + layer name + suffix.
fn layer_key(num: &str, suffix: &str) -> (res: String)
    ensures
        res@ == "layer_"@ + num@ + suffix@,
{
    let mut k = String::from_str("layer_");
    k.append(num);
    k.append(suffix);
    k
}

/// Once the action tier values stop at an invalid key, later tiers add nothing.
proof fn lemma_action_inserts_stop(tiers: Seq<(String, TierYaml)>, n: int)
    requires
        0 < n <= tiers.len(),
        action_tier_inserts(tiers.take(n - 1)).1,
        tier_number_spec(tiers[n - 1].0@) is None,
    ensures
        action_tier_inserts(tiers).0 == action_tier_inserts(tiers.take(n - 1)).0,
        !action_tier_inserts(tiers).1,
    decreases tiers.len() - n,
{
    assert(tiers.take(n).drop_last() =~= tiers.take(n - 1));
    if n < tiers.len() {
        lemma_action_stays_failed(tiers, n);
    } else {
        assert(tiers.take(n) =~= tiers);
    }
}

proof fn lemma_action_stays_failed(tiers: Seq<(String, TierYaml)>, n: int)
    requires
        0 < n <= tiers.len(),
        !action_tier_inserts(tiers.take(n)).1,
    ensures
        action_tier_inserts(tiers) == action_tier_inserts(tiers.take(n)),
    decreases tiers.len() - n,
{
    if n < tiers.len() {
        assert(tiers.take(n + 1).drop_last() =~= tiers.take(n));
        lemma_action_stays_failed(tiers, n + 1);
    } else {
        assert(tiers.take(n) =~= tiers);
    }
}

/// Once the layer values stop at an invalid key, later layers add nothing.
proof fn lemma_layer_inserts_stop(layers: Seq<(String, LayerYaml)>, n: int)
    requires
        0 < n <= layers.len(),
        layer_inserts(layers.take(n - 1)).1,
        layer_number_spec(layers[n - 1].0@) is None,
    ensures
        layer_inserts(layers).0 == layer_inserts(layers.take(n - 1)).0,
        !layer_inserts(layers).1,
{
    assert(layers.take(n).drop_last() =~= layers.take(n - 1));
    lemma_layer_stays_failed(layers, n);
}

proof fn lemma_layer_stays_failed(layers: Seq<(String, LayerYaml)>, n: int)
    requires
        0 < n <= layers.len(),
        !layer_inserts(layers.take(n)).1,
    ensures
        layer_inserts(layers) == layer_inserts(layers.take(n)),
    decreases layers.len() - n,
{
    if n < layers.len() {
        assert(layers.take(n + 1).drop_last() =~= layers.take(n));
        lemma_layer_stays_failed(layers, n + 1);
    } else {
        assert(layers.take(n) =~= layers);
    }
}

/// Once the emergency values stop, later tiers add nothing.
proof fn lemma_emergency_inserts_stop(tiers: Seq<(String, EmergencyTierDetailYaml)>, n: int)
    requires
        0 < n <= tiers.len(),
        !emergency_inserts(tiers.take(n)).1,
    ensures
        emergency_inserts(tiers) == emergency_inserts(tiers.take(n)),
    decreases tiers.len() - n,
{
    if n < tiers.len() {
        assert(tiers.take(n + 1).drop_last() =~= tiers.take(n));
        lemma_emergency_inserts_stop(tiers, n + 1);
    } else {
        assert(tiers.take(n) =~= tiers);
    }
}

/// A key starting with a prefix whose last char is the only '_' in it
/// splits into at least two pieces at '_'.
proof fn lemma_split_has_two(key: Seq<char>, at: int)
    requires
        0 <= at < key.len(),
        key[at] == '_',
    ensures
        split_spec(key, seq!['_']).len() >= 2,
{
    lemma_split_len_grows(key, at);
}

proof fn lemma_split_len_grows(s: Seq<char>, at: int)
    requires
        0 <= at < s.len(),
        s[at] == '_',
    ensures
        split_spec(s, seq!['_']).len() >= 2,
    decreases s.len(),
{
    if at == s.len() - 1 {
        assert(seq!['_'][0] == s.last());
        assert(seq!['_'].contains(s.last()));
        lemma_split_len_at_least_one(s.drop_last());
    } else {
        assert(s.drop_last()[at] == s[at]);
        lemma_split_len_grows(s.drop_last(), at);
    }
}

proof fn lemma_split_len_at_least_one(s: Seq<char>)
    ensures
        split_spec(s, seq!['_']).len() >= 1,
    decreases s.len(),
{
    if s.len() > 0 {
        lemma_split_len_at_least_one(s.drop_last());
    }
}

/// Keys that differ only in their suffix differ.
proof fn lemma_suffix_keys_differ(p: Seq<char>, s1: Seq<char>, s2: Seq<char>)
    requires
        s1 != s2,
    ensures
        p + s1 != p + s2,
{
    if p + s1 == p + s2 {
        assert((p + s1).skip(p.len() as int) =~= s1);
        assert((p + s2).skip(p.len() as int) =~= s2);
    }
}

/// A pair with no later pair of the same key gives the map's value for that key.
proof fn lemma_values_map_at(s: Seq<(Seq<char>, i64)>, i: int)
    requires
        0 <= i < s.len(),
        forall|j: int| i < j < s.len() ==> (#[trigger] s[j]).0 != s[i].0,
    ensures
        values_map(s).contains_key(s[i].0),
        values_map(s)[s[i].0] == s[i].1,
    decreases s.len(),
{
    if i < s.len() - 1 {
        let init = s.drop_last();
        assert forall|j: int| i < j < init.len() implies (#[trigger] init[j]).0 != init[i].0 by {
            assert(init[j] == s[j]);
        }
        lemma_values_map_at(init, i);
        assert(init[i] == s[i]);
        assert(s[s.len() - 1].0 != s[i].0);
    }
}

proof fn lemma_emergency_suffixes_distinct()
    ensures
        "_review_period_days"@ != "_max_duration_days"@,
        "_review_period_days"@ != "_signature_threshold_n"@,
        "_review_period_days"@ != "_signature_threshold_m"@,
        "_review_period_days"@ != "_activation_threshold_n"@,
        "_review_period_days"@ != "_activation_threshold_m"@,
        "_review_period_days"@ != "_max_extensions"@,
        "_max_duration_days"@ != "_signature_threshold_n"@,
        "_max_duration_days"@ != "_signature_threshold_m"@,
        "_max_duration_days"@ != "_activation_threshold_n"@,
        "_max_duration_days"@ != "_activation_threshold_m"@,
        "_max_duration_days"@ != "_max_extensions"@,
        "_signature_threshold_n"@ != "_signature_threshold_m"@,
        "_signature_threshold_n"@ != "_activation_threshold_n"@,
        "_signature_threshold_n"@ != "_activation_threshold_m"@,
        "_signature_threshold_n"@ != "_max_extensions"@,
        "_signature_threshold_m"@ != "_activation_threshold_n"@,
        "_signature_threshold_m"@ != "_activation_threshold_m"@,
        "_signature_threshold_m"@ != "_max_extensions"@,
        "_activation_threshold_n"@ != "_activation_threshold_m"@,
        "_activation_threshold_n"@ != "_max_extensions"@,
        "_activation_threshold_m"@ != "_max_extensions"@,
{
    reveal_strlit("_review_period_days");
    reveal_strlit("_max_duration_days");
    reveal_strlit("_signature_threshold_n");
    reveal_strlit("_signature_threshold_m");
    reveal_strlit("_activation_threshold_n");
    reveal_strlit("_activation_threshold_m");
    reveal_strlit("_max_extensions");
    assert("_review_period_days"@[1] != "_max_duration_days"@[1]);
    assert("_review_period_days"@[1] != "_signature_threshold_n"@[1]);
    assert("_review_period_days"@[1] != "_activation_threshold_n"@[1]);
    assert("_review_period_days"@[1] != "_max_extensions"@[1]);
    assert("_max_duration_days"@[1] != "_signature_threshold_n"@[1]);
    assert("_max_duration_days"@[1] != "_activation_threshold_n"@[1]);
    assert("_max_duration_days"@.len() != "_max_extensions"@.len());
    assert("_signature_threshold_n"@[21] != "_signature_threshold_m"@[21]);
    assert("_signature_threshold_n"@[1] != "_activation_threshold_n"@[1]);
    assert("_signature_threshold_n"@[1] != "_max_extensions"@[1]);
    assert("_signature_threshold_m"@[1] != "_activation_threshold_m"@[1]);
    assert("_activation_threshold_n"@[22] != "_activation_threshold_m"@[22]);
    assert("_activation_threshold_n"@[1] != "_max_extensions"@[1]);
}

/// The values one emergency tier stores, looked up by key: its review
/// period and maximum duration; when its signature threshold reads as
/// (N, M), N under `_signature_threshold_n` and M under
/// `_signature_threshold_m`; when the activation threshold also reads as
/// (N, M), N and M under `_activation_threshold_n` and `_m`; then the
/// maximum number of extensions when one is set.  The tier succeeds
/// exactly when both thresholds read.
pub proof fn lemma_emergency_tier_values_by_key(n: u32, t: EmergencyTierDetailYaml)
    ensures
        emergency_values(n, t).1 == (threshold_pair_spec(t.requirements.signature_threshold@) is Some
            && threshold_pair_spec(t.requirements.activation_threshold@) is Some),
        values_map(emergency_values(n, t).0)[key_text("emergency_tier_"@, n as nat, "_review_period_days"@)]
            == t.requirements.review_period_days as i64,
        values_map(emergency_values(n, t).0)[key_text("emergency_tier_"@, n as nat, "_max_duration_days"@)]
            == t.requirements.max_duration_days as i64,
        threshold_pair_spec(t.requirements.signature_threshold@) matches Some(sig) ==> {
            &&& values_map(emergency_values(n, t).0)[key_text("emergency_tier_"@, n as nat, "_signature_threshold_n"@)]
                == sig.0 as i64
            &&& values_map(emergency_values(n, t).0)[key_text("emergency_tier_"@, n as nat, "_signature_threshold_m"@)]
                == sig.1 as i64
        },
        threshold_pair_spec(t.requirements.signature_threshold@) is Some
            ==> (threshold_pair_spec(t.requirements.activation_threshold@) matches Some(act) ==> {
            &&& values_map(emergency_values(n, t).0)[key_text("emergency_tier_"@, n as nat, "_activation_threshold_n"@)]
                == act.0 as i64
            &&& values_map(emergency_values(n, t).0)[key_text("emergency_tier_"@, n as nat, "_activation_threshold_m"@)]
                == act.1 as i64
        }),
        emergency_values(n, t).1 ==> (t.requirements.max_extensions matches Some(x) ==>
            values_map(emergency_values(n, t).0)[key_text("emergency_tier_"@, n as nat, "_max_extensions"@)] == x as i64),
{
    lemma_emergency_suffixes_distinct();
    let p = "emergency_tier_"@ + nat_digits(n as nat);
    let kr = key_text("emergency_tier_"@, n as nat, "_review_period_days"@);
    let kd = key_text("emergency_tier_"@, n as nat, "_max_duration_days"@);
    let ksn = key_text("emergency_tier_"@, n as nat, "_signature_threshold_n"@);
    let ksm = key_text("emergency_tier_"@, n as nat, "_signature_threshold_m"@);
    let kan = key_text("emergency_tier_"@, n as nat, "_activation_threshold_n"@);
    let kam = key_text("emergency_tier_"@, n as nat, "_activation_threshold_m"@);
    let kx = key_text("emergency_tier_"@, n as nat, "_max_extensions"@);
    lemma_suffix_keys_differ(p, "_review_period_days"@, "_max_duration_days"@);
    lemma_suffix_keys_differ(p, "_review_period_days"@, "_signature_threshold_n"@);
    lemma_suffix_keys_differ(p, "_review_period_days"@, "_signature_threshold_m"@);
    lemma_suffix_keys_differ(p, "_review_period_days"@, "_activation_threshold_n"@);
    lemma_suffix_keys_differ(p, "_review_period_days"@, "_activation_threshold_m"@);
    lemma_suffix_keys_differ(p, "_review_period_days"@, "_max_extensions"@);
    lemma_suffix_keys_differ(p, "_max_duration_days"@, "_signature_threshold_n"@);
    lemma_suffix_keys_differ(p, "_max_duration_days"@, "_signature_threshold_m"@);
    lemma_suffix_keys_differ(p, "_max_duration_days"@, "_activation_threshold_n"@);
    lemma_suffix_keys_differ(p, "_max_duration_days"@, "_activation_threshold_m"@);
    lemma_suffix_keys_differ(p, "_max_duration_days"@, "_max_extensions"@);
    lemma_suffix_keys_differ(p, "_signature_threshold_n"@, "_signature_threshold_m"@);
    lemma_suffix_keys_differ(p, "_signature_threshold_n"@, "_activation_threshold_n"@);
    lemma_suffix_keys_differ(p, "_signature_threshold_n"@, "_activation_threshold_m"@);
    lemma_suffix_keys_differ(p, "_signature_threshold_n"@, "_max_extensions"@);
    lemma_suffix_keys_differ(p, "_signature_threshold_m"@, "_activation_threshold_n"@);
    lemma_suffix_keys_differ(p, "_signature_threshold_m"@, "_activation_threshold_m"@);
    lemma_suffix_keys_differ(p, "_signature_threshold_m"@, "_max_extensions"@);
    lemma_suffix_keys_differ(p, "_activation_threshold_n"@, "_activation_threshold_m"@);
    lemma_suffix_keys_differ(p, "_activation_threshold_n"@, "_max_extensions"@);
    lemma_suffix_keys_differ(p, "_activation_threshold_m"@, "_max_extensions"@);
    let keys = seq![kr, kd, ksn, ksm, kan, kam, kx];
    assert forall|a: int, b: int| 0 <= a < b < 7 implies #[trigger] keys[a] != #[trigger] keys[b] by {}
    let v = emergency_values(n, t).0;
    // every pair of v is (keys[a], _) for its position a, so later pairs have other keys
    assert(v.len() <= 7);
    assert forall|a: int| 0 <= a < v.len() implies (#[trigger] v[a]).0 == keys[a] by {}
    assert forall|a: int, b: int| 0 <= a < b < v.len() implies (#[trigger] v[b]).0 != (#[trigger] v[a]).0 by {
        assert(keys[a] != keys[b]);
    }
    assert forall|a: int| 0 <= a < v.len() implies values_map(v).contains_key(#[trigger] v[a].0)
        && values_map(v)[v[a].0] == v[a].1 by {
        lemma_values_map_at(v, a);
    }
    assert(v[0].0 == kr && v[1].0 == kd);
    if v.len() > 3 {
        assert(v[2].0 == ksn && v[3].0 == ksm);
    }
    if v.len() > 5 {
        assert(v[4].0 == kan && v[5].0 == kam);
    }
    if v.len() > 6 {
        assert(v[6].0 == kx);
    }
}

proof fn lemma_tier_suffixes_distinct()
    ensures
        "_signatures_required"@ != "_signatures_total"@,
        "_signatures_required"@ != "_review_period_days"@,
        "_signatures_total"@ != "_review_period_days"@,
{
    reveal_strlit("_signatures_required");
    reveal_strlit("_signatures_total");
    reveal_strlit("_review_period_days");
    assert("_signatures_required"@.len() != "_signatures_total"@.len());
    assert("_signatures_required"@[1] != "_review_period_days"@[1]);
    assert("_signatures_total"@[1] != "_review_period_days"@[1]);
}

/// The values one action tier stores, looked up by key: the required and
/// total signatures and the review period, each under its own key.
pub proof fn lemma_action_tier_values_by_key(n: u32, t: TierYaml)
    ensures
        values_map(action_tier_values(n, t))[key_text("tier_"@, n as nat, "_signatures_required"@)]
            == t.signatures.required as i64,
        values_map(action_tier_values(n, t))[key_text("tier_"@, n as nat, "_signatures_total"@)]
            == t.signatures.total as i64,
        values_map(action_tier_values(n, t))[key_text("tier_"@, n as nat, "_review_period_days"@)]
            == t.review_period_days,
{
    lemma_tier_suffixes_distinct();
    let p = "tier_"@ + nat_digits(n as nat);
    lemma_suffix_keys_differ(p, "_signatures_required"@, "_signatures_total"@);
    lemma_suffix_keys_differ(p, "_signatures_required"@, "_review_period_days"@);
    lemma_suffix_keys_differ(p, "_signatures_total"@, "_review_period_days"@);
    let v = action_tier_values(n, t);
    lemma_values_map_at(v, 0);
    lemma_values_map_at(v, 1);
    lemma_values_map_at(v, 2);
}

/// The values one repository layer stores, looked up by key: the required
/// and total signatures and the review period, each under its own key.
pub proof fn lemma_layer_values_by_key(num: Seq<char>, l: LayerYaml)
    ensures
        values_map(layer_values(num, l))["layer_"@ + num + "_signatures_required"@] == l.signatures.required as i64,
        values_map(layer_values(num, l))["layer_"@ + num + "_signatures_total"@] == l.signatures.total as i64,
        values_map(layer_values(num, l))["layer_"@ + num + "_review_period_days"@] == l.review_period_days,
{
    lemma_tier_suffixes_distinct();
    let p = "layer_"@ + num;
    lemma_suffix_keys_differ(p, "_signatures_required"@, "_signatures_total"@);
    lemma_suffix_keys_differ(p, "_signatures_required"@, "_review_period_days"@);
    lemma_suffix_keys_differ(p, "_signatures_total"@, "_review_period_days"@);
    let v = layer_values(num, l);
    lemma_values_map_at(v, 0);
    lemma_values_map_at(v, 1);
    lemma_values_map_at(v, 2);
}

} // verus!
