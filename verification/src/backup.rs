//! Backup policy: backup configuration, file naming, which files the
//! retention policy removes, and the checks around a backup.  Instants are
//! milliseconds since the Unix epoch.
use vstd::prelude::*;
use crate::error::GovernanceError;
use crate::strings::{chars_of, contains_substring, contains_text, push_char, str_eq};

verus! {

broadcast use vstd::string::group_string_axioms;

/// The path `std::path::PathBuf::from` makes of a text.
pub uninterp spec fn path_of_text(s: Seq<char>) -> std::path::PathBuf;

/// The duration `std::time::Duration::from_secs` makes of a number of seconds.
pub uninterp spec fn duration_of_secs(secs: u64) -> std::time::Duration;

/// Calls `PathBuf::from` on a text.  Trusted: the path is the value named
/// by `path_of_text` for the text.
#[verifier::external_body]
fn path_from(s: &str) -> (res: std::path::PathBuf)
    ensures
        res == path_of_text(s@),
{
    std::path::PathBuf::from(s)
}

/// Calls `Duration::from_secs`.  Trusted: the duration is the value named
/// by `duration_of_secs` for the seconds.
#[verifier::external_body]
fn duration_from_secs(secs: u64) -> (res: std::time::Duration)
    ensures
        res == duration_of_secs(secs),
{
    std::time::Duration::from_secs(secs)
}

/// Backup configuration.
#[derive(Debug)]
pub struct BackupConfig {
    /// Backup directory.
    pub directory: std::path::PathBuf,
    /// Retention period in days.
    pub retention_days: u32,
    /// Enable compression.
    pub compression: bool,
    /// Backup interval.
    pub interval: std::time::Duration,
    /// Enable automatic backups.
    pub enabled: bool,
}

impl Default for BackupConfig {
    fn default() -> (res: Self)
        ensures
            res.directory == path_of_text("/opt/bllvm-commons/backups"@),
            res.retention_days == 30,
            res.compression,
            res.interval == duration_of_secs(86400),
            res.enabled,
    {
        BackupConfig {
            directory: path_from("/opt/bllvm-commons/backups"),
            retention_days: 30,
            compression: true,
            interval: duration_from_secs(86400),
            enabled: true,
        }
    }
}

/// The file name of a backup taken at the given timestamp text.
pub fn backup_filename(timestamp: &str) -> (res: String)
    ensures
        res@ == "governance_backup_"@ + timestamp@ + ".db"@,
{
    let mut n = String::from_str("governance_backup_");
    n.append(timestamp);
    n.append(".db");
    n
}

/// A text with every single quote doubled, for use inside an SQL string.
pub open spec fn escape_quotes_spec(s: Seq<char>) -> Seq<char>
    decreases s.len(),
{
    if s.len() == 0 {
        Seq::empty()
    } else {
        escape_quotes_spec(s.drop_last()) + if s.last() == '\'' { seq!['\'', '\''] } else { seq![s.last()] }
    }
}

/// The statement that copies the SQLite database to `path`.
pub fn vacuum_into_statement(path: &str) -> (res: String)
    ensures
        res@ == "VACUUM INTO '"@ + escape_quotes_spec(path@) + "'"@,
{
    let cs = chars_of(path);
    let mut out = String::from_str("VACUUM INTO '");
    let ghost head = out@;
    let mut i: usize = 0;
    while i < cs.len()
        invariant
            i <= cs@.len(),
            cs@ == path@,
            out@ == head + escape_quotes_spec(cs@.take(i as int)),
        decreases cs@.len() - i,
    {
        assert(cs@.take(i + 1).drop_last() =~= cs@.take(i as int));
        let c = cs[i];
        let ghost before = out@;
        if c == '\'' {
            push_char(&mut out, '\'');
            push_char(&mut out, '\'');
            assert(out@ =~= before + seq!['\'', '\'']);
        } else {
            push_char(&mut out, c);
            assert(out@ =~= before + seq![c]);
        }
        i = i + 1;
    }
    assert(cs@.take(cs@.len() as int) =~= cs@);
    out.append("'");
    out
}

/// The result of SQLite's integrity check on a backup: only "ok" passes.
pub fn check_integrity_result(result: &str) -> (res: Result<(), GovernanceError>)
    ensures
        res is Ok <==> result@ == "ok"@,
        res matches Err(e) ==> e is DatabaseError && e.message() == "Backup integrity check failed: "@ + result@,
{
    if str_eq(result, "ok") {
        Ok(())
    } else {
        let mut m = String::from_str("Backup integrity check failed: ");
        m.append(result);
        Err(GovernanceError::DatabaseError(m))
    }
}

/// The path of a compressed backup.
pub fn compressed_path(backup_path: &str) -> (res: String)
    ensures
        res@ == backup_path@ + ".gz"@,
{
    let mut p = String::from_str(backup_path);
    p.append(".gz");
    p
}

/// The kind of database being backed up.
#[derive(Debug, Clone, Copy, PartialEq, Eq, Structural)]
pub enum DatabaseKind {
    Sqlite,
    Postgres,
    Other,
}

/// Only SQLite databases are backed up here.
pub fn check_backup_supported(kind: DatabaseKind) -> (res: Result<(), GovernanceError>)
    ensures
        res is Ok <==> kind == DatabaseKind::Sqlite,
        res matches Err(e) ==> e is ConfigError && e.message() == if kind == DatabaseKind::Postgres {
            "PostgreSQL backups require external pg_dump tool"@
        } else {
            "Unknown database type for backup"@
        },
{
    match kind {
        DatabaseKind::Sqlite => Ok(()),
        DatabaseKind::Postgres => Err(GovernanceError::ConfigError(String::from_str("PostgreSQL backups require external pg_dump tool"))),
        DatabaseKind::Other => Err(GovernanceError::ConfigError(String::from_str("Unknown database type for backup"))),
    }
}

/// Milliseconds in a day.
pub const BACKUP_MILLIS_PER_DAY: i64 = 86_400_000;

/// The instant before which backups are removed: `retention_days` days
/// before `now_ms`.
pub fn retention_cutoff(now_ms: i64, retention_days: u32) -> (res: Result<i64, GovernanceError>)
    ensures
        now_ms - retention_days * 86_400_000 >= i64::MIN ==> res == Ok::<i64, GovernanceError>((now_ms - retention_days * 86_400_000) as i64),
        now_ms - retention_days * 86_400_000 < i64::MIN ==> (res matches Err(e) && e is ConfigError
            && e.message() == "Failed to calculate cutoff time"@),
{
    let span: i64 = (retention_days as i64) * BACKUP_MILLIS_PER_DAY;
    match now_ms.checked_sub(span) {
        Some(c) => Ok(c),
        None => Err(GovernanceError::ConfigError(String::from_str("Failed to calculate cutoff time"))),
    }
}

/// A directory entry is an expired backup when it is a file whose path
/// names a governance backup and it was last modified before the cutoff.
pub fn is_expired_backup(path: &str, is_file: bool, modified_ms: Option<i64>, cutoff_ms: i64) -> (res: bool)
    ensures
        res == (is_file && contains_text(path@, "governance_backup_"@) && match modified_ms {
            Some(m) => m < cutoff_ms,
            None => false,
        }),
{
    if !is_file || !contains_substring(path, "governance_backup_") {
        return false;
    }
    match modified_ms {
        Some(m) => m < cutoff_ms,
        None => false,
    }
}

} // verus!
