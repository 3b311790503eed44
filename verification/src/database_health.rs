//! Database health and performance figures, and the choice of backend for
//! a production database URL.
use vstd::prelude::*;
use crate::error::GovernanceError;
use crate::strings::str_eq;

verus! {

broadcast use vstd::string::group_string_axioms;

/// Database health figures.
#[derive(Debug, Clone)]
pub struct DatabaseHealth {
    pub connection_count: u32,
    pub idle_connections: u32,
    pub active_connections: u32,
    pub integrity_ok: bool,
    pub journal_mode: String,
    pub database_size_bytes: i64,
    pub wal_mode_active: bool,
}

/// Database performance figures.
#[derive(Debug, Clone)]
pub struct PerformanceStats {
    pub cache_size: i64,
    pub wal_checkpoint_threshold: i64,
    pub slow_queries_count: i64,
}

/// Health of an SQLite database from its pool figures and pragma results:
/// active connections are the non-idle ones, integrity is fine when the
/// check says "ok", the size is pages times page size, and WAL mode is on
/// when the journal mode is "wal".
pub fn sqlite_health(connection_count: u32, idle_connections: u32, integrity_result: &str, journal_mode: String, page_count: i64, page_size: i64) -> (res: DatabaseHealth)
    requires
        idle_connections <= connection_count,
        i64::MIN <= page_count * page_size <= i64::MAX,
    ensures
        res.connection_count == connection_count,
        res.idle_connections == idle_connections,
        res.active_connections == connection_count - idle_connections,
        res.integrity_ok == (integrity_result@ == "ok"@),
        res.journal_mode@ == journal_mode@,
        res.database_size_bytes == page_count * page_size,
        res.wal_mode_active == (journal_mode@ == "wal"@),
{
    let wal = str_eq(journal_mode.as_str(), "wal");
    DatabaseHealth {
        connection_count,
        idle_connections,
        active_connections: connection_count - idle_connections,
        integrity_ok: str_eq(integrity_result, "ok"),
        journal_mode,
        database_size_bytes: page_count * page_size,
        wal_mode_active: wal,
    }
}

/// Health of a PostgreSQL database: integrity and WAL are the server's own.
pub fn postgres_health(connection_count: u32, idle_connections: u32, database_size_bytes: i64) -> (res: DatabaseHealth)
    requires
        idle_connections <= connection_count,
    ensures
        res.connection_count == connection_count,
        res.idle_connections == idle_connections,
        res.active_connections == connection_count - idle_connections,
        res.integrity_ok,
        res.journal_mode@ == "wal"@,
        res.database_size_bytes == database_size_bytes,
        res.wal_mode_active,
{
    DatabaseHealth {
        connection_count,
        idle_connections,
        active_connections: connection_count - idle_connections,
        integrity_ok: true,
        journal_mode: String::from_str("wal"),
        database_size_bytes,
        wal_mode_active: true,
    }
}

/// Performance figures of an SQLite database; the number of compile
/// options stands in for the slow query count.
pub fn sqlite_performance(cache_size: i64, wal_checkpoint_threshold: i64, compile_options_count: usize) -> (res: PerformanceStats)
    requires
        compile_options_count <= i64::MAX,
    ensures
        res.cache_size == cache_size,
        res.wal_checkpoint_threshold == wal_checkpoint_threshold,
        res.slow_queries_count == compile_options_count,
{
    PerformanceStats { cache_size, wal_checkpoint_threshold, slow_queries_count: compile_options_count as i64 }
}

/// Performance figures reported for PostgreSQL: all zero.
pub fn postgres_performance() -> (res: PerformanceStats)
    ensures
        res.cache_size == 0 && res.wal_checkpoint_threshold == 0 && res.slow_queries_count == 0,
{
    PerformanceStats { cache_size: 0, wal_checkpoint_threshold: 0, slow_queries_count: 0 }
}

/// The backend of a database.
#[derive(Debug, Clone, Copy, PartialEq, Eq, Structural)]
pub enum BackendKind {
    Sqlite,
    Postgres,
}

/// Whether `s` starts with `prefix`.
pub open spec fn has_prefix(s: Seq<char>, prefix: Seq<char>) -> bool {
    s.len() >= prefix.len() && s.take(prefix.len() as int) == prefix
}

fn starts_with(s: &str, prefix: &str) -> (res: bool)
    ensures
        res == has_prefix(s@, prefix@),
{
    let a = crate::strings::chars_of(s);
    let b = crate::strings::chars_of(prefix);
    if a.len() < b.len() {
        return false;
    }
    let mut i: usize = 0;
    while i < b.len()
        invariant
            a@ == s@,
            b@ == prefix@,
            b@.len() <= a@.len(),
            i <= b@.len(),
            forall|j: int| 0 <= j < i ==> a@[j] == b@[j],
        decreases b@.len() - i,
    {
        if a[i] != b[i] {
            assert(s@.take(prefix@.len() as int)[i as int] != prefix@[i as int]);
            return false;
        }
        i = i + 1;
    }
    assert(s@.take(prefix@.len() as int) =~= prefix@);
    true
}

/// The backend for a production database URL: "sqlite:" URLs are SQLite,
/// "postgres://" and "postgresql://" URLs are PostgreSQL; anything else is
/// refused.
pub fn production_backend(database_url: &str) -> (res: Result<BackendKind, GovernanceError>)
    ensures
        has_prefix(database_url@, "sqlite:"@) ==> res == Ok::<BackendKind, GovernanceError>(BackendKind::Sqlite),
        !has_prefix(database_url@, "sqlite:"@) && (has_prefix(database_url@, "postgres://"@) || has_prefix(database_url@, "postgresql://"@))
            ==> res == Ok::<BackendKind, GovernanceError>(BackendKind::Postgres),
        !has_prefix(database_url@, "sqlite:"@) && !has_prefix(database_url@, "postgres://"@) && !has_prefix(database_url@, "postgresql://"@)
            ==> (res matches Err(e) && e is DatabaseError
            && e.message() == "Unsupported database URL format for production. Use 'sqlite://' or 'postgresql://'"@),
{
    if starts_with(database_url, "sqlite:") {
        Ok(BackendKind::Sqlite)
    } else if starts_with(database_url, "postgres://") || starts_with(database_url, "postgresql://") {
        Ok(BackendKind::Postgres)
    } else {
        Err(GovernanceError::DatabaseError(String::from_str("Unsupported database URL format for production. Use 'sqlite://' or 'postgresql://'")))
    }
}

} // verus!
