//! Store configuration and the statements that apply it when a store opens.

use vstd::prelude::*;

use crate::text::{decimal, decimal_text, signed_decimal, signed_decimal_text};

verus! {

/// Store configuration.
#[derive(Debug, Clone)]
pub struct StoreConfig {
    pub wal_mode: bool,
    pub busy_timeout_ms: u32,
    pub journal_size_limit: Option<u64>,
    pub cache_size: Option<i64>,
}

/// The table and indexes that every store holds; created when absent.
pub const TILE_SCHEMA: &'static str = "
CREATE TABLE IF NOT EXISTS tiles (
    id TEXT PRIMARY KEY,
    room_id TEXT,
    tile_type TEXT NOT NULL,
    parent_id TEXT,
    status TEXT NOT NULL DEFAULT 'active',
    content TEXT NOT NULL,
    content_type TEXT,
    deadband_lower REAL, deadband_upper REAL, deadband_current REAL,
    deadband_trend TEXT,
    ensign_id TEXT,
    model_used TEXT,
    tokens_used INTEGER NOT NULL DEFAULT 0,
    conservation_delta REAL NOT NULL DEFAULT 0.0,
    metadata TEXT,
    created_at INTEGER NOT NULL,
    updated_at INTEGER NOT NULL
);
CREATE INDEX IF NOT EXISTS idx_tiles_room ON tiles(room_id);
CREATE INDEX IF NOT EXISTS idx_tiles_type ON tiles(tile_type);
CREATE INDEX IF NOT EXISTS idx_tiles_status ON tiles(status);
CREATE INDEX IF NOT EXISTS idx_tiles_parent ON tiles(parent_id);
CREATE INDEX IF NOT EXISTS idx_tiles_ensign ON tiles(ensign_id);
CREATE INDEX IF NOT EXISTS idx_tiles_created ON tiles(created_at);
CREATE INDEX IF NOT EXISTS idx_tiles_model ON tiles(model_used);

CREATE TABLE IF NOT EXISTS tile_meta (
    key TEXT PRIMARY KEY,
    value TEXT NOT NULL
);
";

/// The pragma statements that apply a configuration, in the order in which
/// they run: the journal mode (when WAL is on), the busy timeout, then the
/// journal size limit and the cache size when they are set.
pub open spec fn pragma_script(c: StoreConfig) -> Seq<Seq<char>> {
    (if c.wal_mode {
        seq!["PRAGMA journal_mode=WAL;"@]
    } else {
        Seq::<Seq<char>>::empty()
    }) + seq!["PRAGMA busy_timeout="@ + decimal(c.busy_timeout_ms as nat) + ";"@] + (match c.journal_size_limit {
        Some(limit) => seq!["PRAGMA journal_size_limit="@ + decimal(limit as nat) + ";"@],
        None => Seq::<Seq<char>>::empty(),
    }) + (match c.cache_size {
        Some(cache) => seq!["PRAGMA cache_size="@ + signed_decimal(cache as int) + ";"@],
        None => Seq::<Seq<char>>::empty(),
    })
}

/// The text of each string in a list.
pub open spec fn texts(v: Seq<String>) -> Seq<Seq<char>> {
    v.map_values(|s: String| s@)
}

fn pragma(prefix: &str, value: String) -> (res: String)
    ensures
        res@ == prefix@ + value@ + ";"@,
{
    String::from_str(prefix).concat(value.as_str()).concat(";")
}

impl Default for StoreConfig {
    fn default() -> (res: StoreConfig)
        ensures
            res.wal_mode,
            res.busy_timeout_ms == 5000,
            res.journal_size_limit.is_none(),
            res.cache_size.is_none(),
    {
        StoreConfig { wal_mode: true, busy_timeout_ms: 5000, journal_size_limit: None, cache_size: None }
    }
}

impl StoreConfig {
    pub fn high_performance() -> (res: StoreConfig)
        ensures
            res.wal_mode,
            res.busy_timeout_ms == 10000,
            res.journal_size_limit == Some(104857600u64),
            res.cache_size == Some(-8192i64),
    {
        StoreConfig {
            wal_mode: true,
            busy_timeout_ms: 10000,
            journal_size_limit: Some(100 * 1024 * 1024),  // 100MB
            cache_size: Some(-8192),
        }
    }

    pub fn minimal() -> (res: StoreConfig)
        ensures
            !res.wal_mode,
            res.busy_timeout_ms == 1000,
            res.journal_size_limit == Some(5242880u64),
            res.cache_size.is_none(),
    {
        StoreConfig {
            wal_mode: false,
            busy_timeout_ms: 1000,
            journal_size_limit: Some(5 * 1024 * 1024),  // 5MB
            cache_size: None,
        }
    }

    /// The statements that open a store with this configuration, in order:
    /// the pragmas, then the schema.
    pub fn setup_statements(&self) -> (res: Vec<String>)
        ensures
            texts(res@) == pragma_script(*self).push(TILE_SCHEMA@),
    {
        let mut out: Vec<String> = Vec::new();
        if self.wal_mode {
            out.push(String::from_str("PRAGMA journal_mode=WAL;"));
        }
        out.push(pragma("PRAGMA busy_timeout=", decimal_text(self.busy_timeout_ms as u64)));
        match self.journal_size_limit {
            Some(limit) => {
                out.push(pragma("PRAGMA journal_size_limit=", decimal_text(limit)));
            },
            None => {},
        }
        match self.cache_size {
            Some(cache) => {
                out.push(pragma("PRAGMA cache_size=", signed_decimal_text(cache)));
            },
            None => {},
        }
        out.push(String::from_str(TILE_SCHEMA));
        assert(texts(out@) =~= pragma_script(*self).push(TILE_SCHEMA@));
        out
    }
}

} // verus!
