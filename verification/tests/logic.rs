use std::collections::HashMap;

use lau_tile_store::config::TILE_SCHEMA;
use lau_tile_store::store::{
    children_query, delete_outcome, is_memory_path, recent_query, room_query,
};
use lau_tile_store::text::{decimal_text, signed_decimal_text, same_text};
use lau_tile_store::tile::{metadata_text, parse_metadata};
use lau_tile_store::{
    row_to_tile, AncestorWalk, DescendantWalk, QueryOrder, SqlValue, StorableTile, StoreConfig,
    StoreError, StoreStats, TextMap, TileQuery, TileStatus, TileType,
};

fn make_tile(tt: TileType, content: &str) -> StorableTile {
    StorableTile::new(tt, content)
}

fn text_of(v: &SqlValue) -> Option<&str> {
    match v {
        SqlValue::Text(s) => Some(s.as_str()),
        _ => None,
    }
}

/// A stand-in for the tile table: tiles by id, in insertion order.
struct FakeTable {
    tiles: Vec<StorableTile>,
}

impl FakeTable {
    fn get(&self, id: &str) -> Option<StorableTile> {
        self.tiles.iter().find(|t| t.id == id).cloned()
    }
    fn children(&self, pid: &str) -> Vec<StorableTile> {
        self.tiles.iter().filter(|t| t.parent_id.as_deref() == Some(pid)).cloned().collect()
    }
    fn ancestors(&self, id: &str) -> Vec<StorableTile> {
        let mut walk = AncestorWalk::start(id);
        while let Some(next) = walk.next_id.clone() {
            walk.step(self.get(&next));
        }
        walk.found
    }
    fn descendants(&self, id: &str) -> Vec<StorableTile> {
        let mut walk = DescendantWalk::start(id);
        while let Some(pid) = walk.next_parent() {
            let kids = self.children(&pid);
            walk.record_children(kids);
        }
        walk.found
    }
}

// ─── Hierarchy walks against a stand-in table ───

#[test]
fn ancestor_walk_chain() {
    let grandparent = make_tile(TileType::Observation, "gp");
    let parent = grandparent.child(TileType::Thought, "p");
    let child = parent.child(TileType::Action, "c");
    let table = FakeTable { tiles: vec![grandparent, parent.clone(), child.clone()] };
    let anc = table.ancestors(&child.id);
    assert_eq!(anc.len(), 2);
    assert_eq!(anc[0].id, child.id);
    assert_eq!(anc[1].id, parent.id);
}

#[test]
fn ancestor_walk_no_parent() {
    let t = make_tile(TileType::System, "root");
    let table = FakeTable { tiles: vec![t.clone()] };
    let anc = table.ancestors(&t.id);
    assert!(anc.is_empty());
}

#[test]
fn ancestors_of_missing_tile_is_empty() {
    let table = FakeTable { tiles: vec![] };
    assert!(table.ancestors("nope").is_empty());
}

#[test]
fn descendant_walk_tree() {
    let root = make_tile(TileType::Thought, "root");
    let c1 = root.child(TileType::Action, "c1");
    let c2 = root.child(TileType::Action, "c2");
    let gc1 = c1.child(TileType::Artifact, "gc1");
    let table = FakeTable { tiles: vec![root.clone(), c1.clone(), c2.clone(), gc1.clone()] };
    let desc = table.descendants(&root.id);
    assert_eq!(desc.len(), 3);
    // children of the root first, then the grandchild found under c1
    assert_eq!(desc[0].id, c1.id);
    assert_eq!(desc[1].id, c2.id);
    assert_eq!(desc[2].id, gc1.id);
}

#[test]
fn descendant_walk_steps() {
    let mut walk = DescendantWalk::start("root");
    assert_eq!(walk.next_parent().as_deref(), Some("root"));
    let a = make_tile(TileType::Action, "a").with_parent("root");
    let b = make_tile(TileType::Action, "b").with_parent("root");
    walk.record_children(vec![a.clone(), b.clone()]);
    assert_eq!(walk.stack, vec![a.id.clone(), b.id.clone()]);
    assert_eq!(walk.found.len(), 2);
    assert_eq!(walk.next_parent(), Some(b.id.clone()));
    walk.record_children(vec![]);
    assert_eq!(walk.next_parent(), Some(a.id.clone()));
    assert_eq!(walk.next_parent(), None);
}

#[test]
fn ancestor_walk_stops_at_root_tile() {
    let mut walk = AncestorWalk::start("x");
    let root = make_tile(TileType::System, "root");
    walk.step(Some(root));
    assert!(walk.next_id.is_none());
    assert!(walk.found.is_empty());
}

// ─── Statements ───

#[test]
fn where_clause_empty_without_filters() {
    let (w, params) = TileQuery::new().to_sql();
    assert_eq!(w, "");
    assert!(params.is_empty());
}

#[test]
fn where_clause_all_filters() {
    let mut q = TileQuery::new()
        .in_room("r")
        .of_type(TileType::StandDown)
        .with_status(TileStatus::Deadband)
        .with_parent("p")
        .since(10)
        .until(-20)
        .containing("hi")
        .ensign_id("e")
        .model("m");
    q.limit = Some(3);
    let (w, params) = q.to_sql();
    assert_eq!(
        w,
        "WHERE room_id = ? AND tile_type = ? AND status = ? AND ensign_id = ? AND parent_id = ? \
         AND model_used = ? AND created_at >= ? AND created_at <= ? AND content LIKE ?"
    );
    assert_eq!(params.len(), 9);
    assert_eq!(text_of(&params[0]), Some("r"));
    assert_eq!(text_of(&params[1]), Some("stand_down"));
    assert_eq!(text_of(&params[2]), Some("deadband"));
    assert_eq!(text_of(&params[3]), Some("e"));
    assert_eq!(text_of(&params[4]), Some("p"));
    assert_eq!(text_of(&params[5]), Some("m"));
    assert!(matches!(params[6], SqlValue::Integer(10)));
    assert!(matches!(params[7], SqlValue::Integer(-20)));
    assert_eq!(text_of(&params[8]), Some("%hi%"));
}

#[test]
fn select_statement_text() {
    let q = TileQuery::new().of_type(TileType::Action).limit(2).offset(3).oldest_first();
    let (sql, params) = q.select_statement();
    assert_eq!(sql, "SELECT * FROM tiles WHERE tile_type = ? ORDER BY created_at ASC LIMIT 2 OFFSET 3");
    assert_eq!(params.len(), 1);
    let (sql, params) = TileQuery::new().select_statement();
    assert_eq!(sql, "SELECT * FROM tiles  ORDER BY created_at DESC  ");
    assert!(params.is_empty());
    let (sql, _) = TileQuery::new().offset(4).select_statement();
    assert_eq!(sql, "SELECT * FROM tiles  ORDER BY created_at DESC LIMIT -1 OFFSET 4");
    let (sql, _) = TileQuery::new().recent_update().select_statement();
    assert_eq!(sql, "SELECT * FROM tiles  ORDER BY updated_at DESC  ");
}

#[test]
fn count_statement_text() {
    let (sql, params) = TileQuery::new().in_room("x").count_statement();
    assert_eq!(sql, "SELECT COUNT(*) FROM tiles WHERE room_id = ?");
    assert_eq!(text_of(&params[0]), Some("x"));
}

#[test]
fn order_sql_per_order() {
    assert_eq!(TileQuery::new().order_sql(), "ORDER BY created_at DESC");
    assert_eq!(TileQuery::new().oldest_first().order_sql(), "ORDER BY created_at ASC");
    assert_eq!(TileQuery::new().recent_update().order_sql(), "ORDER BY updated_at DESC");
    assert_eq!(QueryOrder::default(), QueryOrder::NewestFirst);
}

#[test]
fn preset_queries() {
    let q = children_query("p");
    assert_eq!(q.parent_id.as_deref(), Some("p"));
    assert_eq!(q.limit, None);
    assert_eq!(q.offset, None);
    let q = room_query("r1", 3);
    assert_eq!(q.room_id.as_deref(), Some("r1"));
    assert_eq!(q.limit, Some(3));
    let q = recent_query(7);
    assert_eq!(q.limit, Some(7));
    assert!(q.room_id.is_none());
}

#[test]
fn setup_statements_per_config() {
    let s = StoreConfig::default().setup_statements();
    assert_eq!(s, vec![
        "PRAGMA journal_mode=WAL;".to_string(),
        "PRAGMA busy_timeout=5000;".to_string(),
        TILE_SCHEMA.to_string(),
    ]);
    let s = StoreConfig::high_performance().setup_statements();
    assert_eq!(s, vec![
        "PRAGMA journal_mode=WAL;".to_string(),
        "PRAGMA busy_timeout=10000;".to_string(),
        "PRAGMA journal_size_limit=104857600;".to_string(),
        "PRAGMA cache_size=-8192;".to_string(),
        TILE_SCHEMA.to_string(),
    ]);
    let s = StoreConfig::minimal().setup_statements();
    assert_eq!(s, vec![
        "PRAGMA busy_timeout=1000;".to_string(),
        "PRAGMA journal_size_limit=5242880;".to_string(),
        TILE_SCHEMA.to_string(),
    ]);
}

#[test]
fn config_presets_exact() {
    let c = StoreConfig::high_performance();
    assert_eq!(c.journal_size_limit, Some(100 * 1024 * 1024));
    assert_eq!(c.cache_size, Some(-8192));
    let c = StoreConfig::minimal();
    assert_eq!(c.journal_size_limit, Some(5 * 1024 * 1024));
    assert_eq!(c.cache_size, None);
}

#[test]
fn decimal_texts() {
    assert_eq!(decimal_text(0), "0");
    assert_eq!(decimal_text(7), "7");
    assert_eq!(decimal_text(1234567890), "1234567890");
    assert_eq!(decimal_text(u64::MAX), u64::MAX.to_string());
    assert_eq!(signed_decimal_text(-8192), "-8192");
    assert_eq!(signed_decimal_text(i64::MIN), i64::MIN.to_string());
    assert_eq!(signed_decimal_text(42), "42");
    assert!(same_text("abc", "abc"));
    assert!(!same_text("abc", "abd"));
}

#[test]
fn memory_path() {
    assert!(is_memory_path(":memory:"));
    assert!(!is_memory_path("tiles.db"));
}

#[test]
fn delete_outcomes() {
    match delete_outcome("nope", 0) {
        Err(StoreError::NotFound(id)) => assert_eq!(id, "nope"),
        other => panic!("unexpected {:?}", other),
    }
    assert!(delete_outcome("x", 1).is_ok());
}

#[test]
fn delete_outcome_nonexistent() {
    assert!(delete_outcome("nope", 0).is_err());
}

// ─── Row encoding ───

#[test]
fn row_roundtrip_all_fields() {
    let mut t = StorableTile::new(TileType::Observation, "full tile")
        .with_room("r1")
        .with_parent("p1")
        .with_metadata("env", "prod")
        .with_metadata("k\"q", "line\nbreak");
    t.content_type = Some("text/plain".into());
    t.deadband_lower = Some(10.0f64.to_bits());
    t.deadband_upper = Some(20.0f64.to_bits());
    t.deadband_current = Some(15.0f64.to_bits());
    t.deadband_trend = Some("rising".into());
    t.ensign_id = Some("ens1".into());
    t.model_used = Some("gpt-4".into());
    t.tokens_used = 42;
    t.conservation_delta = 0.5f64.to_bits();
    t.complete();
    let row = t.to_row();
    assert_eq!(row.tile_type, "observation");
    assert_eq!(row.status, "complete");
    let got = row_to_tile(row).unwrap();
    assert_eq!(got.id, t.id);
    assert_eq!(got.room_id, t.room_id);
    assert_eq!(got.parent_id, t.parent_id);
    assert_eq!(got.status, TileStatus::Complete);
    assert_eq!(got.content_type.as_deref(), Some("text/plain"));
    assert_eq!(got.deadband_lower.map(f64::from_bits), Some(10.0));
    assert_eq!(got.deadband_upper.map(f64::from_bits), Some(20.0));
    assert_eq!(got.deadband_current.map(f64::from_bits), Some(15.0));
    assert_eq!(got.deadband_trend.as_deref(), Some("rising"));
    assert_eq!(got.ensign_id.as_deref(), Some("ens1"));
    assert_eq!(got.model_used.as_deref(), Some("gpt-4"));
    assert_eq!(got.tokens_used, 42);
    assert_eq!(f64::from_bits(got.conservation_delta), 0.5);
    assert_eq!(got.metadata.get("env").map(|s| s.as_str()), Some("prod"));
    assert_eq!(got.metadata.get("k\"q").map(|s| s.as_str()), Some("line\nbreak"));
    assert_eq!(got.metadata.len(), 2);
    assert_eq!(got.created_at, t.created_at);
    assert_eq!(got.updated_at, t.updated_at);
}

#[test]
fn row_with_unknown_names() {
    let t = make_tile(TileType::Action, "x");
    let mut row = t.to_row();
    row.tile_type = "bogus".into();
    row.status = "nah".into();
    match row_to_tile(row.clone()) {
        Err(StoreError::InvalidData(m)) => assert_eq!(m, "unknown tile type: bogus"),
        other => panic!("unexpected {:?}", other),
    }
    row.tile_type = "action".into();
    match row_to_tile(row.clone()) {
        Err(StoreError::InvalidData(m)) => assert_eq!(m, "unknown status: nah"),
        other => panic!("unexpected {:?}", other),
    }
    row.status = "orphaned".into();
    row.metadata = "not json".into();
    let got = row_to_tile(row).unwrap();
    assert_eq!(got.status, TileStatus::Orphaned);
    assert_eq!(got.metadata.len(), 0);
}

// ─── Metadata and maps ───

#[test]
fn metadata_json_text() {
    let t = make_tile(TileType::System, "sys").with_metadata("b", "2").with_metadata("a", "1");
    assert_eq!(t.metadata_json(), "{\"a\":\"1\",\"b\":\"2\"}");
    assert_eq!(make_tile(TileType::System, "e").metadata_json(), "{}");
    let empty: TextMap<String> = TextMap::new();
    assert_eq!(metadata_text(&empty), "{}");
}

#[test]
fn metadata_from_bad_json_is_empty() {
    assert_eq!(StorableTile::metadata_from_json("not json").len(), 0);
    assert_eq!(StorableTile::metadata_from_json("{\"a\": 1}").len(), 0);
    assert!(parse_metadata("[1,2]").is_none());
    let m = parse_metadata("{\"a\":\"x\",\"a\":\"y\"}").unwrap();
    assert_eq!(m.get("a").map(|s| s.as_str()), Some("y"));
}

#[test]
fn text_map_insert_replaces() {
    let mut m: TextMap<u64> = TextMap::new();
    assert_eq!(m.insert("a".into(), 1), None);
    assert_eq!(m.insert("b".into(), 2), None);
    assert_eq!(m.insert("a".into(), 3), Some(1));
    assert_eq!(m.len(), 2);
    assert_eq!(m.get("a"), Some(&3));
    assert_eq!(m.get("b"), Some(&2));
    assert_eq!(m.get("c"), None);
    let c = m.clone();
    assert_eq!(c.get("a"), Some(&3));
    assert_eq!(c.len(), 2);
}

#[test]
fn with_metadata_overwrites() {
    let t = make_tile(TileType::System, "s").with_metadata("k", "v1").with_metadata("k", "v2");
    assert_eq!(t.metadata.get("k").map(|s| s.as_str()), Some("v2"));
    assert_eq!(t.metadata.len(), 1);
}

// ─── Tiles ───

#[test]
fn tile_id_is_hyphenated_uuid() {
    let t = make_tile(TileType::Observation, "x");
    let id: Vec<char> = t.id.chars().collect();
    assert_eq!(id.len(), 36);
    for (i, c) in id.iter().enumerate() {
        if [8, 13, 18, 23].contains(&i) {
            assert_eq!(*c, '-');
        } else {
            assert!(c.is_ascii_hexdigit() && !c.is_ascii_uppercase());
        }
    }
    assert_eq!(id[14], '4');
    assert!("89ab".contains(id[19]));
    assert_ne!(t.id, make_tile(TileType::Observation, "x").id);
    assert_eq!(t.created_at, t.updated_at);
}

#[test]
fn tile_child_of_roomless_parent() {
    let parent = make_tile(TileType::Observation, "parent");
    let child = parent.child(TileType::Action, "child");
    assert_eq!(child.room_id.as_deref(), Some(""));
    let parent = parent.with_room("bridge");
    let child = parent.child(TileType::Action, "child");
    assert_eq!(child.room_id.as_deref(), Some("bridge"));
    assert_eq!(child.tile_type, TileType::Action);
    assert_eq!(child.content, "child");
    assert_ne!(child.id, parent.id);
}

#[test]
fn tile_with_identity_and_age() {
    let t = StorableTile::with_identity("id-1".into(), TileType::Artifact, "art", 100);
    assert_eq!(t.id, "id-1");
    assert_eq!(t.created_at, 100);
    assert_eq!(t.updated_at, 100);
    assert_eq!(t.age_at(160), 60);
    assert_eq!(t.age_at(40), -60);
}

// ─── Stats and errors ───

#[test]
fn stats_from_parts() {
    let s = StoreStats::from_parts(
        3,
        2,
        vec![("observation".into(), 1), ("action".into(), 2)],
        vec![("complete".into(), 1), ("active".into(), 2)],
        Some(4096),
        Some(100),
        Some(200),
    );
    assert_eq!(s.total_tiles, 3);
    assert_eq!(s.total_rooms, 2);
    assert_eq!(s.by_type.get("observation"), Some(&1));
    assert_eq!(s.by_type.get("action"), Some(&2));
    assert_eq!(s.by_status.get("complete"), Some(&1));
    assert_eq!(s.db_size_bytes, 4096);
    assert_eq!(s.oldest_tile, Some(100));
    assert_eq!(s.newest_tile, Some(200));
    let e = StoreStats::from_parts(0, 0, vec![], vec![], None, None, None);
    assert_eq!(e.db_size_bytes, 0);
    assert_eq!(e.by_type.len(), 0);
    assert!(e.oldest_tile.is_none());
}

#[test]
fn error_texts_exact() {
    assert_eq!(StoreError::NotFound("x".into()).to_string(), "not found: x");
    assert_eq!(StoreError::OpenFailed("y".into()).to_string(), "open failed: y");
    assert_eq!(StoreError::QueryFailed("z".into()).to_string(), "query failed: z");
    assert_eq!(StoreError::InvalidData("w".into()).to_string(), "invalid data: w");
    assert_eq!(StoreError::IoError("v".into()).to_string(), "io error: v");
}

#[test]
fn names_are_distinct_and_parse_back() {
    let names: Vec<&str> = TileType::all().iter().map(|t| t.as_str()).collect();
    let mut seen = HashMap::new();
    for n in &names {
        assert!(seen.insert(*n, ()).is_none());
    }
    assert_eq!(TileType::StandDown.as_str(), "stand_down");
    assert_eq!(TileStatus::parse("orphaned"), Some(TileStatus::Orphaned));
    assert_eq!(TileStatus::parse("Active"), None);
}

#[test]
fn tile_age_saturates() {
    let old = StorableTile::with_identity("a".into(), TileType::System, "s", -10);
    assert_eq!(old.age_at(i64::MAX), i64::MAX);
    let future = StorableTile::with_identity("b".into(), TileType::System, "s", 10);
    assert_eq!(future.age_at(i64::MIN), i64::MIN);
    assert_eq!(future.age_at(i64::MIN + 10), i64::MIN);
}
