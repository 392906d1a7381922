use lau_tile_store::{
    StorableTile, StoreConfig, StoreError, TileQuery, TileStatus, TileType,
};

fn make_tile(tt: TileType, content: &str) -> StorableTile {
    StorableTile::new(tt, content)
}

// ─── TileType tests ───

#[test]
fn tile_type_roundtrip() {
    for tt in TileType::all() {
        assert_eq!(TileType::parse(tt.as_str()), Some(tt));
    }
}

#[test]
fn tile_type_unknown() {
    assert_eq!(TileType::parse("bogus"), None);
}

#[test]
fn tile_type_display() {
    assert_eq!(TileType::Action.to_string(), "action");
}

#[test]
fn tile_type_all_count() {
    assert_eq!(TileType::all().len(), 9);
}

// ─── TileStatus tests ───

#[test]
fn status_roundtrip() {
    for s in &[
        TileStatus::Active,
        TileStatus::Complete,
        TileStatus::Deadband,
        TileStatus::Escalated,
        TileStatus::Archived,
        TileStatus::Orphaned,
    ] {
        assert_eq!(TileStatus::parse(s.as_str()), Some(*s));
    }
}

#[test]
fn status_terminal() {
    assert!(TileStatus::Complete.is_terminal());
    assert!(TileStatus::Archived.is_terminal());
    assert!(TileStatus::Orphaned.is_terminal());
    assert!(!TileStatus::Active.is_terminal());
    assert!(!TileStatus::Escalated.is_terminal());
}

#[test]
fn status_display() {
    assert_eq!(TileStatus::Active.to_string(), "active");
}

#[test]
fn status_default() {
    assert_eq!(TileStatus::default(), TileStatus::Active);
}

// ─── StorableTile tests ───

#[test]
fn tile_new_defaults() {
    let t = make_tile(TileType::Observation, "saw something");
    assert!(!t.id.is_empty());
    assert_eq!(t.tile_type, TileType::Observation);
    assert_eq!(t.content, "saw something");
    assert_eq!(t.status, TileStatus::Active);
    assert_eq!(t.tokens_used, 0);
    assert!(t.room_id.is_none());
    assert!(t.parent_id.is_none());
}

#[test]
fn tile_builder_pattern() {
    let t = StorableTile::new(TileType::Thought, "hmm")
        .with_room("r1")
        .with_parent("p1")
        .with_metadata("key", "val");
    assert_eq!(t.room_id.as_deref(), Some("r1"));
    assert_eq!(t.parent_id.as_deref(), Some("p1"));
    assert_eq!(t.metadata.get("key").map(|s| s.as_str()), Some("val"));
}

#[test]
fn tile_child() {
    let parent = make_tile(TileType::Observation, "parent");
    let child = parent.child(TileType::Action, "child");
    assert_eq!(child.parent_id.as_deref(), Some(parent.id.as_str()));
}

#[test]
fn tile_complete() {
    let mut t = make_tile(TileType::Action, "do it");
    t.complete();
    assert_eq!(t.status, TileStatus::Complete);
}

#[test]
fn tile_archive() {
    let mut t = make_tile(TileType::Action, "do it");
    t.archive();
    assert_eq!(t.status, TileStatus::Archived);
}

#[test]
fn tile_escalate() {
    let mut t = make_tile(TileType::Action, "do it");
    t.escalate();
    assert_eq!(t.status, TileStatus::Escalated);
}

#[test]
fn tile_age_seconds() {
    let t = make_tile(TileType::Observation, "now");
    assert!(t.age_seconds() >= 0);
    assert!(t.age_seconds() < 5);
}

#[test]
fn tile_metadata_json_roundtrip() {
    let mut t = make_tile(TileType::System, "sys");
    t.metadata.insert("foo".into(), "bar".into());
    let json = t.metadata_json();
    let parsed = StorableTile::metadata_from_json(&json);
    assert_eq!(parsed.get("foo").map(|s| s.as_str()), Some("bar"));
}

// ─── StoreConfig tests ───

#[test]
fn config_default() {
    let c = StoreConfig::default();
    assert!(c.wal_mode);
    assert_eq!(c.busy_timeout_ms, 5000);
}

#[test]
fn config_high_performance() {
    let c = StoreConfig::high_performance();
    assert!(c.wal_mode);
    assert_eq!(c.busy_timeout_ms, 10000);
    assert!(c.journal_size_limit.is_some());
    assert!(c.cache_size.is_some());
}

#[test]
fn config_minimal() {
    let c = StoreConfig::minimal();
    assert!(!c.wal_mode);
    assert_eq!(c.busy_timeout_ms, 1000);
}

// ─── Error type tests ───

#[test]
fn error_display() {
    let e = StoreError::NotFound("x".into());
    assert!(e.to_string().contains("not found"));
    let e = StoreError::OpenFailed("x".into());
    assert!(e.to_string().contains("open failed"));
    let e = StoreError::QueryFailed("x".into());
    assert!(e.to_string().contains("query failed"));
    let e = StoreError::InvalidData("x".into());
    assert!(e.to_string().contains("invalid data"));
    let e = StoreError::IoError("x".into());
    assert!(e.to_string().contains("io error"));
}

// ─── Query builder tests ───

#[test]
fn query_builder_chaining() {
    let q = TileQuery::new()
        .in_room("r")
        .of_type(TileType::Action)
        .with_status(TileStatus::Active)
        .since(0)
        .until(9999)
        .limit(10)
        .offset(5)
        .containing("hello")
        .newest_first();
    assert_eq!(q.room_id.as_deref(), Some("r"));
    assert_eq!(q.tile_type, Some(TileType::Action));
    assert_eq!(q.status, Some(TileStatus::Active));
    assert_eq!(q.since, Some(0));
    assert_eq!(q.until, Some(9999));
    assert_eq!(q.limit, Some(10));
    assert_eq!(q.offset, Some(5));
    assert_eq!(q.content_contains.as_deref(), Some("hello"));
}
