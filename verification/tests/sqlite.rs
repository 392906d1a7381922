use rusqlite::types::Value;
use rusqlite::{params_from_iter, Connection};

use lau_tile_store::store::{children_query, UPSERT_TILE_SQL};
use lau_tile_store::{SqlValue, StorableTile, StoreConfig, TileQuery, TileType};

fn bound(v: SqlValue) -> Value {
    match v {
        SqlValue::Null => Value::Null,
        SqlValue::Integer(i) => Value::Integer(i),
        SqlValue::Real(bits) => Value::Real(f64::from_bits(bits)),
        SqlValue::Text(s) => Value::Text(s),
    }
}

fn open() -> Connection {
    let db = Connection::open_in_memory().unwrap();
    for statement in StoreConfig::default().setup_statements() {
        db.execute_batch(&statement).unwrap();
    }
    db
}

fn put(db: &Connection, t: &StorableTile) {
    let r = t.to_row();
    let values: Vec<Value> = vec![
        Value::Text(r.id),
        r.room_id.map_or(Value::Null, Value::Text),
        Value::Text(r.tile_type),
        r.parent_id.map_or(Value::Null, Value::Text),
        Value::Text(r.status),
        Value::Text(r.content),
        r.content_type.map_or(Value::Null, Value::Text),
        r.deadband_lower.map_or(Value::Null, |b| Value::Real(f64::from_bits(b))),
        r.deadband_upper.map_or(Value::Null, |b| Value::Real(f64::from_bits(b))),
        r.deadband_current.map_or(Value::Null, |b| Value::Real(f64::from_bits(b))),
        r.deadband_trend.map_or(Value::Null, Value::Text),
        r.ensign_id.map_or(Value::Null, Value::Text),
        r.model_used.map_or(Value::Null, Value::Text),
        Value::Integer(r.tokens_used as i64),
        Value::Real(f64::from_bits(r.conservation_delta)),
        Value::Text(r.metadata),
        Value::Integer(r.created_at),
        Value::Integer(r.updated_at),
    ];
    db.execute(UPSERT_TILE_SQL, params_from_iter(values)).unwrap();
}

fn selected(db: &Connection, q: &TileQuery) -> usize {
    let (sql, params) = q.select_statement();
    let mut stmt = db.prepare(&sql).unwrap();
    let mut rows = stmt.query(params_from_iter(params.into_iter().map(bound))).unwrap();
    let mut n = 0;
    while rows.next().unwrap().is_some() {
        n += 1;
    }
    n
}

#[test]
fn offset_without_limit_skips() {
    let db = open();
    for i in 0..5 {
        put(&db, &StorableTile::new(TileType::System, &format!("t{i}")));
    }
    assert_eq!(selected(&db, &TileQuery::new().offset(3)), 2);
    assert_eq!(selected(&db, &TileQuery::new().offset(9)), 0);
    assert_eq!(selected(&db, &TileQuery::new().limit(2).offset(3)), 2);
}

#[test]
fn children_query_finds_every_child() {
    let db = open();
    let parent = StorableTile::new(TileType::Thought, "parent");
    put(&db, &parent);
    for i in 0..1005 {
        put(&db, &parent.child(TileType::Action, &format!("c{i}")));
    }
    assert_eq!(selected(&db, &children_query(&parent.id)), 1005);
}
