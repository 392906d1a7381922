//! What the store computes around its database: the statements it runs, the
//! row a tile is stored as and read back from, and the walks up and down a
//! tile tree, which ask for one tile or one set of children at a time.

use vstd::prelude::*;

use crate::error::StoreError;
use crate::json::{json_object_map, json_object_text, text_values};
use crate::text_map::TextMap;
use crate::query::{is_unfiltered, holds_text, TileQuery};
use crate::tile::{opt_text, StorableTile, TileView};
use crate::types::{
    status_from_name, status_name, tile_type_from_name, tile_type_name, TileStatus, TileType,
};

verus! {

/// The statement that stores a tile, replacing a stored tile with the same
/// id; its eighteen placeholders take the columns of a [`TileRow`] in order.
pub const UPSERT_TILE_SQL: &'static str = "INSERT OR REPLACE INTO tiles
             (id, room_id, tile_type, parent_id, status, content, content_type,
              deadband_lower, deadband_upper, deadband_current, deadband_trend,
              ensign_id, model_used, tokens_used, conservation_delta, metadata,
              created_at, updated_at)
             VALUES (?1,?2,?3,?4,?5,?6,?7,?8,?9,?10,?11,?12,?13,?14,?15,?16,?17,?18)";

/// The statement that reads the tile with a given id.
pub const SELECT_TILE_SQL: &'static str = "SELECT * FROM tiles WHERE id = ?1";

/// The statement that deletes the tile with a given id.
pub const DELETE_TILE_SQL: &'static str = "DELETE FROM tiles WHERE id = ?1";

/// The statement that counts every tile.
pub const COUNT_TILES_SQL: &'static str = "SELECT COUNT(*) FROM tiles";

/// The statement that counts the distinct rooms that tiles are in.
pub const COUNT_ROOMS_SQL: &'static str = "SELECT COUNT(DISTINCT room_id) FROM tiles WHERE room_id IS NOT NULL";

/// The statement that counts the tiles of each type.
pub const COUNT_BY_TYPE_SQL: &'static str = "SELECT tile_type, COUNT(*) FROM tiles GROUP BY tile_type";

/// The statement that counts the tiles in each status.
pub const COUNT_BY_STATUS_SQL: &'static str = "SELECT status, COUNT(*) FROM tiles GROUP BY status";

/// The statement that reads the earliest creation time.
pub const OLDEST_TILE_SQL: &'static str = "SELECT MIN(created_at) FROM tiles";

/// The statement that reads the latest creation time.
pub const NEWEST_TILE_SQL: &'static str = "SELECT MAX(created_at) FROM tiles";

/// The statement that reads the size of the database in bytes.
pub const DB_SIZE_SQL: &'static str = "SELECT page_count * page_size FROM pragma_page_count(), pragma_page_size";

/// The statement that reclaims unused space.
pub const VACUUM_SQL: &'static str = "VACUUM";

/// The path that names a database held in memory rather than in a file.
pub const MEMORY_PATH: &'static str = ":memory:";

/// The columns of a stored tile, as plain values in table order. The type
/// and status are stored by name, the metadata as JSON text, and the real
/// columns as IEEE-754 bit patterns.
#[derive(Debug, Clone)]
pub struct TileRow {
    pub id: String,
    pub room_id: Option<String>,
    pub tile_type: String,
    pub parent_id: Option<String>,
    pub status: String,
    pub content: String,
    pub content_type: Option<String>,
    pub deadband_lower: Option<u64>,
    pub deadband_upper: Option<u64>,
    pub deadband_current: Option<u64>,
    pub deadband_trend: Option<String>,
    pub ensign_id: Option<String>,
    pub model_used: Option<String>,
    pub tokens_used: u32,
    pub conservation_delta: u64,
    pub metadata: String,
    pub created_at: i64,
    pub updated_at: i64,
}

/// What a row holds, with text taken as its characters.
pub struct TileRowView {
    pub id: Seq<char>,
    pub room_id: Option<Seq<char>>,
    pub tile_type: Seq<char>,
    pub parent_id: Option<Seq<char>>,
    pub status: Seq<char>,
    pub content: Seq<char>,
    pub content_type: Option<Seq<char>>,
    pub deadband_lower: Option<u64>,
    pub deadband_upper: Option<u64>,
    pub deadband_current: Option<u64>,
    pub deadband_trend: Option<Seq<char>>,
    pub ensign_id: Option<Seq<char>>,
    pub model_used: Option<Seq<char>>,
    pub tokens_used: u32,
    pub conservation_delta: u64,
    pub metadata: Seq<char>,
    pub created_at: i64,
    pub updated_at: i64,
}

impl View for TileRow {
    type V = TileRowView;

    open spec fn view(&self) -> TileRowView {
        TileRowView {
            id: self.id@,
            room_id: opt_text(self.room_id),
            tile_type: self.tile_type@,
            parent_id: opt_text(self.parent_id),
            status: self.status@,
            content: self.content@,
            content_type: opt_text(self.content_type),
            deadband_lower: self.deadband_lower,
            deadband_upper: self.deadband_upper,
            deadband_current: self.deadband_current,
            deadband_trend: opt_text(self.deadband_trend),
            ensign_id: opt_text(self.ensign_id),
            model_used: opt_text(self.model_used),
            tokens_used: self.tokens_used,
            conservation_delta: self.conservation_delta,
            metadata: self.metadata@,
            created_at: self.created_at,
            updated_at: self.updated_at,
        }
    }
}

/// The row a tile is stored as.
pub open spec fn tile_row(t: TileView) -> TileRowView {
    TileRowView {
        id: t.id,
        room_id: t.room_id,
        tile_type: tile_type_name(t.tile_type),
        parent_id: t.parent_id,
        status: status_name(t.status),
        content: t.content,
        content_type: t.content_type,
        deadband_lower: t.deadband_lower,
        deadband_upper: t.deadband_upper,
        deadband_current: t.deadband_current,
        deadband_trend: t.deadband_trend,
        ensign_id: t.ensign_id,
        model_used: t.model_used,
        tokens_used: t.tokens_used,
        conservation_delta: t.conservation_delta,
        metadata: json_object_text(t.metadata),
        created_at: t.created_at,
        updated_at: t.updated_at,
    }
}

/// The tile a row is read as, given the metadata map read from its JSON
/// text, or the message of the invalid-data error that it gives: an unknown
/// type name is reported before an unknown status name.
pub open spec fn row_tile_with(r: TileRowView, metadata: Map<Seq<char>, Seq<char>>) -> Result<TileView, Seq<char>> {
    match tile_type_from_name(r.tile_type) {
        None => Err("unknown tile type: "@ + r.tile_type),
        Some(tile_type) => match status_from_name(r.status) {
            None => Err("unknown status: "@ + r.status),
            Some(status) => Ok(
                TileView {
                    id: r.id,
                    room_id: r.room_id,
                    tile_type,
                    parent_id: r.parent_id,
                    status,
                    content: r.content,
                    content_type: r.content_type,
                    deadband_lower: r.deadband_lower,
                    deadband_upper: r.deadband_upper,
                    deadband_current: r.deadband_current,
                    deadband_trend: r.deadband_trend,
                    ensign_id: r.ensign_id,
                    model_used: r.model_used,
                    tokens_used: r.tokens_used,
                    conservation_delta: r.conservation_delta,
                    metadata,
                    created_at: r.created_at,
                    updated_at: r.updated_at,
                },
            ),
        },
    }
}

/// The tile a row is read as, or the message of the invalid-data error
/// that it gives; metadata that is not a JSON object of strings reads as
/// empty.
pub open spec fn row_tile(r: TileRowView) -> Result<TileView, Seq<char>> {
    row_tile_with(
        r,
        match json_object_map(r.metadata) {
            Some(m) => m,
            None => Map::empty(),
        },
    )
}

/// `res` is the outcome that `row_tile` describes.
pub open spec fn is_row_outcome(res: Result<StorableTile, StoreError>, expected: Result<TileView, Seq<char>>) -> bool {
    match expected {
        Ok(v) => res matches Ok(t) && t@ == v,
        Err(msg) => res matches Err(StoreError::InvalidData(m)) && m@ == msg,
    }
}

impl StorableTile {
    /// The row this tile is stored as.
    pub fn to_row(&self) -> (res: TileRow)
        ensures
            res@ == tile_row(self@),
            json_object_map(res@.metadata) == Some(self@.metadata),
            row_tile(res@) == Ok::<TileView, Seq<char>>(self@),
    {
        let res = TileRow {
            id: self.id.clone(),
            room_id: self.room_id.clone(),
            tile_type: String::from_str(self.tile_type.as_str()),
            parent_id: self.parent_id.clone(),
            status: String::from_str(self.status.as_str()),
            content: self.content.clone(),
            content_type: self.content_type.clone(),
            deadband_lower: self.deadband_lower,
            deadband_upper: self.deadband_upper,
            deadband_current: self.deadband_current,
            deadband_trend: self.deadband_trend.clone(),
            ensign_id: self.ensign_id.clone(),
            model_used: self.model_used.clone(),
            tokens_used: self.tokens_used,
            conservation_delta: self.conservation_delta,
            metadata: self.metadata_json(),
            created_at: self.created_at,
            updated_at: self.updated_at,
        };
        proof {
            law_row_roundtrip(self@, res@);
        }
        res
    }
}

/// Read a stored row as a tile: the type and status by name, the metadata
/// from its JSON text.
pub fn row_to_tile(row: TileRow) -> (res: Result<StorableTile, StoreError>)
    ensures
        is_row_outcome(res, row_tile(row@)),
{
    let metadata = StorableTile::metadata_from_json(row.metadata.as_str());
    tile_from_row(row, metadata)
}

/// Read a stored row as a tile, with the metadata already read from the
/// row's JSON text: the type and status by name, the other columns as
/// they are.
pub fn tile_from_row(row: TileRow, metadata: TextMap<String>) -> (res: Result<StorableTile, StoreError>)
    ensures
        is_row_outcome(res, row_tile_with(row@, text_values(metadata@))),
{
    let tile_type = match TileType::parse(row.tile_type.as_str()) {
        Some(t) => t,
        None => {
            return Err(
                StoreError::InvalidData(
                    String::from_str("unknown tile type: ").concat(row.tile_type.as_str()),
                ),
            );
        },
    };
    let status = match TileStatus::parse(row.status.as_str()) {
        Some(s) => s,
        None => {
            return Err(
                StoreError::InvalidData(
                    String::from_str("unknown status: ").concat(row.status.as_str()),
                ),
            );
        },
    };
    Ok(
        StorableTile {
            id: row.id,
            room_id: row.room_id,
            tile_type,
            parent_id: row.parent_id,
            status,
            content: row.content,
            content_type: row.content_type,
            deadband_lower: row.deadband_lower,
            deadband_upper: row.deadband_upper,
            deadband_current: row.deadband_current,
            deadband_trend: row.deadband_trend,
            ensign_id: row.ensign_id,
            model_used: row.model_used,
            tokens_used: row.tokens_used,
            conservation_delta: row.conservation_delta,
            metadata,
            created_at: row.created_at,
            updated_at: row.updated_at,
        },
    )
}

/// A tile read back from the row it is stored as is the tile that was
/// stored: every field, metadata included, comes back unchanged, given
/// that `serde_json` reads back the metadata text it wrote (which
/// `StorableTile::to_row` guarantees of the row it makes).
pub proof fn law_row_roundtrip(t: TileView, r: TileRowView)
    requires
        r == tile_row(t),
        json_object_map(r.metadata) == Some(t.metadata),
    ensures
        row_tile(r) == Ok::<TileView, Seq<char>>(t),
{
    crate::types::law_tile_type_name_roundtrip(t.tile_type, r.tile_type);
    crate::types::law_status_name_roundtrip(t.status, r.status);
}

/// The outcome of deleting the tile `id`, given how many rows the delete
/// statement removed: not found when it removed none.
pub fn delete_outcome(id: &str, changes: usize) -> (res: Result<(), StoreError>)
    ensures
        changes == 0 ==> (res matches Err(StoreError::NotFound(m)) && m@ == id@),
        changes != 0 ==> res is Ok,
{
    if changes == 0 {
        return Err(StoreError::NotFound(String::from_str(id)));
    }
    Ok(())
}

/// Whether a path names a database held in memory, which has no parent
/// directory to create.
pub fn is_memory_path(path: &str) -> (res: bool)
    ensures
        res == (path@ == MEMORY_PATH@),
{
    crate::text::same_text(path, MEMORY_PATH)
}

/// The query for the direct children of a tile: every tile whose parent
/// is `parent_id`, newest first.
pub fn children_query(parent_id: &str) -> (res: TileQuery)
    ensures
        holds_text(res.parent_id, parent_id@),
        is_unfiltered(TileQuery { parent_id: None, ..res }),
{
    TileQuery::new().with_parent(parent_id)
}

/// The query for at most `limit` tiles in a room.
pub fn room_query(room_id: &str, limit: usize) -> (res: TileQuery)
    ensures
        holds_text(res.room_id, room_id@),
        res.limit == Some(limit),
        is_unfiltered(TileQuery { room_id: None, limit: None, ..res }),
{
    TileQuery::new().in_room(room_id).limit(limit)
}

/// The query for the `limit` most recently created tiles.
pub fn recent_query(limit: usize) -> (res: TileQuery)
    ensures
        res.limit == Some(limit),
        is_unfiltered(TileQuery { limit: None, ..res }),
{
    TileQuery::new().limit(limit)
}

/// A tile's row holds each field in the column of the same name (the type
/// and status by their stored names, the metadata as its JSON text), and a
/// row that reads as a tile gives each column back to the field of the
/// same name.
pub proof fn law_row_columns(t: TileView, r: TileRowView, m: Map<Seq<char>, Seq<char>>)
    ensures
        tile_row(t).id == t.id,
        tile_row(t).room_id == t.room_id,
        tile_row(t).tile_type == tile_type_name(t.tile_type),
        tile_row(t).parent_id == t.parent_id,
        tile_row(t).status == status_name(t.status),
        tile_row(t).content == t.content,
        tile_row(t).content_type == t.content_type,
        tile_row(t).deadband_lower == t.deadband_lower,
        tile_row(t).deadband_upper == t.deadband_upper,
        tile_row(t).deadband_current == t.deadband_current,
        tile_row(t).deadband_trend == t.deadband_trend,
        tile_row(t).ensign_id == t.ensign_id,
        tile_row(t).model_used == t.model_used,
        tile_row(t).tokens_used == t.tokens_used,
        tile_row(t).conservation_delta == t.conservation_delta,
        tile_row(t).metadata == json_object_text(t.metadata),
        tile_row(t).created_at == t.created_at,
        tile_row(t).updated_at == t.updated_at,
        row_tile_with(r, m) matches Ok(v) ==> {
            &&& v.id == r.id
            &&& v.room_id == r.room_id
            &&& tile_type_name(v.tile_type) == r.tile_type
            &&& v.parent_id == r.parent_id
            &&& status_name(v.status) == r.status
            &&& v.content == r.content
            &&& v.content_type == r.content_type
            &&& v.deadband_lower == r.deadband_lower
            &&& v.deadband_upper == r.deadband_upper
            &&& v.deadband_current == r.deadband_current
            &&& v.deadband_trend == r.deadband_trend
            &&& v.ensign_id == r.ensign_id
            &&& v.model_used == r.model_used
            &&& v.tokens_used == r.tokens_used
            &&& v.conservation_delta == r.conservation_delta
            &&& v.metadata == m
            &&& v.created_at == r.created_at
            &&& v.updated_at == r.updated_at
        },
{
    if let Ok(v) = row_tile_with(r, m) {
        crate::types::law_tile_type_name_roundtrip(v.tile_type, r.tile_type);
        crate::types::law_status_name_roundtrip(v.status, r.status);
    }
}

} // verus!
