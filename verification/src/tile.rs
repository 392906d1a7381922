//! A tile as it is stored: identity, hierarchy, metadata and lifecycle.

use vstd::prelude::*;

use crate::json::{decode_text_map, encode_text_map, json_object_map, json_object_text, text_values};
use crate::text_map::TextMap;
use crate::types::{TileStatus, TileType};

verus! {

/// A tile as it is stored. The real-valued deadband and conservation
/// fields hold the IEEE-754 bit patterns of their values.
#[derive(Debug, Clone)]
pub struct StorableTile {
    pub id: String,
    pub room_id: Option<String>,
    pub tile_type: TileType,
    pub parent_id: Option<String>,
    pub status: TileStatus,
    pub content: String,
    pub content_type: Option<String>,
    pub deadband_lower: Option<u64>,
    pub deadband_upper: Option<u64>,
    pub deadband_current: Option<u64>,
    pub deadband_trend: Option<String>,
    pub ensign_id: Option<String>,
    pub model_used: Option<String>,
    pub tokens_used: u32,
    pub conservation_delta: u64,
    pub metadata: TextMap<String>,
    pub created_at: i64,
    pub updated_at: i64,
}

/// What a tile holds, with text taken as its characters.
pub struct TileView {
    pub id: Seq<char>,
    pub room_id: Option<Seq<char>>,
    pub tile_type: TileType,
    pub parent_id: Option<Seq<char>>,
    pub status: TileStatus,
    pub content: Seq<char>,
    pub content_type: Option<Seq<char>>,
    pub deadband_lower: Option<u64>,
    pub deadband_upper: Option<u64>,
    pub deadband_current: Option<u64>,
    pub deadband_trend: Option<Seq<char>>,
    pub ensign_id: Option<Seq<char>>,
    pub model_used: Option<Seq<char>>,
    pub tokens_used: u32,
    pub conservation_delta: u64,
    pub metadata: Map<Seq<char>, Seq<char>>,
    pub created_at: i64,
    pub updated_at: i64,
}

/// The characters of an optional string.
pub open spec fn opt_text(o: Option<String>) -> Option<Seq<char>> {
    match o {
        Some(s) => Some(s@),
        None => None,
    }
}

impl View for StorableTile {
    type V = TileView;

    open spec fn view(&self) -> TileView {
        TileView {
            id: self.id@,
            room_id: opt_text(self.room_id),
            tile_type: self.tile_type,
            parent_id: opt_text(self.parent_id),
            status: self.status,
            content: self.content@,
            content_type: opt_text(self.content_type),
            deadband_lower: self.deadband_lower,
            deadband_upper: self.deadband_upper,
            deadband_current: self.deadband_current,
            deadband_trend: opt_text(self.deadband_trend),
            ensign_id: opt_text(self.ensign_id),
            model_used: opt_text(self.model_used),
            tokens_used: self.tokens_used,
            conservation_delta: self.conservation_delta,
            metadata: text_values(self.metadata@),
            created_at: self.created_at,
            updated_at: self.updated_at,
        }
    }
}

/// A fresh tile: active, with no room, parent, optional fields, tokens,
/// delta or metadata, created and updated at `now`.
pub open spec fn fresh_tile(id: Seq<char>, tile_type: TileType, content: Seq<char>, now: i64) -> TileView {
    TileView {
        id,
        room_id: None,
        tile_type,
        parent_id: None,
        status: TileStatus::Active,
        content,
        content_type: None,
        deadband_lower: None,
        deadband_upper: None,
        deadband_current: None,
        deadband_trend: None,
        ensign_id: None,
        model_used: None,
        tokens_used: 0,
        conservation_delta: 0,
        metadata: Map::empty(),
        created_at: now,
        updated_at: now,
    }
}

/// A lowercase hexadecimal digit.
pub open spec fn is_lower_hex(c: char) -> bool {
    ('0' <= c <= '9') || ('a' <= c <= 'f')
}

/// The hyphenated lowercase text of a random (version 4, RFC 4122 variant)
/// UUID: 36 characters, hyphens at 8, 13, 18 and 23, a `4` at 14, one of
/// `8`, `9`, `a`, `b` at 19, and hexadecimal digits elsewhere.
pub open spec fn is_random_uuid_text(s: Seq<char>) -> bool {
    &&& s.len() == 36
    &&& forall|i: int|
        0 <= i < 36 ==> (if i == 8 || i == 13 || i == 18 || i == 23 {
            #[trigger] s[i] == '-'
        } else {
            is_lower_hex(s[i])
        })
    &&& s[14] == '4'
    &&& (s[19] == '8' || s[19] == '9' || s[19] == 'a' || s[19] == 'b')
}

/// The age at time `now` of a tile created at `created`, held within the
/// range of an `i64`.
pub open spec fn age_between(created: i64, now: i64) -> i64 {
    clamp_i64(now - created)
}

/// `x` held within the range of an `i64`.
pub open spec fn clamp_i64(x: int) -> i64 {
    if x > i64::MAX {
        i64::MAX
    } else if x < i64::MIN {
        i64::MIN
    } else {
        x as i64
    }
}

/// Calls `uuid::Uuid::new_v4` and renders the identifier with its
/// `Display` impl, which writes the hyphenated lowercase form. The contract
/// claims the shape of that text; which identifier comes out rests on
/// chance and is not stated.
#[verifier::external_body]
fn fresh_tile_id() -> (res: String)
    ensures
        is_random_uuid_text(res@),
{
    uuid::Uuid::new_v4().to_string()
}

/// Reads the system clock through `SystemTime::elapsed` on the Unix epoch
/// and gives the whole seconds since then, or `None` when the clock reads
/// earlier than the epoch. The reading rests on the time and is not stated.
#[verifier::external_body]
fn clock_seconds() -> (res: Option<u64>) {
    match std::time::UNIX_EPOCH.elapsed() {
        Ok(elapsed) => Some(elapsed.as_secs()),
        Err(_) => None,
    }
}

/// The current time as a Unix timestamp in seconds; zero when the clock
/// reads earlier than the Unix epoch.
pub fn now_ts() -> (res: i64) {
    match clock_seconds() {
        Some(secs) => secs as i64,
        None => 0,
    }
}

/// The JSON object text of a metadata map; `{}` should writing it fail.
pub fn metadata_text(metadata: &TextMap<String>) -> (res: String)
    ensures
        res@ == json_object_text(text_values(metadata@)),
        json_object_map(res@) == Some(text_values(metadata@)),
{
    match encode_text_map(metadata) {
        Some(text) => text,
        None => String::from_str("{}"),
    }
}

/// The metadata map that a JSON text holds, or `None` when it does not hold
/// a JSON object of string values.
pub fn parse_metadata(json: &str) -> (res: Option<TextMap<String>>)
    ensures
        match res {
            Some(m) => json_object_map(json@) == Some(text_values(m@)),
            None => json_object_map(json@) is None,
        },
{
    decode_text_map(json)
}

impl StorableTile {
    /// A fresh tile with the given identifier and creation time.
    pub fn with_identity(id: String, tile_type: TileType, content: &str, now: i64) -> (res: StorableTile)
        ensures
            res@ == fresh_tile(id@, tile_type, content@, now),
    {
        let res = StorableTile {
            id,
            room_id: None,
            tile_type,
            parent_id: None,
            status: TileStatus::Active,
            content: String::from_str(content),
            content_type: None,
            deadband_lower: None,
            deadband_upper: None,
            deadband_current: None,
            deadband_trend: None,
            ensign_id: None,
            model_used: None,
            tokens_used: 0,
            conservation_delta: 0,
            metadata: TextMap::new(),
            created_at: now,
            updated_at: now,
        };
        assert(res@.metadata =~= Map::<Seq<char>, Seq<char>>::empty());
        res
    }

    /// Create a new tile with an auto-generated ID.
    pub fn new(tile_type: TileType, content: &str) -> (res: StorableTile)
        ensures
            res@ == fresh_tile(res@.id, tile_type, content@, res@.created_at),
            is_random_uuid_text(res@.id),
    {
        let now = now_ts();
        StorableTile::with_identity(fresh_tile_id(), tile_type, content, now)
    }

    pub fn with_room(self, room: &str) -> (res: StorableTile)
        ensures
            res@ == (TileView { room_id: Some(room@), ..self@ }),
    {
        let mut t = self;
        t.room_id = Some(String::from_str(room));
        t
    }

    pub fn with_parent(self, parent: &str) -> (res: StorableTile)
        ensures
            res@ == (TileView { parent_id: Some(parent@), ..self@ }),
    {
        let mut t = self;
        t.parent_id = Some(String::from_str(parent));
        t
    }

    pub fn with_metadata(self, key: &str, val: &str) -> (res: StorableTile)
        ensures
            res@ == (TileView { metadata: self@.metadata.insert(key@, val@), ..self@ }),
    {
        let mut t = self;
        t.metadata.insert(String::from_str(key), String::from_str(val));
        assert(text_values(t.metadata@) =~= text_values(self.metadata@).insert(key@, val@));
        t
    }

    /// Create a child tile linked to this one as parent, in the same room
    /// (the room with an empty name when this tile has none).
    pub fn child(&self, tile_type: TileType, content: &str) -> (res: StorableTile)
        ensures
            res@ == (TileView {
                parent_id: Some(self@.id),
                room_id: Some(
                    match self@.room_id {
                        Some(r) => r,
                        None => Seq::empty(),
                    },
                ),
                ..fresh_tile(res@.id, tile_type, content@, res@.created_at)
            }),
            is_random_uuid_text(res@.id),
    {
        let room: &str = match &self.room_id {
            Some(r) => r.as_str(),
            None => "",
        };
        proof {
            reveal_strlit("");
            assert(""@ =~= Seq::<char>::empty());
        }
        let fresh = StorableTile::new(tile_type, content);
        let res = fresh.with_parent(self.id.as_str()).with_room(room);
        assert(room@ == match self@.room_id {
            Some(r) => r,
            None => Seq::<char>::empty(),
        });
        res
    }

    pub fn complete(&mut self)
        ensures
            final(self)@ == (TileView {
                status: TileStatus::Complete,
                updated_at: final(self)@.updated_at,
                ..old(self)@
            }),
    {
        self.status = TileStatus::Complete;
        self.updated_at = now_ts();
    }

    pub fn archive(&mut self)
        ensures
            final(self)@ == (TileView {
                status: TileStatus::Archived,
                updated_at: final(self)@.updated_at,
                ..old(self)@
            }),
    {
        self.status = TileStatus::Archived;
        self.updated_at = now_ts();
    }

    pub fn escalate(&mut self)
        ensures
            final(self)@ == (TileView {
                status: TileStatus::Escalated,
                updated_at: final(self)@.updated_at,
                ..old(self)@
            }),
    {
        self.status = TileStatus::Escalated;
        self.updated_at = now_ts();
    }

    /// Age in seconds at time `now`. Where the difference does not fit in
    /// an `i64` it is held at the nearest bound.
    pub fn age_at(&self, now: i64) -> (res: i64)
        ensures
            res == clamp_i64(now - self.created_at),
    {
        match now.checked_sub(self.created_at) {
            Some(age) => age,
            None => {
                if now >= 0 {
                    i64::MAX
                } else {
                    i64::MIN
                }
            },
        }
    }

    /// Age in seconds since creation, by the system clock: `age_at` of the
    /// clock's reading.
    pub fn age_seconds(&self) -> (res: i64)
        ensures
            exists|now: i64| res == #[trigger] age_between(self.created_at, now),
    {
        let now = now_ts();
        let age = self.age_at(now);
        assert(age == age_between(self.created_at, now));
        age
    }

    /// Serialize metadata to JSON string for SQLite storage.
    pub fn metadata_json(&self) -> (res: String)
        ensures
            res@ == json_object_text(self@.metadata),
            json_object_map(res@) == Some(self@.metadata),
    {
        metadata_text(&self.metadata)
    }

    /// Deserialize metadata from JSON string: the map it holds, or an empty
    /// map when it does not hold a JSON object of string values.
    pub fn metadata_from_json(json: &str) -> (res: TextMap<String>)
        ensures
            text_values(res@) == match json_object_map(json@) {
                Some(m) => m,
                None => Map::empty(),
            },
    {
        match parse_metadata(json) {
            Some(m) => m,
            None => {
                let empty: TextMap<String> = TextMap::new();
                assert(text_values(empty@) =~= Map::<Seq<char>, Seq<char>>::empty());
                empty
            },
        }
    }
}

} // verus!
