//! Tile persistence layer: the typed tiles of an agent system, the filters
//! that select them, and the SQL text and row encoding through which a
//! store keeps them, each with its contract.

pub mod config;
pub mod error;
pub mod json;
pub mod query;
pub mod stats;
pub mod store;
pub mod text;
pub mod text_map;
pub mod tile;
pub mod types;
pub mod walk;

pub use config::StoreConfig;
pub use error::StoreError;
pub use query::{QueryOrder, SqlValue, TileQuery};
pub use stats::StoreStats;
pub use store::{row_to_tile, TileRow};
pub use text_map::TextMap;
pub use tile::{now_ts, StorableTile};
pub use types::{TileStatus, TileType};
pub use walk::{AncestorWalk, DescendantWalk};
