//! Database statistics.

use vstd::prelude::*;

use crate::text_map::TextMap;

verus! {

/// Database statistics.
#[derive(Debug, Clone)]
pub struct StoreStats {
    pub total_tiles: u64,
    pub total_rooms: u64,
    pub by_type: TextMap<u64>,
    pub by_status: TextMap<u64>,
    pub db_size_bytes: u64,
    pub oldest_tile: Option<i64>,
    pub newest_tile: Option<i64>,
}

/// The map that a list of (name, count) rows describes, a later row for a
/// name replacing an earlier one.
pub open spec fn counts_map(rows: Seq<(String, u64)>) -> Map<Seq<char>, u64>
    decreases rows.len(),
{
    if rows.len() == 0 {
        Map::empty()
    } else {
        counts_map(rows.drop_last()).insert(rows.last().0@, rows.last().1)
    }
}

/// The size in bytes that a page-count query reports, or zero when the
/// query gave nothing; a negative report wraps as an unsigned number.
pub open spec fn size_from_report(page_bytes: Option<i64>) -> u64 {
    match page_bytes {
        Some(b) => b as u64,
        None => 0,
    }
}

fn counts_from_rows(rows: Vec<(String, u64)>) -> (res: TextMap<u64>)
    ensures
        res@ == counts_map(rows@),
{
    let mut res: TextMap<u64> = TextMap::new();
    let n = rows.len();
    let mut i: usize = 0;
    proof {
        assert(counts_map(rows@.take(0)) =~= Map::<Seq<char>, u64>::empty());
    }
    while i < n
        invariant
            n == rows@.len(),
            i <= n,
            res@ == counts_map(rows@.take(i as int)),
        decreases n - i,
    {
        let name: String = rows[i].0.clone();
        let count: u64 = rows[i].1;
        proof {
            assert(rows@.take((i + 1) as int).drop_last() =~= rows@.take(i as int));
        }
        res.insert(name, count);
        i = i + 1;
    }
    assert(rows@.take(n as int) =~= rows@);
    res
}

impl StoreStats {
    /// The statistics made from the answers of the store's aggregate
    /// queries: the totals, the per-type and per-status count rows, the
    /// reported size in bytes (if the size query answered), and the oldest
    /// and newest creation times (if there are tiles).
    pub fn from_parts(
        total_tiles: u64,
        total_rooms: u64,
        type_rows: Vec<(String, u64)>,
        status_rows: Vec<(String, u64)>,
        page_bytes: Option<i64>,
        oldest_tile: Option<i64>,
        newest_tile: Option<i64>,
    ) -> (res: StoreStats)
        ensures
            res.total_tiles == total_tiles,
            res.total_rooms == total_rooms,
            res.by_type@ == counts_map(type_rows@),
            res.by_status@ == counts_map(status_rows@),
            res.db_size_bytes == size_from_report(page_bytes),
            res.oldest_tile == oldest_tile,
            res.newest_tile == newest_tile,
    {
        let db_size_bytes: u64 = match page_bytes {
            Some(b) => b as u64,
            None => 0,
        };
        StoreStats {
            total_tiles,
            total_rooms,
            by_type: counts_from_rows(type_rows),
            by_status: counts_from_rows(status_rows),
            db_size_bytes,
            oldest_tile,
            newest_tile,
        }
    }
}

} // verus!
