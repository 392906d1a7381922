# lau_tile_store

Durable storage for tiles, the typed data records of agent systems, with
the store's logic verified in Verus.

- `src/` is the verified library: tile types and statuses with their stored
  names, the tile record and its builders, a text-keyed map for metadata and
  counts, the filter builder and the SQL text and parameters it selects with,
  the configuration pragmas, the row a tile is stored as and read back from,
  the walks up and down a tile tree, and the statistics record.
- `app/` holds the SQLite store itself: it opens the database, runs the
  statements the library computes, reads rows into the library's row type,
  drives the tree walks, and moves tiles in and out as JSON.
- `tests/` runs the library on concrete values.
