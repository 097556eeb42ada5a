# argus

An in-memory temporal graph engine that detects cyclic money flows
("smurfing") in streams of ISO 20022 `pacs.008` wire transfers, written in
Verus with its contracts proved.

- `src/graph.rs`: the flat, array-backed temporal graph; each account's
  transfers are a window of one edge array.
- `src/engine.rs`: depth-first search for temporal cycles (strictly
  increasing timestamps, a time window, a hop limit); the result is proved
  to be exactly "such a cycle exists".
- `src/xml.rs`, `src/ingestion.rs`: zero-copy `pacs.008` parsing on top of
  `quick_xml`, hashing of identifiers, and the `crossbeam` queue between the
  parsing and the analysis thread.
- `src/monitor.rs`: the per-transfer step of the analysis thread.
- `app/main.rs`: the two-thread benchmark; amounts are decoded to floating
  point there, and carried as IEEE-754 bit patterns inside the library.
