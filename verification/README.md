# nft_aggregator

Indexing of NFT marketplace activity on Aptos, written in Verus: every
function of the library carries a contract that Verus proves.

A marketplace is configured by the event types it emits and by JSON paths
that say where each column of the marketplace tables is read from, in the
event data or in the resources a transaction writes. A batch of
transactions goes through three steps:

1. remapping: each configured event becomes an activity and a current
   listing, token offer or collection offer; written resources give column
   updates keyed by resource address;
2. reduction: the updates fill the columns that the rows left empty (and the
   same columns of the matching activity), and the rows are reduced to the
   last one of each key;
3. writing: of each table, the last row of each primary key, sorted by that
   key.

## Layout

- `src/` — the verified library:
  - `config/` — marketplace configuration (event and resource remappings,
    table and column mappings, event mappings of the processor), standard
    event types and processor modes;
  - `models/` — transactions, event models and the four table rows;
  - `steps/` — JSON paths with fallbacks, the remapping, reduction, writing
    and status-saving steps;
  - `processors/` — the event-mapping processor and the helpers that read
    marketplace resources (offers, listings, object cores, token ids);
  - `utils/` — block timestamps, starting versions and status savers;
  - `json.rs`, `path_syntax.rs`, `text.rs`, `convert.rs`, `str_map.rs`,
    `keyed_rows.rs` — JSON values, the check that a JSON path can be
    evaluated to the end, text helpers, address standardization, an
    insertion-ordered string map and key-sorted deduplication.
- `tests/` — tests of the library on concrete values.
- `app/` — the code around the library: configuration files, JSON
  conversion and serde copies of the rows, and a batch run of the steps.

Outside crates are reached through small trusted wrappers whose contracts
name or state what the crate computes: `serde_json` (parsing),
`jsonpath_rust` (JSON paths), `chrono` (block times), `bigdecimal`
(decimal text), `sha2`, `sha3` and `hex` (token ids), `ahash` (map index).
