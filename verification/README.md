# ingot_core

The verified core of a RAW+JPEG photo ingestion and triage engine.

- `src/` is the library, checked by Verus:
  - `asset.rs`: file kinds, asset keys, the non-empty file set of an asset
    (a kind is never recorded twice), the asset record.
  - `scan.rs`, `store.rs`: pairing the paths of a directory walk into assets
    keyed by directory and lowercased stem, with collisions and walk errors
    kept as data; the laws of that pairing; the asset store and the records
    the preview stage writes into it.
  - `metadata.rs`: reading capture time, IFD1 thumbnail and the location of
    the full-size embedded preview out of a parsed EXIF container; the bounds
    check of a preview strip; enrichment of the assets from file heads.
  - `route.rs`, `datetime.rs`: capture dates and the
    `root/<year>/<year-month-day>/<file name>` destination of a file.
  - `engine.rs`, `preview.rs`: engine policy, the preview work of each asset
    and where its JPEG bytes come from, and the choice of a decoding scale.
  - `path.rs`: the path components the standard library computes.
- `app/` runs the directory walk, the file reads, the JPEG decode, resize and
  encode, and the worker threads.
- `tests/` exercises the library on temporary directory trees and on
  hand-built EXIF containers.
