# tilegrabber

The logic of a map-tile downloader, written in Verus. The functions in
`src/` carry `requires`/`ensures` contracts that Verus proves, apart from a
small set of trusted functions (marked `#[verifier::external_body]`) that
call std or an outside crate and whose contracts state what that call does;
those contracts are believed, not proved.

What the library covers:

- **Tile sources** — parsers for `.lrc` (XML with Lua URL scripts), `.lra`
  (gzip + JSON/XML), `.ovmap` (binary) files, WMTS capabilities documents,
  TMS/XYZ URL templates and tile URLs captured from web pages
  (`lrc`, `lua`, `lra`, `ovmap`, `wmts`, `web_capture`, `types`).
- **Download areas** — KML, KMZ and GeoJSON area files: which rings are
  outer polygon rings, the GeoJSON geometry walk, closing-point and
  minimum-size rules, kept as coordinate texts (`area_file`, over the JSON
  lookups of `json_doc`).
- **Downloading** — tile counting and listing (`tile_grid`), tile URLs and
  retries (`worker`), the adaptive throttle and spatial ordering
  (`throttle`), time windows and rate limits (`rules`), the decisions of a
  task's run (`download_plan`), the clipping queue (`clip_queue`), the
  GCJ-02 re-alignment plan (`gcj02_plan`), pre-flight checks
  (`task_checks`), the network monitor (`network_monitor`) and the
  engine's register of running tasks (`engine_registry`).
- **Exports and imports** — MBTiles/PMTiles/directory plans, vector-layer
  metadata, MBTiles row numbering, PMTiles tile order (`export_plan`),
  GeoTIFF strip layout (`geotiff_plan`), the task file written on export
  and read back on import (`task_archive`), export job records
  (`export_jobs`), the storage report (`storage_report`).
- **Serving** — request counters, WMTS/WMS request routing, OGC tile
  matrix limits, server status (`server`), remote-client registry and tokens (`remote`), URL checks for
  the tile proxy (`url_check`), settings (`settings`), update checks
  (`updater`).

Underneath: string and number handling with specifications (`text`),
byte search (`bytes`), zlib/gzip (`compress`), XML events (`xml_cursor`,
`xml`), vector
tile layer names (`mvt_scan`), URL and version rules (`urls`) and a stable
sort by key (`stable_sort`).

Outside crates are reached through a few trusted functions whose contracts
state what each call does (flate2, encoding_rs, quick-xml, roxmltree,
serde_json, url, zip, pmtiles, rand, chrono).

`app/` is a small command-line front end (file reading, floating-point
projection math and area bounds, JSON output); `tests/` runs the library on concrete inputs.
