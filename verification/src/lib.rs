//! Tile source parsing, tile enumeration helpers and download policy for a
//! map-tile downloader, with their behaviour stated as Verus contracts.

pub mod text;
pub mod types;
pub mod web_capture;
pub mod bytes;
pub mod compress;
pub mod ovmap;
pub mod mvt_scan;
pub mod lua;
pub mod json_doc;
pub mod xml_cursor;
pub mod xml;
pub mod lrc;
pub mod lra;
pub mod wmts;
pub mod tile_grid;
pub mod throttle;
pub mod rules;
pub mod remote;
pub mod settings;
pub mod task_status;
pub mod server;
pub mod urls;
pub mod download_plan;
pub mod worker;
pub mod task_checks;
pub mod url_check;
pub mod updater;
pub mod export_plan;
pub mod stable_sort;
pub mod clip_queue;
pub mod gcj02_plan;
pub mod network_monitor;
pub mod geotiff_plan;
pub mod engine_registry;
pub mod storage_report;
pub mod export_jobs;
pub mod task_archive;
pub mod area_file;
