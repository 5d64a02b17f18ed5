//! Discovery, summary and lifecycle management of the project folders that a
//! CAD collaboration tool keeps in its per-version cache directories.
//!
//! The library does no I/O itself. The host walks the version folders and
//! hands over what it saw; `list_projects` turns that into summaries and
//! refills the `ProjectCache`, through which later operations resolve an
//! identifier to the exact path that the scan found.
mod cache;
mod layout;
mod scan;
mod tally;

pub use cache::{
    ProjectCache, only_one_take_succeeds, pairs_map, pairs_view,
    replaced_table_holds_only_new_pairs, taken_identifier_is_gone,
};
pub use layout::{
    AppPaths, CACHE_SUBDIR, MAXIMUM_VERSION, MINIMUM_VERSION, PRODUCT_PREFIX, decimal,
    scanned_versions, version_folder_name, version_folder_spec, versions_spec,
};
pub use scan::{
    ProjectFolder, ProjectFolderView, ProjectSummary, ProjectSummaryView, ScanResult,
    VersionFolder, VersionFolderView, folders_view, list_projects, reportable, rescan_keeps_summaries, scan,
    scan_spec, summaries_view, summarize_project, summary_locations, summary_spec,
    version_summaries,
};
pub use tally::{
    DAY_NANOS, Stamp, Tally, WalkEntry, age_in_days, age_is_monotone, age_spec, entry_size,
    entry_stamp, newest_stamp, newest_stamp_is_latest, size_sum, tally_entries,
};
