use revit_projects::{
    AppPaths, CACHE_SUBDIR, MAXIMUM_VERSION, MINIMUM_VERSION, scanned_versions,
    version_folder_name,
};

#[test]
fn version_folder_name_appends_the_year() {
    assert_eq!(version_folder_name(2024), "Autodesk Revit 2024");
    assert_eq!(version_folder_name(2018), "Autodesk Revit 2018");
}

#[test]
fn version_folder_name_of_small_numbers() {
    assert_eq!(version_folder_name(0), "Autodesk Revit 0");
    assert_eq!(version_folder_name(7), "Autodesk Revit 7");
    assert_eq!(version_folder_name(10), "Autodesk Revit 10");
    assert_eq!(version_folder_name(65535), "Autodesk Revit 65535");
}

#[test]
fn scanned_versions_cover_the_closed_range_in_order() {
    let v = scanned_versions();
    assert_eq!(v.len(), 21);
    assert_eq!(v[0], MINIMUM_VERSION);
    assert_eq!(v[20], MAXIMUM_VERSION);
    assert_eq!(v, (2018u16..=2038).collect::<Vec<u16>>());
}

#[test]
fn version_components_name_the_cache_directory() {
    let paths = AppPaths::new("C:/Data/Autodesk/Revit".to_string());
    assert_eq!(paths.root(), "C:/Data/Autodesk/Revit");
    let parts = paths.version_components(2025);
    assert_eq!(parts, vec!["Autodesk Revit 2025".to_string(), CACHE_SUBDIR.to_string()]);
    assert_eq!(CACHE_SUBDIR, "CollaborationCache");
}
