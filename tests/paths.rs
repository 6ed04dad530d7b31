use cursor_reset::paths::{candidate_paths, get_package_path, Platform};

#[test]
fn mac_candidates_in_priority_order() {
    let c = candidate_paths(Platform::MacLayout, "/Users/ann");
    assert_eq!(
        c,
        vec![
            "/Users/ann/Library/Application Support/Cursor/User/globalStorage/storage.json".to_string(),
            "/Users/ann/Applications/Cursor.app/Contents/Resources/storage.json".to_string(),
            "/Users/ann/Library/Application Support/Cursor/storage.json".to_string(),
            "/Applications/Cursor.app/Contents/Resources/storage.json".to_string(),
        ]
    );
}

#[test]
fn windows_candidates_use_backslash() {
    let c = candidate_paths(Platform::WindowsLayout, "C:\\Users\\ann");
    assert_eq!(c.len(), 3);
    assert_eq!(
        c[0],
        "C:\\Users\\ann\\AppData\\Roaming\\Cursor\\User\\globalStorage\\storage.json"
    );
    assert_eq!(c[2], "C:\\Users\\ann\\AppData\\cursor\\resources\\app\\package.json");
}

#[test]
fn no_home_means_no_candidate() {
    assert!(candidate_paths(Platform::MacLayout, "").is_empty());
    assert_eq!(get_package_path(Platform::MacLayout, "", &vec![true, true, true, true]), "");
}

#[test]
fn first_existing_candidate_wins() {
    let p = get_package_path(Platform::MacLayout, "/Users/ann", &vec![false, true, true, true]);
    assert_eq!(p, "/Users/ann/Applications/Cursor.app/Contents/Resources/storage.json");
    let q = get_package_path(Platform::MacLayout, "/Users/ann", &vec![true, true]);
    assert_eq!(q, "/Users/ann/Library/Application Support/Cursor/User/globalStorage/storage.json");
}

#[test]
fn system_path_is_the_fallback() {
    let p = get_package_path(Platform::MacLayout, "/Users/ann", &vec![false, false, false, true]);
    assert_eq!(p, "/Applications/Cursor.app/Contents/Resources/storage.json");
}

#[test]
fn nothing_existing_gives_empty_path() {
    assert_eq!(get_package_path(Platform::WindowsLayout, "C:\\Users\\ann", &vec![false, false, false]), "");
    assert_eq!(get_package_path(Platform::WindowsLayout, "C:\\Users\\ann", &vec![]), "");
}
