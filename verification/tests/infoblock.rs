//! The detailed-info parser: the two-state line machine, its key table,
//! its post-processing sentinels, and the install-location setters.

use pacpak::meta::FlatpakMeta;

fn store_with_one_app() -> FlatpakMeta {
    let mut meta = FlatpakMeta::default();
    meta.get_apps(String::from("org.app\tx86_64\tstable\tflathub\n"));
    meta
}

#[test]
fn name_description_and_fields_end_to_end() {
    let mut meta = store_with_one_app();
    meta.get_app_info_full(0, "Name - My App\n\nVersion: 1.0\nID: org.app\n");
    assert_eq!(meta.apps[0].name, "Name");
    assert_eq!(meta.apps[0].description, "My App");
    assert_eq!(meta.apps[0].version, "1.0");
    assert_eq!(meta.apps[0].id, "org.app");
}

#[test]
fn colon_line_inside_a_description_is_a_continuation() {
    // until a blank line ends the description, even a key-shaped line is
    // appended to it, and the field keeps its sentinel
    let mut meta = store_with_one_app();
    meta.get_app_info_full(0, "Name - My App\nVersion: 1.0\n\nID: org.app\n");
    assert_eq!(meta.apps[0].description, "My App\n\t\t  Version: 1.0");
    assert_eq!(meta.apps[0].version, "?");
    assert_eq!(meta.apps[0].id, "org.app");
}

#[test]
fn multiline_description_joins_continuations() {
    let mut meta = store_with_one_app();
    meta.get_app_info_full(
        0,
        "Name - first line\nsecond line\n  third line  \n\nID: org.app\n",
    );
    assert_eq!(
        meta.apps[0].description,
        "first line\n\t\t  second line\n\t\t  third line"
    );
    assert_eq!(meta.apps[0].name, "Name");
    assert_eq!(meta.apps[0].id, "org.app");
}

#[test]
fn description_is_terminated_by_the_blank_line() {
    let mut meta = store_with_one_app();
    meta.get_app_info_full(0, "Name - only\n\nSubject: after the blank\n");
    assert_eq!(meta.apps[0].description, "only");
    assert_eq!(meta.apps[0].subject, "after the blank");
}

#[test]
fn empty_version_becomes_question_mark() {
    let mut meta = store_with_one_app();
    meta.get_app_info_full(0, "Name - My App\nID: org.app\n");
    assert_eq!(meta.apps[0].version, "?");
    assert_eq!(meta.apps[0].license, "?");
}

#[test]
fn present_version_is_kept_verbatim() {
    let mut meta = store_with_one_app();
    meta.get_app_info_full(0, "Version: 2.4\nLicense: MIT\n");
    assert_eq!(meta.apps[0].version, "2.4");
    assert_eq!(meta.apps[0].license, "MIT");
}

#[test]
fn unsupplied_fields_carry_the_not_implemented_sentinel() {
    let mut meta = store_with_one_app();
    meta.get_app_info_full(0, "ID: org.app\n");
    assert_eq!(meta.apps[0].packager, "[not implemented]");
    assert_eq!(meta.apps[0].url, "[not implemented]");
    assert_eq!(meta.apps[0].provides, "[not implemented]");
}

#[test]
fn key_table_maps_known_keys() {
    let mut meta = store_with_one_app();
    meta.get_app_info_full(
        0,
        "ID: org.app\nArch: aarch64\nBranch: beta\nOrigin: fedora\nCollection: org.coll\nInstallation: user\nInstalled: 1.2 MB\nSdk: org.sdk\nCommit: abc123\nParent: def456\nSubject: a subject\nUnknown: ignored\n",
    );
    let a = &meta.apps[0];
    assert_eq!(a.id, "org.app");
    assert_eq!(a.arch, "aarch64");
    assert_eq!(a.branch, "beta");
    assert_eq!(a.origin, "fedora");
    assert_eq!(a.collection, "org.coll");
    assert_eq!(a.installation, "user");
    assert_eq!(a.install_size, "1.2 MB");
    assert_eq!(a.sdk, "org.sdk");
    assert_eq!(a.commit, "abc123");
    assert_eq!(a.parent, "def456");
    assert_eq!(a.subject, "a subject");
}

#[test]
fn runtime_extends_the_dependency_line() {
    let mut meta = store_with_one_app();
    meta.get_app_info_full(0, "Runtime: org.platform/x86_64/23.08\n");
    assert_eq!(meta.apps[0].runtime, "org.platform/x86_64/23.08");
    assert_eq!(meta.apps[0].depends, "flatpak org.platform/x86_64/23.08");
}

#[test]
fn empty_runtime_leaves_the_dependency_prefix() {
    let mut meta = store_with_one_app();
    meta.get_app_info_full(0, "Runtime:\n");
    assert_eq!(meta.apps[0].runtime, "");
    assert_eq!(meta.apps[0].depends, "flatpak ");
}

#[test]
fn build_date_is_reformatted_into_display_style() {
    let mut meta = store_with_one_app();
    meta.get_app_info_full(0, "Date: 2023-05-11 12:06:40 +0000\n");
    assert_eq!(meta.apps[0].build_date, "Thu 11 May 2023 12:06:40 PM +00:00");
}

#[test]
fn unparseable_date_is_kept_verbatim() {
    let mut meta = store_with_one_app();
    meta.get_app_info_full(0, "Date: yesterday at noon\n");
    assert_eq!(meta.apps[0].build_date, "yesterday at noon");
}

#[test]
fn extended_id_is_not_recomputed_by_the_info_parser() {
    let mut meta = store_with_one_app();
    meta.get_app_info_full(0, "Branch: beta\n");
    assert_eq!(meta.apps[0].branch, "beta");
    assert_eq!(meta.apps[0].extid, "org.app/x86_64/stable");
}

#[test]
fn dash_line_inside_a_description_is_a_continuation() {
    let mut meta = store_with_one_app();
    meta.get_app_info_full(0, "Name - real description\nnot - a second name\n");
    assert_eq!(meta.apps[0].name, "Name");
    assert_eq!(
        meta.apps[0].description,
        "real description\n\t\t  not - a second name"
    );
}

#[test]
fn dash_line_is_ignored_once_name_is_set() {
    let mut meta = store_with_one_app();
    meta.get_app_info_full(0, "Name - real\n\nother - thing\n");
    assert_eq!(meta.apps[0].name, "Name");
    assert_eq!(meta.apps[0].description, "real");
}

#[test]
fn get_location_trims_trailing_whitespace() {
    let mut meta = store_with_one_app();
    meta.get_location(0, "/var/lib/flatpak/app/org.app\n");
    assert_eq!(meta.apps[0].location, "/var/lib/flatpak/app/org.app");
}

#[test]
fn needs_location_follows_the_empty_sentinel() {
    let mut meta = store_with_one_app();
    assert!(meta.needs_location(0));
    meta.get_location(0, "/somewhere\n");
    assert!(!meta.needs_location(0));
}

#[test]
fn set_install_date_stores_the_given_display_string() {
    let mut meta = store_with_one_app();
    meta.set_install_date(0, String::from("Thu 11 May 2023 12:06:40 PM CEST"));
    assert_eq!(meta.apps[0].install_date, "Thu 11 May 2023 12:06:40 PM CEST");
}

#[test]
fn get_dependencies_trims_trailing_whitespace() {
    let mut meta = store_with_one_app();
    meta.get_dependencies(0, "org.platform/x86_64/23.08\n");
    assert_eq!(meta.apps[0].depends, "org.platform/x86_64/23.08");
}

#[test]
fn needs_full_info_checks_the_three_fields() {
    let mut meta = store_with_one_app();
    assert!(meta.needs_full_info(0));
    meta.get_app_info_full(0, "Name - a description\nOrigin: flathub\nBranch: stable\n");
    assert!(!meta.needs_full_info(0));
}
