//! The short-list parser: store population from four-column output.

use pacpak::meta::FlatpakMeta;

#[test]
fn one_line_end_to_end() {
    let mut meta = FlatpakMeta::default();
    meta.get_apps(String::from("org.app\tx86_64\tstable\tflathub\n"));
    assert_eq!(meta.apps.len(), 1);
    assert_eq!(meta.apps[0].extid, "org.app/x86_64/stable");
    assert_eq!(meta.apps[0].id, "org.app");
    assert_eq!(meta.apps[0].arch, "x86_64");
    assert_eq!(meta.apps[0].branch, "stable");
    assert_eq!(meta.apps[0].origin, "flathub");
    assert_eq!(meta.apps[0].name, "");
    assert_eq!(meta.apps[0].version, "");
}

#[test]
fn extended_id_is_derived_for_every_record() {
    let mut meta = FlatpakMeta::default();
    meta.get_apps(String::from(
        "org.one\taarch64\tstable\tflathub\norg.two\tx86_64\tbeta\tfedora\n",
    ));
    assert_eq!(meta.apps.len(), 2);
    for app in &meta.apps {
        let expected = format!("{}/{}/{}", app.id, app.arch, app.branch);
        assert_eq!(app.extid, expected);
    }
    assert_eq!(meta.apps[0].extid, "org.one/aarch64/stable");
    assert_eq!(meta.apps[1].extid, "org.two/x86_64/beta");
}

#[test]
fn malformed_lines_are_dropped() {
    let mut meta = FlatpakMeta::default();
    meta.get_apps(String::from(
        "header line\norg.app\tx86_64\tstable\tflathub\ntoo\tfew\tcolumns\na\tb\tc\td\te\n",
    ));
    assert_eq!(meta.apps.len(), 1);
    assert_eq!(meta.apps[0].id, "org.app");
}

#[test]
fn empty_output_gives_empty_store() {
    let mut meta = FlatpakMeta::default();
    meta.get_apps(String::new());
    assert_eq!(meta.apps.len(), 0);
}

#[test]
fn refresh_replaces_the_store_wholesale() {
    let mut meta = FlatpakMeta::default();
    meta.get_apps(String::from("org.one\tx86_64\tstable\tflathub\n"));
    assert_eq!(meta.apps.len(), 1);
    meta.get_apps(String::from(
        "org.two\tx86_64\tstable\tflathub\norg.three\tx86_64\tstable\tflathub\n",
    ));
    assert_eq!(meta.apps.len(), 2);
    assert_eq!(meta.apps[0].id, "org.two");
    assert_eq!(meta.apps[1].id, "org.three");
}

#[test]
fn carriage_returns_are_stripped_from_lines() {
    let mut meta = FlatpakMeta::default();
    meta.get_apps(String::from("org.app\tx86_64\tstable\tflathub\r\n"));
    assert_eq!(meta.apps.len(), 1);
    assert_eq!(meta.apps[0].origin, "flathub");
}

#[test]
fn missing_final_newline_still_parses() {
    let mut meta = FlatpakMeta::default();
    meta.get_apps(String::from("org.app\tx86_64\tstable\tflathub"));
    assert_eq!(meta.apps.len(), 1);
    assert_eq!(meta.apps[0].extid, "org.app/x86_64/stable");
}

#[test]
fn tabs_alone_make_four_empty_columns() {
    let mut meta = FlatpakMeta::default();
    meta.get_apps(String::from("\t\t\t\n"));
    assert_eq!(meta.apps.len(), 1);
    assert_eq!(meta.apps[0].extid, "//");
}

#[test]
fn empty_columns_are_kept_empty() {
    let mut meta = FlatpakMeta::default();
    meta.get_apps(String::from("org.app\t\tstable\t\n"));
    assert_eq!(meta.apps.len(), 1);
    assert_eq!(meta.apps[0].arch, "");
    assert_eq!(meta.apps[0].origin, "");
    assert_eq!(meta.apps[0].extid, "org.app//stable");
}
