//! The full-list lookup: the cached six-column output, the heuristic
//! substring match, and the hydrate-at-most-once discipline.

use pacpak::meta::{FlatpakMeta, LookupOutcome};

fn store_with_two_apps() -> FlatpakMeta {
    let mut meta = FlatpakMeta::default();
    meta.get_apps(String::from(
        "org.app\tx86_64\tstable\tflathub\norg.other\tx86_64\tbeta\tflathub\n",
    ));
    meta
}

#[test]
fn lookup_populates_name_and_version() {
    let mut meta = store_with_two_apps();
    meta.set_full_list(String::from(
        "My App\torg.app\tx86_64\tstable\t1.2.3\torg.app\n",
    ));
    let outcome = meta.get_app_info(0);
    assert_eq!(outcome, LookupOutcome::Updated);
    assert_eq!(meta.apps[0].name, "My App");
    assert_eq!(meta.apps[0].version, "1.2.3");
    assert_eq!(meta.apps[0].id, "org.app");
}

#[test]
fn empty_version_column_becomes_question_mark() {
    let mut meta = store_with_two_apps();
    meta.set_full_list(String::from("My App\torg.app\tx86_64\tstable\t\torg.app\n"));
    let outcome = meta.get_app_info(0);
    assert_eq!(outcome, LookupOutcome::Updated);
    assert_eq!(meta.apps[0].version, "?");
}

#[test]
fn no_matching_line_leaves_the_record_untouched() {
    let mut meta = store_with_two_apps();
    meta.set_full_list(String::from(
        "Some Tool\torg.unrelated\tx86_64\tstable\t9.9\torg.unrelated\n",
    ));
    let outcome = meta.get_app_info(1);
    assert_eq!(outcome, LookupOutcome::NotFound);
    assert_eq!(meta.apps[1].name, "");
    assert_eq!(meta.apps[1].version, "");
}

#[test]
fn matching_line_with_too_few_columns_is_reported() {
    let mut meta = store_with_two_apps();
    meta.set_full_list(String::from("org.app x86_64 stable\n"));
    let outcome = meta.get_app_info(0);
    assert_eq!(outcome, LookupOutcome::TooFewColumns);
    assert_eq!(meta.apps[0].name, "");
    assert_eq!(meta.apps[0].version, "");
}

#[test]
fn first_matching_line_wins() {
    let mut meta = store_with_two_apps();
    meta.set_full_list(String::from(
        "First\torg.app\tx86_64\tstable\t1.0\torg.app\nSecond\torg.app\tx86_64\tstable\t2.0\torg.app\n",
    ));
    let outcome = meta.get_app_info(0);
    assert_eq!(outcome, LookupOutcome::Updated);
    assert_eq!(meta.apps[0].name, "First");
    assert_eq!(meta.apps[0].version, "1.0");
}

#[test]
fn heuristic_match_accepts_keys_anywhere_in_the_line() {
    let mut meta = store_with_two_apps();
    // the record's id occurs inside another package's longer id: the
    // documented substring heuristic matches this line
    meta.set_full_list(String::from(
        "Longer\tcom.vendor.org.app.extra\tx86_64\tstable\t7.7\tcom.vendor.org.app.extra\n",
    ));
    let outcome = meta.get_app_info(0);
    assert_eq!(outcome, LookupOutcome::Updated);
    assert_eq!(meta.apps[0].name, "Longer");
    assert_eq!(meta.apps[0].version, "7.7");
}

#[test]
fn cache_is_fetched_at_most_once() {
    let mut meta = store_with_two_apps();
    assert!(meta.needs_full_list());
    meta.set_full_list(String::from(
        "My App\torg.app\tx86_64\tstable\t1.2.3\torg.app\n",
    ));
    assert!(!meta.needs_full_list());
    let before = meta.list_full.clone();
    let mut fetches = 0;
    for _ in 0..2 {
        if meta.needs_full_list() {
            fetches += 1;
            meta.set_full_list(String::from("would be a second invocation"));
        }
        meta.get_app_info(0);
    }
    assert_eq!(fetches, 0);
    assert_eq!(meta.list_full, before);
}

#[test]
fn other_records_are_untouched_by_a_lookup() {
    let mut meta = store_with_two_apps();
    meta.set_full_list(String::from(
        "My App\torg.app\tx86_64\tstable\t1.2.3\torg.app\n",
    ));
    meta.get_app_info(0);
    assert_eq!(meta.apps[1].name, "");
    assert_eq!(meta.apps[1].id, "org.other");
}
