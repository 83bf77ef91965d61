//! The search engine over the store, and the remote-catalogue result
//! parser with its "no results" sentinel.

use pacpak::meta::FlatpakMeta;

fn store_with_three_apps() -> FlatpakMeta {
    let mut meta = FlatpakMeta::default();
    meta.get_apps(String::from(
        "org.editor\tx86_64\tstable\tflathub\norg.browser\tx86_64\tstable\tflathub\norg.games.chess\tx86_64\tbeta\tfedora\n",
    ));
    meta
}

#[test]
fn search_is_case_insensitive() {
    let mut meta = store_with_three_apps();
    let hits = meta.search_apps(&vec!["EDITOR"]);
    assert_eq!(hits, vec![0]);
}

#[test]
fn search_matches_substrings_of_the_identifier() {
    let mut meta = store_with_three_apps();
    let hits = meta.search_apps(&vec!["games"]);
    assert_eq!(hits, vec![2]);
}

#[test]
fn search_matches_the_name_field() {
    let mut meta = store_with_three_apps();
    meta.set_full_list(String::from(
        "Chess Club\torg.games.chess\tx86_64\tbeta\t1.0\torg.games.chess\n",
    ));
    meta.get_app_info(2);
    let hits = meta.search_apps(&vec!["club"]);
    assert_eq!(hits, vec![2]);
}

#[test]
fn multiple_terms_union_sorted_without_duplicates() {
    let mut meta = store_with_three_apps();
    let hits = meta.search_apps(&vec!["chess", "org", "browser"]);
    assert_eq!(hits, vec![0, 1, 2]);
}

#[test]
fn empty_term_list_returns_all_indices_ascending() {
    let mut meta = store_with_three_apps();
    let hits = meta.search_apps(&Vec::new());
    assert_eq!(hits, vec![0, 1, 2]);
}

#[test]
fn empty_first_term_means_no_filter() {
    let mut meta = store_with_three_apps();
    let hits = meta.search_apps(&vec!["", "chess"]);
    assert_eq!(hits, vec![0, 1, 2]);
}

#[test]
fn unmatched_term_returns_nothing() {
    let mut meta = store_with_three_apps();
    let hits = meta.search_apps(&vec!["no.such.app"]);
    assert_eq!(hits, Vec::<usize>::new());
}

#[test]
fn extended_search_reaches_description_and_origin() {
    let mut meta = store_with_three_apps();
    meta.get_app_info_full(0, "Editor - edits plain text files\nOrigin: flathub\n");
    let by_desc = meta.search_apps_desc(&vec!["plain text"]);
    assert_eq!(by_desc, vec![0]);
    let by_origin = meta.search_apps_desc(&vec!["fedora"]);
    assert_eq!(by_origin, vec![2]);
}

#[test]
fn basic_search_does_not_reach_the_description() {
    let mut meta = store_with_three_apps();
    meta.get_app_info_full(0, "Editor - edits plain text files\n");
    let hits = meta.search_apps(&vec!["plain text"]);
    assert_eq!(hits, Vec::<usize>::new());
}

#[test]
fn no_results_sentinel_gives_empty_list_without_error() {
    let meta = FlatpakMeta::default();
    let (results, skipped) = meta.search("No matches found\n");
    assert_eq!(results.len(), 0);
    assert_eq!(skipped.len(), 0);
}

#[test]
fn seven_column_lines_become_transient_records() {
    let meta = FlatpakMeta::default();
    let (results, skipped) = meta.search(
        "My App\torg.app\tstable\t1.0\tflathub\tA fine app\torg.app\n",
    );
    assert_eq!(results.len(), 1);
    assert_eq!(skipped.len(), 0);
    let a = &results[0];
    assert_eq!(a.name, "My App");
    assert_eq!(a.id, "org.app");
    assert_eq!(a.branch, "stable");
    assert_eq!(a.version, "1.0");
    assert_eq!(a.origin, "flathub");
    assert_eq!(a.description, "A fine app");
    assert_eq!(a.extid, "org.app//stable");
    assert_eq!(a.arch, "");
}

#[test]
fn malformed_result_lines_are_reported_not_fatal() {
    let meta = FlatpakMeta::default();
    let (results, skipped) = meta.search(
        "broken line without tabs\nMy App\torg.app\tstable\t1.0\tflathub\tA fine app\torg.app\n",
    );
    assert_eq!(results.len(), 1);
    assert_eq!(skipped, vec![String::from("broken line without tabs")]);
}

#[test]
fn sentinel_text_among_other_lines_is_not_special() {
    let meta = FlatpakMeta::default();
    let (results, skipped) = meta.search("No matches found\nextra line\n");
    assert_eq!(results.len(), 0);
    assert_eq!(skipped.len(), 2);
}
