//! The backend router's decision rule and the primary tool's argument
//! preparation.

use pacpak::router::{pacman_args, Config, Router, RouterState};
use pacpak::{exit_code_or_error, ERROR_CODE, NOT_FOUND_CODE};

#[test]
fn exit_codes_and_defaults() {
    assert_eq!(NOT_FOUND_CODE, 1);
    assert_eq!(ERROR_CODE, 255);
    let config = Config::default();
    assert!(config.wrap_pacman);
    assert!(config.color);
    assert_eq!(exit_code_or_error(Some(3)), 3);
    assert_eq!(exit_code_or_error(None), 255);
}

#[test]
fn color_flag_is_injected_in_front() {
    let raw = vec![String::from("-Qi"), String::from("org.app")];
    let with_color = pacman_args(&raw, true);
    assert_eq!(
        with_color,
        vec![
            String::from("--color"),
            String::from("always"),
            String::from("-Qi"),
            String::from("org.app"),
        ]
    );
    let without_color = pacman_args(&raw, false);
    assert_eq!(without_color[1], "never");
    assert_eq!(without_color.len(), 4);
}

#[test]
fn secondary_matches_win_regardless_of_primary_failure() {
    let mut router = Router::new(Config::default());
    router.record_primary(1);
    router.resolve_secondary(2);
    assert_eq!(router.state, RouterState::ResolvedBySecondary);
    assert!(!router.replay);
    assert_eq!(router.finish(), 0);
    assert_eq!(router.state, RouterState::Done);
}

#[test]
fn no_secondary_match_replays_and_propagates_the_primary_code() {
    let mut router = Router::new(Config::default());
    router.record_primary(1);
    router.resolve_secondary(0);
    assert_eq!(router.state, RouterState::NotFound);
    assert!(router.replay);
    assert_eq!(router.finish(), 1);
}

#[test]
fn search_with_no_match_exits_not_found_quietly() {
    let mut router = Router::new(Config::default());
    router.record_primary(0);
    router.resolve_search(0);
    assert_eq!(router.state, RouterState::NotFound);
    assert!(!router.replay);
    assert_eq!(router.finish(), NOT_FOUND_CODE);
}

#[test]
fn ownership_short_circuits_on_primary_success() {
    let mut router = Router::new(Config::default());
    router.record_primary(0);
    assert!(router.primary_succeeded());
    router.resolve_primary();
    assert_eq!(router.state, RouterState::ResolvedByPrimary);
    assert_eq!(router.finish(), 0);
}

#[test]
fn a_launch_failure_exits_with_the_error_code() {
    let mut router = Router::new(Config::default());
    router.fail();
    assert_eq!(router.state, RouterState::Error);
    assert_eq!(router.finish(), ERROR_CODE);
}
