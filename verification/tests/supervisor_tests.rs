//! Supervised-run behavior: marker matching, stop decisions, the one-shot
//! ready callback, and binary handoff.

use nodekeeper::error::LifecycleError;
use nodekeeper::supervisor::callback_outcome;
use nodekeeper::supervisor::run_lines;
use nodekeeper::supervisor::run_testnet_with_handoff;
use nodekeeper::supervisor::standalone_config;
use nodekeeper::supervisor::sync_config;
use nodekeeper::supervisor::testnet_config;
use nodekeeper::supervisor::StopKind;
use nodekeeper::supervisor::Supervisor;
use nodekeeper::text::contains_bytes;

fn lines(raw: &[&str]) -> Vec<Vec<u8>> {
    raw.iter().map(|s| s.as_bytes().to_vec()).collect()
}

#[test]
fn sync_kills_on_first_ready_marker() {
    let ls = lines(&[
        "starting node",
        "commit height=1",
        "finished indexed block events height=2",
        "another indexed block events height=3",
    ]);
    let outcome = run_lines(sync_config(true), &ls, true).unwrap();
    assert_eq!(outcome.killed_at, Some(2));
    assert_eq!(outcome.stop, StopKind::Killed);
    assert_eq!(outcome.callback_at, None);
}

#[test]
fn sync_without_marker_stops_normally() {
    let ls = lines(&["starting node", "commit height=1"]);
    let outcome = run_lines(sync_config(true), &ls, true).unwrap();
    assert_eq!(outcome.killed_at, None);
    assert_eq!(outcome.stop, StopKind::Normal);
}

#[test]
fn sync_without_stop_flag_never_kills() {
    let ls = lines(&["indexed block events", "indexed block events"]);
    let outcome = run_lines(sync_config(false), &ls, true).unwrap();
    assert_eq!(outcome.killed_at, None);
    assert_eq!(outcome.stop, StopKind::Normal);
}

#[test]
fn callback_fires_at_most_once() {
    let ls = lines(&[
        "boot",
        "done indexed block events",
        "done indexed block events again",
        "done indexed block events once more",
    ]);
    let outcome = run_lines(standalone_config(true), &ls, true).unwrap();
    assert_eq!(outcome.callback_at, Some(1));
    assert_eq!(outcome.killed_at, None);
}

#[test]
fn step_line_sets_the_seen_flag() {
    let mut sup = Supervisor::new(standalone_config(true));
    let first = sup.step_line(b"x indexed block events y");
    assert!(first.run_callback);
    assert!(!first.kill);
    let second = sup.step_line(b"x indexed block events y");
    assert!(!second.run_callback);
    assert!(!second.kill);
}

#[test]
fn standalone_without_callback_never_requests_one() {
    let ls = lines(&["indexed block events"]);
    let outcome = run_lines(standalone_config(false), &ls, true).unwrap();
    assert_eq!(outcome.callback_at, None);
}

#[test]
fn failing_callback_aborts_the_run() {
    let ls = lines(&["indexed block events", "CONSENSUS FAILURE!!!"]);
    let r = run_lines(standalone_config(true), &ls, false);
    assert_eq!(r, Err(LifecycleError::Callback));
}

#[test]
fn testnet_kills_on_consensus_failure() {
    let ls = lines(&["running", "CONSENSUS FAILURE!!! halting", "unread"]);
    let outcome = run_lines(testnet_config(false, false), &ls, true).unwrap();
    assert_eq!(outcome.killed_at, Some(1));
    assert_eq!(outcome.stop, StopKind::Killed);
}

#[test]
fn testnet_ready_marker_does_not_kill() {
    let ls = lines(&["indexed block events"]);
    let outcome = run_lines(testnet_config(false, false), &ls, true).unwrap();
    assert_eq!(outcome.killed_at, None);
}

#[test]
fn testnet_with_upgrade_handler_defers_callback() {
    let ls = lines(&["indexed block events", "indexed block events"]);
    let outcome = run_lines(testnet_config(true, true), &ls, true).unwrap();
    assert_eq!(outcome.callback_at, None);
}

#[test]
fn testnet_without_upgrade_handler_runs_callback() {
    let ls = lines(&["boot", "indexed block events"]);
    let outcome = run_lines(testnet_config(false, true), &ls, true).unwrap();
    assert_eq!(outcome.callback_at, Some(1));
}

#[test]
fn handoff_runs_callback_only_in_second_run() {
    let before = lines(&[
        "upgrading",
        "indexed block events",
        "CONSENSUS FAILURE!!! upgrade height reached",
        "unread",
    ]);
    let after = lines(&["restarted", "serving indexed block events"]);
    let outcome = run_testnet_with_handoff(true, true, true, true, &before, &after).unwrap();
    assert_eq!(outcome.first.callback_at, None);
    assert_eq!(outcome.first.killed_at, Some(2));
    assert_eq!(outcome.first.stop, StopKind::Killed);
    let second = outcome.second.unwrap();
    assert_eq!(second.callback_at, Some(1));
    assert_eq!(second.killed_at, None);
    assert_eq!(second.stop, StopKind::Normal);
}

#[test]
fn handoff_without_replacement_has_no_second_run() {
    let before = lines(&["CONSENSUS FAILURE!!!"]);
    let after: Vec<Vec<u8>> = Vec::new();
    let outcome = run_testnet_with_handoff(true, true, false, true, &before, &after).unwrap();
    assert!(outcome.second.is_none());
}

#[test]
fn callback_and_kill_on_the_same_line_both_fire() {
    // the callback is evaluated before the kill on each line
    let ls = lines(&["indexed block events then CONSENSUS FAILURE!!!"]);
    let outcome = run_lines(testnet_config(false, true), &ls, true).unwrap();
    assert_eq!(outcome.callback_at, Some(0));
    assert_eq!(outcome.killed_at, Some(0));
    assert_eq!(outcome.stop, StopKind::Killed);
}

#[test]
fn no_callback_after_the_kill_line() {
    let ls = lines(&["CONSENSUS FAILURE!!!", "indexed block events"]);
    let outcome = run_lines(testnet_config(false, true), &ls, true).unwrap();
    assert_eq!(outcome.killed_at, Some(0));
    assert_eq!(outcome.callback_at, None);
}

#[test]
fn empty_line_sequence_stops_normally() {
    let ls: Vec<Vec<u8>> = Vec::new();
    let outcome = run_lines(sync_config(true), &ls, true).unwrap();
    assert_eq!(outcome.killed_at, None);
    assert_eq!(outcome.callback_at, None);
    assert_eq!(outcome.stop, StopKind::Normal);
}

#[test]
fn callback_outcome_maps_exit_status() {
    assert_eq!(callback_outcome(true), Ok(()));
    assert_eq!(callback_outcome(false), Err(LifecycleError::Callback));
}

#[test]
fn marker_matching_is_exact_substring() {
    assert!(contains_bytes(b"... indexed block events ...", b"indexed block events"));
    assert!(!contains_bytes(b"indexed block event", b"indexed block events"));
    assert!(!contains_bytes(b"consensus failure!!!", b"CONSENSUS FAILURE!!!"));
    assert!(contains_bytes(b"anything", b""));
}
