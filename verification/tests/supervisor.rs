//! When the program goes on, closes its windows, or ends.

use vireo::supervisor::{
    decide_supervisor_action, panic_payload_to_string, thread_name, thread_tps, Snapshot,
    Supervisor, SupervisorAction, SupervisorInput, SupervisorStep,
};

fn is_exit(a: SupervisorAction) -> bool {
    matches!(a, SupervisorAction::Exit)
}

fn is_close_all(a: SupervisorAction) -> bool {
    matches!(a, SupervisorAction::CloseAll)
}

fn is_wait(a: SupervisorAction) -> bool {
    matches!(a, SupervisorAction::Wait)
}

#[test]
fn exit_on_main_loops_settled() {
    assert!(is_exit(decide_supervisor_action(
        true, true, true, false, false, 0, 0
    )));
}

#[test]
fn exit_on_all_closed_even_if_main_alive() {
    assert!(is_exit(decide_supervisor_action(
        false, false, false, true, false, 0, 0
    )));
}

#[test]
fn exit_on_device_lost_beats_everything() {
    assert!(is_exit(decide_supervisor_action(
        false, false, false, false, true, 3, 0
    )));
}

#[test]
fn close_all_when_main_done_loops_done_windows_open() {
    assert!(is_close_all(decide_supervisor_action(
        true, true, false, false, false, 2, 0
    )));
}

#[test]
fn wait_when_main_alive() {
    assert!(is_wait(decide_supervisor_action(
        false, true, false, false, false, 2, 0
    )));
}

#[test]
fn wait_when_loops_running() {
    assert!(is_wait(decide_supervisor_action(
        true, false, false, false, false, 2, 0
    )));
}

#[test]
fn wait_when_creates_in_flight() {
    assert!(is_wait(decide_supervisor_action(
        true, true, false, false, false, 1, 1
    )));
}

#[test]
fn wait_when_no_windows_and_not_settled() {
    assert!(is_wait(decide_supervisor_action(
        true, true, false, false, false, 0, 0
    )));
}

fn quiet(main_done: bool, windows: usize) -> SupervisorInput {
    SupervisorInput::Empty {
        seen: Snapshot {
            main_done,
            loops_requested: false,
            loops_done: Vec::new(),
            window_count: windows,
            pending_creates: 0,
            device_lost: false,
        },
    }
}

#[test]
fn steps_of_a_short_life() {
    let mut s = Supervisor::new(0);
    assert_eq!(s.step(quiet(false, 0)), SupervisorStep::Block);
    assert_eq!(s.step(SupervisorInput::Applied { is_created: true }), SupervisorStep::ServeThenPoll);
    assert_eq!(s.step(quiet(false, 1)), SupervisorStep::Block);
    assert_eq!(s.step(SupervisorInput::Applied { is_created: false }), SupervisorStep::Poll);
    assert_eq!(s.step(quiet(true, 1)), SupervisorStep::CloseAllThenPoll);
    assert_eq!(s.step(quiet(true, 0)), SupervisorStep::Exit);
    assert_eq!(s.step(SupervisorInput::Disconnected), SupervisorStep::Stop);
}

#[test]
fn requested_loops_have_to_come_and_end() {
    let seen = |loops_done: Vec<bool>| SupervisorInput::Empty {
        seen: Snapshot {
            main_done: true,
            loops_requested: true,
            loops_done,
            window_count: 0,
            pending_creates: 0,
            device_lost: false,
        },
    };
    let mut s = Supervisor::new(0);
    assert_eq!(s.step(seen(vec![])), SupervisorStep::Block);
    let mut s = Supervisor::new(0);
    assert_eq!(s.step(seen(vec![true, false])), SupervisorStep::Block);
    let mut s = Supervisor::new(0);
    assert_eq!(s.step(seen(vec![true, true])), SupervisorStep::Exit);
}

#[test]
fn expected_windows_have_to_come() {
    let s = Supervisor::new(1);
    assert!(!s.windows_ready());
    assert!(Supervisor::new(0).windows_ready());
}

#[test]
fn payloads_of_panics() {
    let owned = "owned".to_string();
    assert_eq!(panic_payload_to_string(Some("plain"), None), "plain");
    assert_eq!(panic_payload_to_string(None, Some(&owned)), "owned");
    assert_ne!(panic_payload_to_string(None, None), "");
}

#[test]
fn names_and_rates_of_threads() {
    assert_eq!(thread_name(None, 12), "vireo-thread-12");
    assert_eq!(thread_name(Some("mine".to_string()), 12), "mine");
    assert_eq!(thread_tps(Some(30), Some(240)), Some(30));
    assert_eq!(thread_tps(None, Some(240)), Some(240));
    assert_eq!(thread_tps(None, None), None);
}
