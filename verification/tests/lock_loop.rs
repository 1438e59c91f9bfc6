use std::path::PathBuf;

use lockrs::session::{LockLoop, LoopStep};
use lockrs::Action;

fn pass_with(lock: &LockLoop, exits: Vec<Action>) -> (lockrs::session::Pass, Option<PathBuf>) {
    let mut pass = lock.begin_pass();
    let mut shot = None;
    for exit in &exits {
        lock.register(&mut pass, &mut shot, exit);
    }
    (pass, shot)
}

#[test]
fn empty_pass_continues() {
    let mut lock = LockLoop::new();
    assert!(!lock.doing_auth());
    let (pass, shot) = pass_with(&lock, vec![Action::Nothing, Action::Nothing]);
    assert!(shot.is_none());
    assert!(matches!(lock.finish_pass(pass), LoopStep::Continue));
    assert!(!lock.doing_auth());
}

#[test]
fn force_exit_ends_the_lock_whatever_the_passwords() {
    let mut lock = LockLoop::new();
    let (pass, _) = pass_with(
        &lock,
        vec![Action::PasswdCheck("hunter2".to_string()), Action::ForceExit, Action::PasswdCheck("x".to_string())],
    );
    assert!(pass.should_break);
    assert!(matches!(lock.finish_pass(pass), LoopStep::Exit));
    assert!(!lock.doing_auth());
}

#[test]
fn last_password_of_a_pass_is_checked() {
    let mut lock = LockLoop::new();
    let (pass, _) = pass_with(
        &lock,
        vec![Action::PasswdCheck("first".to_string()), Action::Nothing, Action::PasswdCheck("second".to_string())],
    );
    assert_eq!(pass.should_auth.as_deref(), Some("second"));
    match lock.finish_pass(pass) {
        LoopStep::CheckPassword(p) => assert_eq!(p, "second"),
        _ => panic!("a password check should start"),
    }
    assert!(lock.doing_auth());
}

#[test]
fn passwords_are_ignored_while_a_check_runs() {
    let mut lock = LockLoop::new();
    let (pass, _) = pass_with(&lock, vec![Action::PasswdCheck("one".to_string())]);
    assert!(matches!(lock.finish_pass(pass), LoopStep::CheckPassword(_)));
    let (pass, _) = pass_with(&lock, vec![Action::PasswdCheck("two".to_string())]);
    assert!(pass.should_auth.is_none());
    assert!(matches!(lock.finish_pass(pass), LoopStep::PollWorker));
    assert!(lock.doing_auth());
}

#[test]
fn pending_check_without_answer_keeps_running() {
    let mut lock = LockLoop::new();
    let (pass, _) = pass_with(&lock, vec![Action::PasswdCheck("pw".to_string())]);
    lock.finish_pass(pass);
    assert!(!lock.password_result(None));
    assert!(lock.doing_auth());
}

#[test]
fn failed_check_allows_a_new_one() {
    let mut lock = LockLoop::new();
    let (pass, _) = pass_with(&lock, vec![Action::PasswdCheck("wrong".to_string())]);
    lock.finish_pass(pass);
    assert!(!lock.password_result(Some(false)));
    assert!(!lock.doing_auth());
    let (pass, _) = pass_with(&lock, vec![Action::PasswdCheck("right".to_string())]);
    match lock.finish_pass(pass) {
        LoopStep::CheckPassword(p) => assert_eq!(p, "right"),
        _ => panic!("a new check should start"),
    }
}

#[test]
fn matching_password_ends_the_lock() {
    let mut lock = LockLoop::new();
    let (pass, _) = pass_with(&lock, vec![Action::PasswdCheck("right".to_string())]);
    lock.finish_pass(pass);
    assert!(lock.password_result(Some(true)));
    assert!(!lock.doing_auth());
}

#[test]
fn force_exit_wins_over_a_running_check() {
    let mut lock = LockLoop::new();
    let (pass, _) = pass_with(&lock, vec![Action::PasswdCheck("pw".to_string())]);
    lock.finish_pass(pass);
    let (pass, _) = pass_with(&lock, vec![Action::ForceExit]);
    assert!(matches!(lock.finish_pass(pass), LoopStep::Exit));
}

#[test]
fn screenshot_request_records_the_path() {
    let lock = LockLoop::new();
    let (pass, shot) = pass_with(
        &lock,
        vec![Action::TakeScreenshot(PathBuf::from("a.png")), Action::TakeScreenshot(PathBuf::from("screenshot.png"))],
    );
    assert_eq!(shot, Some(PathBuf::from("screenshot.png")));
    assert!(!pass.should_break);
    assert!(pass.should_auth.is_none());
}

#[test]
fn screenshot_request_survives_later_nothing() {
    let lock = LockLoop::new();
    let (_, shot) = pass_with(&lock, vec![Action::TakeScreenshot(PathBuf::from("s.png")), Action::Nothing]);
    assert_eq!(shot, Some(PathBuf::from("s.png")));
}

#[test]
fn lost_surfaces_are_recreated_in_order_next_pass() {
    let mut lock = LockLoop::new();
    let order = [7u32, 3, 9];
    // first pass: nothing to recreate; outputs 7 and 9 lose their surface
    for name in order {
        assert!(!lock.take_recreation(name));
        if name != 3 {
            lock.surface_lost(name);
        }
    }
    // second pass: exactly 7 and 9 are recreated, at their own turn
    let due: Vec<bool> = order.iter().map(|n| lock.take_recreation(*n)).collect();
    assert_eq!(due, vec![true, false, true]);
    // third pass: nothing is left
    for name in order {
        assert!(!lock.take_recreation(name));
    }
}

#[test]
fn recreation_only_at_front_of_queue() {
    let mut lock = LockLoop::new();
    lock.surface_lost(1);
    lock.surface_lost(2);
    assert!(!lock.take_recreation(2));
    assert!(lock.take_recreation(1));
    assert!(lock.take_recreation(2));
    assert!(!lock.take_recreation(2));
}
