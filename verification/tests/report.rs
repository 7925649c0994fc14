use khora::process::{
    kill_needed, kill_step, parse_child_pids, KillStage, KillStep, ProcessTree, EXIT_CHECKS,
};
use khora::report::{
    attribute_text, clicked_message, kill_summary, navigated_message, reap_summary,
    screenshot_message, status_message, typed_message, waited_message,
};

#[test]
fn command_messages() {
    assert_eq!(navigated_message("https://a.test", false), "Navigated to: https://a.test");
    assert_eq!(
        navigated_message("https://a.test", true),
        "Navigated to: https://a.test (cache bypassed)"
    );
    assert_eq!(clicked_message("#go"), "Clicked: #go");
    assert_eq!(typed_message("#q", "hi"), "Typed \"hi\" into #q");
    assert_eq!(waited_message(".x", false), "Found: .x");
    assert_eq!(waited_message(".x", true), "Gone: .x");
    assert_eq!(attribute_text(Some("v".into())), "v");
    assert_eq!(attribute_text(None), "(null)");
    assert_eq!(
        screenshot_message("khora-screenshot.png", 1234),
        "Screenshot saved: khora-screenshot.png (1234 bytes)"
    );
    assert_eq!(status_message("abc", true), "Session abc is alive");
    assert_eq!(status_message("abc", false), "Session abc is dead");
}

#[test]
fn summaries() {
    assert_eq!(kill_summary(&vec!["a".into()]), "Killed session: a");
    assert_eq!(
        kill_summary(&vec!["a".into(), "b".into()]),
        "Killed 2 sessions: a, b"
    );
    assert_eq!(kill_summary(&vec![]), "Killed 0 sessions: ");
    assert_eq!(reap_summary(&vec![]), "reaped 0 sessions: ");
    assert_eq!(
        reap_summary(&vec!["x".into(), "y".into(), "z".into()]),
        "reaped 3 sessions: x, y, z"
    );
}

#[test]
fn child_pid_parsing() {
    assert_eq!(parse_child_pids("123\n 456 \r\nabc\n\n789\n"), vec![123, 456, 789]);
    assert_eq!(parse_child_pids(""), Vec::<u32>::new());
    assert_eq!(parse_child_pids("99999999999\n5"), vec![5]);
}

#[test]
fn process_tree_walk() {
    let mut t = ProcessTree::new(1);
    assert_eq!(t.next_parent(), Some(1));
    t.add_children(&vec![2, 3]);
    assert_eq!(t.next_parent(), Some(3));
    t.add_children(&vec![]);
    assert_eq!(t.next_parent(), Some(2));
    t.add_children(&vec![4]);
    assert_eq!(t.next_parent(), Some(4));
    assert_eq!(t.next_parent(), None);
    assert_eq!(t.tree, vec![1, 2, 3, 4]);
}

#[test]
fn kill_needs_a_known_live_pid() {
    assert!(kill_needed(42, true));
    assert!(!kill_needed(42, false));
    assert!(!kill_needed(0, true));
}

#[test]
fn kill_steps_follow_the_signal_schedule() {
    assert_eq!(kill_step(KillStage::Terminate, 0, &vec![false, false]), KillStep::Finish(true));
    assert_eq!(kill_step(KillStage::Terminate, 0, &vec![]), KillStep::Finish(true));
    assert_eq!(kill_step(KillStage::Terminate, 0, &vec![false, true]), KillStep::Pause);
    assert_eq!(kill_step(KillStage::Terminate, EXIT_CHECKS - 1, &vec![true]), KillStep::Pause);
    assert_eq!(kill_step(KillStage::Terminate, EXIT_CHECKS, &vec![true]), KillStep::Escalate);
    assert_eq!(kill_step(KillStage::Force, EXIT_CHECKS, &vec![true]), KillStep::Finish(false));
    assert_eq!(kill_step(KillStage::Force, 3, &vec![false]), KillStep::Finish(true));
}

#[test]
fn kill_schedule_runs_to_an_end() {
    // A process that never exits: ten pauses, one escalation, ten pauses, give up.
    let mut stage = KillStage::Terminate;
    let mut pauses = 0;
    let mut steps = Vec::new();
    loop {
        match kill_step(stage, pauses, &vec![true]) {
            KillStep::Pause => pauses += 1,
            KillStep::Escalate => {
                stage = KillStage::Force;
                pauses = 0;
            }
            KillStep::Finish(ok) => {
                steps.push(ok);
                break;
            }
        }
        steps.push(true);
    }
    assert_eq!(steps.len(), 22);
    assert_eq!(steps.last(), Some(&false));
}
