use ti::check::CheckAction;
use ti::notice::NotificationState;
use ti::schedule::{SchedulerAction, SweepScheduler};

fn entries(v: &[&str]) -> Vec<String> {
    v.iter().map(|s| s.to_string()).collect()
}

fn admission(id: &str) -> SchedulerAction {
    SchedulerAction::Admit(id.to_string())
}

#[test]
fn first_sweep_skips_blank_and_alerts_in_stock_product() {
    let mut sched = SweepScheduler::new(&entries(&["ABC123", "", "XYZ789"]), 4);
    let mut state = NotificationState::new();
    let mut alerts = Vec::new();
    let mut admitted = Vec::new();
    for _ in 0..2 {
        match sched.next_action() {
            SchedulerAction::Admit(id) => admitted.push(id),
            other => panic!("unexpected {:?}", other),
        }
    }
    assert_eq!(admitted, vec!["ABC123".to_string(), "XYZ789".to_string()]);
    for id in &admitted {
        let count = if id == "XYZ789" { 5 } else { 0 };
        let action = state.begin_check(id, count);
        if action == CheckAction::SendAlert {
            alerts.push(id.clone());
        }
        state.finish_check(id, action, true);
    }
    assert_eq!(alerts, vec!["XYZ789".to_string()]);
    assert!(state.has_alerted("XYZ789"));
    assert!(!state.has_alerted("ABC123"));
    assert!(!state.has_alerted(""));
}

#[test]
fn batches_of_two_over_five_products() {
    let mut sched = SweepScheduler::new(&entries(&["a", "b", "c", "d", "e"]), 2);
    let expected = vec![
        admission("a"),
        admission("b"),
        SchedulerAction::DrainBatch,
        admission("c"),
        admission("d"),
        SchedulerAction::DrainBatch,
        admission("e"),
    ];
    for want in expected {
        assert_eq!(sched.next_action(), want);
    }
    assert_eq!(sched.outstanding(), 1);
}

#[test]
fn sweeps_wrap_to_the_start() {
    let mut sched = SweepScheduler::new(&entries(&[" a ", "\t", "b"]), 3);
    let got: Vec<SchedulerAction> = (0..5).map(|_| sched.next_action()).collect();
    assert_eq!(got, vec![admission("a"), admission("b"), admission("a"), SchedulerAction::DrainBatch, admission("b")]);
}

#[test]
fn all_blank_list_is_idle() {
    let mut sched = SweepScheduler::new(&entries(&["", "  ", "\n"]), 2);
    assert_eq!(sched.next_action(), SchedulerAction::Idle);
    assert_eq!(sched.outstanding(), 0);
}

#[test]
fn cap_of_one_drains_after_each() {
    let mut sched = SweepScheduler::new(&entries(&["x"]), 1);
    assert_eq!(sched.next_action(), admission("x"));
    assert_eq!(sched.next_action(), SchedulerAction::DrainBatch);
    assert_eq!(sched.next_action(), admission("x"));
}
