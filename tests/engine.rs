use supervisor_tree::{
    affected_children, ChildRegistry, ChildSpec, ChildStatus, ExitAction, FailureEvent,
    RestartLimiter, RestartStrategy, RestartType, Shutdown, StartStep, Supervisor,
    SupervisorConfig, SupervisorError, SupervisorStatus, Termination,
};

fn child(id: u64, restart_type: RestartType) -> ChildSpec {
    ChildSpec { id, restart_type, shutdown: Shutdown::Timeout(5) }
}

fn running(rs: RestartStrategy, mrf: (u64, u64), specs: &[ChildSpec]) -> Supervisor {
    let cfg = SupervisorConfig::new(rs, mrf).unwrap();
    let mut sup = Supervisor::build(cfg, &specs.to_vec()).unwrap();
    let mut step = sup.start();
    while let StartStep::Next(_) = step {
        step = sup.child_start_result(Ok(()));
    }
    assert_eq!(step, StartStep::Done);
    assert_eq!(sup.status(), SupervisorStatus::Running);
    sup
}

#[test]
fn config_refuses_restarts_in_empty_window() {
    assert_eq!(
        SupervisorConfig::new(RestartStrategy::OneForOne, (3, 0)),
        Err(SupervisorError::InvalidConfig)
    );
    assert!(SupervisorConfig::new(RestartStrategy::OneForOne, (0, 0)).is_ok());
    let c = SupervisorConfig::new(RestartStrategy::RestForOne, (4, 9)).unwrap();
    assert_eq!(c.restart_strategy(), RestartStrategy::RestForOne);
    assert_eq!(c.max_restart_freq(), (4, 9));
}

#[test]
fn limiter_with_zero_budget_always_denies() {
    let mut l = RestartLimiter::new(0, 10);
    assert_eq!(l.max_restarts(), 0);
    assert_eq!(l.period(), 10);
    assert!(!l.record_and_check(1));
    assert!(!l.record_and_check(100));
    assert_eq!(l.recorded(), 0);
}

#[test]
fn limiter_denies_past_budget_and_forgets_denials() {
    let mut l = RestartLimiter::new(2, 10);
    assert!(l.record_and_check(1));
    assert!(l.record_and_check(2));
    assert!(!l.record_and_check(3));
    assert!(!l.record_and_check(4));
    assert!(!l.record_and_check(11));
    assert_eq!(l.recorded(), 2);
    // at 12 the restart at 1 has left the window
    assert!(l.record_and_check(12));
    assert_eq!(l.recorded(), 2);
}

#[test]
fn limiter_batch_counts_each_restart() {
    let mut l = RestartLimiter::new(2, 10);
    assert!(!l.record_batch(5, 3));
    // a denied batch records nothing
    assert_eq!(l.recorded(), 0);
    let mut m = RestartLimiter::new(3, 10);
    assert!(m.record_batch(5, 3));
    assert_eq!(m.recorded(), 3);
}

#[test]
fn affected_children_per_strategy() {
    let order = vec![1, 2, 3];
    assert_eq!(affected_children(RestartStrategy::OneForOne, 2, &order), Some(vec![2]));
    assert_eq!(affected_children(RestartStrategy::OneForAll, 2, &order), Some(vec![1, 2, 3]));
    assert_eq!(affected_children(RestartStrategy::RestForOne, 2, &order), Some(vec![2, 3]));
    assert_eq!(affected_children(RestartStrategy::RestForOne, 1, &order), Some(vec![1, 2, 3]));
    assert_eq!(affected_children(RestartStrategy::OneForAll, 9, &order), None);
}

#[test]
fn registry_refuses_duplicate_id() {
    let mut r = ChildRegistry::new();
    assert_eq!(r.insert(child(1, RestartType::Permanent)), Ok(()));
    assert_eq!(r.insert(child(2, RestartType::Permanent)), Ok(()));
    assert_eq!(
        r.insert(child(1, RestartType::Temporary)),
        Err(SupervisorError::DuplicateChildId { id: 1 })
    );
    assert_eq!(r.ids(), vec![1, 2]);
    assert_eq!(r.lookup(2), Some(child(2, RestartType::Permanent)));
    assert_eq!(r.lookup(3), None);
}

#[test]
fn build_refuses_duplicate_id() {
    let specs = vec![
        child(1, RestartType::Permanent),
        child(2, RestartType::Permanent),
        child(1, RestartType::Permanent),
    ];
    let r = Supervisor::build(SupervisorConfig::default(), &specs);
    assert_eq!(r.err(), Some(SupervisorError::DuplicateChildId { id: 1 }));
}

#[test]
fn startup_with_no_children_is_done() {
    let mut sup = Supervisor::new();
    assert_eq!(sup.start(), StartStep::Done);
    assert_eq!(sup.status(), SupervisorStatus::Running);
}

#[test]
fn startup_failure_on_third_of_four() {
    let specs: Vec<ChildSpec> = (1..=4).map(|i| child(i, RestartType::Permanent)).collect();
    let mut sup = Supervisor::build(SupervisorConfig::default(), &specs).unwrap();
    assert_eq!(sup.start(), StartStep::Next(1));
    assert_eq!(sup.child_start_result(Ok(())), StartStep::Next(2));
    assert_eq!(sup.child_start_result(Ok(())), StartStep::Next(3));
    assert_eq!(sup.child_status(2), Some(ChildStatus::Running));
    assert_eq!(sup.child_status(3), Some(ChildStatus::Starting));
    assert_eq!(sup.child_status(4), Some(ChildStatus::Stopped));
    assert_eq!(
        sup.child_start_result(Err(17)),
        StartStep::Abort {
            stop: vec![2, 1],
            error: SupervisorError::StartupFailure { spec_id: 3, cause: 17 },
        }
    );
    assert_eq!(sup.status(), SupervisorStatus::Failed);
    assert_eq!(sup.child_status(4), Some(ChildStatus::Stopped));
}

#[test]
fn permanent_child_crashing_every_second_exhausts_budget() {
    let mut sup = running(
        RestartStrategy::OneForOne,
        (2, 10),
        &[child(7, RestartType::Permanent)],
    );
    for t in 1..=2 {
        let r = sup.on_child_exit(7, Termination::Abnormal(1), t);
        assert_eq!(r.action, ExitAction::Restart { stop: vec![], start: vec![7] });
        assert_eq!(sup.status(), SupervisorStatus::Running);
    }
    let r = sup.on_child_exit(7, Termination::Abnormal(1), 3);
    assert_eq!(
        r.action,
        ExitAction::Escalate {
            stop: vec![],
            error: SupervisorError::RestartDenied { spec_id: 7, window: 10 },
        }
    );
    assert_eq!(
        r.event,
        Some(FailureEvent {
            child_id: 7,
            cause: Termination::Abnormal(1),
            strategy: RestartStrategy::OneForOne,
            allowed: false,
        })
    );
    assert_eq!(sup.status(), SupervisorStatus::Failed);
}

#[test]
fn zero_budget_fails_on_first_crash() {
    let mut sup = running(
        RestartStrategy::OneForOne,
        (0, 10),
        &[child(1, RestartType::Permanent), child(2, RestartType::Permanent)],
    );
    let r = sup.on_child_exit(2, Termination::Normal, 5);
    assert_eq!(
        r.action,
        ExitAction::Escalate {
            stop: vec![1],
            error: SupervisorError::RestartDenied { spec_id: 2, window: 10 },
        }
    );
    assert_eq!(sup.status(), SupervisorStatus::Failed);
    // a failed supervisor ignores later terminations
    assert_eq!(sup.on_child_exit(1, Termination::Abnormal(1), 6).action, ExitAction::Ignore);
}

#[test]
fn one_for_one_leaves_siblings_alone() {
    let abc = [
        child(1, RestartType::Permanent),
        child(2, RestartType::Permanent),
        child(3, RestartType::Permanent),
    ];
    let mut sup = running(RestartStrategy::OneForOne, (5, 10), &abc);
    let r = sup.on_child_exit(1, Termination::Abnormal(1), 1);
    assert_eq!(r.action, ExitAction::Restart { stop: vec![], start: vec![1] });
    assert_eq!(sup.child_ids(), vec![1, 2, 3]);
}

#[test]
fn one_for_all_restarts_everyone() {
    let abc = [
        child(1, RestartType::Permanent),
        child(2, RestartType::Transient),
        child(3, RestartType::Permanent),
    ];
    let mut sup = running(RestartStrategy::OneForAll, (5, 10), &abc);
    let r = sup.on_child_exit(2, Termination::Abnormal(1), 1);
    assert_eq!(r.action, ExitAction::Restart { stop: vec![3, 1], start: vec![1, 2, 3] });
}

#[test]
fn one_for_all_batch_consumes_budget_per_child() {
    let abc = [
        child(1, RestartType::Permanent),
        child(2, RestartType::Permanent),
        child(3, RestartType::Permanent),
    ];
    let mut sup = running(RestartStrategy::OneForAll, (2, 10), &abc);
    let r = sup.on_child_exit(1, Termination::Abnormal(1), 1);
    assert_eq!(
        r.action,
        ExitAction::Escalate {
            stop: vec![3, 2],
            error: SupervisorError::RestartDenied { spec_id: 1, window: 10 },
        }
    );
}

#[test]
fn rest_for_one_failure_in_middle() {
    let abc = [
        child(1, RestartType::Permanent),
        child(2, RestartType::Permanent),
        child(3, RestartType::Permanent),
    ];
    let mut sup = running(RestartStrategy::RestForOne, (5, 10), &abc);
    let r = sup.on_child_exit(2, Termination::Abnormal(1), 1);
    assert_eq!(r.action, ExitAction::Restart { stop: vec![3], start: vec![2, 3] });
}

#[test]
fn rest_for_one_failure_of_last() {
    let abc = [
        child(1, RestartType::Permanent),
        child(2, RestartType::Permanent),
        child(3, RestartType::Permanent),
    ];
    let mut sup = running(RestartStrategy::RestForOne, (5, 10), &abc);
    let r = sup.on_child_exit(3, Termination::Abnormal(1), 1);
    assert_eq!(r.action, ExitAction::Restart { stop: vec![], start: vec![3] });
    assert_eq!(sup.child_ids(), vec![1, 2, 3]);
    assert_eq!(sup.status(), SupervisorStatus::Running);
}

#[test]
fn transient_normal_exit_is_removed() {
    let specs = [child(1, RestartType::Permanent), child(2, RestartType::Transient)];
    let mut sup = running(RestartStrategy::OneForAll, (5, 10), &specs);
    let r = sup.on_child_exit(2, Termination::Normal, 1);
    assert_eq!(r.action, ExitAction::Remove);
    assert_eq!(r.event, None);
    assert_eq!(sup.child_ids(), vec![1]);
    assert_eq!(sup.child_spec(2), None);
}

#[test]
fn transient_abnormal_exit_restarts() {
    let specs = [child(1, RestartType::Transient)];
    let mut sup = running(RestartStrategy::OneForOne, (5, 10), &specs);
    let r = sup.on_child_exit(1, Termination::Abnormal(1), 1);
    assert_eq!(r.action, ExitAction::Restart { stop: vec![], start: vec![1] });
    assert_eq!(r.event.map(|e| e.allowed), Some(true));
}

#[test]
fn temporary_exit_is_removed_either_way() {
    let specs = [child(1, RestartType::Temporary), child(2, RestartType::Temporary)];
    let mut sup = running(RestartStrategy::OneForOne, (5, 10), &specs);
    assert_eq!(sup.on_child_exit(1, Termination::Abnormal(1), 1).action, ExitAction::Remove);
    assert_eq!(sup.on_child_exit(2, Termination::Normal, 1).action, ExitAction::Remove);
    assert_eq!(sup.child_ids(), Vec::<u64>::new());
}

#[test]
fn unknown_child_is_ignored() {
    let mut sup = running(RestartStrategy::OneForOne, (5, 10), &[child(1, RestartType::Permanent)]);
    let r = sup.on_child_exit(42, Termination::Abnormal(1), 1);
    assert_eq!(r.action, ExitAction::Ignore);
    assert_eq!(r.event, None);
}

#[test]
fn stop_reverses_and_is_idempotent() {
    let abc = [
        child(1, RestartType::Permanent),
        child(2, RestartType::Permanent),
        child(3, RestartType::Permanent),
    ];
    let mut sup = running(RestartStrategy::OneForOne, (5, 10), &abc);
    assert_eq!(sup.stop(), vec![3, 2, 1]);
    assert_eq!(sup.status(), SupervisorStatus::Stopped);
    assert_eq!(sup.stop(), Vec::<u64>::new());
    assert_eq!(sup.status(), SupervisorStatus::Stopped);
    assert_eq!(sup.child_status(1), Some(ChildStatus::Stopped));
}

#[test]
fn stop_during_startup_stops_started_children() {
    let specs: Vec<ChildSpec> = (1..=3).map(|i| child(i, RestartType::Permanent)).collect();
    let mut sup = Supervisor::build(SupervisorConfig::default(), &specs).unwrap();
    sup.start();
    sup.child_start_result(Ok(()));
    sup.child_start_result(Ok(()));
    assert_eq!(sup.stop(), vec![2, 1]);
    assert_eq!(sup.status(), SupervisorStatus::Stopped);
}

#[test]
fn limiter_clock_going_back_counts_at_latest_time() {
    let mut l = RestartLimiter::new(2, 10);
    assert!(l.record_and_check(100));
    assert!(l.record_and_check(105));
    assert!(l.record_and_check(116));
    assert_eq!(l.recorded(), 1);
    // a report earlier than the latest restart counts at 116
    assert!(l.record_and_check(106));
    assert!(!l.record_and_check(107));
    assert_eq!(l.recorded(), 2);
}

#[test]
fn forced_terminations_are_warnings() {
    let abc = [
        child(1, RestartType::Permanent),
        child(2, RestartType::Permanent),
        child(3, RestartType::Permanent),
    ];
    let mut sup = running(RestartStrategy::OneForOne, (5, 10), &abc);
    assert_eq!(sup.stop(), vec![3, 2, 1]);
    assert!(sup.record_forced_termination(2));
    assert!(!sup.record_forced_termination(9));
    assert_eq!(sup.forced_terminations(), &vec![2]);
    assert_eq!(sup.status(), SupervisorStatus::Stopped);
}

#[test]
fn further_exits_after_denial_are_ignored() {
    let mut sup = running(RestartStrategy::OneForOne, (1, 10), &[child(1, RestartType::Permanent)]);
    assert!(matches!(
        sup.on_child_exit(1, Termination::Abnormal(2), 1).action,
        ExitAction::Restart { .. }
    ));
    assert!(matches!(
        sup.on_child_exit(1, Termination::Abnormal(2), 2).action,
        ExitAction::Escalate { .. }
    ));
    let r = sup.on_child_exit(1, Termination::Abnormal(2), 3);
    assert_eq!(r.action, ExitAction::Ignore);
    assert_eq!(r.event, None);
}
