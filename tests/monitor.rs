use ark_manager::models::ServerStatus;
use ark_manager::monitor::{Notice, NoticeKind, PidRecord, ServerMonitorService};
use ark_manager::supervisor::ProcessManager;

/// One fast-loop tick over the registry; `restart_ok` says whether a restart
/// attempt succeeds. Returns the outcomes and how many restarts were tried.
fn fast_tick(
    pm: &mut ProcessManager<u32>,
    mon: &mut ServerMonitorService,
    polled: &Vec<(i64, Option<i32>)>,
    auto_restart: bool,
    restart_ok: bool,
) -> (Vec<ark_manager::monitor::ExitOutcome>, usize) {
    let mut restarts = 0;
    let mut outcomes = Vec::new();
    for (id, code) in pm.check_dead_processes(polled) {
        let plan = ServerMonitorService::plan_exit(id, code, auto_restart);
        let mut ok = false;
        if plan.restart {
            restarts += 1;
            if restart_ok {
                ok = pm.register(id, 9000 + id as u32).is_ok();
            }
        }
        outcomes.push(mon.settle_exit(&plan, ok));
    }
    (outcomes, restarts)
}

#[test]
fn classify_exit_codes() {
    assert_eq!(ServerMonitorService::classify_exit(Some(0)), ServerStatus::Stopped);
    assert_eq!(ServerMonitorService::classify_exit(Some(1)), ServerStatus::Crashed);
    assert_eq!(ServerMonitorService::classify_exit(Some(137)), ServerStatus::Crashed);
    assert_eq!(ServerMonitorService::classify_exit(None), ServerStatus::Crashed);
}

#[test]
fn scenario_clean_exit_is_stopped_without_restart() {
    let mut pm: ProcessManager<u32> = ProcessManager::new();
    let mut mon = ServerMonitorService::new();
    pm.register(1, 100).unwrap();
    let (outcomes, restarts) = fast_tick(&mut pm, &mut mon, &vec![(1, Some(0))], true, true);
    assert_eq!(restarts, 0);
    assert_eq!(outcomes.len(), 1);
    assert_eq!(outcomes[0].status, ServerStatus::Stopped);
    assert_eq!(outcomes[0].exit_code, Some(0));
    assert_eq!(outcomes[0].notice, None);
    assert!(!pm.is_running(1));
}

#[test]
fn scenario_crash_137_restarted() {
    let mut pm: ProcessManager<u32> = ProcessManager::new();
    let mut mon = ServerMonitorService::new();
    pm.register(1, 100).unwrap();
    let (outcomes, restarts) = fast_tick(&mut pm, &mut mon, &vec![(1, Some(137))], true, true);
    assert_eq!(restarts, 1);
    assert_eq!(outcomes[0].status, ServerStatus::Running);
    assert_eq!(outcomes[0].notice, Some(Notice { kind: NoticeKind::Restarted, server_id: 1 }));
    assert!(pm.is_running(1));
}

#[test]
fn crash_with_failed_restart_stays_crashed() {
    let mut pm: ProcessManager<u32> = ProcessManager::new();
    let mut mon = ServerMonitorService::new();
    pm.register(3, 300).unwrap();
    let (outcomes, restarts) = fast_tick(&mut pm, &mut mon, &vec![(3, Some(1))], true, false);
    assert_eq!(restarts, 1);
    assert_eq!(outcomes[0].status, ServerStatus::Crashed);
    assert_eq!(outcomes[0].notice, Some(Notice { kind: NoticeKind::Crashed, server_id: 3 }));
    assert!(!pm.is_running(3));
}

#[test]
fn crash_without_auto_restart_stays_crashed() {
    let mut pm: ProcessManager<u32> = ProcessManager::new();
    let mut mon = ServerMonitorService::new();
    pm.register(4, 400).unwrap();
    let (outcomes, restarts) = fast_tick(&mut pm, &mut mon, &vec![(4, Some(1))], false, true);
    assert_eq!(restarts, 0);
    assert_eq!(outcomes[0].status, ServerStatus::Crashed);
    for _ in 0..20 {
        let (later, more) = fast_tick(&mut pm, &mut mon, &vec![(4, Some(1))], false, true);
        assert!(later.is_empty());
        assert_eq!(more, 0);
    }
    assert!(!ServerMonitorService::should_probe(ServerStatus::Crashed, true));
}

#[test]
fn scenario_frozen_server_stopped_once_then_restarted() {
    let mut pm: ProcessManager<u32> = ProcessManager::new();
    let mut mon = ServerMonitorService::new();
    pm.register(2, 200).unwrap();
    assert!(ServerMonitorService::should_probe(ServerStatus::Running, true));
    let mut stops = 0;
    for _ in 0..3 {
        if mon.record_probe(2, false) {
            assert!(pm.force_stop(2).is_ok());
            stops += 1;
        }
    }
    assert_eq!(stops, 1);
    assert!(!pm.is_running(2));
    let (outcomes, restarts) = fast_tick(&mut pm, &mut mon, &vec![], true, true);
    assert_eq!(restarts, 1);
    assert_eq!(outcomes[0].server_id, 2);
    assert_eq!(outcomes[0].exit_code, None);
    assert_eq!(outcomes[0].status, ServerStatus::Running);
    assert!(pm.is_running(2));
}

#[test]
fn probe_success_resets_counter() {
    let mut mon = ServerMonitorService::new();
    assert!(!mon.record_probe(2, false));
    assert!(!mon.record_probe(2, false));
    assert!(!mon.record_probe(2, true));
    assert!(!mon.record_probe(2, false));
    assert!(!mon.record_probe(2, false));
    assert!(mon.record_probe(2, false));
    // Counter cleared after the stop: three more failures are needed.
    assert!(!mon.record_probe(2, false));
    assert!(!mon.record_probe(2, false));
    assert!(mon.record_probe(2, false));
}

#[test]
fn restart_dispatch_resets_counter() {
    let mut mon = ServerMonitorService::new();
    assert!(!mon.record_probe(6, false));
    assert!(!mon.record_probe(6, false));
    let plan = ServerMonitorService::plan_exit(6, Some(1), true);
    mon.settle_exit(&plan, true);
    assert!(!mon.record_probe(6, false));
    assert!(!mon.record_probe(6, false));
    assert!(mon.record_probe(6, false));
}

#[test]
fn probing_skips_servers_not_running_or_without_auto_restart() {
    assert!(!ServerMonitorService::should_probe(ServerStatus::Running, false));
    assert!(!ServerMonitorService::should_probe(ServerStatus::Stopped, true));
    assert!(!ServerMonitorService::should_probe(ServerStatus::Updating, true));
}

#[test]
fn watchdog_runs_every_twelfth_tick() {
    let mut mon = ServerMonitorService::new();
    let due: Vec<bool> = (0..24).map(|_| mon.next_tick()).collect();
    for (k, d) in due.iter().enumerate() {
        assert_eq!(*d, (k + 1) % 12 == 0);
    }
}

#[test]
fn reconcile_marks_dead_running_servers() {
    let records = vec![
        PidRecord { server_id: 1, status: ServerStatus::Running, pid: Some(1234), alive: false },
        PidRecord { server_id: 2, status: ServerStatus::Running, pid: Some(2345), alive: true },
        PidRecord { server_id: 3, status: ServerStatus::Running, pid: None, alive: false },
        PidRecord { server_id: 4, status: ServerStatus::Running, pid: Some(0), alive: true },
        PidRecord { server_id: 5, status: ServerStatus::Stopped, pid: Some(77), alive: false },
    ];
    assert_eq!(ServerMonitorService::reconcile(&records), vec![1, 3, 4]);
    assert_eq!(ServerMonitorService::reconcile(&vec![]), Vec::<i64>::new());
}

#[test]
fn notice_texts() {
    let n = Notice { kind: NoticeKind::Restarted, server_id: 7 };
    assert_eq!(n.title(), "Server Restarted");
    assert_eq!(n.message("My Server"), "Server My Server crashed and was auto-restarted.");
    let n = Notice { kind: NoticeKind::Crashed, server_id: 12 };
    assert_eq!(n.title(), "Server Crashed");
    assert_eq!(n.message("My Server"), "Server 12 has crashed!");
    let n = Notice { kind: NoticeKind::Frozen, server_id: 2 };
    assert_eq!(n.title(), "Watchdog Triggered");
    assert_eq!(n.message(""), "Server 2 was frozen and is being restarted.");
}

#[test]
fn scheduled_restart_clears_failures() {
    let mut mon = ServerMonitorService::new();
    assert!(!mon.record_probe(8, false));
    assert!(!mon.record_probe(8, false));
    mon.clear_failures(8);
    assert!(!mon.record_probe(8, false));
    assert!(!mon.record_probe(8, false));
    assert!(mon.record_probe(8, false));
}
