use ark_manager::models::Schedule;
use ark_manager::scheduler::{ScheduledAction, SchedulerService, SchedulingError, TaskType};

const HOUR_START: i64 = 1_699_999_200;

fn entry(id: i64, task_type: &str, cron: &str, payload: Option<&str>, enabled: bool) -> Schedule {
    Schedule {
        id,
        server_id: 10 + id,
        task_type: task_type.to_string(),
        cron_expression: cron.to_string(),
        payload: payload.map(|p| p.to_string()),
        enabled,
        last_run: None,
    }
}

#[test]
fn task_type_names() {
    assert_eq!(TaskType::parse("restart"), Some(TaskType::Restart));
    assert_eq!(TaskType::parse("backup"), Some(TaskType::Backup));
    assert_eq!(TaskType::parse("update"), Some(TaskType::Update));
    assert_eq!(TaskType::parse("broadcast"), Some(TaskType::Broadcast));
    assert_eq!(TaskType::parse("Restart"), None);
}

#[test]
fn due_window_is_half_open() {
    assert!(SchedulerService::due(Some(100), 100));
    assert!(SchedulerService::due(Some(41), 100));
    assert!(!SchedulerService::due(Some(40), 100));
    assert!(!SchedulerService::due(Some(101), 100));
    assert!(!SchedulerService::due(None, 100));
}

#[test]
fn hourly_cron_due_only_near_the_hour() {
    assert_eq!(SchedulerService::is_due("0 0 * * * *", HOUR_START, 0), Ok(true));
    assert_eq!(SchedulerService::is_due("0 0 * * * *", HOUR_START + 59, 0), Ok(true));
    assert_eq!(SchedulerService::is_due("0 0 * * * *", HOUR_START + 60, 0), Ok(false));
    assert_eq!(SchedulerService::is_due("0 0 * * * *", HOUR_START - 1, 0), Ok(false));
}

#[test]
fn invalid_cron_is_an_error() {
    assert_eq!(SchedulerService::is_due("every day", HOUR_START, 0), Err(SchedulingError::InvalidCron));
    assert_eq!(SchedulerService::validate_cron("every day"), Err(SchedulingError::InvalidCron));
    assert_eq!(SchedulerService::validate_cron("0 * * * * *"), Ok(()));
}

#[test]
fn broadcast_command_text() {
    assert_eq!(SchedulerService::broadcast_command("Restart in 5 minutes"), "Broadcast Restart in 5 minutes");
}

#[test]
fn tick_dispatches_due_entries_and_records_last_run() {
    let mut schedules = vec![
        entry(1, "restart", "0 0 * * * *", None, true),
        entry(2, "backup", "0 0 * * * *", None, false),
        entry(3, "update", "not cron", None, true),
        entry(4, "broadcast", "0 0 * * * *", Some("hello"), true),
        entry(5, "dance", "0 * * * * *", None, true),
        entry(6, "backup", "0 30 * * * *", None, true),
        entry(7, "broadcast", "0 0 * * * *", None, true),
    ];
    let fired = SchedulerService::check_and_run_tasks(&mut schedules, HOUR_START, 0);
    let ids: Vec<i64> = fired.iter().map(|d| d.schedule_id).collect();
    assert_eq!(ids, vec![1, 4, 5, 7]);
    assert!(matches!(fired[0].action, Some(ScheduledAction::Restart)));
    assert_eq!(fired[0].server_id, 11);
    match &fired[1].action {
        Some(ScheduledAction::Broadcast(cmd)) => assert_eq!(cmd, "Broadcast hello"),
        _ => panic!("expected a broadcast"),
    }
    assert!(fired[2].action.is_none());
    assert!(fired[3].action.is_none());
    let runs: Vec<Option<i64>> = schedules.iter().map(|s| s.last_run).collect();
    assert_eq!(
        runs,
        vec![Some(HOUR_START), None, None, Some(HOUR_START), Some(HOUR_START), None, Some(HOUR_START)]
    );
}

#[test]
fn every_minute_entry_fires_once_per_tick() {
    let mut schedules = vec![entry(1, "backup", "0 * * * * *", None, true)];
    for k in 0..5 {
        let now = HOUR_START + 60 * k;
        let fired = SchedulerService::check_and_run_tasks(&mut schedules, now, 0);
        assert_eq!(fired.len(), 1);
        assert!(matches!(fired[0].action, Some(ScheduledAction::Backup)));
        assert_eq!(schedules[0].last_run, Some(now));
    }
}

#[test]
fn cron_fields_read_in_local_time() {
    // HOUR_START is 22:00 UTC, which is 07:00 at nine hours east of UTC.
    assert_eq!(SchedulerService::is_due("0 0 7 * * *", HOUR_START, 9 * 3600), Ok(true));
    assert_eq!(SchedulerService::is_due("0 0 7 * * *", HOUR_START, 0), Ok(false));
    assert_eq!(SchedulerService::is_due("0 0 22 * * *", HOUR_START, 0), Ok(true));
    assert_eq!(SchedulerService::is_due("0 0 22 * * *", HOUR_START, 9 * 3600), Ok(false));
    let mut schedules = vec![entry(1, "restart", "0 0 7 * * *", None, true)];
    assert!(SchedulerService::check_and_run_tasks(&mut schedules, HOUR_START, 0).is_empty());
    assert_eq!(schedules[0].last_run, None);
    let fired = SchedulerService::check_and_run_tasks(&mut schedules, HOUR_START, 9 * 3600);
    assert_eq!(fired.len(), 1);
    assert_eq!(schedules[0].last_run, Some(HOUR_START));
}
