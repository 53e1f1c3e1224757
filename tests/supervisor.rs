use ark_manager::launch::{decimal, launch_args, signed_decimal, LaunchSettings};
use ark_manager::models::ServerPorts;
use ark_manager::models::ServerType;
use ark_manager::supervisor::{ProcessError, ProcessManager};

fn settings(server_type: &str) -> LaunchSettings {
    LaunchSettings {
        server_type: server_type.to_string(),
        install_path: "C:/ark".to_string(),
        map_name: "TheIsland".to_string(),
        session_name: "My Server".to_string(),
        ports: ServerPorts { game_port: 7777, query_port: 27015, rcon_port: 27020 },
        max_players: 70,
        server_password: Some("secret".to_string()),
        admin_password: "admin".to_string(),
        use_battleye: false,
        multihome_ip: Some(String::new()),
        crossplay_enabled: true,
    }
}

#[test]
fn decimal_renders_digits() {
    assert_eq!(decimal(0), "0");
    assert_eq!(decimal(7), "7");
    assert_eq!(decimal(27015), "27015");
    assert_eq!(decimal(u64::MAX), "18446744073709551615");
    assert_eq!(signed_decimal(-42), "-42");
    assert_eq!(signed_decimal(i64::MIN), "-9223372036854775808");
}

#[test]
fn launch_args_for_ase_with_crossplay() {
    let args = launch_args(&settings("ASE"), ServerType::ASE);
    assert_eq!(
        args,
        vec![
            "TheIsland",
            "listen",
            "?SessionName=My Server",
            "?Port=7777",
            "?QueryPort=27015",
            "?RCONPort=27020",
            "?MaxPlayers=70",
            "?ServerAdminPassword=admin",
            "?ServerPassword=secret",
            "-log",
            "-NoBattlEye",
            "-crossplay",
        ]
    );
}

#[test]
fn launch_args_for_asa_with_battleye_and_multihome() {
    let mut s = settings("ASA");
    s.use_battleye = true;
    s.server_password = None;
    s.multihome_ip = Some("10.0.0.5".to_string());
    let args = launch_args(&s, ServerType::ASA);
    assert_eq!(
        args,
        vec![
            "TheIsland",
            "listen",
            "?SessionName=My Server",
            "?Port=7777",
            "?QueryPort=27015",
            "?RCONPort=27020",
            "?MaxPlayers=70",
            "?ServerAdminPassword=admin",
            "?MultiHome=10.0.0.5",
            "-log",
        ]
    );
}

#[test]
fn launch_plan_resolves_binary() {
    let pm: ProcessManager<u32> = ProcessManager::new();
    let plan = pm.launch_plan(1, &settings("ASA")).unwrap();
    assert_eq!(plan.executable, "C:/ark/ShooterGame/Binaries/Win64/ArkAscendedServer.exe");
    let plan = pm.launch_plan(1, &settings("ASE")).unwrap();
    assert_eq!(plan.executable, "C:/ark/ShooterGame/Binaries/Win64/ShooterGameServer.exe");
    assert_eq!(plan.args.len(), 12);
}

#[test]
fn launch_plan_refuses_unknown_type_and_running_server() {
    let mut pm: ProcessManager<u32> = ProcessManager::new();
    assert_eq!(pm.launch_plan(1, &settings("ARK2")).unwrap_err(), ProcessError::InvalidServerType);
    pm.register(1, 4242).unwrap();
    assert_eq!(pm.launch_plan(1, &settings("ASE")).unwrap_err(), ProcessError::AlreadyRunning);
}

#[test]
fn register_refuses_second_handle() {
    let mut pm: ProcessManager<u32> = ProcessManager::new();
    assert!(pm.register(1, 100).is_ok());
    assert_eq!(pm.register(1, 200), Err(200));
    assert_eq!(pm.entries().len(), 1);
    assert_eq!(pm.entries()[0], (1, 100));
    assert!(pm.is_running(1));
    assert!(!pm.is_running(2));
}

#[test]
fn stop_server_removes_handle() {
    let mut pm: ProcessManager<u32> = ProcessManager::new();
    pm.register(1, 100).unwrap();
    pm.register(2, 200).unwrap();
    assert_eq!(pm.stop_server(1), Ok(100));
    assert!(!pm.is_running(1));
    assert!(pm.is_running(2));
    assert_eq!(pm.stop_server(1), Err(ProcessError::NotRunning));
    // A deliberate stop is not reported by the next reap.
    assert_eq!(pm.check_dead_processes(&vec![]), vec![]);
}

#[test]
fn reap_reports_and_deregisters_each_exit_once() {
    let mut pm: ProcessManager<u32> = ProcessManager::new();
    pm.register(1, 100).unwrap();
    pm.register(2, 200).unwrap();
    pm.register(3, 300).unwrap();
    let polled = vec![(2, Some(0)), (9, Some(1)), (2, Some(0)), (3, None)];
    let reaped = pm.check_dead_processes(&polled);
    assert_eq!(reaped, vec![(2, Some(0)), (3, None)]);
    assert!(pm.is_running(1));
    assert!(!pm.is_running(2));
    assert!(!pm.is_running(3));
    // Absent until the next successful start.
    assert_eq!(pm.check_dead_processes(&vec![(2, Some(0))]), vec![]);
    assert!(pm.register(2, 201).is_ok());
    assert!(pm.is_running(2));
}

#[test]
fn force_stop_is_reported_by_next_reap() {
    let mut pm: ProcessManager<u32> = ProcessManager::new();
    pm.register(2, 200).unwrap();
    assert_eq!(pm.force_stop(2), Ok(200));
    assert!(!pm.is_running(2));
    assert_eq!(pm.force_stop(2), Err(ProcessError::NotRunning));
    assert_eq!(pm.check_dead_processes(&vec![]), vec![(2, None)]);
    assert_eq!(pm.check_dead_processes(&vec![]), vec![]);
}

#[test]
fn restart_supersedes_pending_forced_stop() {
    let mut pm: ProcessManager<u32> = ProcessManager::new();
    pm.register(2, 200).unwrap();
    pm.force_stop(2).unwrap();
    pm.register(2, 201).unwrap();
    assert_eq!(pm.check_dead_processes(&vec![]), vec![]);
    assert!(pm.is_running(2));
}

#[test]
fn competing_start_attempts_keep_one_handle() {
    let mut pm: ProcessManager<u32> = ProcessManager::new();
    let successes = (0..8u32).filter(|k| pm.register(5, *k).is_ok()).count();
    assert_eq!(successes, 1);
    assert_eq!(pm.entries().iter().filter(|e| e.0 == 5).count(), 1);
    assert_eq!(pm.stop_server(5), Ok(0));
}
