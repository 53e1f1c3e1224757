use ark_manager::models::{check_dotnet, BackupType, ServerStatus, ServerType};
use ark_manager::mod_compat::ModCompatibilityService;
use ark_manager::paths::{get_config_path, get_whitelist_path, join_path};
use ark_manager::rcon::{trim_text, RconClient};

#[test]
fn server_type_names() {
    assert_eq!(ServerType::ASE.to_string(), "ASE");
    assert_eq!(ServerType::ASA.to_string(), "ASA");
    assert_eq!(ServerType::from_str("ASA"), Ok(ServerType::ASA));
    assert_eq!(ServerType::from_str("ase"), Err("Invalid server type: ase".to_string()));
}

#[test]
fn status_and_backup_names() {
    assert_eq!(ServerStatus::Running.to_string(), "running");
    assert_eq!(ServerStatus::Crashed.to_string(), "crashed");
    assert_eq!(ServerStatus::Installing.to_string(), "installing");
    assert_eq!(BackupType::PreUpdate.to_string(), "pre-update");
    assert_eq!(BackupType::Auto.to_string(), "auto");
    assert!(check_dotnet());
}

#[test]
fn paths_join_under_install_dir() {
    assert_eq!(join_path("C:/ark", "a.txt"), "C:/ark/a.txt");
    assert_eq!(join_path("C:\\ark\\", "a.txt"), "C:\\ark\\a.txt");
    assert_eq!(join_path("", "a.txt"), "a.txt");
    assert_eq!(
        get_config_path("/srv/ark"),
        "/srv/ark/ShooterGame/Saved/Config/WindowsServer/GameUserSettings.ini"
    );
    assert_eq!(
        get_whitelist_path("/srv/ark/"),
        "/srv/ark/ShooterGame/Binaries/Win64/PlayersExclusiveJoinList.txt"
    );
}

#[test]
fn trim_removes_unicode_whitespace() {
    assert_eq!(trim_text("  a b \t\r\n"), "a b");
    assert_eq!(trim_text("\u{3000}x\u{a0}"), "x");
    assert_eq!(trim_text(" \n "), "");
}

#[test]
fn no_players_reply_is_empty_list() {
    assert_eq!(RconClient::parse_players("No Players Connected"), Vec::<String>::new());
    assert_eq!(RconClient::parse_players("  No Players Connected \n"), Vec::<String>::new());
}

#[test]
fn player_lines_are_trimmed_and_blank_ones_dropped() {
    let reply = " 0. Alice, 76561198000000001 \r\n\n  \n1. Bob, 76561198000000002\n";
    assert_eq!(
        RconClient::parse_players(reply),
        vec!["0. Alice, 76561198000000001".to_string(), "1. Bob, 76561198000000002".to_string()]
    );
    assert_eq!(RconClient::parse_players(""), Vec::<String>::new());
    assert_eq!(RconClient::list_players_command(), "ListPlayers");
}

#[test]
fn conflicts_need_both_mods_active() {
    let active = vec!["731604991".to_string(), "1999447172".to_string(), "123".to_string()];
    let found = ModCompatibilityService::check_conflicts(&active);
    assert_eq!(found.len(), 1);
    assert_eq!(found[0].mod_id_a, "731604991");
    assert_eq!(found[0].mod_id_b, "1999447172");
    assert_eq!(found[0].severity, "critical");
    let found = ModCompatibilityService::check_conflicts(&["731604991".to_string()]);
    assert!(found.is_empty());
    let found = ModCompatibilityService::check_conflicts(&["1404697612".to_string()]);
    assert_eq!(found.len(), 1);
    assert_eq!(found[0].severity, "warning");
    assert!(ModCompatibilityService::check_conflicts(&[]).is_empty());
}
