use vstd::prelude::*;

verus! {

/// The two game editions a managed server can run.
#[derive(Debug, Clone, Copy, PartialEq, Eq, Structural)]
pub enum ServerType {
    ASE,
    ASA,
}

/// Name under which an edition is stored and shown.
pub open spec fn server_type_name(t: ServerType) -> Seq<char> {
    match t {
        ServerType::ASE => "ASE"@,
        ServerType::ASA => "ASA"@,
    }
}

impl ServerType {
    pub fn to_string(&self) -> (r: String)
        ensures
            r@ == server_type_name(*self),
    {
        match self {
            ServerType::ASE => String::from_str("ASE"),
            ServerType::ASA => String::from_str("ASA"),
        }
    }

    /// Parses an edition name; anything but the two exact names is refused
    /// with a message that quotes the input.
    pub fn from_str(s: &str) -> (r: Result<ServerType, String>)
        ensures
            match r {
                Ok(t) => server_type_name(t) == s@,
                Err(msg) => s@ != "ASE"@ && s@ != "ASA"@ && msg@ == "Invalid server type: "@ + s@,
            },
    {
        let owned = String::from_str(s);
        let ase = String::from_str("ASE");
        let asa = String::from_str("ASA");
        if owned == ase {
            Ok(ServerType::ASE)
        } else if owned == asa {
            Ok(ServerType::ASA)
        } else {
            Err(String::from_str("Invalid server type: ").concat(s))
        }
    }
}

/// Observed state of a managed server.
#[derive(Debug, Clone, Copy, PartialEq, Eq, Structural)]
pub enum ServerStatus {
    Stopped,
    Starting,
    Running,
    Crashed,
    Updating,
    Installing,
}

/// Name under which a status is stored and shown.
pub open spec fn server_status_name(s: ServerStatus) -> Seq<char> {
    match s {
        ServerStatus::Stopped => "stopped"@,
        ServerStatus::Starting => "starting"@,
        ServerStatus::Running => "running"@,
        ServerStatus::Crashed => "crashed"@,
        ServerStatus::Updating => "updating"@,
        ServerStatus::Installing => "installing"@,
    }
}

impl ServerStatus {
    pub fn to_string(&self) -> (r: String)
        ensures
            r@ == server_status_name(*self),
    {
        match self {
            ServerStatus::Stopped => String::from_str("stopped"),
            ServerStatus::Starting => String::from_str("starting"),
            ServerStatus::Running => String::from_str("running"),
            ServerStatus::Crashed => String::from_str("crashed"),
            ServerStatus::Updating => String::from_str("updating"),
            ServerStatus::Installing => String::from_str("installing"),
        }
    }
}

/// A persisted server: identity, launch configuration, observed status and
/// the last known OS process id.
#[derive(Debug, Clone)]
pub struct Server {
    pub id: i64,
    pub name: String,
    pub server_type: ServerType,
    pub install_path: String,
    pub status: ServerStatus,
    pub ports: ServerPorts,
    pub config: ServerConfig,
    pub created_at: String,
    pub last_started: Option<String>,
    pub pid: Option<u32>,
}

#[derive(Debug, Clone, Copy, PartialEq, Eq, Structural)]
pub struct ServerPorts {
    pub game_port: u16,
    pub query_port: u16,
    pub rcon_port: u16,
}

#[derive(Debug, Clone)]
pub struct ServerConfig {
    pub max_players: i32,
    pub server_password: Option<String>,
    pub admin_password: String,
    pub map_name: String,
    pub session_name: String,
    pub motd: Option<String>,
    pub battleye_enabled: bool,
    pub multihome_ip: Option<String>,
    pub crossplay_enabled: bool,
    pub auto_restart: Option<bool>,
    pub auto_update: Option<bool>,
}

#[derive(Debug, Clone)]
pub struct ModInfo {
    pub id: String,
    pub name: String,
    pub version: Option<String>,
    pub author: Option<String>,
    pub description: Option<String>,
    pub thumbnail_url: Option<String>,
    pub downloads: Option<String>,
    pub compatible: Option<bool>,
    pub workshop_url: Option<String>,
    pub server_type: ServerType,
    pub enabled: bool,
    pub load_order: i32,
}

#[derive(Debug, Clone)]
pub struct Backup {
    pub id: i64,
    pub server_id: i64,
    pub backup_type: BackupType,
    pub file_path: String,
    pub size: i64,
    pub includes_configs: bool,
    pub includes_mods: bool,
    pub includes_saves: bool,
    pub includes_cluster: bool,
    pub created_at: String,
}

#[derive(Debug, Clone, Copy, PartialEq, Eq, Structural)]
pub enum BackupType {
    Auto,
    Manual,
    PreUpdate,
}

/// Name under which a backup kind is stored and shown.
pub open spec fn backup_type_name(t: BackupType) -> Seq<char> {
    match t {
        BackupType::Auto => "auto"@,
        BackupType::Manual => "manual"@,
        BackupType::PreUpdate => "pre-update"@,
    }
}

impl BackupType {
    pub fn to_string(&self) -> (r: String)
        ensures
            r@ == backup_type_name(*self),
    {
        match self {
            BackupType::Auto => String::from_str("auto"),
            BackupType::Manual => String::from_str("manual"),
            BackupType::PreUpdate => String::from_str("pre-update"),
        }
    }
}

#[derive(Debug, Clone)]
pub struct Cluster {
    pub id: i64,
    pub name: String,
    pub cluster_path: String,
    pub server_ids: Vec<i64>,
    pub created_at: String,
}

/// A scheduled maintenance action as stored: the task kind is kept as its
/// stored name, `last_run` as seconds since the Unix epoch.
#[derive(Debug, Clone)]
pub struct Schedule {
    pub id: i64,
    pub server_id: i64,
    pub task_type: String,
    pub cron_expression: String,
    pub payload: Option<String>,
    pub enabled: bool,
    pub last_run: Option<i64>,
}

/// One entry of a backup archive listing.
#[derive(Debug, Clone)]
pub struct BackupFileInfo {
    pub name: String,
    pub path: String,
    pub size: u64,
    pub is_dir: bool,
}

#[derive(Debug, Clone)]
pub struct TribeFile {
    pub name: String,
    pub size: u64,
    pub last_modified: String,
}

#[derive(Debug, Clone)]
pub struct FileInfo {
    pub name: String,
    pub path: String,
    pub is_dir: bool,
    pub size: u64,
    pub modified: Option<u64>,
}

#[derive(Debug, Clone)]
pub struct DiscordBotConfig {
    pub token: String,
    pub enabled: bool,
    pub guild_id: Option<String>,
    pub admin_role_id: Option<String>,
    pub allowed_channels: Vec<String>,
}

#[derive(Debug, Clone)]
pub struct BotStatus {
    pub is_running: bool,
    pub connected: bool,
}

/// The host needs no .NET runtime for the game servers, so that
/// prerequisite always counts as present.
pub fn check_dotnet() -> (r: bool)
    ensures
        r,
{
    true
}

/// Readiness of the host's prerequisites.
#[derive(Debug, Clone, Copy, PartialEq, Eq, Structural)]
pub struct DependencyStatus {
    pub steamcmd_installed: bool,
    pub vcredist_installed: bool,
    pub dotnet_installed: bool,
}

#[derive(Debug, Clone)]
pub struct AppUpdateInfo {
    pub version: String,
    pub download_url: String,
    pub release_notes: String,
}

} // verus!
