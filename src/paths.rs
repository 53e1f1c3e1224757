use vstd::prelude::*;
use crate::models::ServerType;

verus! {

/// True of the two characters that end a directory name on the hosts this
/// manager runs on.
pub open spec fn is_separator(c: char) -> bool {
    c == '/' || c == '\\'
}

/// `rel` placed under the directory `base`, with one separator between them.
pub open spec fn join_spec(base: Seq<char>, rel: Seq<char>) -> Seq<char> {
    if base.len() == 0 {
        rel
    } else if is_separator(base.last()) {
        base + rel
    } else {
        base + "/"@ + rel
    }
}

/// Where an edition keeps its server binary, relative to the install directory.
pub open spec fn executable_rel_spec(t: ServerType) -> Seq<char> {
    match t {
        ServerType::ASE => "ShooterGame/Binaries/Win64/ShooterGameServer.exe"@,
        ServerType::ASA => "ShooterGame/Binaries/Win64/ArkAscendedServer.exe"@,
    }
}

pub open spec fn config_rel_spec() -> Seq<char> {
    "ShooterGame/Saved/Config/WindowsServer/GameUserSettings.ini"@
}

pub open spec fn whitelist_rel_spec() -> Seq<char> {
    "ShooterGame/Binaries/Win64/PlayersExclusiveJoinList.txt"@
}

/// Joins a relative path under a directory.
pub fn join_path(base: &str, rel: &str) -> (r: String)
    ensures
        r@ == join_spec(base@, rel@),
{
    let n = base.unicode_len();
    if n == 0 {
        String::from_str(rel)
    } else {
        let c = base.get_char(n - 1);
        if c == '/' || c == '\\' {
            String::from_str(base).concat(rel)
        } else {
            String::from_str(base).concat("/").concat(rel)
        }
    }
}

/// Full path of the server binary of an edition installed under `install_path`.
pub fn executable_path(server_type: ServerType, install_path: &str) -> (r: String)
    ensures
        r@ == join_spec(install_path@, executable_rel_spec(server_type)),
{
    match server_type {
        ServerType::ASE => join_path(install_path, "ShooterGame/Binaries/Win64/ShooterGameServer.exe"),
        ServerType::ASA => join_path(install_path, "ShooterGame/Binaries/Win64/ArkAscendedServer.exe"),
    }
}

/// Path of the game settings file of an installation.
pub fn get_config_path(install_path: &str) -> (r: String)
    ensures
        r@ == join_spec(install_path@, config_rel_spec()),
{
    join_path(install_path, "ShooterGame/Saved/Config/WindowsServer/GameUserSettings.ini")
}

/// Path of the exclusive-join list of an installation.
pub fn get_whitelist_path(install_path: &str) -> (r: String)
    ensures
        r@ == join_spec(install_path@, whitelist_rel_spec()),
{
    join_path(install_path, "ShooterGame/Binaries/Win64/PlayersExclusiveJoinList.txt")
}

} // verus!
