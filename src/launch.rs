use vstd::prelude::*;
use crate::models::{ServerPorts, ServerType, server_type_name};
use crate::paths::{executable_path, executable_rel_spec, join_spec};
use crate::supervisor::{ProcessError, ProcessManager};

verus! {

/// The decimal digit `d` as a one-character string.
pub open spec fn digit_spec(d: nat) -> Seq<char> {
    "0123456789"@.subrange(d as int, d as int + 1)
}

/// Decimal rendering of a natural number, without leading zeros.
pub open spec fn decimal_spec(n: nat) -> Seq<char>
    decreases n,
{
    if n < 10 {
        digit_spec(n)
    } else {
        decimal_spec(n / 10) + digit_spec(n % 10)
    }
}

/// Decimal rendering of an integer, with a leading minus when negative.
pub open spec fn signed_decimal_spec(n: int) -> Seq<char> {
    if n < 0 {
        "-"@ + decimal_spec((-n) as nat)
    } else {
        decimal_spec(n as nat)
    }
}

pub fn decimal(n: u64) -> (r: String)
    ensures
        r@ == decimal_spec(n as nat),
    decreases n,
{
    proof {
        reveal_strlit("0123456789");
    }
    let d = (n % 10) as usize;
    let digit = "0123456789".substring_char(d, d + 1);
    if n < 10 {
        String::from_str(digit)
    } else {
        decimal(n / 10).concat(digit)
    }
}

pub fn signed_decimal(n: i64) -> (r: String)
    ensures
        r@ == signed_decimal_spec(n as int),
{
    if n < 0 {
        let magnitude: u64 = if n == i64::MIN {
            9223372036854775808u64
        } else {
            (-n) as u64
        };
        String::from_str("-").concat(decimal(magnitude).as_str())
    } else {
        decimal(n as u64)
    }
}

/// What is needed to launch one server process.
#[derive(Debug, Clone)]
pub struct LaunchSettings {
    pub server_type: String,
    pub install_path: String,
    pub map_name: String,
    pub session_name: String,
    pub ports: ServerPorts,
    pub max_players: i32,
    pub server_password: Option<String>,
    pub admin_password: String,
    pub use_battleye: bool,
    pub multihome_ip: Option<String>,
    pub crossplay_enabled: bool,
}

/// A resolved launch: the binary to run and its ordered arguments.
#[derive(Debug, Clone)]
pub struct LaunchPlan {
    pub executable: String,
    pub args: Vec<String>,
}

/// The character sequences that a list of strings holds.
pub open spec fn strings_view(v: Seq<String>) -> Seq<Seq<char>> {
    v.map_values(|x: String| x@)
}

/// The argument list the server binary is started with.
pub open spec fn launch_args_spec(s: LaunchSettings, t: ServerType) -> Seq<Seq<char>> {
    let base = seq![
        s.map_name@,
        "listen"@,
        "?SessionName="@ + s.session_name@,
        "?Port="@ + decimal_spec(s.ports.game_port as nat),
        "?QueryPort="@ + decimal_spec(s.ports.query_port as nat),
        "?RCONPort="@ + decimal_spec(s.ports.rcon_port as nat),
        "?MaxPlayers="@ + signed_decimal_spec(s.max_players as int),
        "?ServerAdminPassword="@ + s.admin_password@,
    ];
    let with_password = match s.server_password {
        Some(p) => base.push("?ServerPassword="@ + p@),
        None => base,
    };
    let with_multihome = match s.multihome_ip {
        Some(ip) => if ip@.len() > 0 {
            with_password.push("?MultiHome="@ + ip@)
        } else {
            with_password
        },
        None => with_password,
    };
    let with_log = with_multihome.push("-log"@);
    let with_battleye = if !s.use_battleye {
        with_log.push("-NoBattlEye"@)
    } else {
        with_log
    };
    if s.crossplay_enabled && t == ServerType::ASE {
        with_battleye.push("-crossplay"@)
    } else {
        with_battleye
    }
}

fn push_arg(args: &mut Vec<String>, prefix: &str, value: &str)
    ensures
        strings_view(final(args)@) == strings_view(old(args)@).push(prefix@ + value@),
{
    args.push(String::from_str(prefix).concat(value));
    assert(strings_view(args@) =~= strings_view(old(args)@).push(prefix@ + value@));
}

/// Builds the ordered argument list for an edition.
pub fn launch_args(s: &LaunchSettings, t: ServerType) -> (r: Vec<String>)
    ensures
        strings_view(r@) == launch_args_spec(*s, t),
{
    let mut args: Vec<String> = Vec::new();
    push_arg(&mut args, s.map_name.as_str(), "");
    push_arg(&mut args, "listen", "");
    push_arg(&mut args, "?SessionName=", s.session_name.as_str());
    push_arg(&mut args, "?Port=", decimal(s.ports.game_port as u64).as_str());
    push_arg(&mut args, "?QueryPort=", decimal(s.ports.query_port as u64).as_str());
    push_arg(&mut args, "?RCONPort=", decimal(s.ports.rcon_port as u64).as_str());
    push_arg(&mut args, "?MaxPlayers=", signed_decimal(s.max_players as i64).as_str());
    push_arg(&mut args, "?ServerAdminPassword=", s.admin_password.as_str());
    proof {
        reveal_strlit("");
        assert(strings_view(args@) =~= seq![
            s.map_name@,
            "listen"@,
            "?SessionName="@ + s.session_name@,
            "?Port="@ + decimal_spec(s.ports.game_port as nat),
            "?QueryPort="@ + decimal_spec(s.ports.query_port as nat),
            "?RCONPort="@ + decimal_spec(s.ports.rcon_port as nat),
            "?MaxPlayers="@ + signed_decimal_spec(s.max_players as int),
            "?ServerAdminPassword="@ + s.admin_password@,
        ]);
    }
    match &s.server_password {
        Some(p) => push_arg(&mut args, "?ServerPassword=", p.as_str()),
        None => {},
    }
    match &s.multihome_ip {
        Some(ip) => {
            if ip.as_str().unicode_len() > 0 {
                push_arg(&mut args, "?MultiHome=", ip.as_str());
            }
        },
        None => {},
    }
    push_arg(&mut args, "-log", "");
    if !s.use_battleye {
        push_arg(&mut args, "-NoBattlEye", "");
    }
    if s.crossplay_enabled && t == ServerType::ASE {
        push_arg(&mut args, "-crossplay", "");
    }
    proof {
        assert("-log"@ + ""@ =~= "-log"@);
        assert("-NoBattlEye"@ + ""@ =~= "-NoBattlEye"@);
        assert("-crossplay"@ + ""@ =~= "-crossplay"@);
    }
    args
}

/// The stored edition name `name` parses to an edition.
pub open spec fn names_type(name: Seq<char>, t: ServerType) -> bool {
    server_type_name(t) == name
}

impl<H> ProcessManager<H> {
    /// Resolves how to start the server: refused when a process is already
    /// registered for it or its edition name is unknown; otherwise the binary
    /// under the install directory and the argument list. Whether the binary
    /// exists is for the caller to check before spawning.
    pub fn launch_plan(&self, server_id: i64, s: &LaunchSettings) -> (r: Result<LaunchPlan, ProcessError>)
        requires
            self.wf(),
        ensures
            self@.contains_key(server_id) ==> r == Err::<LaunchPlan, ProcessError>(ProcessError::AlreadyRunning),
            !self@.contains_key(server_id) && s.server_type@ != "ASE"@ && s.server_type@ != "ASA"@
                ==> r == Err::<LaunchPlan, ProcessError>(ProcessError::InvalidServerType),
            r is Ok <==> (!self@.contains_key(server_id) && (s.server_type@ == "ASE"@ || s.server_type@ == "ASA"@)),
            match r {
                Ok(plan) => exists|t: ServerType| #[trigger] names_type(s.server_type@, t)
                    && plan.executable@ == join_spec(s.install_path@, executable_rel_spec(t))
                    && strings_view(plan.args@) == launch_args_spec(*s, t),
                Err(_) => true,
            },
    {
        if self.is_running(server_id) {
            return Err(ProcessError::AlreadyRunning);
        }
        match ServerType::from_str(s.server_type.as_str()) {
            Err(_) => Err(ProcessError::InvalidServerType),
            Ok(t) => {
                let executable = executable_path(t, s.install_path.as_str());
                let args = launch_args(s, t);
                assert(names_type(s.server_type@, t));
                Ok(LaunchPlan { executable, args })
            },
        }
    }
}

} // verus!
