//! The commands that the monitor runs on a server, and the reading of what
//! they answer for systemd services.
use vstd::prelude::*;
use crate::text::{chars_of, same_chars, trim, trimmed};
use crate::parse::trimmed_string;

verus! {

/// A character allowed in a service name: an ASCII letter or digit, or one
/// of `.`, `_`, `-`, `:`, `@`.
pub open spec fn is_service_char(c: char) -> bool {
    ||| ('a' <= c && c <= 'z')
    ||| ('A' <= c && c <= 'Z')
    ||| ('0' <= c && c <= '9')
    ||| c == '.'
    ||| c == '_'
    ||| c == '-'
    ||| c == ':'
    ||| c == '@'
}

/// A service name that may be put on a command line: not empty, and made of
/// allowed characters only.
pub open spec fn is_safe_service(name: Seq<char>) -> bool {
    name.len() > 0 && forall|i: int| 0 <= i < name.len() ==> is_service_char(#[trigger] name[i])
}

/// Whether a service name is not empty and made of ASCII letters, digits and
/// `.`, `_`, `-`, `:`, `@` only.
pub fn service_name_is_safe(service: &str) -> (b: bool)
    ensures
        b == is_safe_service(service@),
{
    let cs = chars_of(service);
    if cs.len() == 0 {
        return false;
    }
    let mut i: usize = 0;
    while i < cs.len()
        invariant
            i <= cs.len(),
            cs@ == service@,
            forall|j: int| 0 <= j < i ==> is_service_char(#[trigger] cs@[j]),
        decreases cs.len() - i,
    {
        let c = cs[i];
        let ok = ('a' <= c && c <= 'z') || ('A' <= c && c <= 'Z') || ('0' <= c && c <= '9') || c
            == '.' || c == '_' || c == '-' || c == ':' || c == '@';
        if !ok {
            assert(!is_service_char(service@[i as int]));
            return false;
        }
        i = i + 1;
    }
    true
}

/// The fixed commands that read the state of a server.
#[derive(Clone, Copy, Debug, PartialEq, Eq, Structural)]
pub enum Probe {
    Uptime,
    Memory,
    Disk,
    Load,
    Cpu,
    Sockets,
    ErrorLog,
    NetDev,
}

/// The command line of each probe.
pub open spec fn probe_command(p: Probe) -> Seq<char> {
    match p {
        Probe::Uptime => "uptime"@,
        Probe::Memory => "free -m"@,
        Probe::Disk => "df -h /"@,
        Probe::Load => "cat /proc/loadavg"@,
        Probe::Cpu => "top -bn1 | grep \"Cpu(s)\""@,
        Probe::Sockets => "ss -tunlp"@,
        Probe::ErrorLog => "journalctl -p err -n 50 --no-pager"@,
        Probe::NetDev => "cat /proc/net/dev"@,
    }
}

impl Probe {
    /// The command line that this probe runs.
    pub fn command(self) -> (s: &'static str)
        ensures
            s@ == probe_command(self),
            is_monitoring_command(s@),
    {
        proof {
            crate::laws::lemma_only_monitoring_commands(self, Seq::empty());
        }
        match self {
            Probe::Uptime => "uptime",
            Probe::Memory => "free -m",
            Probe::Disk => "df -h /",
            Probe::Load => "cat /proc/loadavg",
            Probe::Cpu => "top -bn1 | grep \"Cpu(s)\"",
            Probe::Sockets => "ss -tunlp",
            Probe::ErrorLog => "journalctl -p err -n 50 --no-pager",
            Probe::NetDev => "cat /proc/net/dev",
        }
    }
}

/// The command that asks systemd whether a service runs.
pub open spec fn status_command(name: Seq<char>) -> Seq<char> {
    "systemctl is-active "@ + name
}

/// Whether `cmd` is one that the monitor may run: a probe, or the status
/// query of a safe service name.
pub open spec fn is_monitoring_command(cmd: Seq<char>) -> bool {
    ||| exists|p: Probe| cmd == probe_command(p)
    ||| exists|name: Seq<char>| is_safe_service(name) && cmd == status_command(name)
}

/// The command that queries a service, where its name is safe; `None` where
/// it is not, and no command may be run for it.
pub fn service_command(service: &str) -> (r: Option<String>)
    ensures
        r is Some <==> is_safe_service(service@),
        r matches Some(cmd) ==> cmd@ == status_command(service@),
        r matches Some(cmd) ==> is_monitoring_command(cmd@),
{
    proof {
        crate::laws::lemma_only_monitoring_commands(Probe::Uptime, service@);
    }
    if service_name_is_safe(service) {
        let mut cmd = String::from_str("systemctl is-active ");
        cmd.append(service);
        Some(cmd)
    } else {
        None
    }
}

/// "invalid-name", the status of a service whose name is not safe.
pub open spec fn invalid_name() -> Seq<char> {
    "invalid-name"@
}

/// The status shown for a service: "invalid-name" where no command ran
/// (`outcome` is `None`), else the command's answer or error text, trimmed.
pub open spec fn service_status_text(outcome: Option<Result<String, String>>) -> Seq<char> {
    match outcome {
        None => invalid_name(),
        Some(Ok(out)) => trim(out@),
        Some(Err(err)) => trim(err@),
    }
}

/// The status of a service at one check.
#[derive(Clone, Debug, PartialEq, Eq)]
pub struct ServiceStatus {
    pub name: String,
    pub status: String,
    pub last_checked: String,
}

/// The status of service `name` checked at `checked_at`, from the outcome of
/// its status command, or `None` where none was run.
pub fn service_status(name: &str, outcome: Option<Result<String, String>>, checked_at: &str) -> (s:
    ServiceStatus)
    ensures
        s.name@ == name@,
        s.status@ == service_status_text(outcome),
        s.last_checked@ == checked_at@,
{
    let status = match &outcome {
        None => String::from_str("invalid-name"),
        Some(Ok(out)) => trimmed_string(out.as_str()),
        Some(Err(err)) => trimmed_string(err.as_str()),
    };
    ServiceStatus {
        name: String::from_str(name),
        status,
        last_checked: String::from_str(checked_at),
    }
}

/// A color by its red, green and blue parts.
#[derive(Clone, Copy, Debug, PartialEq, Eq, Structural)]
pub struct Rgb {
    pub r: u8,
    pub g: u8,
    pub b: u8,
}

/// Green, for what runs.
pub open spec fn green() -> Rgb {
    Rgb { r: 42, g: 157, b: 86 }
}

/// Grey, for what is off.
pub open spec fn grey() -> Rgb {
    Rgb { r: 132, g: 140, b: 152 }
}

/// Red, for what failed.
pub open spec fn red() -> Rgb {
    Rgb { r: 214, g: 73, b: 73 }
}

/// Amber, for what is in between or unknown.
pub open spec fn amber() -> Rgb {
    Rgb { r: 214, g: 154, b: 58 }
}

/// The color of a service status: green for "active", grey for "inactive",
/// red for "failed", amber for anything else; white space around it does not
/// count.
pub open spec fn status_color(status: Seq<char>) -> Rgb {
    let t = trim(status);
    if t == seq!['a', 'c', 't', 'i', 'v', 'e'] {
        green()
    } else if t == seq!['i', 'n', 'a', 'c', 't', 'i', 'v', 'e'] {
        grey()
    } else if t == seq!['f', 'a', 'i', 'l', 'e', 'd'] {
        red()
    } else {
        amber()
    }
}

/// The color in which a service status is shown.
pub fn service_color(status: &str) -> (c: Rgb)
    ensures
        c == status_color(status@),
{
    let cs = chars_of(status);
    let t = trimmed(cs.as_slice());
    let active: Vec<char> = vec!['a', 'c', 't', 'i', 'v', 'e'];
    let inactive: Vec<char> = vec!['i', 'n', 'a', 'c', 't', 'i', 'v', 'e'];
    let failed: Vec<char> = vec!['f', 'a', 'i', 'l', 'e', 'd'];
    assert(active@ =~= seq!['a', 'c', 't', 'i', 'v', 'e']);
    assert(inactive@ =~= seq!['i', 'n', 'a', 'c', 't', 'i', 'v', 'e']);
    assert(failed@ =~= seq!['f', 'a', 'i', 'l', 'e', 'd']);
    if same_chars(t.as_slice(), active.as_slice()) {
        Rgb { r: 42, g: 157, b: 86 }
    } else if same_chars(t.as_slice(), inactive.as_slice()) {
        Rgb { r: 132, g: 140, b: 152 }
    } else if same_chars(t.as_slice(), failed.as_slice()) {
        Rgb { r: 214, g: 73, b: 73 }
    } else {
        Rgb { r: 214, g: 154, b: 58 }
    }
}

} // verus!
