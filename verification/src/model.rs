//! The data of the monitor: registered servers, the screens, the state of the
//! connection, and what one refresh learns of a server.
use vstd::prelude::*;
use crate::service::{Rgb, ServiceStatus, green, grey, red, amber};
use crate::parse::NetworkConnection;

verus! {

/// A server to monitor over SSH; only the path of its private key is kept.
#[derive(Clone, Debug, Default, PartialEq, Eq)]
pub struct ServerConfig {
    pub name: String,
    pub host: String,
    pub port: u16,
    pub username: String,
    pub private_key_path: String,
    pub services: Vec<String>,
}

/// The text of each field of a server.
pub struct ServerFields {
    pub name: Seq<char>,
    pub host: Seq<char>,
    pub port: u16,
    pub username: Seq<char>,
    pub private_key_path: Seq<char>,
    pub services: Seq<Seq<char>>,
}

/// The texts of a list of strings.
pub open spec fn texts(v: Seq<String>) -> Seq<Seq<char>> {
    Seq::new(v.len(), |i: int| v[i]@)
}

impl View for ServerConfig {
    type V = ServerFields;

    open spec fn view(&self) -> ServerFields {
        ServerFields {
            name: self.name@,
            host: self.host@,
            port: self.port,
            username: self.username@,
            private_key_path: self.private_key_path@,
            services: texts(self.services@),
        }
    }
}

/// A copy of a list of strings.
pub fn copy_strings(v: &Vec<String>) -> (out: Vec<String>)
    ensures
        texts(out@) == texts(v@),
{
    let mut out: Vec<String> = Vec::new();
    let mut i: usize = 0;
    while i < v.len()
        invariant
            i <= v.len(),
            out.len() == i,
            forall|j: int| 0 <= j < i ==> #[trigger] out[j]@ == v[j]@,
        decreases v.len() - i,
    {
        out.push(v[i].clone());
        i = i + 1;
    }
    assert(texts(out@) =~= texts(v@));
    out
}

impl ServerConfig {
    /// A copy of this server.
    pub fn duplicate(&self) -> (c: ServerConfig)
        ensures
            c@ == self@,
    {
        ServerConfig {
            name: self.name.clone(),
            host: self.host.clone(),
            port: self.port,
            username: self.username.clone(),
            private_key_path: self.private_key_path.clone(),
            services: copy_strings(&self.services),
        }
    }
}

/// The fields of the server form when it is empty: port 22, and the
/// services nginx and docker.
pub open spec fn blank_server() -> ServerFields {
    ServerFields {
        name: Seq::empty(),
        host: Seq::empty(),
        port: 22,
        username: Seq::empty(),
        private_key_path: Seq::empty(),
        services: seq!["nginx"@, "docker"@],
    }
}

/// An empty server form.
pub fn blank_server_config() -> (c: ServerConfig)
    ensures
        c@ == blank_server(),
{
    let mut services: Vec<String> = Vec::new();
    services.push(String::from_str("nginx"));
    services.push(String::from_str("docker"));
    let c = ServerConfig {
        name: String::new(),
        host: String::new(),
        port: 22,
        username: String::new(),
        private_key_path: String::new(),
        services,
    };
    assert(c@.services =~= blank_server().services);
    c
}

/// The servers that the monitor knows.
#[derive(Clone, Debug, Default, PartialEq, Eq)]
pub struct AppConfig {
    pub servers: Vec<ServerConfig>,
}

/// The screens of the monitor.
#[derive(Clone, Copy, Debug, PartialEq, Eq, Structural)]
pub enum AppView {
    Servers,
    Dashboard,
    Network,
    Services,
    Logs,
    Settings,
}

/// The title of each screen.
pub open spec fn view_title(v: AppView) -> Seq<char> {
    match v {
        AppView::Servers => "Servers"@,
        AppView::Dashboard => "Dashboard"@,
        AppView::Network => "Network"@,
        AppView::Services => "Services"@,
        AppView::Logs => "Logs"@,
        AppView::Settings => "Settings"@,
    }
}

impl AppView {
    /// The title of this screen.
    pub fn label(self) -> (s: &'static str)
        ensures
            s@ == view_title(self),
    {
        match self {
            AppView::Servers => "Servers",
            AppView::Dashboard => "Dashboard",
            AppView::Network => "Network",
            AppView::Services => "Services",
            AppView::Logs => "Logs",
            AppView::Settings => "Settings",
        }
    }
}

/// Where the monitor stands with the selected server.
#[derive(Clone, Copy, Debug, PartialEq, Eq, Structural)]
pub enum ConnectionState {
    Disconnected,
    Connecting,
    Connected,
    Refreshing,
    Error,
}

/// The name of each connection state.
pub open spec fn state_title(s: ConnectionState) -> Seq<char> {
    match s {
        ConnectionState::Disconnected => "Disconnected"@,
        ConnectionState::Connecting => "Connecting"@,
        ConnectionState::Connected => "Connected"@,
        ConnectionState::Refreshing => "Refreshing"@,
        ConnectionState::Error => "Error"@,
    }
}

/// The color of each connection state: green when connected, amber while
/// connecting or refreshing, red on error, grey when disconnected.
pub open spec fn state_color(s: ConnectionState) -> Rgb {
    match s {
        ConnectionState::Connected => green(),
        ConnectionState::Connecting | ConnectionState::Refreshing => amber(),
        ConnectionState::Error => red(),
        ConnectionState::Disconnected => grey(),
    }
}

impl ConnectionState {
    /// The name of this state.
    pub fn label(self) -> (s: &'static str)
        ensures
            s@ == state_title(self),
    {
        match self {
            ConnectionState::Disconnected => "Disconnected",
            ConnectionState::Connecting => "Connecting",
            ConnectionState::Connected => "Connected",
            ConnectionState::Refreshing => "Refreshing",
            ConnectionState::Error => "Error",
        }
    }

    /// The color in which this state is shown.
    pub fn color(self) -> (c: Rgb)
        ensures
            c == state_color(self),
    {
        match self {
            ConnectionState::Connected => Rgb { r: 42, g: 157, b: 86 },
            ConnectionState::Connecting | ConnectionState::Refreshing => Rgb { r: 214, g: 154, b: 58 },
            ConnectionState::Error => Rgb { r: 214, g: 73, b: 73 },
            ConnectionState::Disconnected => Rgb { r: 132, g: 140, b: 152 },
        }
    }
}

/// What one refresh learns of a server, the CPU load aside.
#[derive(Clone, Debug, PartialEq, Eq)]
pub struct ServerSnapshot {
    pub timestamp: String,
    pub uptime: String,
    pub ram_used_mb: u64,
    pub ram_total_mb: u64,
    pub disk_used: String,
    pub disk_total: String,
    pub load_average: String,
    pub network_rx: String,
    pub network_tx: String,
    pub connections: Vec<NetworkConnection>,
    pub services: Vec<ServiceStatus>,
    pub error_logs: Vec<String>,
}

} // verus!
