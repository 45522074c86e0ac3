//! The assembly of what one refresh learns of a server from the answers of
//! the probe commands.
use vstd::prelude::*;
use crate::text::{lines, trim};
use crate::format::bytes_text;
use crate::model::ServerSnapshot;
use crate::parse::{
    connections, disk_usage, load_text, memory_usage, network_totals, parse_connections, parse_disk,
    parse_load, parse_memory, text_lines, total_received, total_transmitted, trimmed_string,
};
use crate::format::format_bytes;
use crate::service::ServiceStatus;

verus! {

/// The outcome of a connection test: success where `uptime` answered over
/// the new session, else the error of the connection or of the command.
pub fn test_connection(uptime: Result<String, String>) -> (r: Result<(), String>)
    ensures
        r is Ok <==> uptime is Ok,
        r matches Err(e) ==> uptime matches Err(u) && e == u,
{
    match uptime {
        Ok(_) => Ok(()),
        Err(e) => Err(e),
    }
}

/// What the probe commands answered on one server.
pub struct CommandOutputs {
    /// `uptime`
    pub uptime: String,
    /// `free -m`
    pub memory: String,
    /// `df -h /`
    pub disk: String,
    /// `cat /proc/loadavg`
    pub load: String,
    /// `ss -tunlp`
    pub sockets: String,
    /// `journalctl -p err -n 50 --no-pager`
    pub error_log: String,
    /// `cat /proc/net/dev`, which may fail without failing the refresh
    pub net_dev: Result<String, String>,
}

/// The text of `/proc/net/dev` that is read: empty where the command failed.
pub open spec fn net_dev_text(r: Result<String, String>) -> Seq<char> {
    match r {
        Ok(s) => s@,
        Err(_) => Seq::empty(),
    }
}

/// Whether the byte counters of `/proc/net/dev` add up within `u64`.
pub open spec fn traffic_fits(net_dev: Seq<char>) -> bool {
    total_received(net_dev) <= u64::MAX && total_transmitted(net_dev) <= u64::MAX
}

/// What a refresh learns from the answers `out`, checked at `checked_at`,
/// with the statuses `services`; `None` where the byte counters of
/// `/proc/net/dev` overflow a `u64`, which the sums cannot hold.
pub fn build_snapshot(out: &CommandOutputs, checked_at: String, services: Vec<ServiceStatus>) -> (r:
    Option<ServerSnapshot>)
    ensures
        r is Some <==> traffic_fits(net_dev_text(out.net_dev)),
        r matches Some(s) ==> {
            &&& s.timestamp@ == checked_at@
            &&& s.uptime@ == trim(out.uptime@)
            &&& (s.ram_used_mb, s.ram_total_mb) == memory_usage(out.memory@)
            &&& (s.disk_used@, s.disk_total@) == disk_usage(out.disk@)
            &&& s.load_average@ == load_text(out.load@)
            &&& s.network_rx@ == bytes_text(total_received(net_dev_text(out.net_dev)) as u64)
            &&& s.network_tx@ == bytes_text(total_transmitted(net_dev_text(out.net_dev)) as u64)
            &&& s.connections.len() == connections(out.sockets@).len()
            &&& forall|i: int|
                0 <= i < s.connections.len() ==> #[trigger] s.connections[i]@ == connections(
                    out.sockets@,
                )[i]
            &&& s.services == services
            &&& s.error_logs.len() == lines(out.error_log@).len()
            &&& forall|i: int|
                0 <= i < s.error_logs.len() ==> #[trigger] s.error_logs[i]@ == lines(
                    out.error_log@,
                )[i]
        },
{
    let net_dev = match &out.net_dev {
        Ok(s) => s.as_str(),
        Err(_) => "",
    };
    assert(net_dev@ == net_dev_text(out.net_dev)) by {
        if out.net_dev is Err {
            reveal_strlit("");
        }
    }
    let (rx, tx) = match network_totals(net_dev) {
        Some(t) => t,
        None => {
            return None;
        },
    };
    let (ram_used_mb, ram_total_mb) = parse_memory(out.memory.as_str());
    let (disk_used, disk_total) = parse_disk(out.disk.as_str());
    Some(
        ServerSnapshot {
            timestamp: checked_at,
            uptime: trimmed_string(out.uptime.as_str()),
            ram_used_mb,
            ram_total_mb,
            disk_used,
            disk_total,
            load_average: parse_load(out.load.as_str()),
            network_rx: format_bytes(rx),
            network_tx: format_bytes(tx),
            connections: parse_connections(out.sockets.as_str()),
            services,
            error_logs: text_lines(out.error_log.as_str()),
        },
    )
}

} // verus!
