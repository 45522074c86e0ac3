use serverscope::service::service_status;
use serverscope::snapshot::{build_snapshot, test_connection, CommandOutputs};

fn outputs(net_dev: Result<String, String>) -> CommandOutputs {
    CommandOutputs {
        uptime: " 10:00:00 up 3 days,  2 users,  load average: 0.10, 0.20, 0.30\n".into(),
        memory: "  total used\nMem: 2000 500 1500\n".into(),
        disk: "Filesystem Size Used Avail Use% Mounted\n/dev/root 20G 5G 15G 25% /\n".into(),
        load: "0.10 0.20 0.30 1/100 999\n".into(),
        sockets: "Netid State Recv-Q Send-Q Local Peer Process\ntcp LISTEN 0 128 0.0.0.0:22 0.0.0.0:*\n".into(),
        error_log: "Jan 01 boom\nJan 02 bang\n".into(),
        net_dev,
    }
}

#[test]
fn snapshot_from_outputs() {
    let net = "h1\nh2\neth0: 2048 0 0 0 0 0 0 0 1024 0 0 0 0 0 0 0\n".to_string();
    let svc = vec![service_status("nginx", Some(Ok("active\n".into())), "2024-05-01 12:00:00")];
    let s = build_snapshot(&outputs(Ok(net)), "2024-05-01 12:00:00".into(), svc.clone()).unwrap();
    assert_eq!(s.timestamp, "2024-05-01 12:00:00");
    assert_eq!(s.uptime, "10:00:00 up 3 days,  2 users,  load average: 0.10, 0.20, 0.30");
    assert_eq!((s.ram_used_mb, s.ram_total_mb), (500, 2000));
    assert_eq!((s.disk_used.as_str(), s.disk_total.as_str()), ("5G", "20G"));
    assert_eq!(s.load_average, "0.10 / 0.20 / 0.30");
    assert_eq!(s.network_rx, "2.0 KB");
    assert_eq!(s.network_tx, "1.0 KB");
    assert_eq!(s.connections.len(), 1);
    assert_eq!(s.services, svc);
    assert_eq!(s.error_logs, vec!["Jan 01 boom".to_string(), "Jan 02 bang".to_string()]);
}

#[test]
fn snapshot_without_net_dev() {
    let s = build_snapshot(&outputs(Err("no such file".into())), "t".into(), vec![]).unwrap();
    assert_eq!(s.network_rx, "0 B");
    assert_eq!(s.network_tx, "0 B");
}

#[test]
fn snapshot_with_overflowing_counters() {
    let line = "eth0: 18446744073709551615 0 0 0 0 0 0 0 0 0 0 0 0 0 0 0\n";
    let net = format!("h1\nh2\n{line}{line}");
    assert!(build_snapshot(&outputs(Ok(net)), "t".into(), vec![]).is_none());
}

#[test]
fn connection_test_outcome() {
    assert_eq!(test_connection(Ok(" 10:00 up 1 day".into())), Ok(()));
    assert_eq!(
        test_connection(Err("SSH handshake failed: x".into())),
        Err("SSH handshake failed: x".to_string())
    );
}
