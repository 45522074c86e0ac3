use serverscope::model::{AppView, ConnectionState};
use serverscope::service::{
    service_color, service_command, service_name_is_safe, service_status, Probe, Rgb,
};

#[test]
fn safe_service_names() {
    assert!(service_name_is_safe("nginx"));
    assert!(service_name_is_safe("getty@tty1.service"));
    assert!(service_name_is_safe("a-b_c:d.e"));
    assert!(!service_name_is_safe(""));
    assert!(!service_name_is_safe("nginx; rm -rf /"));
    assert!(!service_name_is_safe("my service"));
    assert!(!service_name_is_safe("$(reboot)"));
    assert!(!service_name_is_safe("café"));
}

#[test]
fn service_command_only_for_safe_names() {
    assert_eq!(service_command("nginx"), Some("systemctl is-active nginx".to_string()));
    assert_eq!(service_command("x|y"), None);
    assert_eq!(service_command(""), None);
}

#[test]
fn probe_commands_are_fixed() {
    assert_eq!(Probe::Uptime.command(), "uptime");
    assert_eq!(Probe::Memory.command(), "free -m");
    assert_eq!(Probe::Disk.command(), "df -h /");
    assert_eq!(Probe::Load.command(), "cat /proc/loadavg");
    assert_eq!(Probe::Cpu.command(), "top -bn1 | grep \"Cpu(s)\"");
    assert_eq!(Probe::Sockets.command(), "ss -tunlp");
    assert_eq!(Probe::ErrorLog.command(), "journalctl -p err -n 50 --no-pager");
    assert_eq!(Probe::NetDev.command(), "cat /proc/net/dev");
}

#[test]
fn service_status_texts() {
    let s = service_status("nginx", Some(Ok("active\n".to_string())), "2024-01-01 00:00:00");
    assert_eq!(s.name, "nginx");
    assert_eq!(s.status, "active");
    assert_eq!(s.last_checked, "2024-01-01 00:00:00");
    let e = service_status("db", Some(Err(" channel closed ".to_string())), "t");
    assert_eq!(e.status, "channel closed");
    let bad = service_status("a b", None, "t");
    assert_eq!(bad.status, "invalid-name");
}

#[test]
fn service_colors() {
    assert_eq!(service_color("active"), Rgb { r: 42, g: 157, b: 86 });
    assert_eq!(service_color(" inactive\n"), Rgb { r: 132, g: 140, b: 152 });
    assert_eq!(service_color("failed"), Rgb { r: 214, g: 73, b: 73 });
    assert_eq!(service_color("activating"), Rgb { r: 214, g: 154, b: 58 });
    assert_eq!(service_color(""), Rgb { r: 214, g: 154, b: 58 });
}

#[test]
fn connection_state_labels_and_colors() {
    assert_eq!(ConnectionState::Disconnected.label(), "Disconnected");
    assert_eq!(ConnectionState::Connecting.label(), "Connecting");
    assert_eq!(ConnectionState::Connected.label(), "Connected");
    assert_eq!(ConnectionState::Refreshing.label(), "Refreshing");
    assert_eq!(ConnectionState::Error.label(), "Error");
    assert_eq!(ConnectionState::Connected.color(), Rgb { r: 42, g: 157, b: 86 });
    assert_eq!(ConnectionState::Connecting.color(), Rgb { r: 214, g: 154, b: 58 });
    assert_eq!(ConnectionState::Refreshing.color(), Rgb { r: 214, g: 154, b: 58 });
    assert_eq!(ConnectionState::Error.color(), Rgb { r: 214, g: 73, b: 73 });
    assert_eq!(ConnectionState::Disconnected.color(), Rgb { r: 132, g: 140, b: 152 });
}

#[test]
fn view_labels() {
    assert_eq!(AppView::Servers.label(), "Servers");
    assert_eq!(AppView::Dashboard.label(), "Dashboard");
    assert_eq!(AppView::Network.label(), "Network");
    assert_eq!(AppView::Services.label(), "Services");
    assert_eq!(AppView::Logs.label(), "Logs");
    assert_eq!(AppView::Settings.label(), "Settings");
}

#[test]
fn law_safe_names_hold_no_shell_characters() {
    for name in ["nginx", "getty@tty1.service", "a-b_c:d.e"] {
        assert!(service_name_is_safe(name));
        assert!(!name.chars().any(|c| c.is_whitespace() || ";&|$`'\"\\<>()*?[]{}~#!=".contains(c)));
    }
}
