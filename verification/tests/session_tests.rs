use serverscope::model::{blank_server_config, AppConfig, AppView, ConnectionState, ServerConfig};
use serverscope::session::{AppState, TickAction, WorkerMessage};

fn server(name: &str) -> ServerConfig {
    ServerConfig {
        name: name.to_string(),
        host: "10.0.0.1".to_string(),
        port: 22,
        username: "admin".to_string(),
        private_key_path: "/home/admin/.ssh/id".to_string(),
        services: vec!["nginx".to_string()],
    }
}

fn state_with(names: &[&str]) -> AppState<u32> {
    AppState::new(AppConfig { servers: names.iter().map(|n| server(n)).collect() })
}

#[test]
fn new_state_selects_first_server() {
    let s = state_with(&["a", "b"]);
    assert_eq!(s.selected_server, Some(0));
    assert_eq!(s.view, AppView::Servers);
    assert_eq!(s.connection_state, ConnectionState::Disconnected);
    assert_eq!(s.auto_refresh_secs, 10);
    assert!(!s.auto_refresh);
    assert!(!s.worker_busy);
    assert_eq!(s.draft_server.port, 22);
    assert_eq!(s.draft_server.services, vec!["nginx".to_string(), "docker".to_string()]);
    let empty = state_with(&[]);
    assert_eq!(empty.selected_server, None);
}

#[test]
fn blank_form() {
    let d = blank_server_config();
    assert_eq!(d.name, "");
    assert_eq!(d.port, 22);
}

#[test]
fn begin_test_without_server_asks_for_one() {
    let mut s = state_with(&[]);
    assert!(s.begin_test().is_none());
    assert_eq!(s.error.as_deref(), Some("Select a server first."));
    assert_eq!(s.connection_state, ConnectionState::Disconnected);
    assert!(!s.worker_busy);
}

#[test]
fn test_success_starts_refresh() {
    let mut s = state_with(&["a"]);
    let srv = s.begin_test().unwrap();
    assert_eq!(srv.name, "a");
    assert_eq!(s.connection_state, ConnectionState::Connecting);
    assert!(s.worker_busy);
    let next = s.handle_worker_message(WorkerMessage::Test(Ok(())));
    assert_eq!(next.map(|c| c.name), Some("a".to_string()));
    assert_eq!(s.connection_state, ConnectionState::Refreshing);
    assert!(s.worker_busy);
    assert!(s.error.is_none());
    let none = s.handle_worker_message(WorkerMessage::Snapshot(Ok(7)));
    assert!(none.is_none());
    assert_eq!(s.snapshot, Some(7));
    assert_eq!(s.connection_state, ConnectionState::Connected);
    assert!(!s.worker_busy);
}

#[test]
fn worker_errors_are_shown() {
    let mut s = state_with(&["a"]);
    s.begin_test();
    s.handle_worker_message(WorkerMessage::Test(Err("TCP connection failed: refused".into())));
    assert_eq!(s.connection_state, ConnectionState::Error);
    assert_eq!(s.error.as_deref(), Some("TCP connection failed: refused"));
    assert!(!s.worker_busy);
    s.begin_refresh();
    s.handle_worker_message(WorkerMessage::Snapshot(Err("timeout".into())));
    assert_eq!(s.error.as_deref(), Some("timeout"));
    assert_eq!(s.connection_state, ConnectionState::Error);
}

#[test]
fn auto_refresh_rules() {
    let mut s = state_with(&["a"]);
    s.auto_refresh = true;
    // Disconnected: nothing happens.
    assert!(matches!(s.maybe_auto_refresh(None), TickAction::Idle));
    s.connection_state = ConnectionState::Connected;
    // Not yet due.
    assert!(matches!(s.maybe_auto_refresh(Some(9_999_999_999)), TickAction::Repaint));
    assert_eq!(s.connection_state, ConnectionState::Connected);
    // Due.
    match s.maybe_auto_refresh(Some(10_000_000_000)) {
        TickAction::RefreshAndRepaint(c) => assert_eq!(c.name, "a"),
        _ => panic!("expected a refresh"),
    }
    assert_eq!(s.connection_state, ConnectionState::Refreshing);
    // Busy: nothing happens.
    assert!(matches!(s.maybe_auto_refresh(None), TickAction::Idle));
    // Off: nothing happens.
    s.worker_busy = false;
    s.auto_refresh = false;
    assert!(matches!(s.maybe_auto_refresh(None), TickAction::Idle));
}

#[test]
fn disconnect_stops_everything() {
    let mut s = state_with(&["a"]);
    s.auto_refresh = true;
    s.begin_refresh();
    s.disconnect();
    assert_eq!(s.connection_state, ConnectionState::Disconnected);
    assert!(!s.auto_refresh);
    assert!(!s.worker_busy);
}

#[test]
fn select_server_resets_view_of_server() {
    let mut s = state_with(&["a", "b"]);
    s.snapshot = Some(3);
    s.error = Some("old".into());
    s.connection_state = ConnectionState::Connected;
    s.select_server(1);
    assert_eq!(s.selected_server, Some(1));
    assert_eq!(s.snapshot, None);
    assert_eq!(s.error, None);
    assert_eq!(s.connection_state, ConnectionState::Disconnected);
    assert_eq!(s.selected_server_name(), "b");
}

#[test]
fn selected_server_name_without_selection() {
    let s = state_with(&[]);
    assert_eq!(s.selected_server_name(), "No server selected");
    assert!(s.selected_config().is_none());
}

#[test]
fn add_server_requires_fields() {
    let mut s = state_with(&[]);
    s.draft_server.name = "web".into();
    s.draft_server.host = "  ".into();
    s.draft_server.username = "root".into();
    s.draft_server.private_key_path = "/k".into();
    assert!(!s.add_draft_server());
    assert_eq!(
        s.error.as_deref(),
        Some("Name, host, username, and private key path are required.")
    );
    assert!(s.config.servers.is_empty());
    s.draft_server.host = "example.com".into();
    assert!(s.add_draft_server());
    assert_eq!(s.config.servers.len(), 1);
    assert_eq!(s.config.servers[0].host, "example.com");
    assert_eq!(s.selected_server, Some(0));
    assert_eq!(s.draft_server, blank_server_config());
}

#[test]
fn remove_selected_server_selects_first() {
    let mut s = state_with(&["a", "b", "c"]);
    s.select_server(2);
    assert!(s.remove_selected_server());
    assert_eq!(s.config.servers.len(), 2);
    assert_eq!(s.selected_server, Some(0));
    let mut one = state_with(&["a"]);
    assert!(one.remove_selected_server());
    assert_eq!(one.selected_server, None);
    assert!(!one.remove_selected_server());
}

#[test]
fn law_remove_undoes_add() {
    let mut s = state_with(&["a", "b"]);
    let before = s.config.servers.clone();
    s.draft_server = server("new");
    assert!(s.add_draft_server());
    assert!(s.remove_selected_server());
    assert_eq!(s.config.servers, before);
}

#[test]
fn add_service_checks_name() {
    let mut s = state_with(&["a"]);
    s.service_draft = "  redis  ".into();
    assert!(s.add_service_draft());
    assert_eq!(s.config.servers[0].services, vec!["nginx".to_string(), "redis".to_string()]);
    assert_eq!(s.service_draft, "");
    s.service_draft = "rm -rf".into();
    assert!(!s.add_service_draft());
    assert_eq!(
        s.error.as_deref(),
        Some("Service names may only contain letters, numbers, '.', '_', '-', ':', and '@'.")
    );
    assert_eq!(s.config.servers[0].services.len(), 2);
    s.service_draft = "   ".into();
    assert!(!s.add_service_draft());
}

#[test]
fn add_service_without_selection_does_nothing() {
    let mut s = state_with(&[]);
    s.service_draft = "redis".into();
    assert!(!s.add_service_draft());
    assert_eq!(s.service_draft, "redis");
    assert!(s.error.is_none());
}

#[test]
fn save_failure_is_shown() {
    let mut s = state_with(&["a"]);
    s.save_failed("disk full".into());
    assert_eq!(s.error.as_deref(), Some("disk full"));
    assert_eq!(s.connection_state, ConnectionState::Error);
}
