use adb_manager::adb::CommandOutput;
use adb_manager::tabs::ConnectTab;

#[test]
fn connect_with_empty_port_keeps_the_colon() {
    let tab = ConnectTab::default();
    assert_eq!(tab.ip(), "192.168.1.105");
    assert_eq!(tab.port(), "");
    assert_eq!(tab.address(), "192.168.1.105:");
    assert_eq!(tab.connect_command(), vec!["connect".to_string(), "192.168.1.105:".to_string()]);
}

#[test]
fn connect_passes_the_fields_as_entered() {
    let mut tab = ConnectTab::default();
    tab.set_ip("10.0.0.7".to_string());
    tab.set_port("5555".to_string());
    assert_eq!(tab.address(), "10.0.0.7:5555");
    assert_eq!(tab.connect_command(), vec!["connect".to_string(), "10.0.0.7:5555".to_string()]);
    tab.set_port("not a port".to_string());
    tab.set_ip(String::new());
    assert_eq!(tab.address(), ":not a port");
    assert_eq!(tab.ip(), "");
    assert_eq!(tab.port(), "not a port");
}

#[test]
fn connect_run_becomes_the_message() {
    let tab = ConnectTab::default();
    let f = tab.connected_run(Ok(CommandOutput {
        stdout_text: "connected to 10.0.0.7:5555\n".to_string(),
        stderr_text: "noise".to_string(),
        exit_success: true,
    }));
    assert_eq!(f.message, Some("connected to 10.0.0.7:5555\n".to_string()));
    assert!(f.refresh);
    let f = tab.connected_run(Ok(CommandOutput {
        stdout_text: String::new(),
        stderr_text: String::new(),
        exit_success: true,
    }));
    assert_eq!(f.message, Some(String::new()));
    assert!(f.refresh);
    let f = tab.connected_run(Err("No such file or directory (os error 2)".to_string()));
    assert_eq!(f.message, Some("Error: No such file or directory (os error 2)".to_string()));
    assert!(!f.refresh);
}

#[test]
fn connect_shows_standard_error_after_a_failing_exit() {
    let tab = ConnectTab::default();
    let f = tab.connected_run(Ok(CommandOutput {
        stdout_text: String::new(),
        stderr_text: "adb: unable to connect\n".to_string(),
        exit_success: false,
    }));
    assert_eq!(f.message, Some("adb: unable to connect\n".to_string()));
    assert!(f.refresh);
}
