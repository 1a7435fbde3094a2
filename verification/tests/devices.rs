use adb_manager::adb::{AdbManager, CommandOutput};
use adb_manager::tabs::devices_tab::{parse_device_line, parse_devices, read_devices};
use adb_manager::tabs::{Device, DevicesTab};

fn pairs(devices: &[Device]) -> Vec<(String, String)> {
    devices.iter().map(|d| (d.id.clone(), d.status.clone())).collect()
}

fn pair(id: &str, status: &str) -> (String, String) {
    (id.to_string(), status.to_string())
}

fn listing_ran(stdout: &str) -> Result<CommandOutput, String> {
    Ok(CommandOutput {
        stdout_text: stdout.to_string(),
        stderr_text: String::new(),
        exit_success: true,
    })
}

fn listing_failed(stdout: &str, stderr: &str) -> Result<CommandOutput, String> {
    Ok(CommandOutput {
        stdout_text: stdout.to_string(),
        stderr_text: stderr.to_string(),
        exit_success: false,
    })
}

fn listing_not_started(why: &str) -> Result<CommandOutput, String> {
    Err(why.to_string())
}

#[test]
fn devices_scenario_two_devices() {
    let out = parse_devices(
        "List of devices attached\n\nemulator-5554\tdevice\n192.168.1.50:5555\toffline\n",
    );
    assert_eq!(
        pairs(&out),
        vec![pair("emulator-5554", "device"), pair("192.168.1.50:5555", "offline")]
    );
}

#[test]
fn devices_header_is_dropped_whatever_it_holds() {
    let out = parse_devices("abc device\nxyz offline\n");
    assert_eq!(pairs(&out), vec![pair("xyz", "offline")]);
}

#[test]
fn devices_of_empty_text_are_none() {
    assert!(parse_devices("").is_empty());
    assert!(parse_devices("List of devices attached").is_empty());
    assert!(parse_devices("List of devices attached\n").is_empty());
    assert!(parse_devices("\n\n\n").is_empty());
}

#[test]
fn devices_lines_with_one_token_are_dropped() {
    let out = parse_devices("header\nlonely\na b\n   \nc\td\textra words\n");
    assert_eq!(pairs(&out), vec![pair("a", "b"), pair("c", "d")]);
}

#[test]
fn devices_keep_the_order_of_the_lines() {
    let out = parse_devices("h\nz device\na device\nm offline\na device\n");
    assert_eq!(
        pairs(&out),
        vec![pair("z", "device"), pair("a", "device"), pair("m", "offline"), pair("a", "device")]
    );
}

#[test]
fn devices_with_carriage_returns() {
    let out = parse_devices("List of devices attached\r\nserial1\tdevice\r\n\r\nserial2\tunauthorized\r\n");
    assert_eq!(pairs(&out), vec![pair("serial1", "device"), pair("serial2", "unauthorized")]);
}

#[test]
fn devices_last_line_needs_no_line_feed() {
    let out = parse_devices("h\n  id1   status1  ");
    assert_eq!(pairs(&out), vec![pair("id1", "status1")]);
}

#[test]
fn devices_n_records_and_m_blank_lines_give_n_devices() {
    let mut text = String::from("List of devices attached\n");
    let mut expected = Vec::new();
    for i in 0..40 {
        if i % 3 == 0 {
            text.push_str(" \t \n");
        }
        text.push_str(&format!("dev{}\tstate{}\n", i, i));
        expected.push(pair(&format!("dev{}", i), &format!("state{}", i)));
        if i % 5 == 0 {
            text.push('\n');
        }
    }
    let out = parse_devices(&text);
    assert_eq!(out.len(), 40);
    assert_eq!(pairs(&out), expected);
}

#[test]
fn device_line_takes_first_two_tokens() {
    let d = parse_device_line("\u{a0}abc\u{3000}def ghi").unwrap();
    assert_eq!(d.id, "abc");
    assert_eq!(d.status, "def");
    assert!(parse_device_line("abc").is_none());
    assert!(parse_device_line("").is_none());
    assert!(parse_device_line(" \t ").is_none());
}

#[test]
fn read_devices_of_a_failure_are_none() {
    assert!(read_devices(&listing_not_started("no adb")).is_empty());
    assert!(read_devices(&listing_failed("h\nabc\tdevice\n", "adb: error")).is_empty());
    let out = read_devices(&listing_ran("h\na b\n"));
    assert_eq!(pairs(&out), vec![pair("a", "b")]);
}

#[test]
fn devices_tab_refresh_replaces_the_list() {
    let mut tab = DevicesTab::default();
    assert!(tab.devices().is_empty());
    assert_eq!(tab.refresh_command(), vec!["devices".to_string()]);
    tab.refresh_devices(&listing_ran("h\na device\nb offline\n"));
    assert_eq!(pairs(tab.devices()), vec![pair("a", "device"), pair("b", "offline")]);
    tab.refresh_devices(&listing_ran("h\nc device\n"));
    assert_eq!(pairs(tab.devices()), vec![pair("c", "device")]);
    tab.refresh_devices(&listing_not_started("could not start"));
    assert!(tab.devices().is_empty());
}

#[test]
fn devices_tab_refresh_after_a_failing_exit_leaves_no_device() {
    let mut tab = DevicesTab::default();
    tab.refresh_devices(&listing_ran("h\na device\n"));
    assert_eq!(tab.devices().len(), 1);
    tab.refresh_devices(&listing_failed("List of devices attached\nabc\tdevice\n", ""));
    assert!(tab.devices().is_empty());
}

#[test]
fn devices_tab_disconnect() {
    let mut tab = DevicesTab::default();
    tab.refresh_devices(&listing_ran("h\na device\n10.0.0.2:5555 offline\n"));
    assert_eq!(
        tab.disconnect_command(1),
        Some(vec!["disconnect".to_string(), "10.0.0.2:5555".to_string()])
    );
    assert_eq!(tab.disconnect_command(2), None);
    let f = tab.disconnected(listing_ran("disconnected 10.0.0.2:5555\n"));
    assert_eq!(f.message, Some("disconnected 10.0.0.2:5555\n".to_string()));
    assert!(f.refresh);
    let f = tab.disconnected(listing_failed("error: no such device", "ignored"));
    assert_eq!(f.message, Some("error: no such device".to_string()));
    assert!(f.refresh);
    let f = tab.disconnected(listing_not_started("no adb"));
    assert_eq!(f.message, None);
    assert!(f.refresh);
}

#[test]
fn get_devices_gives_the_identifiers_of_the_devices() {
    let adb = AdbManager::new();
    let r = adb.get_devices(Ok("List of devices attached\nsolo\nabc\tdevice\n".to_string()));
    assert_eq!(r, Ok(vec!["abc".to_string()]));
    let r = adb.get_devices(Ok(
        "List of devices attached\nemulator-5554\tdevice\n\nlonely\n  \nz offline x\n".to_string(),
    ));
    assert_eq!(r, Ok(vec!["emulator-5554".to_string(), "z".to_string()]));
    assert_eq!(adb.get_devices(Ok(String::new())), Ok(vec![]));
    assert_eq!(adb.get_devices(Err("boom".to_string())), Err("boom".to_string()));
}
