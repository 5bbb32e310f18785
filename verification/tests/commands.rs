use dht11::commands::{find_newline, process_command, trim_ascii, LedControl};

#[test]
fn led_control_starts_off() {
    let led = LedControl::new();
    assert!(!led.is_on());
}

#[test]
fn led_control_toggles() {
    let mut led = LedControl::new();
    led.set_on();
    assert!(led.is_on());
    led.set_off();
    assert!(!led.is_on());
}

#[test]
fn led_on_command() {
    let mut led = LedControl::new();
    let response = process_command("LED_ON", &mut led);
    assert_eq!(response, "OK: LED turned ON");
    assert!(led.is_on());
}

#[test]
fn led_off_command() {
    let mut led = LedControl::new();
    led.set_on();
    let response = process_command("LED_OFF", &mut led);
    assert_eq!(response, "OK: LED turned OFF");
    assert!(!led.is_on());
}

#[test]
fn commands_match_case_insensitively() {
    // A lowercase command line acts like its uppercase form.
    let mut led = LedControl::new();
    let response = process_command("led_on", &mut led);
    assert_eq!(response, "OK: LED turned ON");
    assert!(led.is_on());
    let response = process_command("Led_Off", &mut led);
    assert_eq!(response, "OK: LED turned OFF");
    assert!(!led.is_on());
}

#[test]
fn status_reports_led_state() {
    let mut led = LedControl::new();
    assert_eq!(process_command("STATUS", &mut led), "STATUS: LED is OFF");
    led.set_on();
    assert_eq!(process_command("status", &mut led), "STATUS: LED is ON");
    assert!(led.is_on());
}

#[test]
fn ping_answers_pong() {
    let mut led = LedControl::new();
    assert_eq!(process_command("PING", &mut led), "PONG");
    assert!(!led.is_on());
}

#[test]
fn help_lists_commands() {
    let mut led = LedControl::new();
    assert_eq!(
        process_command("HELP", &mut led),
        "Available commands: LED_ON, LED_OFF, STATUS, PING, HELP"
    );
}

#[test]
fn empty_command_is_an_error() {
    let mut led = LedControl::new();
    assert_eq!(process_command("", &mut led), "ERROR: Empty command");
}

#[test]
fn unknown_command_is_an_error() {
    let mut led = LedControl::new();
    assert_eq!(
        process_command("BLINK", &mut led),
        "ERROR: Unknown command. Type HELP for available commands"
    );
    assert!(!led.is_on());
}

#[test]
fn trim_strips_line_endings() {
    assert_eq!(trim_ascii("LED_ON\r\n"), "LED_ON");
    assert_eq!(trim_ascii("  STATUS \t"), "STATUS");
    assert_eq!(trim_ascii("PING"), "PING");
}

#[test]
fn trim_of_whitespace_only_is_empty() {
    assert_eq!(trim_ascii(" \r\n\t "), "");
    assert_eq!(trim_ascii(""), "");
}

#[test]
fn find_newline_locates_first_line_feed() {
    let buffer = b"STATUS\r\nPING\n";
    assert_eq!(find_newline(buffer, buffer.len()), Some(7));
    assert_eq!(find_newline(buffer, 6), None);
    assert_eq!(find_newline(b"", 0), None);
}

#[test]
fn line_pipeline_serves_commands() {
    // The way the TCP server uses the pieces: cut at the newline,
    // trim, dispatch.
    let mut led = LedControl::new();
    let buffer = b"led_on\r\njunk";
    let end = find_newline(buffer, buffer.len()).unwrap();
    let line = std::str::from_utf8(&buffer[..end]).unwrap();
    let response = process_command(trim_ascii(line), &mut led);
    assert_eq!(response, "OK: LED turned ON");
    assert!(led.is_on());
}
