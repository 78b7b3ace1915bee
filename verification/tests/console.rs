use hatcher::console::{parse_command, telemetry_status, Command};

#[test]
fn empty_line_runs_the_demo() {
    assert_eq!(parse_command(""), Command::Run);
    assert_eq!(parse_command("\n"), Command::Run);
    assert_eq!(parse_command("   \t \r\n"), Command::Run);
}

#[test]
fn aliases_name_their_commands() {
    for (line, cmd) in [
        ("run", Command::Run),
        ("r", Command::Run),
        ("demo", Command::Run),
        ("d", Command::Run),
        ("battle", Command::Battle),
        ("b", Command::Battle),
        ("memory", Command::Memory),
        ("m", Command::Memory),
        ("api", Command::Api),
        ("a", Command::Api),
        ("telemetry", Command::Telemetry),
        ("t", Command::Telemetry),
        ("help", Command::Help),
        ("h", Command::Help),
        ("quit", Command::Quit),
        ("q", Command::Quit),
        ("exit", Command::Quit),
        ("e", Command::Quit),
    ] {
        assert_eq!(parse_command(line), cmd, "line {:?}", line);
    }
}

#[test]
fn case_and_surrounding_whitespace_are_ignored() {
    assert_eq!(parse_command("  BaTTle \n"), Command::Battle);
    assert_eq!(parse_command("QUIT"), Command::Quit);
    assert_eq!(parse_command("\u{3000}Help\u{a0}"), Command::Help);
}

#[test]
fn other_lines_are_unknown() {
    assert_eq!(parse_command("runs"), Command::Unknown);
    assert_eq!(parse_command("ba ttle"), Command::Unknown);
    assert_eq!(parse_command("x"), Command::Unknown);
    assert_eq!(parse_command("RÜN"), Command::Unknown);
}

#[test]
fn telemetry_status_alternates() {
    assert_eq!(telemetry_status(0), "stabilizing");
    assert_eq!(telemetry_status(1), "rehearsing");
    assert_eq!(telemetry_status(4), "stabilizing");
    assert_eq!(telemetry_status(19), "rehearsing");
}
