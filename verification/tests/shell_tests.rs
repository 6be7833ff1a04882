use nisvc::shell::{parse_command, sh_logctl, LogSetting, ShellCommand, ShellError};

#[test]
fn simple_commands() {
    assert!(matches!(parse_command(&["exit"]), Ok(ShellCommand::Exit)));
    assert!(matches!(parse_command(&["stop"]), Ok(ShellCommand::Stop)));
    assert!(matches!(parse_command(&["sk"]), Ok(ShellCommand::Stack)));
    assert!(matches!(parse_command(&["stack"]), Ok(ShellCommand::Stack)));
    assert!(matches!(parse_command(&["s"]), Ok(ShellCommand::Step)));
    assert!(matches!(parse_command(&["step"]), Ok(ShellCommand::Step)));
    assert!(matches!(parse_command(&["exec"]), Ok(ShellCommand::Exec)));
}

#[test]
fn read_register_needs_a_name() {
    assert!(matches!(
        parse_command(&["rr", "r1"]),
        Ok(ShellCommand::ReadRegister { name: "r1" })
    ));
    assert!(matches!(
        parse_command(&["read-register", "sp"]),
        Ok(ShellCommand::ReadRegister { name: "sp" })
    ));
    assert!(matches!(parse_command(&["rr"]), Err(ShellError::MissingRegisterName)));
}

#[test]
fn read_stack_parses_a_signed_offset() {
    assert!(matches!(parse_command(&["rsk", "-3"]), Ok(ShellCommand::ReadStack { offset: -3 })));
    assert!(matches!(parse_command(&["rsk", "12"]), Ok(ShellCommand::ReadStack { offset: 12 })));
    assert!(matches!(
        parse_command(&["rsk", "x1"]),
        Err(ShellError::InvalidOffset { text: "x1" })
    ));
    assert!(matches!(parse_command(&["rsk"]), Err(ShellError::MissingOffset)));
}

#[test]
fn logctl_settings() {
    assert_eq!(sh_logctl(&["0"]).ok(), Some(LogSetting::Verbosity(0)));
    assert_eq!(sh_logctl(&["3"]).ok(), Some(LogSetting::Verbosity(3)));
    assert_eq!(sh_logctl(&["output", "on"]).ok(), Some(LogSetting::Output(true)));
    assert_eq!(sh_logctl(&["output", "off"]).ok(), Some(LogSetting::Output(false)));
    assert_eq!(sh_logctl(&["input", "on"]).ok(), Some(LogSetting::Input(true)));
    assert!(matches!(
        parse_command(&["logctl", "2"]),
        Ok(ShellCommand::LogCtl { setting: LogSetting::Verbosity(2) })
    ));
}

#[test]
fn logctl_refusals() {
    assert!(matches!(sh_logctl(&[]), Err(ShellError::MissingSubcommand)));
    assert!(matches!(sh_logctl(&["input"]), Err(ShellError::MissingMode)));
    assert!(matches!(
        sh_logctl(&["output", "maybe"]),
        Err(ShellError::InvalidOutputSubcommand { arg: "output" })
    ));
    assert!(matches!(
        sh_logctl(&["input", "maybe"]),
        Err(ShellError::InvalidInputSubcommand { arg: "input" })
    ));
    assert!(matches!(
        sh_logctl(&["9"]),
        Err(ShellError::InvalidVerbositySubcommand { arg: "9" })
    ));
}

#[test]
fn unrecognized_commands() {
    assert!(matches!(
        parse_command(&["bogus"]),
        Err(ShellError::UnrecognizedCommand { name: "bogus" })
    ));
    assert!(matches!(parse_command(&[]), Err(ShellError::UnrecognizedCommand { name: "" })));
    assert!(matches!(parse_command(&[""]), Err(ShellError::UnrecognizedCommand { name: "" })));
}

#[test]
fn offsets_are_decimal_with_an_optional_sign() {
    assert!(matches!(parse_command(&["rsk", "+7"]), Ok(ShellCommand::ReadStack { offset: 7 })));
    assert!(matches!(
        parse_command(&["rsk", "-9223372036854775808"]),
        Ok(ShellCommand::ReadStack { offset: i64::MIN })
    ));
    assert!(matches!(
        parse_command(&["rsk", "9223372036854775807"]),
        Ok(ShellCommand::ReadStack { offset: i64::MAX })
    ));
    assert!(matches!(parse_command(&["rsk", "-0012"]), Ok(ShellCommand::ReadStack { offset: -12 })));
    for text in [
        "9223372036854775808",
        "-9223372036854775809",
        "99999999999999999999",
        "",
        "-",
        "+",
        "+-1",
        " 1",
        "1_0",
        "0x10",
        "1e3",
        "\u{661}",
    ] {
        assert!(
            matches!(parse_command(&["rsk", text]), Err(ShellError::InvalidOffset { .. })),
            "{text:?} should be refused"
        );
    }
}
