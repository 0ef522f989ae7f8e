use usb_vault::cli::{parse_args, plan_command, CliCommand};

fn args(list: &[&str]) -> Vec<String> {
    list.iter().map(|s| s.to_string()).collect()
}

#[test]
fn parse_device_and_password() {
    let (d, p) = parse_args(&args(&["usb-vault", "encrypt", "-d", "/dev/sdb", "-p", "pw"]));
    assert_eq!(d, "/dev/sdb");
    assert_eq!(p, Some("pw".to_string()));
    let (d, p) = parse_args(&args(&["usb-vault", "decrypt", "--device", "/dev/sdc"]));
    assert_eq!(d, "/dev/sdc");
    assert_eq!(p, None);
}

#[test]
fn parse_skips_unknown_and_dangling_flags() {
    let (d, p) = parse_args(&args(&["usb-vault", "encrypt", "-x", "-d"]));
    assert_eq!(d, "");
    assert_eq!(p, None);
    let (d, p) = parse_args(&args(&["usb-vault", "encrypt", "-d", "a", "--device", "b", "--password"]));
    assert_eq!(d, "b");
    assert_eq!(p, None);
    // the command itself is never read as an option
    let (d, _) = parse_args(&args(&["usb-vault", "-d", "x"]));
    assert_eq!(d, "");
}

#[test]
fn plan_commands() {
    assert!(matches!(plan_command(&args(&["usb-vault"])), CliCommand::Tui));
    assert!(matches!(plan_command(&args(&["usb-vault", "help"])), CliCommand::Help));
    assert!(matches!(plan_command(&args(&["usb-vault", "--help"])), CliCommand::Help));
    assert!(matches!(plan_command(&args(&["usb-vault", "encrypt"])), CliCommand::MissingDevice));
    assert!(matches!(plan_command(&args(&["usb-vault", "wipe", "-p", "x"])), CliCommand::MissingDevice));
    match plan_command(&args(&["usb-vault", "decrypt", "-d", "/dev/sdb", "-p", "pw"])) {
        CliCommand::Decrypt { device, password } => {
            assert_eq!(device, "/dev/sdb");
            assert_eq!(password, Some("pw".to_string()));
        }
        other => panic!("unexpected {:?}", other),
    }
    match plan_command(&args(&["usb-vault", "wipe", "-d", "/dev/sdd"])) {
        CliCommand::Wipe { device } => assert_eq!(device, "/dev/sdd"),
        other => panic!("unexpected {:?}", other),
    }
    match plan_command(&args(&["usb-vault", "frobnicate"])) {
        CliCommand::Unknown(c) => assert_eq!(c, "frobnicate"),
        other => panic!("unexpected {:?}", other),
    }
}
