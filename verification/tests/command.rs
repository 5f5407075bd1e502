use spinup::configuration::{CustomCommand, SystemDetails, TargetOperatingSystem};
use spinup::error::Error;
use spinup::operations::RunnableOperation;

#[test]
fn command_test_get_command_name() {
    let command = CustomCommand::new(String::from("fc-cache"), None, false);
    let actual_res = command.command_name(SystemDetails::new(TargetOperatingSystem::Arch));
    assert!(actual_res.is_ok());
    let actual = actual_res.unwrap();
    assert_eq!(actual, String::from("fc-cache"));
}

#[test]
fn command_test_empty_command_err() {
    let command = CustomCommand::new(String::new(), None, false);
    let actual_res = command.command_name(SystemDetails::new(TargetOperatingSystem::Arch));
    assert!(actual_res.is_err());
}

#[test]
fn command_test_no_root_without_sudo() {
    let command = CustomCommand::new(String::from("git"), None, false);
    assert!(!command.needs_root());
}

#[test]
fn test_root() {
    let command = CustomCommand::new(String::from("systemctl"), None, true);
    assert!(command.needs_root());
}

#[test]
fn test_not_root() {
    let command = CustomCommand::new(String::from("systemctl"), None, false);
    assert!(!command.needs_root());
}

#[test]
fn command_test_get_args() {
    let command = CustomCommand::new(
        String::from("mv"),
        Some(vec![
            String::from("/tmp/file.txt"),
            String::from("/tmp/file.txt.bak"),
        ]),
        false,
    );
    let actual_opt = command.args(SystemDetails::new(TargetOperatingSystem::Arch));
    assert!(actual_opt.is_some());
    let actual = actual_opt.unwrap();
    assert_eq!(
        actual,
        vec![
            String::from("/tmp/file.txt"),
            String::from("/tmp/file.txt.bak")
        ]
    );
}

#[test]
fn command_test_get_none_args() {
    let command = CustomCommand::new(String::from("git"), None, false);
    let actual = command.args(SystemDetails::new(TargetOperatingSystem::Debian));
    assert!(actual.is_none());
    let on_mint = command.args(SystemDetails::new(TargetOperatingSystem::Mint));
    assert!(on_mint.is_none());
}

#[test]
fn empty_command_gives_empty_command_error() {
    let command = CustomCommand::new(String::new(), Some(vec![String::from("-l")]), true);
    let actual = command.command_name(SystemDetails::new(TargetOperatingSystem::Fedora));
    assert_eq!(actual, Err(Error::EmptyCommand));
}

#[test]
fn explicit_empty_argument_list_is_kept() {
    let command = CustomCommand::new(String::from("ls"), Some(vec![]), false);
    let actual = command.args(SystemDetails::new(TargetOperatingSystem::Arch));
    assert_eq!(actual, Some(Vec::<String>::new()));
}

#[test]
fn sudo_is_a_command_like_any_other() {
    let command = CustomCommand::new(String::from("sudo"), None, false);
    assert!(!command.needs_root());
    let name = command.command_name(SystemDetails::new(TargetOperatingSystem::Debian));
    assert_eq!(name, Ok(String::from("sudo")));
}

#[test]
fn clone_keeps_every_field() {
    let command = CustomCommand::new(String::from("mv"), Some(vec![String::from("a")]), true);
    assert_eq!(command.clone(), command);
}
