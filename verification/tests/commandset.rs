use spinup::configuration::{
    CommandSet, Configuration, CustomCommand, OrderedCommand, SystemDetails,
    TargetOperatingSystem,
};
use spinup::error::Error;
use spinup::operations::custom_commands::run_collected_commands;
use spinup::operations::{run_custom_commands, RunnableOperation};

fn ordered(id: u8, name: &str) -> OrderedCommand {
    OrderedCommand {
        id,
        command: CustomCommand::new(name.to_string(), None, false),
    }
}

fn config_with(
    custom_commands: Option<Vec<CustomCommand>>,
    command_sets: Option<Vec<CommandSet>>,
) -> Configuration {
    Configuration {
        package_list: None,
        file_downloads: None,
        snaps: None,
        custom_commands,
        command_sets,
        update_system: false,
        system_details: SystemDetails::new(TargetOperatingSystem::Arch),
    }
}

#[test]
fn check_validate_duplicate_ids() {
    let command_set = CommandSet {
        commands: vec![
            OrderedCommand {
                id: 1,
                command: CustomCommand::new("ls".to_string(), None, false),
            },
            OrderedCommand {
                id: 2,
                command: CustomCommand::new("cd".to_string(), None, false),
            },
            OrderedCommand {
                id: 1,
                command: CustomCommand::new("mv".to_string(), None, false),
            },
        ],
    };
    let actual = command_set.validate();
    assert!(actual.is_err());
}

#[test]
fn check_validate_ok() {
    let command_set = CommandSet {
        commands: vec![
            OrderedCommand {
                id: 1,
                command: CustomCommand::new("ls".to_string(), None, false),
            },
            OrderedCommand {
                id: 2,
                command: CustomCommand::new("cd".to_string(), None, false),
            },
        ],
    };
    let actual = command_set.validate();
    assert!(actual.is_ok());
}

#[test]
fn duplicate_ids_are_listed_once() {
    let command_set = CommandSet::new(vec![ordered(1, "ls"), ordered(2, "cd"), ordered(1, "mv")]);
    assert_eq!(
        command_set.validate(),
        Err(Error::DuplicateOrderingId(vec![1]))
    );
}

#[test]
fn duplicate_ids_are_listed_in_ascending_order() {
    let command_set = CommandSet::new(vec![
        ordered(9, "a"),
        ordered(3, "b"),
        ordered(9, "c"),
        ordered(255, "d"),
        ordered(3, "e"),
        ordered(9, "f"),
        ordered(255, "g"),
        ordered(0, "h"),
    ]);
    assert_eq!(
        command_set.validate(),
        Err(Error::DuplicateOrderingId(vec![3, 9, 255]))
    );
}

#[test]
fn distinct_ids_validate() {
    let command_set = CommandSet::new(vec![ordered(1, "a"), ordered(2, "b"), ordered(3, "c")]);
    assert_eq!(command_set.validate(), Ok(()));
}

#[test]
fn empty_set_validates_and_runs_nothing() {
    let command_set = CommandSet::new(vec![]);
    assert_eq!(command_set.validate(), Ok(()));
    assert!(command_set.get_runnable_commands().is_empty());
}

#[test]
fn commands_run_in_ascending_order_of_their_ids() {
    let command_set = CommandSet::new(vec![ordered(3, "c"), ordered(1, "a"), ordered(2, "b")]);
    let names: Vec<String> = command_set
        .get_runnable_commands()
        .iter()
        .map(|c| c.command.command.clone())
        .collect();
    assert_eq!(names, vec!["a".to_string(), "b".to_string(), "c".to_string()]);
}

#[test]
fn commands_of_one_id_keep_their_order() {
    let command_set = CommandSet::new(vec![
        ordered(2, "first"),
        ordered(0, "zero"),
        ordered(2, "second"),
        ordered(255, "last"),
    ]);
    let names: Vec<String> = command_set
        .get_runnable_commands()
        .iter()
        .map(|c| c.command.command.clone())
        .collect();
    assert_eq!(
        names,
        vec![
            "zero".to_string(),
            "first".to_string(),
            "second".to_string(),
            "last".to_string()
        ]
    );
}

#[test]
fn ordered_command_answers_for_its_command() {
    let sys = SystemDetails::new(TargetOperatingSystem::Arch);
    let command = OrderedCommand {
        id: 7,
        command: CustomCommand::new("ls".to_string(), Some(vec!["-a".to_string()]), true),
    };
    assert_eq!(command.command_name(sys), Ok("ls".to_string()));
    assert_eq!(command.args(sys), Some(vec!["-a".to_string()]));
    assert!(command.needs_root());
}

#[test]
fn a_set_is_planned_in_ascending_order() {
    let config = config_with(None, None);
    let command_set = CommandSet::new(vec![ordered(3, "c"), ordered(1, "a"), ordered(2, "b")]);
    let plan = run_collected_commands(&command_set, &config);
    assert_eq!(plan.failure, None);
    let programs: Vec<String> = plan.invocations.iter().map(|i| i.program.clone()).collect();
    assert_eq!(programs, vec!["a".to_string(), "b".to_string(), "c".to_string()]);
}

#[test]
fn an_invalid_set_plans_nothing() {
    let config = config_with(None, None);
    let command_set = CommandSet::new(vec![ordered(1, "ls"), ordered(2, "cd"), ordered(1, "mv")]);
    let plan = run_collected_commands(&command_set, &config);
    assert!(plan.invocations.is_empty());
    assert_eq!(plan.failure, Some(Error::DuplicateOrderingId(vec![1])));
}

#[test]
fn custom_commands_come_before_command_sets() {
    let config = config_with(
        Some(vec![
            CustomCommand::new("one".to_string(), None, false),
            CustomCommand::new("two".to_string(), Some(vec!["x".to_string()]), true),
        ]),
        Some(vec![
            CommandSet::new(vec![ordered(2, "b"), ordered(1, "a")]),
            CommandSet::new(vec![ordered(5, "z")]),
        ]),
    );
    let plan = run_custom_commands(&config);
    assert_eq!(plan.failure, None);
    let programs: Vec<String> = plan.invocations.iter().map(|i| i.program.clone()).collect();
    assert_eq!(
        programs,
        vec![
            "one".to_string(),
            "sudo".to_string(),
            "a".to_string(),
            "b".to_string(),
            "z".to_string()
        ]
    );
    assert_eq!(plan.invocations[1].args, vec!["two".to_string(), "x".to_string()]);
}

#[test]
fn the_command_phase_fails_fast() {
    let config = config_with(
        Some(vec![
            CustomCommand::new("one".to_string(), None, false),
            CustomCommand::new(String::new(), None, false),
            CustomCommand::new("three".to_string(), None, false),
        ]),
        Some(vec![CommandSet::new(vec![ordered(1, "a")])]),
    );
    let plan = run_custom_commands(&config);
    assert_eq!(plan.failure, Some(Error::EmptyCommand));
    assert_eq!(plan.invocations.len(), 1);
    assert_eq!(plan.invocations[0].program, "one");
}

#[test]
fn an_invalid_set_stops_the_sets_behind_it() {
    let config = config_with(
        None,
        Some(vec![
            CommandSet::new(vec![ordered(1, "a")]),
            CommandSet::new(vec![ordered(4, "x"), ordered(4, "y")]),
            CommandSet::new(vec![ordered(1, "never")]),
        ]),
    );
    let plan = run_custom_commands(&config);
    assert_eq!(plan.failure, Some(Error::DuplicateOrderingId(vec![4])));
    assert_eq!(plan.invocations.len(), 1);
    assert_eq!(plan.invocations[0].program, "a");
}

#[test]
fn nothing_configured_plans_nothing() {
    let plan = run_custom_commands(&config_with(None, None));
    assert!(plan.invocations.is_empty());
    assert_eq!(plan.failure, None);
}
