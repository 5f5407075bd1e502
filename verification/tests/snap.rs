use spinup::configuration::{
    Configuration, SnapChannel, SnapPackage, Snaps, StandardSnaps, SystemDetails,
    TargetOperatingSystem,
};
use spinup::error::Error;
use spinup::operations::{install_snap_packages, RunnableOperation};

fn strings(items: &[&str]) -> Vec<String> {
    items.iter().map(|s| s.to_string()).collect()
}

fn config_with(snaps: Option<Snaps>) -> Configuration {
    Configuration {
        package_list: None,
        file_downloads: None,
        snaps,
        custom_commands: None,
        command_sets: None,
        update_system: false,
        system_details: SystemDetails::new(TargetOperatingSystem::Ubuntu),
    }
}

#[test]
fn ensure_default_for_snap_channel() {
    let channel = SnapChannel::default();

    assert_eq!(channel, SnapChannel::Stable);
}

#[test]
fn test_get_expected_executable_from_standard_snaps() {
    let standard_snaps = StandardSnaps {
        names: vec![String::from("dummy")],
    };

    let actual_res = standard_snaps.command_name(SystemDetails::new(TargetOperatingSystem::Arch));
    assert!(actual_res.is_ok());
    let actual_cmd = actual_res.unwrap();
    assert_eq!(actual_cmd, String::from("snap"));
}

#[test]
fn test_get_expected_arguments_from_standard_snaps() {
    let standard_snaps = StandardSnaps {
        names: vec![String::from("spotify"), String::from("code")],
    };
    let actual_opt = standard_snaps.args(SystemDetails::new(TargetOperatingSystem::Arch));
    assert!(actual_opt.is_some());
    let actual_args = actual_opt.unwrap();
    let expected_args = vec![
        String::from("install"),
        String::from("spotify"),
        String::from("code"),
    ];
    assert_eq!(actual_args, expected_args);
}

#[test]
fn ensure_no_names_gives_none_args() {
    let standard_snaps = StandardSnaps { names: vec![] };
    let actual_opt = standard_snaps.args(SystemDetails::new(TargetOperatingSystem::Arch));
    assert!(actual_opt.is_none());
}

#[test]
fn ensure_empty_snap_list_is_command_err() {
    let standard_snaps = StandardSnaps { names: Vec::new() };
    let actual_res = standard_snaps.command_name(SystemDetails::new(TargetOperatingSystem::Arch));
    assert!(actual_res.is_err());
}

#[test]
fn ensure_standard_snaps_needs_root() {
    let standard_snaps = StandardSnaps {
        names: vec![String::from("dummy")],
    };
    assert!(standard_snaps.needs_root());
}

#[test]
fn test_package_command() {
    let package = SnapPackage {
        name: String::from("spotify"),
        classic: true,
        channel: SnapChannel::default(),
    };
    let actual_res = package.command_name(SystemDetails::new(TargetOperatingSystem::Arch));
    assert!(actual_res.is_ok());
    let actual_cmd = actual_res.unwrap();
    assert_eq!(actual_cmd, String::from("snap"));
}

#[test]
fn test_package_stable_classic_args() {
    let package = SnapPackage {
        name: String::from("spotify"),
        classic: true,
        channel: SnapChannel::default(),
    };
    let actual_res = package.args(SystemDetails::new(TargetOperatingSystem::Arch));
    assert!(actual_res.is_some());
    let actual_args = actual_res.unwrap();
    assert_eq!(
        actual_args,
        vec![
            String::from("install"),
            String::from("spotify"),
            String::from("--stable"),
            String::from("--classic")
        ]
    );
}

#[test]
fn ensure_nameless_snap_is_cmd_err() {
    let package = SnapPackage {
        name: String::new(),
        classic: true,
        channel: SnapChannel::default(),
    };
    let actual_res = package.command_name(SystemDetails::new(TargetOperatingSystem::Arch));
    assert!(actual_res.is_err());
}

#[test]
fn test_package_stable_no_classic_args() {
    let package = SnapPackage {
        name: String::from("spotify"),
        classic: false,
        channel: SnapChannel::default(),
    };
    let actual_res = package.args(SystemDetails::new(TargetOperatingSystem::Arch));
    assert!(actual_res.is_some());
    let actual_args = actual_res.unwrap();
    assert_eq!(
        actual_args,
        vec![
            String::from("install"),
            String::from("spotify"),
            String::from("--stable")
        ]
    );
}

#[test]
fn test_package_beta_args() {
    let package = SnapPackage {
        name: String::from("spotify"),
        classic: false,
        channel: SnapChannel::Beta,
    };
    let actual_res = package.args(SystemDetails::new(TargetOperatingSystem::Arch));
    assert!(actual_res.is_some());
    let actual_args = actual_res.unwrap();
    assert_eq!(
        actual_args,
        vec![
            String::from("install"),
            String::from("spotify"),
            String::from("--beta")
        ]
    );
}

#[test]
fn test_package_candidate_args() {
    let package = SnapPackage {
        name: String::from("spotify"),
        classic: false,
        channel: SnapChannel::Candidate,
    };
    let actual_res = package.args(SystemDetails::new(TargetOperatingSystem::Arch));
    assert!(actual_res.is_some());
    let actual_args = actual_res.unwrap();
    assert_eq!(
        actual_args,
        vec![
            String::from("install"),
            String::from("spotify"),
            String::from("--candidate")
        ]
    );
}

#[test]
fn test_package_edge_args() {
    let package = SnapPackage {
        name: String::from("spotify"),
        classic: false,
        channel: SnapChannel::Edge,
    };
    let actual_res = package.args(SystemDetails::new(TargetOperatingSystem::Arch));
    assert!(actual_res.is_some());
    let actual_args = actual_res.unwrap();
    assert_eq!(
        actual_args,
        vec![
            String::from("install"),
            String::from("spotify"),
            String::from("--edge")
        ]
    );
}

#[test]
fn test_package_needs_root() {
    let package = SnapPackage {
        name: String::from("spotify"),
        classic: false,
        channel: SnapChannel::Edge,
    };
    assert!(package.needs_root());
}

#[test]
fn beta_classic_snap_args() {
    let package = SnapPackage {
        name: String::from("spotify"),
        classic: true,
        channel: SnapChannel::Beta,
    };
    let args = package.args(SystemDetails::new(TargetOperatingSystem::Ubuntu));
    assert_eq!(
        args,
        Some(strings(&["install", "spotify", "--beta", "--classic"]))
    );
}

#[test]
fn channel_flags() {
    assert_eq!(SnapChannel::Stable.to_flag(), "--stable");
    assert_eq!(SnapChannel::Beta.to_flag(), "--beta");
    assert_eq!(SnapChannel::Candidate.to_flag(), "--candidate");
    assert_eq!(SnapChannel::Edge.to_flag(), "--edge");
}

#[test]
fn snap_errors_by_kind() {
    let sys = SystemDetails::new(TargetOperatingSystem::Ubuntu);
    let nameless = SnapPackage {
        name: String::new(),
        classic: false,
        channel: SnapChannel::Stable,
    };
    assert_eq!(nameless.command_name(sys), Err(Error::EmptyCommand));
    let none = StandardSnaps { names: vec![] };
    assert_eq!(none.command_name(sys), Err(Error::NoPackagesConfigured));
}

#[test]
fn snap_phase_runs_standard_then_alternates() {
    let snaps = Snaps {
        standard_snaps: StandardSnaps {
            names: strings(&["spotify", "code"]),
        },
        alternate_snaps: Some(vec![
            SnapPackage {
                name: "slack".into(),
                classic: true,
                channel: SnapChannel::Stable,
            },
            SnapPackage {
                name: "hugo".into(),
                classic: false,
                channel: SnapChannel::Edge,
            },
        ]),
    };
    let plan = install_snap_packages(&config_with(Some(snaps)));
    assert_eq!(plan.failure, None);
    let args: Vec<Vec<String>> = plan.invocations.iter().map(|i| i.args.clone()).collect();
    assert_eq!(
        args,
        vec![
            strings(&["snap", "install", "spotify", "code"]),
            strings(&["snap", "install", "slack", "--stable", "--classic"]),
            strings(&["snap", "install", "hugo", "--edge"]),
        ]
    );
    assert!(plan.invocations.iter().all(|i| i.program == "sudo" && i.elevated));
}

#[test]
fn snap_phase_stops_at_an_empty_standard_list() {
    let snaps = Snaps {
        standard_snaps: StandardSnaps { names: vec![] },
        alternate_snaps: Some(vec![SnapPackage {
            name: "slack".into(),
            classic: true,
            channel: SnapChannel::Stable,
        }]),
    };
    let plan = install_snap_packages(&config_with(Some(snaps)));
    assert!(plan.invocations.is_empty());
    assert_eq!(plan.failure, Some(Error::NoPackagesConfigured));
}

#[test]
fn snap_phase_stops_at_a_nameless_snap() {
    let snaps = Snaps {
        standard_snaps: StandardSnaps {
            names: strings(&["code"]),
        },
        alternate_snaps: Some(vec![
            SnapPackage {
                name: "slack".into(),
                classic: false,
                channel: SnapChannel::Beta,
            },
            SnapPackage {
                name: String::new(),
                classic: false,
                channel: SnapChannel::Beta,
            },
            SnapPackage {
                name: "never".into(),
                classic: false,
                channel: SnapChannel::Beta,
            },
        ]),
    };
    let plan = install_snap_packages(&config_with(Some(snaps)));
    assert_eq!(plan.invocations.len(), 2);
    assert_eq!(plan.failure, Some(Error::EmptyCommand));
}

#[test]
fn no_snap_section_plans_nothing() {
    let plan = install_snap_packages(&config_with(None));
    assert!(plan.invocations.is_empty());
    assert_eq!(plan.failure, None);
}
