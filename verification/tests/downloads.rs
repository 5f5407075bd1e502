use spinup::configuration::files::{download_target, resolve_target_base};
use spinup::configuration::{
    Configuration, CustomCommand, FileDownloadDefinition, FileDownloadOperation, SystemDetails,
    TargetOperatingSystem,
};
use spinup::error::Error;
use spinup::operations::file_downloads::{
    collect_results, execute_download_operation, plan_download, plan_transfers,
    prepare_download, transfer_outcome, DownloadPlan, Transfer,
};
use spinup::operations::{execute_download_operations, Invocation};

fn definition(source: &str, target: &str) -> FileDownloadDefinition {
    FileDownloadDefinition {
        source: source.to_string(),
        target: target.to_string(),
    }
}

fn operation(
    base_dir: Option<&str>,
    after_complete: Option<CustomCommand>,
    files: Vec<FileDownloadDefinition>,
) -> FileDownloadOperation {
    FileDownloadOperation {
        base_dir: base_dir.map(|s| s.to_string()),
        after_complete,
        files,
    }
}

fn config_with(file_downloads: Option<Vec<FileDownloadOperation>>) -> Configuration {
    Configuration {
        package_list: None,
        file_downloads,
        snaps: None,
        custom_commands: None,
        command_sets: None,
        update_system: false,
        system_details: SystemDetails::new(TargetOperatingSystem::Arch),
    }
}

fn sys() -> SystemDetails {
    SystemDetails::new(TargetOperatingSystem::Arch)
}

fn refresh_fonts() -> CustomCommand {
    CustomCommand::new("fc-cache".to_string(), Some(vec!["-f".to_string()]), false)
}

#[test]
fn the_configured_directory_comes_first() {
    assert_eq!(
        resolve_target_base(Some("/srv/fonts"), Some("/work"), Some("/home/u")),
        Some("/srv/fonts".to_string())
    );
    assert_eq!(
        resolve_target_base(None, Some("/work"), Some("/home/u")),
        Some("/work".to_string())
    );
    assert_eq!(
        resolve_target_base(None, None, Some("/home/u")),
        Some("/home/u".to_string())
    );
    assert_eq!(resolve_target_base(None, None, None), None);
    assert_eq!(
        resolve_target_base(Some("rel/dir"), None, None),
        Some("rel/dir".to_string())
    );
}

#[test]
fn a_leading_tilde_is_the_home_directory() {
    assert_eq!(
        resolve_target_base(Some("~/.fonts"), Some("/work"), Some("/home/u")),
        Some("/home/u/.fonts".to_string())
    );
    assert_eq!(
        resolve_target_base(Some("~"), None, Some("/home/u")),
        Some("/home/u".to_string())
    );
    assert_eq!(
        resolve_target_base(Some("~/"), None, Some("/home/u")),
        Some("/home/u/".to_string())
    );
    assert_eq!(
        resolve_target_base(None, Some("~/work"), Some("/root")),
        Some("/root/work".to_string())
    );
}

#[test]
fn other_tildes_stay() {
    assert_eq!(
        resolve_target_base(Some("~fonts"), None, Some("/home/u")),
        Some("~fonts".to_string())
    );
    assert_eq!(
        resolve_target_base(Some("/a/~/b"), None, Some("/home/u")),
        Some("/a/~/b".to_string())
    );
    assert_eq!(
        resolve_target_base(Some("./~"), None, Some("/home/u")),
        Some("./~".to_string())
    );
    assert_eq!(
        resolve_target_base(Some(""), None, Some("/home/u")),
        Some("".to_string())
    );
}

#[test]
fn without_a_home_directory_the_tilde_stays() {
    assert_eq!(
        resolve_target_base(Some("~/.fonts"), Some("/work"), None),
        Some("~/.fonts".to_string())
    );
}

#[test]
fn an_operation_with_a_plain_base_needs_no_lookup() {
    let op = operation(Some("/srv/fonts"), None, vec![]);
    assert_eq!(
        op.download_target_base(Some("/work")),
        Some("/srv/fonts".to_string())
    );
    let op = operation(None, None, vec![]);
    assert_eq!(
        op.download_target_base(Some("/work")),
        Some("/work".to_string())
    );
}

#[test]
fn an_operation_under_home_is_resolved_on_the_machine() {
    let op = operation(Some("~/.fonts"), None, vec![]);
    let resolved = op.download_target_base(None).unwrap();
    match dirs::home_dir() {
        Some(home) => assert_eq!(resolved, format!("{}/.fonts", home.to_string_lossy())),
        None => assert_eq!(resolved, "~/.fonts"),
    }
    let op = operation(None, None, vec![]);
    match dirs::home_dir() {
        Some(home) => assert_eq!(
            op.download_target_base(None),
            Some(home.to_string_lossy().into_owned())
        ),
        None => assert_eq!(op.download_target_base(None), None),
    }
}

#[test]
fn files_go_below_the_base_directory() {
    let font = definition("http://example.com/a.ttf", "a.ttf");
    assert_eq!(download_target(&font, "/srv/fonts"), "/srv/fonts/a.ttf");
    assert_eq!(download_target(&font, "/srv/fonts/"), "/srv/fonts/a.ttf");
    assert_eq!(download_target(&font, "/"), "/a.ttf");
    assert_eq!(download_target(&font, "rel"), "rel/a.ttf");
    assert_eq!(download_target(&font, ""), "a.ttf");
    let nested = definition("http://example.com/b", "sub/b.txt");
    assert_eq!(download_target(&nested, "/srv"), "/srv/sub/b.txt");
}

#[test]
fn transfers_follow_the_files() {
    let op = operation(
        Some("/srv"),
        None,
        vec![
            definition("http://example.com/a", "a.txt"),
            definition("http://example.com/b", "b.txt"),
        ],
    );
    assert_eq!(
        plan_transfers(&op, "/srv"),
        vec![
            Transfer {
                source: "http://example.com/a".to_string(),
                destination: "/srv/a.txt".to_string()
            },
            Transfer {
                source: "http://example.com/b".to_string(),
                destination: "/srv/b.txt".to_string()
            },
        ]
    );
    assert!(plan_transfers(&operation(None, None, vec![]), "/srv").is_empty());
}

#[test]
fn outcomes_fail_together() {
    assert_eq!(collect_results(&vec![]), Ok(()));
    assert_eq!(collect_results(&vec![Ok(()), Ok(()), Ok(())]), Ok(()));
    assert_eq!(
        collect_results(&vec![
            Ok(()),
            Err(Error::DownloadFailed {
                source: "b".to_string()
            }),
            Ok(()),
            Err(Error::WriteFailed {
                target: "d".to_string()
            }),
        ]),
        Err(Error::DownloadFailed {
            source: "b".to_string()
        })
    );
    assert_eq!(
        collect_results(&vec![Err(Error::DirectoryCreationFailed), Ok(())]),
        Err(Error::DirectoryCreationFailed)
    );
}

#[test]
fn the_command_runs_after_every_transfer_succeeded() {
    let op = operation(
        Some("/srv"),
        Some(refresh_fonts()),
        vec![definition("http://a", "a"), definition("http://b", "b")],
    );
    let actual = execute_download_operation(&op, sys(), &vec![Ok(()), Ok(())]);
    assert_eq!(
        actual,
        Ok(Some(Invocation {
            program: "fc-cache".to_string(),
            args: vec!["-f".to_string()],
            elevated: false
        }))
    );
}

#[test]
fn a_failed_transfer_skips_the_command() {
    let op = operation(
        Some("/srv"),
        Some(refresh_fonts()),
        vec![definition("http://a", "a"), definition("not a url", "b")],
    );
    let failure = Error::DownloadFailed {
        source: "not a url".to_string(),
    };
    let actual = execute_download_operation(&op, sys(), &vec![Ok(()), Err(failure.clone())]);
    assert_eq!(actual, Err(failure));
}

#[test]
fn without_a_command_a_successful_operation_is_done() {
    let op = operation(Some("/srv"), None, vec![definition("http://a", "a")]);
    assert_eq!(execute_download_operation(&op, sys(), &vec![Ok(())]), Ok(None));
    let failed = execute_download_operation(
        &op,
        sys(),
        &vec![Err(Error::WriteFailed {
            target: "/srv/a".to_string(),
        })],
    );
    assert_eq!(
        failed,
        Err(Error::WriteFailed {
            target: "/srv/a".to_string()
        })
    );
}

#[test]
fn an_operation_without_files_still_runs_its_command() {
    let op = operation(
        None,
        Some(CustomCommand::new("systemctl".to_string(), None, true)),
        vec![],
    );
    assert_eq!(
        execute_download_operation(&op, sys(), &vec![]),
        Ok(Some(Invocation {
            program: "sudo".to_string(),
            args: vec!["systemctl".to_string()],
            elevated: true
        }))
    );
}

#[test]
fn a_command_that_cannot_be_resolved_fails_the_operation() {
    let op = operation(
        None,
        Some(CustomCommand::new(String::new(), None, false)),
        vec![definition("http://a", "a")],
    );
    assert_eq!(
        execute_download_operation(&op, sys(), &vec![Ok(())]),
        Err(Error::EmptyCommand)
    );
}

#[test]
fn no_downloads_is_success() {
    assert_eq!(execute_download_operations(&config_with(None), &vec![]), Ok(()));
    assert_eq!(
        execute_download_operations(&config_with(Some(vec![])), &vec![]),
        Ok(())
    );
}

#[test]
fn operations_fail_together() {
    let config = config_with(Some(vec![
        operation(None, None, vec![]),
        operation(None, None, vec![]),
        operation(None, None, vec![]),
    ]));
    assert_eq!(
        execute_download_operations(&config, &vec![Ok(()), Ok(()), Ok(())]),
        Ok(())
    );
    assert_eq!(
        execute_download_operations(
            &config,
            &vec![
                Ok(()),
                Err(Error::CommandFailed { exit_code: 4 }),
                Err(Error::SpawnFailed)
            ]
        ),
        Err(Error::CommandFailed { exit_code: 4 })
    );
}

#[test]
fn a_download_needs_a_directory() {
    let op = operation(None, None, vec![definition("http://a", "a")]);
    assert_eq!(plan_download(&op, None), Err(Error::DirectoryCreationFailed));
    assert_eq!(
        plan_download(&op, Some("/srv".to_string())),
        Ok(DownloadPlan {
            directory: "/srv".to_string(),
            transfers: vec![Transfer {
                source: "http://a".to_string(),
                destination: "/srv/a".to_string()
            }]
        })
    );
}

#[test]
fn a_download_is_prepared_for_its_base_directory() {
    let op = operation(
        Some("/srv/fonts"),
        None,
        vec![definition("http://a", "a.ttf"), definition("http://b", "b.ttf")],
    );
    let plan = prepare_download(&op, Some("/work")).unwrap();
    assert_eq!(plan.directory, "/srv/fonts");
    let destinations: Vec<String> = plan.transfers.iter().map(|t| t.destination.clone()).collect();
    assert_eq!(
        destinations,
        vec!["/srv/fonts/a.ttf".to_string(), "/srv/fonts/b.ttf".to_string()]
    );
    let op = operation(None, None, vec![definition("http://a", "a.ttf")]);
    let plan = prepare_download(&op, Some("/work")).unwrap();
    assert_eq!(plan.directory, "/work");
    assert_eq!(plan.transfers[0].destination, "/work/a.ttf");
}

#[test]
fn transfers_fail_by_what_went_wrong() {
    let transfer = Transfer {
        source: "http://a".to_string(),
        destination: "/srv/a".to_string(),
    };
    assert_eq!(transfer_outcome(&transfer, true, true), Ok(()));
    assert_eq!(
        transfer_outcome(&transfer, false, false),
        Err(Error::DownloadFailed {
            source: "http://a".to_string()
        })
    );
    assert_eq!(
        transfer_outcome(&transfer, false, true),
        Err(Error::DownloadFailed {
            source: "http://a".to_string()
        })
    );
    assert_eq!(
        transfer_outcome(&transfer, true, false),
        Err(Error::WriteFailed {
            target: "/srv/a".to_string()
        })
    );
}
