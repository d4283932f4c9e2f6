use wheelsticks::command::CommandLine;
use wheelsticks::subcommand::deploy::{
    assemble_artifacts, deploy_remotely, go, run_deploy_on_remote, synchronize_artifacts, Action,
    Deployment, Event, FileCopy, In, Ssh, Stage, Workbench,
};

fn words(words: &[&str]) -> Vec<String> {
    words.iter().map(|word| (*word).into()).collect()
}

fn workbench() -> Workbench {
    Workbench { local: ".wheelsticks".into(), remote: "/home/me/.wheelsticks".into() }
}

fn command(program: &str, arguments: &[&str]) -> CommandLine {
    CommandLine {
        program: program.into(),
        arguments: words(arguments),
        environment: vec![],
        directory: None,
    }
}

#[test]
fn deployment_is_local_without_a_host() {
    let in_ = In {
        compose_file: "compose.yaml".into(),
        ssh_configuration: Some("ssh_config".into()),
        ssh_host: None,
        ssh_user: Some("me".into()),
    };
    assert_eq!(go(in_), Deployment::Local);
}

#[test]
fn deployment_is_remote_with_a_host() {
    let in_ = In {
        compose_file: "compose.yaml".into(),
        ssh_configuration: Some("ssh_config".into()),
        ssh_host: Some("example.com".into()),
        ssh_user: None,
    };
    assert_eq!(
        go(in_),
        Deployment::Remote(Ssh {
            configuration: Some("ssh_config".into()),
            host: "example.com".into(),
            user: None,
        }),
    );
}

#[test]
fn compose_file_is_put_on_the_local_workbench() {
    assert_eq!(
        assemble_artifacts("my/compose.yaml", &workbench()),
        FileCopy { source: "my/compose.yaml".into(), destination: ".wheelsticks/compose.yaml".into() },
    );
}

#[test]
fn workbench_is_synchronized_with_rsync() {
    let ssh = Ssh { configuration: None, host: "example.com".into(), user: None };
    assert_eq!(
        synchronize_artifacts(&workbench(), &ssh),
        command(
            "rsync",
            &["--archive", "--delete", "--", ".wheelsticks/", "example.com:/home/me/.wheelsticks"],
        ),
    );
    let ssh = Ssh {
        configuration: Some("my config".into()),
        host: "example.com".into(),
        user: Some("me".into()),
    };
    assert_eq!(
        synchronize_artifacts(&workbench(), &ssh),
        command(
            "rsync",
            &[
                "--archive",
                "--delete",
                "--rsh",
                "ssh -F \"my config\"",
                "--",
                ".wheelsticks/",
                "me@example.com:/home/me/.wheelsticks",
            ],
        ),
    );
}

#[test]
fn tool_is_started_on_the_remote_host() {
    let ssh = Ssh { configuration: None, host: "example.com".into(), user: None };
    assert_eq!(
        run_deploy_on_remote(&workbench(), &ssh),
        command(
            "ssh",
            &[
                "example.com",
                "--",
                "wheelsticks",
                "deploy",
                "--compose-file",
                "/home/me/.wheelsticks/compose.yaml",
            ],
        ),
    );
    let ssh = Ssh {
        configuration: Some("ssh_config".into()),
        host: "example.com".into(),
        user: Some("me".into()),
    };
    assert_eq!(
        run_deploy_on_remote(&workbench(), &ssh),
        command(
            "ssh",
            &[
                "-F",
                "ssh_config",
                "-l",
                "me",
                "example.com",
                "--",
                "wheelsticks",
                "deploy",
                "--compose-file",
                "/home/me/.wheelsticks/compose.yaml",
            ],
        ),
    );
}

#[test]
fn ssh_configuration_is_written_as_a_path_is_shown() {
    let ssh = Ssh {
        configuration: Some("it's \"mine\"".into()),
        host: "example.com".into(),
        user: None,
    };
    let expected = format!("ssh -F {:?}", std::path::Path::new("it's \"mine\""));
    assert_eq!(synchronize_artifacts(&workbench(), &ssh).arguments[3], expected);
    for file in ["", "plain", "tab\there", "back\\slash", "grüße/\u{301}x", "\u{7f}\u{0}"] {
        let ssh = Ssh { configuration: Some(file.into()), host: "h".into(), user: None };
        assert_eq!(
            synchronize_artifacts(&workbench(), &ssh).arguments[3],
            format!("ssh -F {:?}", std::path::Path::new(file)),
        );
    }
}

#[test]
fn remote_deployment_assembles_synchronizes_and_deploys() {
    let ssh = Ssh { configuration: None, host: "h".into(), user: Some("u".into()) };
    let workbench = workbench();
    let turn = deploy_remotely("c.yaml", &workbench, &ssh, Stage::Begin, Event::Begun);
    assert_eq!(
        turn,
        (
            Stage::Assembling,
            Action::Copy(FileCopy {
                source: "c.yaml".into(),
                destination: ".wheelsticks/compose.yaml".into(),
            }),
        ),
    );
    let turn = deploy_remotely("c.yaml", &workbench, &ssh, turn.0, Event::Succeeded);
    assert_eq!(
        turn,
        (
            Stage::Synchronizing,
            Action::Run(command(
                "rsync",
                &["--archive", "--delete", "--", ".wheelsticks/", "u@h:/home/me/.wheelsticks"],
            )),
        ),
    );
    let turn = deploy_remotely("c.yaml", &workbench, &ssh, turn.0, Event::Succeeded);
    assert_eq!(
        turn,
        (
            Stage::Deploying,
            Action::Run(command(
                "ssh",
                &[
                    "-l",
                    "u",
                    "h",
                    "--",
                    "wheelsticks",
                    "deploy",
                    "--compose-file",
                    "/home/me/.wheelsticks/compose.yaml",
                ],
            )),
        ),
    );
    let turn = deploy_remotely("c.yaml", &workbench, &ssh, turn.0, Event::Succeeded);
    assert_eq!(turn, (Stage::Done, Action::Finish));
}

#[test]
fn remote_deployment_stops_at_the_first_failure() {
    let ssh = Ssh { configuration: None, host: "h".into(), user: None };
    for stage in [Stage::Assembling, Stage::Synchronizing, Stage::Deploying, Stage::Failed] {
        assert_eq!(
            deploy_remotely("c.yaml", &workbench(), &ssh, stage, Event::Failed),
            (Stage::Failed, Action::Abort),
        );
    }
    assert_eq!(
        deploy_remotely("c.yaml", &workbench(), &ssh, Stage::Failed, Event::Succeeded),
        (Stage::Failed, Action::Abort),
    );
    assert_eq!(
        deploy_remotely("c.yaml", &workbench(), &ssh, Stage::Begin, Event::Succeeded),
        (Stage::Failed, Action::Abort),
    );
}
