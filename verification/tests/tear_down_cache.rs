use wheelsticks::command::CommandLine;
use wheelsticks::looper::configuration::{
    convert, Main, UserFacingEnvironment, UserFacingEnvironments, UserFacingLifeCycle,
    UserFacingMain,
};
use wheelsticks::looper::tear_down_cache::{
    delete_cache_folder_if_exists, delete_vm_if_exists, go, Action, Event, Stage,
};

fn configuration() -> Main {
    convert(UserFacingMain {
        cache_folder: Some("cache".into()),
        vagrantfile: None,
        life_cycle: UserFacingLifeCycle {
            provision: vec![],
            build: vec![],
            deploy: vec![],
            env_tests: vec![],
            move_to_next_version: vec![],
        },
        environments: UserFacingEnvironments {
            staging: UserFacingEnvironment {
                id: None,
                variables: vec![("KEREK_IP_ADDRESS".into(), "10.0.0.1".into())],
            },
            production: UserFacingEnvironment { id: None, variables: vec![] },
        },
    })
}

fn destruction() -> CommandLine {
    CommandLine {
        program: "vagrant".into(),
        arguments: vec!["destroy".into(), "--force".into()],
        environment: vec![
            ("KEREK_CACHE_FOLDER".into(), "cache".into()),
            ("KEREK_GIT_BRANCH".into(), "origin/main".into()),
            ("KEREK_IP_ADDRESS".into(), "10.0.0.1".into()),
            ("KEREK_SSH_CONFIG".into(), "cache/ssh_config".into()),
            ("KEREK_ENVIRONMENT_ID".into(), "staging".into()),
        ],
        directory: Some("cache".into()),
    }
}

#[test]
fn vm_is_destroyed_if_it_is_described() {
    assert_eq!(delete_vm_if_exists(&configuration(), true), Some(destruction()));
    assert_eq!(delete_vm_if_exists(&configuration(), false), None);
}

#[test]
fn folder_is_removed_if_it_exists() {
    assert_eq!(delete_cache_folder_if_exists(&configuration(), true), Some("cache".into()));
    assert_eq!(delete_cache_folder_if_exists(&configuration(), false), None);
}

#[test]
fn tear_down_destroys_the_vm_and_then_removes_the_folder() {
    let configuration = configuration();
    let turn = go(&configuration, Stage::Begin, Event::Begun);
    assert_eq!(turn, (Stage::ProbingVm, Action::Probe("cache/Vagrantfile".into())));
    let turn = go(&configuration, turn.0, Event::Exists(true));
    assert_eq!(turn, (Stage::DestroyingVm, Action::Run(destruction())));
    let turn = go(&configuration, turn.0, Event::Succeeded);
    assert_eq!(turn, (Stage::ProbingFolder, Action::Probe("cache".into())));
    let turn = go(&configuration, turn.0, Event::Exists(true));
    assert_eq!(turn, (Stage::RemovingFolder, Action::RemoveFolder("cache".into())));
    let turn = go(&configuration, turn.0, Event::Succeeded);
    assert_eq!(turn, (Stage::Done, Action::Finish));
    assert_eq!(go(&configuration, turn.0, Event::Succeeded), (Stage::Done, Action::Finish));
}

#[test]
fn tear_down_skips_what_does_not_exist() {
    let configuration = configuration();
    let turn = go(&configuration, Stage::ProbingVm, Event::Exists(false));
    assert_eq!(turn, (Stage::ProbingFolder, Action::Probe("cache".into())));
    let turn = go(&configuration, turn.0, Event::Exists(false));
    assert_eq!(turn, (Stage::Done, Action::Finish));
}

#[test]
fn tear_down_gives_up_after_a_failure() {
    let configuration = configuration();
    assert_eq!(
        go(&configuration, Stage::DestroyingVm, Event::Failed),
        (Stage::Failed, Action::Abort),
    );
    assert_eq!(
        go(&configuration, Stage::RemovingFolder, Event::Failed),
        (Stage::Failed, Action::Abort),
    );
    assert_eq!(go(&configuration, Stage::Failed, Event::Succeeded), (Stage::Failed, Action::Abort));
}

#[test]
fn tear_down_gives_up_on_an_event_that_cannot_follow() {
    let configuration = configuration();
    assert_eq!(go(&configuration, Stage::Begin, Event::Succeeded), (Stage::Failed, Action::Abort));
    assert_eq!(go(&configuration, Stage::ProbingVm, Event::Succeeded), (Stage::Failed, Action::Abort));
    assert_eq!(
        go(&configuration, Stage::DestroyingVm, Event::Exists(true)),
        (Stage::Failed, Action::Abort),
    );
}
