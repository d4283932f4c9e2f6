use wheelsticks::looper::configuration::{
    command_or_default, convert, get_cache, get_life_cycle, get_production, get_staging,
    get_variables, set_variable, with_completed_variables, Cache, Environment, LifeCycle, Main,
    UserFacingEnvironment, UserFacingEnvironments, UserFacingLifeCycle, UserFacingMain,
};

fn words(words: &[&str]) -> Vec<String> {
    words.iter().map(|word| (*word).into()).collect()
}

fn pairs(pairs: &[(&str, &str)]) -> Vec<(String, String)> {
    pairs.iter().map(|(name, value)| ((*name).into(), (*value).into())).collect()
}

fn nothing_written() -> UserFacingMain {
    UserFacingMain {
        cache_folder: None,
        vagrantfile: None,
        life_cycle: UserFacingLifeCycle {
            provision: vec![],
            build: vec![],
            deploy: vec![],
            env_tests: vec![],
            move_to_next_version: vec![],
        },
        environments: UserFacingEnvironments {
            staging: UserFacingEnvironment { id: None, variables: vec![] },
            production: UserFacingEnvironment { id: None, variables: vec![] },
        },
    }
}

fn cache() -> Cache {
    Cache {
        folder: ".kerek".into(),
        scripts: ".kerek/scripts.sh".into(),
        ssh_config: ".kerek/ssh_config".into(),
        vagrantfile: ".kerek/Vagrantfile".into(),
    }
}

#[test]
fn cache_lies_in_its_folder() {
    assert_eq!(get_cache(".kerek".into()), cache());
    assert_eq!(
        get_cache("/tmp/cache/".into()),
        Cache {
            folder: "/tmp/cache/".into(),
            scripts: "/tmp/cache/scripts.sh".into(),
            ssh_config: "/tmp/cache/ssh_config".into(),
            vagrantfile: "/tmp/cache/Vagrantfile".into(),
        },
    );
}

#[test]
fn empty_command_stands_for_the_script() {
    assert_eq!(
        command_or_default(vec![], &cache(), "build"),
        words(&["bash", "--", ".kerek/scripts.sh", "build"]),
    );
}

#[test]
fn written_command_is_kept() {
    assert_eq!(
        command_or_default(words(&["make", "all"]), &cache(), "build"),
        words(&["make", "all"]),
    );
}

#[test]
fn life_cycle_names_each_stage() {
    let written = UserFacingLifeCycle {
        provision: vec![],
        build: words(&["make"]),
        deploy: vec![],
        env_tests: words(&["sh", "test.sh"]),
        move_to_next_version: vec![],
    };
    assert_eq!(
        get_life_cycle(&cache(), written),
        LifeCycle {
            provision: words(&["bash", "--", ".kerek/scripts.sh", "provision"]),
            build: words(&["make"]),
            deploy: words(&["bash", "--", ".kerek/scripts.sh", "deploy"]),
            env_tests: words(&["sh", "test.sh"]),
            move_to_next_version: words(&["bash", "--", ".kerek/scripts.sh", "move_to_next_version"]),
        },
    );
}

#[test]
fn variables_tell_folder_and_branch() {
    assert_eq!(
        get_variables(&cache()),
        pairs(&[("KEREK_CACHE_FOLDER", ".kerek"), ("KEREK_GIT_BRANCH", "origin/main")]),
    );
}

#[test]
fn completed_variables_hold_each_variable_once() {
    let environment = Environment { id: "staging".into(), variables: pairs(&[("A", "1"), ("B", "2")]) };
    assert_eq!(
        with_completed_variables(
            environment,
            pairs(&[("B", "3"), ("KEREK_ENVIRONMENT_ID", "x"), ("C", "4"), ("C", "5")]),
        ),
        Environment {
            id: "staging".into(),
            variables: pairs(&[("A", "1"), ("B", "3"), ("KEREK_ENVIRONMENT_ID", "x"), ("C", "5")]),
        },
    );
}

#[test]
fn completed_variables_are_those_of_a_map() {
    let base = pairs(&[("A", "1"), ("KEREK_ENVIRONMENT_ID", "old"), ("B", "2")]);
    let custom = pairs(&[("B", "3"), ("D", "4"), ("A", "5"), ("D", "6")]);
    let mut expected: std::collections::HashMap<String, String> = base.iter().cloned().collect();
    expected.insert("KEREK_ENVIRONMENT_ID".into(), "staging".into());
    expected.extend(custom.iter().cloned());
    let whole =
        with_completed_variables(Environment { id: "staging".into(), variables: base }, custom);
    assert_eq!(whole.variables.len(), expected.len());
    assert_eq!(whole.variables.into_iter().collect::<std::collections::HashMap<_, _>>(), expected);
}

#[test]
fn variable_is_set_where_it_stood_or_at_the_end() {
    let mut variables = pairs(&[("A", "1"), ("B", "2")]);
    set_variable(&mut variables, "A".into(), "3".into());
    assert_eq!(variables, pairs(&[("A", "3"), ("B", "2")]));
    set_variable(&mut variables, "C".into(), "4".into());
    assert_eq!(variables, pairs(&[("A", "3"), ("B", "2"), ("C", "4")]));
    let mut variables = vec![];
    set_variable(&mut variables, "A".into(), "".into());
    assert_eq!(variables, pairs(&[("A", "")]));
}

#[test]
fn staging_has_its_usual_address() {
    assert_eq!(
        get_staging(&cache(), UserFacingEnvironment { id: None, variables: vec![] }),
        Environment {
            id: "staging".into(),
            variables: pairs(&[
                ("KEREK_IP_ADDRESS", "192.168.60.158"),
                ("KEREK_SSH_CONFIG", ".kerek/ssh_config"),
                ("KEREK_ENVIRONMENT_ID", "staging"),
            ]),
        },
    );
    assert_eq!(
        get_staging(
            &cache(),
            UserFacingEnvironment { id: Some("stage".into()), variables: pairs(&[("X", "y")]) },
        ),
        Environment {
            id: "stage".into(),
            variables: pairs(&[
                ("KEREK_IP_ADDRESS", "192.168.60.158"),
                ("KEREK_SSH_CONFIG", ".kerek/ssh_config"),
                ("KEREK_ENVIRONMENT_ID", "stage"),
                ("X", "y"),
            ]),
        },
    );
}

#[test]
fn production_keeps_its_ssh_configuration_safe() {
    assert_eq!(
        get_production(UserFacingEnvironment { id: None, variables: vec![] }),
        Environment {
            id: "production".into(),
            variables: pairs(&[
                ("KEREK_SSH_CONFIG", "safe/ssh_config"),
                ("KEREK_ENVIRONMENT_ID", "production"),
            ]),
        },
    );
}

#[test]
fn nothing_written_gives_the_usual_configuration() {
    assert_eq!(
        convert(nothing_written()),
        Main {
            cache: cache(),
            vagrantfile: None,
            life_cycle: LifeCycle {
                provision: words(&["bash", "--", ".kerek/scripts.sh", "provision"]),
                build: words(&["bash", "--", ".kerek/scripts.sh", "build"]),
                deploy: words(&["bash", "--", ".kerek/scripts.sh", "deploy"]),
                env_tests: words(&["bash", "--", ".kerek/scripts.sh", "env_tests"]),
                move_to_next_version: words(&[
                    "bash",
                    "--",
                    ".kerek/scripts.sh",
                    "move_to_next_version",
                ]),
            },
            variables: pairs(&[("KEREK_CACHE_FOLDER", ".kerek"), ("KEREK_GIT_BRANCH", "origin/main")]),
            staging: Environment {
                id: "staging".into(),
                variables: pairs(&[
                    ("KEREK_IP_ADDRESS", "192.168.60.158"),
                    ("KEREK_SSH_CONFIG", ".kerek/ssh_config"),
                    ("KEREK_ENVIRONMENT_ID", "staging"),
                ]),
            },
            production: Environment {
                id: "production".into(),
                variables: pairs(&[
                    ("KEREK_SSH_CONFIG", "safe/ssh_config"),
                    ("KEREK_ENVIRONMENT_ID", "production"),
                ]),
            },
        },
    );
}

#[test]
fn what_was_written_is_kept() {
    let mut written = nothing_written();
    written.cache_folder = Some("cache".into());
    written.vagrantfile = Some("my/Vagrantfile".into());
    written.life_cycle.deploy = words(&["./deploy"]);
    written.environments.production.id = Some("live".into());
    written.environments.production.variables = pairs(&[("KEREK_SSH_CONFIG", "mine")]);
    let configuration = convert(written);
    assert_eq!(configuration.cache.scripts, "cache/scripts.sh");
    assert_eq!(configuration.vagrantfile, Some("my/Vagrantfile".into()));
    assert_eq!(configuration.life_cycle.deploy, words(&["./deploy"]));
    assert_eq!(
        configuration.life_cycle.build,
        words(&["bash", "--", "cache/scripts.sh", "build"]),
    );
    assert_eq!(
        configuration.variables,
        pairs(&[("KEREK_CACHE_FOLDER", "cache"), ("KEREK_GIT_BRANCH", "origin/main")]),
    );
    assert_eq!(
        configuration.production,
        Environment {
            id: "live".into(),
            variables: pairs(&[("KEREK_SSH_CONFIG", "mine"), ("KEREK_ENVIRONMENT_ID", "live")]),
        },
    );
}
