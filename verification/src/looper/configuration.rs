//! The configuration of the loop: what its user wrote, completed with what
//! is taken for granted.

use crate::library::path::{join, joined};
use vstd::prelude::*;
use vstd::string::StringExecFns;

verus! {

/// Where the loop keeps its files, as contracts speak of it.
pub struct CachePaths {
    pub folder: Seq<char>,
    pub scripts: Seq<char>,
    pub ssh_config: Seq<char>,
    pub vagrantfile: Seq<char>,
}

/// Where the loop keeps its files.
#[derive(Clone, Debug, PartialEq, Eq)]
pub struct Cache {
    pub folder: String,
    pub scripts: String,
    pub ssh_config: String,
    pub vagrantfile: String,
}

impl View for Cache {
    type V = CachePaths;

    open spec fn view(&self) -> CachePaths {
        CachePaths {
            folder: self.folder@,
            scripts: self.scripts@,
            ssh_config: self.ssh_config@,
            vagrantfile: self.vagrantfile@,
        }
    }
}

/// The commands of the stages of the loop, as contracts speak of them.
pub struct Stages {
    pub provision: Seq<Seq<char>>,
    pub build: Seq<Seq<char>>,
    pub deploy: Seq<Seq<char>>,
    pub env_tests: Seq<Seq<char>>,
    pub move_to_next_version: Seq<Seq<char>>,
}

/// The commands of the stages of the loop, each a program with what it is
/// told.
#[derive(Clone, Debug, PartialEq, Eq)]
pub struct LifeCycle {
    pub provision: Vec<String>,
    pub build: Vec<String>,
    pub deploy: Vec<String>,
    pub env_tests: Vec<String>,
    pub move_to_next_version: Vec<String>,
}

impl View for LifeCycle {
    type V = Stages;

    open spec fn view(&self) -> Stages {
        Stages {
            provision: self.provision.deep_view(),
            build: self.build.deep_view(),
            deploy: self.deploy.deep_view(),
            env_tests: self.env_tests.deep_view(),
            move_to_next_version: self.move_to_next_version.deep_view(),
        }
    }
}

/// An environment that is deployed to, as contracts speak of it.
pub struct Target {
    pub id: Seq<char>,
    pub variables: Seq<(Seq<char>, Seq<char>)>,
}

/// An environment that is deployed to.
#[derive(Clone, Debug, PartialEq, Eq)]
pub struct Environment {
    pub id: String,
    /// The variables that commands for the environment are given, each with
    /// its value.
    pub variables: Vec<(String, String)>,
}

impl View for Environment {
    type V = Target;

    open spec fn view(&self) -> Target {
        Target { id: self.id@, variables: self.variables.deep_view() }
    }
}

/// The configuration of the loop, as contracts speak of it.
pub struct Configuration {
    pub cache: CachePaths,
    pub vagrantfile: Option<Seq<char>>,
    pub life_cycle: Stages,
    pub variables: Seq<(Seq<char>, Seq<char>)>,
    pub staging: Target,
    pub production: Target,
}

/// The configuration of the loop.
#[derive(Clone, Debug, PartialEq, Eq)]
pub struct Main {
    pub cache: Cache,
    pub vagrantfile: Option<String>,
    pub life_cycle: LifeCycle,
    /// The variables that every command is given, as in `Environment`.
    pub variables: Vec<(String, String)>,
    pub staging: Environment,
    pub production: Environment,
}

impl View for Main {
    type V = Configuration;

    open spec fn view(&self) -> Configuration {
        Configuration {
            cache: self.cache@,
            vagrantfile: self.vagrantfile.deep_view(),
            life_cycle: self.life_cycle@,
            variables: self.variables.deep_view(),
            staging: self.staging@,
            production: self.production@,
        }
    }
}

/// The commands that the user wrote for the stages; an empty one stands for
/// the usual command of its stage.
#[derive(Clone, Debug, PartialEq, Eq)]
pub struct UserFacingLifeCycle {
    pub provision: Vec<String>,
    pub build: Vec<String>,
    pub deploy: Vec<String>,
    pub env_tests: Vec<String>,
    pub move_to_next_version: Vec<String>,
}

impl View for UserFacingLifeCycle {
    type V = Stages;

    open spec fn view(&self) -> Stages {
        Stages {
            provision: self.provision.deep_view(),
            build: self.build.deep_view(),
            deploy: self.deploy.deep_view(),
            env_tests: self.env_tests.deep_view(),
            move_to_next_version: self.move_to_next_version.deep_view(),
        }
    }
}

/// What the user wrote about an environment, as contracts speak of it.
pub struct Wish {
    pub id: Option<Seq<char>>,
    pub variables: Seq<(Seq<char>, Seq<char>)>,
}

/// What the user wrote about an environment.
#[derive(Clone, Debug, PartialEq, Eq)]
pub struct UserFacingEnvironment {
    pub id: Option<String>,
    pub variables: Vec<(String, String)>,
}

impl View for UserFacingEnvironment {
    type V = Wish;

    open spec fn view(&self) -> Wish {
        Wish { id: self.id.deep_view(), variables: self.variables.deep_view() }
    }
}

/// What the user wrote about the environments.
#[derive(Clone, Debug, PartialEq, Eq)]
pub struct UserFacingEnvironments {
    pub staging: UserFacingEnvironment,
    pub production: UserFacingEnvironment,
}

/// What the user wrote.
#[derive(Clone, Debug, PartialEq, Eq)]
pub struct UserFacingMain {
    pub cache_folder: Option<String>,
    pub vagrantfile: Option<String>,
    pub life_cycle: UserFacingLifeCycle,
    pub environments: UserFacingEnvironments,
}

/// Where the loop keeps its files when they are in `folder`.
pub open spec fn cache_in(folder: Seq<char>) -> CachePaths {
    CachePaths {
        folder,
        scripts: joined(folder, "scripts.sh"@),
        ssh_config: joined(folder, "ssh_config"@),
        vagrantfile: joined(folder, "Vagrantfile"@),
    }
}

/// Where the loop keeps its files when they are in `folder`.
pub fn get_cache(folder: String) -> (cache: Cache)
    ensures
        cache@ == cache_in(folder@),
{
    Cache {
        scripts: join(folder.as_str(), "scripts.sh"),
        ssh_config: join(folder.as_str(), "ssh_config"),
        vagrantfile: join(folder.as_str(), "Vagrantfile"),
        folder,
    }
}

/// The command of a stage: the one that the user wrote, or, where that is
/// empty, the script of the loop, run by `bash` and told the stage.
pub open spec fn command_for(command: Seq<Seq<char>>, scripts: Seq<char>, stage: Seq<char>) -> Seq<
    Seq<char>,
> {
    if command.len() == 0 {
        seq!["bash"@, "--"@, scripts, stage]
    } else {
        command
    }
}

/// The command of the stage `default`: `command`, or the usual one where
/// `command` is empty.
pub fn command_or_default(command: Vec<String>, cache: &Cache, default: &str) -> (chosen: Vec<
    String,
>)
    ensures
        chosen.deep_view() == command_for(command.deep_view(), cache.scripts@, default@),
{
    if command.len() == 0 {
        let mut chosen: Vec<String> = Vec::new();
        chosen.push(String::from_str("bash"));
        chosen.push(String::from_str("--"));
        chosen.push(cache.scripts.clone());
        chosen.push(String::from_str(default));
        assert(command.deep_view().len() == 0);
        assert(chosen.deep_view() =~= command_for(command.deep_view(), cache.scripts@, default@));
        chosen
    } else {
        assert(command.deep_view().len() != 0);
        command
    }
}

/// The commands of the stages, each as the user wrote it or as usual.
pub open spec fn stages_for(scripts: Seq<char>, written: Stages) -> Stages {
    Stages {
        provision: command_for(written.provision, scripts, "provision"@),
        build: command_for(written.build, scripts, "build"@),
        deploy: command_for(written.deploy, scripts, "deploy"@),
        env_tests: command_for(written.env_tests, scripts, "env_tests"@),
        move_to_next_version: command_for(
            written.move_to_next_version,
            scripts,
            "move_to_next_version"@,
        ),
    }
}

/// The commands of the stages, each as the user wrote it or as usual.
pub fn get_life_cycle(cache: &Cache, life_cycle: UserFacingLifeCycle) -> (stages: LifeCycle)
    ensures
        stages@ == stages_for(cache.scripts@, life_cycle@),
{
    LifeCycle {
        provision: command_or_default(life_cycle.provision, cache, "provision"),
        build: command_or_default(life_cycle.build, cache, "build"),
        deploy: command_or_default(life_cycle.deploy, cache, "deploy"),
        env_tests: command_or_default(life_cycle.env_tests, cache, "env_tests"),
        move_to_next_version: command_or_default(
            life_cycle.move_to_next_version,
            cache,
            "move_to_next_version",
        ),
    }
}

/// The variables that every command is given: where the loop keeps its
/// files, and the branch that it follows.
pub open spec fn variables_for(folder: Seq<char>) -> Seq<(Seq<char>, Seq<char>)> {
    seq![("KEREK_CACHE_FOLDER"@, folder), ("KEREK_GIT_BRANCH"@, "origin/main"@)]
}

/// The variables that every command is given.
pub fn get_variables(cache: &Cache) -> (variables: Vec<(String, String)>)
    ensures
        variables.deep_view() == variables_for(cache.folder@),
        names_differ(variables.deep_view()),
{
    proof {
        reveal_strlit("KEREK_CACHE_FOLDER");
        reveal_strlit("KEREK_GIT_BRANCH");
        assert("KEREK_CACHE_FOLDER"@.len() != "KEREK_GIT_BRANCH"@.len());
    }
    let mut variables: Vec<(String, String)> = Vec::new();
    variables.push((String::from_str("KEREK_CACHE_FOLDER"), cache.folder.clone()));
    variables.push((String::from_str("KEREK_GIT_BRANCH"), String::from_str("origin/main")));
    assert(variables.deep_view() =~= variables_for(cache.folder@));
    variables
}

/// The variables `variables` with `name` set to `value`: in the place where
/// `name` stood, or at the end where it did not stand.
pub open spec fn put(
    variables: Seq<(Seq<char>, Seq<char>)>,
    name: Seq<char>,
    value: Seq<char>,
) -> Seq<(Seq<char>, Seq<char>)>
    decreases variables.len(),
{
    if variables.len() == 0 {
        seq![(name, value)]
    } else if variables[0].0 == name {
        seq![(name, value)] + variables.drop_first()
    } else {
        seq![variables[0]] + put(variables.drop_first(), name, value)
    }
}

/// The variables `variables` with each of `more` set, one after the other.
pub open spec fn put_all(
    variables: Seq<(Seq<char>, Seq<char>)>,
    more: Seq<(Seq<char>, Seq<char>)>,
) -> Seq<(Seq<char>, Seq<char>)>
    decreases more.len(),
{
    if more.len() == 0 {
        variables
    } else {
        put(put_all(variables, more.drop_last()), more.last().0, more.last().1)
    }
}

/// No variable stands twice among `variables`.
pub open spec fn names_differ(variables: Seq<(Seq<char>, Seq<char>)>) -> bool {
    forall|i: int, j: int|
        0 <= i < j < variables.len() ==> (#[trigger] variables[i]).0 != (#[trigger] variables[j]).0
}

/// Setting a variable changes the place where it first stands, or adds a
/// place at the end where it does not stand.
proof fn put_changes_one_place(
    variables: Seq<(Seq<char>, Seq<char>)>,
    name: Seq<char>,
    value: Seq<char>,
    at: int,
)
    requires
        0 <= at <= variables.len(),
        forall|k: int| 0 <= k < at ==> (#[trigger] variables[k]).0 != name,
        at < variables.len() ==> variables[at].0 == name,
    ensures
        put(variables, name, value) == if at < variables.len() {
            variables.update(at, (name, value))
        } else {
            variables.push((name, value))
        },
    decreases variables.len(),
{
    if variables.len() == 0 {
        assert(seq![(name, value)] =~= variables.push((name, value)));
    } else if at == 0 {
        assert(seq![(name, value)] + variables.drop_first() =~= variables.update(0, (name, value)));
    } else {
        let rest = variables.drop_first();
        assert(variables[0].0 != name);
        assert forall|k: int| 0 <= k < at - 1 implies (#[trigger] rest[k]).0 != name by {
            assert(rest[k] == variables[k + 1]);
        }
        put_changes_one_place(rest, name, value, at - 1);
        if at < variables.len() {
            assert(seq![variables[0]] + rest.update(at - 1, (name, value)) =~= variables.update(
                at,
                (name, value),
            ));
        } else {
            assert(seq![variables[0]] + rest.push((name, value)) =~= variables.push((name, value)));
        }
    }
}

/// Where no variable stands twice, none does once one more is set.
pub proof fn put_keeps_names_apart(
    variables: Seq<(Seq<char>, Seq<char>)>,
    name: Seq<char>,
    value: Seq<char>,
)
    requires
        names_differ(variables),
    ensures
        names_differ(put(variables, name, value)),
{
    let at = first_place(variables, name);
    first_place_is_first(variables, name);
    put_changes_one_place(variables, name, value, at);
    let changed = put(variables, name, value);
    assert forall|i: int, j: int| 0 <= i < j < changed.len() implies (#[trigger] changed[i]).0 != (
    #[trigger] changed[j]).0 by {
        if j < variables.len() {
            assert(variables[i].0 != variables[j].0);
            assert(changed[i].0 == variables[i].0);
            assert(changed[j].0 == variables[j].0);
        } else {
            assert(variables[i].0 != name);
        }
    }
}

/// The first place at which `name` stands among `variables`, or their number
/// where it does not stand.
pub open spec fn first_place(variables: Seq<(Seq<char>, Seq<char>)>, name: Seq<char>) -> int
    decreases variables.len(),
{
    if variables.len() == 0 || variables[0].0 == name {
        0
    } else {
        1 + first_place(variables.drop_first(), name)
    }
}

/// The first place of a variable is a place, and the variable stands at no
/// place before it.
proof fn first_place_is_first(variables: Seq<(Seq<char>, Seq<char>)>, name: Seq<char>)
    ensures
        0 <= first_place(variables, name) <= variables.len(),
        forall|k: int| 0 <= k < first_place(variables, name) ==> (#[trigger] variables[k]).0 != name,
        first_place(variables, name) < variables.len() ==> variables[first_place(
            variables,
            name,
        )].0 == name,
    decreases variables.len(),
{
    if variables.len() > 0 && variables[0].0 != name {
        let rest = variables.drop_first();
        first_place_is_first(rest, name);
        assert forall|k: int| 0 <= k < first_place(variables, name) implies (
        #[trigger] variables[k]).0 != name by {
            if k > 0 {
                assert(rest[k - 1] == variables[k]);
            }
        }
    }
}

/// Where no variable stands twice, none does once several more are set.
pub proof fn put_all_keeps_names_apart(
    variables: Seq<(Seq<char>, Seq<char>)>,
    more: Seq<(Seq<char>, Seq<char>)>,
)
    requires
        names_differ(variables),
    ensures
        names_differ(put_all(variables, more)),
    decreases more.len(),
{
    if more.len() > 0 {
        put_all_keeps_names_apart(variables, more.drop_last());
        put_keeps_names_apart(put_all(variables, more.drop_last()), more.last().0, more.last().1);
    }
}

/// Sets the variable `name` to `value` among `variables`.
pub fn set_variable(variables: &mut Vec<(String, String)>, name: String, value: String)
    ensures
        final(variables).deep_view() == put(old(variables).deep_view(), name@, value@),
{
    let ghost before = variables.deep_view();
    let mut at: usize = 0;
    while at < variables.len() && variables[at].0 != name
        invariant
            at <= variables.len(),
            variables.deep_view() == before,
            forall|k: int| 0 <= k < at ==> (#[trigger] before[k]).0 != name@,
        decreases variables.len() - at,
    {
        assert(before[at as int].0 == variables[at as int].0@);
        at += 1;
    }
    proof {
        if at < variables.len() {
            assert(before[at as int].0 == variables[at as int].0@);
        }
        put_changes_one_place(before, name@, value@, at as int);
    }
    if at < variables.len() {
        variables.set(at, (name, value));
        assert(variables.deep_view() =~= before.update(at as int, (name@, value@)));
    } else {
        variables.push((name, value));
        assert(variables.deep_view() =~= before.push((name@, value@)));
    }
}

/// An environment with its variables completed: to those that it has, the
/// one that tells its identity is set, and then those that the user wrote,
/// one after the other.
pub open spec fn completed(environment: Target, custom: Seq<(Seq<char>, Seq<char>)>) -> Target {
    Target {
        id: environment.id,
        variables: put_all(
            put(environment.variables, "KEREK_ENVIRONMENT_ID"@, environment.id),
            custom,
        ),
    }
}

/// `environment` with its variables completed by its identity and by
/// `custom_variables`, which stand where they set what was set before. No
/// variable stands twice then, where none did in `environment`.
pub fn with_completed_variables(
    environment: Environment,
    custom_variables: Vec<(String, String)>,
) -> (whole: Environment)
    ensures
        whole@ == completed(environment@, custom_variables.deep_view()),
        names_differ(environment@.variables) ==> names_differ(whole@.variables),
{
    let mut variables = environment.variables;
    set_variable(&mut variables, String::from_str("KEREK_ENVIRONMENT_ID"), environment.id.clone());
    let ghost first = variables.deep_view();
    let ghost custom = custom_variables.deep_view();
    let mut at: usize = 0;
    assert(custom.take(0) =~= Seq::<(Seq<char>, Seq<char>)>::empty());
    while at < custom_variables.len()
        invariant
            at <= custom_variables.len(),
            custom == custom_variables.deep_view(),
            variables.deep_view() == put_all(first, custom.take(at as int)),
        decreases custom_variables.len() - at,
    {
        let name = custom_variables[at].0.clone();
        let value = custom_variables[at].1.clone();
        proof {
            let next = custom.take(at + 1);
            assert(next.drop_last() =~= custom.take(at as int));
            assert(next.last() == (name@, value@));
        }
        set_variable(&mut variables, name, value);
        at += 1;
    }
    proof {
        assert(custom.take(at as int) =~= custom);
        if names_differ(environment@.variables) {
            put_keeps_names_apart(
                environment@.variables,
                "KEREK_ENVIRONMENT_ID"@,
                environment.id@,
            );
            put_all_keeps_names_apart(first, custom);
        }
    }
    Environment { id: environment.id, variables }
}

/// The identity that was written, or `usual` where none was.
pub open spec fn id_or(written: Option<Seq<char>>, usual: Seq<char>) -> Seq<char> {
    match written {
        Some(id) => id,
        None => usual,
    }
}

/// The staging environment: known as `staging` unless the user wrote
/// otherwise, at its usual address, and reached with the SSH configuration
/// that the loop keeps.
pub open spec fn staging_for(ssh_config: Seq<char>, written: Wish) -> Target {
    completed(
        Target {
            id: id_or(written.id, "staging"@),
            variables: seq![
                ("KEREK_IP_ADDRESS"@, "192.168.60.158"@),
                ("KEREK_SSH_CONFIG"@, ssh_config),
            ],
        },
        written.variables,
    )
}

/// The staging environment.
pub fn get_staging(cache: &Cache, environment: UserFacingEnvironment) -> (staging: Environment)
    ensures
        staging@ == staging_for(cache.ssh_config@, environment@),
        names_differ(staging@.variables),
{
    proof {
        reveal_strlit("KEREK_IP_ADDRESS");
        reveal_strlit("KEREK_SSH_CONFIG");
        assert("KEREK_IP_ADDRESS"@[6] != "KEREK_SSH_CONFIG"@[6]);
    }
    let id = match environment.id {
        Some(id) => id,
        None => String::from_str("staging"),
    };
    let mut variables: Vec<(String, String)> = Vec::new();
    variables.push((String::from_str("KEREK_IP_ADDRESS"), String::from_str("192.168.60.158")));
    variables.push((String::from_str("KEREK_SSH_CONFIG"), cache.ssh_config.clone()));
    assert(variables.deep_view() =~= seq![
        ("KEREK_IP_ADDRESS"@, "192.168.60.158"@),
        ("KEREK_SSH_CONFIG"@, cache.ssh_config@),
    ]);
    with_completed_variables(Environment { id, variables }, environment.variables)
}

/// The production environment: known as `production` unless the user wrote
/// otherwise, and reached with the SSH configuration that the user keeps
/// safe.
pub open spec fn production_for(written: Wish) -> Target {
    completed(
        Target {
            id: id_or(written.id, "production"@),
            variables: seq![("KEREK_SSH_CONFIG"@, joined("safe"@, "ssh_config"@))],
        },
        written.variables,
    )
}

/// The production environment.
pub fn get_production(environment: UserFacingEnvironment) -> (production: Environment)
    ensures
        production@ == production_for(environment@),
        names_differ(production@.variables),
{
    let id = match environment.id {
        Some(id) => id,
        None => String::from_str("production"),
    };
    let mut variables: Vec<(String, String)> = Vec::new();
    variables.push((String::from_str("KEREK_SSH_CONFIG"), join("safe", "ssh_config")));
    assert(variables.deep_view() =~= seq![("KEREK_SSH_CONFIG"@, joined("safe"@, "ssh_config"@))]);
    with_completed_variables(Environment { id, variables }, environment.variables)
}

/// The folder in which the loop keeps its files: the one that was written,
/// or `.kerek` where none was.
pub open spec fn cache_folder(written: Option<Seq<char>>) -> Seq<char> {
    match written {
        Some(folder) => folder,
        None => ".kerek"@,
    }
}

/// The configuration that stands for what the user wrote.
pub open spec fn configuration_for(written: UserFacingMain) -> Configuration {
    let cache = cache_in(cache_folder(written.cache_folder.deep_view()));
    Configuration {
        cache,
        vagrantfile: written.vagrantfile.deep_view(),
        life_cycle: stages_for(cache.scripts, written.life_cycle@),
        variables: variables_for(cache.folder),
        staging: staging_for(cache.ssh_config, written.environments.staging@),
        production: production_for(written.environments.production@),
    }
}

/// The configuration that stands for what the user wrote.
pub fn convert(main: UserFacingMain) -> (configuration: Main)
    ensures
        configuration@ == configuration_for(main),
        names_differ(configuration@.variables),
        names_differ(configuration@.staging.variables),
        names_differ(configuration@.production.variables),
{
    let folder = match main.cache_folder {
        Some(folder) => folder,
        None => String::from_str(".kerek"),
    };
    let cache = get_cache(folder);
    let vagrantfile = main.vagrantfile;
    let life_cycle = get_life_cycle(&cache, main.life_cycle);
    let variables = get_variables(&cache);
    let staging = get_staging(&cache, main.environments.staging);
    let production = get_production(main.environments.production);
    Main { cache, vagrantfile, life_cycle, variables, staging, production }
}

} // verus!
