//! One turn of the loop: test, build, deploy to staging and test there,
//! deploy to production and test there, then go back to the snapshot and
//! move to the next version.

use crate::command::{plain, CommandLine, Invocation};
use vstd::prelude::*;
use vstd::string::StringExecFns;

verus! {

/// The tests to run, each a program with what it is told.
#[derive(Clone, Debug, PartialEq, Eq)]
pub struct Tests {
    /// The test of the code alone.
    pub base: Vec<String>,
    /// The test that a deployment answers at all.
    pub smoke: Vec<String>,
    /// The test that a deployment does what it should.
    pub acceptance: Vec<String>,
}

/// Where the loop works.
#[derive(Clone, Debug, PartialEq, Eq)]
pub struct Workspace {
    /// The file that tells what was built.
    pub build: String,
    /// The folder that holds the virtual machine.
    pub folder: String,
    /// The snapshot of the virtual machine to go back to.
    pub vm_snapshot: String,
}

/// An environment that is deployed to.
#[derive(Clone, Debug, PartialEq, Eq)]
pub struct Environment {
    /// The file that tells how to reach its cluster.
    pub kubeconfig_file: String,
    /// The address at which it answers.
    pub public_ip: String,
}

/// What ends a turn of the loop.
#[derive(Clone, Debug, PartialEq, Eq)]
pub struct Iteration {
    /// The command that moves to the next version.
    pub move_to_next_version: Vec<String>,
}

/// What a turn of the loop works with.
#[derive(Clone, Debug, PartialEq, Eq)]
pub struct Main {
    pub tests: Tests,
    pub workspace: Workspace,
    pub staging: Environment,
    pub production: Environment,
    pub iteration: Iteration,
}

/// The command that the words `words` stand for: the first is the program,
/// the others are what it is told.
pub open spec fn written(words: Seq<Seq<char>>) -> Invocation
    recommends
        words.len() > 0,
{
    plain(words[0], words.skip(1))
}

/// `command` given the address `address` to test.
pub open spec fn aimed_at(command: Invocation, address: Seq<char>) -> Invocation {
    Invocation { environment: seq![("KEREK_IP"@, address)], ..command }
}

/// The command that `words` stand for.
fn command_of(words: &Vec<String>) -> (command: CommandLine)
    requires
        words@.len() > 0,
    ensures
        command@ == written(words.deep_view()),
{
    let mut arguments: Vec<String> = Vec::new();
    let mut at: usize = 1;
    while at < words.len()
        invariant
            1 <= at <= words.len(),
            arguments.deep_view() == words.deep_view().subrange(1, at as int),
        decreases words.len() - at,
    {
        let ghost so_far = arguments.deep_view();
        let word = words[at].clone();
        assert(word@ == words.deep_view()[at as int]);
        arguments.push(word);
        at += 1;
        assert(arguments.deep_view() =~= so_far.push(word@));
        assert(arguments.deep_view() =~= words.deep_view().subrange(1, at as int));
    }
    assert(arguments.deep_view() =~= words.deep_view().skip(1));
    let environment: Vec<(String, String)> = Vec::new();
    assert(environment.deep_view() =~= Seq::<(Seq<char>, Seq<char>)>::empty());
    CommandLine { program: words[0].clone(), arguments, environment, directory: None }
}

/// The command that `words` stand for, given the address `address` to test.
fn test_of(words: &Vec<String>, address: &String) -> (command: CommandLine)
    requires
        words@.len() > 0,
    ensures
        command@ == aimed_at(written(words.deep_view()), address@),
{
    let plain = command_of(words);
    let mut environment: Vec<(String, String)> = Vec::new();
    environment.push((String::from_str("KEREK_IP"), address.clone()));
    assert(environment.deep_view() =~= seq![("KEREK_IP"@, address@)]);
    CommandLine {
        program: plain.program,
        arguments: plain.arguments,
        environment,
        directory: plain.directory,
    }
}

/// The command that tests the code alone.
pub fn run_base_test(configuration: &Main) -> (command: CommandLine)
    requires
        configuration.tests.base@.len() > 0,
    ensures
        command@ == written(configuration.tests.base.deep_view()),
{
    command_of(&configuration.tests.base)
}

/// The command that builds, and writes down what it built.
pub open spec fn building(build: Seq<char>) -> Invocation {
    plain("skaffold"@, seq!["build"@, "--file-output"@, build])
}

/// The command that builds.
pub fn build(configuration: &Main) -> (command: CommandLine)
    ensures
        command@ == building(configuration.workspace.build@),
{
    let mut arguments: Vec<String> = Vec::new();
    arguments.push(String::from_str("build"));
    arguments.push(String::from_str("--file-output"));
    arguments.push(configuration.workspace.build.clone());
    assert(arguments.deep_view() =~= building(configuration.workspace.build@).arguments);
    let environment: Vec<(String, String)> = Vec::new();
    assert(environment.deep_view() =~= Seq::<(Seq<char>, Seq<char>)>::empty());
    CommandLine { program: String::from_str("skaffold"), arguments, environment, directory: None }
}

/// The command that deploys what was built to the cluster that
/// `kubeconfig_file` tells how to reach.
pub open spec fn deploying(build: Seq<char>, kubeconfig_file: Seq<char>) -> Invocation {
    plain(
        "skaffold"@,
        seq!["deploy"@, "--build-artifacts"@, build, "--kubeconfig"@, kubeconfig_file],
    )
}

/// The command that deploys what was built to the cluster that
/// `kubeconfig_file` tells how to reach.
pub fn deploy(configuration: &Main, kubeconfig_file: &str) -> (command: CommandLine)
    ensures
        command@ == deploying(configuration.workspace.build@, kubeconfig_file@),
{
    let mut arguments: Vec<String> = Vec::new();
    arguments.push(String::from_str("deploy"));
    arguments.push(String::from_str("--build-artifacts"));
    arguments.push(configuration.workspace.build.clone());
    arguments.push(String::from_str("--kubeconfig"));
    arguments.push(String::from_str(kubeconfig_file));
    assert(arguments.deep_view() =~= deploying(
        configuration.workspace.build@,
        kubeconfig_file@,
    ).arguments);
    let environment: Vec<(String, String)> = Vec::new();
    assert(environment.deep_view() =~= Seq::<(Seq<char>, Seq<char>)>::empty());
    CommandLine { program: String::from_str("skaffold"), arguments, environment, directory: None }
}

/// The command that deploys to staging.
pub fn deploy_staging(configuration: &Main) -> (command: CommandLine)
    ensures
        command@ == deploying(
            configuration.workspace.build@,
            configuration.staging.kubeconfig_file@,
        ),
{
    deploy(configuration, configuration.staging.kubeconfig_file.as_str())
}

/// How what was run last went.
#[derive(Clone, Copy, Debug, PartialEq, Eq)]
pub enum Event {
    /// Nothing was run yet.
    Begun,
    /// The command succeeded.
    Succeeded,
    /// The command failed.
    Failed,
}

/// What the caller is to do next, as contracts speak of it.
pub enum Order {
    Run(Invocation),
    Finish,
    Abort,
}

/// What the caller is to do next.
#[derive(Clone, Debug, PartialEq, Eq)]
pub enum Action {
    /// Run this command, and tell how it went.
    Run(CommandLine),
    /// Nothing: all is done.
    Finish,
    /// Nothing: a command failed, and none is run after it.
    Abort,
}

impl View for Action {
    type V = Order;

    open spec fn view(&self) -> Order {
        match self {
            Action::Run(command) => Order::Run(command@),
            Action::Finish => Order::Finish,
            Action::Abort => Order::Abort,
        }
    }
}

/// How far the testing of staging has come.
#[derive(Clone, Copy, Debug, PartialEq, Eq)]
pub enum Testing {
    /// No test was run yet.
    Begin,
    /// The caller tests that staging answers.
    Smoke,
    /// The caller tests that staging does what it should.
    Acceptance,
    /// Both tests passed.
    Done,
    /// A test failed.
    Failed,
}

/// The test that staging answers.
pub open spec fn smoke_of_staging(configuration: Main) -> Invocation {
    aimed_at(written(configuration.tests.smoke.deep_view()), configuration.staging.public_ip@)
}

/// The test that staging does what it should.
pub open spec fn acceptance_of_staging(configuration: Main) -> Invocation {
    aimed_at(written(configuration.tests.acceptance.deep_view()), configuration.staging.public_ip@)
}

/// What comes after `testing` once `event` has come about: first the test
/// that staging answers, then, only if that passed, the test that it does
/// what it should. A failure ends the testing, and so does an event that
/// cannot follow.
pub open spec fn test_after(configuration: Main, testing: Testing, event: Event) -> (Testing, Order) {
    match (testing, event) {
        (Testing::Begin, Event::Begun) => (
            Testing::Smoke,
            Order::Run(smoke_of_staging(configuration)),
        ),
        (Testing::Smoke, Event::Succeeded) => (
            Testing::Acceptance,
            Order::Run(acceptance_of_staging(configuration)),
        ),
        (Testing::Acceptance, Event::Succeeded) => (Testing::Done, Order::Finish),
        (Testing::Done, _) => (Testing::Done, Order::Finish),
        _ => (Testing::Failed, Order::Abort),
    }
}

/// The test that comes after `testing`, if one does, names a program.
pub open spec fn can_test(configuration: Main, testing: Testing, event: Event) -> bool {
    match (testing, event) {
        (Testing::Begin, Event::Begun) => configuration.tests.smoke@.len() > 0,
        (Testing::Smoke, Event::Succeeded) => configuration.tests.acceptance@.len() > 0,
        _ => true,
    }
}

/// Tells whether the test that comes after `testing`, if one does, names a
/// program.
pub fn is_ready_to_test(configuration: &Main, testing: Testing, event: Event) -> (ready: bool)
    ensures
        ready == can_test(*configuration, testing, event),
{
    match (testing, event) {
        (Testing::Begin, Event::Begun) => configuration.tests.smoke.len() > 0,
        (Testing::Smoke, Event::Succeeded) => configuration.tests.acceptance.len() > 0,
        _ => true,
    }
}

/// What the caller is to do to test staging after `testing`, once `event`
/// has come about, and how far the testing has then come.
pub fn test_staging(configuration: &Main, testing: Testing, event: Event) -> (turn: (
    Testing,
    Action,
))
    requires
        can_test(*configuration, testing, event),
    ensures
        (turn.0, turn.1@) == test_after(*configuration, testing, event),
{
    match (testing, event) {
        (Testing::Begin, Event::Begun) => (
            Testing::Smoke,
            Action::Run(test_of(&configuration.tests.smoke, &configuration.staging.public_ip)),
        ),
        (Testing::Smoke, Event::Succeeded) => (
            Testing::Acceptance,
            Action::Run(test_of(&configuration.tests.acceptance, &configuration.staging.public_ip)),
        ),
        (Testing::Acceptance, Event::Succeeded) => (Testing::Done, Action::Finish),
        (Testing::Done, _) => (Testing::Done, Action::Finish),
        _ => (Testing::Failed, Action::Abort),
    }
}

/// The command that deploys to production.
pub fn deploy_production(configuration: &Main) -> (command: CommandLine)
    ensures
        command@ == deploying(
            configuration.workspace.build@,
            configuration.production.kubeconfig_file@,
        ),
{
    deploy(configuration, configuration.production.kubeconfig_file.as_str())
}

/// The command that tests that production answers.
pub fn test_production(configuration: &Main) -> (command: CommandLine)
    requires
        configuration.tests.smoke@.len() > 0,
    ensures
        command@ == aimed_at(
            written(configuration.tests.smoke.deep_view()),
            configuration.production.public_ip@,
        ),
{
    test_of(&configuration.tests.smoke, &configuration.production.public_ip)
}

/// The command that takes the virtual machine in `folder` back to
/// `snapshot`.
pub open spec fn restoring(snapshot: Seq<char>, folder: Seq<char>) -> Invocation {
    Invocation {
        program: "vagrant"@,
        arguments: seq!["snapshot"@, "restore"@, snapshot],
        environment: Seq::empty(),
        directory: Some(folder),
    }
}

/// The command that takes the virtual machine back to its snapshot.
pub fn load_snapshot(configuration: &Main) -> (command: CommandLine)
    ensures
        command@ == restoring(configuration.workspace.vm_snapshot@, configuration.workspace.folder@),
{
    let mut arguments: Vec<String> = Vec::new();
    arguments.push(String::from_str("snapshot"));
    arguments.push(String::from_str("restore"));
    arguments.push(configuration.workspace.vm_snapshot.clone());
    assert(arguments.deep_view() =~= restoring(
        configuration.workspace.vm_snapshot@,
        configuration.workspace.folder@,
    ).arguments);
    let environment: Vec<(String, String)> = Vec::new();
    assert(environment.deep_view() =~= Seq::<(Seq<char>, Seq<char>)>::empty());
    CommandLine {
        program: String::from_str("vagrant"),
        arguments,
        environment,
        directory: Some(configuration.workspace.folder.clone()),
    }
}

/// The command that moves to the next version.
pub fn move_to_next_version(configuration: &Main) -> (command: CommandLine)
    requires
        configuration.iteration.move_to_next_version@.len() > 0,
    ensures
        command@ == written(configuration.iteration.move_to_next_version.deep_view()),
{
    command_of(&configuration.iteration.move_to_next_version)
}

/// How far a turn of the loop has come.
#[derive(Clone, Copy, Debug, PartialEq, Eq)]
pub enum Stage {
    /// Nothing was run yet.
    Begin,
    /// The caller tests the code alone.
    BaseTest,
    /// The caller builds.
    Build,
    /// The caller deploys to staging.
    DeployStaging,
    /// The caller tests staging, and has come this far with it.
    TestStaging(Testing),
    /// The caller deploys to production.
    DeployProduction,
    /// The caller tests that production answers.
    TestProduction,
    /// The caller takes the virtual machine back to its snapshot.
    LoadSnapshot,
    /// The caller moves to the next version.
    MoveToNextVersion,
    /// The turn is over.
    Done,
    /// A command failed.
    Failed,
}

/// The test that production answers.
pub open spec fn smoke_of_production(configuration: Main) -> Invocation {
    aimed_at(written(configuration.tests.smoke.deep_view()), configuration.production.public_ip@)
}

/// Where a step of the testing of staging leaves the turn: in the testing
/// while a test is to be run, at the deployment to production once both
/// tests passed, and at its end once one failed.
pub open spec fn after_testing(configuration: Main, tested: (Testing, Order)) -> (Stage, Order) {
    match tested.1 {
        Order::Run(command) => (Stage::TestStaging(tested.0), Order::Run(command)),
        Order::Finish => (
            Stage::DeployProduction,
            Order::Run(
                deploying(configuration.workspace.build@, configuration.production.kubeconfig_file@),
            ),
        ),
        Order::Abort => (Stage::Failed, Order::Abort),
    }
}

/// What comes after `stage` once `event` has come about. The commands of a
/// turn follow each other: the test of the code, the build, the deployment
/// to staging, its tests, the deployment to production, its test, the return
/// to the snapshot, the move to the next version. Each is run only if the
/// one before it succeeded; a failure ends the turn, and so does an event that
/// cannot follow.
pub open spec fn next(configuration: Main, stage: Stage, event: Event) -> (Stage, Order) {
    match (stage, event) {
        (Stage::Begin, Event::Begun) => (
            Stage::BaseTest,
            Order::Run(written(configuration.tests.base.deep_view())),
        ),
        (Stage::BaseTest, Event::Succeeded) => (
            Stage::Build,
            Order::Run(building(configuration.workspace.build@)),
        ),
        (Stage::Build, Event::Succeeded) => (
            Stage::DeployStaging,
            Order::Run(
                deploying(configuration.workspace.build@, configuration.staging.kubeconfig_file@),
            ),
        ),
        (Stage::DeployStaging, Event::Succeeded) => after_testing(
            configuration,
            test_after(configuration, Testing::Begin, Event::Begun),
        ),
        (Stage::TestStaging(testing), _) => after_testing(
            configuration,
            test_after(configuration, testing, event),
        ),
        (Stage::DeployProduction, Event::Succeeded) => (
            Stage::TestProduction,
            Order::Run(smoke_of_production(configuration)),
        ),
        (Stage::TestProduction, Event::Succeeded) => (
            Stage::LoadSnapshot,
            Order::Run(
                restoring(configuration.workspace.vm_snapshot@, configuration.workspace.folder@),
            ),
        ),
        (Stage::LoadSnapshot, Event::Succeeded) => (
            Stage::MoveToNextVersion,
            Order::Run(written(configuration.iteration.move_to_next_version.deep_view())),
        ),
        (Stage::MoveToNextVersion, Event::Succeeded) => (Stage::Done, Order::Finish),
        (Stage::Done, _) => (Stage::Done, Order::Finish),
        _ => (Stage::Failed, Order::Abort),
    }
}

/// The command that comes after `stage`, if one does and the user wrote it,
/// names a program.
pub open spec fn can_go(configuration: Main, stage: Stage, event: Event) -> bool {
    match (stage, event) {
        (Stage::Begin, Event::Begun) => configuration.tests.base@.len() > 0,
        (Stage::DeployStaging, Event::Succeeded) => can_test(
            configuration,
            Testing::Begin,
            Event::Begun,
        ),
        (Stage::TestStaging(testing), _) => can_test(configuration, testing, event),
        (Stage::DeployProduction, Event::Succeeded) => configuration.tests.smoke@.len() > 0,
        (Stage::LoadSnapshot, Event::Succeeded) => configuration.iteration.move_to_next_version@.len()
            > 0,
        _ => true,
    }
}

/// Tells whether the command that comes after `stage`, if one does and the
/// user wrote it, names a program.
pub fn is_ready(configuration: &Main, stage: Stage, event: Event) -> (ready: bool)
    ensures
        ready == can_go(*configuration, stage, event),
{
    match (stage, event) {
        (Stage::Begin, Event::Begun) => configuration.tests.base.len() > 0,
        (Stage::DeployStaging, Event::Succeeded) => is_ready_to_test(
            configuration,
            Testing::Begin,
            Event::Begun,
        ),
        (Stage::TestStaging(testing), _) => is_ready_to_test(configuration, testing, event),
        (Stage::DeployProduction, Event::Succeeded) => configuration.tests.smoke.len() > 0,
        (Stage::LoadSnapshot, Event::Succeeded) => configuration.iteration.move_to_next_version.len()
            > 0,
        _ => true,
    }
}

/// Where a step of the testing of staging leaves the turn.
fn leave_testing(configuration: &Main, tested: (Testing, Action)) -> (turn: (Stage, Action))
    ensures
        (turn.0, turn.1@) == after_testing(*configuration, (tested.0, tested.1@)),
{
    match tested.1 {
        Action::Run(command) => (Stage::TestStaging(tested.0), Action::Run(command)),
        Action::Finish => (Stage::DeployProduction, Action::Run(deploy_production(configuration))),
        Action::Abort => (Stage::Failed, Action::Abort),
    }
}

/// What the caller is to do after `stage` of a turn of the loop, once `event`
/// has come about, and the stage that the turn is then in.
pub fn go(configuration: &Main, stage: Stage, event: Event) -> (turn: (Stage, Action))
    requires
        can_go(*configuration, stage, event),
    ensures
        (turn.0, turn.1@) == next(*configuration, stage, event),
{
    match (stage, event) {
        (Stage::Begin, Event::Begun) => (Stage::BaseTest, Action::Run(run_base_test(configuration))),
        (Stage::BaseTest, Event::Succeeded) => (Stage::Build, Action::Run(build(configuration))),
        (Stage::Build, Event::Succeeded) => (
            Stage::DeployStaging,
            Action::Run(deploy_staging(configuration)),
        ),
        (Stage::DeployStaging, Event::Succeeded) => leave_testing(
            configuration,
            test_staging(configuration, Testing::Begin, Event::Begun),
        ),
        (Stage::TestStaging(testing), _) => leave_testing(
            configuration,
            test_staging(configuration, testing, event),
        ),
        (Stage::DeployProduction, Event::Succeeded) => (
            Stage::TestProduction,
            Action::Run(test_production(configuration)),
        ),
        (Stage::TestProduction, Event::Succeeded) => (
            Stage::LoadSnapshot,
            Action::Run(load_snapshot(configuration)),
        ),
        (Stage::LoadSnapshot, Event::Succeeded) => (
            Stage::MoveToNextVersion,
            Action::Run(move_to_next_version(configuration)),
        ),
        (Stage::MoveToNextVersion, Event::Succeeded) => (Stage::Done, Action::Finish),
        (Stage::Done, _) => (Stage::Done, Action::Finish),
        _ => (Stage::Failed, Action::Abort),
    }
}

} // verus!
