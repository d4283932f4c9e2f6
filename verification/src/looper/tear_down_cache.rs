//! Clearing away what the loop keeps: first its virtual machine, if it has
//! one, then the folder with its files, if there is one.
//!
//! The caller looks at the disk and runs what is to be run. It asks what is
//! next and tells what it found or how it went.

use crate::command::{CommandLine, Invocation};
use crate::looper::configuration::Main;
use vstd::prelude::*;
use vstd::string::StringExecFns;

verus! {

/// How far the clearing has come.
#[derive(Clone, Copy, Debug, PartialEq, Eq)]
pub enum Stage {
    /// Nothing was done yet.
    Begin,
    /// The caller looks whether the description of the virtual machine
    /// exists.
    ProbingVm,
    /// The caller destroys the virtual machine.
    DestroyingVm,
    /// The caller looks whether the folder exists.
    ProbingFolder,
    /// The caller removes the folder.
    RemovingFolder,
    /// All is cleared away.
    Done,
    /// The clearing was given up.
    Failed,
}

/// What the caller found, or how what it did went.
#[derive(Clone, Copy, Debug, PartialEq, Eq)]
pub enum Event {
    /// Nothing was asked of the caller yet.
    Begun,
    /// What was to be looked for exists, or does not.
    Exists(bool),
    /// What was to be done is done.
    Succeeded,
    /// What was to be done failed.
    Failed,
}

/// What the caller is to do next, as contracts speak of it.
pub enum Order {
    Probe(Seq<char>),
    Run(Invocation),
    RemoveFolder(Seq<char>),
    Finish,
    Abort,
}

/// What the caller is to do next.
#[derive(Clone, Debug, PartialEq, Eq)]
pub enum Action {
    /// Look whether this path exists, and tell.
    Probe(String),
    /// Run this command, and tell how it went.
    Run(CommandLine),
    /// Remove this folder with all that it holds, and tell how it went.
    RemoveFolder(String),
    /// Nothing: all is cleared away.
    Finish,
    /// Nothing: the clearing is given up.
    Abort,
}

impl View for Action {
    type V = Order;

    open spec fn view(&self) -> Order {
        match self {
            Action::Probe(path) => Order::Probe(path@),
            Action::Run(command) => Order::Run(command@),
            Action::RemoveFolder(folder) => Order::RemoveFolder(folder@),
            Action::Finish => Order::Finish,
            Action::Abort => Order::Abort,
        }
    }
}

/// The command that destroys the virtual machine of the loop: run in the
/// folder of the loop, with the variables of every command and then those of
/// staging.
pub open spec fn destruction(configuration: Main) -> Invocation {
    Invocation {
        program: "vagrant"@,
        arguments: seq!["destroy"@, "--force"@],
        environment: configuration.variables.deep_view()
            + configuration.staging.variables.deep_view(),
        directory: Some(configuration.cache.folder@),
    }
}

/// The variables `variables`, each with its value, once more.
fn copy_of(variables: &Vec<(String, String)>) -> (copy: Vec<(String, String)>)
    ensures
        copy.deep_view() == variables.deep_view(),
{
    let mut copy: Vec<(String, String)> = Vec::new();
    let mut at: usize = 0;
    while at < variables.len()
        invariant
            at <= variables.len(),
            copy.deep_view() == variables.deep_view().take(at as int),
        decreases variables.len() - at,
    {
        let ghost so_far = copy.deep_view();
        let name = variables[at].0.clone();
        let value = variables[at].1.clone();
        assert((name@, value@) == variables.deep_view()[at as int]);
        copy.push((name, value));
        at += 1;
        assert(copy.deep_view() =~= so_far.push((name@, value@)));
        assert(copy.deep_view() =~= variables.deep_view().take(at as int));
    }
    assert(variables.deep_view().take(at as int) =~= variables.deep_view());
    copy
}

/// The command that destroys the virtual machine of the loop, if the file
/// that describes it exists.
pub fn delete_vm_if_exists(configuration: &Main, present: bool) -> (command: Option<CommandLine>)
    ensures
        command.deep_view() == if present {
            Some(destruction(*configuration))
        } else {
            None
        },
{
    if present {
        let mut arguments: Vec<String> = Vec::new();
        arguments.push(String::from_str("destroy"));
        arguments.push(String::from_str("--force"));
        assert(arguments.deep_view() =~= destruction(*configuration).arguments);
        let mut environment = copy_of(&configuration.variables);
        let mut staging = copy_of(&configuration.staging.variables);
        let ghost first = environment.deep_view();
        let ghost second = staging.deep_view();
        environment.append(&mut staging);
        assert(environment.deep_view() =~= first + second);
        Some(
            CommandLine {
                program: String::from_str("vagrant"),
                arguments,
                environment,
                directory: Some(configuration.cache.folder.clone()),
            },
        )
    } else {
        None
    }
}

/// The folder of the loop to remove, if it exists.
pub fn delete_cache_folder_if_exists(configuration: &Main, present: bool) -> (folder: Option<String>)
    ensures
        folder.deep_view() == if present {
            Some(configuration.cache.folder@)
        } else {
            None
        },
{
    if present {
        Some(configuration.cache.folder.clone())
    } else {
        None
    }
}

/// What follows once the virtual machine is out of the way: the caller looks
/// for the folder.
pub open spec fn folder_is_next(configuration: Main) -> (Stage, Order) {
    (Stage::ProbingFolder, Order::Probe(configuration.cache.folder@))
}

/// What comes after `stage` once `event` has come about. The virtual
/// machine is destroyed if its description exists, and only then the folder
/// is removed, if it exists; a failure ends the clearing, and so does an
/// event that cannot follow the stage.
pub open spec fn next(configuration: Main, stage: Stage, event: Event) -> (Stage, Order) {
    match (stage, event) {
        (Stage::Begin, Event::Begun) => (
            Stage::ProbingVm,
            Order::Probe(configuration.cache.vagrantfile@),
        ),
        (Stage::ProbingVm, Event::Exists(true)) => (
            Stage::DestroyingVm,
            Order::Run(destruction(configuration)),
        ),
        (Stage::ProbingVm, Event::Exists(false)) => folder_is_next(configuration),
        (Stage::DestroyingVm, Event::Succeeded) => folder_is_next(configuration),
        (Stage::ProbingFolder, Event::Exists(true)) => (
            Stage::RemovingFolder,
            Order::RemoveFolder(configuration.cache.folder@),
        ),
        (Stage::ProbingFolder, Event::Exists(false)) => (Stage::Done, Order::Finish),
        (Stage::RemovingFolder, Event::Succeeded) => (Stage::Done, Order::Finish),
        (Stage::Done, _) => (Stage::Done, Order::Finish),
        _ => (Stage::Failed, Order::Abort),
    }
}

/// What the caller is to do after `stage`, once `event` has come about, and
/// the stage that the clearing is then in.
pub fn go(configuration: &Main, stage: Stage, event: Event) -> (turn: (Stage, Action))
    ensures
        (turn.0, turn.1@) == next(*configuration, stage, event),
{
    match (stage, event) {
        (Stage::Begin, Event::Begun) => (
            Stage::ProbingVm,
            Action::Probe(configuration.cache.vagrantfile.clone()),
        ),
        (Stage::ProbingVm, Event::Exists(present)) => match delete_vm_if_exists(
            configuration,
            present,
        ) {
            Some(command) => (Stage::DestroyingVm, Action::Run(command)),
            None => (Stage::ProbingFolder, Action::Probe(configuration.cache.folder.clone())),
        },
        (Stage::DestroyingVm, Event::Succeeded) => (
            Stage::ProbingFolder,
            Action::Probe(configuration.cache.folder.clone()),
        ),
        (Stage::ProbingFolder, Event::Exists(present)) => match delete_cache_folder_if_exists(
            configuration,
            present,
        ) {
            Some(folder) => (Stage::RemovingFolder, Action::RemoveFolder(folder)),
            None => (Stage::Done, Action::Finish),
        },
        (Stage::RemovingFolder, Event::Succeeded) => (Stage::Done, Action::Finish),
        (Stage::Done, _) => (Stage::Done, Action::Finish),
        _ => (Stage::Failed, Action::Abort),
    }
}

} // verus!
