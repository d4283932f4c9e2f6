//! Deploying a compose file: on this host, or on another one, to which the
//! file is brought and on which the tool is then started.

pub mod deploy_locally;

use crate::command::{plain, quote_path, quoted_path, CommandLine, Invocation};
use crate::library::path::{join, joined};
use vstd::prelude::*;
use vstd::string::StringExecFns;

verus! {

/// What was asked for.
#[derive(Clone, Debug, PartialEq, Eq)]
pub struct In {
    /// The compose file to deploy.
    pub compose_file: String,
    /// The SSH configuration file to use, if not the usual one.
    pub ssh_configuration: Option<String>,
    /// The host to deploy on, if not this one.
    pub ssh_host: Option<String>,
    /// The user to be on that host, if not the usual one.
    pub ssh_user: Option<String>,
}

/// How another host is reached.
#[derive(Clone, Debug, PartialEq, Eq)]
pub struct Ssh {
    pub configuration: Option<String>,
    pub host: String,
    pub user: Option<String>,
}

/// Where a deployment takes place.
#[derive(Clone, Debug, PartialEq, Eq)]
pub enum Deployment {
    /// On this host.
    Local,
    /// On the host that is reached in this way.
    Remote(Ssh),
}

/// The folders in which a deployment is prepared.
#[derive(Clone, Debug, PartialEq, Eq)]
pub struct Workbench {
    /// The folder on this host.
    pub local: String,
    /// The folder on the other host.
    pub remote: String,
}

/// A file to copy.
#[derive(Clone, Debug, PartialEq, Eq)]
pub struct FileCopy {
    pub source: String,
    pub destination: String,
}

/// How far a deployment on another host has come.
#[derive(Clone, Copy, Debug, PartialEq, Eq)]
pub enum Stage {
    /// Nothing was done yet.
    Begin,
    /// The caller puts the compose file on the local workbench.
    Assembling,
    /// The caller brings the local workbench to the other host.
    Synchronizing,
    /// The caller starts the tool on the other host.
    Deploying,
    /// The deployment is made.
    Done,
    /// A step failed.
    Failed,
}

/// How what was done last went.
#[derive(Clone, Copy, Debug, PartialEq, Eq)]
pub enum Event {
    /// Nothing was done yet.
    Begun,
    /// The step succeeded.
    Succeeded,
    /// The step failed.
    Failed,
}

/// What the caller is to do next, as contracts speak of it.
pub enum Order {
    Copy { source: Seq<char>, destination: Seq<char> },
    Run(Invocation),
    Finish,
    Abort,
}

/// What the caller is to do next.
#[derive(Clone, Debug, PartialEq, Eq)]
pub enum Action {
    /// Copy this file, and tell how it went.
    Copy(FileCopy),
    /// Run this command, and tell how it went.
    Run(CommandLine),
    /// Nothing: the deployment is made.
    Finish,
    /// Nothing: a step failed. Nothing is done after it, and nothing undone.
    Abort,
}

impl View for Action {
    type V = Order;

    open spec fn view(&self) -> Order {
        match self {
            Action::Copy(copy) => Order::Copy {
                source: copy.source@,
                destination: copy.destination@,
            },
            Action::Run(command) => Order::Run(command@),
            Action::Finish => Order::Finish,
            Action::Abort => Order::Abort,
        }
    }
}

/// The name under which the compose file lies on a workbench.
pub open spec fn compose_name() -> Seq<char> {
    "compose.yaml"@
}

/// Where the deployment that `in_` asks for takes place: on the host that it
/// names, reached with the configuration and as the user that it names, or
/// on this host where it names none.
pub fn go(in_: In) -> (deployment: Deployment)
    ensures
        match in_.ssh_host {
            None => deployment is Local,
            Some(host) => deployment == Deployment::Remote(
                Ssh { configuration: in_.ssh_configuration, host, user: in_.ssh_user },
            ),
        },
{
    match in_.ssh_host {
        None => Deployment::Local,
        Some(host) => Deployment::Remote(
            Ssh { configuration: in_.ssh_configuration, host, user: in_.ssh_user },
        ),
    }
}

/// The copy that puts `compose_file` on the local workbench.
pub fn assemble_artifacts(compose_file: &str, workbench: &Workbench) -> (copy: FileCopy)
    ensures
        copy.source@ == compose_file@,
        copy.destination@ == joined(workbench.local@, compose_name()),
{
    FileCopy {
        source: String::from_str(compose_file),
        destination: join(workbench.local.as_str(), "compose.yaml"),
    }
}

/// How `rsync` is told to go through SSH with a configuration file.
pub open spec fn remote_shell(configuration: Option<String>) -> Seq<Seq<char>> {
    match configuration {
        Some(file) => seq!["--rsh"@, "ssh -F "@ + quoted_path(file@)],
        None => Seq::empty(),
    }
}

/// The folder on the other host as `rsync` names it: the user, if one is
/// given, the host, and the folder.
pub open spec fn remote_folder(workbench: Workbench, ssh: Ssh) -> Seq<char> {
    (match ssh.user {
        Some(user) => user@ + "@"@,
        None => Seq::empty(),
    }) + ssh.host@ + ":"@ + workbench.remote@
}

/// The command that makes the remote workbench hold what the local one
/// holds, and nothing else.
pub open spec fn synchronization(workbench: Workbench, ssh: Ssh) -> Invocation {
    plain(
        "rsync"@,
        seq!["--archive"@, "--delete"@] + remote_shell(ssh.configuration) + seq![
            "--"@,
            workbench.local@ + "/"@,
            remote_folder(workbench, ssh),
        ],
    )
}

/// The command that brings the local workbench to the other host.
pub fn synchronize_artifacts(workbench: &Workbench, ssh: &Ssh) -> (command: CommandLine)
    ensures
        command@ == synchronization(*workbench, *ssh),
{
    let mut arguments: Vec<String> = Vec::new();
    arguments.push(String::from_str("--archive"));
    arguments.push(String::from_str("--delete"));
    match &ssh.configuration {
        Some(file) => {
            arguments.push(String::from_str("--rsh"));
            let mut shell = String::from_str("ssh -F ");
            let shown = quote_path(file.as_str());
            shell.append(shown.as_str());
            arguments.push(shell);
        },
        None => {},
    }
    arguments.push(String::from_str("--"));
    let mut source = workbench.local.clone();
    source.append("/");
    arguments.push(source);
    let mut destination = String::new();
    match &ssh.user {
        Some(user) => {
            destination.append(user.as_str());
            destination.append("@");
        },
        None => {},
    }
    destination.append(ssh.host.as_str());
    destination.append(":");
    destination.append(workbench.remote.as_str());
    assert(destination@ =~= remote_folder(*workbench, *ssh));
    arguments.push(destination);
    let ghost wanted = synchronization(*workbench, *ssh);
    assert(arguments.deep_view() =~= wanted.arguments);
    let environment: Vec<(String, String)> = Vec::new();
    assert(environment.deep_view() =~= wanted.environment);
    CommandLine { program: String::from_str("rsync"), arguments, environment, directory: None }
}

/// How `ssh` is told which configuration file to use and which user to be.
pub open spec fn login(ssh: Ssh) -> Seq<Seq<char>> {
    (match ssh.configuration {
        Some(file) => seq!["-F"@, file@],
        None => Seq::empty(),
    }) + (match ssh.user {
        Some(user) => seq!["-l"@, user@],
        None => Seq::empty(),
    })
}

/// The command that starts the tool on the other host, on the compose file
/// that lies on the workbench there.
pub open spec fn remote_start(workbench: Workbench, ssh: Ssh) -> Invocation {
    plain(
        "ssh"@,
        login(ssh) + seq![
            ssh.host@,
            "--"@,
            "wheelsticks"@,
            "deploy"@,
            "--compose-file"@,
            joined(workbench.remote@, compose_name()),
        ],
    )
}

/// The command that starts the tool on the other host.
pub fn run_deploy_on_remote(workbench: &Workbench, ssh: &Ssh) -> (command: CommandLine)
    ensures
        command@ == remote_start(*workbench, *ssh),
{
    let mut arguments: Vec<String> = Vec::new();
    match &ssh.configuration {
        Some(file) => {
            arguments.push(String::from_str("-F"));
            arguments.push(file.clone());
        },
        None => {},
    }
    match &ssh.user {
        Some(user) => {
            arguments.push(String::from_str("-l"));
            arguments.push(user.clone());
        },
        None => {},
    }
    arguments.push(ssh.host.clone());
    arguments.push(String::from_str("--"));
    arguments.push(String::from_str("wheelsticks"));
    arguments.push(String::from_str("deploy"));
    arguments.push(String::from_str("--compose-file"));
    arguments.push(join(workbench.remote.as_str(), "compose.yaml"));
    let ghost wanted = remote_start(*workbench, *ssh);
    assert(arguments.deep_view() =~= wanted.arguments);
    let environment: Vec<(String, String)> = Vec::new();
    assert(environment.deep_view() =~= wanted.environment);
    CommandLine { program: String::from_str("ssh"), arguments, environment, directory: None }
}

/// What comes after `stage` of a deployment of `compose_file` on the host
/// that `ssh` reaches, once `event` has come about: the file is put on the
/// local workbench, then the workbench is brought to the other host, then
/// the tool is started there. Each step is made only if the one before it
/// succeeded; a failure ends the deployment, and so does an event that
/// cannot follow.
pub open spec fn next(
    compose_file: Seq<char>,
    workbench: Workbench,
    ssh: Ssh,
    stage: Stage,
    event: Event,
) -> (Stage, Order) {
    match (stage, event) {
        (Stage::Begin, Event::Begun) => (
            Stage::Assembling,
            Order::Copy {
                source: compose_file,
                destination: joined(workbench.local@, compose_name()),
            },
        ),
        (Stage::Assembling, Event::Succeeded) => (
            Stage::Synchronizing,
            Order::Run(synchronization(workbench, ssh)),
        ),
        (Stage::Synchronizing, Event::Succeeded) => (
            Stage::Deploying,
            Order::Run(remote_start(workbench, ssh)),
        ),
        (Stage::Deploying, Event::Succeeded) => (Stage::Done, Order::Finish),
        (Stage::Done, _) => (Stage::Done, Order::Finish),
        _ => (Stage::Failed, Order::Abort),
    }
}

/// What the caller is to do after `stage` of a deployment on another host,
/// once `event` has come about, and the stage that the deployment is then
/// in.
pub fn deploy_remotely(
    compose_file: &str,
    workbench: &Workbench,
    ssh: &Ssh,
    stage: Stage,
    event: Event,
) -> (turn: (Stage, Action))
    ensures
        (turn.0, turn.1@) == next(compose_file@, *workbench, *ssh, stage, event),
{
    match (stage, event) {
        (Stage::Begin, Event::Begun) => (
            Stage::Assembling,
            Action::Copy(assemble_artifacts(compose_file, workbench)),
        ),
        (Stage::Assembling, Event::Succeeded) => (
            Stage::Synchronizing,
            Action::Run(synchronize_artifacts(workbench, ssh)),
        ),
        (Stage::Synchronizing, Event::Succeeded) => (
            Stage::Deploying,
            Action::Run(run_deploy_on_remote(workbench, ssh)),
        ),
        (Stage::Deploying, Event::Succeeded) => (Stage::Done, Action::Finish),
        (Stage::Done, _) => (Stage::Done, Action::Finish),
        _ => (Stage::Failed, Action::Abort),
    }
}

} // verus!
