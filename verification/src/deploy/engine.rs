//! The commands that the engine is given: one that lists the containers of
//! services, and one for each operation on them.

use crate::command::{CommandLine, Invocation};
use crate::deploy::apply::{Operation, Task};
use vstd::prelude::*;
use vstd::string::StringExecFns;

verus! {

/// The label that tells the service of a container.
pub open spec fn service_label() -> Seq<char> {
    "com.docker.compose.service"@
}

/// The label that tells the fingerprint of the configuration of a container.
pub open spec fn hash_label() -> Seq<char> {
    "com.docker.compose.config-hash"@
}

/// The command that tells `docker`, which listens at `url`, `arguments`.
pub open spec fn docker(url: Seq<char>, arguments: Seq<Seq<char>>) -> Invocation {
    Invocation {
        program: "docker"@,
        arguments,
        environment: seq![("DOCKER_HOST"@, url)],
        directory: None,
    }
}

/// The command that lists the containers of services, stopped ones too, one
/// to a line: identity, fingerprint of the configuration, and service.
pub open spec fn listing(url: Seq<char>) -> Invocation {
    docker(
        url,
        seq![
            "ps"@,
            "--all"@,
            "--filter"@,
            "label="@ + service_label(),
            "--format"@,
            "{{.ID}} {{.Label \"com.docker.compose.config-hash\"}} {{.Label \"com.docker.compose.service\"}}"@,
        ],
    )
}

/// The command that makes the engine do `task`: a container is started
/// from the image that is named by service and fingerprint, with both as
/// its labels, and a container is stopped or removed by its identity.
pub open spec fn command_for(url: Seq<char>, task: Task) -> Invocation {
    match task {
        Task::Start { service_name, service_config_hash } => docker(
            url,
            seq![
                "run"@,
                "--detach"@,
                "--label"@,
                service_label() + "="@ + service_name,
                "--label"@,
                hash_label() + "="@ + service_config_hash,
                service_name + ":"@ + service_config_hash,
            ],
        ),
        Task::Stop { container_id } => docker(url, seq!["stop"@, container_id]),
        Task::Remove { container_id } => docker(url, seq!["rm"@, container_id]),
    }
}

/// The command that tells `docker`, which listens at `url`, `arguments`.
fn docker_command(url: &str, arguments: Vec<String>) -> (command: CommandLine)
    ensures
        command@ == docker(url@, arguments.deep_view()),
{
    let mut environment: Vec<(String, String)> = Vec::new();
    environment.push((String::from_str("DOCKER_HOST"), String::from_str(url)));
    assert(environment.deep_view() =~= seq![("DOCKER_HOST"@, url@)]);
    CommandLine { program: String::from_str("docker"), arguments, environment, directory: None }
}

/// The command that lists the containers of services for the engine at
/// `url`.
pub fn list_containers(url: &str) -> (command: CommandLine)
    ensures
        command@ == listing(url@),
{
    let mut arguments: Vec<String> = Vec::new();
    arguments.push(String::from_str("ps"));
    arguments.push(String::from_str("--all"));
    arguments.push(String::from_str("--filter"));
    let mut filter = String::from_str("label=");
    filter.append("com.docker.compose.service");
    arguments.push(filter);
    arguments.push(String::from_str("--format"));
    arguments.push(
        String::from_str(
            "{{.ID}} {{.Label \"com.docker.compose.config-hash\"}} {{.Label \"com.docker.compose.service\"}}",
        ),
    );
    assert(arguments.deep_view() =~= listing(url@).arguments);
    docker_command(url, arguments)
}

/// The command that makes the engine at `url` do `operation`.
pub fn command_of(url: &str, operation: &Operation) -> (command: CommandLine)
    ensures
        command@ == command_for(url@, operation@),
{
    let mut arguments: Vec<String> = Vec::new();
    match operation {
        Operation::Start { service_name, service_config_hash } => {
            arguments.push(String::from_str("run"));
            arguments.push(String::from_str("--detach"));
            arguments.push(String::from_str("--label"));
            let mut service = String::from_str("com.docker.compose.service");
            service.append("=");
            service.append(service_name.as_str());
            arguments.push(service);
            arguments.push(String::from_str("--label"));
            let mut hash = String::from_str("com.docker.compose.config-hash");
            hash.append("=");
            hash.append(service_config_hash.as_str());
            arguments.push(hash);
            let mut image = service_name.clone();
            image.append(":");
            image.append(service_config_hash.as_str());
            arguments.push(image);
        },
        Operation::Stop { container_id } => {
            arguments.push(String::from_str("stop"));
            arguments.push(container_id.clone());
        },
        Operation::Remove { container_id } => {
            arguments.push(String::from_str("rm"));
            arguments.push(container_id.clone());
        },
    }
    assert(arguments.deep_view() =~= command_for(url@, operation@).arguments);
    docker_command(url, arguments)
}

} // verus!
