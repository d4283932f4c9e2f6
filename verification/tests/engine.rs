use wheelsticks::command::CommandLine;
use wheelsticks::deploy::apply::Operation;
use wheelsticks::deploy::engine::{command_of, list_containers};

fn docker(url: &str, arguments: &[&str]) -> CommandLine {
    CommandLine {
        program: "docker".into(),
        arguments: arguments.iter().map(|argument| (*argument).into()).collect(),
        environment: vec![("DOCKER_HOST".into(), url.into())],
        directory: None,
    }
}

#[test]
fn containers_are_listed_with_identity_hash_and_service() {
    assert_eq!(
        list_containers("unix:///var/run/docker.sock"),
        docker(
            "unix:///var/run/docker.sock",
            &[
                "ps",
                "--all",
                "--filter",
                "label=com.docker.compose.service",
                "--format",
                "{{.ID}} {{.Label \"com.docker.compose.config-hash\"}} \
                {{.Label \"com.docker.compose.service\"}}",
            ],
        ),
    );
}

#[test]
fn container_is_started_by_service_and_hash() {
    let start =
        Operation::Start { service_name: "web".into(), service_config_hash: "h1".into() };
    assert_eq!(
        command_of("ssh://box", &start),
        docker(
            "ssh://box",
            &[
                "run",
                "--detach",
                "--label",
                "com.docker.compose.service=web",
                "--label",
                "com.docker.compose.config-hash=h1",
                "web:h1",
            ],
        ),
    );
}

#[test]
fn container_is_stopped_and_removed_by_identity() {
    assert_eq!(
        command_of("ssh://box", &Operation::Stop { container_id: "c1".into() }),
        docker("ssh://box", &["stop", "c1"]),
    );
    assert_eq!(
        command_of("ssh://box", &Operation::Remove { container_id: "c1".into() }),
        docker("ssh://box", &["rm", "c1"]),
    );
}
