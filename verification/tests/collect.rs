use wheelsticks::command::{CommandError, DecodeFailure, ExitStatus, Failure, Output};
use wheelsticks::deploy::collect::{collect, containers_of_rows, COLUMN_COUNT};
use wheelsticks::deploy::model::{ActualContainer, ActualContainers};
use wheelsticks::table::Misfit;

fn listed(bytes: &[u8]) -> Result<Output, String> {
    Ok(Output {
        status: ExitStatus { success: true, description: "exit status: 0".into() },
        stdout: bytes.to_vec(),
    })
}

fn containers(items: &[(&str, &str, &str)]) -> ActualContainers {
    let mut containers = ActualContainers::new();
    for (id, hash, name) in items {
        containers.insert(ActualContainer {
            container_id: (*id).into(),
            service_config_hash: (*hash).into(),
            service_name: (*name).into(),
        });
    }
    containers
}

#[test]
fn collect_reads_one_container_from_each_line() {
    assert_eq!(COLUMN_COUNT, 3);
    assert_eq!(
        collect("docker ps", listed(b"c2 h1 web\nc1 h2 db\n")),
        Ok(containers(&[("c1", "h2", "db"), ("c2", "h1", "web")])),
    );
}

#[test]
fn collect_orders_by_identity_then_hash_then_service() {
    let collected = collect("docker ps", listed(b"b h web\na h web\na g web\na g db\nb h web")).unwrap();
    assert_eq!(collected.len(), 4);
    let order: Vec<(&str, &str, &str)> = (0..collected.len())
        .map(|at| {
            let container = collected.get(at);
            (
                container.container_id.as_str(),
                container.service_config_hash.as_str(),
                container.service_name.as_str(),
            )
        })
        .collect();
    assert_eq!(order, vec![("a", "g", "db"), ("a", "g", "web"), ("a", "h", "web"), ("b", "h", "web")]);
}

#[test]
fn collect_of_nothing_is_empty() {
    assert_eq!(collect("docker ps", listed(b"")), Ok(ActualContainers::new()));
}

#[test]
fn collect_fails_on_a_line_with_another_field_count() {
    assert_eq!(
        collect("docker ps", listed(b"c1 h1 web\nc2 h1\n")),
        Err(CommandError {
            command: "docker ps".into(),
            failure: Failure::DecodeFailure(DecodeFailure::MisfitRow(Misfit {
                line_number: 2,
                expected: 3,
                found: 2,
                row: "c2 h1".into(),
            })),
        }),
    );
    assert!(collect("docker ps", listed(b"c1 h1 web extra")).is_err());
}

#[test]
fn collect_fails_where_the_listing_failed() {
    assert_eq!(
        collect("docker ps", Err("not found".into())),
        Err(CommandError {
            command: "docker ps".into(),
            failure: Failure::SpawnFailure { reason: "not found".into() },
        }),
    );
    let failed = Output {
        status: ExitStatus { success: false, description: "exit status: 125".into() },
        stdout: b"c1 h1 web".to_vec(),
    };
    assert_eq!(
        collect("docker ps", Ok(failed)),
        Err(CommandError {
            command: "docker ps".into(),
            failure: Failure::NonZeroExit { status: "exit status: 125".into() },
        }),
    );
    assert_eq!(
        collect("docker ps", listed(&[0xFF])),
        Err(CommandError {
            command: "docker ps".into(),
            failure: Failure::DecodeFailure(DecodeFailure::InvalidText),
        }),
    );
}

#[test]
fn rows_become_a_set() {
    let rows: Vec<Vec<String>> = vec![
        vec!["c1".into(), "h1".into(), "web".into()],
        vec!["c1".into(), "h1".into(), "web".into()],
        vec!["c0".into(), "h1".into(), "web".into()],
    ];
    assert_eq!(containers_of_rows(&rows), containers(&[("c0", "h1", "web"), ("c1", "h1", "web")]));
}
