use wheelsticks::deploy::model::{
    ActualContainer, ActualContainers, DesiredServiceDefinition, DesiredServices, OperationOrder,
    ServiceContainerChange,
};
use wheelsticks::deploy::reconcile::reconcile;

const NAMES: [&str; 3] = ["api", "db", "web"];
const HASHES: [&str; 2] = ["h1", "h2"];

/// Of each service either nothing is wanted, or up to two replicas of one
/// of two configurations in one of the two orders.
fn wanted(mut seed: usize) -> DesiredServices {
    let mut desired = DesiredServices::new();
    for name in NAMES {
        let choice = seed % 9;
        seed /= 9;
        if choice < 8 {
            desired.insert(
                name.into(),
                DesiredServiceDefinition {
                    replica_count: (choice % 3) as u16,
                    service_config_hash: HASHES[choice % 2].into(),
                    update_order: if choice < 4 {
                        OperationOrder::StartFirst
                    } else {
                        OperationOrder::StopFirst
                    },
                },
            );
        }
    }
    desired
}

/// Up to six containers, spread over the services and configurations.
fn running(mut seed: usize) -> ActualContainers {
    let mut actual = ActualContainers::new();
    for at in 0..6 {
        let choice = seed % 7;
        seed /= 7;
        if choice < 6 {
            actual.insert(ActualContainer {
                container_id: format!("c{at}"),
                service_config_hash: HASHES[choice % 2].into(),
                service_name: NAMES[choice / 2].into(),
            });
        }
    }
    actual
}

fn cases() -> Vec<(DesiredServices, ActualContainers)> {
    let mut cases = Vec::new();
    for seed in 0..400 {
        cases.push((wanted(seed * 37 + 5), running(seed * 1009 + 11)));
    }
    cases
}

fn containers(actual: &ActualContainers) -> Vec<ActualContainer> {
    (0..actual.len()).map(|at| actual.get(at).clone()).collect()
}

/// What runs once the changes are made: what no change removes, and a new
/// container for each addition.
fn applied(actual: &ActualContainers, changes: &[ServiceContainerChange]) -> ActualContainers {
    let mut after = ActualContainers::new();
    for container in containers(actual) {
        let removed = changes.iter().any(|change| {
            matches!(change, ServiceContainerChange::Remove { container_id, .. }
                if *container_id == container.container_id)
        });
        if !removed {
            after.insert(container);
        }
    }
    let mut count = 0;
    for change in changes {
        if let ServiceContainerChange::Add { service_config_hash, service_name } = change {
            after.insert(ActualContainer {
                container_id: format!("new{count}"),
                service_config_hash: service_config_hash.clone(),
                service_name: service_name.clone(),
            });
            count += 1;
        }
    }
    after
}

#[test]
fn reconciliation_converges_on_examples() {
    for (desired, actual) in cases() {
        let changes = reconcile(&desired, &actual);
        let after = containers(&applied(&actual, &changes));
        for at in 0..desired.len() {
            let service = desired.get_at(at);
            let own: Vec<&ActualContainer> =
                after.iter().filter(|container| container.service_name == service.name).collect();
            assert_eq!(own.len(), usize::from(service.definition.replica_count));
            assert!(own
                .iter()
                .all(|container| container.service_config_hash == service.definition.service_config_hash));
        }
    }
}

#[test]
fn reconciliation_settles_on_examples() {
    for (desired, actual) in cases() {
        let changes = reconcile(&desired, &actual);
        let after = applied(&actual, &changes);
        let again = reconcile(&desired, &after);
        assert!(again.iter().all(|change| matches!(change, ServiceContainerChange::Keep { .. })));
        assert_eq!(again.len(), after.len());
    }
}

#[test]
fn update_order_is_followed_on_examples() {
    for (desired, actual) in cases() {
        let changes = reconcile(&desired, &actual);
        for at in 0..desired.len() {
            let service = desired.get_at(at);
            let adds: Vec<usize> = (0..changes.len())
                .filter(|at| {
                    matches!(&changes[*at], ServiceContainerChange::Add { service_name, .. }
                        if *service_name == service.name)
                })
                .collect();
            let removes: Vec<usize> = (0..changes.len())
                .filter(|at| {
                    matches!(&changes[*at], ServiceContainerChange::Remove { service_name, .. }
                        if *service_name == service.name)
                })
                .collect();
            for add in &adds {
                for remove in &removes {
                    match service.definition.update_order {
                        OperationOrder::StartFirst => assert!(add < remove),
                        OperationOrder::StopFirst => assert!(remove < add),
                    }
                }
            }
        }
    }
}

#[test]
fn kept_and_added_make_the_replicas_on_examples() {
    for (desired, actual) in cases() {
        let changes = reconcile(&desired, &actual);
        for at in 0..desired.len() {
            let service = desired.get_at(at);
            let provided = changes
                .iter()
                .filter(|change| match change {
                    ServiceContainerChange::Add { service_name, .. } => *service_name == service.name,
                    ServiceContainerChange::Keep { service_name, .. } => *service_name == service.name,
                    ServiceContainerChange::Remove { .. } => false,
                })
                .count();
            assert_eq!(provided, usize::from(service.definition.replica_count));
        }
    }
}

#[test]
fn stale_and_unwanted_containers_are_removed_on_examples() {
    for (desired, actual) in cases() {
        let changes = reconcile(&desired, &actual);
        for container in containers(&actual) {
            let stale = match desired.get(&container.service_name) {
                Some(definition) => definition.service_config_hash != container.service_config_hash,
                None => true,
            };
            let removed = changes.contains(&ServiceContainerChange::Remove {
                container_id: container.container_id.clone(),
                service_config_hash: container.service_config_hash.clone(),
                service_name: container.service_name.clone(),
            });
            if stale {
                assert!(removed);
            }
        }
    }
}

#[test]
fn every_container_is_kept_or_removed_once() {
    for (desired, actual) in cases() {
        let changes = reconcile(&desired, &actual);
        for container in containers(&actual) {
            let about = changes
                .iter()
                .filter(|change| match change {
                    ServiceContainerChange::Keep { container_id, .. } => {
                        *container_id == container.container_id
                    }
                    ServiceContainerChange::Remove { container_id, .. } => {
                        *container_id == container.container_id
                    }
                    ServiceContainerChange::Add { .. } => false,
                })
                .count();
            assert_eq!(about, 1);
        }
    }
}

#[test]
fn two_reconciliations_give_the_same_changes() {
    for (desired, actual) in cases() {
        assert_eq!(reconcile(&desired, &actual), reconcile(&desired, &actual));
    }
}
