use wheelsticks::deploy::model::{
    ActualContainer, ActualContainers, DesiredServiceDefinition, DesiredServices, OperationOrder,
    ServiceContainerChange,
};
use wheelsticks::deploy::reconcile::reconcile;

fn container(id: &str, hash: &str, name: &str) -> ActualContainer {
    ActualContainer {
        container_id: id.into(),
        service_config_hash: hash.into(),
        service_name: name.into(),
    }
}

fn running(containers: &[(&str, &str, &str)]) -> ActualContainers {
    let mut actual = ActualContainers::new();
    for (id, hash, name) in containers {
        actual.insert(container(id, hash, name));
    }
    actual
}

fn wanted(services: &[(&str, u16, &str, OperationOrder)]) -> DesiredServices {
    let mut desired = DesiredServices::new();
    for (name, replica_count, hash, update_order) in services {
        desired.insert(
            (*name).into(),
            DesiredServiceDefinition {
                replica_count: *replica_count,
                service_config_hash: (*hash).into(),
                update_order: *update_order,
            },
        );
    }
    desired
}

fn add(name: &str, hash: &str) -> ServiceContainerChange {
    ServiceContainerChange::Add { service_config_hash: hash.into(), service_name: name.into() }
}

fn keep(id: &str, hash: &str, name: &str) -> ServiceContainerChange {
    ServiceContainerChange::Keep {
        container_id: id.into(),
        service_config_hash: hash.into(),
        service_name: name.into(),
    }
}

fn remove(id: &str, hash: &str, name: &str) -> ServiceContainerChange {
    ServiceContainerChange::Remove {
        container_id: id.into(),
        service_config_hash: hash.into(),
        service_name: name.into(),
    }
}

#[test]
fn scale_up_adds_each_missing_replica() {
    let desired = wanted(&[("web", 2, "h1", OperationOrder::StartFirst)]);
    let actual = running(&[]);
    assert_eq!(reconcile(&desired, &actual), vec![add("web", "h1"), add("web", "h1")]);
}

#[test]
fn rolling_upgrade_starts_first() {
    let desired = wanted(&[("web", 1, "h2", OperationOrder::StartFirst)]);
    let actual = running(&[("c1", "h1", "web")]);
    assert_eq!(reconcile(&desired, &actual), vec![add("web", "h2"), remove("c1", "h1", "web")]);
}

#[test]
fn rolling_upgrade_stops_first() {
    let desired = wanted(&[("web", 1, "h2", OperationOrder::StopFirst)]);
    let actual = running(&[("c1", "h1", "web")]);
    assert_eq!(reconcile(&desired, &actual), vec![remove("c1", "h1", "web"), add("web", "h2")]);
}

#[test]
fn stable_service_is_kept() {
    for update_order in [OperationOrder::StartFirst, OperationOrder::StopFirst] {
        let desired = wanted(&[("web", 1, "h1", update_order)]);
        let actual = running(&[("c1", "h1", "web")]);
        assert_eq!(reconcile(&desired, &actual), vec![keep("c1", "h1", "web")]);
    }
}

#[test]
fn decommissioned_service_is_removed() {
    let desired = wanted(&[]);
    let actual = running(&[("c1", "h1", "web")]);
    assert_eq!(reconcile(&desired, &actual), vec![remove("c1", "h1", "web")]);
}

#[test]
fn nothing_wanted_and_nothing_running_needs_no_change() {
    assert_eq!(reconcile(&wanted(&[]), &running(&[])), vec![]);
}

#[test]
fn scale_to_zero_only_removes() {
    let desired = wanted(&[("web", 0, "h1", OperationOrder::StartFirst)]);
    let actual = running(&[("c2", "h1", "web"), ("c1", "h1", "web")]);
    assert_eq!(
        reconcile(&desired, &actual),
        vec![remove("c1", "h1", "web"), remove("c2", "h1", "web")],
    );
}

#[test]
fn surplus_is_trimmed_after_the_first_replicas() {
    let desired = wanted(&[("web", 2, "h1", OperationOrder::StopFirst)]);
    let actual = running(&[("c3", "h1", "web"), ("c1", "h1", "web"), ("c2", "h1", "web")]);
    assert_eq!(
        reconcile(&desired, &actual),
        vec![keep("c1", "h1", "web"), keep("c2", "h1", "web"), remove("c3", "h1", "web")],
    );
}

#[test]
fn hash_change_and_count_change_compose() {
    let desired = wanted(&[("web", 3, "h2", OperationOrder::StartFirst)]);
    let actual = running(&[
        ("c1", "h1", "web"),
        ("c2", "h2", "web"),
        ("c3", "h1", "web"),
        ("c4", "h9", "db"),
    ]);
    assert_eq!(
        reconcile(&desired, &actual),
        vec![
            remove("c4", "h9", "db"),
            keep("c2", "h2", "web"),
            add("web", "h2"),
            add("web", "h2"),
            remove("c1", "h1", "web"),
            remove("c3", "h1", "web"),
        ],
    );
}

#[test]
fn services_are_taken_by_ascending_name() {
    let desired = wanted(&[
        ("web", 1, "h1", OperationOrder::StartFirst),
        ("api", 1, "h1", OperationOrder::StopFirst),
    ]);
    let actual = running(&[("c1", "h0", "queue"), ("c2", "h0", "api")]);
    assert_eq!(
        reconcile(&desired, &actual),
        vec![
            remove("c2", "h0", "api"),
            add("api", "h1"),
            remove("c1", "h0", "queue"),
            add("web", "h1"),
        ],
    );
}

#[test]
fn reconcile_is_deterministic() {
    let desired = wanted(&[
        ("web", 2, "h2", OperationOrder::StartFirst),
        ("db", 1, "h1", OperationOrder::StopFirst),
    ]);
    let actual = running(&[("c1", "h1", "web"), ("c2", "h1", "db"), ("c3", "h2", "web")]);
    assert_eq!(reconcile(&desired, &actual), reconcile(&desired, &actual));
}

#[test]
fn actual_containers_form_an_ordered_set() {
    let mut actual = ActualContainers::new();
    assert!(actual.insert(container("b", "h", "web")));
    assert!(actual.insert(container("a", "h", "web")));
    assert!(!actual.insert(container("b", "h", "web")));
    assert!(actual.insert(container("a", "g", "web")));
    assert_eq!(actual.len(), 3);
    assert_eq!(actual.get(0), &container("a", "g", "web"));
    assert_eq!(actual.get(1), &container("a", "h", "web"));
    assert_eq!(actual.get(2), &container("b", "h", "web"));
    assert!(actual.contains(&container("a", "h", "web")));
    assert!(!actual.contains(&container("a", "h", "db")));
}

#[test]
fn desired_services_form_an_ordered_map() {
    let first = DesiredServiceDefinition {
        replica_count: 1,
        service_config_hash: "h1".into(),
        update_order: OperationOrder::StartFirst,
    };
    let second = DesiredServiceDefinition {
        replica_count: 2,
        service_config_hash: "h2".into(),
        update_order: OperationOrder::StopFirst,
    };
    let mut desired = DesiredServices::new();
    assert_eq!(desired.insert("web".into(), first.clone()), None);
    assert_eq!(desired.insert("api".into(), first.clone()), None);
    assert_eq!(desired.insert("web".into(), second.clone()), Some(first.clone()));
    assert_eq!(desired.len(), 2);
    assert_eq!(desired.get_at(0).name, "api");
    assert_eq!(desired.get_at(1).name, "web");
    assert_eq!(desired.get("web"), Some(&second));
    assert_eq!(desired.get("api"), Some(&first));
    assert_eq!(desired.get("db"), None);
}

#[test]
fn containers_are_ordered_as_they_compare() {
    let containers = [
        container("a", "g", "db"),
        container("a", "g", "web"),
        container("a", "h", "db"),
        container("b", "g", "db"),
        container("B", "z", "z"),
        container("", "", ""),
        container("é", "g", "db"),
    ];
    for left in &containers {
        for right in &containers {
            assert_eq!(
                wheelsticks::deploy::model::container_before(left, right),
                left < right,
                "{left:?} {right:?}",
            );
        }
    }
}
