//! What holds of every reconciliation.

use crate::deploy::model::{
    definition_at, definition_is_held, definition_of, is_desired, is_state, names_of, by_container,
    container_order_is_total, Change, Container, Definition, OperationOrder, Service,
};
use crate::deploy::reconcile::{
    additions, belongs_to, changes_of, is_current, is_stale, keep, keeps, kept, kept_count, missing,
    plan, remove, removals, removed, runs_service, service_changes, service_names,
    service_names_ascend,
};
use crate::ordered::{
    ascending, ascending_has_no_duplicates, filter_commutes, filter_holds, filter_keeps_ascending,
    filter_keeps_distinct, filter_takes_all, filter_takes_front, filter_takes_none, filter_within,
    filters_count_alike, same_items_count_alike,
};
use crate::text::{by_text, text_order_is_total};
use vstd::prelude::*;

verus! {

/// The containers that stay are current containers of their service, and
/// they are among those that run.
pub proof fn kept_are_current(name: Seq<char>, definition: Definition, actual: Seq<Container>, i: int)
    requires
        0 <= i < kept(name, definition, actual).len(),
    ensures
        is_current(name, definition.service_config_hash)(kept(name, definition, actual)[i]),
        actual.contains(kept(name, definition, actual)[i]),
{
    let test = is_current(name, definition.service_config_hash);
    let current = actual.filter(test);
    actual.lemma_filter_pred(test, i);
    assert(current.contains(current[i]));
    actual.lemma_filter_contains_rev(test, current[i]);
}

/// The containers that go belong to their service, and they are among those
/// that run.
pub proof fn removed_belong(
    name: Seq<char>,
    definition: Option<Definition>,
    actual: Seq<Container>,
    i: int,
)
    requires
        0 <= i < removed(name, definition, actual).len(),
    ensures
        removed(name, definition, actual)[i].service_name == name,
        actual.contains(removed(name, definition, actual)[i]),
{
    match definition {
        Some(wanted) => {
            let hash = wanted.service_config_hash;
            let current = actual.filter(is_current(name, hash));
            let stale = actual.filter(is_stale(name, hash));
            let surplus = current.skip(kept_count(wanted, current));
            if i < surplus.len() {
                let at = i + kept_count(wanted, current);
                actual.lemma_filter_pred(is_current(name, hash), at);
                assert(current.contains(current[at]));
                actual.lemma_filter_contains_rev(is_current(name, hash), current[at]);
            } else {
                let at = i - surplus.len();
                actual.lemma_filter_pred(is_stale(name, hash), at);
                assert(stale.contains(stale[at]));
                actual.lemma_filter_contains_rev(is_stale(name, hash), stale[at]);
            }
        },
        None => {
            let own = actual.filter(belongs_to(name));
            actual.lemma_filter_pred(belongs_to(name), i);
            assert(own.contains(own[i]));
            actual.lemma_filter_contains_rev(belongs_to(name), own[i]);
        },
    }
}

/// What a change of service `name` can be: it leaves a staying container
/// alone, removes a going one, or adds a container with the wanted
/// configuration.
pub open spec fn is_change_of(
    change: Change,
    name: Seq<char>,
    definition: Option<Definition>,
    actual: Seq<Container>,
) -> bool {
    match change {
        Change::Keep { .. } => definition is Some && exists|i: int|
            0 <= i < kept(name, definition->0, actual).len() && change == keep(
                #[trigger] kept(name, definition->0, actual)[i],
            ),
        Change::Remove { .. } => exists|i: int|
            0 <= i < removed(name, definition, actual).len() && change == remove(
                #[trigger] removed(name, definition, actual)[i],
            ),
        Change::Add { service_config_hash, service_name } => definition is Some && service_name
            == name && service_config_hash == definition->0.service_config_hash && missing(
            name,
            definition->0,
            actual,
        ) > 0,
    }
}

/// Each change for a service is one of the changes that the service can have,
/// and it is about that service.
pub proof fn service_changes_are_its_own(
    name: Seq<char>,
    definition: Option<Definition>,
    actual: Seq<Container>,
    i: int,
)
    requires
        0 <= i < service_changes(name, definition, actual).len(),
    ensures
        is_change_of(service_changes(name, definition, actual)[i], name, definition, actual),
        service_changes(name, definition, actual)[i].service_name() == name,
{
    let changes = service_changes(name, definition, actual);
    let going = removed(name, definition, actual);
    match definition {
        Some(wanted) => {
            let staying = kept(name, wanted, actual);
            let adding = missing(name, wanted, actual);
            let to_add: int = if adding > 0 {
                adding
            } else {
                0
            };
            assert(additions(name, wanted, actual).len() == to_add);
            let (add_from, remove_from): (int, int) = match wanted.update_order {
                OperationOrder::StartFirst => (staying.len() as int, staying.len() + to_add),
                OperationOrder::StopFirst => (
                    (staying.len() + going.len()) as int,
                    staying.len() as int,
                ),
            };
            if i < staying.len() {
                assert(changes[i] == keep(staying[i]));
                kept_are_current(name, wanted, actual, i);
            } else if remove_from <= i < remove_from + going.len() {
                assert(changes[i] == remove(going[i - remove_from]));
                removed_belong(name, definition, actual, i - remove_from);
            } else {
                assert(add_from <= i < add_from + to_add);
                assert(changes[i] == additions(name, wanted, actual)[i - add_from]);
            }
        },
        None => {
            assert(changes[i] == remove(going[i]));
            removed_belong(name, definition, actual, i);
        },
    }
}

/// A change is among the changes for the services `names` exactly if it is
/// among the changes for one of them.
pub proof fn changes_of_holds(
    names: Seq<Seq<char>>,
    desired: Seq<Service>,
    actual: Seq<Container>,
    change: Change,
)
    ensures
        changes_of(names, desired, actual).contains(change) <==> exists|k: int|
            0 <= k < names.len() && #[trigger] service_changes(
                names[k],
                definition_of(desired, names[k]),
                actual,
            ).contains(change),
    decreases names.len(),
{
    if names.len() > 0 {
        let front = names.drop_last();
        let last = names.last();
        let head = changes_of(front, desired, actual);
        let tail = service_changes(last, definition_of(desired, last), actual);
        let all = changes_of(names, desired, actual);
        changes_of_holds(front, desired, actual, change);
        if all.contains(change) {
            let i = choose|i: int| 0 <= i < all.len() && all[i] == change;
            if i < head.len() {
                assert(head[i] == change);
                assert(head.contains(change));
                let k = choose|k: int|
                    0 <= k < front.len() && #[trigger] service_changes(
                        front[k],
                        definition_of(desired, front[k]),
                        actual,
                    ).contains(change);
                assert(service_changes(names[k], definition_of(desired, names[k]), actual).contains(
                    change,
                ));
            } else {
                assert(tail[i - head.len()] == change);
                assert(service_changes(
                    names[names.len() - 1],
                    definition_of(desired, names[names.len() - 1]),
                    actual,
                ).contains(change));
            }
        }
        if exists|k: int|
            0 <= k < names.len() && #[trigger] service_changes(
                names[k],
                definition_of(desired, names[k]),
                actual,
            ).contains(change) {
            let k = choose|k: int|
                0 <= k < names.len() && #[trigger] service_changes(
                    names[k],
                    definition_of(desired, names[k]),
                    actual,
                ).contains(change);
            if k < front.len() {
                assert(service_changes(front[k], definition_of(desired, front[k]), actual).contains(
                    change,
                ));
                assert(head.contains(change));
                let i = choose|i: int| 0 <= i < head.len() && head[i] == change;
                assert(all[i] == change);
            } else {
                let i = choose|i: int| 0 <= i < tail.len() && tail[i] == change;
                assert(all[head.len() + i] == change);
            }
        }
    }
}

/// Each of the changes for the services `names` is about one of them.
pub proof fn changes_of_concern(
    names: Seq<Seq<char>>,
    desired: Seq<Service>,
    actual: Seq<Container>,
    i: int,
)
    requires
        0 <= i < changes_of(names, desired, actual).len(),
    ensures
        names.contains(changes_of(names, desired, actual)[i].service_name()),
{
    let changes = changes_of(names, desired, actual);
    assert(changes.contains(changes[i]));
    changes_of_holds(names, desired, actual, changes[i]);
    let k = choose|k: int|
        0 <= k < names.len() && #[trigger] service_changes(
            names[k],
            definition_of(desired, names[k]),
            actual,
        ).contains(changes[i]);
    let own = service_changes(names[k], definition_of(desired, names[k]), actual);
    let at = choose|at: int| 0 <= at < own.len() && own[at] == changes[i];
    service_changes_are_its_own(names[k], definition_of(desired, names[k]), actual, at);
}

/// In `changes`, each addition for service `name` comes before each removal
/// for it.
pub open spec fn additions_come_first(changes: Seq<Change>, name: Seq<char>) -> bool {
    forall|i: int, j: int|
        0 <= i < changes.len() && 0 <= j < changes.len() && (#[trigger] changes[i]) is Add && (
        #[trigger] changes[j]) is Remove && changes[i].service_name() == name
            && changes[j].service_name() == name ==> i < j
}

/// In `changes`, each removal for service `name` comes before each addition
/// for it.
pub open spec fn removals_come_first(changes: Seq<Change>, name: Seq<char>) -> bool {
    forall|i: int, j: int|
        0 <= i < changes.len() && 0 <= j < changes.len() && (#[trigger] changes[i]) is Add && (
        #[trigger] changes[j]) is Remove && changes[i].service_name() == name
            && changes[j].service_name() == name ==> j < i
}

/// `changes` follow the order that `definition` asks for service `name`.
pub open spec fn follows_order(changes: Seq<Change>, name: Seq<char>, definition: Definition) -> bool {
    match definition.update_order {
        OperationOrder::StartFirst => additions_come_first(changes, name),
        OperationOrder::StopFirst => removals_come_first(changes, name),
    }
}

/// The changes for one service follow the order that the service asks for.
proof fn service_changes_follow_order(name: Seq<char>, definition: Definition, actual: Seq<Container>)
    ensures
        follows_order(service_changes(name, Some(definition), actual), name, definition),
{
    let changes = service_changes(name, Some(definition), actual);
    let staying = keeps(name, definition, actual);
    let adding = additions(name, definition, actual);
    let going = removals(name, Some(definition), actual);
    assert forall|i: int, j: int|
        0 <= i < changes.len() && 0 <= j < changes.len() && (#[trigger] changes[i]) is Add && (
        #[trigger] changes[j]) is Remove implies match definition.update_order {
        OperationOrder::StartFirst => i < j,
        OperationOrder::StopFirst => j < i,
    } by {
        match definition.update_order {
            OperationOrder::StartFirst => {
                if i < staying.len() {
                    assert(changes[i] == staying[i]);
                } else if i >= staying.len() + adding.len() {
                    assert(changes[i] == going[i - staying.len() - adding.len()]);
                }
                if j < staying.len() {
                    assert(changes[j] == staying[j]);
                } else if j < staying.len() + adding.len() {
                    assert(changes[j] == adding[j - staying.len()]);
                }
            },
            OperationOrder::StopFirst => {
                if i < staying.len() {
                    assert(changes[i] == staying[i]);
                } else if i < staying.len() + going.len() {
                    assert(changes[i] == going[i - staying.len()]);
                }
                if j < staying.len() {
                    assert(changes[j] == staying[j]);
                } else if j >= staying.len() + going.len() {
                    assert(changes[j] == adding[j - staying.len() - going.len()]);
                }
            },
        }
    }
}

/// The changes for several services, none named twice, follow the order
/// that each of them asks for.
proof fn changes_of_follow_order(
    names: Seq<Seq<char>>,
    desired: Seq<Service>,
    actual: Seq<Container>,
    name: Seq<char>,
    definition: Definition,
)
    requires
        names.no_duplicates(),
        definition_of(desired, name) == Some(definition),
    ensures
        follows_order(changes_of(names, desired, actual), name, definition),
    decreases names.len(),
{
    let all = changes_of(names, desired, actual);
    if names.len() > 0 {
        let front = names.drop_last();
        let last = names.last();
        let head = changes_of(front, desired, actual);
        let tail = service_changes(last, definition_of(desired, last), actual);
        changes_of_follow_order(front, desired, actual, name, definition);
        if last == name {
            service_changes_follow_order(name, definition, actual);
        }
        assert forall|i: int, j: int|
            0 <= i < all.len() && 0 <= j < all.len() && (#[trigger] all[i]) is Add && (
            #[trigger] all[j]) is Remove && all[i].service_name() == name && all[j].service_name()
                == name implies match definition.update_order {
            OperationOrder::StartFirst => i < j,
            OperationOrder::StopFirst => j < i,
        } by {
            if i < head.len() {
                assert(all[i] == head[i]);
                changes_of_concern(front, desired, actual, i);
            } else {
                assert(all[i] == tail[i - head.len()]);
                service_changes_are_its_own(last, definition_of(desired, last), actual, i - head.len());
            }
            if j < head.len() {
                assert(all[j] == head[j]);
                changes_of_concern(front, desired, actual, j);
            } else {
                assert(all[j] == tail[j - head.len()]);
                service_changes_are_its_own(last, definition_of(desired, last), actual, j - head.len());
            }
            if front.contains(name) && last == name {
                let k = choose|k: int| 0 <= k < front.len() && front[k] == name;
                assert(names[k] == names[names.len() - 1]);
            }
        }
    }
}

/// Where a wanted service starts first, each addition for it comes before
/// each removal for it among the changes from `actual` to `desired`; where
/// it stops first, each removal for it comes before each addition for it.
pub proof fn update_order_is_followed(desired: Seq<Service>, actual: Seq<Container>, index: int)
    requires
        is_desired(desired),
        0 <= index < desired.len(),
    ensures
        follows_order(plan(desired, actual), desired[index].name, desired[index].definition),
{
    let names = service_names(desired, actual);
    service_names_ascend(desired, actual);
    text_order_is_total();
    ascending_has_no_duplicates(names, by_text());
    definition_at(desired, index);
    changes_of_follow_order(names, desired, actual, desired[index].name, desired[index].definition);
}

/// No service is taken twice, and each wanted service is taken.
proof fn service_names_differ(desired: Seq<Service>, actual: Seq<Container>)
    requires
        is_desired(desired),
    ensures
        service_names(desired, actual).no_duplicates(),
        forall|i: int|
            0 <= i < desired.len() ==> service_names(desired, actual).contains(
                (#[trigger] desired[i]).name,
            ),
{
    let names = service_names(desired, actual);
    service_names_ascend(desired, actual);
    assert(names.no_duplicates()) by {
        text_order_is_total();
        ascending_has_no_duplicates(names, by_text());
    }
    assert forall|i: int| 0 <= i < desired.len() implies names.contains(
        (#[trigger] desired[i]).name,
    ) by {
        assert(names_of(desired)[i] == desired[i].name);
        assert(names_of(desired).contains(desired[i].name));
    }
}

/// Determinism. The changes depend on nothing but the services that are
/// wanted and the containers that run: two reconciliations of the same
/// services and containers give the same changes in the same order.
pub proof fn reconciliation_is_deterministic(
    first_desired: Seq<Service>,
    first_actual: Seq<Container>,
    second_desired: Seq<Service>,
    second_actual: Seq<Container>,
)
    requires
        first_desired == second_desired,
        first_actual == second_actual,
    ensures
        plan(first_desired, first_actual) == plan(second_desired, second_actual),
{
}

/// The test for the changes that keep or add a container of service `name`.
pub open spec fn provides(name: Seq<char>) -> spec_fn(Change) -> bool {
    |change: Change| (change is Keep || change is Add) && change.service_name() == name
}

/// Among the changes from `actual` to `desired`, those that keep or add a
/// container of a wanted service are as many as the service wants replicas.
pub proof fn kept_and_added_make_the_replicas(
    desired: Seq<Service>,
    actual: Seq<Container>,
    index: int,
)
    requires
        is_desired(desired),
        0 <= index < desired.len(),
    ensures
        plan(desired, actual).filter(provides(desired[index].name)).len()
            == desired[index].definition.replica_count,
{
    let name = desired[index].name;
    let definition = desired[index].definition;
    let names = service_names(desired, actual);
    let staying = keeps(name, definition, actual);
    let adding = additions(name, definition, actual);
    let going = removals(name, Some(definition), actual);
    let test = provides(name);
    service_names_differ(desired, actual);
    definition_at(desired, index);
    changes_of_filter(names, desired, actual, name, test);
    assert forall|i: int| 0 <= i < staying.len() implies test(#[trigger] staying[i]) by {
        kept_are_current(name, definition, actual, i);
    }
    filter_takes_all(staying, test);
    filter_takes_all(adding, test);
    filter_takes_none(going, test);
    match definition.update_order {
        OperationOrder::StartFirst => {
            Seq::filter_distributes_over_add(staying + adding, going, test);
            Seq::filter_distributes_over_add(staying, adding, test);
        },
        OperationOrder::StopFirst => {
            Seq::filter_distributes_over_add(staying + going, adding, test);
            Seq::filter_distributes_over_add(staying, going, test);
        },
    }
    let current = actual.filter(is_current(name, definition.service_config_hash));
    assert(kept(name, definition, actual).len() == kept_count(definition, current));
}

/// The changes from `actual` to `desired` remove every container that runs
/// with another configuration than its service wants.
pub proof fn stale_are_removed(desired: Seq<Service>, actual: Seq<Container>, i: int)
    requires
        is_desired(desired),
        0 <= i < actual.len(),
        definition_of(desired, actual[i].service_name) is Some,
        definition_of(desired, actual[i].service_name)->0.service_config_hash
            != actual[i].service_config_hash,
    ensures
        plan(desired, actual).contains(remove(actual[i])),
{
    let name = actual[i].service_name;
    let definition = definition_of(desired, name)->0;
    let hash = definition.service_config_hash;
    let names = service_names(desired, actual);
    service_names_ascend(desired, actual);
    assert(runs_service(actual, name));
    assert(names.contains(name));
    let k = choose|k: int| 0 <= k < names.len() && names[k] == name;
    let current = actual.filter(is_current(name, hash));
    let stale = actual.filter(is_stale(name, hash));
    let going = removed(name, Some(definition), actual);
    actual.lemma_filter_contains(is_stale(name, hash), i);
    let at = choose|at: int| 0 <= at < stale.len() && stale[at] == actual[i];
    let place = current.len() - kept_count(definition, current) + at;
    assert(going[place] == actual[i]);
    let staying = keeps(name, definition, actual);
    let adding = additions(name, definition, actual);
    let block = service_changes(name, Some(definition), actual);
    let block_place: int = match definition.update_order {
        OperationOrder::StartFirst => staying.len() + adding.len() + place,
        OperationOrder::StopFirst => staying.len() + place,
    };
    assert(block[block_place] == remove(actual[i]));
    assert(service_changes(names[k], definition_of(desired, names[k]), actual).contains(
        remove(actual[i]),
    ));
    changes_of_holds(names, desired, actual, remove(actual[i]));
}

/// One of `changes` removes the container with the identity `container_id`.
pub open spec fn removes(changes: Seq<Change>, container_id: Seq<char>) -> bool {
    exists|j: int|
        0 <= j < changes.len() && (#[trigger] changes[j]) is Remove && changes[j]->Remove_container_id
            == container_id
}

/// The test for the containers that none of `changes` removes.
pub open spec fn survives(changes: Seq<Change>) -> spec_fn(Container) -> bool {
    |container: Container| !removes(changes, container.container_id)
}

/// The test for the changes that add a container.
pub open spec fn is_addition() -> spec_fn(Change) -> bool {
    |change: Change| change is Add
}

/// The containers that the additions among `changes` start, where the engine
/// gives them the identities `ids`, one after the other.
pub open spec fn started(changes: Seq<Change>, ids: Seq<Seq<char>>) -> Seq<Container> {
    let added = changes.filter(is_addition());
    Seq::new(
        added.len(),
        |k: int|
            Container {
                container_id: ids[k],
                service_config_hash: added[k]->Add_service_config_hash,
                service_name: added[k].service_name(),
            },
    )
}

/// What runs once `changes` are made to the containers `actual`: those that
/// no change removes, and those that the additions start.
pub open spec fn applied(actual: Seq<Container>, changes: Seq<Change>, ids: Seq<Seq<char>>) -> Seq<
    Container,
> {
    actual.filter(survives(changes)) + started(changes, ids)
}

/// No change removes a container by an identity under which another change
/// keeps one.
pub open spec fn spares_what_is_kept(changes: Seq<Change>) -> bool {
    forall|i: int, j: int|
        0 <= i < changes.len() && 0 <= j < changes.len() && (#[trigger] changes[i]) is Keep && (
        #[trigger] changes[j]) is Remove ==> changes[i]->Keep_container_id
            != changes[j]->Remove_container_id
}

/// No two of `containers` have the same identity.
pub open spec fn identities_differ(containers: Seq<Container>) -> bool {
    forall|i: int, j: int|
        0 <= i < j < containers.len() ==> (#[trigger] containers[i]).container_id != (
        #[trigger] containers[j]).container_id
}

/// The containers that go are not among those that stay.
proof fn removed_are_not_kept(
    name: Seq<char>,
    definition: Definition,
    other: Seq<char>,
    wanted: Option<Definition>,
    actual: Seq<Container>,
    i: int,
    j: int,
)
    requires
        actual.no_duplicates(),
        name == other ==> wanted == Some(definition),
        0 <= i < kept(name, definition, actual).len(),
        0 <= j < removed(other, wanted, actual).len(),
    ensures
        kept(name, definition, actual)[i] != removed(other, wanted, actual)[j],
{
    kept_are_current(name, definition, actual, i);
    removed_belong(other, wanted, actual, j);
    if name == other {
        let hash = definition.service_config_hash;
        let current = actual.filter(is_current(name, hash));
        let stale = actual.filter(is_stale(name, hash));
        let count = kept_count(definition, current);
        if j < current.len() - count {
            filter_keeps_distinct(actual, is_current(name, hash));
            assert(current[i] != current[count + j]);
        } else {
            actual.lemma_filter_pred(is_stale(name, hash), j - (current.len() - count));
        }
    }
}

/// Where no two containers have the same identity, no change removes a
/// container by an identity under which another change keeps one.
pub proof fn distinct_identities_spare_what_is_kept(desired: Seq<Service>, actual: Seq<Container>)
    requires
        is_desired(desired),
        identities_differ(actual),
    ensures
        spares_what_is_kept(plan(desired, actual)),
{
    let changes = plan(desired, actual);
    assert(actual.no_duplicates());
    assert forall|i: int, j: int|
        0 <= i < changes.len() && 0 <= j < changes.len() && (#[trigger] changes[i]) is Keep && (
        #[trigger] changes[j]) is Remove implies changes[i]->Keep_container_id
        != changes[j]->Remove_container_id by {
        plan_holds_service_changes(desired, actual, i);
        plan_holds_service_changes(desired, actual, j);
        let name = changes[i].service_name();
        let other = changes[j].service_name();
        let definition = definition_of(desired, name)->0;
        let wanted = definition_of(desired, other);
        let staying = kept(name, definition, actual);
        let going = removed(other, wanted, actual);
        let a = choose|a: int| 0 <= a < staying.len() && changes[i] == keep(#[trigger] staying[a]);
        let b = choose|b: int| 0 <= b < going.len() && changes[j] == remove(#[trigger] going[b]);
        removed_are_not_kept(name, definition, other, wanted, actual, a, b);
        kept_are_current(name, definition, actual, a);
        removed_belong(other, wanted, actual, b);
        let x = choose|x: int| 0 <= x < actual.len() && actual[x] == staying[a];
        let y = choose|y: int| 0 <= y < actual.len() && actual[y] == going[b];
        if x < y {
            assert(actual[x].container_id != actual[y].container_id);
        } else if y < x {
            assert(actual[y].container_id != actual[x].container_id);
        }
    }
}

/// Of the changes for the services `names`, none named twice, a test that
/// only changes for service `name` pass takes out what it takes out of the
/// changes for that service.
proof fn changes_of_filter(
    names: Seq<Seq<char>>,
    desired: Seq<Service>,
    actual: Seq<Container>,
    name: Seq<char>,
    test: spec_fn(Change) -> bool,
)
    requires
        names.no_duplicates(),
        forall|change: Change| #[trigger] test(change) ==> change.service_name() == name,
    ensures
        changes_of(names, desired, actual).filter(test) == if names.contains(name) {
            service_changes(name, definition_of(desired, name), actual).filter(test)
        } else {
            Seq::<Change>::empty()
        },
    decreases names.len(),
{
    if names.len() == 0 {
        filter_takes_none(changes_of(names, desired, actual), test);
    } else {
        let front = names.drop_last();
        let last = names.last();
        let head = changes_of(front, desired, actual);
        let tail = service_changes(last, definition_of(desired, last), actual);
        changes_of_filter(front, desired, actual, name, test);
        Seq::filter_distributes_over_add(head, tail, test);
        if front.contains(name) {
            let k = choose|k: int| 0 <= k < front.len() && front[k] == name;
            assert(names[k] == name);
        }
        if last == name {
            assert(names[names.len() - 1] == name);
            if front.contains(name) {
                let k = choose|k: int| 0 <= k < front.len() && front[k] == name;
                assert(names[k] == names[names.len() - 1]);
            }
            assert(head.filter(test) + tail.filter(test) =~= tail.filter(test));
        } else {
            assert forall|i: int| 0 <= i < tail.len() implies !test(#[trigger] tail[i]) by {
                service_changes_are_its_own(last, definition_of(desired, last), actual, i);
            }
            filter_takes_none(tail, test);
            assert(head.filter(test) + tail.filter(test) =~= head.filter(test));
            if names.contains(name) {
                let k = choose|k: int| 0 <= k < names.len() && names[k] == name;
                assert(front[k] == name);
            }
        }
    }
}

/// The test for the additions for service `name` with the configuration
/// `hash`.
pub open spec fn adds_current(name: Seq<char>, hash: Seq<char>) -> spec_fn(Change) -> bool {
    |change: Change|
        change is Add && change.service_name() == name && change->Add_service_config_hash == hash
}

/// The test for the additions for service `name` with another configuration
/// than `hash`.
pub open spec fn adds_stale(name: Seq<char>, hash: Seq<char>) -> spec_fn(Change) -> bool {
    |change: Change|
        change is Add && change.service_name() == name && change->Add_service_config_hash != hash
}

/// Among the changes for a wanted service, the additions are those for the
/// missing containers, all with the wanted configuration.
proof fn additions_in_service_changes(name: Seq<char>, definition: Definition, actual: Seq<Container>)
    ensures
        service_changes(name, Some(definition), actual).filter(
            adds_current(name, definition.service_config_hash),
        ) == additions(name, definition, actual),
        service_changes(name, Some(definition), actual).filter(
            adds_stale(name, definition.service_config_hash),
        ) == Seq::<Change>::empty(),
{
    let hash = definition.service_config_hash;
    let staying = keeps(name, definition, actual);
    let adding = additions(name, definition, actual);
    let going = removals(name, Some(definition), actual);
    let current = adds_current(name, hash);
    let stale = adds_stale(name, hash);
    filter_takes_none(staying, current);
    filter_takes_none(staying, stale);
    filter_takes_all(adding, current);
    filter_takes_none(adding, stale);
    filter_takes_none(going, current);
    filter_takes_none(going, stale);
    match definition.update_order {
        OperationOrder::StartFirst => {
            Seq::filter_distributes_over_add(staying + adding, going, current);
            Seq::filter_distributes_over_add(staying, adding, current);
            Seq::filter_distributes_over_add(staying + adding, going, stale);
            Seq::filter_distributes_over_add(staying, adding, stale);
        },
        OperationOrder::StopFirst => {
            Seq::filter_distributes_over_add(staying + going, adding, current);
            Seq::filter_distributes_over_add(staying, going, current);
            Seq::filter_distributes_over_add(staying + going, adding, stale);
            Seq::filter_distributes_over_add(staying, going, stale);
        },
    }
    assert(Seq::<Change>::empty() + adding + Seq::<Change>::empty() =~= adding);
    assert(Seq::<Change>::empty() + Seq::<Change>::empty() + adding =~= adding);
    assert(Seq::<Change>::empty() + Seq::<Change>::empty() + Seq::<Change>::empty()
        =~= Seq::<Change>::empty());
}

/// Among the changes from `actual` to `desired`, the additions for a wanted
/// service are as many as it misses, and all have the wanted configuration.
proof fn additions_in_plan(desired: Seq<Service>, actual: Seq<Container>, index: int)
    requires
        is_desired(desired),
        0 <= index < desired.len(),
    ensures
        plan(desired, actual).filter(is_addition()).filter(
            adds_current(desired[index].name, desired[index].definition.service_config_hash),
        ) == additions(desired[index].name, desired[index].definition, actual),
        plan(desired, actual).filter(is_addition()).filter(
            adds_stale(desired[index].name, desired[index].definition.service_config_hash),
        ) == Seq::<Change>::empty(),
{
    let name = desired[index].name;
    let definition = desired[index].definition;
    let hash = definition.service_config_hash;
    let names = service_names(desired, actual);
    let changes = plan(desired, actual);
    service_names_differ(desired, actual);
    definition_at(desired, index);
    filter_within(changes, is_addition(), adds_current(name, hash));
    filter_within(changes, is_addition(), adds_stale(name, hash));
    changes_of_filter(names, desired, actual, name, adds_current(name, hash));
    changes_of_filter(names, desired, actual, name, adds_stale(name, hash));
    additions_in_service_changes(name, definition, actual);
}

/// Of the containers that the additions start, as many are current
/// containers of a wanted service as that service misses, and none is a
/// stale one of it.
proof fn started_are_current(
    desired: Seq<Service>,
    actual: Seq<Container>,
    ids: Seq<Seq<char>>,
    index: int,
)
    requires
        is_desired(desired),
        0 <= index < desired.len(),
    ensures
        started(plan(desired, actual), ids).filter(
            is_current(desired[index].name, desired[index].definition.service_config_hash),
        ).len() == missing(desired[index].name, desired[index].definition, actual),
        started(plan(desired, actual), ids).filter(
            is_stale(desired[index].name, desired[index].definition.service_config_hash),
        ).len() == 0,
{
    let name = desired[index].name;
    let definition = desired[index].definition;
    let hash = definition.service_config_hash;
    let changes = plan(desired, actual);
    let added = changes.filter(is_addition());
    let new = started(changes, ids);
    additions_in_plan(desired, actual, index);
    filters_count_alike(new, added, is_current(name, hash), adds_current(name, hash));
    filters_count_alike(new, added, is_stale(name, hash), adds_stale(name, hash));
    let current = actual.filter(is_current(name, hash));
    assert(kept(name, definition, actual).len() == kept_count(definition, current));
}

/// Of the containers that no change removes, the current ones of a wanted
/// service are those that the service keeps, and none is a stale one of it.
proof fn survivors_are_kept(desired: Seq<Service>, actual: Seq<Container>, index: int)
    requires
        is_desired(desired),
        0 <= index < desired.len(),
        spares_what_is_kept(plan(desired, actual)),
    ensures
        actual.filter(survives(plan(desired, actual))).filter(
            is_current(desired[index].name, desired[index].definition.service_config_hash),
        ) == kept(desired[index].name, desired[index].definition, actual),
        actual.filter(survives(plan(desired, actual))).filter(
            is_stale(desired[index].name, desired[index].definition.service_config_hash),
        ) == Seq::<Container>::empty(),
{
    let name = desired[index].name;
    let definition = desired[index].definition;
    let hash = definition.service_config_hash;
    let names = service_names(desired, actual);
    let changes = plan(desired, actual);
    let alive = survives(changes);
    let block = service_changes(name, Some(definition), actual);
    service_names_differ(desired, actual);
    definition_at(desired, index);
    let at = choose|at: int| 0 <= at < names.len() && names[at] == name;
    let current = actual.filter(is_current(name, hash));
    let stale = actual.filter(is_stale(name, hash));
    let count = kept_count(definition, current);
    let staying = keeps(name, definition, actual);
    let adding = additions(name, definition, actual);
    let going = removals(name, Some(definition), actual);
    assert forall|i: int| 0 <= i < going.len() implies !alive(
        #[trigger] removed(name, Some(definition), actual)[i],
    ) by {
        let change = going[i];
        let place: int = match definition.update_order {
            OperationOrder::StartFirst => staying.len() + adding.len() + i,
            OperationOrder::StopFirst => staying.len() + i,
        };
        assert(block[place] == change);
        assert(service_changes(names[at], definition_of(desired, names[at]), actual).contains(change));
        changes_of_holds(names, desired, actual, change);
        let j = choose|j: int| 0 <= j < changes.len() && changes[j] == change;
        assert(changes[j] is Remove);
    }
    assert forall|i: int| 0 <= i < count implies alive(#[trigger] current[i]) by {
        let change = staying[i];
        assert(block[i] == change);
        assert(service_changes(names[at], definition_of(desired, names[at]), actual).contains(change));
        changes_of_holds(names, desired, actual, change);
        let k = choose|k: int| 0 <= k < changes.len() && changes[k] == change;
        assert(changes[k] is Keep);
        if removes(changes, current[i].container_id) {
            let j = choose|j: int|
                0 <= j < changes.len() && (#[trigger] changes[j]) is Remove
                    && changes[j]->Remove_container_id == current[i].container_id;
            assert(changes[k]->Keep_container_id != changes[j]->Remove_container_id);
        }
    }
    assert forall|i: int| count <= i < current.len() implies !alive(#[trigger] current[i]) by {
        assert(removed(name, Some(definition), actual)[i - count] == current[i]);
    }
    assert forall|i: int| 0 <= i < stale.len() implies !alive(#[trigger] stale[i]) by {
        assert(removed(name, Some(definition), actual)[current.len() - count + i] == stale[i]);
    }
    filter_commutes(actual, alive, is_current(name, hash));
    filter_takes_front(current, alive, count);
    filter_commutes(actual, alive, is_stale(name, hash));
    filter_takes_none(stale, alive);
}

/// Convergence. Once the changes from `actual` to `desired` are made (each
/// container that a change removes is gone, and each addition has started a
/// container under a new identity), every wanted service has as many
/// current containers as it wants and no stale one. This holds where no
/// change removes a container by an identity under which another is kept.
pub proof fn reconciliation_converges(
    desired: Seq<Service>,
    actual: Seq<Container>,
    ids: Seq<Seq<char>>,
    index: int,
)
    requires
        is_desired(desired),
        0 <= index < desired.len(),
        spares_what_is_kept(plan(desired, actual)),
    ensures
        applied(actual, plan(desired, actual), ids).filter(
            is_current(desired[index].name, desired[index].definition.service_config_hash),
        ).len() == desired[index].definition.replica_count,
        applied(actual, plan(desired, actual), ids).filter(
            is_stale(desired[index].name, desired[index].definition.service_config_hash),
        ).len() == 0,
{
    let name = desired[index].name;
    let hash = desired[index].definition.service_config_hash;
    let changes = plan(desired, actual);
    let left = actual.filter(survives(changes));
    let new = started(changes, ids);
    survivors_are_kept(desired, actual, index);
    started_are_current(desired, actual, ids, index);
    Seq::filter_distributes_over_add(left, new, is_current(name, hash));
    Seq::filter_distributes_over_add(left, new, is_stale(name, hash));
}

/// The identities `ids` can be those of the containers that the additions
/// among `changes` start: one for each addition, no two alike, and none that
/// a container of `actual` has.
pub open spec fn are_new(ids: Seq<Seq<char>>, changes: Seq<Change>, actual: Seq<Container>) -> bool {
    &&& ids.len() == changes.filter(is_addition()).len()
    &&& ids.no_duplicates()
    &&& forall|k: int, i: int|
        0 <= k < ids.len() && 0 <= i < actual.len() ==> #[trigger] ids[k] != (
        #[trigger] actual[i]).container_id
}

/// A set of containers holds none twice.
proof fn state_has_no_duplicates(containers: Seq<Container>)
    requires
        is_state(containers),
    ensures
        containers.no_duplicates(),
{
    container_order_is_total();
    ascending_has_no_duplicates(containers, by_container());
}

/// What runs once the changes are made, with new identities for what was
/// started, holds no container twice.
proof fn applied_has_no_duplicates(actual: Seq<Container>, changes: Seq<Change>, ids: Seq<Seq<char>>)
    requires
        is_state(actual),
        are_new(ids, changes, actual),
    ensures
        applied(actual, changes, ids).no_duplicates(),
{
    let left = actual.filter(survives(changes));
    let new = started(changes, ids);
    filter_keeps_ascending(actual, by_container(), survives(changes));
    state_has_no_duplicates(left);
    assert forall|i: int, j: int| 0 <= i < new.len() && 0 <= j < new.len() && i != j implies new[i]
        != new[j] by {
        assert(new[i].container_id == ids[i]);
        assert(new[j].container_id == ids[j]);
    }
    assert forall|i: int, j: int| 0 <= i < left.len() && 0 <= j < new.len() implies left[i]
        != new[j] by {
        assert(left.contains(left[i]));
        actual.lemma_filter_contains_rev(survives(changes), left[i]);
        let k = choose|k: int| 0 <= k < actual.len() && actual[k] == left[i];
        assert(ids[j] != actual[k].container_id);
    }
    vstd::seq_lib::lemma_no_dup_in_concat(left, new);
}

/// Each change among the changes from `actual` to `desired` is one of the
/// changes of a service that is wanted or has a container.
proof fn plan_holds_service_changes(desired: Seq<Service>, actual: Seq<Container>, at: int)
    requires
        0 <= at < plan(desired, actual).len(),
    ensures
        is_change_of(
            plan(desired, actual)[at],
            plan(desired, actual)[at].service_name(),
            definition_of(desired, plan(desired, actual)[at].service_name()),
            actual,
        ),
{
    let names = service_names(desired, actual);
    let changes = plan(desired, actual);
    assert(changes.contains(changes[at]));
    changes_of_holds(names, desired, actual, changes[at]);
    let k = choose|k: int|
        0 <= k < names.len() && #[trigger] service_changes(
            names[k],
            definition_of(desired, names[k]),
            actual,
        ).contains(changes[at]);
    let own = service_changes(names[k], definition_of(desired, names[k]), actual);
    let i = choose|i: int| 0 <= i < own.len() && own[i] == changes[at];
    service_changes_are_its_own(names[k], definition_of(desired, names[k]), actual, i);
}

/// The changes from `actual` to `desired` remove every container of a
/// service of which nothing is wanted.
pub proof fn unwanted_are_removed(desired: Seq<Service>, actual: Seq<Container>, i: int)
    requires
        is_desired(desired),
        0 <= i < actual.len(),
        definition_of(desired, actual[i].service_name) is None,
    ensures
        plan(desired, actual).contains(remove(actual[i])),
{
    let name = actual[i].service_name;
    let names = service_names(desired, actual);
    service_names_ascend(desired, actual);
    assert(runs_service(actual, name));
    assert(names.contains(name));
    let k = choose|k: int| 0 <= k < names.len() && names[k] == name;
    let going = removed(name, None, actual);
    actual.lemma_filter_contains(belongs_to(name), i);
    let at = choose|at: int| 0 <= at < going.len() && going[at] == actual[i];
    let block = service_changes(name, None, actual);
    assert(block[at] == remove(actual[i]));
    assert(service_changes(names[k], definition_of(desired, names[k]), actual).contains(
        remove(actual[i]),
    ));
    changes_of_holds(names, desired, actual, remove(actual[i]));
}

/// Once the changes from `actual` to `desired` are made, only containers of
/// wanted services run.
proof fn applied_are_wanted(
    desired: Seq<Service>,
    actual: Seq<Container>,
    ids: Seq<Seq<char>>,
    container: Container,
)
    requires
        is_desired(desired),
        applied(actual, plan(desired, actual), ids).contains(container),
    ensures
        definition_of(desired, container.service_name) is Some,
{
    let changes = plan(desired, actual);
    let left = actual.filter(survives(changes));
    let new = started(changes, ids);
    let all = applied(actual, changes, ids);
    let at = choose|at: int| 0 <= at < all.len() && all[at] == container;
    if at < left.len() {
        assert(left[at] == container);
        filter_holds(actual, survives(changes), container);
        let i = choose|i: int| 0 <= i < actual.len() && actual[i] == container;
        if definition_of(desired, container.service_name) is None {
            unwanted_are_removed(desired, actual, i);
            let j = choose|j: int| 0 <= j < changes.len() && changes[j] == remove(container);
            assert(changes[j] is Remove);
            assert(removes(changes, container.container_id));
        }
    } else {
        let k = at - left.len();
        let added = changes.filter(is_addition());
        assert(new[k] == container);
        changes.lemma_filter_pred(is_addition(), k);
        assert(added.contains(added[k]));
        changes.lemma_filter_contains_rev(is_addition(), added[k]);
        let j = choose|j: int| 0 <= j < changes.len() && changes[j] == added[k];
        plan_holds_service_changes(desired, actual, j);
    }
}

/// The changes for a service that has as many current containers as it
/// wants, and no stale one, leave all of them alone.
proof fn settled_service_is_kept(name: Seq<char>, definition: Definition, actual: Seq<Container>, i: int)
    requires
        actual.filter(is_current(name, definition.service_config_hash)).len()
            == definition.replica_count,
        actual.filter(is_stale(name, definition.service_config_hash)).len() == 0,
        0 <= i < service_changes(name, Some(definition), actual).len(),
    ensures
        service_changes(name, Some(definition), actual)[i] is Keep,
{
    let staying = keeps(name, definition, actual);
    let adding = additions(name, definition, actual);
    let going = removals(name, Some(definition), actual);
    assert(adding.len() == 0);
    assert(going.len() == 0);
    assert(service_changes(name, Some(definition), actual) =~= staying);
}

/// Idempotence. Once the changes from `actual` to `desired` are made, a
/// second reconciliation finds nothing to add and nothing to remove: each of
/// its changes leaves a container alone. `after` is what then runs, where
/// the started containers have the new identities `ids`. This holds where
/// no change removes a container by an identity under which another is kept.
pub proof fn reconciliation_settles(
    desired: Seq<Service>,
    actual: Seq<Container>,
    ids: Seq<Seq<char>>,
    after: Seq<Container>,
    at: int,
)
    requires
        is_desired(desired),
        is_state(actual),
        spares_what_is_kept(plan(desired, actual)),
        are_new(ids, plan(desired, actual), actual),
        is_state(after),
        after.to_set() == applied(actual, plan(desired, actual), ids).to_set(),
        0 <= at < plan(desired, after).len(),
    ensures
        plan(desired, after)[at] is Keep,
{
    let changes = plan(desired, actual);
    let made = applied(actual, changes, ids);
    let again = plan(desired, after);
    let names = service_names(desired, after);
    assert(again.contains(again[at]));
    changes_of_holds(names, desired, after, again[at]);
    let k = choose|k: int|
        0 <= k < names.len() && #[trigger] service_changes(
            names[k],
            definition_of(desired, names[k]),
            after,
        ).contains(again[at]);
    let name = names[k];
    let own = service_changes(name, definition_of(desired, name), after);
    let i = choose|i: int| 0 <= i < own.len() && own[i] == again[at];
    service_names_ascend(desired, after);
    assert(names.contains(name));
    assert(definition_of(desired, name) is Some) by {
        if names_of(desired).contains(name) {
            let j = choose|j: int| 0 <= j < names_of(desired).len() && names_of(desired)[j] == name;
            assert(desired[j].name == name);
            definition_at(desired, j);
        } else {
            let j = choose|j: int| 0 <= j < after.len() && (#[trigger] after[j]).service_name == name;
            assert(after.contains(after[j]));
            assert(after.to_set().contains(after[j]));
            assert(made.to_set().contains(after[j]));
            assert(made.contains(after[j]));
            applied_are_wanted(desired, actual, ids, after[j]);
        }
    }
    let definition = definition_of(desired, name)->0;
    definition_is_held(desired, name);
    let index = choose|index: int|
        0 <= index < desired.len() && #[trigger] desired[index] == (Service { name, definition });
    reconciliation_converges(desired, actual, ids, index);
    applied_has_no_duplicates(actual, changes, ids);
    state_has_no_duplicates(after);
    same_items_count_alike(after, made, is_current(name, definition.service_config_hash));
    same_items_count_alike(after, made, is_stale(name, definition.service_config_hash));
    settled_service_is_kept(name, definition, after, i);
}

} // verus!
