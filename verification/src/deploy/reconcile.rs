//! From what runs and what is wanted to the changes that close the gap.
//!
//! Services are taken by ascending name. Of the containers of a service,
//! those that run with the wanted configuration are current; the first of
//! them, in ascending order and up to the wanted number, are kept. The other
//! current ones and all that run with another configuration are removed, and
//! as many are added as are then missing. Additions and removals of one
//! service follow each other in the order that the service asks for.

use crate::deploy::model::{
    definition_of, is_desired, is_state, names_of, ActualContainer, ActualContainers, Change,
    Container, Definition, DesiredServiceDefinition, DesiredServices, OperationOrder, Service,
    ServiceContainerChange,
};
use crate::ordered::{ascending, filter_keeps_ascending, filter_takes_back, filter_takes_front};
use crate::text::{
    by_text, less, text_less, text_less_asymmetric, text_less_irreflexive, text_less_total,
    text_less_transitive,
};
use vstd::prelude::*;

verus! {

/// The test for the containers of service `name`.
pub open spec fn belongs_to(name: Seq<char>) -> spec_fn(Container) -> bool {
    |container: Container| container.service_name == name
}

/// The test for the containers of service `name` that run with the
/// configuration `hash`.
pub open spec fn is_current(name: Seq<char>, hash: Seq<char>) -> spec_fn(Container) -> bool {
    |container: Container| container.service_name == name && container.service_config_hash == hash
}

/// The test for the containers of service `name` that run with another
/// configuration than `hash`.
pub open spec fn is_stale(name: Seq<char>, hash: Seq<char>) -> spec_fn(Container) -> bool {
    |container: Container| container.service_name == name && container.service_config_hash != hash
}

/// The change that leaves `container` as it is.
pub open spec fn keep(container: Container) -> Change {
    Change::Keep {
        container_id: container.container_id,
        service_config_hash: container.service_config_hash,
        service_name: container.service_name,
    }
}

/// The change that removes `container`.
pub open spec fn remove(container: Container) -> Change {
    Change::Remove {
        container_id: container.container_id,
        service_config_hash: container.service_config_hash,
        service_name: container.service_name,
    }
}

/// How many of the `current` containers of a service stay: all of them, but
/// no more than are wanted.
pub open spec fn kept_count(definition: Definition, current: Seq<Container>) -> int {
    if current.len() <= definition.replica_count {
        current.len() as int
    } else {
        definition.replica_count as int
    }
}

/// The containers of service `name` that stay.
pub open spec fn kept(name: Seq<char>, definition: Definition, actual: Seq<Container>) -> Seq<
    Container,
> {
    let current = actual.filter(is_current(name, definition.service_config_hash));
    current.take(kept_count(definition, current))
}

/// The containers of service `name` that go: first the current ones beyond
/// the wanted number, then those with another configuration. Where nothing is
/// wanted of the service, all of its containers go.
pub open spec fn removed(name: Seq<char>, definition: Option<Definition>, actual: Seq<Container>) -> Seq<
    Container,
> {
    match definition {
        Some(definition) => {
            let current = actual.filter(is_current(name, definition.service_config_hash));
            current.skip(kept_count(definition, current)) + actual.filter(
                is_stale(name, definition.service_config_hash),
            )
        },
        None => actual.filter(belongs_to(name)),
    }
}

/// How many containers of service `name` are to be started.
pub open spec fn missing(name: Seq<char>, definition: Definition, actual: Seq<Container>) -> int {
    definition.replica_count - kept(name, definition, actual).len()
}

/// The changes that start the missing containers of service `name`.
pub open spec fn additions(name: Seq<char>, definition: Definition, actual: Seq<Container>) -> Seq<
    Change,
> {
    Seq::new(
        missing(name, definition, actual) as nat,
        |i: int|
            Change::Add {
                service_config_hash: definition.service_config_hash,
                service_name: name,
            },
    )
}

/// The changes that leave the staying containers of service `name` alone.
pub open spec fn keeps(name: Seq<char>, definition: Definition, actual: Seq<Container>) -> Seq<
    Change,
> {
    kept(name, definition, actual).map_values(|container: Container| keep(container))
}

/// The changes that remove the going containers of service `name`.
pub open spec fn removals(
    name: Seq<char>,
    definition: Option<Definition>,
    actual: Seq<Container>,
) -> Seq<Change> {
    removed(name, definition, actual).map_values(|container: Container| remove(container))
}

/// The changes for service `name`: what stays, then what is added and what
/// is removed, in the order that the service asks for.
pub open spec fn service_changes(
    name: Seq<char>,
    definition: Option<Definition>,
    actual: Seq<Container>,
) -> Seq<Change> {
    match definition {
        Some(wanted) => match wanted.update_order {
            OperationOrder::StartFirst => keeps(name, wanted, actual) + additions(
                name,
                wanted,
                actual,
            ) + removals(name, definition, actual),
            OperationOrder::StopFirst => keeps(name, wanted, actual) + removals(
                name,
                definition,
                actual,
            ) + additions(name, wanted, actual),
        },
        None => removals(name, definition, actual),
    }
}

/// The test for the names that come before `name`.
pub open spec fn comes_before(name: Seq<char>) -> spec_fn(Seq<char>) -> bool {
    |other: Seq<char>| text_less(other, name)
}

/// The test for the names that come after `name`.
pub open spec fn comes_after(name: Seq<char>) -> spec_fn(Seq<char>) -> bool {
    |other: Seq<char>| text_less(name, other)
}

/// The ascending `names` with `name` among them.
pub open spec fn with_name(names: Seq<Seq<char>>, name: Seq<char>) -> Seq<Seq<char>> {
    names.filter(comes_before(name)) + seq![name] + names.filter(comes_after(name))
}

/// The names of all services that are wanted or have a container, ascending.
pub open spec fn service_names(desired: Seq<Service>, actual: Seq<Container>) -> Seq<Seq<char>>
    decreases actual.len(),
{
    if actual.len() == 0 {
        names_of(desired)
    } else {
        with_name(service_names(desired, actual.drop_last()), actual.last().service_name)
    }
}

/// The changes for the services `names`, one service after the other.
pub open spec fn changes_of(names: Seq<Seq<char>>, desired: Seq<Service>, actual: Seq<Container>) -> Seq<
    Change,
>
    decreases names.len(),
{
    if names.len() == 0 {
        Seq::empty()
    } else {
        changes_of(names.drop_last(), desired, actual) + service_changes(
            names.last(),
            definition_of(desired, names.last()),
            actual,
        )
    }
}

/// The changes that lead from the containers `actual` to the services
/// `desired`.
pub open spec fn plan(desired: Seq<Service>, actual: Seq<Container>) -> Seq<Change> {
    changes_of(service_names(desired, actual), desired, actual)
}

/// Where `names` ascend and `at` is the place of the first that does not
/// come before `name`, the names from there on do not come before it either,
/// and all but `name` itself come after it.
proof fn names_from(names: Seq<Seq<char>>, name: Seq<char>, at: int, i: int)
    requires
        ascending(names, by_text()),
        0 <= at <= i < names.len(),
        !text_less(names[at], name),
    ensures
        !text_less(names[i], name),
        names[i] != name ==> text_less(name, names[i]),
        i > at ==> text_less(name, names[i]),
{
    text_less_total(name, names[at]);
    text_less_total(name, names[i]);
    if i > at {
        assert(by_text()(names[at], names[i]));
        if text_less(names[i], name) {
            text_less_transitive(names[at], names[i], name);
        }
        if names[i] == name {
            text_less_asymmetric(names[at], names[i]);
        }
    }
}

/// Where `names` ascend, the names before `name` are those in front of the
/// first that does not come before it, and the names after `name` are those
/// from there on, but for `name` itself.
proof fn split_at_name(names: Seq<Seq<char>>, name: Seq<char>, at: int)
    requires
        ascending(names, by_text()),
        0 <= at <= names.len(),
        forall|i: int| 0 <= i < at ==> text_less(#[trigger] names[i], name),
        at < names.len() ==> !text_less(names[at], name),
    ensures
        names.filter(comes_before(name)) == names.take(at),
        names.filter(comes_after(name)) == if at < names.len() && names[at] == name {
            names.skip(at + 1)
        } else {
            names.skip(at)
        },
{
    let found = at < names.len() && names[at] == name;
    let from: int = if found {
        at + 1
    } else {
        at
    };
    assert forall|i: int| 0 <= i < at implies comes_before(name)(#[trigger] names[i]) by {}
    assert forall|i: int| at <= i < names.len() implies !comes_before(name)(#[trigger] names[i]) by {
        names_from(names, name, at, i);
    }
    filter_takes_front(names, comes_before(name), at);
    assert forall|i: int| 0 <= i < from implies !comes_after(name)(#[trigger] names[i]) by {
        if i < at {
            text_less_asymmetric(names[i], name);
        } else {
            text_less_irreflexive(name);
        }
    }
    assert forall|i: int| from <= i < names.len() implies comes_after(name)(#[trigger] names[i]) by {
        names_from(names, name, at, i);
    }
    filter_takes_back(names, comes_after(name), from);
}

/// Ascending names stay ascending when a name joins them, and hold what they
/// held and the new name.
pub proof fn with_name_ascends(names: Seq<Seq<char>>, name: Seq<char>)
    requires
        ascending(names, by_text()),
    ensures
        ascending(with_name(names, name), by_text()),
        forall|other: Seq<char>| #[trigger]
            with_name(names, name).contains(other) <==> (other == name || names.contains(other)),
{
    let front = names.filter(comes_before(name));
    let back = names.filter(comes_after(name));
    let joined = with_name(names, name);
    filter_keeps_ascending(names, by_text(), comes_before(name));
    filter_keeps_ascending(names, by_text(), comes_after(name));
    assert forall|i: int| 0 <= i < front.len() implies text_less(#[trigger] front[i], name) by {
        names.lemma_filter_pred(comes_before(name), i);
    }
    assert forall|i: int| 0 <= i < back.len() implies text_less(name, #[trigger] back[i]) by {
        names.lemma_filter_pred(comes_after(name), i);
    }
    assert forall|i: int, j: int| 0 <= i < j < joined.len() implies by_text()(
        #[trigger] joined[i],
        #[trigger] joined[j],
    ) by {
        if j < front.len() {
            assert(by_text()(front[i], front[j]));
        } else if j == front.len() {
            assert(text_less(front[i], name));
        } else if i < front.len() {
            text_less_transitive(front[i], name, back[j - front.len() - 1]);
        } else if i == front.len() {
            assert(text_less(name, back[j - front.len() - 1]));
        } else {
            assert(by_text()(back[i - front.len() - 1], back[j - front.len() - 1]));
        }
    }
    assert forall|other: Seq<char>| joined.contains(other) <==> (other == name || names.contains(
        other,
    )) by {
        if joined.contains(other) {
            let k = choose|k: int| 0 <= k < joined.len() && joined[k] == other;
            if k < front.len() {
                assert(front.contains(front[k]));
                names.lemma_filter_contains_rev(comes_before(name), other);
            } else if k > front.len() {
                assert(back.contains(back[k - front.len() - 1]));
                names.lemma_filter_contains_rev(comes_after(name), other);
            }
        }
        if other == name {
            assert(joined[front.len() as int] == name);
        } else if names.contains(other) {
            let k = choose|k: int| 0 <= k < names.len() && names[k] == other;
            text_less_total(other, name);
            if text_less(other, name) {
                names.lemma_filter_contains(comes_before(name), k);
                let m = choose|m: int| 0 <= m < front.len() && front[m] == other;
                assert(joined[m] == other);
            } else {
                names.lemma_filter_contains(comes_after(name), k);
                let m = choose|m: int| 0 <= m < back.len() && back[m] == other;
                assert(joined[front.len() + 1 + m] == other);
            }
        }
    }
}

/// A container of service `name` is among `actual`.
pub open spec fn runs_service(actual: Seq<Container>, name: Seq<char>) -> bool {
    exists|i: int| 0 <= i < actual.len() && (#[trigger] actual[i]).service_name == name
}

/// The services are taken by ascending name, and they are those that are
/// wanted and those that have a container.
pub proof fn service_names_ascend(desired: Seq<Service>, actual: Seq<Container>)
    requires
        is_desired(desired),
    ensures
        ascending(service_names(desired, actual), by_text()),
        forall|name: Seq<char>| #[trigger]
            service_names(desired, actual).contains(name) <==> (names_of(desired).contains(name)
                || runs_service(actual, name)),
    decreases actual.len(),
{
    if actual.len() > 0 {
        let front = actual.drop_last();
        let names = service_names(desired, front);
        let last = actual.last().service_name;
        service_names_ascend(desired, front);
        with_name_ascends(names, last);
        assert(service_names(desired, actual) == with_name(names, last));
        assert forall|name: Seq<char>| #[trigger]
            service_names(desired, actual).contains(name) <==> (names_of(desired).contains(name)
                || runs_service(actual, name)) by {
            assert(with_name(names, last).contains(name) <==> (name == last || names.contains(name)));
            assert(names.contains(name) <==> (names_of(desired).contains(name) || runs_service(
                front,
                name,
            )));
            if runs_service(front, name) {
                let i = choose|i: int| 0 <= i < front.len() && (#[trigger] front[i]).service_name == name;
                assert(actual[i].service_name == name);
            }
            if runs_service(actual, name) {
                let i = choose|i: int|
                    0 <= i < actual.len() && (#[trigger] actual[i]).service_name == name;
                if i < front.len() {
                    assert(front[i].service_name == name);
                }
            }
            if name == last {
                assert(actual[actual.len() - 1].service_name == name);
            }
        }
    } else {
        assert forall|name: Seq<char>| #[trigger]
            service_names(desired, actual).contains(name) <==> (names_of(desired).contains(name)
                || runs_service(actual, name)) by {}
    }
}

/// Puts `name` among the ascending `names`, unless it is there.
fn insert_name(names: &mut Vec<String>, name: &String)
    requires
        ascending(old(names).deep_view(), by_text()),
    ensures
        final(names).deep_view() == with_name(old(names).deep_view(), name@),
{
    let ghost earlier = names.deep_view();
    let mut at: usize = 0;
    while at < names.len() && less(names[at].as_str(), name.as_str())
        invariant
            at <= names.len(),
            names.deep_view() == earlier,
            forall|i: int| 0 <= i < at ==> text_less(#[trigger] earlier[i], name@),
        decreases names.len() - at,
    {
        at += 1;
    }
    proof {
        split_at_name(earlier, name@, at as int);
    }
    if at < names.len() && names[at] == *name {
        assert(earlier =~= with_name(earlier, name@));
    } else {
        names.insert(at, name.clone());
        assert(names.deep_view() =~= with_name(earlier, name@));
    }
}

/// The names of all services that are wanted or have a container, ascending.
fn collect_names(desired: &DesiredServices, actual: &ActualContainers) -> (names: Vec<String>)
    ensures
        names.deep_view() == service_names(desired@, actual@),
{
    proof {
        use_type_invariant(desired);
    }
    let mut names: Vec<String> = Vec::new();
    let wanted = desired.len();
    let mut index: usize = 0;
    while index < wanted
        invariant
            index <= wanted,
            wanted == desired@.len(),
            names.deep_view() == names_of(desired@).take(index as int),
        decreases wanted - index,
    {
        let ghost so_far = names.deep_view();
        let service = desired.get_at(index);
        names.push(service.name.clone());
        index += 1;
        assert(names.deep_view() =~= so_far.push(service.name@));
        assert(names_of(desired@)[index - 1] == service.name@);
        assert(names.deep_view() =~= names_of(desired@).take(index as int));
    }
    assert(names_of(desired@).take(index as int) =~= names_of(desired@));
    let running = actual.len();
    let mut index: usize = 0;
    assert(actual@.take(0) =~= Seq::<Container>::empty());
    while index < running
        invariant
            index <= running,
            running == actual@.len(),
            is_desired(desired@),
            names.deep_view() == service_names(desired@, actual@.take(index as int)),
        decreases running - index,
    {
        proof {
            service_names_ascend(desired@, actual@.take(index as int));
            assert(actual@.take(index + 1).drop_last() =~= actual@.take(index as int));
        }
        insert_name(&mut names, &actual.get(index).service_name);
        index += 1;
    }
    assert(actual@.take(index as int) =~= actual@);
    names
}

/// The changes that lead from the containers `actual` to the services
/// `desired`, in the order in which they are to be made.
pub fn reconcile(desired: &DesiredServices, actual: &ActualContainers) -> (changes: Vec<
    ServiceContainerChange,
>)
    ensures
        changes.deep_view() == plan(desired@, actual@),
{
    let names = collect_names(desired, actual);
    let mut changes: Vec<ServiceContainerChange> = Vec::new();
    let mut index: usize = 0;
    assert(names.deep_view().take(0) =~= Seq::<Seq<char>>::empty());
    assert(changes.deep_view() =~= Seq::<Change>::empty());
    while index < names.len()
        invariant
            index <= names.len(),
            changes.deep_view() == changes_of(names.deep_view().take(index as int), desired@, actual@),
        decreases names.len() - index,
    {
        let name = &names[index];
        proof {
            let next = names.deep_view().take(index + 1);
            assert(next.drop_last() =~= names.deep_view().take(index as int));
            assert(next.last() == name@);
        }
        push_service_changes(&mut changes, name, desired.get(name.as_str()), actual);
        index += 1;
    }
    assert(names.deep_view().take(index as int) =~= names.deep_view());
    changes
}

/// The change that leaves `container` alone.
fn keep_change(container: &ActualContainer) -> (change: ServiceContainerChange)
    ensures
        change@ == keep(container@),
{
    ServiceContainerChange::Keep {
        container_id: container.container_id.clone(),
        service_config_hash: container.service_config_hash.clone(),
        service_name: container.service_name.clone(),
    }
}

/// The change that removes `container`.
fn remove_change(container: &ActualContainer) -> (change: ServiceContainerChange)
    ensures
        change@ == remove(container@),
{
    ServiceContainerChange::Remove {
        container_id: container.container_id.clone(),
        service_config_hash: container.service_config_hash.clone(),
        service_name: container.service_name.clone(),
    }
}

/// Moves `more` to the end of `changes`.
fn extend(changes: &mut Vec<ServiceContainerChange>, more: Vec<ServiceContainerChange>)
    ensures
        final(changes).deep_view() == old(changes).deep_view() + more.deep_view(),
{
    let mut more = more;
    let ghost first = changes.deep_view();
    let ghost second = more.deep_view();
    changes.append(&mut more);
    assert(changes.deep_view() =~= first + second);
}

/// Puts at the end of `changes` the additions for service `name`.
fn push_additions(
    changes: &mut Vec<ServiceContainerChange>,
    name: &String,
    definition: &DesiredServiceDefinition,
    count: u16,
    Ghost(actual): Ghost<Seq<Container>>,
)
    requires
        count == missing(name@, definition@, actual),
    ensures
        final(changes).deep_view() == old(changes).deep_view() + additions(
            name@,
            definition@,
            actual,
        ),
{
    let ghost before = changes.deep_view();
    let mut done: u16 = 0;
    while done < count
        invariant
            done <= count,
            count == missing(name@, definition@, actual),
            changes.deep_view() == before + additions(name@, definition@, actual).take(done as int),
        decreases count - done,
    {
        let ghost so_far = changes.deep_view();
        changes.push(
            ServiceContainerChange::Add {
                service_config_hash: definition.service_config_hash.clone(),
                service_name: name.clone(),
            },
        );
        done += 1;
        assert(changes.deep_view() =~= before + additions(name@, definition@, actual).take(
            done as int,
        )) by {
            assert(changes.deep_view() =~= so_far.push(additions(name@, definition@, actual)[done - 1]));
        }
    }
    assert(additions(name@, definition@, actual).take(done as int) =~= additions(
        name@,
        definition@,
        actual,
    ));
}

/// Puts at the end of `changes` the changes for service `name`.
fn push_service_changes(
    changes: &mut Vec<ServiceContainerChange>,
    name: &String,
    definition: Option<&DesiredServiceDefinition>,
    actual: &ActualContainers,
)
    ensures
        final(changes).deep_view() == old(changes).deep_view() + service_changes(
            name@,
            definition.deep_view(),
            actual@,
        ),
{
    let ghost before = changes.deep_view();
    let count = actual.len();
    match definition {
        None => {
            let mut going: Vec<ServiceContainerChange> = Vec::new();
            let mut index: usize = 0;
            assert(actual@.take(0) =~= Seq::<Container>::empty());
            assert(going.deep_view() =~= removals(
                name@,
                None,
                actual@.take(0),
            ));
            while index < count
                invariant
                    index <= count,
                    count == actual@.len(),
                    going.deep_view() == removals(
                        name@,
                        None,
                        actual@.take(index as int),
                    ),
                decreases count - index,
            {
                let container = actual.get(index);
                let ghost seen = actual@.take(index as int);
                let ghost so_far = going.deep_view();
                proof {
                    assert(actual@.take(index + 1) =~= seen.push(container@));
                    seen.lemma_filter_push(container@, belongs_to(name@));
                }
                if container.service_name == *name {
                    going.push(remove_change(container));
                    assert(going.deep_view() =~= so_far.push(remove(container@)));
                }
                index += 1;
                assert(going.deep_view() =~= removals(
                    name@,
                    None,
                    actual@.take(index as int),
                ));
            }
            assert(actual@.take(index as int) =~= actual@);
            extend(changes, going);
        },
        Some(wanted) => {
            let ghost hash = wanted.service_config_hash@;
            let mut staying: Vec<ServiceContainerChange> = Vec::new();
            let mut surplus: Vec<ServiceContainerChange> = Vec::new();
            let mut stale: Vec<ServiceContainerChange> = Vec::new();
            let mut kept_so_far: u16 = 0;
            let mut index: usize = 0;
            proof {
                assert(actual@.take(0) =~= Seq::<Container>::empty());
                assert(staying.deep_view() =~= keeps(
                    name@,
                    wanted@,
                    actual@.take(0),
                ));
                assert(surplus.deep_view() + stale.deep_view()
                    =~= removals(
                    name@,
                    Some(wanted@),
                    actual@.take(0),
                ));
            }
            while index < count
                invariant
                    index <= count,
                    count == actual@.len(),
                    hash == wanted.service_config_hash@,
                    kept_so_far == kept(name@, wanted@, actual@.take(index as int)).len(),
                    staying.deep_view() == keeps(
                        name@,
                        wanted@,
                        actual@.take(index as int),
                    ),
                    surplus.deep_view() == ({
                        let current = actual@.take(index as int).filter(is_current(name@, hash));
                        current.skip(kept_count(wanted@, current)).map_values(
                            |container: Container| remove(container),
                        )
                    }),
                    stale.deep_view() == actual@.take(index as int).filter(
                        is_stale(name@, hash),
                    ).map_values(|container: Container| remove(container)),
                decreases count - index,
            {
                let container = actual.get(index);
                let ghost seen = actual@.take(index as int);
                let ghost current = seen.filter(is_current(name@, hash));
                let ghost staying_so_far = staying.deep_view();
                let ghost surplus_so_far = surplus.deep_view();
                let ghost stale_so_far = stale.deep_view();
                proof {
                    assert(actual@.take(index + 1) =~= seen.push(container@));
                    seen.lemma_filter_push(container@, is_current(name@, hash));
                    seen.lemma_filter_push(container@, is_stale(name@, hash));
                }
                if container.service_name == *name {
                    if container.service_config_hash == wanted.service_config_hash {
                        if kept_so_far < wanted.replica_count {
                            staying.push(keep_change(container));
                            kept_so_far += 1;
                            assert(staying.deep_view() =~= staying_so_far.push(keep(container@)));
                        } else {
                            surplus.push(remove_change(container));
                            assert(surplus.deep_view() =~= surplus_so_far.push(remove(container@)));
                        }
                    } else {
                        stale.push(remove_change(container));
                        assert(stale.deep_view() =~= stale_so_far.push(remove(container@)));
                    }
                }
                index += 1;
                proof {
                    let next = actual@.take(index as int);
                    let next_current = next.filter(is_current(name@, hash));
                    assert(staying.deep_view() =~= keeps(
                        name@,
                        wanted@,
                        next,
                    ));
                    assert(surplus.deep_view() =~= next_current.skip(
                        kept_count(wanted@, next_current),
                    ).map_values(|container: Container| remove(container)));
                    assert(stale.deep_view() =~= next.filter(is_stale(name@, hash)).map_values(
                        |container: Container| remove(container),
                    ));
                }
            }
            assert(actual@.take(index as int) =~= actual@);
            assert(surplus.deep_view() + stale.deep_view() =~= removals(
                name@,
                Some(wanted@),
                actual@,
            ));
            let to_add = wanted.replica_count - kept_so_far;
            extend(changes, staying);
            match wanted.update_order {
                OperationOrder::StartFirst => {
                    push_additions(changes, name, wanted, to_add, Ghost(actual@));
                    extend(changes, surplus);
                    extend(changes, stale);
                },
                OperationOrder::StopFirst => {
                    extend(changes, surplus);
                    extend(changes, stale);
                    push_additions(changes, name, wanted, to_add, Ghost(actual@));
                },
            }
            assert(changes.deep_view() =~= before + service_changes(
                name@,
                definition.deep_view(),
                actual@,
            ));
        },
    }
}

} // verus!
