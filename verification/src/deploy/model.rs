//! What runs, what is wanted, and the changes that lead from one to the other.

use crate::ordered::{ascending, ascending_is_unique, strict_total_order};
use crate::text::{
    by_text, less, text_less, text_less_irreflexive, text_less_total, text_less_transitive,
    text_order_is_total,
};
use vstd::prelude::*;

verus! {

/// A running container, as contracts speak of it.
pub struct Container {
    pub container_id: Seq<char>,
    pub service_config_hash: Seq<char>,
    pub service_name: Seq<char>,
}

/// One container that runs on the host.
#[derive(Clone, Debug, PartialEq, Eq, PartialOrd, Ord)]
pub struct ActualContainer {
    /// The identity that the engine gave the container.
    pub container_id: String,
    /// Fingerprint of the configuration that the container was started from.
    pub service_config_hash: String,
    /// The service that the container belongs to.
    pub service_name: String,
}

impl View for ActualContainer {
    type V = Container;

    open spec fn view(&self) -> Container {
        Container {
            container_id: self.container_id@,
            service_config_hash: self.service_config_hash@,
            service_name: self.service_name@,
        }
    }
}

impl DeepView for ActualContainer {
    type V = Container;

    open spec fn deep_view(&self) -> Container {
        self@
    }
}

/// Whether new replicas start before old ones stop, or after.
#[derive(Clone, Copy, Debug, PartialEq, Eq)]
pub enum OperationOrder {
    StartFirst,
    StopFirst,
}

/// What is wanted of one service, as contracts speak of it.
pub struct Definition {
    pub replica_count: u16,
    pub service_config_hash: Seq<char>,
    pub update_order: OperationOrder,
}

/// What is wanted of one service.
#[derive(Clone, Debug, PartialEq, Eq)]
pub struct DesiredServiceDefinition {
    /// How many containers of the service shall run.
    pub replica_count: u16,
    /// Fingerprint of the configuration that they shall run with.
    pub service_config_hash: String,
    /// In which order replicas are started and stopped.
    pub update_order: OperationOrder,
}

impl View for DesiredServiceDefinition {
    type V = Definition;

    open spec fn view(&self) -> Definition {
        Definition {
            replica_count: self.replica_count,
            service_config_hash: self.service_config_hash@,
            update_order: self.update_order,
        }
    }
}

impl DeepView for DesiredServiceDefinition {
    type V = Definition;

    open spec fn deep_view(&self) -> Definition {
        self@
    }
}

/// One step of a reconciliation, as contracts speak of it.
pub enum Change {
    Add { service_config_hash: Seq<char>, service_name: Seq<char> },
    Keep { container_id: Seq<char>, service_config_hash: Seq<char>, service_name: Seq<char> },
    Remove { container_id: Seq<char>, service_config_hash: Seq<char>, service_name: Seq<char> },
}

impl Change {
    /// The service that the change is about.
    pub open spec fn service_name(self) -> Seq<char> {
        match self {
            Change::Add { service_name, .. } => service_name,
            Change::Keep { service_name, .. } => service_name,
            Change::Remove { service_name, .. } => service_name,
        }
    }
}

/// One step of a reconciliation.
#[derive(Clone, Debug, PartialEq, Eq)]
pub enum ServiceContainerChange {
    /// Start one more container of the service with this configuration.
    Add { service_config_hash: String, service_name: String },
    /// Leave the container as it is.
    Keep { container_id: String, service_config_hash: String, service_name: String },
    /// Stop the container and remove it.
    Remove { container_id: String, service_config_hash: String, service_name: String },
}

impl View for ServiceContainerChange {
    type V = Change;

    open spec fn view(&self) -> Change {
        match self {
            ServiceContainerChange::Add { service_config_hash, service_name } => Change::Add {
                service_config_hash: service_config_hash@,
                service_name: service_name@,
            },
            ServiceContainerChange::Keep {
                container_id,
                service_config_hash,
                service_name,
            } => Change::Keep {
                container_id: container_id@,
                service_config_hash: service_config_hash@,
                service_name: service_name@,
            },
            ServiceContainerChange::Remove {
                container_id,
                service_config_hash,
                service_name,
            } => Change::Remove {
                container_id: container_id@,
                service_config_hash: service_config_hash@,
                service_name: service_name@,
            },
        }
    }
}

impl DeepView for ServiceContainerChange {
    type V = Change;

    open spec fn deep_view(&self) -> Change {
        self@
    }
}

/// `a` comes before `b`: by identity, then by configuration, then by service.
pub open spec fn container_less(a: Container, b: Container) -> bool {
    if a.container_id != b.container_id {
        text_less(a.container_id, b.container_id)
    } else if a.service_config_hash != b.service_config_hash {
        text_less(a.service_config_hash, b.service_config_hash)
    } else {
        text_less(a.service_name, b.service_name)
    }
}

/// The order of containers, as a value.
pub open spec fn by_container() -> spec_fn(Container, Container) -> bool {
    |a: Container, b: Container| container_less(a, b)
}

/// The order of containers is strict and total.
pub proof fn container_order_is_total()
    ensures
        strict_total_order(by_container()),
{
    let before = by_container();
    assert forall|a: Container| !#[trigger] before(a, a) by {
        text_less_irreflexive(a.service_name);
    }
    assert forall|a: Container, b: Container, c: Container| #[trigger]
        before(a, b) && #[trigger] before(b, c) implies before(a, c) by {
        if text_less(a.container_id, b.container_id) && text_less(b.container_id, c.container_id) {
            text_less_transitive(a.container_id, b.container_id, c.container_id);
        }
        if text_less(a.service_config_hash, b.service_config_hash) && text_less(
            b.service_config_hash,
            c.service_config_hash,
        ) {
            text_less_transitive(a.service_config_hash, b.service_config_hash, c.service_config_hash);
        }
        if text_less(a.service_name, b.service_name) && text_less(b.service_name, c.service_name) {
            text_less_transitive(a.service_name, b.service_name, c.service_name);
        }
        text_less_irreflexive(a.container_id);
        text_less_irreflexive(a.service_config_hash);
        text_less_irreflexive(a.service_name);
    }
    assert forall|a: Container, b: Container| a == b || #[trigger] before(a, b) || before(b, a) by {
        text_less_total(a.container_id, b.container_id);
        text_less_total(a.service_config_hash, b.service_config_hash);
        text_less_total(a.service_name, b.service_name);
    }
}

/// `containers` can be the view of a set of containers: it is in ascending
/// order, so that nothing occurs twice.
pub open spec fn is_state(containers: Seq<Container>) -> bool {
    ascending(containers, by_container())
}

/// A set of containers is walked in one order only: two views that hold the
/// same containers are the same.
pub proof fn state_is_determined(first: Seq<Container>, second: Seq<Container>)
    requires
        is_state(first),
        is_state(second),
        first.to_set() == second.to_set(),
    ensures
        first == second,
{
    container_order_is_total();
    ascending_is_unique(first, second, by_container());
}

/// The view of the set that holds `containers`.
pub open spec fn state_of(containers: Set<Container>) -> Seq<Container> {
    choose|state: Seq<Container>| is_state(state) && state.to_set() == containers
}

/// The view of a set of containers is the view of the set that holds them.
pub proof fn state_of_its_containers(state: Seq<Container>)
    requires
        is_state(state),
    ensures
        state_of(state.to_set()) == state,
{
    let chosen = state_of(state.to_set());
    assert(is_state(chosen) && chosen.to_set() == state.to_set());
    state_is_determined(chosen, state);
}

/// Tells whether `a` comes before `b` in the order of containers.
pub fn container_before(a: &ActualContainer, b: &ActualContainer) -> (before: bool)
    ensures
        before == container_less(a@, b@),
{
    if a.container_id != b.container_id {
        less(a.container_id.as_str(), b.container_id.as_str())
    } else if a.service_config_hash != b.service_config_hash {
        less(a.service_config_hash.as_str(), b.service_config_hash.as_str())
    } else {
        less(a.service_name.as_str(), b.service_name.as_str())
    }
}

/// The containers that run on a host: a set, walked in ascending order.
#[derive(Debug, PartialEq, Eq)]
pub struct ActualContainers {
    items: Vec<ActualContainer>,
}

impl View for ActualContainers {
    type V = Seq<Container>;

    closed spec fn view(&self) -> Seq<Container> {
        self.items.deep_view()
    }
}

impl ActualContainers {
    /// The containers stand in ascending order.
    #[verifier::type_invariant]
    pub open spec fn ordered(&self) -> bool {
        is_state(self@)
    }

    /// No containers.
    pub fn new() -> (containers: Self)
        ensures
            containers@ == Seq::<Container>::empty(),
    {
        let containers = ActualContainers { items: Vec::new() };
        assert(containers@ =~= Seq::<Container>::empty());
        containers
    }

    /// How many containers there are.
    pub fn len(&self) -> (count: usize)
        ensures
            count == self@.len(),
    {
        self.items.len()
    }

    /// The container at `index`, counted in ascending order.
    pub fn get(&self, index: usize) -> (container: &ActualContainer)
        requires
            index < self@.len(),
        ensures
            container@ == self@[index as int],
    {
        &self.items[index]
    }

    /// Tells whether `container` is among these.
    pub fn contains(&self, container: &ActualContainer) -> (found: bool)
        ensures
            found == self@.contains(container@),
    {
        let mut index: usize = 0;
        while index < self.items.len()
            invariant
                index <= self.items.len(),
                forall|i: int| 0 <= i < index ==> self@[i] != container@,
            decreases self.items.len() - index,
        {
            let item = &self.items[index];
            if item.container_id == container.container_id && item.service_config_hash
                == container.service_config_hash && item.service_name == container.service_name {
                assert(self@[index as int] == container@);
                return true;
            }
            index += 1;
        }
        false
    }

    /// Adds `container` unless it is there already, and tells whether it was
    /// added.
    pub fn insert(&mut self, container: ActualContainer) -> (added: bool)
        ensures
            added == !old(self)@.contains(container@),
            final(self)@.to_set() == old(self)@.to_set().insert(container@),
            is_state(final(self)@),
    {
        proof {
            use_type_invariant(&*self);
            container_order_is_total();
        }
        let ghost before = by_container();
        let ghost earlier = self@;
        let mut index: usize = 0;
        while index < self.items.len() && container_before(&self.items[index], &container)
            invariant
                index <= self.items.len(),
                self@ == earlier,
                is_state(earlier),
                forall|i: int| 0 <= i < index ==> container_less(#[trigger] earlier[i], container@),
            decreases self.items.len() - index,
        {
            index += 1;
        }
        if index < self.items.len() && !container_before(&container, &self.items[index]) {
            assert(earlier[index as int] == container@) by {
                assert(before(earlier[index as int], container@) == container_less(
                    earlier[index as int],
                    container@,
                ));
                assert(before(container@, earlier[index as int]) == container_less(
                    container@,
                    earlier[index as int],
                ));
            }
            assert(earlier.to_set().insert(container@) =~= earlier.to_set());
            return false;
        }
        assert forall|j: int| index <= j < earlier.len() implies container_less(
            container@,
            #[trigger] earlier[j],
        ) by {
            assert(before(container@, earlier[index as int]));
            if index < j {
                assert(before(earlier[index as int], earlier[j]));
            }
        }
        assert(!earlier.contains(container@)) by {
            if earlier.contains(container@) {
                let k = choose|k: int| 0 <= k < earlier.len() && earlier[k] == container@;
                assert(before(earlier[k], container@) || before(container@, earlier[k]));
            }
        }
        let mut items: Vec<ActualContainer> = Vec::new();
        assert(items.deep_view() =~= Seq::<Container>::empty());
        core::mem::swap(&mut self.items, &mut items);
        items.insert(index, container);
        proof {
            let later = items.deep_view();
            assert(later =~= earlier.insert(index as int, container@));
            assert forall|i: int, j: int| 0 <= i < j < later.len() implies before(
                #[trigger] later[i],
                #[trigger] later[j],
            ) by {
                if j < index {
                    assert(before(earlier[i], earlier[j]));
                } else if j == index {
                    assert(container_less(earlier[i], container@));
                } else if i < index {
                    assert(before(earlier[i], earlier[j - 1]));
                } else if i == index {
                    assert(container_less(container@, earlier[j - 1]));
                } else {
                    assert(before(earlier[i - 1], earlier[j - 1]));
                }
            }
            assert(later.to_set() =~= earlier.to_set().insert(container@)) by {
                assert forall|c: Container| later.to_set().contains(c) <==> earlier.to_set().insert(
                    container@,
                ).contains(c) by {
                    if later.contains(c) {
                        let k = choose|k: int| 0 <= k < later.len() && later[k] == c;
                        if k < index {
                            assert(earlier[k] == c);
                        } else if k > index {
                            assert(earlier[k - 1] == c);
                        }
                    }
                    if earlier.contains(c) {
                        let k = choose|k: int| 0 <= k < earlier.len() && earlier[k] == c;
                        if k < index {
                            assert(later[k] == c);
                        } else {
                            assert(later[k + 1] == c);
                        }
                    }
                    if c == container@ {
                        assert(later[index as int] == c);
                    }
                }
            }
        }
        core::mem::swap(&mut self.items, &mut items);
        true
    }
}

/// A service and what is wanted of it, as contracts speak of it.
pub struct Service {
    pub name: Seq<char>,
    pub definition: Definition,
}

/// A service and what is wanted of it.
#[derive(Clone, Debug, PartialEq, Eq)]
pub struct DesiredService {
    pub name: String,
    pub definition: DesiredServiceDefinition,
}

impl View for DesiredService {
    type V = Service;

    open spec fn view(&self) -> Service {
        Service { name: self.name@, definition: self.definition@ }
    }
}

impl DeepView for DesiredService {
    type V = Service;

    open spec fn deep_view(&self) -> Service {
        self@
    }
}

/// The names of `services`, in their order.
pub open spec fn names_of(services: Seq<Service>) -> Seq<Seq<char>> {
    services.map_values(|service: Service| service.name)
}

/// `services` can be the view of a map from names to definitions: the names
/// ascend, so that no service is defined twice.
pub open spec fn is_desired(services: Seq<Service>) -> bool {
    ascending(names_of(services), by_text())
}

/// What `services` wants of the service `name`, if it names it.
pub open spec fn definition_of(services: Seq<Service>, name: Seq<char>) -> Option<Definition>
    decreases services.len(),
{
    if services.len() == 0 {
        None
    } else if services[0].name == name {
        Some(services[0].definition)
    } else {
        definition_of(services.drop_first(), name)
    }
}

/// A name that `services` does not hold has no definition, and one with a
/// definition stands somewhere in `services` with it.
pub proof fn definition_is_held(services: Seq<Service>, name: Seq<char>)
    ensures
        match definition_of(services, name) {
            Some(definition) => exists|i: int|
                0 <= i < services.len() && #[trigger] services[i] == (Service { name, definition }),
            None => forall|i: int| 0 <= i < services.len() ==> (#[trigger] services[i]).name != name,
        },
    decreases services.len(),
{
    if services.len() > 0 {
        if services[0].name == name {
            assert(services[0] == (Service { name, definition: services[0].definition }));
        } else {
            let rest = services.drop_first();
            definition_is_held(rest, name);
            match definition_of(rest, name) {
                Some(definition) => {
                    let i = choose|i: int|
                        0 <= i < rest.len() && #[trigger] rest[i] == (Service { name, definition });
                    assert(services[i + 1] == (Service { name, definition }));
                },
                None => {
                    assert forall|i: int| 0 <= i < services.len() implies (
                    #[trigger] services[i]).name != name by {
                        if i > 0 {
                            assert(rest[i - 1].name != name);
                        }
                    }
                },
            }
        }
    }
}

/// Where no service is defined twice, each has the definition it stands with.
pub proof fn definition_at(services: Seq<Service>, index: int)
    requires
        is_desired(services),
        0 <= index < services.len(),
    ensures
        definition_of(services, services[index].name) == Some(services[index].definition),
{
    let name = services[index].name;
    definition_is_held(services, name);
    text_order_is_total();
    let names = names_of(services);
    match definition_of(services, name) {
        Some(definition) => {
            let i = choose|i: int|
                0 <= i < services.len() && #[trigger] services[i] == (Service { name, definition });
            if i < index {
                assert(by_text()(names[i], names[index]));
            } else if index < i {
                assert(by_text()(names[index], names[i]));
            }
        },
        None => {
            assert(services[index].name != name);
        },
    }
}

/// The services that are wanted, each with its definition: a map from names
/// to definitions, walked by ascending name.
#[derive(Debug, PartialEq, Eq)]
pub struct DesiredServices {
    entries: Vec<DesiredService>,
}

impl View for DesiredServices {
    type V = Seq<Service>;

    closed spec fn view(&self) -> Seq<Service> {
        self.entries.deep_view()
    }
}

impl DesiredServices {
    /// The names ascend.
    #[verifier::type_invariant]
    pub open spec fn ordered(&self) -> bool {
        is_desired(self@)
    }

    /// No services.
    pub fn new() -> (services: Self)
        ensures
            services@ == Seq::<Service>::empty(),
    {
        let services = DesiredServices { entries: Vec::new() };
        assert(services@ =~= Seq::<Service>::empty());
        services
    }

    /// How many services there are.
    pub fn len(&self) -> (count: usize)
        ensures
            count == self@.len(),
    {
        self.entries.len()
    }

    /// The service at `index`, counted by ascending name.
    pub fn get_at(&self, index: usize) -> (service: &DesiredService)
        requires
            index < self@.len(),
        ensures
            service@ == self@[index as int],
    {
        &self.entries[index]
    }

    /// What is wanted of the service `name`, if anything is.
    pub fn get(&self, name: &str) -> (definition: Option<&DesiredServiceDefinition>)
        ensures
            definition.deep_view() == definition_of(self@, name@),
    {
        let wanted = name.to_owned();
        let mut index: usize = 0;
        assert(self@.skip(0) =~= self@);
        while index < self.entries.len()
            invariant
                index <= self.entries.len(),
                wanted@ == name@,
                definition_of(self@, name@) == definition_of(self@.skip(index as int), name@),
            decreases self.entries.len() - index,
        {
            assert(self@.skip(index as int)[0] == self@[index as int]);
            if self.entries[index].name == wanted {
                return Some(&self.entries[index].definition);
            }
            assert(self@.skip(index as int).drop_first() =~= self@.skip(index + 1));
            index += 1;
        }
        None
    }

    /// Sets what is wanted of the service `name`, and hands back what was
    /// wanted of it before, if anything was.
    pub fn insert(&mut self, name: String, definition: DesiredServiceDefinition) -> (previous:
        Option<DesiredServiceDefinition>)
        ensures
            previous.deep_view() == definition_of(old(self)@, name@),
            forall|other: Seq<char>|
                #[trigger] definition_of(final(self)@, other) == if other == name@ {
                    Some(definition@)
                } else {
                    definition_of(old(self)@, other)
                },
            is_desired(final(self)@),
    {
        proof {
            use_type_invariant(&*self);
            text_order_is_total();
        }
        let ghost before = by_text();
        let ghost earlier = self@;
        let ghost names = names_of(earlier);
        let ghost added = Service { name: name@, definition: definition@ };
        let mut index: usize = 0;
        while index < self.entries.len() && less(self.entries[index].name.as_str(), name.as_str())
            invariant
                index <= self.entries.len(),
                self@ == earlier,
                is_desired(earlier),
                forall|i: int| 0 <= i < index ==> text_less((#[trigger] earlier[i]).name, name@),
            decreases self.entries.len() - index,
        {
            index += 1;
        }
        let replaces = index < self.entries.len() && !less(
            name.as_str(),
            self.entries[index].name.as_str(),
        );
        proof {
            if replaces {
                assert(before(names[index as int], name@) == text_less(names[index as int], name@));
                assert(before(name@, names[index as int]) == text_less(name@, names[index as int]));
                assert(earlier[index as int].name == name@);
                definition_at(earlier, index as int);
            } else {
                assert forall|j: int| index <= j < earlier.len() implies text_less(
                    name@,
                    (#[trigger] earlier[j]).name,
                ) by {
                    assert(before(name@, names[index as int]));
                    if index < j {
                        assert(before(names[index as int], names[j]));
                    }
                }
                definition_is_held(earlier, name@);
                if definition_of(earlier, name@) is Some {
                    let d = definition_of(earlier, name@)->0;
                    let k = choose|k: int|
                        0 <= k < earlier.len() && #[trigger] earlier[k] == (Service {
                            name: name@,
                            definition: d,
                        });
                    assert(before(names[k], name@) || before(name@, names[k]));
                    assert(before(name@, name@));
                }
            }
        }
        let mut entries: Vec<DesiredService> = Vec::new();
        assert(entries.deep_view() =~= Seq::<Service>::empty());
        assert(names_of(Seq::<Service>::empty()) =~= Seq::<Seq<char>>::empty());
        core::mem::swap(&mut self.entries, &mut entries);
        let previous = if replaces {
            let replaced = entries.remove(index);
            Some(replaced.definition)
        } else {
            None
        };
        entries.insert(index, DesiredService { name, definition });
        proof {
            let later = entries.deep_view();
            let later_names = names_of(later);
            let shift: int = if replaces {
                0
            } else {
                1
            };
            assert(later.len() == earlier.len() + shift);
            assert(later[index as int] == added);
            assert(forall|i: int| 0 <= i < index ==> later[i] == earlier[i]);
            assert(forall|i: int| index < i < later.len() ==> later[i] == earlier[i - shift]);
            assert forall|i: int, j: int| 0 <= i < j < later_names.len() implies before(
                #[trigger] later_names[i],
                #[trigger] later_names[j],
            ) by {
                if j < index {
                    assert(before(names[i], names[j]));
                } else if j == index {
                    assert(text_less(earlier[i].name, name@));
                } else if i < index {
                    assert(before(names[i], names[j - shift]));
                } else if i == index {
                    if replaces {
                        assert(before(names[index as int], names[j]));
                    } else {
                        assert(text_less(name@, earlier[j - 1].name));
                    }
                } else {
                    assert(before(names[i - shift], names[j - shift]));
                }
            }
            assert(is_desired(later));
            assert forall|other: Seq<char>| #[trigger]
                definition_of(later, other) == if other == name@ {
                    Some(definition@)
                } else {
                    definition_of(earlier, other)
                } by {
                if other == name@ {
                    definition_at(later, index as int);
                } else {
                    definition_is_held(earlier, other);
                    definition_is_held(later, other);
                    match definition_of(earlier, other) {
                        Some(d) => {
                            let k = choose|k: int|
                                0 <= k < earlier.len() && #[trigger] earlier[k] == (Service {
                                    name: other,
                                    definition: d,
                                });
                            let moved = if k < index {
                                k
                            } else {
                                k + shift
                            };
                            assert(later[moved] == earlier[k]);
                            definition_at(later, moved);
                        },
                        None => {
                            if definition_of(later, other) is Some {
                                let d = definition_of(later, other)->0;
                                let k = choose|k: int|
                                    0 <= k < later.len() && #[trigger] later[k] == (Service {
                                        name: other,
                                        definition: d,
                                    });
                                if k < index {
                                    assert(earlier[k].name != other);
                                } else {
                                    assert(earlier[k - shift].name != other);
                                }
                            }
                        },
                    }
                }
            }
        }
        core::mem::swap(&mut self.entries, &mut entries);
        previous
    }
}

} // verus!
