//! Making the changes: one engine operation after the other, in the order
//! of the changes, up to the first that fails.
//!
//! The caller runs the operations. It asks which is next, runs it, and tells
//! how that went.

use crate::command::CommandError;
use crate::deploy::model::{Change, ServiceContainerChange};
use vstd::prelude::*;

verus! {

/// What the engine is asked to do to make a change, as contracts speak of
/// it.
pub enum Task {
    Start { service_name: Seq<char>, service_config_hash: Seq<char> },
    Stop { container_id: Seq<char> },
    Remove { container_id: Seq<char> },
}

/// What the engine is asked to do to make a change.
#[derive(Clone, Debug, PartialEq, Eq)]
pub enum Operation {
    /// Start a container of the service with this configuration.
    Start { service_name: String, service_config_hash: String },
    /// Stop the container.
    Stop { container_id: String },
    /// Remove the stopped container.
    Remove { container_id: String },
}

impl View for Operation {
    type V = Task;

    open spec fn view(&self) -> Task {
        match self {
            Operation::Start { service_name, service_config_hash } => Task::Start {
                service_name: service_name@,
                service_config_hash: service_config_hash@,
            },
            Operation::Stop { container_id } => Task::Stop { container_id: container_id@ },
            Operation::Remove { container_id } => Task::Remove { container_id: container_id@ },
        }
    }
}

/// An operation and the change that it serves, as contracts speak of it.
pub struct Move {
    /// Where the change stands among the changes, counted from 0.
    pub change: int,
    pub task: Task,
}

/// An operation and the change that it serves.
#[derive(Clone, Debug, PartialEq, Eq)]
pub struct Step {
    /// Where the change stands among the changes, counted from 0.
    pub change: usize,
    pub operation: Operation,
}

impl View for Step {
    type V = Move;

    open spec fn view(&self) -> Move {
        Move { change: self.change as int, task: self.operation@ }
    }
}

impl DeepView for Step {
    type V = Move;

    open spec fn deep_view(&self) -> Move {
        self@
    }
}

impl Step {
    /// The same operation for the same change.
    fn copy(&self) -> (copy: Step)
        ensures
            copy@ == self@,
    {
        let operation = match &self.operation {
            Operation::Start { service_name, service_config_hash } => Operation::Start {
                service_name: service_name.clone(),
                service_config_hash: service_config_hash.clone(),
            },
            Operation::Stop { container_id } => Operation::Stop { container_id: container_id.clone() },
            Operation::Remove { container_id } => Operation::Remove {
                container_id: container_id.clone(),
            },
        };
        Step { change: self.change, operation }
    }
}

/// What the engine is asked to do for `change`: to start a container for an
/// addition, to stop and then remove the container for a removal, and
/// nothing for a container that stays.
pub open spec fn tasks_of(change: Change) -> Seq<Task> {
    match change {
        Change::Add { service_config_hash, service_name } => seq![
            Task::Start { service_name, service_config_hash },
        ],
        Change::Keep { .. } => Seq::empty(),
        Change::Remove { container_id, .. } => seq![
            Task::Stop { container_id },
            Task::Remove { container_id },
        ],
    }
}

/// The operations for `changes`, in the order of the changes.
pub open spec fn moves_of(changes: Seq<Change>) -> Seq<Move>
    decreases changes.len(),
{
    if changes.len() == 0 {
        Seq::empty()
    } else {
        moves_of(changes.drop_last()) + tasks_of(changes.last()).map_values(
            |task: Task| Move { change: changes.len() - 1, task },
        )
    }
}

/// The operations for `changes`, in the order of the changes.
pub fn steps_of(changes: &Vec<ServiceContainerChange>) -> (steps: Vec<Step>)
    ensures
        steps.deep_view() == moves_of(changes.deep_view()),
{
    let mut steps: Vec<Step> = Vec::new();
    let mut at: usize = 0;
    assert(changes.deep_view().take(0) =~= Seq::<Change>::empty());
    assert(steps.deep_view() =~= moves_of(changes.deep_view().take(0)));
    while at < changes.len()
        invariant
            at <= changes.len(),
            steps.deep_view() == moves_of(changes.deep_view().take(at as int)),
        decreases changes.len() - at,
    {
        let ghost before = steps.deep_view();
        let ghost next = changes.deep_view().take(at + 1);
        assert(next.drop_last() =~= changes.deep_view().take(at as int));
        assert(next.last() == changes[at as int]@);
        match &changes[at] {
            ServiceContainerChange::Add { service_config_hash, service_name } => {
                let operation = Operation::Start {
                    service_name: service_name.clone(),
                    service_config_hash: service_config_hash.clone(),
                };
                steps.push(Step { change: at, operation });
                assert(steps.deep_view() =~= moves_of(next));
            },
            ServiceContainerChange::Keep { .. } => {
                assert(steps.deep_view() =~= moves_of(next));
            },
            ServiceContainerChange::Remove { container_id, .. } => {
                steps.push(
                    Step { change: at, operation: Operation::Stop { container_id: container_id.clone() } },
                );
                steps.push(
                    Step {
                        change: at,
                        operation: Operation::Remove { container_id: container_id.clone() },
                    },
                );
                assert(steps.deep_view() =~= moves_of(next));
            },
        }
        at += 1;
    }
    assert(changes.deep_view().take(at as int) =~= changes.deep_view());
    steps
}

/// How the operation that was run last went.
#[derive(Clone, Debug, PartialEq, Eq)]
pub enum Event {
    /// No operation was run yet.
    Begun,
    /// The operation succeeded.
    Succeeded,
    /// The operation failed.
    Failed(CommandError),
}

/// A change that could not be made.
#[derive(Clone, Debug, PartialEq, Eq)]
pub struct ApplyError {
    /// The operation that failed, with the place of its change.
    pub step: Step,
    /// Why it failed.
    pub error: CommandError,
}

/// What to do next.
#[derive(Clone, Debug, PartialEq, Eq)]
pub enum Action {
    /// Run this operation, and tell how it went.
    Run(Step),
    /// All changes are made.
    Finish,
    /// A change could not be made: run nothing more, and undo nothing.
    Abort(ApplyError),
}

/// The making of a list of changes: the operations for them, and how many
/// of these were handed out to be run.
pub struct Applier {
    steps: Vec<Step>,
    issued: usize,
}

impl Applier {
    /// The operations for the changes, in their order.
    pub closed spec fn moves(&self) -> Seq<Move> {
        self.steps.deep_view()
    }

    /// How many operations were handed out.
    pub closed spec fn issued(&self) -> int {
        self.issued as int
    }

    /// No more operations were handed out than there are.
    #[verifier::type_invariant]
    pub closed spec fn bounded(&self) -> bool {
        self.issued <= self.steps.len()
    }

    /// The making of `changes`, with nothing run yet.
    pub fn new(changes: &Vec<ServiceContainerChange>) -> (applier: Self)
        ensures
            applier.moves() == moves_of(changes.deep_view()),
            applier.issued() == 0,
    {
        Applier { steps: steps_of(changes), issued: 0 }
    }

    /// Whether `event` can have come about: only an operation that was
    /// handed out can have failed.
    pub open spec fn expects(&self, event: Event) -> bool {
        event is Failed ==> self.issued() > 0
    }

    /// What to do once `event` has come about. After a failure, nothing more
    /// is run, and the failure is told with the operation that failed.
    /// Otherwise the next operation is handed out, or the end is told when
    /// none is left.
    pub fn advance(&mut self, event: Event) -> (action: Action)
        requires
            old(self).expects(event),
        ensures
            final(self).moves() == old(self).moves(),
            match event {
                Event::Failed(error) => {
                    &&& final(self).issued() == old(self).issued()
                    &&& action matches Action::Abort(told)
                    &&& told.error == error
                    &&& told.step@ == old(self).moves()[old(self).issued() - 1]
                },
                _ => if old(self).issued() < old(self).moves().len() {
                    &&& final(self).issued() == old(self).issued() + 1
                    &&& action matches Action::Run(step)
                    &&& step@ == old(self).moves()[old(self).issued()]
                } else {
                    &&& final(self).issued() == old(self).issued()
                    &&& action is Finish
                },
            },
    {
        proof {
            use_type_invariant(&*self);
        }
        match event {
            Event::Failed(error) => {
                let step = self.steps[self.issued - 1].copy();
                Action::Abort(ApplyError { step, error })
            },
            _ => {
                if self.issued < self.steps.len() {
                    let step = self.steps[self.issued].copy();
                    self.issued = self.issued + 1;
                    Action::Run(step)
                } else {
                    Action::Finish
                }
            },
        }
    }
}

} // verus!
