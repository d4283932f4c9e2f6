//! Deploying on this host: from the services that are wanted and the
//! engine's list of containers to the changes, and to their making.

use crate::command::{is_exit, is_invalid_text, outcome_of, DecodeFailure, Failure, Output};
use crate::deploy::apply::{moves_of, Applier};
use crate::deploy::collect::{collect, containers_of, CollectionError, COLUMN_COUNT};
use crate::deploy::model::{
    state_of, state_of_its_containers, DesiredServices, Service, ServiceContainerChange,
};
use crate::deploy::reconcile::{plan, reconcile};
use crate::table::{decoded, fits, rows_of};
use vstd::prelude::*;
use vstd::utf8::{decode_utf8, valid_utf8};

verus! {

/// A pass: the changes to make, and their making, of which nothing is run
/// yet.
pub struct Pass {
    pub changes: Vec<ServiceContainerChange>,
    pub applier: Applier,
}

/// What the engine's list of containers is worth for the services
/// `desired`: the changes that lead from the listed containers to these
/// services, with the making of just these changes, if the engine
/// succeeded, wrote UTF-8, and wrote three fields in each row.
pub open spec fn pass_worth(desired: Seq<Service>, output: Output, worth: Result<Pass, Failure>) -> bool {
    if !output.status.success {
        worth is Err && is_exit(worth->Err_0, output.status.description@)
    } else if !valid_utf8(output.stdout@) {
        worth is Err && is_invalid_text(worth->Err_0)
    } else {
        match worth {
            Ok(pass) => {
                &&& fits(rows_of(decode_utf8(output.stdout@)), COLUMN_COUNT as int)
                &&& pass.changes.deep_view() == plan(
                    desired,
                    state_of(containers_of(rows_of(decode_utf8(output.stdout@)))),
                )
                &&& pass.applier.moves() == moves_of(pass.changes.deep_view())
                &&& pass.applier.issued() == 0
            },
            Err(Failure::DecodeFailure(DecodeFailure::MisfitRow(misfit))) => decoded(
                decode_utf8(output.stdout@),
                COLUMN_COUNT as int,
                Err(misfit@),
            ),
            Err(_) => false,
        }
    }
}

/// The pass for the services `desired`, from what became of the command
/// `command` that lists the containers. Fails where the containers could not
/// be had; nothing is to be changed then.
pub fn go(desired: &DesiredServices, command: &str, ran: Result<Output, String>) -> (outcome: Result<
    Pass,
    CollectionError,
>)
    ensures
        outcome_of(
            command@,
            ran,
            outcome,
            |output: Output, worth: Result<Pass, Failure>| pass_worth(desired@, output, worth),
        ),
{
    match collect(command, ran) {
        Err(error) => Err(error),
        Ok(actual) => {
            proof {
                use_type_invariant(&actual);
                state_of_its_containers(actual@);
            }
            let changes = reconcile(desired, &actual);
            let applier = Applier::new(&changes);
            Ok(Pass { changes, applier })
        },
    }
}

} // verus!
