//! From the engine's list of containers to the set of containers that run.

use crate::command::{
    go, is_exit, is_invalid_text, outcome_of, table_of_output, CommandError, DecodeFailure, Failure,
    Output,
};
use crate::deploy::model::{is_state, ActualContainer, ActualContainers, Container};
use crate::table::{decoded, fits, rows_of};
use vstd::prelude::*;
use vstd::utf8::{decode_utf8, valid_utf8};

verus! {

/// Why the containers that run could not be had: the command that lists
/// them failed, or its output could not be decoded.
pub type CollectionError = CommandError;

/// How many fields a row of the engine's list has: the identity of a
/// container, the fingerprint of its configuration, and its service.
pub const COLUMN_COUNT: usize = 3;

/// The container that a row of the engine's list stands for.
pub open spec fn container_of(row: Seq<Seq<char>>) -> Container
    recommends
        row.len() == COLUMN_COUNT,
{
    Container { container_id: row[0], service_config_hash: row[1], service_name: row[2] }
}

/// The containers that the rows of the engine's list stand for.
pub open spec fn containers_of(rows: Seq<Seq<Seq<char>>>) -> Set<Container> {
    rows.map_values(|row: Seq<Seq<char>>| container_of(row)).to_set()
}

/// The set of the containers that `rows` stand for.
pub fn containers_of_rows(rows: &Vec<Vec<String>>) -> (containers: ActualContainers)
    requires
        fits(rows.deep_view(), COLUMN_COUNT as int),
    ensures
        containers@.to_set() == containers_of(rows.deep_view()),
        is_state(containers@),
{
    let mut containers = ActualContainers::new();
    let mut at: usize = 0;
    assert(containers@.to_set() =~= containers_of(rows.deep_view().take(0)));
    while at < rows.len()
        invariant
            at <= rows.len(),
            fits(rows.deep_view(), COLUMN_COUNT as int),
            containers@.to_set() == containers_of(rows.deep_view().take(at as int)),
        decreases rows.len() - at,
    {
        let row = &rows[at];
        assert(rows.deep_view()[at as int] == row.deep_view());
        assert(row.deep_view().len() == COLUMN_COUNT);
        let container = ActualContainer {
            container_id: row[0].clone(),
            service_config_hash: row[1].clone(),
            service_name: row[2].clone(),
        };
        assert(container@ == container_of(row.deep_view()));
        let ghost seen = rows.deep_view().take(at as int);
        containers.insert(container);
        at += 1;
        proof {
            let next = rows.deep_view().take(at as int);
            let mapped = |row: Seq<Seq<char>>| container_of(row);
            assert(next =~= seen.push(row.deep_view()));
            assert(next.map_values(mapped) =~= seen.map_values(mapped).push(container@));
            assert(seen.map_values(mapped).push(container@).to_set() =~= seen.map_values(
                mapped,
            ).to_set().insert(container@)) by {
                let before = seen.map_values(mapped);
                let after = before.push(container@);
                assert forall|c: Container| after.to_set().contains(c) <==> before.to_set().insert(
                    container@,
                ).contains(c) by {
                    if after.contains(c) {
                        let k = choose|k: int| 0 <= k < after.len() && after[k] == c;
                        if k < before.len() {
                            assert(before[k] == c);
                        }
                    }
                    if before.contains(c) {
                        let k = choose|k: int| 0 <= k < before.len() && before[k] == c;
                        assert(after[k] == c);
                    }
                    if c == container@ {
                        assert(after[before.len() as int] == c);
                    }
                }
            }
        }
    }
    assert(rows.deep_view().take(at as int) =~= rows.deep_view());
    proof {
        use_type_invariant(&containers);
    }
    containers
}

/// What the engine's list of containers is worth: the containers that its
/// rows stand for, if the engine succeeded, wrote UTF-8, and wrote three
/// fields in each row.
pub open spec fn list_worth(output: Output, worth: Result<ActualContainers, Failure>) -> bool {
    if !output.status.success {
        worth is Err && is_exit(worth->Err_0, output.status.description@)
    } else if !valid_utf8(output.stdout@) {
        worth is Err && is_invalid_text(worth->Err_0)
    } else {
        match worth {
            Ok(containers) => {
                &&& fits(rows_of(decode_utf8(output.stdout@)), COLUMN_COUNT as int)
                &&& containers@.to_set() == containers_of(rows_of(decode_utf8(output.stdout@)))
                &&& is_state(containers@)
            },
            Err(Failure::DecodeFailure(DecodeFailure::MisfitRow(misfit))) => decoded(
                decode_utf8(output.stdout@),
                COLUMN_COUNT as int,
                Err(misfit@),
            ),
            Err(_) => false,
        }
    }
}

/// The containers that the engine listed.
pub fn containers_of_output(output: Output) -> (worth: Result<ActualContainers, Failure>)
    ensures
        list_worth(output, worth),
{
    match table_of_output(output, COLUMN_COUNT) {
        Err(failure) => Err(failure),
        Ok(rows) => Ok(containers_of_rows(&rows)),
    }
}

/// The containers that run, from what became of the command `command` that
/// lists them, one to a line: identity, fingerprint of the configuration,
/// and service. Fails where the command could not be run, reported failure,
/// wrote what is not UTF-8, or wrote a line with another number of fields.
pub fn collect(command: &str, ran: Result<Output, String>) -> (outcome: Result<
    ActualContainers,
    CollectionError,
>)
    ensures
        outcome_of(
            command@,
            ran,
            outcome,
            |output: Output, worth: Result<ActualContainers, Failure>| list_worth(output, worth),
        ),
{
    let evaluate = |output: Output| -> (worth: Result<ActualContainers, Failure>)
        ensures
            list_worth(output, worth),
        { containers_of_output(output) };
    go(command, ran, evaluate)
}

} // verus!
