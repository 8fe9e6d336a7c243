//! The order in which schema steps are applied to a database.
//!
//! A database records how many steps have been applied to it. The steps are
//! numbered from zero in the one order in which they may run; step `k` takes
//! a database that records `k` to one that records `k + 1`.

use crate::error::StoreError;
use vstd::prelude::*;

verus! {

/// The steps that remain for a database that records `applied`, where
/// `known` steps exist: those from `applied` up to `known`, in rising order.
pub open spec fn pending(applied: int, known: int) -> Seq<u32> {
    Seq::new((known - applied) as nat, |i: int| (applied + i) as u32)
}

/// What a database records after step `step` was applied to it.
pub open spec fn record_after(step: u32) -> int {
    step + 1
}

/// What a database that recorded `applied` records once the steps were
/// applied to it in order: what it records after the last of them, and
/// `applied` where there was none.
pub open spec fn applied_after(applied: int, steps: Seq<u32>) -> int {
    if steps.len() == 0 {
        applied
    } else {
        record_after(steps.last())
    }
}

/// Lists the steps to apply, in order, to a database that records `applied`
/// steps, where `known` steps exist. None remain for a database that is up
/// to date. A record below zero or beyond the known steps is not a database
/// of this or an older version, and no step may be applied to it.
pub fn pending_steps(applied: i64, known: u32) -> (steps: Result<Vec<u32>, StoreError>)
    ensures
        0 <= applied <= known ==> (steps matches Ok(s) && s@ == pending(
            applied as int,
            known as int,
        )),
        !(0 <= applied <= known) ==> steps == Err::<Vec<u32>, StoreError>(
            StoreError::ConnectionError,
        ),
{
    if applied < 0 || applied > known as i64 {
        return Err(StoreError::ConnectionError);
    }
    let first: u32 = applied as u32;
    let mut steps: Vec<u32> = Vec::new();
    let mut step: u32 = first;
    while step < known
        invariant
            first == applied,
            first <= step <= known,
            steps@ == pending(applied as int, step as int),
        decreases known - step,
    {
        steps.push(step);
        step = step + 1;
        assert(steps@ =~= pending(applied as int, step as int));
    }
    Ok(steps)
}

/// What the database records after step `step` was applied to it.
pub fn recorded_after(step: u32) -> (applied: i64)
    ensures
        applied == record_after(step),
{
    let step: i64 = step as i64;
    step + 1
}

/// No step is applied twice, and the steps run in their one order: the
/// pending steps rise one by one from what the database records.
pub proof fn lemma_pending_in_order(applied: int, known: int)
    requires
        0 <= applied <= known <= u32::MAX,
    ensures
        pending(applied, known).len() == known - applied,
        forall|i: int|
            0 <= i < known - applied ==> (#[trigger] pending(applied, known)[i]) == applied + i,
        forall|i: int, j: int|
            0 <= i < j < known - applied ==> (#[trigger] pending(applied, known)[i]) < (
            #[trigger] pending(applied, known)[j]),
{
}

/// Running the pending steps brings the database up to date, and running
/// them again finds nothing to do: the second run applies no step.
pub proof fn lemma_migration_idempotent(applied: int, known: int)
    requires
        0 <= applied <= known <= u32::MAX,
    ensures
        applied_after(applied, pending(applied, known)) == known,
        pending(applied_after(applied, pending(applied, known)), known) == Seq::<u32>::empty(),
        applied_after(known, pending(known, known)) == known,
{
    assert(pending(known, known) =~= Seq::<u32>::empty());
}

} // verus!
