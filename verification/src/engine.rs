//! The engine: the input's transactions applied one after another, in the
//! order of the input, to a store that starts empty.
use vstd::prelude::*;
use crate::convert::command_of;
use crate::db::laws::{
    amounts_not_negative, chargebacks_frozen, empty_store, held_tracks_disputes,
    lemma_amounts_stay_not_negative, lemma_chargeback_is_final, lemma_empty_store_invariants,
    lemma_held_is_disputed_amounts, lemma_steps_keep_store_valid, rocks_step, sled_step,
    valid_store, StoreView,
};
use crate::db::{Command, LedgerStatus, status_of};
use crate::record::transaction::Transaction;

verus! {

/// The store after the rocks store ran `cmds`, first to last, from `s`.
pub open spec fn rocks_run(s: StoreView, cmds: Seq<Command>) -> StoreView
    decreases cmds.len(),
{
    if cmds.len() == 0 {
        s
    } else {
        rocks_step(rocks_run(s, cmds.drop_last()), cmds.last()).0
    }
}

/// The store after the sled store ran `cmds`, first to last, from `s`.
pub open spec fn sled_run(s: StoreView, cmds: Seq<Command>) -> StoreView
    decreases cmds.len(),
{
    if cmds.len() == 0 {
        s
    } else {
        sled_step(sled_run(s, cmds.drop_last()), cmds.last()).0
    }
}

/// A deposit that does not reuse the number of a transaction in dispute.
pub open spec fn deposit_fresh(s: StoreView, cmd: Command) -> bool {
    cmd matches Command::Deposit(d) ==> !(s.ledger.contains_key((d.client, d.tx)) && status_of(
        s.ledger[(d.client, d.tx)],
    ) == LedgerStatus::Disputed)
}

/// No deposit of a rocks-store run reuses the number of a transaction that is
/// in dispute when the deposit comes.
pub open spec fn rocks_deposits_fresh(s: StoreView, cmds: Seq<Command>) -> bool
    decreases cmds.len(),
{
    cmds.len() == 0 || (rocks_deposits_fresh(s, cmds.drop_last()) && deposit_fresh(
        rocks_run(s, cmds.drop_last()),
        cmds.last(),
    ))
}

/// No deposit of a sled-store run reuses the number of a transaction that is
/// in dispute when the deposit comes.
pub open spec fn sled_deposits_fresh(s: StoreView, cmds: Seq<Command>) -> bool
    decreases cmds.len(),
{
    cmds.len() == 0 || (sled_deposits_fresh(s, cmds.drop_last()) && deposit_fresh(
        sled_run(s, cmds.drop_last()),
        cmds.last(),
    ))
}

/// What the engine does with the next row of the input: a row that could
/// not be read ends the run with its error; a transaction becomes the command
/// of its kind, which the store then applies (a command the store refuses is
/// reported and the run goes on).
pub fn next_command<E>(row: Result<Transaction, E>) -> (r: Result<Command, E>)
    ensures
        match row {
            Ok(tx) => r == Ok::<Command, E>(command_of(tx)),
            Err(e) => r == Err::<Command, E>(e),
        },
{
    match row {
        Ok(tx) => Ok(Command::from_transaction(&tx)),
        Err(e) => Err(e),
    }
}

/// Every store that a run reaches from an empty store, in either store, has
/// well-formed records, charged-back transactions only on frozen accounts,
/// and no negative recorded amount, where no deposit of the run is negative.
pub proof fn lemma_runs_keep_invariants(cmds: Seq<Command>)
    requires
        forall|i: int| 0 <= i < cmds.len() ==> (#[trigger] cmds[i] matches Command::Deposit(d) ==> d.amount >= 0),
    ensures
        valid_store(rocks_run(empty_store(), cmds)),
        chargebacks_frozen(rocks_run(empty_store(), cmds)),
        amounts_not_negative(rocks_run(empty_store(), cmds)),
        valid_store(sled_run(empty_store(), cmds)),
        chargebacks_frozen(sled_run(empty_store(), cmds)),
        amounts_not_negative(sled_run(empty_store(), cmds)),
    decreases cmds.len(),
{
    if cmds.len() == 0 {
        lemma_empty_store_invariants();
    } else {
        let front = cmds.drop_last();
        assert forall|i: int| 0 <= i < front.len() implies (#[trigger] front[i] matches Command::Deposit(d)
            ==> d.amount >= 0) by {
            assert(front[i] == cmds[i]);
        }
        lemma_runs_keep_invariants(front);
        let last = cmds.last();
        assert(last == cmds[cmds.len() - 1]);
        let r = rocks_run(empty_store(), front);
        let q = sled_run(empty_store(), front);
        lemma_steps_keep_store_valid(r, last);
        lemma_steps_keep_store_valid(q, last);
        lemma_chargeback_is_final(r, last, 0, 0);
        lemma_chargeback_is_final(q, last, 0, 0);
        lemma_amounts_stay_not_negative(r, last);
        lemma_amounts_stay_not_negative(q, last);
    }
}

/// In every store that a run reaches from an empty store, each account's held
/// funds are exactly the amounts of its disputed transactions, where no
/// deposit of the run reuses the number of a transaction in dispute.
pub proof fn lemma_runs_hold_disputed_amounts(cmds: Seq<Command>)
    ensures
        rocks_deposits_fresh(empty_store(), cmds) ==> held_tracks_disputes(
            rocks_run(empty_store(), cmds),
        ),
        sled_deposits_fresh(empty_store(), cmds) ==> held_tracks_disputes(
            sled_run(empty_store(), cmds),
        ),
    decreases cmds.len(),
{
    if cmds.len() == 0 {
        lemma_empty_store_invariants();
    } else {
        let front = cmds.drop_last();
        let last = cmds.last();
        lemma_runs_hold_disputed_amounts(front);
        lemma_runs_stay_valid(front);
        let r = rocks_run(empty_store(), front);
        let q = sled_run(empty_store(), front);
        if rocks_deposits_fresh(empty_store(), cmds) {
            lemma_held_is_disputed_amounts(r, last);
        }
        if sled_deposits_fresh(empty_store(), cmds) {
            lemma_held_is_disputed_amounts(q, last);
        }
    }
}

/// Every store that a run reaches from an empty store has well-formed
/// records.
proof fn lemma_runs_stay_valid(cmds: Seq<Command>)
    ensures
        valid_store(rocks_run(empty_store(), cmds)),
        valid_store(sled_run(empty_store(), cmds)),
    decreases cmds.len(),
{
    if cmds.len() == 0 {
        lemma_empty_store_invariants();
    } else {
        lemma_runs_stay_valid(cmds.drop_last());
        lemma_steps_keep_store_valid(rocks_run(empty_store(), cmds.drop_last()), cmds.last());
        lemma_steps_keep_store_valid(sled_run(empty_store(), cmds.drop_last()), cmds.last());
    }
}

} // verus!
