//! The whole store as a model, the effect of one command on it under the
//! rules of each store, and the laws that hold of every sequence of commands.
use vstd::prelude::*;
use crate::db::layout::{
    fits_i128, i128_bytes, lemma_i128_bytes_of_read, lemma_i128_write_read, lemma_splice16,
};
use crate::db::rocks::{
    rocks_chargeback_rule, rocks_dispute_rule, rocks_resolve_rule, rocks_withdrawal_rule,
};
use crate::db::sled::{
    sled_chargeback_rule, sled_dispute_rule, sled_resolve_rule, sled_withdrawal_rule,
};
use crate::db::{
    fits_balance, fits_counter,
    amount_of, chargeback_funds_rule, new_balance, dispute_funds_rule, resolve_funds_rule, Chargeback, Deposit, Dispute, Resolve, Withdrawal, available_of, deposit_rule, frozen_of, held_of, status_of, with_available, with_frozen,
    with_held, with_status, unchanged, Command, LedgerStatus, StoreError, WritesView, BALANCE_LEN,
    LEDGER_VALUE_LEN,
};

verus! {

/// What a store holds: the balance record of each client and the ledger value
/// of each (client, transaction).
#[verifier::ext_equal]
pub struct StoreView {
    pub balances: Map<u16, Seq<u8>>,
    pub ledger: Map<(u16, u32), Seq<u8>>,
}

/// The balance record of `client`, if it has one.
pub open spec fn balance_in(s: StoreView, client: u16) -> Option<Seq<u8>> {
    if s.balances.contains_key(client) {
        Some(s.balances[client])
    } else {
        None
    }
}

/// The ledger value of transaction `tx` of `client`, if there is one.
pub open spec fn entry_in(s: StoreView, client: u16, tx: u32) -> Option<Seq<u8>> {
    if s.ledger.contains_key((client, tx)) {
        Some(s.ledger[(client, tx)])
    } else {
        None
    }
}

/// The store after a command of `client` about `tx` wrote `w`.
pub open spec fn apply_writes(s: StoreView, client: u16, tx: u32, w: WritesView) -> StoreView {
    StoreView {
        balances: match w.balance {
            Some(b) => s.balances.insert(client, b),
            None => s.balances,
        },
        ledger: match w.ledger {
            Some(l) => s.ledger.insert((client, tx), l),
            None => s.ledger,
        },
    }
}

/// The store and the reply after a command whose rule gave `r`: a refused
/// command writes nothing.
pub open spec fn settle(s: StoreView, client: u16, tx: u32, r: Result<WritesView, StoreError>) -> (
    StoreView,
    Result<(), StoreError>,
) {
    match r {
        Ok(w) => (apply_writes(s, client, tx, w), Ok(())),
        Err(e) => (s, Err(e)),
    }
}

/// One command applied to the rocks store.
pub open spec fn rocks_step(s: StoreView, cmd: Command) -> (StoreView, Result<(), StoreError>) {
    match cmd {
        Command::Deposit(c) => settle(
            s,
            c.client,
            c.tx,
            deposit_rule(balance_in(s, c.client), c.amount as int),
        ),
        Command::Withdrawal(c) => settle(
            s,
            c.client,
            c.tx,
            rocks_withdrawal_rule(balance_in(s, c.client), c.amount as int),
        ),
        Command::Dispute(c) => settle(
            s,
            c.client,
            c.tx,
            rocks_dispute_rule(entry_in(s, c.client, c.tx), balance_in(s, c.client)),
        ),
        Command::Resolve(c) => settle(
            s,
            c.client,
            c.tx,
            rocks_resolve_rule(entry_in(s, c.client, c.tx), balance_in(s, c.client)),
        ),
        Command::Chargeback(c) => settle(
            s,
            c.client,
            c.tx,
            rocks_chargeback_rule(entry_in(s, c.client, c.tx), balance_in(s, c.client)),
        ),
    }
}

/// One command applied to the sled store.
pub open spec fn sled_step(s: StoreView, cmd: Command) -> (StoreView, Result<(), StoreError>) {
    match cmd {
        Command::Deposit(c) => settle(
            s,
            c.client,
            c.tx,
            deposit_rule(balance_in(s, c.client), c.amount as int),
        ),
        Command::Withdrawal(c) => settle(
            s,
            c.client,
            c.tx,
            sled_withdrawal_rule(balance_in(s, c.client), c.amount as int),
        ),
        Command::Dispute(c) => settle(
            s,
            c.client,
            c.tx,
            sled_dispute_rule(entry_in(s, c.client, c.tx), balance_in(s, c.client)),
        ),
        Command::Resolve(c) => settle(
            s,
            c.client,
            c.tx,
            sled_resolve_rule(entry_in(s, c.client, c.tx), balance_in(s, c.client)),
        ),
        Command::Chargeback(c) => settle(
            s,
            c.client,
            c.tx,
            sled_chargeback_rule(entry_in(s, c.client, c.tx), balance_in(s, c.client)),
        ),
    }
}

/// A well-formed balance record: of full length, with a frozen flag of 0 or 1,
/// and available and held amounts whose total fits a counter.
pub open spec fn wf_balance(b: Seq<u8>) -> bool {
    &&& b.len() == BALANCE_LEN
    &&& b[0] == 0 || b[0] == 1
    &&& fits_balance(available_of(b), held_of(b))
}

/// A well-formed ledger value: of full length, with a status byte that
/// encodes a status.
pub open spec fn wf_entry(l: Seq<u8>) -> bool {
    l.len() == LEDGER_VALUE_LEN && (l[16] == 0 || l[16] == 1 || l[16] == 3 || l[16] == 4)
}

/// Every record of the store is well formed.
pub open spec fn valid_store(s: StoreView) -> bool {
    &&& forall|c: u16| #[trigger] s.balances.contains_key(c) ==> wf_balance(s.balances[c])
    &&& forall|k: (u16, u32)| #[trigger] s.ledger.contains_key(k) ==> wf_entry(s.ledger[k])
}

/// Every charged-back transaction belongs to a client whose account is
/// frozen.
pub open spec fn chargebacks_frozen(s: StoreView) -> bool {
    forall|c: u16, t: u32|
        #[trigger] s.ledger.contains_key((c, t)) && status_of(s.ledger[(c, t)])
            == LedgerStatus::ChargedBack ==> s.balances.contains_key(c) && frozen_of(s.balances[c])
}

/// The available and held amounts of a balance record together.
pub open spec fn total_of(b: Seq<u8>) -> int {
    available_of(b) + held_of(b)
}

/// Setting the available amount changes only that field.
proof fn lemma_with_available(b: Seq<u8>, v: int)
    requires
        b.len() >= BALANCE_LEN,
        fits_i128(v),
    ensures
        with_available(b, v).len() == b.len(),
        with_available(b, v)[0] == b[0],
        available_of(with_available(b, v)) == v,
        held_of(with_available(b, v)) == held_of(b),
{
    lemma_splice16(b, 1, i128_bytes(v));
    lemma_i128_write_read(b, 1, v, 17);
}

/// Setting the held amount changes only that field.
proof fn lemma_with_held(b: Seq<u8>, v: int)
    requires
        b.len() >= BALANCE_LEN,
        fits_i128(v),
    ensures
        with_held(b, v).len() == b.len(),
        with_held(b, v)[0] == b[0],
        held_of(with_held(b, v)) == v,
        available_of(with_held(b, v)) == available_of(b),
{
    lemma_splice16(b, 17, i128_bytes(v));
    lemma_i128_write_read(b, 17, v, 1);
}

/// Setting both amounts of a balance record: the fields read back, the flag
/// stays.
proof fn lemma_with_amounts(b: Seq<u8>, available: int, held: int)
    requires
        b.len() >= BALANCE_LEN,
        fits_i128(available),
        fits_i128(held),
    ensures
        with_held(with_available(b, available), held).len() == b.len(),
        with_held(with_available(b, available), held)[0] == b[0],
        available_of(with_held(with_available(b, available), held)) == available,
        held_of(with_held(with_available(b, available), held)) == held,
{
    lemma_with_available(b, available);
    lemma_with_held(with_available(b, available), held);
}

/// Setting both amounts of a balance record twice: the second setting wins,
/// and setting them to what the record held gives the record back.
proof fn lemma_amounts_restored(b: Seq<u8>, a1: int, h1: int)
    requires
        b.len() >= BALANCE_LEN,
        fits_i128(a1),
        fits_i128(h1),
    ensures
        with_held(
            with_available(with_held(with_available(b, a1), h1), available_of(b)),
            held_of(b),
        ) == b,
{
    let a = available_of(b);
    let h = held_of(b);
    lemma_i128_bytes_of_read(b, 1);
    lemma_i128_bytes_of_read(b, 17);
    let b1 = with_available(b, a1);
    let b2 = with_held(b1, h1);
    let b3 = with_available(b2, a);
    let b4 = with_held(b3, h);
    lemma_splice16(b, 1, i128_bytes(a1));
    lemma_splice16(b1, 17, i128_bytes(h1));
    lemma_splice16(b2, 1, i128_bytes(a));
    lemma_splice16(b3, 17, i128_bytes(h));
    assert forall|i: int| 0 <= i < b.len() implies b4[i] == b[i] by {
        if 1 <= i < 17 {
            assert(b.subrange(1, 17)[i - 1] == b[i]);
        } else if 17 <= i < 33 {
            assert(b.subrange(17, 33)[i - 17] == b[i]);
        }
    }
    assert(b4 =~= b);
}

/// The record of a client that had none holds nothing.
proof fn lemma_fresh_balance_holds_nothing()
    ensures
        available_of(Seq::new(BALANCE_LEN as nat, |i: int| 0u8)) == 0,
        held_of(Seq::new(BALANCE_LEN as nat, |i: int| 0u8)) == 0,
{
    let z: u8 = 0;
    assert(crate::db::layout::be_u64(z, z, z, z, z, z, z, z) == 0) by (bit_vector)
        requires
            z == 0,
    ;
    let b = Seq::new(BALANCE_LEN as nat, |i: int| 0u8);
    assert(crate::db::layout::u64_at(b, 1) == 0);
    assert(crate::db::layout::u64_at(b, 9) == 0);
    assert(crate::db::layout::u64_at(b, 17) == 0);
    assert(crate::db::layout::u64_at(b, 25) == 0);
}

/// Every command keeps every record of either store well formed.
#[verifier::spinoff_prover]
#[verifier::rlimit(60)]
pub proof fn lemma_steps_keep_store_valid(s: StoreView, cmd: Command)
    requires
        valid_store(s),
    ensures
        valid_store(rocks_step(s, cmd).0),
        valid_store(sled_step(s, cmd).0),
{
    lemma_fresh_balance_holds_nothing();
    assert(wf_balance(Seq::new(BALANCE_LEN as nat, |i: int| 0u8)));
    match cmd {
        Command::Deposit(c) => {
            let b = match balance_in(s, c.client) {
                Some(b) => b,
                None => Seq::new(BALANCE_LEN as nat, |i: int| 0u8),
            };
            if fits_counter(available_of(b) + c.amount) {
                lemma_with_available(b, available_of(b) + c.amount);
            }
            assert(i128_bytes(c.amount as int).push(0u8).len() == LEDGER_VALUE_LEN);
        },
        Command::Withdrawal(c) => {
            if s.balances.contains_key(c.client) {
                let b = s.balances[c.client];
                if fits_counter(available_of(b) - c.amount) {
                    lemma_with_available(b, available_of(b) - c.amount);
                }
            }
        },
        Command::Dispute(c) => {
            if s.balances.contains_key(c.client) && s.ledger.contains_key((c.client, c.tx)) {
                let b = s.balances[c.client];
                let l = s.ledger[(c.client, c.tx)];
                let x = crate::db::amount_of(l);
                if fits_counter(available_of(b) - x) && fits_counter(held_of(b) + x) {
                    lemma_with_amounts(b, available_of(b) - x, held_of(b) + x);
                }
            }
        },
        Command::Resolve(c) => {
            if s.balances.contains_key(c.client) && s.ledger.contains_key((c.client, c.tx)) {
                let b = s.balances[c.client];
                let l = s.ledger[(c.client, c.tx)];
                let x = crate::db::amount_of(l);
                if fits_counter(available_of(b) + x) && fits_counter(held_of(b) - x) {
                    lemma_with_amounts(b, available_of(b) + x, held_of(b) - x);
                }
            }
        },
        Command::Chargeback(c) => {
            if s.balances.contains_key(c.client) && s.ledger.contains_key((c.client, c.tx)) {
                let b = s.balances[c.client];
                let l = s.ledger[(c.client, c.tx)];
                let x = crate::db::amount_of(l);
                if fits_counter(held_of(b) - x) {
                    lemma_with_held(b, held_of(b) - x);
                    lemma_with_frozen(with_held(b, held_of(b) - x), true);
                }
            }
        },
    }
}

/// Setting the status of a ledger value changes only its status.
proof fn lemma_with_status(l: Seq<u8>, status: LedgerStatus)
    requires
        l.len() >= LEDGER_VALUE_LEN,
    ensures
        with_status(l, status).len() == l.len(),
        status_of(with_status(l, status)) == status,
        amount_of(with_status(l, status)) == amount_of(l),
{
    let m = with_status(l, status);
    assert forall|i: int| 0 <= i < 16 implies m[i] == l[i] by {}
}

/// Setting the frozen flag changes only the flag.
proof fn lemma_with_frozen(b: Seq<u8>, frozen: bool)
    requires
        b.len() >= BALANCE_LEN,
    ensures
        with_frozen(b, frozen).len() == b.len(),
        frozen_of(with_frozen(b, frozen)) == frozen,
        available_of(with_frozen(b, frozen)) == available_of(b),
        held_of(with_frozen(b, frozen)) == held_of(b),
{
    let c = with_frozen(b, frozen);
    assert forall|i: int| 1 <= i < b.len() implies c[i] == b[i] by {}
}

/// The balance record of client `c` in the two stores after any one command:
/// it stays, and stays frozen where it was.
#[verifier::spinoff_prover]
#[verifier::rlimit(60)]
proof fn lemma_step_records(s: StoreView, cmd: Command, c: u16)
    requires
        valid_store(s),
    ensures
        ({
            let r = rocks_step(s, cmd).0;
            let q = sled_step(s, cmd).0;
            &&& s.balances.contains_key(c) ==> r.balances.contains_key(c) && q.balances.contains_key(c)
            &&& s.balances.contains_key(c) && frozen_of(s.balances[c]) ==> frozen_of(r.balances[c])
                && frozen_of(q.balances[c])
        }),
{
    lemma_steps_keep_store_valid(s, cmd);
    match cmd {
        Command::Deposit(d) => {
            if d.client == c && s.balances.contains_key(c) {
                let b = s.balances[c];
                if fits_counter(available_of(b) + d.amount) {
                    lemma_with_available(b, available_of(b) + d.amount);
                }
            }
        },
        Command::Withdrawal(w) => {
            if w.client == c && s.balances.contains_key(c) {
                let b = s.balances[c];
                if fits_counter(available_of(b) - w.amount) {
                    lemma_with_available(b, available_of(b) - w.amount);
                }
            }
        },
        Command::Dispute(d) => {
            if d.client == c && s.balances.contains_key(c) && s.ledger.contains_key((c, d.tx)) {
                let b = s.balances[c];
                let x = amount_of(s.ledger[(c, d.tx)]);
                if fits_counter(available_of(b) - x) && fits_counter(held_of(b) + x) {
                    lemma_with_amounts(b, available_of(b) - x, held_of(b) + x);
                }
            }
        },
        Command::Resolve(d) => {
            if d.client == c && s.balances.contains_key(c) && s.ledger.contains_key((c, d.tx)) {
                let b = s.balances[c];
                let x = amount_of(s.ledger[(c, d.tx)]);
                if fits_counter(available_of(b) + x) && fits_counter(held_of(b) - x) {
                    lemma_with_amounts(b, available_of(b) + x, held_of(b) - x);
                }
            }
        },
        Command::Chargeback(d) => {
            if d.client == c && s.balances.contains_key(c) && s.ledger.contains_key((c, d.tx)) {
                let b = s.balances[c];
                let x = amount_of(s.ledger[(c, d.tx)]);
                if fits_counter(held_of(b) - x) {
                    lemma_with_held(b, held_of(b) - x);
                }
            }
        },
    }
}

/// A frozen account stays frozen: no command of either store unfreezes it or
/// removes its record.
pub proof fn lemma_frozen_stays_frozen(s: StoreView, cmd: Command, client: u16)
    requires
        valid_store(s),
        s.balances.contains_key(client),
        frozen_of(s.balances[client]),
    ensures
        rocks_step(s, cmd).0.balances.contains_key(client),
        frozen_of(rocks_step(s, cmd).0.balances[client]),
        sled_step(s, cmd).0.balances.contains_key(client),
        frozen_of(sled_step(s, cmd).0.balances[client]),
{
    lemma_step_records(s, cmd, client);
}

/// A frozen account takes no deposit and gives no withdrawal: both stores
/// refuse the deposit; the rocks store refuses the withdrawal and the sled
/// store ignores it. Nothing changes.
pub proof fn lemma_frozen_account_refuses_funds(s: StoreView, deposit: Deposit, withdrawal: Withdrawal)
    requires
        valid_store(s),
        deposit.client == withdrawal.client,
        s.balances.contains_key(deposit.client),
        frozen_of(s.balances[deposit.client]),
    ensures
        rocks_step(s, Command::Deposit(deposit)) == (s, Err::<(), StoreError>(StoreError::AccountFrozen)),
        sled_step(s, Command::Deposit(deposit)) == (s, Err::<(), StoreError>(StoreError::AccountFrozen)),
        rocks_step(s, Command::Withdrawal(withdrawal)) == (s, Err::<(), StoreError>(StoreError::AccountFrozen)),
        sled_step(s, Command::Withdrawal(withdrawal)) == (s, Ok::<(), StoreError>(())),
{
    assert(apply_writes(s, withdrawal.client, withdrawal.tx, unchanged()) =~= s);
}

/// The funds that a dispute moves, a resolve moves back: the balance record
/// comes back as it was, and the entry ends `Resolved`.
proof fn lemma_funds_round_trip(b: Seq<u8>, l: Seq<u8>)
    requires
        wf_balance(b),
        wf_entry(l),
        dispute_funds_rule(b, l) is Ok,
    ensures
        ({
            let x = amount_of(l);
            let b1 = with_held(with_available(b, available_of(b) - x), held_of(b) + x);
            let l1 = with_status(l, LedgerStatus::Disputed);
            &&& dispute_funds_rule(b, l) == Ok::<WritesView, StoreError>(
                WritesView { balance: Some(b1), ledger: Some(l1) },
            )
            &&& status_of(l1) == LedgerStatus::Disputed
            &&& resolve_funds_rule(b1, l1) == Ok::<WritesView, StoreError>(
                WritesView {
                    balance: Some(b),
                    ledger: Some(with_status(l, LedgerStatus::Resolved)),
                },
            )
        }),
{
    let x = amount_of(l);
    let a = available_of(b);
    let h = held_of(b);
    lemma_with_amounts(b, a - x, h + x);
    lemma_amounts_restored(b, a - x, h + x);
    lemma_with_status(l, LedgerStatus::Disputed);
    let l1 = with_status(l, LedgerStatus::Disputed);
    lemma_with_status(l1, LedgerStatus::Resolved);
    assert(with_status(l1, LedgerStatus::Resolved) =~= with_status(l, LedgerStatus::Resolved));
}

/// A resolve undoes the funds move of a dispute: where the dispute of a
/// `Normal` transaction is accepted, resolving it gives every balance back as
/// it was, answers success, and leaves the transaction `Resolved`, in both
/// stores.
pub proof fn lemma_resolve_undoes_dispute(s: StoreView, client: u16, tx: u32)
    requires
        valid_store(s),
        s.ledger.contains_key((client, tx)),
        status_of(s.ledger[(client, tx)]) == LedgerStatus::Normal,
        rocks_step(s, Command::Dispute(Dispute { client, tx })).1 == Ok::<(), StoreError>(()),
    ensures
        ({
            let d = Command::Dispute(Dispute { client, tx });
            let r = Command::Resolve(Resolve { client, tx });
            let after = s.ledger.insert(
                (client, tx),
                with_status(s.ledger[(client, tx)], LedgerStatus::Resolved),
            );
            &&& sled_step(s, d).1 == Ok::<(), StoreError>(())
            &&& rocks_step(rocks_step(s, d).0, r).1 == Ok::<(), StoreError>(())
            &&& sled_step(sled_step(s, d).0, r).1 == Ok::<(), StoreError>(())
            &&& rocks_step(rocks_step(s, d).0, r).0.balances == s.balances
            &&& sled_step(sled_step(s, d).0, r).0.balances == s.balances
            &&& s.balances.contains_key(client) ==> rocks_step(rocks_step(s, d).0, r).0.ledger
                == after && sled_step(sled_step(s, d).0, r).0.ledger == after
        }),
{
    let d = Command::Dispute(Dispute { client, tx });
    let r = Command::Resolve(Resolve { client, tx });
    let l = s.ledger[(client, tx)];
    if s.balances.contains_key(client) {
        let b = s.balances[client];
        lemma_funds_round_trip(b, l);
        let x = amount_of(l);
        let b1 = with_held(with_available(b, available_of(b) - x), held_of(b) + x);
        let l1 = with_status(l, LedgerStatus::Disputed);
        let s1 = apply_writes(s, client, tx, WritesView { balance: Some(b1), ledger: Some(l1) });
        assert(rocks_step(s, d).0 == s1);
        assert(sled_step(s, d).0 == s1);
        assert(entry_in(s1, client, tx) == Some(l1));
        assert(balance_in(s1, client) == Some(b1));
        let s2 = apply_writes(
            s1,
            client,
            tx,
            WritesView { balance: Some(b), ledger: Some(with_status(l, LedgerStatus::Resolved)) },
        );
        assert(rocks_step(s1, r).0 == s2);
        assert(sled_step(s1, r).0 == s2);
        assert(s2.balances =~= s.balances);
        assert(s2.ledger =~= s.ledger.insert((client, tx), with_status(l, LedgerStatus::Resolved)));
    } else {
        assert(apply_writes(s, client, tx, unchanged()) =~= s);
        lemma_status_guards(s, client, tx);
    }
}

/// A resolved transaction stays resolved and can never be disputed again:
/// every command of either store but a new deposit under the same
/// transaction number keeps it `Resolved`, and a dispute of it changes
/// nothing.
pub proof fn lemma_resolved_is_final(s: StoreView, cmd: Command, client: u16, tx: u32)
    requires
        valid_store(s),
        s.ledger.contains_key((client, tx)),
        status_of(s.ledger[(client, tx)]) == LedgerStatus::Resolved,
        !(cmd matches Command::Deposit(d) && d.client == client && d.tx == tx),
    ensures
        rocks_step(s, cmd).0.ledger.contains_key((client, tx)),
        status_of(rocks_step(s, cmd).0.ledger[(client, tx)]) == LedgerStatus::Resolved,
        sled_step(s, cmd).0.ledger.contains_key((client, tx)),
        status_of(sled_step(s, cmd).0.ledger[(client, tx)]) == LedgerStatus::Resolved,
        rocks_step(s, Command::Dispute(Dispute { client, tx })) == (s, Ok::<(), StoreError>(())),
        sled_step(s, Command::Dispute(Dispute { client, tx })) == (s, Ok::<(), StoreError>(())),
{
    lemma_status_guards(s, client, tx);
    match cmd {
        Command::Deposit(d) => {},
        Command::Withdrawal(_) => {},
        Command::Dispute(d) => {
            if d.client == client && d.tx == tx {
                assert(apply_writes(s, client, tx, unchanged()) =~= s);
            }
        },
        Command::Resolve(d) => {
            if d.client == client && d.tx == tx {
                assert(apply_writes(s, client, tx, unchanged()) =~= s);
            }
        },
        Command::Chargeback(d) => {
            if d.client == client && d.tx == tx {
                assert(apply_writes(s, client, tx, unchanged()) =~= s);
            }
        },
    }
}

/// Moving funds between available and held never changes a client's total:
/// a dispute or a resolve leaves available plus held as it was, in both
/// stores.
pub proof fn lemma_dispute_and_resolve_keep_total(s: StoreView, client: u16, tx: u32)
    requires
        valid_store(s),
        s.balances.contains_key(client),
    ensures
        total_of(rocks_step(s, Command::Dispute(Dispute { client, tx })).0.balances[client])
            == total_of(s.balances[client]),
        total_of(sled_step(s, Command::Dispute(Dispute { client, tx })).0.balances[client])
            == total_of(s.balances[client]),
        total_of(rocks_step(s, Command::Resolve(Resolve { client, tx })).0.balances[client])
            == total_of(s.balances[client]),
        total_of(sled_step(s, Command::Resolve(Resolve { client, tx })).0.balances[client])
            == total_of(s.balances[client]),
{
    let b = s.balances[client];
    if s.ledger.contains_key((client, tx)) {
        let x = amount_of(s.ledger[(client, tx)]);
        if fits_counter(available_of(b) - x) && fits_counter(held_of(b) + x) {
            lemma_with_amounts(b, available_of(b) - x, held_of(b) + x);
        }
        if fits_counter(available_of(b) + x) && fits_counter(held_of(b) - x) {
            lemma_with_amounts(b, available_of(b) + x, held_of(b) - x);
        }
    }
}

/// A dispute, a resolve or a chargeback given twice does what it does once:
/// the repeat changes nothing and answers as the first did, in both stores.
pub proof fn lemma_repeat_changes_nothing(s: StoreView, client: u16, tx: u32)
    requires
        valid_store(s),
    ensures
        ({
            let d = Command::Dispute(Dispute { client, tx });
            rocks_step(rocks_step(s, d).0, d) == rocks_step(s, d)
                && sled_step(sled_step(s, d).0, d) == sled_step(s, d)
        }),
        ({
            let r = Command::Resolve(Resolve { client, tx });
            rocks_step(rocks_step(s, r).0, r) == rocks_step(s, r)
                && sled_step(sled_step(s, r).0, r) == sled_step(s, r)
        }),
        ({
            let c = Command::Chargeback(Chargeback { client, tx });
            rocks_step(rocks_step(s, c).0, c) == rocks_step(s, c)
                && sled_step(sled_step(s, c).0, c) == sled_step(s, c)
        }),
{
    if s.ledger.contains_key((client, tx)) {
        let l = s.ledger[(client, tx)];
        lemma_with_status(l, LedgerStatus::Disputed);
        lemma_with_status(l, LedgerStatus::Resolved);
        lemma_with_status(l, LedgerStatus::ChargedBack);
        let s1 = rocks_step(s, Command::Dispute(Dispute { client, tx })).0;
        assert(s1.ledger.contains_key((client, tx)));
        let s2 = rocks_step(s, Command::Resolve(Resolve { client, tx })).0;
        assert(s2.ledger.contains_key((client, tx)));
        let s3 = rocks_step(s, Command::Chargeback(Chargeback { client, tx })).0;
        assert(s3.ledger.contains_key((client, tx)));
        let q1 = sled_step(s, Command::Dispute(Dispute { client, tx })).0;
        assert(q1.ledger.contains_key((client, tx)));
        let q2 = sled_step(s, Command::Resolve(Resolve { client, tx })).0;
        assert(q2.ledger.contains_key((client, tx)));
        let q3 = sled_step(s, Command::Chargeback(Chargeback { client, tx })).0;
        assert(q3.ledger.contains_key((client, tx)));
    }
}

/// A chargeback is final: every command of either store keeps charged-back
/// transactions on frozen accounts, and a charged-back transaction stays
/// charged back.
pub proof fn lemma_chargeback_is_final(s: StoreView, cmd: Command, client: u16, tx: u32)
    requires
        valid_store(s),
        chargebacks_frozen(s),
    ensures
        chargebacks_frozen(rocks_step(s, cmd).0),
        chargebacks_frozen(sled_step(s, cmd).0),
        s.ledger.contains_key((client, tx)) && status_of(s.ledger[(client, tx)]) == LedgerStatus::ChargedBack
            ==> {
            &&& rocks_step(s, cmd).0.ledger.contains_key((client, tx))
            &&& status_of(rocks_step(s, cmd).0.ledger[(client, tx)]) == LedgerStatus::ChargedBack
            &&& sled_step(s, cmd).0.ledger.contains_key((client, tx))
            &&& status_of(sled_step(s, cmd).0.ledger[(client, tx)]) == LedgerStatus::ChargedBack
        },
{
    lemma_steps_keep_store_valid(s, cmd);
    let r = rocks_step(s, cmd).0;
    let q = sled_step(s, cmd).0;
    assert forall|c: u16, t: u32|
        #[trigger] r.ledger.contains_key((c, t)) && status_of(r.ledger[(c, t)])
            == LedgerStatus::ChargedBack implies r.balances.contains_key(c) && frozen_of(
        r.balances[c],
    ) by {
        lemma_charged_back_entry(s, cmd, c, t);
    }
    assert forall|c: u16, t: u32|
        #[trigger] q.ledger.contains_key((c, t)) && status_of(q.ledger[(c, t)])
            == LedgerStatus::ChargedBack implies q.balances.contains_key(c) && frozen_of(
        q.balances[c],
    ) by {
        lemma_charged_back_entry(s, cmd, c, t);
    }
    lemma_charged_back_entry(s, cmd, client, tx);
}

/// Where transaction `t` of client `c` is charged back after a command, it
/// was charged back before or the command charged it back; either way the
/// account is frozen after the command, and a transaction charged back
/// before stays so.
#[verifier::spinoff_prover]
#[verifier::rlimit(80)]
proof fn lemma_charged_back_entry(s: StoreView, cmd: Command, c: u16, t: u32)
    requires
        valid_store(s),
        chargebacks_frozen(s),
    ensures
        ({
            let r = rocks_step(s, cmd).0;
            r.ledger.contains_key((c, t)) && status_of(r.ledger[(c, t)]) == LedgerStatus::ChargedBack
                ==> r.balances.contains_key(c) && frozen_of(r.balances[c])
        }),
        ({
            let q = sled_step(s, cmd).0;
            q.ledger.contains_key((c, t)) && status_of(q.ledger[(c, t)]) == LedgerStatus::ChargedBack
                ==> q.balances.contains_key(c) && frozen_of(q.balances[c])
        }),
        s.ledger.contains_key((c, t)) && status_of(s.ledger[(c, t)]) == LedgerStatus::ChargedBack
            ==> {
            &&& rocks_step(s, cmd).0.ledger.contains_key((c, t))
            &&& status_of(rocks_step(s, cmd).0.ledger[(c, t)]) == LedgerStatus::ChargedBack
            &&& sled_step(s, cmd).0.ledger.contains_key((c, t))
            &&& status_of(sled_step(s, cmd).0.ledger[(c, t)]) == LedgerStatus::ChargedBack
        },
{
    lemma_step_records(s, cmd, c);
    if s.ledger.contains_key((c, t)) && status_of(s.ledger[(c, t)]) == LedgerStatus::ChargedBack {
        assert(s.balances.contains_key(c) && frozen_of(s.balances[c]));
    }
    match cmd {
        Command::Deposit(d) => {
            assert(status_of(i128_bytes(d.amount as int).push(0u8)) == LedgerStatus::Normal);
        },
        Command::Withdrawal(_) => {},
        Command::Dispute(d) => {
            if s.ledger.contains_key((d.client, d.tx)) {
                lemma_with_status(s.ledger[(d.client, d.tx)], LedgerStatus::Disputed);
            }
        },
        Command::Resolve(d) => {
            if s.ledger.contains_key((d.client, d.tx)) {
                lemma_with_status(s.ledger[(d.client, d.tx)], LedgerStatus::Resolved);
            }
        },
        Command::Chargeback(d) => {
            if s.ledger.contains_key((d.client, d.tx)) && s.balances.contains_key(d.client) {
                let b = s.balances[d.client];
                let x = amount_of(s.ledger[(d.client, d.tx)]);
                lemma_with_status(s.ledger[(d.client, d.tx)], LedgerStatus::ChargedBack);
                if fits_counter(held_of(b) - x) {
                    lemma_with_held(b, held_of(b) - x);
                }
            }
        },
    }
}

/// What a ledger value counts toward its client's held funds: its amount
/// while disputed, else nothing.
pub open spec fn disputed_amount(l: Seq<u8>) -> int {
    if status_of(l) == LedgerStatus::Disputed {
        amount_of(l)
    } else {
        0
    }
}

/// What the entry of transaction `t` of client `c` counts toward the held
/// funds.
pub open spec fn disputed_entry(ledger: Map<(u16, u32), Seq<u8>>, c: u16, t: u32) -> int {
    if ledger.contains_key((c, t)) {
        disputed_amount(ledger[(c, t)])
    } else {
        0
    }
}

/// The disputed amounts of client `c` over its transactions below `n`.
pub open spec fn disputed_below(ledger: Map<(u16, u32), Seq<u8>>, c: u16, n: nat) -> int
    decreases n,
{
    if n == 0 || n > 0x1_0000_0000 {
        0
    } else {
        disputed_below(ledger, c, (n - 1) as nat) + disputed_entry(ledger, c, (n - 1) as u32)
    }
}

/// The disputed amounts of all transactions of client `c`.
pub open spec fn disputed_total(ledger: Map<(u16, u32), Seq<u8>>, c: u16) -> int {
    disputed_below(ledger, c, 0x1_0000_0000)
}

/// The held funds of every account are the amounts of its disputed
/// transactions, and every transaction belongs to a client with an account.
pub open spec fn held_tracks_disputes(s: StoreView) -> bool {
    &&& forall|c: u16, t: u32| #[trigger] s.ledger.contains_key((c, t)) ==> s.balances.contains_key(c)
    &&& forall|c: u16| #[trigger] s.balances.contains_key(c) ==> held_of(s.balances[c]) == disputed_total(s.ledger, c)
}

/// Changing the ledger value of transaction `t0` of client `c0` changes the
/// disputed sum of `c0` by the change of what that entry counts, and no other
/// client's.
proof fn lemma_disputed_below_insert(
    ledger: Map<(u16, u32), Seq<u8>>,
    c0: u16,
    t0: u32,
    l: Seq<u8>,
    c: u16,
    n: nat,
)
    requires
        n <= 0x1_0000_0000,
    ensures
        disputed_below(ledger.insert((c0, t0), l), c, n) == disputed_below(ledger, c, n) + if c
            == c0 && t0 < n {
            disputed_amount(l) - disputed_entry(ledger, c0, t0)
        } else {
            0
        },
    decreases n,
{
    if n > 0 {
        lemma_disputed_below_insert(ledger, c0, t0, l, c, (n - 1) as nat);
        let t = (n - 1) as u32;
        if c == c0 && t == t0 {
            assert(disputed_entry(ledger.insert((c0, t0), l), c, t) == disputed_amount(l));
        } else {
            assert(ledger.insert((c0, t0), l).contains_key((c, t)) == ledger.contains_key((c, t)));
            if ledger.contains_key((c, t)) {
                assert(ledger.insert((c0, t0), l)[(c, t)] == ledger[(c, t)]);
            }
            assert(disputed_entry(ledger.insert((c0, t0), l), c, t) == disputed_entry(ledger, c, t));
        }
    }
}

/// A client without transactions has no disputed amounts.
proof fn lemma_disputed_below_none(ledger: Map<(u16, u32), Seq<u8>>, c: u16, n: nat)
    requires
        forall|t: u32| !ledger.contains_key((c, t)),
    ensures
        disputed_below(ledger, c, n) == 0,
    decreases n,
{
    if n > 0 {
        lemma_disputed_below_none(ledger, c, (n - 1) as nat);
    }
}

/// A command that writes a ledger value for `(c0, t0)` and perhaps a balance
/// record for `c0` keeps the held funds tracking the disputes, where the held
/// funds of `c0` change by what the entry's count changes.
proof fn lemma_tracking_kept(s: StoreView, c0: u16, t0: u32, w: WritesView)
    requires
        held_tracks_disputes(s),
        w.ledger is Some ==> w.balance is Some,
        w.balance is Some ==> s.balances.contains_key(c0) || (w.ledger is Some && disputed_amount(
            w.ledger.unwrap(),
        ) == 0 && held_of(w.balance.unwrap()) == 0),
        w.balance is Some && s.balances.contains_key(c0) ==> held_of(w.balance.unwrap()) == held_of(
            s.balances[c0],
        ) + match w.ledger {
            Some(l) => disputed_amount(l) - disputed_entry(s.ledger, c0, t0),
            None => 0,
        },
    ensures
        held_tracks_disputes(apply_writes(s, c0, t0, w)),
{
    let s2 = apply_writes(s, c0, t0, w);
    if !s.balances.contains_key(c0) {
        assert forall|t: u32| !s.ledger.contains_key((c0, t)) by {
            if s.ledger.contains_key((c0, t)) {
                assert(s.balances.contains_key(c0));
            }
        }
        lemma_disputed_below_none(s.ledger, c0, 0x1_0000_0000);
    }
    assert forall|c: u16| #[trigger] s2.balances.contains_key(c) implies held_of(s2.balances[c])
        == disputed_total(s2.ledger, c) by {
        match w.ledger {
            Some(l) => lemma_disputed_below_insert(s.ledger, c0, t0, l, c, 0x1_0000_0000),
            None => {},
        }
    }
}

/// The held funds of every account stay exactly the amounts of its disputed
/// transactions, under every command of either store but a deposit that
/// reuses the number of a disputed transaction of the same client.
pub proof fn lemma_held_is_disputed_amounts(s: StoreView, cmd: Command)
    requires
        valid_store(s),
        held_tracks_disputes(s),
        cmd matches Command::Deposit(d) ==> !(s.ledger.contains_key((d.client, d.tx))
            && status_of(s.ledger[(d.client, d.tx)]) == LedgerStatus::Disputed),
    ensures
        held_tracks_disputes(rocks_step(s, cmd).0),
        held_tracks_disputes(sled_step(s, cmd).0),
{
    match cmd {
        Command::Deposit(d) => lemma_held_tracking_deposit(s, d),
        Command::Withdrawal(d) => lemma_held_tracking_withdrawal(s, d),
        Command::Dispute(d) => lemma_held_tracking_dispute(s, d),
        Command::Resolve(d) => lemma_held_tracking_resolve(s, d),
        Command::Chargeback(d) => lemma_held_tracking_chargeback(s, d),
    }
}

#[verifier::spinoff_prover]
#[verifier::rlimit(80)]
proof fn lemma_held_tracking_deposit(s: StoreView, d: Deposit)
    requires
        valid_store(s),
        held_tracks_disputes(s),
        !(s.ledger.contains_key((d.client, d.tx)) && status_of(s.ledger[(d.client, d.tx)])
            == LedgerStatus::Disputed),
    ensures
        held_tracks_disputes(rocks_step(s, Command::Deposit(d)).0),
        held_tracks_disputes(sled_step(s, Command::Deposit(d)).0),
{
        let b = match balance_in(s, d.client) {
            Some(b) => b,
            None => Seq::new(BALANCE_LEN as nat, |i: int| 0u8),
        };
        if fits_counter(available_of(b) + d.amount) {
            lemma_with_available(b, available_of(b) + d.amount);
            let l = i128_bytes(d.amount as int).push(0u8);
            assert(status_of(l) == LedgerStatus::Normal);
            if !s.balances.contains_key(d.client) {
                lemma_fresh_balance_holds_nothing();
            }
            match deposit_rule(balance_in(s, d.client), d.amount as int) {
                Ok(w) => lemma_tracking_kept(s, d.client, d.tx, w),
                Err(_) => {},
            }
        }
}

#[verifier::rlimit(40)]
proof fn lemma_held_tracking_withdrawal(s: StoreView, d: Withdrawal)
    requires
        valid_store(s),
        held_tracks_disputes(s),
    ensures
        held_tracks_disputes(rocks_step(s, Command::Withdrawal(d)).0),
        held_tracks_disputes(sled_step(s, Command::Withdrawal(d)).0),
{
        if s.balances.contains_key(d.client) {
            let b = s.balances[d.client];
            if fits_counter(available_of(b) - d.amount) {
                lemma_with_available(b, available_of(b) - d.amount);
            }
            match rocks_withdrawal_rule(balance_in(s, d.client), d.amount as int) {
                Ok(w) => lemma_tracking_kept(s, d.client, d.tx, w),
                Err(_) => {},
            }
            match sled_withdrawal_rule(balance_in(s, d.client), d.amount as int) {
                Ok(w) => lemma_tracking_kept(s, d.client, d.tx, w),
                Err(_) => {},
            }
        }
}

#[verifier::rlimit(40)]
proof fn lemma_held_tracking_dispute(s: StoreView, d: Dispute)
    requires
        valid_store(s),
        held_tracks_disputes(s),
    ensures
        held_tracks_disputes(rocks_step(s, Command::Dispute(d)).0),
        held_tracks_disputes(sled_step(s, Command::Dispute(d)).0),
{
        if s.balances.contains_key(d.client) && s.ledger.contains_key((d.client, d.tx)) {
            let b = s.balances[d.client];
            let l = s.ledger[(d.client, d.tx)];
            let x = amount_of(l);
            lemma_with_status(l, LedgerStatus::Disputed);
            if fits_counter(available_of(b) - x) && fits_counter(held_of(b) + x) {
                lemma_with_amounts(b, available_of(b) - x, held_of(b) + x);
            }
            match rocks_dispute_rule(entry_in(s, d.client, d.tx), balance_in(s, d.client)) {
                Ok(w) => lemma_tracking_kept(s, d.client, d.tx, w),
                Err(_) => {},
            }
            match sled_dispute_rule(entry_in(s, d.client, d.tx), balance_in(s, d.client)) {
                Ok(w) => lemma_tracking_kept(s, d.client, d.tx, w),
                Err(_) => {},
            }
        }
}

#[verifier::rlimit(40)]
proof fn lemma_held_tracking_resolve(s: StoreView, d: Resolve)
    requires
        valid_store(s),
        held_tracks_disputes(s),
    ensures
        held_tracks_disputes(rocks_step(s, Command::Resolve(d)).0),
        held_tracks_disputes(sled_step(s, Command::Resolve(d)).0),
{
        if s.balances.contains_key(d.client) && s.ledger.contains_key((d.client, d.tx)) {
            let b = s.balances[d.client];
            let l = s.ledger[(d.client, d.tx)];
            let x = amount_of(l);
            lemma_with_status(l, LedgerStatus::Resolved);
            if fits_counter(available_of(b) + x) && fits_counter(held_of(b) - x) {
                lemma_with_amounts(b, available_of(b) + x, held_of(b) - x);
            }
            match rocks_resolve_rule(entry_in(s, d.client, d.tx), balance_in(s, d.client)) {
                Ok(w) => lemma_tracking_kept(s, d.client, d.tx, w),
                Err(_) => {},
            }
            match sled_resolve_rule(entry_in(s, d.client, d.tx), balance_in(s, d.client)) {
                Ok(w) => lemma_tracking_kept(s, d.client, d.tx, w),
                Err(_) => {},
            }
        }
}

#[verifier::rlimit(40)]
proof fn lemma_held_tracking_chargeback(s: StoreView, d: Chargeback)
    requires
        valid_store(s),
        held_tracks_disputes(s),
    ensures
        held_tracks_disputes(rocks_step(s, Command::Chargeback(d)).0),
        held_tracks_disputes(sled_step(s, Command::Chargeback(d)).0),
{
        if s.balances.contains_key(d.client) && s.ledger.contains_key((d.client, d.tx)) {
            let b = s.balances[d.client];
            let l = s.ledger[(d.client, d.tx)];
            let x = amount_of(l);
            lemma_with_status(l, LedgerStatus::ChargedBack);
            if fits_counter(held_of(b) - x) {
                lemma_with_held(b, held_of(b) - x);
                lemma_with_frozen(with_held(b, held_of(b) - x), true);
            }
            match rocks_chargeback_rule(entry_in(s, d.client, d.tx), balance_in(s, d.client)) {
                Ok(w) => lemma_tracking_kept(s, d.client, d.tx, w),
                Err(_) => {},
            }
            match sled_chargeback_rule(entry_in(s, d.client, d.tx), balance_in(s, d.client)) {
                Ok(w) => lemma_tracking_kept(s, d.client, d.tx, w),
                Err(_) => {},
            }
        }
}

/// Every recorded transaction has a non-negative amount.
pub open spec fn amounts_not_negative(s: StoreView) -> bool {
    forall|k: (u16, u32)| #[trigger] s.ledger.contains_key(k) ==> amount_of(s.ledger[k]) >= 0
}

proof fn lemma_disputed_below_not_negative(ledger: Map<(u16, u32), Seq<u8>>, c: u16, n: nat)
    requires
        forall|k: (u16, u32)| #[trigger] ledger.contains_key(k) ==> amount_of(ledger[k]) >= 0,
    ensures
        disputed_below(ledger, c, n) >= 0,
    decreases n,
{
    if n > 0 {
        lemma_disputed_below_not_negative(ledger, c, (n - 1) as nat);
    }
}

/// Held funds are never negative where every recorded amount is not: they
/// are the sum of the disputed ones.
pub proof fn lemma_held_not_negative(s: StoreView, client: u16)
    requires
        held_tracks_disputes(s),
        amounts_not_negative(s),
        s.balances.contains_key(client),
    ensures
        held_of(s.balances[client]) >= 0,
{
    lemma_disputed_below_not_negative(s.ledger, client, 0x1_0000_0000);
}

/// Recorded amounts stay non-negative under every command of either store
/// but a deposit of a negative amount.
#[verifier::spinoff_prover]
#[verifier::rlimit(60)]
pub proof fn lemma_amounts_stay_not_negative(s: StoreView, cmd: Command)
    requires
        valid_store(s),
        amounts_not_negative(s),
        cmd matches Command::Deposit(d) ==> d.amount >= 0,
    ensures
        amounts_not_negative(rocks_step(s, cmd).0),
        amounts_not_negative(sled_step(s, cmd).0),
{
    match cmd {
        Command::Deposit(d) => {
            let l = i128_bytes(d.amount as int).push(0u8);
            assert(l.subrange(0, 16) =~= i128_bytes(d.amount as int));
            crate::db::layout::lemma_i128_roundtrip(d.amount as int, l, 0);
        },
        Command::Withdrawal(_) => {},
        Command::Dispute(d) => {
            if s.ledger.contains_key((d.client, d.tx)) {
                lemma_with_status(s.ledger[(d.client, d.tx)], LedgerStatus::Disputed);
            }
        },
        Command::Resolve(d) => {
            if s.ledger.contains_key((d.client, d.tx)) {
                lemma_with_status(s.ledger[(d.client, d.tx)], LedgerStatus::Resolved);
            }
        },
        Command::Chargeback(d) => {
            if s.ledger.contains_key((d.client, d.tx)) {
                lemma_with_status(s.ledger[(d.client, d.tx)], LedgerStatus::ChargedBack);
            }
        },
    }
}

/// Only a `Normal` transaction can be disputed, and only a `Disputed` one
/// resolved or charged back: in both stores, the other commands change
/// nothing and succeed.
pub proof fn lemma_status_guards(s: StoreView, client: u16, tx: u32)
    requires
        valid_store(s),
    ensures
        !(s.ledger.contains_key((client, tx)) && status_of(s.ledger[(client, tx)])
            == LedgerStatus::Normal) ==> {
            let d = Command::Dispute(Dispute { client, tx });
            &&& rocks_step(s, d) == (s, Ok::<(), StoreError>(()))
            &&& sled_step(s, d) == (s, Ok::<(), StoreError>(()))
        },
        !(s.ledger.contains_key((client, tx)) && status_of(s.ledger[(client, tx)])
            == LedgerStatus::Disputed) ==> {
            let r = Command::Resolve(Resolve { client, tx });
            let c = Command::Chargeback(Chargeback { client, tx });
            &&& rocks_step(s, r) == (s, Ok::<(), StoreError>(()))
            &&& sled_step(s, r) == (s, Ok::<(), StoreError>(()))
            &&& rocks_step(s, c) == (s, Ok::<(), StoreError>(()))
            &&& sled_step(s, c) == (s, Ok::<(), StoreError>(()))
        },
{
    assert(apply_writes(s, client, tx, unchanged()) =~= s);
}

/// A store with no records.
pub open spec fn empty_store() -> StoreView {
    StoreView { balances: Map::empty(), ledger: Map::empty() }
}

/// A fresh store meets every invariant the laws above keep.
pub proof fn lemma_empty_store_invariants()
    ensures
        valid_store(empty_store()),
        chargebacks_frozen(empty_store()),
        held_tracks_disputes(empty_store()),
        amounts_not_negative(empty_store()),
{
}

/// A balance record of the length of `b` that holds exactly `available`,
/// `held` and the frozen flag `frozen`.
pub open spec fn record_holds(b2: Seq<u8>, b: Seq<u8>, available: int, held: int, frozen: bool) -> bool {
    &&& b2.len() == b.len()
    &&& available_of(b2) == available
    &&& held_of(b2) == held
    &&& frozen_of(b2) == frozen
}

/// A ledger value of the length of `l` that holds exactly `amount` and
/// `status`.
pub open spec fn entry_holds(l2: Seq<u8>, l: Seq<u8>, amount: int, status: LedgerStatus) -> bool {
    &&& l2.len() == l.len()
    &&& amount_of(l2) == amount
    &&& status_of(l2) == status
}

/// The ledger value a deposit records holds its amount, as `Normal`.
proof fn lemma_deposit_entry(amount: int)
    requires
        fits_counter(amount),
    ensures
        ({
            let l = i128_bytes(amount).push(0u8);
            &&& l.len() == LEDGER_VALUE_LEN
            &&& amount_of(l) == amount
            &&& status_of(l) == LedgerStatus::Normal
        }),
{
    let l = i128_bytes(amount).push(0u8);
    assert(l.subrange(0, 16) =~= i128_bytes(amount));
    crate::db::layout::lemma_i128_roundtrip(amount, l, 0);
}

/// A deposit, in both stores: refused on a frozen account; otherwise, where
/// the new balance fits the counters, it always succeeds, raises the
/// available funds by exactly the amount (from zero for a client without a
/// record, and whatever their sign before), leaves the held funds and the
/// flag as they were, and records the transaction as `Normal` with its
/// amount; where it does not fit, it is refused as an overflow.
pub proof fn lemma_deposit_credits(b: Seq<u8>, amount: int)
    requires
        fits_counter(amount),
        b.len() >= BALANCE_LEN,
    ensures
        frozen_of(b) ==> deposit_rule(Some(b), amount) == Err::<
            WritesView,
            StoreError,
        >(StoreError::AccountFrozen),
        !frozen_of(b) && !fits_balance(available_of(b) + amount, held_of(b))
            ==> deposit_rule(Some(b), amount) == Err::<WritesView, StoreError>(StoreError::Overflow),
        !frozen_of(b) && fits_balance(available_of(b) + amount, held_of(b))
            ==> {
            &&& deposit_rule(Some(b), amount) is Ok
            &&& deposit_rule(Some(b), amount)->Ok_0.balance is Some
            &&& record_holds(
                deposit_rule(Some(b), amount)->Ok_0.balance->Some_0,
                b,
                available_of(b) + amount,
                held_of(b),
                false,
            )
            &&& deposit_rule(Some(b), amount)->Ok_0.ledger is Some
            &&& entry_holds(
                deposit_rule(Some(b), amount)->Ok_0.ledger->Some_0,
                Seq::new(LEDGER_VALUE_LEN as nat, |i: int| 0u8),
                amount,
                LedgerStatus::Normal,
            )
        },
        ({
            &&& deposit_rule(None, amount) is Ok
            &&& deposit_rule(None, amount)->Ok_0.balance is Some
            &&& record_holds(
                deposit_rule(None, amount)->Ok_0.balance->Some_0,
                Seq::new(BALANCE_LEN as nat, |i: int| 0u8),
                amount,
                0,
                false,
            )
            &&& deposit_rule(None, amount)->Ok_0.ledger is Some
            &&& entry_holds(
                deposit_rule(None, amount)->Ok_0.ledger->Some_0,
                Seq::new(LEDGER_VALUE_LEN as nat, |i: int| 0u8),
                amount,
                LedgerStatus::Normal,
            )
        }),
{
    lemma_deposit_entry(amount);
    lemma_fresh_balance_holds_nothing();
    if fits_balance(available_of(b) + amount, held_of(b)) {
        lemma_with_available(b, available_of(b) + amount);
    }
    let z = new_balance();
    assert(z[0] == 0);
    lemma_with_available(z, amount);
}

/// A withdrawal in the rocks store: nothing happens for a client without a
/// record; it is refused on a frozen account, and refused as insufficient
/// funds only where the available funds are below the amount. Where they
/// cover it (the whole of them included) and the result fits the counters,
/// it always succeeds and lowers the available funds by exactly the amount,
/// leaving the held funds, the flag and the ledger as they were.
pub proof fn lemma_rocks_withdrawal_debits(b: Seq<u8>, amount: int)
    requires
        fits_counter(amount),
        b.len() >= BALANCE_LEN,
    ensures
        rocks_withdrawal_rule(None, amount) == Ok::<WritesView, StoreError>(
            unchanged(),
        ),
        frozen_of(b) ==> rocks_withdrawal_rule(Some(b), amount) == Err::<
            WritesView,
            StoreError,
        >(StoreError::AccountFrozen),
        !frozen_of(b) && available_of(b) < amount ==> rocks_withdrawal_rule(
            Some(b),
            amount,
        ) == Err::<WritesView, StoreError>(StoreError::InsufficientFunds),
        !frozen_of(b) && available_of(b) >= amount && !fits_balance(
            available_of(b) - amount,
            held_of(b),
        ) ==> rocks_withdrawal_rule(Some(b), amount) == Err::<WritesView, StoreError>(
            StoreError::Overflow,
        ),
        !frozen_of(b) && available_of(b) >= amount && fits_balance(
            available_of(b) - amount,
            held_of(b),
        ) ==> {
            &&& rocks_withdrawal_rule(Some(b), amount) is Ok
            &&& rocks_withdrawal_rule(Some(b), amount)->Ok_0.ledger is None
            &&& rocks_withdrawal_rule(Some(b), amount)->Ok_0.balance is Some
            &&& record_holds(
                rocks_withdrawal_rule(Some(b), amount)->Ok_0.balance->Some_0,
                b,
                available_of(b) - amount,
                held_of(b),
                false,
            )
        },
        !frozen_of(b) && available_of(b) == amount ==> {
            &&& rocks_withdrawal_rule(Some(b), amount) is Ok
            &&& rocks_withdrawal_rule(Some(b), amount)->Ok_0.balance is Some
            &&& available_of(rocks_withdrawal_rule(Some(b), amount)->Ok_0.balance->Some_0) == 0
        },
{
    lemma_i128_bytes_of_read(b, 17);
    if fits_balance(available_of(b) - amount, held_of(b)) {
        lemma_with_available(b, available_of(b) - amount);
    }
}

/// A withdrawal in the sled store: it changes nothing for a client without a
/// record, on a frozen account, or where the available funds are below the
/// amount. Where they cover it (the whole of them included) and the result
/// fits the counters, it always succeeds and lowers the available funds by
/// exactly the amount, leaving the held funds, the flag and the ledger as
/// they were.
pub proof fn lemma_sled_withdrawal_debits(b: Seq<u8>, amount: int)
    requires
        fits_counter(amount),
        b.len() >= BALANCE_LEN,
    ensures
        sled_withdrawal_rule(None, amount) == Ok::<WritesView, StoreError>(
            unchanged(),
        ),
        (frozen_of(b) || available_of(b) < amount) ==> sled_withdrawal_rule(
            Some(b),
            amount,
        ) == Ok::<WritesView, StoreError>(unchanged()),
        !frozen_of(b) && available_of(b) >= amount && !fits_balance(
            available_of(b) - amount,
            held_of(b),
        ) ==> sled_withdrawal_rule(Some(b), amount) == Err::<WritesView, StoreError>(
            StoreError::Overflow,
        ),
        !frozen_of(b) && available_of(b) >= amount && fits_balance(
            available_of(b) - amount,
            held_of(b),
        ) ==> {
            &&& sled_withdrawal_rule(Some(b), amount) is Ok
            &&& sled_withdrawal_rule(Some(b), amount)->Ok_0.ledger is None
            &&& sled_withdrawal_rule(Some(b), amount)->Ok_0.balance is Some
            &&& record_holds(
                sled_withdrawal_rule(Some(b), amount)->Ok_0.balance->Some_0,
                b,
                available_of(b) - amount,
                held_of(b),
                false,
            )
        },
        !frozen_of(b) && available_of(b) == amount ==> {
            &&& sled_withdrawal_rule(Some(b), amount) is Ok
            &&& sled_withdrawal_rule(Some(b), amount)->Ok_0.balance is Some
            &&& available_of(sled_withdrawal_rule(Some(b), amount)->Ok_0.balance->Some_0) == 0
        },
{
    lemma_i128_bytes_of_read(b, 17);
    if fits_balance(available_of(b) - amount, held_of(b)) {
        lemma_with_available(b, available_of(b) - amount);
    }
}

/// Whether a command's outcome `r` is success, writing the balance record
/// `b` changed to hold `available`, `held` and `frozen`, and the entry `l`
/// changed to `status` with its amount kept.
pub open spec fn applied_as(
    r: Result<WritesView, StoreError>,
    b: Seq<u8>,
    l: Seq<u8>,
    available: int,
    held: int,
    frozen: bool,
    status: LedgerStatus,
) -> bool {
    &&& r is Ok
    &&& r->Ok_0.balance is Some
    &&& record_holds(r->Ok_0.balance->Some_0, b, available, held, frozen)
    &&& r->Ok_0.ledger is Some
    &&& entry_holds(r->Ok_0.ledger->Some_0, l, amount_of(l), status)
}

/// A dispute, in both stores, of a `Normal` transaction of a client with a
/// balance record: where the result fits the counters it always succeeds,
/// moves exactly the transaction's amount from available to held, keeps the
/// flag, and marks the entry `Disputed`; otherwise it is an overflow. Any
/// other entry is left as it is, and so is an unknown transaction; a missing
/// balance record is an error in the rocks store and nothing in the sled
/// store.
pub proof fn lemma_dispute_moves_funds(l: Seq<u8>, b: Seq<u8>)
    requires
        l.len() >= LEDGER_VALUE_LEN,
        b.len() >= BALANCE_LEN,
    ensures
        ({
            let (x, a, h) = (amount_of(l), available_of(b), held_of(b));
            status_of(l) == LedgerStatus::Normal && fits_balance(a - x, h + x) ==> {
                &&& applied_as(rocks_dispute_rule(Some(l), Some(b)), b, l, a - x, h + x, frozen_of(b), LedgerStatus::Disputed)
                &&& applied_as(sled_dispute_rule(Some(l), Some(b)), b, l, a - x, h + x, frozen_of(b), LedgerStatus::Disputed)
            }
        }),
        ({
            let (x, a, h) = (amount_of(l), available_of(b), held_of(b));
            status_of(l) == LedgerStatus::Normal && !fits_balance(a - x, h + x) ==> {
                &&& rocks_dispute_rule(Some(l), Some(b)) == Err::<WritesView, StoreError>(StoreError::Overflow)
                &&& sled_dispute_rule(Some(l), Some(b)) == Err::<WritesView, StoreError>(StoreError::Overflow)
            }
        }),
        status_of(l) != LedgerStatus::Normal ==> {
            &&& rocks_dispute_rule(Some(l), Some(b)) == Ok::<WritesView, StoreError>(unchanged())
            &&& sled_dispute_rule(Some(l), Some(b)) == Ok::<WritesView, StoreError>(unchanged())
            &&& rocks_dispute_rule(Some(l), None) == Ok::<WritesView, StoreError>(unchanged())
        },
        status_of(l) == LedgerStatus::Normal ==> rocks_dispute_rule(Some(l), None) == Err::<
            WritesView,
            StoreError,
        >(StoreError::BalanceNotFoundForDispute),
        sled_dispute_rule(Some(l), None) == Ok::<WritesView, StoreError>(unchanged()),
        rocks_dispute_rule(None, Some(b)) == Ok::<WritesView, StoreError>(unchanged()),
        sled_dispute_rule(None, Some(b)) == Ok::<WritesView, StoreError>(unchanged()),
{
    let (x, a, h) = (amount_of(l), available_of(b), held_of(b));
    lemma_with_status(l, LedgerStatus::Disputed);
    if fits_balance(a - x, h + x) {
        lemma_with_amounts(b, a - x, h + x);
    }
}

/// A resolve, in both stores, of a `Disputed` transaction of a client with a
/// balance record: where the result fits the counters it always succeeds,
/// moves exactly the transaction's amount from held back to available, keeps
/// the flag, and marks the entry `Resolved`; otherwise it is an overflow. Any
/// other entry is left as it is, and so is an unknown transaction; a missing
/// balance record is an error in the rocks store and nothing in the sled
/// store.
pub proof fn lemma_resolve_returns_funds(l: Seq<u8>, b: Seq<u8>)
    requires
        l.len() >= LEDGER_VALUE_LEN,
        b.len() >= BALANCE_LEN,
    ensures
        ({
            let (x, a, h) = (amount_of(l), available_of(b), held_of(b));
            status_of(l) == LedgerStatus::Disputed && fits_balance(a + x, h - x) ==> {
                &&& applied_as(rocks_resolve_rule(Some(l), Some(b)), b, l, a + x, h - x, frozen_of(b), LedgerStatus::Resolved)
                &&& applied_as(sled_resolve_rule(Some(l), Some(b)), b, l, a + x, h - x, frozen_of(b), LedgerStatus::Resolved)
            }
        }),
        ({
            let (x, a, h) = (amount_of(l), available_of(b), held_of(b));
            status_of(l) == LedgerStatus::Disputed && !fits_balance(a + x, h - x) ==> {
                &&& rocks_resolve_rule(Some(l), Some(b)) == Err::<WritesView, StoreError>(StoreError::Overflow)
                &&& sled_resolve_rule(Some(l), Some(b)) == Err::<WritesView, StoreError>(StoreError::Overflow)
            }
        }),
        status_of(l) != LedgerStatus::Disputed ==> {
            &&& rocks_resolve_rule(Some(l), Some(b)) == Ok::<WritesView, StoreError>(unchanged())
            &&& sled_resolve_rule(Some(l), Some(b)) == Ok::<WritesView, StoreError>(unchanged())
            &&& rocks_resolve_rule(Some(l), None) == Ok::<WritesView, StoreError>(unchanged())
        },
        status_of(l) == LedgerStatus::Disputed ==> rocks_resolve_rule(Some(l), None) == Err::<
            WritesView,
            StoreError,
        >(StoreError::BalanceNotFoundForResolve),
        sled_resolve_rule(Some(l), None) == Ok::<WritesView, StoreError>(unchanged()),
        rocks_resolve_rule(None, Some(b)) == Ok::<WritesView, StoreError>(unchanged()),
        sled_resolve_rule(None, Some(b)) == Ok::<WritesView, StoreError>(unchanged()),
{
    let (x, a, h) = (amount_of(l), available_of(b), held_of(b));
    lemma_with_status(l, LedgerStatus::Resolved);
    if fits_balance(a + x, h - x) {
        lemma_with_amounts(b, a + x, h - x);
    }
}

/// A chargeback, in both stores, of a `Disputed` transaction of a client
/// with a balance record: where the result fits the counters it always
/// succeeds, whatever the balances' sign, removes exactly the transaction's
/// amount from the held funds, leaves the available funds as they were,
/// freezes the account and marks the entry `ChargedBack`; otherwise it is an
/// overflow. Any other entry is left as it is, and so is an unknown
/// transaction; a missing balance record is an error in the rocks store and
/// nothing in the sled store.
pub proof fn lemma_chargeback_removes_funds(l: Seq<u8>, b: Seq<u8>)
    requires
        l.len() >= LEDGER_VALUE_LEN,
        b.len() >= BALANCE_LEN,
    ensures
        ({
            let (x, a, h) = (amount_of(l), available_of(b), held_of(b));
            status_of(l) == LedgerStatus::Disputed && fits_balance(a, h - x) ==> {
                &&& applied_as(rocks_chargeback_rule(Some(l), Some(b)), b, l, a, h - x, true, LedgerStatus::ChargedBack)
                &&& applied_as(sled_chargeback_rule(Some(l), Some(b)), b, l, a, h - x, true, LedgerStatus::ChargedBack)
            }
        }),
        ({
            let (x, a, h) = (amount_of(l), available_of(b), held_of(b));
            status_of(l) == LedgerStatus::Disputed && !fits_balance(a, h - x) ==> {
                &&& rocks_chargeback_rule(Some(l), Some(b)) == Err::<WritesView, StoreError>(StoreError::Overflow)
                &&& sled_chargeback_rule(Some(l), Some(b)) == Err::<WritesView, StoreError>(StoreError::Overflow)
            }
        }),
        status_of(l) != LedgerStatus::Disputed ==> {
            &&& rocks_chargeback_rule(Some(l), Some(b)) == Ok::<WritesView, StoreError>(unchanged())
            &&& sled_chargeback_rule(Some(l), Some(b)) == Ok::<WritesView, StoreError>(unchanged())
            &&& rocks_chargeback_rule(Some(l), None) == Ok::<WritesView, StoreError>(unchanged())
        },
        status_of(l) == LedgerStatus::Disputed ==> rocks_chargeback_rule(Some(l), None) == Err::<
            WritesView,
            StoreError,
        >(StoreError::BalanceNotFoundForChargeback),
        sled_chargeback_rule(Some(l), None) == Ok::<WritesView, StoreError>(unchanged()),
        rocks_chargeback_rule(None, Some(b)) == Ok::<WritesView, StoreError>(unchanged()),
        sled_chargeback_rule(None, Some(b)) == Ok::<WritesView, StoreError>(unchanged()),
{
    let (x, a, h) = (amount_of(l), available_of(b), held_of(b));
    lemma_with_status(l, LedgerStatus::ChargedBack);
    if fits_balance(a, h - x) {
        lemma_with_held(b, h - x);
        lemma_with_frozen(with_held(b, h - x), true);
    }
}

} // verus!
