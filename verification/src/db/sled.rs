//! The sled-backed store: the stored record layout, and the rules of the
//! sled store, which ignores a command it cannot apply instead of failing
//! (but for a deposit into a frozen account).
use vstd::prelude::*;
use crate::db::layout::{read_i128, write_i128};
use crate::db::{
    fits_balance, sub_counter, total_fits,
    amount_of, available_of, chargeback_funds, chargeback_funds_rule, dispute_funds,
    dispute_funds_rule, frozen_of, held_of, ledger_value, no_writes, opt_bytes, outcome_view,
    readable_balance, readable_entry, resolve_funds, resolve_funds_rule, status_of, unchanged,
    with_available, with_frozen, with_held, with_status, StoreError, Withdrawal, Writes,
    WritesView, BALANCE_LEN, LEDGER_VALUE_LEN,
};

pub use crate::db::LedgerStatus;

verus! {

#[verifier::external_type_specification]
#[verifier::external_body]
pub struct ExSledDb(::sled::Db);

#[verifier::external_type_specification]
#[verifier::external_body]
pub struct ExSledTree(::sled::Tree);

/// The key of a ledger entry: the client, two bytes big-endian, then the
/// transaction, four bytes big-endian.
pub open spec fn ledger_key(client: u16, tx: u32) -> Seq<u8> {
    seq![
        (client >> 8u16) as u8,
        (client & 0xff) as u8,
        (tx >> 24u32) as u8,
        ((tx >> 16u32) & 0xff) as u8,
        ((tx >> 8u32) & 0xff) as u8,
        (tx & 0xff) as u8,
    ]
}

/// Distinct transactions have distinct ledger keys, so a store keyed by bytes
/// holds one entry per (client, transaction).
pub proof fn lemma_ledger_key_injective(c1: u16, t1: u32, c2: u16, t2: u32)
    requires
        ledger_key(c1, t1) == ledger_key(c2, t2),
    ensures
        c1 == c2,
        t1 == t2,
{
    assert(ledger_key(c1, t1)[0] == ledger_key(c2, t2)[0]);
    assert(ledger_key(c1, t1)[1] == ledger_key(c2, t2)[1]);
    assert(ledger_key(c1, t1)[2] == ledger_key(c2, t2)[2]);
    assert(ledger_key(c1, t1)[3] == ledger_key(c2, t2)[3]);
    assert(ledger_key(c1, t1)[4] == ledger_key(c2, t2)[4]);
    assert(ledger_key(c1, t1)[5] == ledger_key(c2, t2)[5]);
    assert(c1 == c2) by (bit_vector)
        requires
            (c1 >> 8u16) as u8 == (c2 >> 8u16) as u8,
            (c1 & 0xff) as u8 == (c2 & 0xff) as u8,
    ;
    assert(t1 == t2) by (bit_vector)
        requires
            (t1 >> 24u32) as u8 == (t2 >> 24u32) as u8,
            ((t1 >> 16u32) & 0xff) as u8 == ((t2 >> 16u32) & 0xff) as u8,
            ((t1 >> 8u32) & 0xff) as u8 == ((t2 >> 8u32) & 0xff) as u8,
            (t1 & 0xff) as u8 == (t2 & 0xff) as u8,
    ;
}

/// Byte-wise lexicographic order of two byte strings, from index `i` on.
pub open spec fn bytes_less_from(a: Seq<u8>, b: Seq<u8>, i: nat) -> bool
    decreases a.len() - i,
{
    if i >= a.len() || i >= b.len() {
        false
    } else if a[i as int] != b[i as int] {
        a[i as int] < b[i as int]
    } else {
        bytes_less_from(a, b, i + 1)
    }
}

/// Whether `a` comes before `b` in byte-wise lexicographic order, the order in
/// which a key-value store walks its keys.
pub open spec fn bytes_less(a: Seq<u8>, b: Seq<u8>) -> bool {
    bytes_less_from(a, b, 0)
}

/// Ledger keys sort as their (client, transaction) pairs: by client, then by
/// transaction, so walking the keys in byte order meets each client's
/// transactions together and in number order.
pub proof fn lemma_ledger_key_order(c1: u16, t1: u32, c2: u16, t2: u32)
    ensures
        bytes_less(ledger_key(c1, t1), ledger_key(c2, t2)) <==> (c1 < c2 || (c1 == c2 && t1
            < t2)),
{
    let k1 = ledger_key(c1, t1);
    let k2 = ledger_key(c2, t2);
    reveal_with_fuel(bytes_less_from, 7);
    assert(c1 < c2 <==> ((c1 >> 8u16) as u8) < ((c2 >> 8u16) as u8) || (((c1 >> 8u16) as u8)
        == ((c2 >> 8u16) as u8) && ((c1 & 0xff) as u8) < ((c2 & 0xff) as u8))) by (bit_vector);
    assert(c1 == c2 <==> ((c1 >> 8u16) as u8) == ((c2 >> 8u16) as u8) && ((c1 & 0xff) as u8)
        == ((c2 & 0xff) as u8)) by (bit_vector);
    assert(t1 < t2 <==> ((t1 >> 24u32) as u8) < ((t2 >> 24u32) as u8) || (((t1 >> 24u32) as u8)
        == ((t2 >> 24u32) as u8) && (((t1 >> 16u32) & 0xff) as u8) < (((t2 >> 16u32) & 0xff) as u8))
        || (((t1 >> 24u32) as u8) == ((t2 >> 24u32) as u8) && (((t1 >> 16u32) & 0xff) as u8) == (((
    t2 >> 16u32) & 0xff) as u8) && (((t1 >> 8u32) & 0xff) as u8) < (((t2 >> 8u32) & 0xff) as u8))
        || (((t1 >> 24u32) as u8) == ((t2 >> 24u32) as u8) && (((t1 >> 16u32) & 0xff) as u8) == (((
    t2 >> 16u32) & 0xff) as u8) && (((t1 >> 8u32) & 0xff) as u8) == (((t2 >> 8u32) & 0xff) as u8)
        && ((t1 & 0xff) as u8) < ((t2 & 0xff) as u8))) by (bit_vector);
    assert(k1.len() == 6 && k2.len() == 6);
}

/// A withdrawal in the sled store: debits the available funds when they
/// cover the amount, and otherwise (no account, frozen account, too little
/// available) changes nothing.
pub open spec fn sled_withdrawal_rule(bal: Option<Seq<u8>>, amount: int) -> Result<WritesView, StoreError> {
    match bal {
        None => Ok(unchanged()),
        Some(b) => if frozen_of(b) || available_of(b) < amount {
            Ok(unchanged())
        } else if !fits_balance(available_of(b) - amount, held_of(b)) {
            Err(StoreError::Overflow)
        } else {
            Ok(WritesView { balance: Some(with_available(b, available_of(b) - amount)), ledger: None })
        },
    }
}

/// A dispute in the sled store: applies to an entry in state `Normal` of a
/// client with a balance record, and otherwise changes nothing.
pub open spec fn sled_dispute_rule(entry: Option<Seq<u8>>, bal: Option<Seq<u8>>) -> Result<WritesView, StoreError> {
    match (entry, bal) {
        (Some(l), Some(b)) => if status_of(l) == LedgerStatus::Normal {
            dispute_funds_rule(b, l)
        } else {
            Ok(unchanged())
        },
        _ => Ok(unchanged()),
    }
}

/// A resolve in the sled store: applies to a `Disputed` entry of a client
/// with a balance record, and otherwise changes nothing.
pub open spec fn sled_resolve_rule(entry: Option<Seq<u8>>, bal: Option<Seq<u8>>) -> Result<WritesView, StoreError> {
    match (entry, bal) {
        (Some(l), Some(b)) => if status_of(l) == LedgerStatus::Disputed {
            resolve_funds_rule(b, l)
        } else {
            Ok(unchanged())
        },
        _ => Ok(unchanged()),
    }
}

/// A chargeback in the sled store: applies to a `Disputed` entry of a client
/// with a balance record, and otherwise changes nothing.
pub open spec fn sled_chargeback_rule(entry: Option<Seq<u8>>, bal: Option<Seq<u8>>) -> Result<WritesView, StoreError> {
    match (entry, bal) {
        (Some(l), Some(b)) => if status_of(l) == LedgerStatus::Disputed {
            chargeback_funds_rule(b, l)
        } else {
            Ok(unchanged())
        },
        _ => Ok(unchanged()),
    }
}

/// A store of balance records and ledger entries in two sled trees.
pub struct SledStore {
    db: ::sled::Db,
    balances: ::sled::Tree,
    ledger: ::sled::Tree,
}

impl SledStore {
    /// A store over an opened database and its two trees.
    pub fn from_trees(db: ::sled::Db, balances: ::sled::Tree, ledger: ::sled::Tree) -> (s: Self)
        ensures
            s.db() == db,
            s.balances() == balances,
            s.ledger() == ledger,
    {
        SledStore { db, balances, ledger }
    }

    pub closed spec fn db(&self) -> ::sled::Db {
        self.db
    }

    pub closed spec fn balances(&self) -> ::sled::Tree {
        self.balances
    }

    pub closed spec fn ledger(&self) -> ::sled::Tree {
        self.ledger
    }

    /// The tree of balance records, keyed by client.
    pub fn balances_tree(&self) -> (t: &::sled::Tree)
        ensures
            *t == self.balances(),
    {
        &self.balances
    }

    /// The tree of ledger entries, keyed by client and transaction.
    pub fn ledger_tree(&self) -> (t: &::sled::Tree)
        ensures
            *t == self.ledger(),
    {
        &self.ledger
    }

    /// Whether a balance record says the account is frozen.
    pub fn is_frozen(bal: &[u8]) -> (frozen: bool)
        requires
            bal@.len() >= 1,
        ensures
            frozen == frozen_of(bal@),
    {
        bal[0] == 1
    }

    /// Sets the frozen flag of a balance record.
    pub fn set_frozen(bal: &mut [u8], frozen: bool)
        requires
            old(bal)@.len() >= 1,
        ensures
            final(bal)@ == with_frozen(old(bal)@, frozen),
    {
        bal[0] = if frozen {
            1
        } else {
            0
        };
    }

    /// The available amount of a balance record.
    pub fn get_balance_val(bal: &[u8]) -> (v: i128)
        requires
            bal@.len() >= 17,
        ensures
            v == available_of(bal@),
    {
        read_i128(bal, 1)
    }

    /// Sets the available amount of a balance record.
    pub fn set_balance_val(bal: &mut [u8], amount: i128)
        requires
            old(bal)@.len() >= 17,
        ensures
            final(bal)@ == with_available(old(bal)@, amount as int),
    {
        write_i128(bal, 1, amount);
    }

    /// The held amount of a balance record.
    pub fn get_held_val(bal: &[u8]) -> (v: i128)
        requires
            bal@.len() >= BALANCE_LEN,
        ensures
            v == held_of(bal@),
    {
        read_i128(bal, 17)
    }

    /// Sets the held amount of a balance record.
    pub fn set_held_val(bal: &mut [u8], amount: i128)
        requires
            old(bal)@.len() >= BALANCE_LEN,
        ensures
            final(bal)@ == with_held(old(bal)@, amount as int),
    {
        write_i128(bal, 17, amount);
    }

    /// The key of the ledger entry of transaction `tx` of `client`.
    pub fn create_ledger_key(client: u16, tx: u32) -> (key: [u8; 6])
        ensures
            key@ == ledger_key(client, tx),
    {
        let key = [
            (client >> 8u16) as u8,
            (client & 0xff) as u8,
            (tx >> 24u32) as u8,
            ((tx >> 16u32) & 0xff) as u8,
            ((tx >> 8u32) & 0xff) as u8,
            (tx & 0xff) as u8,
        ];
        assert(key@ =~= ledger_key(client, tx));
        key
    }

    /// The ledger value of a transaction of `amount` in state `status`.
    pub fn create_ledger_val(amount: i128, status: LedgerStatus) -> (led_val: Vec<u8>)
        ensures
            led_val@ == ledger_value(amount as int, status),
    {
        let mut led_val = vec![0u8; LEDGER_VALUE_LEN];
        write_i128(led_val.as_mut_slice(), 0, amount);
        led_val.set(16, status.into());
        assert(led_val@ =~= ledger_value(amount as int, status));
        led_val
    }

    /// The amount of a ledger value.
    pub fn get_ledger_amount(led_val: &[u8]) -> (v: i128)
        requires
            led_val@.len() >= 16,
        ensures
            v == amount_of(led_val@),
    {
        read_i128(led_val, 0)
    }

    /// The status of a ledger value; a byte that encodes no status reads as
    /// `Normal`.
    pub fn get_ledger_status(led_val: &[u8]) -> (status: LedgerStatus)
        requires
            led_val@.len() >= LEDGER_VALUE_LEN,
        ensures
            status == status_of(led_val@),
    {
        match LedgerStatus::try_from(led_val[16]) {
            Ok(status) => status,
            Err(_) => LedgerStatus::Normal,
        }
    }

    /// Sets the status of a ledger value.
    pub fn set_ledger_status(led_val: &mut [u8], status: LedgerStatus)
        requires
            old(led_val)@.len() >= LEDGER_VALUE_LEN,
        ensures
            final(led_val)@ == with_status(old(led_val)@, status),
    {
        led_val[16] = status.into();
    }
    /// What a withdrawal writes, given the client's balance record.
    pub fn withdrawal_writes(bal: Option<Vec<u8>>, cmd: &Withdrawal) -> (r: Result<Writes, StoreError>)
        requires
            readable_balance(bal),
        ensures
            outcome_view(r) == sled_withdrawal_rule(opt_bytes(bal), cmd.amount as int),
    {
        match bal {
            None => Ok(no_writes()),
            Some(b) => {
                let mut b = b;
                if Self::is_frozen(b.as_slice()) {
                    return Ok(no_writes());
                }
                let available = Self::get_balance_val(b.as_slice());
                if available >= cmd.amount {
                    let rest = match sub_counter(available, cmd.amount) {
                        Some(v) => v,
                        None => return Err(StoreError::Overflow),
                    };
                    if !total_fits(rest, Self::get_held_val(b.as_slice())) {
                        return Err(StoreError::Overflow);
                    }
                    Self::set_balance_val(b.as_mut_slice(), rest);
                    Ok(Writes { balance: Some(b), ledger: None })
                } else {
                    Ok(no_writes())
                }
            },
        }
    }

    /// What a dispute writes, given the disputed transaction's ledger entry
    /// and the client's balance record.
    pub fn dispute_writes(entry: Option<Vec<u8>>, bal: Option<Vec<u8>>) -> (r: Result<Writes, StoreError>)
        requires
            readable_entry(entry),
            readable_balance(bal),
        ensures
            outcome_view(r) == sled_dispute_rule(opt_bytes(entry), opt_bytes(bal)),
    {
        match (entry, bal) {
            (Some(l), Some(b)) => {
                if Self::get_ledger_status(l.as_slice()) != LedgerStatus::Normal {
                    return Ok(no_writes());
                }
                dispute_funds(b, l)
            },
            _ => Ok(no_writes()),
        }
    }

    /// What a resolve writes, given the transaction's ledger entry and the
    /// client's balance record.
    pub fn resolve_writes(entry: Option<Vec<u8>>, bal: Option<Vec<u8>>) -> (r: Result<Writes, StoreError>)
        requires
            readable_entry(entry),
            readable_balance(bal),
        ensures
            outcome_view(r) == sled_resolve_rule(opt_bytes(entry), opt_bytes(bal)),
    {
        match (entry, bal) {
            (Some(l), Some(b)) => {
                if Self::get_ledger_status(l.as_slice()) != LedgerStatus::Disputed {
                    return Ok(no_writes());
                }
                resolve_funds(b, l)
            },
            _ => Ok(no_writes()),
        }
    }

    /// What a chargeback writes, given the transaction's ledger entry and the
    /// client's balance record.
    pub fn chargeback_writes(entry: Option<Vec<u8>>, bal: Option<Vec<u8>>) -> (r: Result<Writes, StoreError>)
        requires
            readable_entry(entry),
            readable_balance(bal),
        ensures
            outcome_view(r) == sled_chargeback_rule(opt_bytes(entry), opt_bytes(bal)),
    {
        match (entry, bal) {
            (Some(l), Some(b)) => {
                if Self::get_ledger_status(l.as_slice()) != LedgerStatus::Disputed {
                    return Ok(no_writes());
                }
                chargeback_funds(b, l)
            },
            _ => Ok(no_writes()),
        }
    }
}

} // verus!
