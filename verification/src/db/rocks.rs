//! The rules of the RocksDB-backed store, which reports the commands it
//! cannot apply: a withdrawal from a frozen account or one the funds do not
//! cover, and a dispute, resolve or chargeback of a client with no balance
//! record. It keeps records in the layout of the sled store.
use vstd::prelude::*;
use crate::db::sled::SledStore;
use crate::db::{
    fits_balance, sub_counter, total_fits, held_of,
    available_of, chargeback_funds, chargeback_funds_rule, dispute_funds, dispute_funds_rule,
    frozen_of, no_writes, opt_bytes, outcome_view, readable_balance, readable_entry,
    resolve_funds, resolve_funds_rule, status_of, unchanged, with_available, StoreError,
    Withdrawal, Writes, WritesView,
};

pub use crate::db::LedgerStatus;

verus! {

/// A withdrawal in the rocks store: refused on a frozen account or when the
/// available funds do not cover the amount; a client without a balance record
/// is left as is.
pub open spec fn rocks_withdrawal_rule(bal: Option<Seq<u8>>, amount: int) -> Result<WritesView, StoreError> {
    match bal {
        None => Ok(unchanged()),
        Some(b) => if frozen_of(b) {
            Err(StoreError::AccountFrozen)
        } else if available_of(b) < amount {
            Err(StoreError::InsufficientFunds)
        } else if !fits_balance(available_of(b) - amount, held_of(b)) {
            Err(StoreError::Overflow)
        } else {
            Ok(WritesView { balance: Some(with_available(b, available_of(b) - amount)), ledger: None })
        },
    }
}

/// A dispute in the rocks store: applies to an entry in state `Normal`; other
/// entries and unknown transactions are left as they are; a client without a
/// balance record is an error.
pub open spec fn rocks_dispute_rule(entry: Option<Seq<u8>>, bal: Option<Seq<u8>>) -> Result<WritesView, StoreError> {
    match entry {
        None => Ok(unchanged()),
        Some(l) => if status_of(l) != LedgerStatus::Normal {
            Ok(unchanged())
        } else {
            match bal {
                None => Err(StoreError::BalanceNotFoundForDispute),
                Some(b) => dispute_funds_rule(b, l),
            }
        },
    }
}

/// A resolve in the rocks store: applies to a `Disputed` entry; other entries
/// and unknown transactions are left as they are; a client without a balance
/// record is an error.
pub open spec fn rocks_resolve_rule(entry: Option<Seq<u8>>, bal: Option<Seq<u8>>) -> Result<WritesView, StoreError> {
    match entry {
        None => Ok(unchanged()),
        Some(l) => if status_of(l) != LedgerStatus::Disputed {
            Ok(unchanged())
        } else {
            match bal {
                None => Err(StoreError::BalanceNotFoundForResolve),
                Some(b) => resolve_funds_rule(b, l),
            }
        },
    }
}

/// A chargeback in the rocks store: applies to a `Disputed` entry; other
/// entries and unknown transactions are left as they are; a client without a
/// balance record is an error.
pub open spec fn rocks_chargeback_rule(entry: Option<Seq<u8>>, bal: Option<Seq<u8>>) -> Result<WritesView, StoreError> {
    match entry {
        None => Ok(unchanged()),
        Some(l) => if status_of(l) != LedgerStatus::Disputed {
            Ok(unchanged())
        } else {
            match bal {
                None => Err(StoreError::BalanceNotFoundForChargeback),
                Some(b) => chargeback_funds_rule(b, l),
            }
        },
    }
}

/// What a withdrawal writes, given the client's balance record.
pub fn withdrawal_writes(bal: Option<Vec<u8>>, cmd: &Withdrawal) -> (r: Result<Writes, StoreError>)
    requires
        readable_balance(bal),
    ensures
        outcome_view(r) == rocks_withdrawal_rule(opt_bytes(bal), cmd.amount as int),
{
    match bal {
        None => Ok(no_writes()),
        Some(b) => {
            let mut b = b;
            if SledStore::is_frozen(b.as_slice()) {
                return Err(StoreError::AccountFrozen);
            }
            let available = SledStore::get_balance_val(b.as_slice());
            if available >= cmd.amount {
                let rest = match sub_counter(available, cmd.amount) {
                    Some(v) => v,
                    None => return Err(StoreError::Overflow),
                };
                if !total_fits(rest, SledStore::get_held_val(b.as_slice())) {
                    return Err(StoreError::Overflow);
                }
                SledStore::set_balance_val(b.as_mut_slice(), rest);
                Ok(Writes { balance: Some(b), ledger: None })
            } else {
                Err(StoreError::InsufficientFunds)
            }
        },
    }
}

/// What a dispute writes, given the disputed transaction's ledger entry and
/// the client's balance record.
pub fn dispute_writes(entry: Option<Vec<u8>>, bal: Option<Vec<u8>>) -> (r: Result<Writes, StoreError>)
    requires
        readable_entry(entry),
        readable_balance(bal),
    ensures
        outcome_view(r) == rocks_dispute_rule(opt_bytes(entry), opt_bytes(bal)),
{
    match entry {
        None => Ok(no_writes()),
        Some(l) => {
            if SledStore::get_ledger_status(l.as_slice()) != LedgerStatus::Normal {
                return Ok(no_writes());
            }
            match bal {
                None => Err(StoreError::BalanceNotFoundForDispute),
                Some(b) => dispute_funds(b, l),
            }
        },
    }
}

/// What a resolve writes, given the transaction's ledger entry and the
/// client's balance record.
pub fn resolve_writes(entry: Option<Vec<u8>>, bal: Option<Vec<u8>>) -> (r: Result<Writes, StoreError>)
    requires
        readable_entry(entry),
        readable_balance(bal),
    ensures
        outcome_view(r) == rocks_resolve_rule(opt_bytes(entry), opt_bytes(bal)),
{
    match entry {
        None => Ok(no_writes()),
        Some(l) => {
            if SledStore::get_ledger_status(l.as_slice()) != LedgerStatus::Disputed {
                return Ok(no_writes());
            }
            match bal {
                None => Err(StoreError::BalanceNotFoundForResolve),
                Some(b) => resolve_funds(b, l),
            }
        },
    }
}

/// What a chargeback writes, given the transaction's ledger entry and the
/// client's balance record.
pub fn chargeback_writes(entry: Option<Vec<u8>>, bal: Option<Vec<u8>>) -> (r: Result<Writes, StoreError>)
    requires
        readable_entry(entry),
        readable_balance(bal),
    ensures
        outcome_view(r) == rocks_chargeback_rule(opt_bytes(entry), opt_bytes(bal)),
{
    match entry {
        None => Ok(no_writes()),
        Some(l) => {
            if SledStore::get_ledger_status(l.as_slice()) != LedgerStatus::Disputed {
                return Ok(no_writes());
            }
            match bal {
                None => Err(StoreError::BalanceNotFoundForChargeback),
                Some(b) => chargeback_funds(b, l),
            }
        },
    }
}

} // verus!
