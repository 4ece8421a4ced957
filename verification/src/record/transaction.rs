//! The transactions of the input: a raw record as read, and the transaction
//! it stands for.
use vstd::prelude::*;
use crate::record::amount::Amount;

verus! {

/// A transaction of the input.
#[derive(Debug, PartialEq, Eq, Structural)]
pub enum Transaction {
    Deposit { client_id: u16, tx_id: u32, amount: Amount },
    Withdrawal { client_id: u16, tx_id: u32, amount: Amount },
    Dispute { client_id: u16, tx_id: u32 },
    Resolve { client_id: u16, tx_id: u32 },
    Chargeback { client_id: u16, tx_id: u32 },
}

/// The `type` column of an input record.
#[derive(Debug, PartialEq, Eq, Structural, Clone, Copy)]
pub enum RawType {
    Deposit,
    Withdrawal,
    Dispute,
    Resolve,
    Chargeback,
}

/// An input record as read: its type, client, transaction and optional
/// amount.
pub struct RawTransaction {
    pub tx_type: RawType,
    pub client_id: u16,
    pub tx_id: u32,
    pub amount: Option<Amount>,
}

/// Why an input record is not a transaction.
#[derive(Debug, PartialEq, Eq, Structural, Clone, Copy)]
pub enum RawTransactionError {
    DepositMissingAmount,
    WithdrawalMissingAmount,
}

impl RawTransactionError {
    /// The message of this error.
    pub fn message(&self) -> (m: &'static str)
        ensures
            m@ == match *self {
                RawTransactionError::DepositMissingAmount => "Deposit missing amount"@,
                RawTransactionError::WithdrawalMissingAmount => "Withdrawal missing amount"@,
            },
    {
        match self {
            RawTransactionError::DepositMissingAmount => "Deposit missing amount",
            RawTransactionError::WithdrawalMissingAmount => "Withdrawal missing amount",
        }
    }
}

/// The transaction an input record stands for: a deposit or a withdrawal
/// needs an amount; the other kinds ignore the amount column.
pub open spec fn transaction_of_raw(raw: RawTransaction) -> Result<Transaction, RawTransactionError> {
    match raw.tx_type {
        RawType::Deposit => match raw.amount {
            Some(amount) => Ok(Transaction::Deposit { client_id: raw.client_id, tx_id: raw.tx_id, amount }),
            None => Err(RawTransactionError::DepositMissingAmount),
        },
        RawType::Withdrawal => match raw.amount {
            Some(amount) => Ok(Transaction::Withdrawal { client_id: raw.client_id, tx_id: raw.tx_id, amount }),
            None => Err(RawTransactionError::WithdrawalMissingAmount),
        },
        RawType::Dispute => Ok(Transaction::Dispute { client_id: raw.client_id, tx_id: raw.tx_id }),
        RawType::Resolve => Ok(Transaction::Resolve { client_id: raw.client_id, tx_id: raw.tx_id }),
        RawType::Chargeback => Ok(Transaction::Chargeback { client_id: raw.client_id, tx_id: raw.tx_id }),
    }
}

impl TryFrom<RawTransaction> for Transaction {
    type Error = RawTransactionError;

    fn try_from(raw: RawTransaction) -> (r: Result<Transaction, RawTransactionError>) {
        let client_id = raw.client_id;
        let tx_id = raw.tx_id;
        match raw.tx_type {
            RawType::Deposit => match raw.amount {
                Some(amount) => Ok(Transaction::Deposit { client_id, tx_id, amount }),
                None => Err(RawTransactionError::DepositMissingAmount),
            },
            RawType::Withdrawal => match raw.amount {
                Some(amount) => Ok(Transaction::Withdrawal { client_id, tx_id, amount }),
                None => Err(RawTransactionError::WithdrawalMissingAmount),
            },
            RawType::Dispute => Ok(Transaction::Dispute { client_id, tx_id }),
            RawType::Resolve => Ok(Transaction::Resolve { client_id, tx_id }),
            RawType::Chargeback => Ok(Transaction::Chargeback { client_id, tx_id }),
        }
    }
}

impl vstd::std_specs::convert::TryFromSpecImpl<RawTransaction> for Transaction {
    open spec fn obeys_try_from_spec() -> bool {
        true
    }

    open spec fn try_from_spec(raw: RawTransaction) -> Result<Transaction, RawTransactionError> {
        transaction_of_raw(raw)
    }
}

/// The client a transaction belongs to.
pub open spec fn client_of(tx: Transaction) -> u16 {
    match tx {
        Transaction::Deposit { client_id, .. } => client_id,
        Transaction::Withdrawal { client_id, .. } => client_id,
        Transaction::Dispute { client_id, .. } => client_id,
        Transaction::Resolve { client_id, .. } => client_id,
        Transaction::Chargeback { client_id, .. } => client_id,
    }
}

/// The number of a transaction.
pub open spec fn tx_of(tx: Transaction) -> u32 {
    match tx {
        Transaction::Deposit { tx_id, .. } => tx_id,
        Transaction::Withdrawal { tx_id, .. } => tx_id,
        Transaction::Dispute { tx_id, .. } => tx_id,
        Transaction::Resolve { tx_id, .. } => tx_id,
        Transaction::Chargeback { tx_id, .. } => tx_id,
    }
}

/// The kind of a transaction, as the `type` column names it.
pub open spec fn kind_of(tx: Transaction) -> RawType {
    match tx {
        Transaction::Deposit { .. } => RawType::Deposit,
        Transaction::Withdrawal { .. } => RawType::Withdrawal,
        Transaction::Dispute { .. } => RawType::Dispute,
        Transaction::Resolve { .. } => RawType::Resolve,
        Transaction::Chargeback { .. } => RawType::Chargeback,
    }
}

/// The amount a transaction carries, if its kind carries one.
pub open spec fn amount_in(tx: Transaction) -> Option<Amount> {
    match tx {
        Transaction::Deposit { amount, .. } => Some(amount),
        Transaction::Withdrawal { amount, .. } => Some(amount),
        _ => None,
    }
}

/// Whether a kind of transaction moves money, and so needs an amount.
pub open spec fn needs_amount(kind: RawType) -> bool {
    kind == RawType::Deposit || kind == RawType::Withdrawal
}

/// An input record becomes a transaction unless it is a deposit or a
/// withdrawal without an amount; the transaction keeps the record's kind,
/// client and transaction number, and, for a deposit or a withdrawal, its
/// amount.
pub proof fn lemma_raw_record_kept(raw: RawTransaction)
    ensures
        transaction_of_raw(raw) is Ok <==> !(needs_amount(raw.tx_type) && raw.amount is None),
        transaction_of_raw(raw) matches Ok(tx) ==> {
            &&& client_of(tx) == raw.client_id
            &&& tx_of(tx) == raw.tx_id
            &&& kind_of(tx) == raw.tx_type
            &&& needs_amount(raw.tx_type) ==> amount_in(tx) == raw.amount
            &&& !needs_amount(raw.tx_type) ==> amount_in(tx) is None
        },
        raw.tx_type == RawType::Deposit && raw.amount is None ==> transaction_of_raw(raw) == Err::<
            Transaction,
            RawTransactionError,
        >(RawTransactionError::DepositMissingAmount),
        raw.tx_type == RawType::Withdrawal && raw.amount is None ==> transaction_of_raw(raw) == Err::<
            Transaction,
            RawTransactionError,
        >(RawTransactionError::WithdrawalMissingAmount),
{
}

} // verus!
