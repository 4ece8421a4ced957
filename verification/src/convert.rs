//! The store commands that the transactions of the input stand for.
use vstd::prelude::*;
use crate::db::{Chargeback, Command, Deposit, Dispute, Resolve, Withdrawal};
use crate::record::amount::{Amount, MAX_TICKS};
use crate::record::transaction::{amount_in, client_of, kind_of, tx_of, RawType, Transaction};

verus! {

/// Why a transaction is not the command asked for.
#[derive(Debug, PartialEq, Eq, Structural, Clone, Copy)]
pub enum ConvertError {
    NotADeposit,
    NotAWithdrawal,
    NotADispute,
    NotAResolve,
    NotAChargeback,
}

/// The message a conversion error reports.
pub open spec fn convert_error_message(e: ConvertError) -> Seq<char> {
    match e {
        ConvertError::NotADeposit => "Transaction is not a Deposit"@,
        ConvertError::NotAWithdrawal => "Transaction is not a Withdrawal"@,
        ConvertError::NotADispute => "Transaction is not a Dispute"@,
        ConvertError::NotAResolve => "Transaction is not a Resolve"@,
        ConvertError::NotAChargeback => "Transaction is not a Chargeback"@,
    }
}

impl ConvertError {
    /// The message of this error.
    pub fn message(&self) -> (m: &'static str)
        ensures
            m@ == convert_error_message(*self),
    {
        match self {
            ConvertError::NotADeposit => "Transaction is not a Deposit",
            ConvertError::NotAWithdrawal => "Transaction is not a Withdrawal",
            ConvertError::NotADispute => "Transaction is not a Dispute",
            ConvertError::NotAResolve => "Transaction is not a Resolve",
            ConvertError::NotAChargeback => "Transaction is not a Chargeback",
        }
    }
}

/// The deposit command of a deposit transaction, for its amount in
/// ten-thousandths.
pub open spec fn deposit_of(tx: Transaction) -> Result<Deposit, ConvertError> {
    match tx {
        Transaction::Deposit { client_id, tx_id, amount } => Ok(
            Deposit { client: client_id, tx: tx_id, amount: amount.value() as i128 },
        ),
        _ => Err(ConvertError::NotADeposit),
    }
}

/// The withdrawal command of a withdrawal transaction, for its amount in
/// ten-thousandths.
pub open spec fn withdrawal_of(tx: Transaction) -> Result<Withdrawal, ConvertError> {
    match tx {
        Transaction::Withdrawal { client_id, tx_id, amount } => Ok(
            Withdrawal { client: client_id, tx: tx_id, amount: amount.value() as i128 },
        ),
        _ => Err(ConvertError::NotAWithdrawal),
    }
}

/// The dispute command of a dispute transaction.
pub open spec fn dispute_of(tx: Transaction) -> Result<Dispute, ConvertError> {
    match tx {
        Transaction::Dispute { client_id, tx_id } => Ok(Dispute { client: client_id, tx: tx_id }),
        _ => Err(ConvertError::NotADispute),
    }
}

/// The resolve command of a resolve transaction.
pub open spec fn resolve_of(tx: Transaction) -> Result<Resolve, ConvertError> {
    match tx {
        Transaction::Resolve { client_id, tx_id } => Ok(Resolve { client: client_id, tx: tx_id }),
        _ => Err(ConvertError::NotAResolve),
    }
}

/// The chargeback command of a chargeback transaction.
pub open spec fn chargeback_of(tx: Transaction) -> Result<Chargeback, ConvertError> {
    match tx {
        Transaction::Chargeback { client_id, tx_id } => Ok(
            Chargeback { client: client_id, tx: tx_id },
        ),
        _ => Err(ConvertError::NotAChargeback),
    }
}

/// The command that a transaction stands for, of the matching kind.
pub open spec fn command_of(tx: Transaction) -> Command {
    match tx {
        Transaction::Deposit { client_id, tx_id, amount } => Command::Deposit(
            Deposit { client: client_id, tx: tx_id, amount: amount.value() as i128 },
        ),
        Transaction::Withdrawal { client_id, tx_id, amount } => Command::Withdrawal(
            Withdrawal { client: client_id, tx: tx_id, amount: amount.value() as i128 },
        ),
        Transaction::Dispute { client_id, tx_id } => Command::Dispute(
            Dispute { client: client_id, tx: tx_id },
        ),
        Transaction::Resolve { client_id, tx_id } => Command::Resolve(
            Resolve { client: client_id, tx: tx_id },
        ),
        Transaction::Chargeback { client_id, tx_id } => Command::Chargeback(
            Chargeback { client: client_id, tx: tx_id },
        ),
    }
}

/// The counter of an amount: its ten-thousandths, which every amount has few
/// enough of to fit.
fn counter_of(amount: &Amount) -> (v: i128)
    ensures
        v == amount.value(),
        0 <= v <= MAX_TICKS,
{
    let t = amount.ticks();
    t as i128
}

impl<'a> TryFrom<&'a Transaction> for Deposit {
    type Error = ConvertError;

    fn try_from(tx: &'a Transaction) -> (r: Result<Deposit, ConvertError>) {
        if let Transaction::Deposit { client_id, tx_id, amount } = tx {
            Ok(Deposit { client: *client_id, tx: *tx_id, amount: counter_of(amount) })
        } else {
            Err(ConvertError::NotADeposit)
        }
    }
}

impl<'a> vstd::std_specs::convert::TryFromSpecImpl<&'a Transaction> for Deposit {
    open spec fn obeys_try_from_spec() -> bool {
        true
    }

    open spec fn try_from_spec(tx: &'a Transaction) -> Result<Deposit, ConvertError> {
        deposit_of(*tx)
    }
}

impl<'a> TryFrom<&'a Transaction> for Withdrawal {
    type Error = ConvertError;

    fn try_from(tx: &'a Transaction) -> (r: Result<Withdrawal, ConvertError>) {
        if let Transaction::Withdrawal { client_id, tx_id, amount } = tx {
            Ok(Withdrawal { client: *client_id, tx: *tx_id, amount: counter_of(amount) })
        } else {
            Err(ConvertError::NotAWithdrawal)
        }
    }
}

impl<'a> vstd::std_specs::convert::TryFromSpecImpl<&'a Transaction> for Withdrawal {
    open spec fn obeys_try_from_spec() -> bool {
        true
    }

    open spec fn try_from_spec(tx: &'a Transaction) -> Result<Withdrawal, ConvertError> {
        withdrawal_of(*tx)
    }
}

impl<'a> TryFrom<&'a Transaction> for Dispute {
    type Error = ConvertError;

    fn try_from(tx: &'a Transaction) -> (r: Result<Dispute, ConvertError>) {
        if let Transaction::Dispute { client_id, tx_id } = tx {
            Ok(Dispute { client: *client_id, tx: *tx_id })
        } else {
            Err(ConvertError::NotADispute)
        }
    }
}

impl<'a> vstd::std_specs::convert::TryFromSpecImpl<&'a Transaction> for Dispute {
    open spec fn obeys_try_from_spec() -> bool {
        true
    }

    open spec fn try_from_spec(tx: &'a Transaction) -> Result<Dispute, ConvertError> {
        dispute_of(*tx)
    }
}

impl<'a> TryFrom<&'a Transaction> for Resolve {
    type Error = ConvertError;

    fn try_from(tx: &'a Transaction) -> (r: Result<Resolve, ConvertError>) {
        if let Transaction::Resolve { client_id, tx_id } = tx {
            Ok(Resolve { client: *client_id, tx: *tx_id })
        } else {
            Err(ConvertError::NotAResolve)
        }
    }
}

impl<'a> vstd::std_specs::convert::TryFromSpecImpl<&'a Transaction> for Resolve {
    open spec fn obeys_try_from_spec() -> bool {
        true
    }

    open spec fn try_from_spec(tx: &'a Transaction) -> Result<Resolve, ConvertError> {
        resolve_of(*tx)
    }
}

impl<'a> TryFrom<&'a Transaction> for Chargeback {
    type Error = ConvertError;

    fn try_from(tx: &'a Transaction) -> (r: Result<Chargeback, ConvertError>) {
        if let Transaction::Chargeback { client_id, tx_id } = tx {
            Ok(Chargeback { client: *client_id, tx: *tx_id })
        } else {
            Err(ConvertError::NotAChargeback)
        }
    }
}

impl<'a> vstd::std_specs::convert::TryFromSpecImpl<&'a Transaction> for Chargeback {
    open spec fn obeys_try_from_spec() -> bool {
        true
    }

    open spec fn try_from_spec(tx: &'a Transaction) -> Result<Chargeback, ConvertError> {
        chargeback_of(*tx)
    }
}

impl Command {
    /// The command of the kind of `tx`, as the engine dispatches it; every
    /// transaction has one.
    pub fn from_transaction(tx: &Transaction) -> (r: Command)
        ensures
            r == command_of(*tx),
            r matches Command::Deposit(d) ==> 0 <= d.amount <= MAX_TICKS,
            r matches Command::Withdrawal(w) ==> 0 <= w.amount <= MAX_TICKS,
    {
        match tx {
            Transaction::Deposit { client_id, tx_id, amount } => Command::Deposit(
                Deposit { client: *client_id, tx: *tx_id, amount: counter_of(amount) },
            ),
            Transaction::Withdrawal { client_id, tx_id, amount } => Command::Withdrawal(
                Withdrawal { client: *client_id, tx: *tx_id, amount: counter_of(amount) },
            ),
            Transaction::Dispute { client_id, tx_id } => Command::Dispute(
                Dispute { client: *client_id, tx: *tx_id },
            ),
            Transaction::Resolve { client_id, tx_id } => Command::Resolve(
                Resolve { client: *client_id, tx: *tx_id },
            ),
            Transaction::Chargeback { client_id, tx_id } => Command::Chargeback(
                Chargeback { client: *client_id, tx: *tx_id },
            ),
        }
    }
}

/// The client a command is for.
pub open spec fn command_client(c: Command) -> u16 {
    match c {
        Command::Deposit(d) => d.client,
        Command::Withdrawal(w) => w.client,
        Command::Dispute(d) => d.client,
        Command::Resolve(r) => r.client,
        Command::Chargeback(c) => c.client,
    }
}

/// The transaction number a command is about.
pub open spec fn command_tx(c: Command) -> u32 {
    match c {
        Command::Deposit(d) => d.tx,
        Command::Withdrawal(w) => w.tx,
        Command::Dispute(d) => d.tx,
        Command::Resolve(r) => r.tx,
        Command::Chargeback(c) => c.tx,
    }
}

/// The kind of a command, named as the transaction kinds are.
pub open spec fn command_kind(c: Command) -> RawType {
    match c {
        Command::Deposit(_) => RawType::Deposit,
        Command::Withdrawal(_) => RawType::Withdrawal,
        Command::Dispute(_) => RawType::Dispute,
        Command::Resolve(_) => RawType::Resolve,
        Command::Chargeback(_) => RawType::Chargeback,
    }
}

/// The amount a command moves, if its kind moves one.
pub open spec fn command_amount(c: Command) -> Option<int> {
    match c {
        Command::Deposit(d) => Some(d.amount as int),
        Command::Withdrawal(w) => Some(w.amount as int),
        _ => None,
    }
}

/// Every transaction is dispatched to the command of its own kind, for the
/// same client and transaction number, moving exactly its amount in
/// ten-thousandths (an amount always fits the counter).
pub proof fn lemma_command_keeps_transaction(tx: Transaction)
    ensures
        command_client(command_of(tx)) == client_of(tx),
        command_tx(command_of(tx)) == tx_of(tx),
        command_kind(command_of(tx)) == kind_of(tx),
        match amount_in(tx) {
            Some(a) => a.value() <= MAX_TICKS ==> command_amount(command_of(tx)) == Some(
                a.value() as int,
            ),
            None => command_amount(command_of(tx)) is None,
        },
{
}

/// Each single-kind conversion accepts exactly the transactions of its kind
/// and keeps their client, transaction number and amount; a transaction of
/// another kind gets the error that names the kind asked for.
pub proof fn lemma_conversions_keep_transaction(tx: Transaction)
    ensures
        deposit_of(tx) is Ok <==> kind_of(tx) == RawType::Deposit,
        withdrawal_of(tx) is Ok <==> kind_of(tx) == RawType::Withdrawal,
        dispute_of(tx) is Ok <==> kind_of(tx) == RawType::Dispute,
        resolve_of(tx) is Ok <==> kind_of(tx) == RawType::Resolve,
        chargeback_of(tx) is Ok <==> kind_of(tx) == RawType::Chargeback,
        deposit_of(tx) matches Ok(d) ==> d.client == client_of(tx) && d.tx == tx_of(tx) && (
        amount_in(tx)->0.value() <= MAX_TICKS ==> d.amount == amount_in(tx)->0.value()),
        withdrawal_of(tx) matches Ok(w) ==> w.client == client_of(tx) && w.tx == tx_of(tx) && (
        amount_in(tx)->0.value() <= MAX_TICKS ==> w.amount == amount_in(tx)->0.value()),
        dispute_of(tx) matches Ok(d) ==> d.client == client_of(tx) && d.tx == tx_of(tx),
        resolve_of(tx) matches Ok(r) ==> r.client == client_of(tx) && r.tx == tx_of(tx),
        chargeback_of(tx) matches Ok(c) ==> c.client == client_of(tx) && c.tx == tx_of(tx),
        deposit_of(tx) matches Err(e) ==> e == ConvertError::NotADeposit,
        withdrawal_of(tx) matches Err(e) ==> e == ConvertError::NotAWithdrawal,
        dispute_of(tx) matches Err(e) ==> e == ConvertError::NotADispute,
        resolve_of(tx) matches Err(e) ==> e == ConvertError::NotAResolve,
        chargeback_of(tx) matches Err(e) ==> e == ConvertError::NotAChargeback,
{
}

} // verus!
