//! A ledger of client accounts fed by a stream of transactions: deposits,
//! withdrawals, disputes, resolves and chargebacks, applied in input order,
//! with a final report of every client's balances.
pub mod convert;
pub mod db;
pub mod engine;
pub mod record;
pub mod report;

use vstd::prelude::*;

verus! {

#[verifier::external_type_specification]
#[verifier::external_body]
pub struct ExPathBuf(std::path::PathBuf);

/// The arguments of the program: the input file of transactions.
pub struct TransactArgs {
    pub input_file: std::path::PathBuf,
}

} // verus!
