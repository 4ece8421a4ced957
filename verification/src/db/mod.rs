//! The account ledger: stored record layout, commands, and the rules by which
//! each command changes a client's balance record and a transaction's ledger
//! entry.
//!
//! Money is held as a signed count of ten-thousandths (four decimal places,
//! the precision of an input amount), in 128-bit counters.
pub mod layout;
pub mod rocks;
pub mod sled;
pub mod laws;

use vstd::prelude::*;
use vstd::string::StringExecFns;
use crate::db::layout::{i128_at, i128_bytes, splice16};
use crate::db::sled::SledStore;

verus! {

/// Length of a stored balance record: a frozen flag, then the available and
/// the held amount, each sixteen bytes big-endian.
pub const BALANCE_LEN: usize = 33;

/// Length of a stored ledger value: the amount, sixteen bytes big-endian,
/// then the status byte.
pub const LEDGER_VALUE_LEN: usize = 17;

/// Whether `v` fits a balance counter: the range of `i128`.
pub open spec fn fits_counter(v: int) -> bool {
    i128::MIN <= v <= i128::MAX
}

/// Whether a balance record may hold `available` and `held`: each of them,
/// and the total that the report shows, fit a counter.
pub open spec fn fits_balance(available: int, held: int) -> bool {
    fits_counter(available) && fits_counter(held) && fits_counter(available + held)
}

/// `a + b` where it fits a counter.
pub fn add_counter(a: i128, b: i128) -> (r: Option<i128>)
    ensures
        match r {
            Some(v) => fits_counter(a + b) && v == a + b,
            None => !fits_counter(a + b),
        },
{
    a.checked_add(b)
}

/// `a - b` where it fits a counter.
pub fn sub_counter(a: i128, b: i128) -> (r: Option<i128>)
    ensures
        match r {
            Some(v) => fits_counter(a - b) && v == a - b,
            None => !fits_counter(a - b),
        },
{
    a.checked_sub(b)
}

/// Whether the total of `available` and `held` fits a counter.
pub fn total_fits(available: i128, held: i128) -> (ok: bool)
    ensures
        ok == fits_counter(available + held),
{
    available.checked_add(held).is_some()
}

/// Lifecycle of a ledger entry: a deposit starts `Normal`, a dispute moves it
/// to `Disputed`, and a resolve (to `Resolved`) or a chargeback (to
/// `ChargedBack`) ends the dispute for good.
#[derive(Debug, PartialEq, Eq, Structural, Clone, Copy)]
pub enum LedgerStatus {
    Normal,
    Disputed,
    Resolved,
    ChargedBack,
}

/// The byte that encodes a status in a stored ledger value.
pub open spec fn status_byte(status: LedgerStatus) -> u8 {
    match status {
        LedgerStatus::Normal => 0,
        LedgerStatus::Disputed => 1,
        LedgerStatus::ChargedBack => 3,
        LedgerStatus::Resolved => 4,
    }
}

/// The status a stored byte is read as; a byte that encodes no status reads
/// as `Normal`.
pub open spec fn status_of_byte(byte: u8) -> LedgerStatus {
    if byte == 1 {
        LedgerStatus::Disputed
    } else if byte == 3 {
        LedgerStatus::ChargedBack
    } else if byte == 4 {
        LedgerStatus::Resolved
    } else {
        LedgerStatus::Normal
    }
}

/// A byte that encodes no ledger status.
#[derive(Debug, PartialEq, Eq, Structural, Clone, Copy)]
pub struct InvalidLedgerStatus(pub u8);

/// The character of the decimal digit `d` (below ten).
pub open spec fn digit_char(d: nat) -> char {
    (48 + d) as char
}

/// The decimal digits of `n`, without leading zeros.
pub open spec fn decimal_text(n: nat) -> Seq<char>
    decreases n,
{
    if n < 10 {
        seq![digit_char(n)]
    } else {
        decimal_text(n / 10).push(digit_char(n % 10))
    }
}

/// The one-character text of the decimal digit `d`.
fn digit_str(d: u8) -> (s: &'static str)
    requires
        d < 10,
    ensures
        s@ == seq![digit_char(d as nat)],
{
    proof {
        reveal_strlit("0");
        reveal_strlit("1");
        reveal_strlit("2");
        reveal_strlit("3");
        reveal_strlit("4");
        reveal_strlit("5");
        reveal_strlit("6");
        reveal_strlit("7");
        reveal_strlit("8");
        reveal_strlit("9");
    }
    let s = match d {
        0 => "0",
        1 => "1",
        2 => "2",
        3 => "3",
        4 => "4",
        5 => "5",
        6 => "6",
        7 => "7",
        8 => "8",
        _ => "9",
    };
    assert(s@ =~= seq![digit_char(d as nat)]);
    s
}

/// Appends the decimal digits of `n`.
fn append_decimal(out: &mut String, n: u8)
    ensures
        final(out)@ == old(out)@ + decimal_text(n as nat),
    decreases n,
{
    if n >= 10 {
        append_decimal(out, n / 10);
    }
    out.append(digit_str(n % 10));
    proof {
        if n >= 10 {
            assert(old(out)@ + decimal_text(n as nat) =~= old(out)@ + decimal_text((n / 10) as nat)
                + seq![digit_char((n % 10) as nat)]);
        }
    }
}

impl InvalidLedgerStatus {
    /// The message of this error: `Invalid ledger status: ` and the byte in
    /// decimal.
    pub fn message(&self) -> (m: String)
        ensures
            m@ == "Invalid ledger status: "@ + decimal_text(self.0 as nat),
    {
        let mut m = String::from_str("Invalid ledger status: ");
        append_decimal(&mut m, self.0);
        m
    }
}

impl From<LedgerStatus> for u8 {
    fn from(status: LedgerStatus) -> (byte: u8) {
        match status {
            LedgerStatus::Normal => 0,
            LedgerStatus::Disputed => 1,
            LedgerStatus::ChargedBack => 3,
            LedgerStatus::Resolved => 4,
        }
    }
}

impl vstd::std_specs::convert::FromSpecImpl<LedgerStatus> for u8 {
    open spec fn obeys_from_spec() -> bool {
        true
    }

    open spec fn from_spec(status: LedgerStatus) -> u8 {
        status_byte(status)
    }
}

/// The status a ledger byte encodes, if it encodes one.
pub open spec fn status_from_byte(value: u8) -> Result<LedgerStatus, InvalidLedgerStatus> {
    if value == 0 {
        Ok(LedgerStatus::Normal)
    } else if value == 1 {
        Ok(LedgerStatus::Disputed)
    } else if value == 3 {
        Ok(LedgerStatus::ChargedBack)
    } else if value == 4 {
        Ok(LedgerStatus::Resolved)
    } else {
        Err(InvalidLedgerStatus(value))
    }
}

impl TryFrom<u8> for LedgerStatus {
    type Error = InvalidLedgerStatus;

    fn try_from(value: u8) -> (r: Result<LedgerStatus, InvalidLedgerStatus>) {
        match value {
            0 => Ok(LedgerStatus::Normal),
            1 => Ok(LedgerStatus::Disputed),
            3 => Ok(LedgerStatus::ChargedBack),
            4 => Ok(LedgerStatus::Resolved),
            _ => Err(InvalidLedgerStatus(value)),
        }
    }
}

impl vstd::std_specs::convert::TryFromSpecImpl<u8> for LedgerStatus {
    open spec fn obeys_try_from_spec() -> bool {
        true
    }

    open spec fn try_from_spec(value: u8) -> Result<LedgerStatus, InvalidLedgerStatus> {
        status_from_byte(value)
    }
}

/// Credits `amount` to a client's available funds and records the
/// transaction.
pub struct Deposit {
    pub client: u16,
    pub tx: u32,
    pub amount: i128,
}

/// Debits `amount` from a client's available funds.
pub struct Withdrawal {
    pub client: u16,
    pub tx: u32,
    pub amount: i128,
}

/// Moves the funds of a recorded deposit from available to held.
pub struct Dispute {
    pub client: u16,
    pub tx: u32,
}

/// Releases the held funds of a disputed deposit back to available.
pub struct Resolve {
    pub client: u16,
    pub tx: u32,
}

/// Removes the held funds of a disputed deposit and freezes the account.
pub struct Chargeback {
    pub client: u16,
    pub tx: u32,
}

/// A command for a store.
pub enum Command {
    Deposit(Deposit),
    Withdrawal(Withdrawal),
    Dispute(Dispute),
    Resolve(Resolve),
    Chargeback(Chargeback),
}

/// One line of the final report: the balances of one client.
#[derive(Debug, PartialEq, Eq, Structural)]
pub struct ClientReport {
    pub client: u16,
    pub available: i128,
    pub held: i128,
    pub total: i128,
    pub locked: bool,
}

/// Why a store refused a command.
#[derive(Debug, PartialEq, Eq, Structural, Clone, Copy)]
pub enum StoreError {
    AccountFrozen,
    InsufficientFunds,
    BalanceNotFoundForDispute,
    BalanceNotFoundForResolve,
    BalanceNotFoundForChargeback,
    Overflow,
}

/// The message a store error reports.
pub open spec fn store_error_message(e: StoreError) -> Seq<char> {
    match e {
        StoreError::AccountFrozen => "Account is frozen"@,
        StoreError::InsufficientFunds => "Insufficient funds"@,
        StoreError::BalanceNotFoundForDispute => "Balance not found for dispute"@,
        StoreError::BalanceNotFoundForResolve => "Balance not found for resolve"@,
        StoreError::BalanceNotFoundForChargeback => "Balance not found for chargeback"@,
        StoreError::Overflow => "Balance out of range"@,
    }
}

impl StoreError {
    /// The message of this error.
    pub fn message(&self) -> (m: &'static str)
        ensures
            m@ == store_error_message(*self),
    {
        match self {
            StoreError::AccountFrozen => "Account is frozen",
            StoreError::InsufficientFunds => "Insufficient funds",
            StoreError::BalanceNotFoundForDispute => "Balance not found for dispute",
            StoreError::BalanceNotFoundForResolve => "Balance not found for resolve",
            StoreError::BalanceNotFoundForChargeback => "Balance not found for chargeback",
            StoreError::Overflow => "Balance out of range",
        }
    }
}

/// Whether a stored balance record says the account is frozen.
pub open spec fn frozen_of(b: Seq<u8>) -> bool {
    b[0] == 1
}

/// The available amount of a stored balance record.
pub open spec fn available_of(b: Seq<u8>) -> int {
    i128_at(b, 1)
}

/// The held amount of a stored balance record.
pub open spec fn held_of(b: Seq<u8>) -> int {
    i128_at(b, 17)
}

/// A balance record with its frozen flag set to `frozen`.
pub open spec fn with_frozen(b: Seq<u8>, frozen: bool) -> Seq<u8> {
    b.update(
        0,
        if frozen {
            1u8
        } else {
            0u8
        },
    )
}

/// A balance record with its available amount set to `v`.
pub open spec fn with_available(b: Seq<u8>, v: int) -> Seq<u8> {
    splice16(b, 1, i128_bytes(v))
}

/// A balance record with its held amount set to `v`.
pub open spec fn with_held(b: Seq<u8>, v: int) -> Seq<u8> {
    splice16(b, 17, i128_bytes(v))
}

/// The balance record of a client that has none yet: not frozen, nothing
/// available, nothing held.
pub open spec fn new_balance() -> Seq<u8> {
    Seq::new(BALANCE_LEN as nat, |i: int| 0u8)
}

/// The amount of a stored ledger value.
pub open spec fn amount_of(l: Seq<u8>) -> int {
    i128_at(l, 0)
}

/// The status of a stored ledger value.
pub open spec fn status_of(l: Seq<u8>) -> LedgerStatus {
    status_of_byte(l[16])
}

/// A ledger value with its status set to `status`.
pub open spec fn with_status(l: Seq<u8>, status: LedgerStatus) -> Seq<u8> {
    l.update(16, status_byte(status))
}

/// The ledger value stored for a fresh transaction.
pub open spec fn ledger_value(amount: int, status: LedgerStatus) -> Seq<u8> {
    i128_bytes(amount).push(status_byte(status))
}

/// What a command writes back: the client's new balance record and the
/// transaction's new ledger value, each only where it changes.
pub struct Writes {
    pub balance: Option<Vec<u8>>,
    pub ledger: Option<Vec<u8>>,
}

/// The written records as byte sequences.
pub struct WritesView {
    pub balance: Option<Seq<u8>>,
    pub ledger: Option<Seq<u8>>,
}

/// An optional record as a byte sequence.
pub open spec fn opt_bytes(v: Option<Vec<u8>>) -> Option<Seq<u8>> {
    match v {
        Some(b) => Some(b@),
        None => None,
    }
}

impl View for Writes {
    type V = WritesView;

    open spec fn view(&self) -> WritesView {
        WritesView { balance: opt_bytes(self.balance), ledger: opt_bytes(self.ledger) }
    }
}

/// Nothing is written.
pub open spec fn unchanged() -> WritesView {
    WritesView { balance: None, ledger: None }
}

/// The outcome of a command with its writes seen as byte sequences.
pub open spec fn outcome_view(r: Result<Writes, StoreError>) -> Result<WritesView, StoreError> {
    match r {
        Ok(w) => Ok(w@),
        Err(e) => Err(e),
    }
}

/// A stored balance record that a store may read: long enough for its three
/// fields.
pub open spec fn readable_balance(b: Option<Vec<u8>>) -> bool {
    match b {
        Some(b) => b@.len() >= BALANCE_LEN,
        None => true,
    }
}

/// A stored ledger value that a store may read: long enough for its two
/// fields.
pub open spec fn readable_entry(l: Option<Vec<u8>>) -> bool {
    match l {
        Some(l) => l@.len() >= LEDGER_VALUE_LEN,
        None => true,
    }
}

/// A deposit, in both stores: refused on a frozen account, else credits the
/// available amount (of a fresh record where the client has none) and records
/// the transaction as `Normal`.
pub open spec fn deposit_rule(bal: Option<Seq<u8>>, amount: int) -> Result<WritesView, StoreError> {
    let b = match bal {
        Some(b) => b,
        None => new_balance(),
    };
    if frozen_of(b) {
        Err(StoreError::AccountFrozen)
    } else if !fits_balance(available_of(b) + amount, held_of(b)) {
        Err(StoreError::Overflow)
    } else {
        Ok(
            WritesView {
                balance: Some(with_available(b, available_of(b) + amount)),
                ledger: Some(ledger_value(amount, LedgerStatus::Normal)),
            },
        )
    }
}

/// Applies a deposit to the client's stored balance record `bal` (`None` if
/// the client has none yet).
pub fn deposit_writes(bal: Option<Vec<u8>>, cmd: &Deposit) -> (r: Result<Writes, StoreError>)
    requires
        readable_balance(bal),
    ensures
        outcome_view(r) == deposit_rule(opt_bytes(bal), cmd.amount as int),
{
    let mut b = match bal {
        Some(b) => b,
        None => {
            let fresh = vec![0u8; BALANCE_LEN];
            assert(fresh@ =~= new_balance());
            fresh
        },
    };
    if SledStore::is_frozen(b.as_slice()) {
        return Err(StoreError::AccountFrozen);
    }
    let available = SledStore::get_balance_val(b.as_slice());
    let credited = match add_counter(available, cmd.amount) {
        Some(v) => v,
        None => return Err(StoreError::Overflow),
    };
    if !total_fits(credited, SledStore::get_held_val(b.as_slice())) {
        return Err(StoreError::Overflow);
    }
    SledStore::set_balance_val(b.as_mut_slice(), credited);
    let led = SledStore::create_ledger_val(cmd.amount, LedgerStatus::Normal);
    Ok(Writes { balance: Some(b), ledger: Some(led) })
}

/// A dispute applied to a balance record `b` and the disputed entry `l`: the
/// entry's amount moves from available to held and the entry becomes
/// `Disputed`.
pub open spec fn dispute_funds_rule(b: Seq<u8>, l: Seq<u8>) -> Result<WritesView, StoreError> {
    let available = available_of(b) - amount_of(l);
    let held = held_of(b) + amount_of(l);
    if !fits_balance(available, held) {
        Err(StoreError::Overflow)
    } else {
        Ok(
            WritesView {
                balance: Some(with_held(with_available(b, available), held)),
                ledger: Some(with_status(l, LedgerStatus::Disputed)),
            },
        )
    }
}

/// A resolve applied to a balance record `b` and the disputed entry `l`: the
/// entry's amount moves from held back to available and the entry becomes
/// `Resolved`, which no later dispute touches.
pub open spec fn resolve_funds_rule(b: Seq<u8>, l: Seq<u8>) -> Result<WritesView, StoreError> {
    let available = available_of(b) + amount_of(l);
    let held = held_of(b) - amount_of(l);
    if !fits_balance(available, held) {
        Err(StoreError::Overflow)
    } else {
        Ok(
            WritesView {
                balance: Some(with_held(with_available(b, available), held)),
                ledger: Some(with_status(l, LedgerStatus::Resolved)),
            },
        )
    }
}

/// A chargeback applied to a balance record `b` and the disputed entry `l`:
/// the entry's amount leaves the held funds, the account is frozen and the
/// entry becomes `ChargedBack`.
pub open spec fn chargeback_funds_rule(b: Seq<u8>, l: Seq<u8>) -> Result<WritesView, StoreError> {
    let held = held_of(b) - amount_of(l);
    if !fits_balance(available_of(b), held) {
        Err(StoreError::Overflow)
    } else {
        Ok(
            WritesView {
                balance: Some(with_frozen(with_held(b, held), true)),
                ledger: Some(with_status(l, LedgerStatus::ChargedBack)),
            },
        )
    }
}

/// Nothing to write.
pub fn no_writes() -> (w: Writes)
    ensures
        w@ == unchanged(),
{
    Writes { balance: None, ledger: None }
}

/// Moves the amount of entry `l` from the available to the held funds of
/// balance record `b` and marks the entry disputed.
pub fn dispute_funds(b: Vec<u8>, l: Vec<u8>) -> (r: Result<Writes, StoreError>)
    requires
        b@.len() >= BALANCE_LEN,
        l@.len() >= LEDGER_VALUE_LEN,
    ensures
        outcome_view(r) == dispute_funds_rule(b@, l@),
{
    let mut b = b;
    let mut l = l;
    let amount = SledStore::get_ledger_amount(l.as_slice());
    let available = SledStore::get_balance_val(b.as_slice());
    let held = SledStore::get_held_val(b.as_slice());
    let new_available = match sub_counter(available, amount) {
        Some(v) => v,
        None => return Err(StoreError::Overflow),
    };
    let new_held = match add_counter(held, amount) {
        Some(v) => v,
        None => return Err(StoreError::Overflow),
    };
    if !total_fits(new_available, new_held) {
        return Err(StoreError::Overflow);
    }
    SledStore::set_balance_val(b.as_mut_slice(), new_available);
    SledStore::set_held_val(b.as_mut_slice(), new_held);
    SledStore::set_ledger_status(l.as_mut_slice(), LedgerStatus::Disputed);
    Ok(Writes { balance: Some(b), ledger: Some(l) })
}

/// Moves the amount of entry `l` from the held back to the available funds of
/// balance record `b` and marks the entry resolved.
pub fn resolve_funds(b: Vec<u8>, l: Vec<u8>) -> (r: Result<Writes, StoreError>)
    requires
        b@.len() >= BALANCE_LEN,
        l@.len() >= LEDGER_VALUE_LEN,
    ensures
        outcome_view(r) == resolve_funds_rule(b@, l@),
{
    let mut b = b;
    let mut l = l;
    let amount = SledStore::get_ledger_amount(l.as_slice());
    let available = SledStore::get_balance_val(b.as_slice());
    let held = SledStore::get_held_val(b.as_slice());
    let new_available = match add_counter(available, amount) {
        Some(v) => v,
        None => return Err(StoreError::Overflow),
    };
    let new_held = match sub_counter(held, amount) {
        Some(v) => v,
        None => return Err(StoreError::Overflow),
    };
    if !total_fits(new_available, new_held) {
        return Err(StoreError::Overflow);
    }
    SledStore::set_balance_val(b.as_mut_slice(), new_available);
    SledStore::set_held_val(b.as_mut_slice(), new_held);
    SledStore::set_ledger_status(l.as_mut_slice(), LedgerStatus::Resolved);
    Ok(Writes { balance: Some(b), ledger: Some(l) })
}

/// Removes the amount of entry `l` from the held funds of balance record `b`,
/// freezes the account and marks the entry charged back.
pub fn chargeback_funds(b: Vec<u8>, l: Vec<u8>) -> (r: Result<Writes, StoreError>)
    requires
        b@.len() >= BALANCE_LEN,
        l@.len() >= LEDGER_VALUE_LEN,
    ensures
        outcome_view(r) == chargeback_funds_rule(b@, l@),
{
    let mut b = b;
    let mut l = l;
    let amount = SledStore::get_ledger_amount(l.as_slice());
    let held = SledStore::get_held_val(b.as_slice());
    let new_held = match sub_counter(held, amount) {
        Some(v) => v,
        None => return Err(StoreError::Overflow),
    };
    if !total_fits(SledStore::get_balance_val(b.as_slice()), new_held) {
        return Err(StoreError::Overflow);
    }
    SledStore::set_held_val(b.as_mut_slice(), new_held);
    SledStore::set_frozen(b.as_mut_slice(), true);
    SledStore::set_ledger_status(l.as_mut_slice(), LedgerStatus::ChargedBack);
    Ok(Writes { balance: Some(b), ledger: Some(l) })
}

} // verus!
