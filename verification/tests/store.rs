use std::collections::HashMap;
use std::str::FromStr;

use rust_decimal::Decimal;
use transactions::db::sled::SledStore;
use transactions::db::{
    deposit_writes, rocks, Chargeback, ClientReport, Command, Deposit, Dispute, LedgerStatus,
    Resolve, StoreError, Withdrawal, Writes, BALANCE_LEN,
};
use transactions::record::amount::Amount;
use transactions::record::transaction::Transaction;
use transactions::report::REPORT_HEADER;

#[derive(Clone, Copy, PartialEq, Debug)]
enum Flavour {
    Rocks,
    Sled,
}

/// A store over two in-memory tables that reads, decides through the
/// library's rules and writes as the program's stores do.
struct MemStore {
    flavour: Flavour,
    balances: HashMap<u16, Vec<u8>>,
    ledger: HashMap<[u8; 6], Vec<u8>>,
}

impl MemStore {
    fn new(flavour: Flavour) -> Self {
        MemStore { flavour, balances: HashMap::new(), ledger: HashMap::new() }
    }

    fn write(&mut self, client: u16, tx: u32, w: Writes) {
        if let Some(b) = w.balance {
            self.balances.insert(client, b);
        }
        if let Some(l) = w.ledger {
            self.ledger.insert(SledStore::create_ledger_key(client, tx), l);
        }
    }

    fn bal(&self, client: u16) -> Option<Vec<u8>> {
        self.balances.get(&client).cloned()
    }

    fn led(&self, client: u16, tx: u32) -> Option<Vec<u8>> {
        self.ledger.get(&SledStore::create_ledger_key(client, tx)).cloned()
    }

    fn deposit(&mut self, cmd: Deposit) -> Result<(), StoreError> {
        let w = deposit_writes(self.bal(cmd.client), &cmd)?;
        self.write(cmd.client, cmd.tx, w);
        Ok(())
    }

    fn withdrawal(&mut self, cmd: Withdrawal) -> Result<(), StoreError> {
        let w = match self.flavour {
            Flavour::Rocks => rocks::withdrawal_writes(self.bal(cmd.client), &cmd)?,
            Flavour::Sled => SledStore::withdrawal_writes(self.bal(cmd.client), &cmd)?,
        };
        self.write(cmd.client, cmd.tx, w);
        Ok(())
    }

    fn dispute(&mut self, cmd: Dispute) -> Result<(), StoreError> {
        let (e, b) = (self.led(cmd.client, cmd.tx), self.bal(cmd.client));
        let w = match self.flavour {
            Flavour::Rocks => rocks::dispute_writes(e, b)?,
            Flavour::Sled => SledStore::dispute_writes(e, b)?,
        };
        self.write(cmd.client, cmd.tx, w);
        Ok(())
    }

    fn resolve(&mut self, cmd: Resolve) -> Result<(), StoreError> {
        let (e, b) = (self.led(cmd.client, cmd.tx), self.bal(cmd.client));
        let w = match self.flavour {
            Flavour::Rocks => rocks::resolve_writes(e, b)?,
            Flavour::Sled => SledStore::resolve_writes(e, b)?,
        };
        self.write(cmd.client, cmd.tx, w);
        Ok(())
    }

    fn chargeback(&mut self, cmd: Chargeback) -> Result<(), StoreError> {
        let (e, b) = (self.led(cmd.client, cmd.tx), self.bal(cmd.client));
        let w = match self.flavour {
            Flavour::Rocks => rocks::chargeback_writes(e, b)?,
            Flavour::Sled => SledStore::chargeback_writes(e, b)?,
        };
        self.write(cmd.client, cmd.tx, w);
        Ok(())
    }

    fn apply(&mut self, cmd: Command) -> Result<(), StoreError> {
        match cmd {
            Command::Deposit(c) => self.deposit(c),
            Command::Withdrawal(c) => self.withdrawal(c),
            Command::Dispute(c) => self.dispute(c),
            Command::Resolve(c) => self.resolve(c),
            Command::Chargeback(c) => self.chargeback(c),
        }
    }

    fn report(&self) -> Vec<u8> {
        let mut clients: Vec<&u16> = self.balances.keys().collect();
        clients.sort();
        let mut out = REPORT_HEADER.as_bytes().to_vec();
        for c in clients {
            let r = ClientReport::from_record(&c.to_be_bytes(), &self.balances[c]);
            out.extend(r.line());
        }
        out
    }
}

/// The store's count of ten-thousandths of a decimal amount.
fn amt(s: &str) -> i128 {
    let d = Decimal::from_str(s).unwrap();
    Amount::from_decimal_parts(d.mantissa(), d.scale()).unwrap().ticks() as i128
}

fn deposit(client: u16, tx: u32, amount: &str) -> Deposit {
    Deposit { client, tx, amount: amt(amount) }
}

fn withdrawal(client: u16, tx: u32, amount: &str) -> Withdrawal {
    Withdrawal { client, tx, amount: amt(amount) }
}

fn available(store: &MemStore, client: u16) -> i128 {
    SledStore::get_balance_val(&store.balances[&client])
}

fn held(store: &MemStore, client: u16) -> i128 {
    SledStore::get_held_val(&store.balances[&client])
}

fn frozen(store: &MemStore, client: u16) -> bool {
    SledStore::is_frozen(&store.balances[&client])
}

fn status(store: &MemStore, client: u16, tx: u32) -> LedgerStatus {
    SledStore::get_ledger_status(&store.led(client, tx).unwrap())
}

// --- rocks store -----------------------------------------------------------

#[test]
fn rocks_test_deposit_new_account() {
    let mut store = MemStore::new(Flavour::Rocks);
    store.deposit(deposit(1, 1, "100.0")).unwrap();
    assert!(store.balances.contains_key(&1), "Account should exist");
    assert_eq!(available(&store, 1), amt("100"));
    assert!(!frozen(&store, 1));
}

#[test]
fn rocks_test_deposit_existing_account_accumulation() {
    let mut store = MemStore::new(Flavour::Rocks);
    store.deposit(deposit(1, 1, "100.0")).unwrap();
    store.deposit(deposit(1, 2, "50.5")).unwrap();
    assert_eq!(available(&store, 1), amt("150.5"));
}

#[test]
fn rocks_test_deposit_frozen_account_fails() {
    let mut store = MemStore::new(Flavour::Rocks);
    let mut bal = vec![0u8; BALANCE_LEN];
    SledStore::set_frozen(&mut bal, true);
    store.balances.insert(1, bal);
    let result = store.deposit(deposit(1, 1, "100.0"));
    assert!(result.is_err());
    assert_eq!(result.unwrap_err().message(), "Account is frozen");
}

#[test]
fn rocks_test_withdraw_non_existent_no_error() {
    let mut store = MemStore::new(Flavour::Rocks);
    let result = store.withdrawal(withdrawal(99, 1, "50.0"));
    assert!(result.is_ok(), "Should not return error for non-existent account");
}

#[test]
fn test_withdraw_insufficient_funds_fails() {
    let mut store = MemStore::new(Flavour::Rocks);
    store.deposit(deposit(1, 1, "10.0")).unwrap();
    let result = store.withdrawal(withdrawal(1, 2, "50.0"));
    assert!(result.is_err());
    assert_eq!(result.unwrap_err().message(), "Insufficient funds");
}

#[test]
fn rocks_test_withdraw_success() {
    let mut store = MemStore::new(Flavour::Rocks);
    store.deposit(deposit(1, 1, "100.0")).unwrap();
    store.withdrawal(withdrawal(1, 2, "40.0")).unwrap();
    assert_eq!(available(&store, 1), amt("60.0"));
}

#[test]
fn test_withdraw_frozen_fails_even_with_funds() {
    let mut store = MemStore::new(Flavour::Rocks);
    store.deposit(deposit(1, 1, "100.0")).unwrap();
    let mut bal = store.bal(1).unwrap();
    assert_eq!(bal.len(), BALANCE_LEN);
    SledStore::set_frozen(&mut bal, true);
    store.balances.insert(1, bal);
    let result = store.withdrawal(withdrawal(1, 2, "10.0"));
    assert!(result.is_err());
    assert_eq!(result.unwrap_err().message(), "Account is frozen");
}

#[test]
fn test_dispute_non_existent_silent() {
    let mut store = MemStore::new(Flavour::Rocks);
    let result = store.dispute(Dispute { client: 1, tx: 99 });
    assert!(result.is_ok(), "Dispute against non-existent record should be silent");
}

#[test]
fn rocks_test_dispute_normal_effective() {
    let mut store = MemStore::new(Flavour::Rocks);
    store.deposit(deposit(1, 1, "100.0")).unwrap();
    store.dispute(Dispute { client: 1, tx: 1 }).unwrap();
    assert_eq!(available(&store, 1), 0);
    assert_eq!(held(&store, 1), amt("100.0"));
    assert_eq!(status(&store, 1, 1), LedgerStatus::Disputed);
}

#[test]
fn test_dispute_against_chargeback_ignored() {
    let mut store = MemStore::new(Flavour::Rocks);
    store.deposit(deposit(1, 1, "100.0")).unwrap();
    store.dispute(Dispute { client: 1, tx: 1 }).unwrap();
    store.chargeback(Chargeback { client: 1, tx: 1 }).unwrap();
    let avail_before = available(&store, 1);
    store.dispute(Dispute { client: 1, tx: 1 }).unwrap();
    assert_eq!(available(&store, 1), avail_before);
}

#[test]
fn rocks_test_dispute_against_disputed_ignored() {
    let mut store = MemStore::new(Flavour::Rocks);
    store.deposit(deposit(1, 1, "100.0")).unwrap();
    store.dispute(Dispute { client: 1, tx: 1 }).unwrap();
    store.dispute(Dispute { client: 1, tx: 1 }).unwrap();
    assert_eq!(available(&store, 1), 0);
}

#[test]
fn test_resolve_non_existent_silent() {
    let mut store = MemStore::new(Flavour::Rocks);
    let result = store.resolve(Resolve { client: 1, tx: 99 });
    assert!(result.is_ok(), "Resolve against non-existent record should be silent");
}

#[test]
fn rocks_test_resolve_disputed_effective() {
    let mut store = MemStore::new(Flavour::Rocks);
    store.deposit(deposit(1, 1, "100.0")).unwrap();
    store.dispute(Dispute { client: 1, tx: 1 }).unwrap();
    store.resolve(Resolve { client: 1, tx: 1 }).unwrap();
    assert_eq!(available(&store, 1), amt("100.0"));
    assert_eq!(status(&store, 1, 1), LedgerStatus::Resolved);
}

#[test]
fn rocks_test_resolve_against_chargeback_ignored() {
    let mut store = MemStore::new(Flavour::Rocks);
    store.deposit(deposit(1, 1, "100.0")).unwrap();
    store.dispute(Dispute { client: 1, tx: 1 }).unwrap();
    store.chargeback(Chargeback { client: 1, tx: 1 }).unwrap();
    let avail_before = available(&store, 1);
    store.resolve(Resolve { client: 1, tx: 1 }).unwrap();
    assert_eq!(available(&store, 1), avail_before);
    assert_eq!(status(&store, 1, 1), LedgerStatus::ChargedBack);
}

#[test]
fn rocks_test_chargeback_against_normal_ignored() {
    let mut store = MemStore::new(Flavour::Rocks);
    store.deposit(deposit(1, 1, "100.0")).unwrap();
    store.chargeback(Chargeback { client: 1, tx: 1 }).unwrap();
    assert!(!frozen(&store, 1));
    assert_eq!(status(&store, 1, 1), LedgerStatus::Normal);
}

#[test]
fn test_chargeback_against_chargeback_ignored() {
    let mut store = MemStore::new(Flavour::Rocks);
    store.deposit(deposit(1, 1, "100.0")).unwrap();
    store.dispute(Dispute { client: 1, tx: 1 }).unwrap();
    store.chargeback(Chargeback { client: 1, tx: 1 }).unwrap();
    store.chargeback(Chargeback { client: 1, tx: 1 }).unwrap();
    assert_eq!(status(&store, 1, 1), LedgerStatus::ChargedBack);
}

#[test]
fn test_chargeback_against_resolved_ignored() {
    let mut store = MemStore::new(Flavour::Rocks);
    store.deposit(deposit(1, 1, "100.0")).unwrap();
    store.dispute(Dispute { client: 1, tx: 1 }).unwrap();
    store.resolve(Resolve { client: 1, tx: 1 }).unwrap();
    store.chargeback(Chargeback { client: 1, tx: 1 }).unwrap();
    assert!(!frozen(&store, 1));
}

#[test]
fn rocks_test_chargeback_against_dispute_effective() {
    let mut store = MemStore::new(Flavour::Rocks);
    store.deposit(deposit(1, 1, "100.0")).unwrap();
    store.dispute(Dispute { client: 1, tx: 1 }).unwrap();
    store.chargeback(Chargeback { client: 1, tx: 1 }).unwrap();
    assert!(frozen(&store, 1));
    assert_eq!(status(&store, 1, 1), LedgerStatus::ChargedBack);
}

#[test]
fn rocks_missing_balance_is_reported() {
    let mut store = MemStore::new(Flavour::Rocks);
    store.deposit(deposit(1, 1, "5")).unwrap();
    store.balances.remove(&1);
    assert_eq!(
        store.dispute(Dispute { client: 1, tx: 1 }).unwrap_err(),
        StoreError::BalanceNotFoundForDispute
    );
    assert_eq!(
        store.dispute(Dispute { client: 1, tx: 1 }).unwrap_err().message(),
        "Balance not found for dispute"
    );
    let mut e = store.led(1, 1).unwrap();
    SledStore::set_ledger_status(&mut e, LedgerStatus::Disputed);
    store.ledger.insert(SledStore::create_ledger_key(1, 1), e);
    assert_eq!(
        store.resolve(Resolve { client: 1, tx: 1 }).unwrap_err(),
        StoreError::BalanceNotFoundForResolve
    );
    assert_eq!(
        store.chargeback(Chargeback { client: 1, tx: 1 }).unwrap_err(),
        StoreError::BalanceNotFoundForChargeback
    );
}

#[test]
fn overflow_is_refused_and_changes_nothing() {
    for flavour in [Flavour::Rocks, Flavour::Sled] {
        let mut store = MemStore::new(flavour);
        store.deposit(Deposit { client: 3, tx: 1, amount: i128::MAX }).unwrap();
        let before = store.bal(3);
        let result = store.deposit(Deposit { client: 3, tx: 2, amount: 1 });
        assert_eq!(result.unwrap_err(), StoreError::Overflow);
        assert_eq!(result.unwrap_err().message(), "Balance out of range");
        assert_eq!(store.bal(3), before);
        assert!(store.led(3, 2).is_none());
    }
}

#[test]
fn balances_use_the_whole_counter() {
    for flavour in [Flavour::Rocks, Flavour::Sled] {
        let mut store = MemStore::new(flavour);
        let big = 1i128 << 126;
        store.deposit(Deposit { client: 6, tx: 1, amount: big }).unwrap();
        store.deposit(Deposit { client: 6, tx: 2, amount: big - 1 }).unwrap();
        assert_eq!(available(&store, 6), i128::MAX);
        store.dispute(Dispute { client: 6, tx: 1 }).unwrap();
        assert_eq!((available(&store, 6), held(&store, 6)), (big - 1, big));
        store.resolve(Resolve { client: 6, tx: 1 }).unwrap();
        assert_eq!((available(&store, 6), held(&store, 6)), (i128::MAX, 0));
        let r = ClientReport::from_record(&6u16.to_be_bytes(), &store.bal(6).unwrap());
        assert_eq!(r.total, i128::MAX);
    }
}

#[test]
fn a_total_beyond_the_counter_is_refused() {
    for flavour in [Flavour::Rocks, Flavour::Sled] {
        let mut store = MemStore::new(flavour);
        store.deposit(Deposit { client: 3, tx: 1, amount: 10 }).unwrap();
        store.dispute(Dispute { client: 3, tx: 1 }).unwrap();
        let before = store.bal(3);
        let result = store.deposit(Deposit { client: 3, tx: 2, amount: i128::MAX });
        assert_eq!(result.unwrap_err(), StoreError::Overflow);
        assert_eq!(store.bal(3), before);
        store.deposit(Deposit { client: 3, tx: 3, amount: i128::MAX - 10 }).unwrap();
        assert_eq!(available(&store, 3) + held(&store, 3), i128::MAX);
    }
}

// --- sled store ------------------------------------------------------------

#[test]
fn sled_test_deposit_new_account() {
    let mut store = MemStore::new(Flavour::Sled);
    store.deposit(deposit(1, 1, "100.0")).unwrap();
    assert!(store.balances.contains_key(&1), "Account should exist");
    assert_eq!(available(&store, 1), amt("100.0"));
    assert!(!frozen(&store, 1));
}

#[test]
fn sled_test_deposit_existing_account_accumulation() {
    let mut store = MemStore::new(Flavour::Sled);
    store.deposit(deposit(1, 1, "100.0")).unwrap();
    store.deposit(deposit(1, 2, "50.5")).unwrap();
    assert_eq!(available(&store, 1), amt("150.5"));
}

#[test]
fn sled_test_deposit_frozen_account_fails() {
    let mut store = MemStore::new(Flavour::Sled);
    let mut bal = vec![0u8; BALANCE_LEN];
    SledStore::set_frozen(&mut bal, true);
    store.balances.insert(1, bal);
    let result = store.deposit(deposit(1, 1, "100.0"));
    assert!(result.is_err());
    assert!(result.unwrap_err().message().contains("frozen"));
}

#[test]
fn sled_test_withdraw_non_existent_no_error() {
    let mut store = MemStore::new(Flavour::Sled);
    let result = store.withdrawal(withdrawal(99, 1, "50.0"));
    assert!(result.is_ok(), "Withdrawal from non-existent should be silent");
}

#[test]
fn test_withdraw_insufficient_funds_silent() {
    let mut store = MemStore::new(Flavour::Sled);
    store.deposit(deposit(1, 1, "10.0")).unwrap();
    store.withdrawal(withdrawal(1, 2, "50.0")).unwrap();
    assert_eq!(available(&store, 1), amt("10.0"));
}

#[test]
fn sled_test_withdraw_success() {
    let mut store = MemStore::new(Flavour::Sled);
    store.deposit(deposit(1, 1, "100.0")).unwrap();
    store.withdrawal(withdrawal(1, 2, "40.0")).unwrap();
    assert_eq!(available(&store, 1), amt("60.0"));
}

#[test]
fn sled_test_dispute_normal_effective() {
    let mut store = MemStore::new(Flavour::Sled);
    store.deposit(deposit(1, 1, "100.0")).unwrap();
    store.dispute(Dispute { client: 1, tx: 1 }).unwrap();
    assert_eq!(available(&store, 1), 0);
    assert_eq!(held(&store, 1), amt("100.0"));
    assert_eq!(status(&store, 1, 1), LedgerStatus::Disputed);
}

#[test]
fn sled_test_resolve_disputed_effective() {
    let mut store = MemStore::new(Flavour::Sled);
    store.deposit(deposit(1, 1, "100.0")).unwrap();
    store.dispute(Dispute { client: 1, tx: 1 }).unwrap();
    store.resolve(Resolve { client: 1, tx: 1 }).unwrap();
    assert_eq!(available(&store, 1), amt("100.0"));
    assert_eq!(held(&store, 1), 0);
    assert_eq!(status(&store, 1, 1), LedgerStatus::Resolved);
}

#[test]
fn sled_test_dispute_against_disputed_ignored() {
    let mut store = MemStore::new(Flavour::Sled);
    store.deposit(deposit(1, 1, "100.0")).unwrap();
    store.dispute(Dispute { client: 1, tx: 1 }).unwrap();
    store.dispute(Dispute { client: 1, tx: 1 }).unwrap();
    assert_eq!(available(&store, 1), 0);
    assert_eq!(held(&store, 1), amt("100.0"));
}

#[test]
fn sled_test_chargeback_against_dispute_effective() {
    let mut store = MemStore::new(Flavour::Sled);
    store.deposit(deposit(1, 1, "100.0")).unwrap();
    store.dispute(Dispute { client: 1, tx: 1 }).unwrap();
    store.chargeback(Chargeback { client: 1, tx: 1 }).unwrap();
    assert!(frozen(&store, 1));
    assert_eq!(held(&store, 1), 0);
    assert_eq!(status(&store, 1, 1), LedgerStatus::ChargedBack);
}

#[test]
fn sled_test_chargeback_against_normal_ignored() {
    let mut store = MemStore::new(Flavour::Sled);
    store.deposit(deposit(1, 1, "100.0")).unwrap();
    store.chargeback(Chargeback { client: 1, tx: 1 }).unwrap();
    assert!(!frozen(&store, 1));
    assert_eq!(available(&store, 1), amt("100.0"));
}

#[test]
fn sled_test_resolve_against_chargeback_ignored() {
    let mut store = MemStore::new(Flavour::Sled);
    store.deposit(deposit(1, 1, "100.0")).unwrap();
    store.dispute(Dispute { client: 1, tx: 1 }).unwrap();
    store.chargeback(Chargeback { client: 1, tx: 1 }).unwrap();
    store.resolve(Resolve { client: 1, tx: 1 }).unwrap();
    assert!(frozen(&store, 1));
    assert_eq!(available(&store, 1), 0);
}

#[test]
fn sled_frozen_withdrawal_and_missing_balance_are_silent() {
    let mut store = MemStore::new(Flavour::Sled);
    store.deposit(deposit(1, 1, "100.0")).unwrap();
    store.dispute(Dispute { client: 1, tx: 1 }).unwrap();
    store.chargeback(Chargeback { client: 1, tx: 1 }).unwrap();
    store.deposit(deposit(1, 2, "5")).unwrap_err();
    let before = store.bal(1);
    store.withdrawal(withdrawal(1, 3, "0")).unwrap();
    assert_eq!(store.bal(1), before);
    store.balances.remove(&1);
    store.resolve(Resolve { client: 1, tx: 1 }).unwrap();
    store.dispute(Dispute { client: 1, tx: 1 }).unwrap();
}

// --- the engine over a store -------------------------------------------------

/// Runs transactions through the library's dispatch into a rocks-rule store,
/// as the program does, and returns the report.
fn run(transactions: Vec<Transaction>) -> Vec<u8> {
    let mut store = MemStore::new(Flavour::Rocks);
    for tx in &transactions {
        let _ = store.apply(Command::from_transaction(tx));
    }
    store.report()
}

fn money(s: &str) -> Amount {
    let d = Decimal::from_str(s).unwrap();
    Amount::from_decimal_parts(d.mantissa(), d.scale()).unwrap()
}

#[test]
fn engine_reports_a_single_deposit() {
    let report = run(vec![Transaction::Deposit { client_id: 1, tx_id: 1, amount: money("10.0") }]);
    let report = String::from_utf8(report).unwrap();
    assert!(report.contains("1,10.0000,0.0000,10.0000,false"));
}

#[test]
fn engine_ignores_withdrawal_after_chargeback() {
    let report = run(vec![
        Transaction::Deposit { client_id: 1, tx_id: 1, amount: money("100.0") },
        Transaction::Dispute { client_id: 1, tx_id: 1 },
        Transaction::Chargeback { client_id: 1, tx_id: 1 },
        Transaction::Withdrawal { client_id: 1, tx_id: 2, amount: money("10.0") },
    ]);
    let output_str = String::from_utf8(report).unwrap();
    let expected_output = "client,available,held,total,locked
1,0.0000,0.0000,0.0000,true";
    assert!(output_str.contains(expected_output), "Report mismatch. Found: {}", output_str);
}

#[test]
fn engine_keeps_order_and_reports_every_client() {
    let report = run(vec![
        Transaction::Deposit { client_id: 2, tx_id: 1, amount: money("2.5") },
        Transaction::Deposit { client_id: 1, tx_id: 2, amount: money("1") },
        Transaction::Withdrawal { client_id: 2, tx_id: 3, amount: money("3") },
        Transaction::Withdrawal { client_id: 2, tx_id: 4, amount: money("0.5") },
        Transaction::Dispute { client_id: 1, tx_id: 2 },
    ]);
    assert_eq!(
        String::from_utf8(report).unwrap(),
        "client,available,held,total,locked\n1,0.0000,1.0000,1.0000,false\n2,2.0000,0.0000,2.0000,false\n"
    );
}

#[test]
fn dispute_after_withdrawal_goes_negative() {
    let report = run(vec![
        Transaction::Deposit { client_id: 7, tx_id: 1, amount: money("10") },
        Transaction::Withdrawal { client_id: 7, tx_id: 2, amount: money("8") },
        Transaction::Dispute { client_id: 7, tx_id: 1 },
    ]);
    assert!(String::from_utf8(report).unwrap().contains("7,-8.0000,10.0000,2.0000,false"));
}

// --- laws on concrete values ---------------------------------------------------

#[test]
fn resolve_undoes_dispute_exactly() {
    for flavour in [Flavour::Rocks, Flavour::Sled] {
        let mut store = MemStore::new(flavour);
        store.deposit(deposit(5, 1, "12.5")).unwrap();
        store.deposit(deposit(5, 2, "3")).unwrap();
        store.withdrawal(withdrawal(5, 3, "1.25")).unwrap();
        let (balances, ledger) = (store.balances.clone(), store.ledger.clone());
        let total = available(&store, 5) + held(&store, 5);
        store.dispute(Dispute { client: 5, tx: 2 }).unwrap();
        assert_ne!(store.balances, balances);
        assert_eq!(available(&store, 5) + held(&store, 5), total);
        assert!(store.balances.values().all(|b| b.len() == BALANCE_LEN));
        store.resolve(Resolve { client: 5, tx: 2 }).unwrap();
        assert_eq!(store.balances, balances);
        let mut resolved = ledger.clone();
        SledStore::set_ledger_status(
            resolved.get_mut(&SledStore::create_ledger_key(5, 2)).unwrap(),
            LedgerStatus::Resolved,
        );
        assert_eq!(store.ledger, resolved);
        assert_eq!(status(&store, 5, 2), LedgerStatus::Resolved);
    }
}

#[test]
fn resolved_transaction_is_never_disputed_again() {
    for flavour in [Flavour::Rocks, Flavour::Sled] {
        let mut store = MemStore::new(flavour);
        store.deposit(deposit(1, 1, "100")).unwrap();
        store.dispute(Dispute { client: 1, tx: 1 }).unwrap();
        store.resolve(Resolve { client: 1, tx: 1 }).unwrap();
        let (balances, ledger) = (store.balances.clone(), store.ledger.clone());
        store.dispute(Dispute { client: 1, tx: 1 }).unwrap();
        store.chargeback(Chargeback { client: 1, tx: 1 }).unwrap();
        store.resolve(Resolve { client: 1, tx: 1 }).unwrap();
        store.withdrawal(withdrawal(1, 2, "30")).unwrap();
        assert_eq!(store.ledger, ledger);
        assert_ne!(store.balances, balances);
        assert_eq!(available(&store, 1), amt("70"));
        assert_eq!(held(&store, 1), 0);
        assert!(!frozen(&store, 1));
        assert_eq!(status(&store, 1, 1), LedgerStatus::Resolved);
    }
}

#[test]
fn largest_amount_is_accepted() {
    let d = Decimal::MAX;
    let most = Amount::from_decimal_parts(d.mantissa(), d.scale()).unwrap();
    for flavour in [Flavour::Rocks, Flavour::Sled] {
        let mut store = MemStore::new(flavour);
        let tx = Transaction::Deposit { client_id: 4, tx_id: 1, amount: most };
        store.apply(Command::from_transaction(&tx)).unwrap();
        store.apply(Command::from_transaction(&tx)).unwrap();
        let w = Transaction::Withdrawal { client_id: 4, tx_id: 2, amount: most };
        store.apply(Command::from_transaction(&w)).unwrap();
        assert_eq!(available(&store, 4), most.ticks() as i128);
        store.dispute(Dispute { client: 4, tx: 1 }).unwrap();
        assert_eq!(held(&store, 4), most.ticks() as i128);
        assert_eq!(available(&store, 4), 0);
    }
}

#[test]
fn repeating_changes_nothing() {
    for flavour in [Flavour::Rocks, Flavour::Sled] {
        let mut store = MemStore::new(flavour);
        store.deposit(deposit(5, 1, "12.5")).unwrap();
        store.dispute(Dispute { client: 5, tx: 1 }).unwrap();
        let (balances, ledger) = (store.balances.clone(), store.ledger.clone());
        store.dispute(Dispute { client: 5, tx: 1 }).unwrap();
        assert_eq!((&store.balances, &store.ledger), (&balances, &ledger));
        store.resolve(Resolve { client: 5, tx: 1 }).unwrap();
        let (balances, ledger) = (store.balances.clone(), store.ledger.clone());
        store.resolve(Resolve { client: 5, tx: 1 }).unwrap();
        assert_eq!((&store.balances, &store.ledger), (&balances, &ledger));
        store.dispute(Dispute { client: 5, tx: 1 }).unwrap();
        store.chargeback(Chargeback { client: 5, tx: 1 }).unwrap();
        let (balances, ledger) = (store.balances.clone(), store.ledger.clone());
        store.chargeback(Chargeback { client: 5, tx: 1 }).unwrap();
        assert_eq!((&store.balances, &store.ledger), (&balances, &ledger));
    }
}

#[test]
fn frozen_stays_frozen_and_chargeback_is_final() {
    for flavour in [Flavour::Rocks, Flavour::Sled] {
        let mut store = MemStore::new(flavour);
        store.deposit(deposit(8, 1, "10")).unwrap();
        store.deposit(deposit(8, 2, "4")).unwrap();
        store.dispute(Dispute { client: 8, tx: 1 }).unwrap();
        store.chargeback(Chargeback { client: 8, tx: 1 }).unwrap();
        let _ = store.deposit(deposit(8, 1, "1"));
        let _ = store.withdrawal(withdrawal(8, 3, "1"));
        let _ = store.dispute(Dispute { client: 8, tx: 1 });
        let _ = store.resolve(Resolve { client: 8, tx: 1 });
        let _ = store.dispute(Dispute { client: 8, tx: 2 });
        let _ = store.resolve(Resolve { client: 8, tx: 2 });
        assert!(frozen(&store, 8));
        assert_eq!(status(&store, 8, 1), LedgerStatus::ChargedBack);
        assert_eq!(available(&store, 8), amt("4"));
        assert_eq!(held(&store, 8), 0);
    }
}

#[test]
fn held_is_the_disputed_amounts() {
    for flavour in [Flavour::Rocks, Flavour::Sled] {
        let mut store = MemStore::new(flavour);
        store.deposit(deposit(2, 1, "1.5")).unwrap();
        store.deposit(deposit(2, 2, "2.25")).unwrap();
        store.deposit(deposit(2, 3, "4")).unwrap();
        store.dispute(Dispute { client: 2, tx: 1 }).unwrap();
        store.dispute(Dispute { client: 2, tx: 3 }).unwrap();
        assert_eq!(held(&store, 2), amt("5.5"));
        store.resolve(Resolve { client: 2, tx: 1 }).unwrap();
        assert_eq!(held(&store, 2), amt("4"));
        store.chargeback(Chargeback { client: 2, tx: 3 }).unwrap();
        assert_eq!(held(&store, 2), 0);
        assert_eq!(available(&store, 2), amt("3.75"));
    }
}
