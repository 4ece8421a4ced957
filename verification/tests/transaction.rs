use transactions::record::amount::Amount;
use transactions::record::transaction::{
    RawTransaction, RawTransactionError, RawType, Transaction,
};

fn ticks(t: u128) -> Amount {
    Amount::from_ticks(t).unwrap()
}

fn raw(tx_type: RawType, amount: Option<Amount>) -> RawTransaction {
    RawTransaction { tx_type, client_id: 1, tx_id: 101, amount }
}

#[test]
fn test_deposit() {
    // deposit, 1, 101, 10.12349
    let tx = Transaction::try_from(raw(RawType::Deposit, Some(ticks(101234)))).unwrap();
    assert_eq!(tx, Transaction::Deposit { client_id: 1, tx_id: 101, amount: ticks(101234) });
}

#[test]
fn test_withdrawal() {
    // withdrawal, 1, 101, 10.12349
    let tx = Transaction::try_from(raw(RawType::Withdrawal, Some(ticks(101234)))).unwrap();
    assert_eq!(tx, Transaction::Withdrawal { client_id: 1, tx_id: 101, amount: ticks(101234) });
}

#[test]
fn test_dispute() {
    let tx = Transaction::try_from(raw(RawType::Dispute, None)).unwrap();
    assert_eq!(tx, Transaction::Dispute { client_id: 1, tx_id: 101 });
}

#[test]
fn test_dispute_ignore_amount() {
    let tx = Transaction::try_from(raw(RawType::Dispute, Some(ticks(1230000)))).unwrap();
    assert_eq!(tx, Transaction::Dispute { client_id: 1, tx_id: 101 });
}

#[test]
fn test_resolve() {
    let tx = Transaction::try_from(raw(RawType::Resolve, None)).unwrap();
    assert_eq!(tx, Transaction::Resolve { client_id: 1, tx_id: 101 });
}

#[test]
fn test_resolve_ignore_amount() {
    let tx = Transaction::try_from(raw(RawType::Resolve, Some(ticks(990000)))).unwrap();
    assert_eq!(tx, Transaction::Resolve { client_id: 1, tx_id: 101 });
}

#[test]
fn test_chargeback() {
    let tx = Transaction::try_from(raw(RawType::Chargeback, None)).unwrap();
    assert_eq!(tx, Transaction::Chargeback { client_id: 1, tx_id: 101 });
}

#[test]
fn test_chargeback_ignore_amount() {
    let tx = Transaction::try_from(raw(RawType::Chargeback, Some(ticks(990000)))).unwrap();
    assert_eq!(tx, Transaction::Chargeback { client_id: 1, tx_id: 101 });
}

#[test]
fn deposit_and_withdrawal_need_an_amount() {
    let e = Transaction::try_from(raw(RawType::Deposit, None)).unwrap_err();
    assert_eq!(e, RawTransactionError::DepositMissingAmount);
    assert_eq!(e.message(), "Deposit missing amount");
    let e = Transaction::try_from(raw(RawType::Withdrawal, None)).unwrap_err();
    assert_eq!(e, RawTransactionError::WithdrawalMissingAmount);
    assert_eq!(e.message(), "Withdrawal missing amount");
}

#[test]
fn raw_deposit_keeps_its_client() {
    // deposit, 1, 101, 10.5
    let raw = RawTransaction { tx_type: RawType::Deposit, client_id: 1, tx_id: 101, amount: Some(ticks(105000)) };
    let tx = Transaction::try_from(raw).unwrap();
    if let Transaction::Deposit { client_id, .. } = tx {
        assert_eq!(client_id, 1);
    } else {
        panic!("not a deposit");
    }
}

#[test]
fn raw_deposit_without_amount_is_refused() {
    // deposit, 1, 1, (no amount)
    let raw = RawTransaction { tx_type: RawType::Deposit, client_id: 1, tx_id: 1, amount: None };
    assert!(Transaction::try_from(raw).is_err());
}
