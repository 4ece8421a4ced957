use transactions::db::sled::SledStore;
use transactions::db::{LedgerStatus, BALANCE_LEN, LEDGER_VALUE_LEN};

#[test]
fn balance_fields_read_back() {
    let mut bal = vec![0u8; BALANCE_LEN];
    for v in [0i128, 1, -1, 1234567, i64::MAX as i128, i64::MIN as i128, i128::MAX, i128::MIN] {
        SledStore::set_balance_val(&mut bal, v);
        SledStore::set_held_val(&mut bal, v.wrapping_neg());
        assert_eq!(SledStore::get_balance_val(&bal), v);
        assert_eq!(SledStore::get_held_val(&bal), v.wrapping_neg());
        assert!(!SledStore::is_frozen(&bal));
    }
}

#[test]
fn balance_record_is_big_endian() {
    let mut bal = vec![0u8; BALANCE_LEN];
    SledStore::set_frozen(&mut bal, true);
    SledStore::set_balance_val(&mut bal, 0x0102030405060708);
    SledStore::set_held_val(&mut bal, -2);
    let mut expected = vec![1u8];
    expected.extend([0, 0, 0, 0, 0, 0, 0, 0, 1, 2, 3, 4, 5, 6, 7, 8]);
    expected.extend([0xffu8; 15]);
    expected.push(0xfe);
    assert_eq!(bal, expected);
    assert_eq!(bal.len(), 33);
    SledStore::set_frozen(&mut bal, false);
    assert_eq!(bal[0], 0);
}

#[test]
fn ledger_key_is_client_then_tx() {
    assert_eq!(SledStore::create_ledger_key(0x0102, 0x03040506), [1, 2, 3, 4, 5, 6]);
    assert_eq!(SledStore::create_ledger_key(65535, 0), [0xff, 0xff, 0, 0, 0, 0]);
}

#[test]
fn ledger_value_reads_back() {
    let mut v = SledStore::create_ledger_val(1000000, LedgerStatus::Normal);
    assert_eq!(v.len(), LEDGER_VALUE_LEN);
    assert_eq!(v, vec![0, 0, 0, 0, 0, 0, 0, 0, 0, 0, 0, 0, 0, 0x0f, 0x42, 0x40, 0]);
    assert_eq!(SledStore::get_ledger_amount(&v), 1000000);
    assert_eq!(SledStore::get_ledger_status(&v), LedgerStatus::Normal);
    SledStore::set_ledger_status(&mut v, LedgerStatus::ChargedBack);
    assert_eq!(v[16], 3);
    assert_eq!(SledStore::get_ledger_status(&v), LedgerStatus::ChargedBack);
    SledStore::set_ledger_status(&mut v, LedgerStatus::Disputed);
    assert_eq!(v[16], 1);
    SledStore::set_ledger_status(&mut v, LedgerStatus::Resolved);
    assert_eq!(v[16], 4);
    assert_eq!(SledStore::get_ledger_status(&v), LedgerStatus::Resolved);
    assert_eq!(SledStore::get_ledger_amount(&v), 1000000);
}

#[test]
fn unknown_status_byte_reads_normal() {
    let mut v = SledStore::create_ledger_val(5, LedgerStatus::Disputed);
    v[16] = 2;
    assert_eq!(SledStore::get_ledger_status(&v), LedgerStatus::Normal);
}

#[test]
fn status_bytes() {
    assert_eq!(u8::from(LedgerStatus::Normal), 0);
    assert_eq!(u8::from(LedgerStatus::Disputed), 1);
    assert_eq!(u8::from(LedgerStatus::ChargedBack), 3);
    assert_eq!(LedgerStatus::try_from(3), Ok(LedgerStatus::ChargedBack));
    assert_eq!(LedgerStatus::try_from(1), Ok(LedgerStatus::Disputed));
    assert_eq!(LedgerStatus::try_from(0), Ok(LedgerStatus::Normal));
    assert_eq!(u8::from(LedgerStatus::Resolved), 4);
    assert_eq!(LedgerStatus::try_from(4), Ok(LedgerStatus::Resolved));
    assert_eq!(LedgerStatus::try_from(2).unwrap_err().0, 2);
    assert_eq!(LedgerStatus::try_from(2).unwrap_err().message(), "Invalid ledger status: 2");
    assert_eq!(LedgerStatus::try_from(255).unwrap_err().message(), "Invalid ledger status: 255");
    assert_eq!(LedgerStatus::try_from(17).unwrap_err().message(), "Invalid ledger status: 17");
    for s in [
        LedgerStatus::Normal,
        LedgerStatus::Disputed,
        LedgerStatus::Resolved,
        LedgerStatus::ChargedBack,
    ] {
        assert_eq!(LedgerStatus::try_from(u8::from(s)), Ok(s));
    }
}

#[test]
fn rocks_and_sled_name_one_status() {
    let a: transactions::db::rocks::LedgerStatus = LedgerStatus::Disputed;
    let b: transactions::db::sled::LedgerStatus = a;
    assert_eq!(a, b);
}

#[test]
fn ledger_keys_sort_by_client_then_tx() {
    let pairs = [(0u16, 5u32), (0, 256), (1, 0), (1, 0x01000000), (2, 1), (0x0100, 0), (65535, 7)];
    for (i, a) in pairs.iter().enumerate() {
        for (j, b) in pairs.iter().enumerate() {
            let ka = SledStore::create_ledger_key(a.0, a.1);
            let kb = SledStore::create_ledger_key(b.0, b.1);
            assert_eq!(ka < kb, i < j, "{:?} {:?}", a, b);
        }
    }
}
