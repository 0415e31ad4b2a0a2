use txledger::{
    process_record, record_fits, Account, Input, Ledger, Money, TransactionJournal, TxType,
};

/// Money is stored as ten-thousandths and compared exactly.
#[test]
fn money_units_arithmetic() {
    let a = Money::from_units(100004);
    let b = Money::from_units(50000);
    assert_eq!(a.add(b), Money::from_units(150004));
    assert_eq!(a.sub(b), Money::from_units(50004));
    assert!(a.ge(b));
    assert!(!b.ge(a));
    assert!(a.ge(a));
    assert_eq!(Money::zero(), Money::from_units(0));
}

/// Sums that would leave the representable range are detected, never wrapped.
#[test]
fn money_range_checks() {
    let top = Money::from_units(i64::MAX);
    let one = Money::from_units(1);
    assert!(!top.add_in_range(one));
    assert!(top.add_in_range(Money::from_units(0)));
    let bottom = Money::from_units(i64::MIN);
    assert!(!bottom.sub_in_range(one));
    assert!(bottom.sub_in_range(Money::from_units(0)));
}

/// An account's total is available plus held, guarded by a range check.
#[test]
fn account_total_and_range() {
    let account = Account {
        locked: false,
        available: Money::from_units(102000),
        held: Money::from_units(30000),
    };
    assert!(account.total_in_range());
    assert_eq!(account.total(), Money::from_units(132000));
    let extreme = Account {
        locked: false,
        available: Money::from_units(i64::MAX),
        held: Money::from_units(1),
    };
    assert!(!extreme.total_in_range());
}

/// The first reference to a client creates an empty, unlocked account.
#[test]
fn ledger_creates_accounts_lazily() {
    let mut ledger = Ledger::new();
    assert!(ledger.get(7).is_none());
    assert_eq!(ledger.len(), 0);
    let account = ledger.get_or_create(7);
    assert_eq!(account.available, Money::from_units(0));
    assert_eq!(account.held, Money::from_units(0));
    assert_eq!(account.locked, false);
    assert_eq!(ledger.len(), 1);
    assert!(ledger.get(7).is_some());
}

/// The snapshot lists every account exactly once, sorted by client id.
#[test]
fn snapshot_is_sorted_and_complete() {
    let mut ledger = Ledger::new();
    let mut journal = TransactionJournal::new();
    for (client, units) in [(9u16, 10000i64), (3, 20000), (65535, 30000), (0, 40000)] {
        let record = Input {
            kind: TxType::Deposit,
            client,
            tx: client as u32 + 1,
            amount: Some(Money::from_units(units)),
        };
        assert_eq!(process_record(&mut ledger, &mut journal, record), Ok(()));
    }
    let snapshot = ledger.snapshot();
    let clients: Vec<u16> = snapshot.iter().map(|(c, _)| *c).collect();
    assert_eq!(clients, vec![0, 3, 9, 65535]);
    assert_eq!(snapshot[1].1.available, Money::from_units(20000));
    assert_eq!(snapshot[3].1.available, Money::from_units(30000));
}

/// `record_fits` accepts ordinary records and rejects exactly those whose
/// arithmetic would leave the representable range.
#[test]
fn record_fits_guards_overflow() {
    let mut ledger = Ledger::new();
    let journal = TransactionJournal::new();
    let small = Input {
        kind: TxType::Deposit,
        client: 1,
        tx: 1,
        amount: Some(Money::from_units(100000)),
    };
    assert!(record_fits(&ledger, &journal, &small));
    ledger.put(
        1,
        Account {
            locked: false,
            available: Money::from_units(i64::MAX),
            held: Money::from_units(0),
        },
    );
    assert!(!record_fits(&ledger, &journal, &small));
    // A locked account rejects the record before any arithmetic happens.
    ledger.put(
        1,
        Account {
            locked: true,
            available: Money::from_units(i64::MAX),
            held: Money::from_units(0),
        },
    );
    assert!(record_fits(&ledger, &journal, &small));
}

/// The journal keeps the latest entry per transaction id and exposes it.
#[test]
fn journal_records_and_overwrites() {
    let mut journal = TransactionJournal::new();
    assert!(journal.get(5).is_none());
    journal.record(
        5,
        txledger::Transaction {
            client: 1,
            tx_type: TxType::Deposit,
            amount: Money::from_units(100),
            under_dispute: false,
        },
    );
    assert_eq!(journal.len(), 1);
    assert_eq!(journal.get(5).unwrap().amount, Money::from_units(100));
    journal.record(
        5,
        txledger::Transaction {
            client: 2,
            tx_type: TxType::Withdrawal,
            amount: Money::from_units(999),
            under_dispute: false,
        },
    );
    assert_eq!(journal.len(), 1);
    let entry = journal.get(5).unwrap();
    assert_eq!(entry.client, 2);
    assert_eq!(entry.amount, Money::from_units(999));
    assert_eq!(entry.tx_type, TxType::Withdrawal);
}
