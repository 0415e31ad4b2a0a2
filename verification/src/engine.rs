//! The transaction state machine: a mathematical `step` function that says
//! exactly how one record changes the ledger and the journal, and the
//! verified `process_record` entry point that implements it.

use vstd::prelude::*;

use crate::account::{new_account, Account, AccountView, Ledger};
use crate::journal::{EntryView, Transaction, TransactionJournal};
use crate::money::in_money_range;
use crate::records::{Diagnostic, Input, RecordView, TxType};

verus! {

/// The account the state machine works on: the client's current state, or a
/// fresh account on first reference.
pub open spec fn account_or_new(ledger: Map<u16, AccountView>, client: u16) -> AccountView {
    if ledger.contains_key(client) {
        ledger[client]
    } else {
        new_account()
    }
}

/// The state and outcome that one record leads to.
pub ghost struct StepResult {
    pub ledger: Map<u16, AccountView>,
    pub journal: Map<u32, EntryView>,
    pub outcome: Result<(), Diagnostic>,
}

/// How one record changes the system. The client's account is created on
/// first reference even when the record is then rejected; a rejection changes
/// nothing else. A locked account rejects every record. Deposits and
/// withdrawals that move money are journalled for later disputes; a dispute
/// moves the disputed deposit from `available` to `held`; a resolve moves it
/// back; a chargeback forfeits the held funds and locks the account.
pub open spec fn step(
    ledger: Map<u16, AccountView>,
    journal: Map<u32, EntryView>,
    r: RecordView,
) -> StepResult {
    let acct = account_or_new(ledger, r.client);
    let base = ledger.insert(r.client, acct);
    if acct.locked {
        StepResult { ledger: base, journal, outcome: Err(Diagnostic::LockedAccountRejected) }
    } else {
        match r.kind {
            TxType::Deposit => match r.amount {
                None => StepResult {
                    ledger: base,
                    journal,
                    outcome: Err(Diagnostic::MalformedRecord),
                },
                Some(a) => StepResult {
                    ledger: base.insert(
                        r.client,
                        AccountView {
                            locked: acct.locked,
                            available: acct.available + a,
                            held: acct.held,
                        },
                    ),
                    journal: journal.insert(
                        r.tx,
                        EntryView {
                            client: r.client,
                            tx_type: TxType::Deposit,
                            amount: a,
                            under_dispute: false,
                        },
                    ),
                    outcome: Ok(()),
                },
            },
            TxType::Withdrawal => match r.amount {
                None => StepResult {
                    ledger: base,
                    journal,
                    outcome: Err(Diagnostic::MalformedRecord),
                },
                Some(a) => if acct.available >= a {
                    StepResult {
                        ledger: base.insert(
                            r.client,
                            AccountView {
                                locked: acct.locked,
                                available: acct.available - a,
                                held: acct.held,
                            },
                        ),
                        journal: journal.insert(
                            r.tx,
                            EntryView {
                                client: r.client,
                                tx_type: TxType::Withdrawal,
                                amount: a,
                                under_dispute: false,
                            },
                        ),
                        outcome: Ok(()),
                    }
                } else {
                    StepResult {
                        ledger: base,
                        journal,
                        outcome: Err(Diagnostic::InsufficientFunds),
                    }
                },
            },
            TxType::Dispute => if !journal.contains_key(r.tx) {
                StepResult { ledger: base, journal, outcome: Err(Diagnostic::UnknownTransaction) }
            } else {
                let e = journal[r.tx];
                if e.tx_type != TxType::Deposit {
                    StepResult {
                        ledger: base,
                        journal,
                        outcome: Err(Diagnostic::InvalidDisputeOrigin),
                    }
                } else if acct.available < e.amount {
                    StepResult {
                        ledger: base,
                        journal,
                        outcome: Err(Diagnostic::InsufficientFunds),
                    }
                } else {
                    StepResult {
                        ledger: base.insert(
                            r.client,
                            AccountView {
                                locked: acct.locked,
                                available: acct.available - e.amount,
                                held: acct.held + e.amount,
                            },
                        ),
                        journal: journal.insert(
                            r.tx,
                            EntryView {
                                client: e.client,
                                tx_type: e.tx_type,
                                amount: e.amount,
                                under_dispute: true,
                            },
                        ),
                        outcome: Ok(()),
                    }
                }
            },
            TxType::Resolve => if !journal.contains_key(r.tx) {
                StepResult { ledger: base, journal, outcome: Err(Diagnostic::UnknownTransaction) }
            } else {
                let e = journal[r.tx];
                if !e.under_dispute {
                    StepResult {
                        ledger: base,
                        journal,
                        outcome: Err(Diagnostic::InvalidDisputeState),
                    }
                } else {
                    StepResult {
                        ledger: base.insert(
                            r.client,
                            AccountView {
                                locked: acct.locked,
                                available: acct.available + e.amount,
                                held: acct.held - e.amount,
                            },
                        ),
                        journal: journal.insert(
                            r.tx,
                            EntryView {
                                client: e.client,
                                tx_type: e.tx_type,
                                amount: e.amount,
                                under_dispute: false,
                            },
                        ),
                        outcome: Ok(()),
                    }
                }
            },
            TxType::Chargeback => if !journal.contains_key(r.tx) {
                StepResult { ledger: base, journal, outcome: Err(Diagnostic::UnknownTransaction) }
            } else {
                let e = journal[r.tx];
                if !e.under_dispute {
                    StepResult {
                        ledger: base,
                        journal,
                        outcome: Err(Diagnostic::InvalidDisputeState),
                    }
                } else if acct.held < e.amount {
                    StepResult {
                        ledger: base,
                        journal,
                        outcome: Err(Diagnostic::InsufficientHeld),
                    }
                } else {
                    StepResult {
                        ledger: base.insert(
                            r.client,
                            AccountView {
                                locked: true,
                                available: acct.available,
                                held: acct.held - e.amount,
                            },
                        ),
                        journal,
                        outcome: Ok(()),
                    }
                }
            },
        }
    }
}

/// Whether every balance that `step` would write stays representable in
/// fixed-point money. This is the machine-limit precondition of
/// `process_record`; `record_fits` computes it.
pub open spec fn step_fits(
    ledger: Map<u16, AccountView>,
    journal: Map<u32, EntryView>,
    r: RecordView,
) -> bool {
    let acct = account_or_new(ledger, r.client);
    acct.locked || match r.kind {
        TxType::Deposit => match r.amount {
            None => true,
            Some(a) => in_money_range(acct.available + a),
        },
        TxType::Withdrawal => match r.amount {
            None => true,
            Some(a) => acct.available >= a ==> in_money_range(acct.available - a),
        },
        TxType::Dispute => journal.contains_key(r.tx) ==> {
            let e = journal[r.tx];
            (e.tx_type == TxType::Deposit && acct.available >= e.amount) ==> (in_money_range(
                acct.available - e.amount,
            ) && in_money_range(acct.held + e.amount))
        },
        TxType::Resolve => journal.contains_key(r.tx) ==> {
            let e = journal[r.tx];
            e.under_dispute ==> (in_money_range(acct.available + e.amount) && in_money_range(
                acct.held - e.amount,
            ))
        },
        TxType::Chargeback => journal.contains_key(r.tx) ==> {
            let e = journal[r.tx];
            (e.under_dispute && acct.held >= e.amount) ==> in_money_range(acct.held - e.amount)
        },
    }
}

/// Feeds one record to the state machine. The client's account is created on
/// first reference; a rejected record changes nothing else and reports why.
/// The final state and the outcome are exactly those of the `step` model.
pub fn process_record(
    accounts: &mut Ledger,
    transactions: &mut TransactionJournal,
    record: Input,
) -> (outcome: Result<(), Diagnostic>)
    requires
        step_fits(old(accounts)@, old(transactions)@, record@),
    ensures
        ({
            let s = step(old(accounts)@, old(transactions)@, record@);
            &&& final(accounts)@ == s.ledger
            &&& final(transactions)@ == s.journal
            &&& outcome == s.outcome
        }),
{
    let acct = accounts.get_or_create(record.client);
    if acct.locked {
        return Err(Diagnostic::LockedAccountRejected);
    }
    match record.kind {
        TxType::Deposit => match record.amount {
            None => Err(Diagnostic::MalformedRecord),
            Some(a) => {
                let updated = Account {
                    locked: acct.locked,
                    available: acct.available.add(a),
                    held: acct.held,
                };
                accounts.put(record.client, updated);
                transactions.record(
                    record.tx,
                    Transaction {
                        client: record.client,
                        tx_type: TxType::Deposit,
                        amount: a,
                        under_dispute: false,
                    },
                );
                Ok(())
            },
        },
        TxType::Withdrawal => match record.amount {
            None => Err(Diagnostic::MalformedRecord),
            Some(a) => {
                if acct.available.ge(a) {
                    let updated = Account {
                        locked: acct.locked,
                        available: acct.available.sub(a),
                        held: acct.held,
                    };
                    accounts.put(record.client, updated);
                    transactions.record(
                        record.tx,
                        Transaction {
                            client: record.client,
                            tx_type: TxType::Withdrawal,
                            amount: a,
                            under_dispute: false,
                        },
                    );
                    Ok(())
                } else {
                    Err(Diagnostic::InsufficientFunds)
                }
            },
        },
        TxType::Dispute => {
            let entry = match transactions.get(record.tx) {
                None => {
                    return Err(Diagnostic::UnknownTransaction);
                },
                Some(e) => *e,
            };
            if entry.tx_type != TxType::Deposit {
                Err(Diagnostic::InvalidDisputeOrigin)
            } else if !acct.available.ge(entry.amount) {
                Err(Diagnostic::InsufficientFunds)
            } else {
                let updated = Account {
                    locked: acct.locked,
                    available: acct.available.sub(entry.amount),
                    held: acct.held.add(entry.amount),
                };
                accounts.put(record.client, updated);
                transactions.record(
                    record.tx,
                    Transaction {
                        client: entry.client,
                        tx_type: entry.tx_type,
                        amount: entry.amount,
                        under_dispute: true,
                    },
                );
                Ok(())
            }
        },
        TxType::Resolve => {
            let entry = match transactions.get(record.tx) {
                None => {
                    return Err(Diagnostic::UnknownTransaction);
                },
                Some(e) => *e,
            };
            if !entry.under_dispute {
                Err(Diagnostic::InvalidDisputeState)
            } else {
                let updated = Account {
                    locked: acct.locked,
                    available: acct.available.add(entry.amount),
                    held: acct.held.sub(entry.amount),
                };
                accounts.put(record.client, updated);
                transactions.record(
                    record.tx,
                    Transaction {
                        client: entry.client,
                        tx_type: entry.tx_type,
                        amount: entry.amount,
                        under_dispute: false,
                    },
                );
                Ok(())
            }
        },
        TxType::Chargeback => {
            let entry = match transactions.get(record.tx) {
                None => {
                    return Err(Diagnostic::UnknownTransaction);
                },
                Some(e) => *e,
            };
            if !entry.under_dispute {
                Err(Diagnostic::InvalidDisputeState)
            } else if !acct.held.ge(entry.amount) {
                Err(Diagnostic::InsufficientHeld)
            } else {
                let updated = Account {
                    locked: true,
                    available: acct.available,
                    held: acct.held.sub(entry.amount),
                };
                accounts.put(record.client, updated);
                Ok(())
            }
        },
    }
}

/// Computes `step_fits` for the current state: whether `process_record` may
/// be called on this record without any balance leaving the representable
/// range.
pub fn record_fits(
    accounts: &Ledger,
    transactions: &TransactionJournal,
    record: &Input,
) -> (b: bool)
    ensures
        b == step_fits(accounts@, transactions@, record@),
{
    let acct = match accounts.get(record.client) {
        Some(a) => *a,
        None => Account::default(),
    };
    if acct.locked {
        return true;
    }
    match record.kind {
        TxType::Deposit => match record.amount {
            None => true,
            Some(a) => acct.available.add_in_range(a),
        },
        TxType::Withdrawal => match record.amount {
            None => true,
            Some(a) => !acct.available.ge(a) || acct.available.sub_in_range(a),
        },
        TxType::Dispute => match transactions.get(record.tx) {
            None => true,
            Some(e) => !(e.tx_type == TxType::Deposit && acct.available.ge(e.amount)) || (
            acct.available.sub_in_range(e.amount) && acct.held.add_in_range(e.amount)),
        },
        TxType::Resolve => match transactions.get(record.tx) {
            None => true,
            Some(e) => !e.under_dispute || (acct.available.add_in_range(e.amount)
                && acct.held.sub_in_range(e.amount)),
        },
        TxType::Chargeback => match transactions.get(record.tx) {
            None => true,
            Some(e) => !(e.under_dispute && acct.held.ge(e.amount)) || acct.held.sub_in_range(
                e.amount,
            ),
        },
    }
}

} // verus!
