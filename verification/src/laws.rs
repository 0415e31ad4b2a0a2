//! Laws of the transaction state machine, proved once over the mathematical
//! model: money conservation, the dispute/resolve round trip, chargeback
//! permanence, and the rejection guarantees.

use vstd::prelude::*;

use crate::account::AccountView;
use crate::engine::{account_or_new, step};
use crate::journal::EntryView;
use crate::records::{Diagnostic, RecordView, TxType};

verus! {

/// Total funds of one account: available plus held.
pub open spec fn account_total(a: AccountView) -> int {
    a.available + a.held
}

/// Combined total of every account in the ledger.
pub open spec fn sum_totals(m: Map<u16, AccountView>) -> int
    decreases m.dom().len(),
{
    if m.dom().finite() && m.dom().len() > 0 {
        let c = m.dom().choose();
        account_total(m[c]) + sum_totals(m.remove(c))
    } else {
        0
    }
}

/// Taking one account out of the ledger takes exactly its total out of the sum.
pub proof fn lemma_sum_remove(m: Map<u16, AccountView>, c: u16)
    requires
        m.dom().finite(),
        m.contains_key(c),
    ensures
        sum_totals(m) == sum_totals(m.remove(c)) + account_total(m[c]),
    decreases m.dom().len(),
{
    let x = m.dom().choose();
    if x == c {
        assert(sum_totals(m) == account_total(m[x]) + sum_totals(m.remove(x)));
    } else {
        let mx = m.remove(x);
        let mc = m.remove(c);
        lemma_sum_remove(mx, c);
        lemma_sum_remove(mc, x);
        assert(mx.remove(c) =~= mc.remove(x));
        assert(sum_totals(m) == account_total(m[x]) + sum_totals(mx));
    }
}

/// Writing one account into the ledger changes the sum by the new total minus
/// the total it replaces.
pub proof fn lemma_sum_insert(m: Map<u16, AccountView>, c: u16, a: AccountView)
    requires
        m.dom().finite(),
    ensures
        sum_totals(m.insert(c, a)) == sum_totals(m) + account_total(a) - (if m.contains_key(c) {
            account_total(m[c])
        } else {
            0
        }),
{
    let mi = m.insert(c, a);
    assert(mi.dom() =~= m.dom().insert(c));
    lemma_sum_remove(mi, c);
    assert(mi.remove(c) =~= m.remove(c));
    if m.contains_key(c) {
        lemma_sum_remove(m, c);
    } else {
        assert(m.remove(c) =~= m);
    }
}

/// The amount a record of the given kind moves when the step applies it;
/// zero for a rejected record or a record of another kind.
pub open spec fn applied_amount(
    l: Map<u16, AccountView>,
    j: Map<u32, EntryView>,
    r: RecordView,
    kind: TxType,
) -> int {
    if r.kind == kind && step(l, j, r).outcome is Ok {
        match r.kind {
            TxType::Deposit | TxType::Withdrawal => match r.amount {
                Some(a) => a,
                None => 0,
            },
            TxType::Chargeback => if j.contains_key(r.tx) {
                j[r.tx].amount
            } else {
                0
            },
            _ => 0,
        }
    } else {
        0
    }
}

/// Net change one record makes to the combined total of all accounts:
/// positive for an applied deposit, negative for an applied withdrawal or
/// chargeback, zero for everything else.
pub open spec fn step_delta(
    l: Map<u16, AccountView>,
    j: Map<u32, EntryView>,
    r: RecordView,
) -> int {
    applied_amount(l, j, r, TxType::Deposit) - applied_amount(l, j, r, TxType::Withdrawal)
        - applied_amount(l, j, r, TxType::Chargeback)
}

/// One step changes the combined total by exactly `step_delta`: disputes and
/// resolves only move funds between `available` and `held`, and rejected
/// records move nothing.
pub proof fn lemma_step_conserves(
    l: Map<u16, AccountView>,
    j: Map<u32, EntryView>,
    r: RecordView,
)
    requires
        l.dom().finite(),
    ensures
        step(l, j, r).ledger.dom().finite(),
        sum_totals(step(l, j, r).ledger) == sum_totals(l) + step_delta(l, j, r),
{
    let acct = account_or_new(l, r.client);
    let base = l.insert(r.client, acct);
    assert(base.dom() =~= l.dom().insert(r.client));
    lemma_sum_insert(l, r.client, acct);
    assert(sum_totals(base) == sum_totals(l));
    let s = step(l, j, r);
    if !acct.locked {
        match r.kind {
            TxType::Deposit => match r.amount {
                None => {},
                Some(a) => {
                    lemma_sum_insert(
                        base,
                        r.client,
                        AccountView {
                            locked: acct.locked,
                            available: acct.available + a,
                            held: acct.held,
                        },
                    );
                },
            },
            TxType::Withdrawal => match r.amount {
                None => {},
                Some(a) => {
                    if acct.available >= a {
                        lemma_sum_insert(
                            base,
                            r.client,
                            AccountView {
                                locked: acct.locked,
                                available: acct.available - a,
                                held: acct.held,
                            },
                        );
                    }
                },
            },
            TxType::Dispute => {
                if j.contains_key(r.tx) {
                    let e = j[r.tx];
                    if e.tx_type == TxType::Deposit && acct.available >= e.amount {
                        lemma_sum_insert(
                            base,
                            r.client,
                            AccountView {
                                locked: acct.locked,
                                available: acct.available - e.amount,
                                held: acct.held + e.amount,
                            },
                        );
                    }
                }
            },
            TxType::Resolve => {
                if j.contains_key(r.tx) {
                    let e = j[r.tx];
                    if e.under_dispute {
                        lemma_sum_insert(
                            base,
                            r.client,
                            AccountView {
                                locked: acct.locked,
                                available: acct.available + e.amount,
                                held: acct.held - e.amount,
                            },
                        );
                    }
                }
            },
            TxType::Chargeback => {
                if j.contains_key(r.tx) {
                    let e = j[r.tx];
                    if e.under_dispute && acct.held >= e.amount {
                        lemma_sum_insert(
                            base,
                            r.client,
                            AccountView {
                                locked: true,
                                available: acct.available,
                                held: acct.held - e.amount,
                            },
                        );
                    }
                }
            },
        }
    }
    assert(s.ledger.dom() =~= l.dom().insert(r.client));
}

/// What a whole run of records leads to: the final state together with the
/// tallies of the successfully applied deposit, withdrawal and chargeback
/// amounts.
pub ghost struct RunResult {
    pub ledger: Map<u16, AccountView>,
    pub journal: Map<u32, EntryView>,
    pub deposits: int,
    pub withdrawals: int,
    pub chargebacks: int,
}

/// Feeds the records to the state machine in order, tallying the applied
/// amounts.
pub open spec fn run(
    l: Map<u16, AccountView>,
    j: Map<u32, EntryView>,
    recs: Seq<RecordView>,
) -> RunResult
    decreases recs.len(),
{
    if recs.len() == 0 {
        RunResult { ledger: l, journal: j, deposits: 0, withdrawals: 0, chargebacks: 0 }
    } else {
        let s = step(l, j, recs[0]);
        let rest = run(s.ledger, s.journal, recs.subrange(1, recs.len() as int));
        RunResult {
            ledger: rest.ledger,
            journal: rest.journal,
            deposits: applied_amount(l, j, recs[0], TxType::Deposit) + rest.deposits,
            withdrawals: applied_amount(l, j, recs[0], TxType::Withdrawal) + rest.withdrawals,
            chargebacks: applied_amount(l, j, recs[0], TxType::Chargeback) + rest.chargebacks,
        }
    }
}

/// Money conservation, general form: over any run the combined total of all
/// accounts changes by the applied deposits minus the applied withdrawals
/// minus the applied chargebacks.
pub proof fn lemma_run_conservation(
    l: Map<u16, AccountView>,
    j: Map<u32, EntryView>,
    recs: Seq<RecordView>,
)
    requires
        l.dom().finite(),
    ensures
        run(l, j, recs).ledger.dom().finite(),
        sum_totals(run(l, j, recs).ledger) == sum_totals(l) + run(l, j, recs).deposits - run(
            l,
            j,
            recs,
        ).withdrawals - run(l, j, recs).chargebacks,
    decreases recs.len(),
{
    if recs.len() == 0 {
    } else {
        let s = step(l, j, recs[0]);
        lemma_step_conserves(l, j, recs[0]);
        lemma_run_conservation(s.ledger, s.journal, recs.subrange(1, recs.len() as int));
    }
}

/// Money conservation from an empty start: on a run that applies no
/// chargeback, the combined total of every account equals the sum of the
/// applied deposit amounts minus the sum of the applied withdrawal amounts.
pub proof fn lemma_money_conservation(recs: Seq<RecordView>)
    requires
        run(Map::<u16, AccountView>::empty(), Map::<u32, EntryView>::empty(), recs).chargebacks
            == 0,
    ensures
        sum_totals(run(Map::<u16, AccountView>::empty(), Map::<u32, EntryView>::empty(), recs).ledger)
            == run(Map::<u16, AccountView>::empty(), Map::<u32, EntryView>::empty(), recs).deposits
            - run(Map::<u16, AccountView>::empty(), Map::<u32, EntryView>::empty(), recs).withdrawals,
{
    let l0 = Map::<u16, AccountView>::empty();
    lemma_run_conservation(l0, Map::<u32, EntryView>::empty(), recs);
    assert(l0.dom() =~= Set::<u16>::empty());
    assert(sum_totals(l0) == 0);
}

/// The dispute record that references transaction `tx` on behalf of `client`.
pub open spec fn dispute_record(client: u16, tx: u32) -> RecordView {
    RecordView { kind: TxType::Dispute, client, tx, amount: None }
}

/// The resolve record that references transaction `tx` on behalf of `client`.
pub open spec fn resolve_record(client: u16, tx: u32) -> RecordView {
    RecordView { kind: TxType::Resolve, client, tx, amount: None }
}

/// The chargeback record that references transaction `tx` on behalf of `client`.
pub open spec fn chargeback_record(client: u16, tx: u32) -> RecordView {
    RecordView { kind: TxType::Chargeback, client, tx, amount: None }
}

/// Dispute/resolve round trip: after a successful dispute, a resolve of the
/// same transaction on behalf of the same client succeeds and restores
/// `available` and `held` to their pre-dispute values exactly; the whole
/// account is restored, and so is the journal when the entry was not already
/// under dispute.
pub proof fn lemma_dispute_resolve_round_trip(
    l: Map<u16, AccountView>,
    j: Map<u32, EntryView>,
    client: u16,
    tx: u32,
)
    requires
        step(l, j, dispute_record(client, tx)).outcome is Ok,
    ensures
        ({
            let s1 = step(l, j, dispute_record(client, tx));
            let s2 = step(s1.ledger, s1.journal, resolve_record(client, tx));
            &&& s2.outcome is Ok
            &&& s2.ledger == l.insert(client, account_or_new(l, client))
            &&& account_or_new(s2.ledger, client).available == account_or_new(l, client).available
            &&& account_or_new(s2.ledger, client).held == account_or_new(l, client).held
            &&& !j[tx].under_dispute ==> s2.journal == j
        }),
{
    let acct0 = account_or_new(l, client);
    let s1 = step(l, j, dispute_record(client, tx));
    let s2 = step(s1.ledger, s1.journal, resolve_record(client, tx));
    let e = j[tx];
    let a = e.amount;
    let disputed = AccountView {
        locked: acct0.locked,
        available: acct0.available - a,
        held: acct0.held + a,
    };
    assert(s1.ledger == l.insert(client, acct0).insert(client, disputed));
    assert(account_or_new(s1.ledger, client) == disputed);
    assert(s1.journal[tx].under_dispute);
    assert(s2.outcome is Ok);
    assert(account_or_new(s2.ledger, client) == acct0);
    assert(s2.ledger =~= l.insert(client, acct0));
    if !e.under_dispute {
        assert(s2.journal =~= j);
    }
}

/// Dispute then chargeback: after a successful dispute, a chargeback of the
/// same transaction on behalf of the same client succeeds whenever the held
/// balance was non-negative to begin with; it takes the disputed amount back
/// out of `held` and locks the account for good.
pub proof fn lemma_dispute_chargeback(
    l: Map<u16, AccountView>,
    j: Map<u32, EntryView>,
    client: u16,
    tx: u32,
)
    requires
        step(l, j, dispute_record(client, tx)).outcome is Ok,
        account_or_new(l, client).held >= 0,
    ensures
        ({
            let s1 = step(l, j, dispute_record(client, tx));
            let s2 = step(s1.ledger, s1.journal, chargeback_record(client, tx));
            &&& s2.outcome is Ok
            &&& account_or_new(s2.ledger, client) == (AccountView {
                locked: true,
                available: account_or_new(l, client).available - j[tx].amount,
                held: account_or_new(l, client).held,
            })
            &&& s2.journal == s1.journal
        }),
{
    let acct0 = account_or_new(l, client);
    let s1 = step(l, j, dispute_record(client, tx));
    let s2 = step(s1.ledger, s1.journal, chargeback_record(client, tx));
    let a = j[tx].amount;
    let disputed = AccountView {
        locked: acct0.locked,
        available: acct0.available - a,
        held: acct0.held + a,
    };
    assert(account_or_new(s1.ledger, client) == disputed);
    assert(s1.journal[tx].under_dispute);
    assert(disputed.held >= a);
}

/// A locked account is frozen: any record addressed to it, of any kind, is
/// rejected as `LockedAccountRejected` and changes nothing at all.
pub proof fn lemma_locked_account_frozen(
    l: Map<u16, AccountView>,
    j: Map<u32, EntryView>,
    r: RecordView,
)
    requires
        l.contains_key(r.client),
        l[r.client].locked,
    ensures
        step(l, j, r).ledger == l,
        step(l, j, r).journal == j,
        step(l, j, r).outcome == Err::<(), Diagnostic>(Diagnostic::LockedAccountRejected),
{
    assert(l.insert(r.client, l[r.client]) =~= l);
}

/// A rejected record changes nothing beyond the lazy creation of the
/// client's account: every balance and the whole journal stay as they were.
pub proof fn lemma_rejection_changes_nothing(
    l: Map<u16, AccountView>,
    j: Map<u32, EntryView>,
    r: RecordView,
)
    requires
        !(step(l, j, r).outcome is Ok),
    ensures
        step(l, j, r).ledger == l.insert(r.client, account_or_new(l, r.client)),
        step(l, j, r).journal == j,
{
}

/// Once locked, always locked: no later record, on behalf of any client,
/// unlocks an account.
pub proof fn lemma_lock_is_permanent(
    l: Map<u16, AccountView>,
    j: Map<u32, EntryView>,
    r: RecordView,
    c: u16,
)
    requires
        account_or_new(l, c).locked,
    ensures
        account_or_new(step(l, j, r).ledger, c).locked,
{
}

/// Lock permanence over a whole run: an account locked at the start is still
/// locked after any sequence of records.
pub proof fn lemma_lock_is_permanent_over_run(
    l: Map<u16, AccountView>,
    j: Map<u32, EntryView>,
    recs: Seq<RecordView>,
    c: u16,
)
    requires
        account_or_new(l, c).locked,
    ensures
        account_or_new(run(l, j, recs).ledger, c).locked,
    decreases recs.len(),
{
    if recs.len() > 0 {
        let s = step(l, j, recs[0]);
        lemma_lock_is_permanent(l, j, recs[0], c);
        lemma_lock_is_permanent_over_run(s.ledger, s.journal, recs.subrange(1, recs.len() as int), c);
    }
}

/// Disputing a withdrawal-origin transaction is always rejected, whatever
/// the balances: the journal is untouched and no balance moves.
pub proof fn lemma_dispute_withdrawal_rejected(
    l: Map<u16, AccountView>,
    j: Map<u32, EntryView>,
    client: u16,
    tx: u32,
)
    requires
        j.contains_key(tx),
        j[tx].tx_type == TxType::Withdrawal,
    ensures
        ({
            let s = step(l, j, dispute_record(client, tx));
            &&& !(s.outcome is Ok)
            &&& !account_or_new(l, client).locked ==> s.outcome == Err::<(), Diagnostic>(
                Diagnostic::InvalidDisputeOrigin,
            )
            &&& s.ledger == l.insert(client, account_or_new(l, client))
            &&& s.journal == j
        }),
{
}

/// A withdrawal of more than the available balance never mutates `available`:
/// it is rejected and no state beyond the lazy account creation changes.
pub proof fn lemma_withdrawal_insufficient(
    l: Map<u16, AccountView>,
    j: Map<u32, EntryView>,
    r: RecordView,
)
    requires
        r.kind == TxType::Withdrawal,
        match r.amount {
            Some(a) => a > account_or_new(l, r.client).available,
            None => false,
        },
    ensures
        ({
            let s = step(l, j, r);
            &&& !(s.outcome is Ok)
            &&& !account_or_new(l, r.client).locked ==> s.outcome == Err::<(), Diagnostic>(
                Diagnostic::InsufficientFunds,
            )
            &&& s.ledger == l.insert(r.client, account_or_new(l, r.client))
            &&& account_or_new(s.ledger, r.client).available == account_or_new(
                l,
                r.client,
            ).available
            &&& s.journal == j
        }),
{
}

} // verus!
