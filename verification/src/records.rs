//! Input records and diagnostic outcomes of the transaction state machine.

use vstd::prelude::*;

use crate::money::Money;

verus! {

/// The five kinds of input record.
#[derive(Clone, Copy, PartialEq, Eq, Structural, Debug)]
pub enum TxType {
    Deposit,
    Withdrawal,
    Dispute,
    Resolve,
    Chargeback,
}

/// One decoded input event. `amount` carries a value only for `Deposit` and
/// `Withdrawal`; `Dispute`, `Resolve` and `Chargeback` reference an earlier
/// transaction through `tx` instead.
#[derive(Clone, Copy, Debug)]
pub struct Input {
    pub kind: TxType,
    pub client: u16,
    pub tx: u32,
    pub amount: Option<Money>,
}

/// Mathematical image of an `Input`: the amount, when present, becomes an
/// unbounded integer count of ten-thousandths.
pub ghost struct RecordView {
    pub kind: TxType,
    pub client: u16,
    pub tx: u32,
    pub amount: Option<int>,
}

impl View for Input {
    type V = RecordView;

    open spec fn view(&self) -> RecordView {
        RecordView {
            kind: self.kind,
            client: self.client,
            tx: self.tx,
            amount: match self.amount {
                Some(m) => Some(m@),
                None => None,
            },
        }
    }
}

/// Why a record was rejected. Every rejection is local: it aborts that one
/// record, leaves all state unchanged, and never halts the run.
#[derive(Clone, Copy, PartialEq, Eq, Structural, Debug)]
pub enum Diagnostic {
    /// A field required by the record kind is missing (amount absent on a
    /// deposit or withdrawal).
    MalformedRecord,
    /// A withdrawal or dispute would drive `available` negative.
    InsufficientFunds,
    /// A dispute, resolve or chargeback references a transaction with no
    /// journal entry.
    UnknownTransaction,
    /// A dispute targets a transaction that is not a deposit.
    InvalidDisputeOrigin,
    /// A resolve or chargeback targets a transaction not under dispute.
    InvalidDisputeState,
    /// A chargeback would drive `held` negative.
    InsufficientHeld,
    /// Any record addressed to an already-locked client account.
    LockedAccountRejected,
}

} // verus!
