//! The transaction journal: the core's memory of past money-moving
//! transactions, keyed by transaction id, read by the dispute workflow.

use vstd::prelude::*;

use crate::money::Money;
use crate::records::TxType;

verus! {

broadcast use vstd::std_specs::hash::group_hash_axioms;

/// A retained fact about one deposit or withdrawal: who moved the money,
/// which way, how much, and whether the transaction is currently disputed.
#[derive(Clone, Copy, PartialEq, Eq, Structural, Debug)]
pub struct Transaction {
    pub client: u16,
    pub tx_type: TxType,
    pub amount: Money,
    pub under_dispute: bool,
}

/// Mathematical image of a `Transaction`: the amount as an unbounded integer.
pub ghost struct EntryView {
    pub client: u16,
    pub tx_type: TxType,
    pub amount: int,
    pub under_dispute: bool,
}

impl View for Transaction {
    type V = EntryView;

    open spec fn view(&self) -> EntryView {
        EntryView {
            client: self.client,
            tx_type: self.tx_type,
            amount: self.amount@,
            under_dispute: self.under_dispute,
        }
    }
}

/// Owns every journal entry; a pure keyed store. Its view is a map from
/// transaction id to entry.
pub struct TransactionJournal {
    entries: vstd::hash_map::HashMapWithView<u32, Transaction>,
}

impl View for TransactionJournal {
    type V = Map<u32, EntryView>;

    closed spec fn view(&self) -> Map<u32, EntryView> {
        self.entries@.map_values(|t: Transaction| t@)
    }
}

impl TransactionJournal {
    /// An empty journal.
    pub fn new() -> (j: TransactionJournal)
        ensures
            j@ == Map::<u32, EntryView>::empty(),
    {
        let j = TransactionJournal { entries: vstd::hash_map::HashMapWithView::new() };
        proof {
            assert(j@ =~= Map::<u32, EntryView>::empty());
        }
        j
    }

    /// Inserts the entry under the given transaction id, silently replacing
    /// any previous entry for that id.
    pub fn record(&mut self, tx: u32, entry: Transaction)
        ensures
            final(self)@ == old(self)@.insert(tx, entry@),
    {
        self.entries.insert(tx, entry);
        proof {
            assert(self@ =~= old(self)@.insert(tx, entry@));
        }
    }

    /// Reads the entry for the given transaction id, if one exists.
    pub fn get(&self, tx: u32) -> (r: Option<&Transaction>)
        ensures
            match r {
                Some(e) => self@.contains_key(tx) && e@ == self@[tx],
                None => !self@.contains_key(tx),
            },
    {
        self.entries.get(&tx)
    }

    /// Number of entries the journal holds.
    pub fn len(&self) -> (n: usize)
        ensures
            n == self@.len(),
    {
        proof {
            assert(self.entries@.dom() =~= self@.dom());
        }
        self.entries.len()
    }
}

} // verus!
