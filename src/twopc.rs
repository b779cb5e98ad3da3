use vstd::prelude::*;
use crate::heads::{HeadStore, accepts, apply_all, apply_spec, current_generation, lemma_generation_monotone};
use crate::meta::BlobHead;

verus! {

/// A participant's answer to a prepare.
#[derive(Debug, Clone, Copy, PartialEq, Eq, Structural)]
pub enum Vote {
    Yes,
    No,
}

/// Where a write transaction stands.
#[derive(Debug, Clone, Copy, PartialEq, Eq, Structural)]
pub enum TransactionState {
    Preparing,
    Committed,
    Aborted,
}

/// A participant votes yes exactly when its store would take the proposed
/// head: no head of the path has that generation or a higher one.
pub fn prepare_vote(store: &HeadStore, proposed: &BlobHead) -> (r: Vote)
    ensures
        r == (if accepts(store@, *proposed) { Vote::Yes } else { Vote::No }),
{
    let current = match store.get_current_head(proposed.path.as_str()) {
        Some(h) => h.generation,
        None => 0,
    };
    if proposed.generation >= 1 && current < proposed.generation {
        Vote::Yes
    } else {
        Vote::No
    }
}

/// Apply a committed head at a participant; applying it again changes
/// nothing.
pub fn commit_apply(store: &mut HeadStore, head: BlobHead) -> (r: bool)
    ensures
        r == accepts(old(store)@, head),
        final(store)@ == apply_spec(old(store)@, head),
{
    store.apply_head(head)
}

/// Whether every participant has voted yes.
pub open spec fn all_yes(votes: Seq<Option<Vote>>) -> bool {
    forall|i: int| 0 <= i < votes.len() ==> #[trigger] votes[i] == Some(Vote::Yes)
}

/// The coordinator's record of one write transaction.
#[derive(Debug)]
pub struct Transaction {
    pub tx_id: String,
    pub slot_id: u16,
    pub participants: Vec<String>,
    pub votes: Vec<Option<Vote>>,
    pub state: TransactionState,
}

impl Transaction {
    /// One vote slot for each participant.
    pub open spec fn wf(&self) -> bool {
        self.votes@.len() == self.participants@.len()
    }

    /// A transaction that has sent no prepare yet.
    pub fn begin(tx_id: String, slot_id: u16, participants: Vec<String>) -> (r: Transaction)
        ensures
            r.wf(),
            r.tx_id == tx_id,
            r.slot_id == slot_id,
            r.participants == participants,
            r.state == TransactionState::Preparing,
            forall|i: int| 0 <= i < r.votes@.len() ==> #[trigger] r.votes@[i] is None,
    {
        let mut votes: Vec<Option<Vote>> = Vec::new();
        let mut i: usize = 0;
        while i < participants.len()
            invariant
                i <= participants@.len(),
                votes@.len() == i,
                forall|k: int| 0 <= k < i ==> #[trigger] votes@[k] is None,
            decreases participants@.len() - i,
        {
            votes.push(None);
            i = i + 1;
        }
        Transaction { tx_id, slot_id, participants, votes, state: TransactionState::Preparing }
    }

    /// Record the vote of participant `index`; a decided transaction keeps
    /// its votes.
    pub fn record_vote(&mut self, index: usize, vote: Vote)
        requires
            old(self).wf(),
            index < old(self).participants@.len(),
        ensures
            final(self).wf(),
            final(self).state == old(self).state,
            final(self).participants == old(self).participants,
            final(self).tx_id == old(self).tx_id,
            final(self).votes@ == if old(self).state == TransactionState::Preparing {
                old(self).votes@.update(index as int, Some(vote))
            } else {
                old(self).votes@
            },
    {
        if self.state == TransactionState::Preparing {
            self.votes.set(index, Some(vote));
        }
    }

    /// Decide a preparing transaction: commit when every participant voted
    /// yes, else abort. A decided transaction keeps its decision.
    pub fn decide(&mut self) -> (r: TransactionState)
        requires
            old(self).wf(),
        ensures
            final(self).wf(),
            final(self).votes == old(self).votes,
            final(self).participants == old(self).participants,
            r == final(self).state,
            old(self).state != TransactionState::Preparing ==> final(self).state == old(self).state,
            old(self).state == TransactionState::Preparing ==> final(self).state == if all_yes(old(self).votes@) {
                TransactionState::Committed
            } else {
                TransactionState::Aborted
            },
    {
        if self.state != TransactionState::Preparing {
            return self.state;
        }
        let mut i: usize = 0;
        let mut yes = true;
        while i < self.votes.len()
            invariant
                i <= self.votes@.len(),
                yes == forall|k: int| 0 <= k < i ==> #[trigger] self.votes@[k] == Some(Vote::Yes),
            decreases self.votes@.len() - i,
        {
            match self.votes[i] {
                Some(Vote::Yes) => {},
                _ => {
                    yes = false;
                },
            }
            i = i + 1;
        }
        self.state = if yes { TransactionState::Committed } else { TransactionState::Aborted };
        self.state
    }

    /// A preparing transaction whose prepared state expired, or whose
    /// coordinator was cancelled before deciding, is aborted.
    pub fn expire(&mut self)
        ensures
            final(self).votes == old(self).votes,
            final(self).participants == old(self).participants,
            final(self).state == if old(self).state == TransactionState::Preparing {
                TransactionState::Aborted
            } else {
                old(self).state
            },
    {
        if self.state == TransactionState::Preparing {
            self.state = TransactionState::Aborted;
        }
    }
}

/// A committed head, once applied at a replica, leaves that replica at the
/// head's generation or above for its path, whatever is applied there
/// afterwards.
pub proof fn lemma_committed_generation_sticks(heads: Seq<BlobHead>, committed: BlobHead, later: Seq<BlobHead>)
    requires
        committed.generation >= 1,
    ensures
        current_generation(apply_all(apply_spec(heads, committed), later), committed.path@) >= committed.generation,
{
    let after = apply_spec(heads, committed);
    if accepts(heads, committed) {
        assert(heads.push(committed).drop_last() =~= heads);
    }
    assert(current_generation(after, committed.path@) >= committed.generation);
    lemma_generation_monotone(after, later, committed.path@);
}

} // verus!
