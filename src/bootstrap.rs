use vstd::prelude::*;

verus! {

/// The record after a create-if-absent of `payload`, and whether it won.
pub open spec fn create_spec(cell: Option<Seq<u8>>, payload: Seq<u8>) -> (Option<Seq<u8>>, bool) {
    match cell {
        Some(v) => (Some(v), false),
        None => (Some(payload), true),
    }
}

/// The record after each of `proposals` was offered in turn.
pub open spec fn record_after(cell: Option<Seq<u8>>, proposals: Seq<Seq<u8>>) -> Option<Seq<u8>>
    decreases proposals.len(),
{
    if proposals.len() == 0 {
        cell
    } else {
        create_spec(record_after(cell, proposals.drop_last()), proposals.last()).0
    }
}

/// Whether the `i`-th of `proposals` won: the record was still empty when it
/// came.
pub open spec fn proposal_won(cell: Option<Seq<u8>>, proposals: Seq<Seq<u8>>, i: int) -> bool {
    create_spec(record_after(cell, proposals.take(i)), proposals[i]).1
}

/// A first-writer-wins record, as the coordination store keeps the
/// bootstrap state: the first payload offered stays.
#[derive(Debug)]
pub struct BootstrapCell {
    value: Option<Vec<u8>>,
}

impl View for BootstrapCell {
    type V = Option<Seq<u8>>;

    closed spec fn view(&self) -> Option<Seq<u8>> {
        match self.value {
            Some(v) => Some(v@),
            None => None,
        }
    }
}

impl BootstrapCell {
    /// An empty record.
    pub fn new() -> (r: BootstrapCell)
        ensures
            r@ is None,
    {
        BootstrapCell { value: None }
    }

    /// Store `payload` unless a record is already there; report whether it
    /// was stored.
    pub fn create_if_absent(&mut self, payload: &[u8]) -> (r: bool)
        ensures
            (final(self)@, r) == create_spec(old(self)@, payload@),
    {
        if self.value.is_some() {
            false
        } else {
            let mut v: Vec<u8> = Vec::new();
            let mut i: usize = 0;
            while i < payload.len()
                invariant
                    i <= payload@.len(),
                    v@ == payload@.take(i as int),
                decreases payload@.len() - i,
            {
                v.push(payload[i]);
                assert(payload@.take(i as int + 1) =~= payload@.take(i as int).push(payload@[i as int]));
                i = i + 1;
            }
            assert(payload@.take(payload@.len() as int) =~= payload@);
            self.value = Some(v);
            true
        }
    }

    /// The stored record, if any.
    pub fn get(&self) -> (r: Option<Vec<u8>>)
        ensures
            r is Some <==> self@ is Some,
            r is Some ==> r->0@ == self@->0,
    {
        match &self.value {
            Some(v) => Some(v.clone()),
            None => None,
        }
    }
}

/// First writer wins: of proposals offered in turn to an empty record, the
/// first one wins, no later one does, and every reader afterwards sees the
/// first one's bytes.
pub proof fn lemma_first_writer_wins(proposals: Seq<Seq<u8>>)
    requires
        proposals.len() > 0,
    ensures
        proposal_won(None, proposals, 0),
        forall|i: int| 0 < i < proposals.len() ==> !#[trigger] proposal_won(None, proposals, i),
        record_after(None, proposals) == Some(proposals[0]),
    decreases proposals.len(),
{
    assert(proposals.take(0).len() == 0);
    if proposals.len() == 1 {
        assert(proposals.drop_last().len() == 0);
    } else {
        let pre = proposals.drop_last();
        lemma_first_writer_wins(pre);
        assert forall|i: int| 0 < i < proposals.len() implies !#[trigger] proposal_won(None, proposals, i) by {
            assert(proposals.take(i) =~= pre.take(i)) by {
                if i < pre.len() {
                } else {
                    assert(proposals.take(i) =~= pre);
                    assert(pre.take(i) =~= pre);
                }
            }
            if i < pre.len() {
                assert(proposal_won(None, pre, i) == proposal_won(None, proposals, i));
            } else {
                assert(pre.take(i) =~= pre);
                lemma_record_nonempty(pre);
            }
        }
    }
}

proof fn lemma_record_nonempty(proposals: Seq<Seq<u8>>)
    requires
        proposals.len() > 0,
    ensures
        record_after(None, proposals) is Some,
    decreases proposals.len(),
{
    if proposals.len() > 1 {
        lemma_record_nonempty(proposals.drop_last());
    }
}

} // verus!
