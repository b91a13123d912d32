use crate::address::Address;
use crate::proposal::VotingError;
use vstd::prelude::*;

verus! {

/// The proof that `voter` voted on `proposal`, and for which option.
#[derive(Clone, Copy, Debug, PartialEq, Eq)]
pub struct VoterReceipt {
    pub proposal: Address,
    pub voter: Address,
    pub option_index: u32,
}

/// A receipt as plain values: proposal, voter, option index.
pub type ReceiptView = (Seq<u8>, Seq<u8>, u32);

impl View for VoterReceipt {
    type V = ReceiptView;

    open spec fn view(&self) -> ReceiptView {
        (self.proposal@, self.voter@, self.option_index)
    }
}

/// Whether `rs` holds a receipt of `voter` on `proposal`.
pub open spec fn has_receipt(rs: Seq<ReceiptView>, proposal: Seq<u8>, voter: Seq<u8>) -> bool {
    exists|i: int| 0 <= i < rs.len() && (#[trigger] rs[i]).0 == proposal && rs[i].1 == voter
}

/// At most one receipt per (proposal, voter) pair.
pub open spec fn pairs_unique(rs: Seq<ReceiptView>) -> bool {
    forall|i: int, j: int|
        0 <= i < rs.len() && 0 <= j < rs.len() && i != j ==> (#[trigger] rs[i]).0 != (
        #[trigger] rs[j]).0 || rs[i].1 != rs[j].1
}

/// The receipts issued so far. A receipt's presence is what marks a vote as
/// cast: there is no other flag.
pub struct VoterRegistry {
    receipts: Vec<VoterReceipt>,
}

impl VoterRegistry {
    /// The receipts in the order they were created.
    pub closed spec fn receipts(&self) -> Seq<ReceiptView> {
        self.receipts@.map_values(|r: VoterReceipt| r@)
    }

    pub open spec fn wf(&self) -> bool {
        pairs_unique(self.receipts())
    }

    /// An empty registry.
    pub fn new() -> (r: VoterRegistry)
        ensures
            r.wf(),
            r.receipts() == Seq::<ReceiptView>::empty(),
    {
        let r = VoterRegistry { receipts: Vec::new() };
        assert(r.receipts() =~= Seq::<ReceiptView>::empty());
        r
    }

    /// Whether `voter` already holds a receipt for `proposal`. Reads only.
    pub fn has_voted(&self, proposal: &Address, voter: &Address) -> (r: bool)
        ensures
            r == has_receipt(self.receipts(), proposal@, voter@),
    {
        let mut i: usize = 0;
        while i < self.receipts.len()
            invariant
                i <= self.receipts@.len(),
                forall|j: int|
                    0 <= j < i ==> !((#[trigger] self.receipts()[j]).0 == proposal@
                        && self.receipts()[j].1 == voter@),
            decreases self.receipts@.len() - i,
        {
            let rec = &self.receipts[i];
            if rec.proposal.same_as(proposal) && rec.voter.same_as(voter) {
                assert(self.receipts()[i as int] == rec@);
                return true;
            }
            i += 1;
        }
        false
    }

    /// Issues the receipt of `voter` on `proposal`; refuses a second one for
    /// the same pair.
    pub fn create(&mut self, proposal: &Address, voter: &Address, option_index: u32) -> (r: Result<
        (),
        VotingError,
    >)
        requires
            old(self).wf(),
        ensures
            final(self).wf(),
            r == if has_receipt(old(self).receipts(), proposal@, voter@) {
                Err::<(), VotingError>(VotingError::ReceiptAlreadyExists)
            } else {
                Ok(())
            },
            r is Err ==> final(self).receipts() == old(self).receipts(),
            r is Ok ==> final(self).receipts() == old(self).receipts().push(
                (proposal@, voter@, option_index),
            ),
    {
        if self.has_voted(proposal, voter) {
            return Err(VotingError::ReceiptAlreadyExists);
        }
        let rec = VoterReceipt { proposal: *proposal, voter: *voter, option_index };
        let ghost before = self.receipts();
        self.receipts.push(rec);
        assert(self.receipts() =~= before.push(rec@));
        Ok(())
    }

    /// Number of receipts issued.
    pub fn len(&self) -> (r: usize)
        ensures
            r == self.receipts().len(),
    {
        self.receipts.len()
    }
}

} // verus!
