use crate::address::Address;
use crate::proposal::{
    all_zero, creation_error, valid_option_count, valid_title, lemma_tally_sum_after_vote, lemma_tally_sum_zero, strings_view,
    tally_after_vote, tally_sum, Proposal, VotingError,
};
use crate::registry::{has_receipt, pairs_unique, ReceiptView, VoterRegistry};
use vstd::prelude::*;

verus! {

/// The records that a proposal's creation names.
#[derive(Clone, Copy, Debug, PartialEq, Eq)]
pub struct InitializeProposal {
    /// Where the new proposal is stored.
    pub proposal: Address,
    /// Who creates it.
    pub authority: Address,
}

/// The records that a vote names.
#[derive(Clone, Copy, Debug, PartialEq, Eq)]
pub struct Vote {
    /// The proposal voted on.
    pub proposal: Address,
    /// The authenticated voter.
    pub voter: Address,
}

/// Number of receipts in `rs` for option `k` of `proposal`.
pub open spec fn votes_for(rs: Seq<ReceiptView>, proposal: Seq<u8>, k: int) -> nat
    decreases rs.len(),
{
    if rs.len() == 0 {
        0
    } else {
        votes_for(rs.drop_last(), proposal, k) + if rs.last().0 == proposal && rs.last().2 == k {
            1nat
        } else {
            0nat
        }
    }
}

/// Number of receipts in `rs` for `proposal`, whatever the option.
pub open spec fn votes_on(rs: Seq<ReceiptView>, proposal: Seq<u8>) -> nat
    decreases rs.len(),
{
    if rs.len() == 0 {
        0
    } else {
        votes_on(rs.drop_last(), proposal) + if rs.last().0 == proposal {
            1nat
        } else {
            0nat
        }
    }
}

proof fn lemma_votes_push(rs: Seq<ReceiptView>, x: ReceiptView, proposal: Seq<u8>, k: int)
    ensures
        votes_for(rs.push(x), proposal, k) == votes_for(rs, proposal, k) + if x.0 == proposal
            && x.2 == k {
            1nat
        } else {
            0nat
        },
        votes_on(rs.push(x), proposal) == votes_on(rs, proposal) + if x.0 == proposal {
            1nat
        } else {
            0nat
        },
{
    assert(rs.push(x).drop_last() =~= rs);
}

proof fn lemma_no_votes(rs: Seq<ReceiptView>, proposal: Seq<u8>, k: int)
    requires
        forall|j: int| 0 <= j < rs.len() ==> (#[trigger] rs[j]).0 != proposal,
    ensures
        votes_for(rs, proposal, k) == 0,
        votes_on(rs, proposal) == 0,
    decreases rs.len(),
{
    if rs.len() > 0 {
        let rest = rs.drop_last();
        assert forall|j: int| 0 <= j < rest.len() implies (#[trigger] rest[j]).0 != proposal by {
            assert(rest[j] == rs[j]);
        }
        lemma_no_votes(rest, proposal, k);
    }
}

/// All proposals and receipts of one program.
pub struct Ledger {
    proposals: Vec<Proposal>,
    registry: VoterRegistry,
}

impl Ledger {
    /// The proposal records, in the order they were created.
    pub closed spec fn proposals(&self) -> Seq<Proposal> {
        self.proposals@
    }

    /// The voter receipts, in the order they were created.
    pub closed spec fn receipts(&self) -> Seq<ReceiptView> {
        self.registry.receipts()
    }

    pub open spec fn has_proposal(&self, a: Seq<u8>) -> bool {
        exists|i: int| 0 <= i < self.proposals().len() && (#[trigger] self.proposals()[i]).address@ == a
    }

    /// Position of the proposal stored at `a` (meaningful when there is one).
    pub open spec fn index_of(&self, a: Seq<u8>) -> int {
        choose|i: int| 0 <= i < self.proposals().len() && (#[trigger] self.proposals()[i]).address@ == a
    }

    /// The proposal stored at `a` (meaningful when there is one).
    pub open spec fn proposal_at(&self, a: Seq<u8>) -> Proposal {
        self.proposals()[self.index_of(a)]
    }

    /// Every proposal is well formed, addresses are unique, each receipt
    /// names a stored proposal, and each count equals the number of
    /// receipts for that option.
    pub closed spec fn wf(&self) -> bool {
        let ps = self.proposals();
        let rs = self.receipts();
        &&& self.registry.wf()
        &&& forall|i: int| 0 <= i < ps.len() ==> (#[trigger] ps[i]).wf()
        &&& forall|i: int, j: int|
            0 <= i < ps.len() && 0 <= j < ps.len() && i != j ==> (#[trigger] ps[i]).address@
                != (#[trigger] ps[j]).address@
        &&& forall|j: int| 0 <= j < rs.len() ==> self.has_proposal((#[trigger] rs[j]).0)
        &&& forall|i: int, k: int|
            #![trigger ps[i].tally@[k]]
            0 <= i < ps.len() && 0 <= k < ps[i].tally@.len() ==> ps[i].tally@[k] == votes_for(
                rs,
                ps[i].address@,
                k,
            )
        &&& forall|i: int|
            0 <= i < ps.len() ==> tally_sum((#[trigger] ps[i]).tally@) == votes_on(
                rs,
                ps[i].address@,
            )
    }

    /// The first check that a creation request at `a` fails: the request's
    /// own checks, then that no proposal stands at `a`.
    pub open spec fn initialize_error(
        &self,
        a: Seq<u8>,
        title: Seq<char>,
        options: Seq<Seq<char>>,
    ) -> Option<VotingError> {
        match creation_error(title, options) {
            Some(e) => Some(e),
            None => if self.has_proposal(a) {
                Some(VotingError::ProposalAlreadyExists)
            } else {
                None
            },
        }
    }

    /// The first check that a vote fails, in the order: the proposal exists,
    /// the option index is in range, the voter has no receipt, the count can
    /// grow.
    pub open spec fn vote_error(&self, a: Seq<u8>, voter: Seq<u8>, k: u32) -> Option<VotingError> {
        if !self.has_proposal(a) {
            Some(VotingError::ProposalNotFound)
        } else if k >= self.proposal_at(a).tally@.len() {
            Some(VotingError::InvalidOptionIndex)
        } else if has_receipt(self.receipts(), a, voter) {
            Some(VotingError::AlreadyVoted)
        } else if self.proposal_at(a).tally@[k as int] == u64::MAX {
            Some(VotingError::TallyOverflow)
        } else {
            None
        }
    }

    /// An empty ledger.
    pub fn new() -> (r: Ledger)
        ensures
            r.wf(),
            r.proposals().len() == 0,
            r.receipts().len() == 0,
    {
        Ledger { proposals: Vec::new(), registry: VoterRegistry::new() }
    }

    fn find(&self, a: &Address) -> (r: Option<usize>)
        requires
            self.wf(),
        ensures
            match r {
                Some(i) => self.has_proposal(a@) && i == self.index_of(a@),
                None => !self.has_proposal(a@),
            },
    {
        let mut i: usize = 0;
        while i < self.proposals.len()
            invariant
                self.wf(),
                i <= self.proposals@.len(),
                forall|j: int| 0 <= j < i ==> (#[trigger] self.proposals@[j]).address@ != a@,
            decreases self.proposals@.len() - i,
        {
            if self.proposals[i].address.same_as(a) {
                assert(self.proposals()[i as int].address@ == a@);
                assert(self.has_proposal(a@));
                let ghost c = self.index_of(a@);
                assert(self.proposals()[c].address@ == a@);
                assert(i == c);
                return Some(i);
            }
            i += 1;
        }
        None
    }

    /// The proposal stored at `a`, if any. Reads only.
    pub fn get_proposal(&self, a: &Address) -> (r: Option<&Proposal>)
        requires
            self.wf(),
        ensures
            match r {
                Some(p) => self.has_proposal(a@) && *p == self.proposal_at(a@),
                None => !self.has_proposal(a@),
            },
    {
        match self.find(a) {
            Some(i) => Some(&self.proposals[i]),
            None => None,
        }
    }

    /// Whether `voter` has voted on the proposal at `proposal`. Reads only.
    pub fn has_voted(&self, proposal: &Address, voter: &Address) -> (r: bool)
        ensures
            r == has_receipt(self.receipts(), proposal@, voter@),
    {
        self.registry.has_voted(proposal, voter)
    }

    /// Number of proposals stored.
    pub fn proposal_count(&self) -> (r: usize)
        ensures
            r == self.proposals().len(),
    {
        self.proposals.len()
    }

    /// Number of votes cast over all proposals.
    pub fn receipt_count(&self) -> (r: usize)
        ensures
            r == self.receipts().len(),
    {
        self.registry.len()
    }
}

/// Creates a proposal at `ctx.proposal` with the given title and options,
/// every count at zero. Fails, changing nothing, with the first check that
/// the request does not pass: title, option count, option lengths, then that
/// no proposal stands at that address yet.
pub fn initialize_proposal(
    ledger: &mut Ledger,
    ctx: &InitializeProposal,
    title: String,
    options: Vec<String>,
) -> (r: Result<(), VotingError>)
    requires
        old(ledger).wf(),
    ensures
        final(ledger).wf(),
        r == match old(ledger).initialize_error(ctx.proposal@, title@, strings_view(options@)) {
            Some(e) => Err::<(), VotingError>(e),
            None => Ok(()),
        },
        r is Err ==> final(ledger).proposals() == old(ledger).proposals(),
        final(ledger).receipts() == old(ledger).receipts(),
        r is Ok ==> {
            let p = final(ledger).proposals().last();
            &&& final(ledger).proposals() == old(ledger).proposals().push(p)
            &&& final(ledger).has_proposal(ctx.proposal@)
            &&& final(ledger).proposal_at(ctx.proposal@) == p
            &&& p.address == ctx.proposal
            &&& p.authority == ctx.authority
            &&& p.title@ == title@
            &&& p.options@ == options@
            &&& p.tally@.len() == options@.len()
            &&& all_zero(p.tally@)
        },
{
    let p = Proposal::new(ctx.proposal, ctx.authority, title, options)?;
    if ledger.find(&ctx.proposal).is_some() {
        return Err(VotingError::ProposalAlreadyExists);
    }
    let ghost ps = ledger.proposals();
    let ghost rs = ledger.receipts();
    let ghost a = ctx.proposal@;
    ledger.proposals.push(p);
    proof {
        let ps2 = ledger.proposals();
        assert(ps2 == ps.push(p));
        assert forall|j: int| 0 <= j < rs.len() implies ledger.has_proposal(
            (#[trigger] rs[j]).0,
        ) by {
            let w = choose|i: int| 0 <= i < ps.len() && (#[trigger] ps[i]).address@ == rs[j].0;
            assert(ps2[w] == ps[w]);
        }
        assert forall|j: int| 0 <= j < rs.len() implies (#[trigger] rs[j]).0 != a by {
            if rs[j].0 == a {
                let w = choose|i: int| 0 <= i < ps.len() && (#[trigger] ps[i]).address@ == a;
                assert(ps[w].address@ == a);
            }
        }
        lemma_no_votes(rs, a, 0);
        assert forall|k: int| 0 <= k < p.tally@.len() implies p.tally@[k] == votes_for(
            rs,
            a,
            k,
        ) by {
            lemma_no_votes(rs, a, k);
        }
        lemma_tally_sum_zero(p.tally@);
        let n = ps.len() as int;
        assert(ps2[n] == p);
        assert(ledger.has_proposal(a));
        let c = ledger.index_of(a);
        if c != n {
            assert(ps2[c] == ps[c]);
        }
        assert(ledger.wf());
    }
    Ok(())
}

/// Casts the vote of `ctx.voter` for option `option_index` of the proposal
/// at `ctx.proposal`: that option's count grows by one and the voter's
/// receipt is issued, in one step. Fails, changing nothing, with the first
/// check that the vote does not pass: the proposal exists, the index is in
/// range, the voter has not voted on it yet, the count can grow.
pub fn vote(ledger: &mut Ledger, ctx: &Vote, option_index: u32) -> (r: Result<(), VotingError>)
    requires
        old(ledger).wf(),
    ensures
        final(ledger).wf(),
        r == match old(ledger).vote_error(ctx.proposal@, ctx.voter@, option_index) {
            Some(e) => Err::<(), VotingError>(e),
            None => Ok(()),
        },
        r is Err ==> final(ledger).proposals() == old(ledger).proposals(),
        r is Err ==> final(ledger).receipts() == old(ledger).receipts(),
        r is Ok ==> {
            let i = old(ledger).index_of(ctx.proposal@);
            let before = old(ledger).proposals()[i];
            let after = final(ledger).proposals()[i];
            &&& final(ledger).proposals() == old(ledger).proposals().update(i, after)
            &&& after == (Proposal { tally: after.tally, ..before })
            &&& after.tally@ == tally_after_vote(before.tally@, option_index as int)
            &&& final(ledger).has_proposal(ctx.proposal@)
            &&& final(ledger).proposal_at(ctx.proposal@) == after
            &&& final(ledger).receipts() == old(ledger).receipts().push(
                (ctx.proposal@, ctx.voter@, option_index),
            )
        },
{
    let i = match ledger.find(&ctx.proposal) {
        Some(i) => i,
        None => return Err(VotingError::ProposalNotFound),
    };
    if option_index as usize >= ledger.proposals[i].tally.len() {
        return Err(VotingError::InvalidOptionIndex);
    }
    if ledger.registry.has_voted(&ctx.proposal, &ctx.voter) {
        return Err(VotingError::AlreadyVoted);
    }
    let ghost ps = ledger.proposals();
    let ghost rs = ledger.receipts();
    let ghost a = ctx.proposal@;
    let ghost k = option_index as int;
    proof {
        assert(ps[i as int].wf());
    }
    if let Err(e) = ledger.proposals[i].record_vote(option_index) {
        proof {
            assert(ledger.proposals() =~= ps);
        }
        return Err(e);
    }
    let ghost ps2 = ledger.proposals();
    ledger.registry.create(&ctx.proposal, &ctx.voter, option_index)?;
    proof {
        let rs2 = ledger.receipts();
        let x = (a, ctx.voter@, option_index);
        assert(rs2 == rs.push(x));
        assert(ps2 == ledger.proposals());
        assert forall|j: int| 0 <= j < ps2.len() implies (#[trigger] ps2[j]).address
            == ps[j].address by {}
        assert forall|j: int| 0 <= j < rs2.len() implies ledger.has_proposal(
            (#[trigger] rs2[j]).0,
        ) by {
            if j < rs.len() {
                assert(rs2[j] == rs[j]);
                let w = choose|i: int| 0 <= i < ps.len() && (#[trigger] ps[i]).address@ == rs[j].0;
                assert(ps2[w].address == ps[w].address);
            } else {
                assert(ps2[i as int].address@ == a);
            }
        }
        assert forall|i2: int, k2: int|
            #![trigger ps2[i2].tally@[k2]]
            0 <= i2 < ps2.len() && 0 <= k2 < ps2[i2].tally@.len() implies ps2[i2].tally@[k2]
            == votes_for(rs2, ps2[i2].address@, k2) by {
            lemma_votes_push(rs, x, ps2[i2].address@, k2);
            assert(ps2[i2].address == ps[i2].address);
            if i2 != i {
                assert(ps[i2].tally@[k2] == votes_for(rs, ps[i2].address@, k2));
            } else {
                assert(ps[i2].tally@[k2] == votes_for(rs, ps[i2].address@, k2));
            }
        }
        assert forall|i2: int| 0 <= i2 < ps2.len() implies tally_sum((#[trigger] ps2[i2]).tally@)
            == votes_on(rs2, ps2[i2].address@) by {
            lemma_votes_push(rs, x, ps2[i2].address@, 0);
            assert(ps2[i2].address == ps[i2].address);
            assert(tally_sum(ps[i2].tally@) == votes_on(rs, ps[i2].address@));
            if i2 == i {
                lemma_tally_sum_after_vote(ps[i2].tally@, k);
            }
        }
        assert(ledger.has_proposal(a));
        let c = ledger.index_of(a);
        if c != i {
            assert(ps2[c].address == ps[c].address);
        }
        assert(ledger.wf());
    }
    Ok(())
}

/// A request whose title is valid but whose number of options lies outside
/// `[MIN_OPTIONS, MAX_OPTIONS]` is refused with `InvalidOptionCount`, on any
/// ledger and at any address (and `initialize_proposal` then changes nothing).
pub proof fn lemma_option_count_out_of_range_refused(
    ledger: &Ledger,
    a: Seq<u8>,
    title: Seq<char>,
    options: Seq<Seq<char>>,
)
    requires
        valid_title(title),
        !valid_option_count(options.len() as int),
    ensures
        ledger.initialize_error(a, title, options) == Some(VotingError::InvalidOptionCount),
{
}

/// Once a voter holds a receipt for a proposal, every further vote of that
/// voter on it with an index in range is refused with `AlreadyVoted` (and
/// `vote` then changes nothing).
pub proof fn lemma_second_vote_refused(ledger: &Ledger, a: Seq<u8>, voter: Seq<u8>, k: u32)
    requires
        ledger.wf(),
        has_receipt(ledger.receipts(), a, voter),
        k < ledger.proposal_at(a).tally@.len(),
    ensures
        ledger.vote_error(a, voter, k) == Some(VotingError::AlreadyVoted),
{
    let rs = ledger.receipts();
    let j = choose|j: int| 0 <= j < rs.len() && (#[trigger] rs[j]).0 == a && rs[j].1 == voter;
    assert(ledger.has_proposal(rs[j].0));
}

/// In every reachable ledger each count of a proposal equals the number of
/// receipts for that option, their total equals the number of receipts for
/// the proposal, and no voter holds two receipts for one proposal: votes of
/// distinct voters all count, once each, whatever their order.
pub proof fn lemma_tally_counts_receipts(ledger: &Ledger, a: Seq<u8>)
    requires
        ledger.wf(),
        ledger.has_proposal(a),
    ensures
        pairs_unique(ledger.receipts()),
        ledger.proposal_at(a).tally@.len() == ledger.proposal_at(a).options@.len(),
        forall|k: int|
            0 <= k < ledger.proposal_at(a).tally@.len() ==> #[trigger] ledger.proposal_at(
                a,
            ).tally@[k] == votes_for(ledger.receipts(), a, k),
        tally_sum(ledger.proposal_at(a).tally@) == votes_on(ledger.receipts(), a),
{
    let i = ledger.index_of(a);
    assert(ledger.proposals()[i].wf());
    assert forall|k: int| 0 <= k < ledger.proposal_at(a).tally@.len() implies #[trigger] ledger.proposal_at(
        a,
    ).tally@[k] == votes_for(ledger.receipts(), a, k) by {
        assert(ledger.proposals()[i].tally@[k] == votes_for(
            ledger.receipts(),
            ledger.proposals()[i].address@,
            k,
        ));
    }
}

} // verus!
