use crate::address::Address;
use crate::text::length_within;
use vstd::prelude::*;

verus! {

/// Most characters a proposal title may hold.
pub const MAX_TITLE_LEN: usize = 64;

/// Fewest options a proposal may offer.
pub const MIN_OPTIONS: usize = 2;

/// Most options a proposal may offer.
pub const MAX_OPTIONS: usize = 10;

/// Most characters a single option may hold.
pub const MAX_OPTION_LEN: usize = 32;

/// Why an instruction was refused. Every refusal leaves all records as they
/// were.
#[derive(Clone, Copy, Debug, PartialEq, Eq, Structural)]
pub enum VotingError {
    /// The title is empty or longer than `MAX_TITLE_LEN`.
    InvalidTitle,
    /// The number of options lies outside `[MIN_OPTIONS, MAX_OPTIONS]`.
    InvalidOptionCount,
    /// An option is empty or longer than `MAX_OPTION_LEN`.
    InvalidOptionLength,
    /// A proposal already stands at the address to initialize.
    ProposalAlreadyExists,
    /// No proposal stands at the address voted on.
    ProposalNotFound,
    /// The option index is not below the number of options.
    InvalidOptionIndex,
    /// The voter already holds a receipt for this proposal.
    AlreadyVoted,
    /// The registry already holds a receipt for this proposal and voter.
    ReceiptAlreadyExists,
    /// The chosen option's count is at `u64::MAX` and cannot grow.
    TallyOverflow,
}

pub open spec fn valid_title(title: Seq<char>) -> bool {
    1 <= title.len() <= MAX_TITLE_LEN
}

pub open spec fn valid_option_count(n: int) -> bool {
    MIN_OPTIONS <= n <= MAX_OPTIONS
}

pub open spec fn valid_option(option: Seq<char>) -> bool {
    1 <= option.len() <= MAX_OPTION_LEN
}

pub open spec fn all_options_valid(options: Seq<Seq<char>>) -> bool {
    forall|i: int| 0 <= i < options.len() ==> valid_option(#[trigger] options[i])
}

/// The first check that a creation request fails, in the order title, option
/// count, option lengths; `None` when it passes them all.
pub open spec fn creation_error(title: Seq<char>, options: Seq<Seq<char>>) -> Option<VotingError> {
    if !valid_title(title) {
        Some(VotingError::InvalidTitle)
    } else if !valid_option_count(options.len() as int) {
        Some(VotingError::InvalidOptionCount)
    } else if !all_options_valid(options) {
        Some(VotingError::InvalidOptionLength)
    } else {
        None
    }
}

pub open spec fn strings_view(v: Seq<String>) -> Seq<Seq<char>> {
    v.map_values(|s: String| s@)
}

pub open spec fn all_zero(tally: Seq<u64>) -> bool {
    forall|i: int| 0 <= i < tally.len() ==> tally[i] == 0
}

/// Total number of votes counted in a tally.
pub open spec fn tally_sum(tally: Seq<u64>) -> int
    decreases tally.len(),
{
    if tally.len() == 0 {
        0
    } else {
        tally_sum(tally.drop_last()) + tally.last()
    }
}

/// The tally after one more vote for option `k`.
pub open spec fn tally_after_vote(tally: Seq<u64>, k: int) -> Seq<u64> {
    tally.update(k, (tally[k] + 1) as u64)
}

/// One more vote for one option adds exactly one to the total.
pub proof fn lemma_tally_sum_after_vote(tally: Seq<u64>, k: int)
    requires
        0 <= k < tally.len(),
        tally[k] < u64::MAX,
    ensures
        tally_sum(tally_after_vote(tally, k)) == tally_sum(tally) + 1,
    decreases tally.len(),
{
    let t2 = tally_after_vote(tally, k);
    if k == tally.len() - 1 {
        assert(t2.drop_last() =~= tally.drop_last());
    } else {
        lemma_tally_sum_after_vote(tally.drop_last(), k);
        assert(t2.drop_last() =~= tally_after_vote(tally.drop_last(), k));
    }
}

/// A tally of zeros counts no vote.
pub proof fn lemma_tally_sum_zero(tally: Seq<u64>)
    requires
        all_zero(tally),
    ensures
        tally_sum(tally) == 0,
    decreases tally.len(),
{
    if tally.len() > 0 {
        lemma_tally_sum_zero(tally.drop_last());
    }
}

/// A proposal record: a title, its options, and one vote count per option.
pub struct Proposal {
    /// The address at which the record is stored.
    pub address: Address,
    /// The authority that created the proposal.
    pub authority: Address,
    pub title: String,
    pub options: Vec<String>,
    /// `tally[i]` counts the votes cast for `options[i]`.
    pub tally: Vec<u64>,
}

impl Proposal {
    pub open spec fn options_view(&self) -> Seq<Seq<char>> {
        strings_view(self.options@)
    }

    /// A proposal as `initialize` makes it, and as votes keep it.
    pub open spec fn wf(&self) -> bool {
        &&& creation_error(self.title@, self.options_view()) is None
        &&& self.tally@.len() == self.options@.len()
    }

    /// Checks a creation request: title, then option count, then each option.
    pub fn validate(title: &String, options: &Vec<String>) -> (r: Result<(), VotingError>)
        ensures
            r == match creation_error(title@, strings_view(options@)) {
                Some(e) => Err(e),
                None => Ok(()),
            },
    {
        if !length_within(title.as_str(), MAX_TITLE_LEN) {
            return Err(VotingError::InvalidTitle);
        }
        let n = options.len();
        if n < MIN_OPTIONS || n > MAX_OPTIONS {
            return Err(VotingError::InvalidOptionCount);
        }
        let mut i: usize = 0;
        while i < n
            invariant
                n == options@.len(),
                i <= n,
                valid_title(title@),
                valid_option_count(n as int),
                forall|j: int| 0 <= j < i ==> valid_option(#[trigger] options@[j]@),
            decreases n - i,
        {
            if !length_within(options[i].as_str(), MAX_OPTION_LEN) {
                assert(!valid_option(strings_view(options@)[i as int]));
                assert(!all_options_valid(strings_view(options@)));
                return Err(VotingError::InvalidOptionLength);
            }
            i += 1;
        }
        assert(all_options_valid(strings_view(options@)));
        Ok(())
    }

    /// Creates the proposal record at `address`, with a zero count for every
    /// option; fails with the first check that the request does not pass.
    pub fn new(address: Address, authority: Address, title: String, options: Vec<String>) -> (r:
        Result<Proposal, VotingError>)
        ensures
            match creation_error(title@, strings_view(options@)) {
                Some(e) => r == Err::<Proposal, VotingError>(e),
                None => r is Ok,
            },
            r matches Ok(p) ==> {
                &&& p.wf()
                &&& p.address == address
                &&& p.authority == authority
                &&& p.title@ == title@
                &&& p.options@ == options@
                &&& p.tally@.len() == options@.len()
                &&& all_zero(p.tally@)
            },
    {
        Self::validate(&title, &options)?;
        let mut tally: Vec<u64> = Vec::new();
        let mut i: usize = 0;
        while i < options.len()
            invariant
                i <= options@.len(),
                tally@.len() == i,
                all_zero(tally@),
            decreases options@.len() - i,
        {
            tally.push(0);
            i += 1;
        }
        Ok(Proposal { address, authority, title, options, tally })
    }

    /// Counts one more vote for option `option_index`.
    pub fn record_vote(&mut self, option_index: u32) -> (r: Result<(), VotingError>)
        requires
            old(self).wf(),
        ensures
            final(self).wf(),
            r == if option_index >= old(self).tally@.len() {
                Err::<(), VotingError>(VotingError::InvalidOptionIndex)
            } else if old(self).tally@[option_index as int] == u64::MAX {
                Err(VotingError::TallyOverflow)
            } else {
                Ok(())
            },
            r is Err ==> *final(self) == *old(self),
            r is Ok ==> *final(self) == (Proposal {
                tally: final(self).tally,
                ..*old(self)
            }),
            r is Ok ==> final(self).tally@ == tally_after_vote(
                old(self).tally@,
                option_index as int,
            ),
    {
        let k = option_index as usize;
        if k >= self.tally.len() {
            return Err(VotingError::InvalidOptionIndex);
        }
        if self.tally[k] == u64::MAX {
            return Err(VotingError::TallyOverflow);
        }
        self.tally[k] = self.tally[k] + 1;
        Ok(())
    }
}

} // verus!
