//! A voting ledger: proposals with a fixed set of options and a per-option
//! tally, and one receipt per voter and proposal that guards against
//! double voting.

mod address;
mod ledger;
mod proposal;
mod registry;
mod text;

pub use address::{
    derived_view, program_address_of, proposal_address, proposal_seeds, proposal_tag,
    receipt_address, receipt_seeds, receipt_tag, Address,
};
pub use ledger::{
    initialize_proposal, lemma_option_count_out_of_range_refused, lemma_second_vote_refused,
    lemma_tally_counts_receipts, vote, votes_for, votes_on, InitializeProposal, Ledger, Vote,
};
pub use proposal::{
    all_options_valid, all_zero, creation_error, lemma_tally_sum_after_vote, lemma_tally_sum_zero,
    strings_view, tally_after_vote, tally_sum, valid_option, valid_option_count, valid_title,
    Proposal, VotingError, MAX_OPTIONS, MAX_OPTION_LEN, MAX_TITLE_LEN, MIN_OPTIONS,
};
pub use registry::{has_receipt, pairs_unique, ReceiptView, VoterReceipt, VoterRegistry};
pub use text::length_within;
