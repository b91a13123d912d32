use voting_program::{
    initialize_proposal, proposal_address, receipt_address, vote, Address, InitializeProposal,
    Ledger, Proposal, VoterRegistry, VotingError, Vote, MAX_OPTIONS, MAX_OPTION_LEN,
    MAX_TITLE_LEN,
};

fn addr(b: u8) -> Address {
    Address::new([b; 32])
}

fn strings(items: &[&str]) -> Vec<String> {
    items.iter().map(|s| s.to_string()).collect()
}

fn lunch(ledger: &mut Ledger, at: Address) {
    let ctx = InitializeProposal { proposal: at, authority: addr(200) };
    assert_eq!(
        initialize_proposal(ledger, &ctx, "Lunch".to_string(), strings(&["Pizza", "Sushi"])),
        Ok(())
    );
}

fn tally(ledger: &Ledger, at: Address) -> Vec<u64> {
    ledger.get_proposal(&at).expect("proposal exists").tally.clone()
}

fn cast(ledger: &mut Ledger, proposal: Address, voter: Address, k: u32) -> Result<(), VotingError> {
    vote(ledger, &Vote { proposal, voter }, k)
}

#[test]
fn lunch_scenario() {
    let mut l = Ledger::new();
    let p = addr(1);
    lunch(&mut l, p);
    assert_eq!(tally(&l, p), vec![0, 0]);
    assert_eq!(cast(&mut l, p, addr(10), 0), Ok(()));
    assert_eq!(tally(&l, p), vec![1, 0]);
    assert_eq!(cast(&mut l, p, addr(11), 1), Ok(()));
    assert_eq!(tally(&l, p), vec![1, 1]);
    assert_eq!(cast(&mut l, p, addr(10), 0), Err(VotingError::AlreadyVoted));
    assert_eq!(cast(&mut l, p, addr(10), 1), Err(VotingError::AlreadyVoted));
    assert_eq!(tally(&l, p), vec![1, 1]);
    assert_eq!(l.receipt_count(), 2);
}

#[test]
fn initialize_stores_zero_tally_of_option_length() {
    for n in 2..=MAX_OPTIONS {
        let mut l = Ledger::new();
        let opts: Vec<String> = (0..n).map(|i| format!("option {}", i)).collect();
        let ctx = InitializeProposal { proposal: addr(3), authority: addr(4) };
        assert_eq!(initialize_proposal(&mut l, &ctx, "Poll".to_string(), opts.clone()), Ok(()));
        let p = l.get_proposal(&addr(3)).unwrap();
        assert_eq!(p.tally, vec![0u64; n]);
        assert_eq!(p.options, opts);
        assert_eq!(p.title, "Poll");
        assert_eq!(p.authority, addr(4));
        assert_eq!(p.address, addr(3));
    }
}

#[test]
fn option_count_out_of_range_is_refused() {
    for n in [0usize, 1, MAX_OPTIONS + 1, MAX_OPTIONS + 5] {
        let mut l = Ledger::new();
        let opts: Vec<String> = (0..n).map(|i| format!("o{}", i)).collect();
        let ctx = InitializeProposal { proposal: addr(3), authority: addr(4) };
        assert_eq!(
            initialize_proposal(&mut l, &ctx, "Poll".to_string(), opts),
            Err(VotingError::InvalidOptionCount)
        );
        assert_eq!(l.proposal_count(), 0);
        assert!(l.get_proposal(&addr(3)).is_none());
    }
}

#[test]
fn invalid_title_is_refused_first() {
    let mut l = Ledger::new();
    let ctx = InitializeProposal { proposal: addr(3), authority: addr(4) };
    assert_eq!(
        initialize_proposal(&mut l, &ctx, String::new(), strings(&["a"])),
        Err(VotingError::InvalidTitle)
    );
    let long = "t".repeat(MAX_TITLE_LEN + 1);
    assert_eq!(
        initialize_proposal(&mut l, &ctx, long, strings(&["a", "b"])),
        Err(VotingError::InvalidTitle)
    );
    assert_eq!(l.proposal_count(), 0);
}

#[test]
fn title_length_counts_characters() {
    let mut l = Ledger::new();
    let ctx = InitializeProposal { proposal: addr(3), authority: addr(4) };
    let title = "é".repeat(MAX_TITLE_LEN);
    assert_eq!(initialize_proposal(&mut l, &ctx, title, strings(&["a", "b"])), Ok(()));
}

#[test]
fn invalid_option_length_is_refused() {
    let mut l = Ledger::new();
    let ctx = InitializeProposal { proposal: addr(3), authority: addr(4) };
    assert_eq!(
        initialize_proposal(&mut l, &ctx, "Poll".to_string(), strings(&["a", ""])),
        Err(VotingError::InvalidOptionLength)
    );
    let long = "x".repeat(MAX_OPTION_LEN + 1);
    assert_eq!(
        initialize_proposal(&mut l, &ctx, "Poll".to_string(), vec!["a".to_string(), long]),
        Err(VotingError::InvalidOptionLength)
    );
    let longest = "x".repeat(MAX_OPTION_LEN);
    assert_eq!(
        initialize_proposal(&mut l, &ctx, "Poll".to_string(), vec!["a".to_string(), longest]),
        Ok(())
    );
}

#[test]
fn second_proposal_at_same_address_is_refused() {
    let mut l = Ledger::new();
    lunch(&mut l, addr(1));
    let ctx = InitializeProposal { proposal: addr(1), authority: addr(9) };
    assert_eq!(
        initialize_proposal(&mut l, &ctx, "Dinner".to_string(), strings(&["a", "b"])),
        Err(VotingError::ProposalAlreadyExists)
    );
    assert_eq!(l.proposal_count(), 1);
    assert_eq!(l.get_proposal(&addr(1)).unwrap().title, "Lunch");
}

#[test]
fn first_vote_increments_only_its_option() {
    let mut l = Ledger::new();
    let p = addr(1);
    let ctx = InitializeProposal { proposal: p, authority: addr(2) };
    initialize_proposal(&mut l, &ctx, "Poll".to_string(), strings(&["a", "b", "c"])).unwrap();
    assert!(!l.has_voted(&p, &addr(7)));
    assert_eq!(cast(&mut l, p, addr(7), 2), Ok(()));
    assert_eq!(tally(&l, p), vec![0, 0, 1]);
    assert!(l.has_voted(&p, &addr(7)));
    assert!(!l.has_voted(&p, &addr(8)));
}

#[test]
fn distinct_voters_all_count() {
    let mut l = Ledger::new();
    let p = addr(1);
    let ctx = InitializeProposal { proposal: p, authority: addr(2) };
    initialize_proposal(&mut l, &ctx, "Poll".to_string(), strings(&["a", "b", "c"])).unwrap();
    let choices = [2u32, 0, 2, 1, 2, 0, 2];
    for (i, k) in choices.iter().enumerate() {
        assert_eq!(cast(&mut l, p, addr(50 + i as u8), *k), Ok(()));
    }
    let t = tally(&l, p);
    assert_eq!(t, vec![2, 1, 4]);
    assert_eq!(t.iter().sum::<u64>(), choices.len() as u64);
}

#[test]
fn votes_on_two_proposals_are_kept_apart() {
    let mut l = Ledger::new();
    lunch(&mut l, addr(1));
    lunch(&mut l, addr(2));
    assert_eq!(cast(&mut l, addr(1), addr(10), 0), Ok(()));
    assert_eq!(cast(&mut l, addr(2), addr(10), 1), Ok(()));
    assert_eq!(tally(&l, addr(1)), vec![1, 0]);
    assert_eq!(tally(&l, addr(2)), vec![0, 1]);
}

#[test]
fn out_of_range_index_is_refused() {
    let mut l = Ledger::new();
    let p = addr(1);
    lunch(&mut l, p);
    assert_eq!(cast(&mut l, p, addr(10), 2), Err(VotingError::InvalidOptionIndex));
    assert_eq!(cast(&mut l, p, addr(10), u32::MAX), Err(VotingError::InvalidOptionIndex));
    assert_eq!(tally(&l, p), vec![0, 0]);
    assert!(!l.has_voted(&p, &addr(10)));
    assert_eq!(l.receipt_count(), 0);
}

#[test]
fn vote_on_missing_proposal_is_refused() {
    let mut l = Ledger::new();
    lunch(&mut l, addr(1));
    assert_eq!(cast(&mut l, addr(5), addr(10), 0), Err(VotingError::ProposalNotFound));
    assert_eq!(l.receipt_count(), 0);
}

#[test]
fn registry_refuses_second_receipt() {
    let mut r = VoterRegistry::new();
    assert!(!r.has_voted(&addr(1), &addr(2)));
    assert_eq!(r.create(&addr(1), &addr(2), 0), Ok(()));
    assert!(r.has_voted(&addr(1), &addr(2)));
    assert_eq!(r.create(&addr(1), &addr(2), 1), Err(VotingError::ReceiptAlreadyExists));
    assert_eq!(r.create(&addr(1), &addr(3), 1), Ok(()));
    assert_eq!(r.len(), 2);
}

#[test]
fn full_count_cannot_grow() {
    let mut p = Proposal::new(addr(1), addr(2), "Poll".to_string(), strings(&["a", "b"])).unwrap();
    p.tally[1] = u64::MAX;
    assert_eq!(p.record_vote(1), Err(VotingError::TallyOverflow));
    assert_eq!(p.tally, vec![0, u64::MAX]);
    assert_eq!(p.record_vote(0), Ok(()));
    assert_eq!(p.tally, vec![1, u64::MAX]);
}

#[test]
fn addresses_compare_bytewise() {
    assert!(addr(1).same_as(&addr(1)));
    assert!(!addr(1).same_as(&addr(2)));
    let mut b = [7u8; 32];
    b[31] = 8;
    assert!(!addr(7).same_as(&Address::new(b)));
    assert_eq!(addr(7).to_vec(), vec![7u8; 32]);
}

#[test]
fn derived_addresses_are_deterministic_and_distinct() {
    let program = addr(42);
    let (p1, bump1) = proposal_address(&program, &addr(1)).expect("an address is found");
    let (p1b, bump1b) = proposal_address(&program, &addr(1)).unwrap();
    assert_eq!((p1, bump1), (p1b, bump1b));
    let (p2, _) = proposal_address(&program, &addr(2)).unwrap();
    assert_ne!(p1, p2);
    assert_ne!(p1, program);
    assert_ne!(p1, addr(1));
    let (r1, _) = receipt_address(&program, &p1, &addr(10)).unwrap();
    let (r2, _) = receipt_address(&program, &p1, &addr(11)).unwrap();
    assert_ne!(r1, r2);
    assert_ne!(r1, p1);
    let (other, _) = proposal_address(&addr(43), &addr(1)).unwrap();
    assert_ne!(other, p1);
}
