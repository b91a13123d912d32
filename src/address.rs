use anchor_lang::solana_program::pubkey::Pubkey;
use vstd::prelude::*;

verus! {

/// A 32-byte account address (a program id, a signer, or a derived record).
#[derive(Clone, Copy, Debug, PartialEq, Eq, Hash)]
pub struct Address {
    pub bytes: [u8; 32],
}

impl View for Address {
    type V = Seq<u8>;

    open spec fn view(&self) -> Seq<u8> {
        self.bytes@
    }
}

impl Address {
    pub fn new(bytes: [u8; 32]) -> (r: Address)
        ensures
            r@ == bytes@,
    {
        Address { bytes }
    }

    /// Byte-wise comparison of two addresses.
    pub fn same_as(&self, other: &Address) -> (r: bool)
        ensures
            r == (self@ == other@),
    {
        broadcast use vstd::array::group_array_axioms;

        let mut i: usize = 0;
        while i < 32
            invariant
                i <= 32,
                self.bytes@.len() == 32,
                other.bytes@.len() == 32,
                forall|j: int| 0 <= j < i ==> self.bytes@[j] == other.bytes@[j],
            decreases 32 - i,
        {
            if self.bytes[i] != other.bytes[i] {
                return false;
            }
            i += 1;
        }
        assert(self.bytes@ =~= other.bytes@);
        true
    }

    /// The address as a seed for address derivation.
    pub fn to_vec(&self) -> (r: Vec<u8>)
        ensures
            r@ == self@,
    {
        broadcast use vstd::array::group_array_axioms;

        let mut out: Vec<u8> = Vec::new();
        let mut i: usize = 0;
        while i < 32
            invariant
                i <= 32,
                self.bytes@.len() == 32,
                out@ == self.bytes@.subrange(0, i as int),
            decreases 32 - i,
        {
            out.push(self.bytes[i]);
            i += 1;
            assert(out@ =~= self.bytes@.subrange(0, i as int));
        }
        assert(out@ =~= self.bytes@);
        out
    }
}

/// What `Pubkey::try_find_program_address` yields for the given seeds and
/// program id: the derived address and its bump seed, or `None`.
pub uninterp spec fn program_address_of(seeds: Seq<Seq<u8>>, program_id: Seq<u8>) -> Option<
    (Seq<u8>, u8),
>;

/// Relies on `Pubkey::try_find_program_address`: a deterministic function of
/// the seeds and the program id, which returns `None` (and does not panic)
/// when no bump seed gives an address off the curve or a seed is too long.
#[verifier::external_body]
fn find_program_address(seeds: &Vec<Vec<u8>>, program_id: &Address) -> (r: Option<(Address, u8)>)
    ensures
        program_address_of(seeds@.map_values(|s: Vec<u8>| s@), program_id@) == match r {
            Some((a, bump)) => Some((a@, bump)),
            None => None,
        },
{
    let id = Pubkey::new_from_array(program_id.bytes);
    let refs: Vec<&[u8]> = seeds.iter().map(|s| s.as_slice()).collect();
    match Pubkey::try_find_program_address(&refs, &id) {
        Some((key, bump)) => Some((Address { bytes: key.to_bytes() }, bump)),
        None => None,
    }
}

/// The seed bytes that tag a proposal record: `b"proposal"`.
pub open spec fn proposal_tag() -> Seq<u8> {
    seq![112u8, 114u8, 111u8, 112u8, 111u8, 115u8, 97u8, 108u8]
}

/// The seed bytes that tag a voter receipt: `b"receipt"`.
pub open spec fn receipt_tag() -> Seq<u8> {
    seq![114u8, 101u8, 99u8, 101u8, 105u8, 112u8, 116u8]
}

/// Seeds of the proposal created by `authority`.
pub open spec fn proposal_seeds(authority: Seq<u8>) -> Seq<Seq<u8>> {
    seq![proposal_tag(), authority]
}

/// Seeds of the receipt of `voter` on `proposal`.
pub open spec fn receipt_seeds(proposal: Seq<u8>, voter: Seq<u8>) -> Seq<Seq<u8>> {
    seq![receipt_tag(), proposal, voter]
}

/// Maps a derived address to its plain view.
pub open spec fn derived_view(r: Option<(Address, u8)>) -> Option<(Seq<u8>, u8)> {
    match r {
        Some((a, bump)) => Some((a@, bump)),
        None => None,
    }
}

fn proposal_tag_vec() -> (r: Vec<u8>)
    ensures
        r@ == proposal_tag(),
{
    let mut v: Vec<u8> = Vec::new();
    v.push(112u8);
    v.push(114u8);
    v.push(111u8);
    v.push(112u8);
    v.push(111u8);
    v.push(115u8);
    v.push(97u8);
    v.push(108u8);
    assert(v@ =~= proposal_tag());
    v
}

fn receipt_tag_vec() -> (r: Vec<u8>)
    ensures
        r@ == receipt_tag(),
{
    let mut v: Vec<u8> = Vec::new();
    v.push(114u8);
    v.push(101u8);
    v.push(99u8);
    v.push(101u8);
    v.push(105u8);
    v.push(112u8);
    v.push(116u8);
    assert(v@ =~= receipt_tag());
    v
}

/// The address at which `authority` creates its proposal under `program_id`,
/// with its bump seed.
pub fn proposal_address(program_id: &Address, authority: &Address) -> (r: Option<(Address, u8)>)
    ensures
        derived_view(r) == program_address_of(proposal_seeds(authority@), program_id@),
{
    let mut seeds: Vec<Vec<u8>> = Vec::new();
    seeds.push(proposal_tag_vec());
    seeds.push(authority.to_vec());
    assert(seeds@.map_values(|s: Vec<u8>| s@) =~= proposal_seeds(authority@));
    find_program_address(&seeds, program_id)
}

/// The address of the receipt that records the vote of `voter` on
/// `proposal`, with its bump seed.
pub fn receipt_address(program_id: &Address, proposal: &Address, voter: &Address) -> (r: Option<
    (Address, u8),
>)
    ensures
        derived_view(r) == program_address_of(receipt_seeds(proposal@, voter@), program_id@),
{
    let mut seeds: Vec<Vec<u8>> = Vec::new();
    seeds.push(receipt_tag_vec());
    seeds.push(proposal.to_vec());
    seeds.push(voter.to_vec());
    assert(seeds@.map_values(|s: Vec<u8>| s@) =~= receipt_seeds(proposal@, voter@));
    find_program_address(&seeds, program_id)
}

} // verus!
