//! Identities and record addresses, and the derivation of a record's address
//! from a domain tag and the bytes that identify the record.

use vstd::prelude::*;
use vstd::bytes::spec_u64_to_le_bytes;
use vstd::bytes::u64_to_le_bytes;
use vstd::slice::slice_to_vec;
use vstd::utf8::encode_utf8;

verus! {

/// A 32-byte value that names a caller or a record.
#[derive(Clone, Copy, Debug, PartialEq, Eq, Hash)]
pub struct Address {
    pub bytes: [u8; 32],
}

impl View for Address {
    type V = Seq<u8>;

    open spec fn view(&self) -> Seq<u8> {
        self.bytes@
    }
}

impl Address {
    /// The address made of the given bytes.
    pub fn new(bytes: [u8; 32]) -> (r: Address)
        ensures
            r.bytes == bytes,
    {
        Address { bytes }
    }

    /// The bytes of the address.
    pub fn to_bytes(&self) -> (r: [u8; 32])
        ensures
            r == self.bytes,
    {
        self.bytes
    }

    /// Whether two addresses are the same 32 bytes.
    pub fn same(&self, other: &Address) -> (r: bool)
        ensures
            r == (*self == *other),
    {
        let mut i: usize = 0;
        while i < 32
            invariant
                0 <= i <= 32,
                forall|j: int| 0 <= j < i ==> self.bytes[j] == other.bytes[j],
            decreases 32 - i,
        {
            if self.bytes[i] != other.bytes[i] {
                return false;
            }
            i = i + 1;
        }
        assert(self.bytes =~= other.bytes);
        true
    }

    /// The bytes of the address as a seed of a derivation.
    pub fn to_seed(&self) -> (r: Vec<u8>)
        ensures
            r@ == self@,
    {
        slice_to_vec(self.bytes.as_slice())
    }
}

/// Two addresses with the same bytes are the same address.
pub proof fn lemma_address_view_injective(a: Address, b: Address)
    requires
        a@ == b@,
    ensures
        a == b,
{
    assert(a.bytes =~= b.bytes);
}

/// The address with the given bytes.
pub open spec fn address_of(bytes: Seq<u8>) -> Address {
    choose|a: Address| a@ == bytes
}

/// The program-derived address and bump seed for the given seeds under the
/// given program, or `None` where the seeds admit none.
pub uninterp spec fn program_address(seeds: Seq<Seq<u8>>, program_id: Seq<u8>) -> Option<
    (Seq<u8>, u8),
>;

/// A derivation takes fewer seeds than this.
pub const MAX_SEEDS: usize = 16;

/// The longest seed a derivation takes.
pub const MAX_SEED_LEN: usize = 32;

/// The byte strings that a vector of seeds holds.
pub open spec fn views(seeds: Seq<Vec<u8>>) -> Seq<Seq<u8>> {
    Seq::new(seeds.len(), |i: int| seeds[i]@)
}

/// Calls `Pubkey::try_find_program_address` of `anchor_lang`. The result is
/// a function of the seeds and the program id alone, named `program_address`.
/// Sixteen seeds or more, or a seed longer than 32 bytes, give `None`.
#[verifier::external_body]
pub(crate) fn find_program_address(seeds: &Vec<Vec<u8>>, program_id: &Address) -> (r: Option<
    (Address, u8),
>)
    ensures
        match r {
            Some((a, bump)) => program_address(views(seeds@), program_id@) == Some((a@, bump)),
            None => program_address(views(seeds@), program_id@) is None,
        },
        seeds@.len() >= MAX_SEEDS ==> r is None,
        (exists|i: int| 0 <= i < seeds@.len() && seeds@[i]@.len() > MAX_SEED_LEN) ==> r is None,
{
    let parts: Vec<&[u8]> = seeds.iter().map(|s| s.as_slice()).collect();
    let id = anchor_lang::prelude::Pubkey::new_from_array(program_id.bytes);
    match anchor_lang::prelude::Pubkey::try_find_program_address(&parts, &id) {
        Some((a, bump)) => Some((Address { bytes: a.to_bytes() }, bump)),
        None => None,
    }
}

/// The seeds of a derivation: the tag's bytes, then the parts.
pub open spec fn seeds_of(tag: Seq<char>, parts: Seq<Seq<u8>>) -> Seq<Seq<u8>> {
    seq![encode_utf8(tag)] + parts
}

/// The address and bump seed that `derive` gives for a tag and parts, where
/// there is one.
pub open spec fn derived(program_id: Address, tag: Seq<char>, parts: Seq<Seq<u8>>) -> Option<
    (Address, u8),
> {
    match program_address(seeds_of(tag, parts), program_id@) {
        Some((a, bump)) => Some((address_of(a), bump)),
        None => None,
    }
}

/// Derives a record address, with its bump seed, from a domain tag and the
/// byte strings that identify the record. The same inputs always give the
/// same result. There is none where the parts are fifteen or more, or where
/// the tag or a part is longer than 32 bytes.
pub fn derive(program_id: &Address, tag: &str, parts: &Vec<Vec<u8>>) -> (r: Option<(Address, u8)>)
    ensures
        r == derived(*program_id, tag@, views(parts@)),
        parts@.len() + 1 >= MAX_SEEDS ==> r is None,
        encode_utf8(tag@).len() > MAX_SEED_LEN ==> r is None,
        (exists|i: int| 0 <= i < parts@.len() && parts@[i]@.len() > MAX_SEED_LEN) ==> r is None,
{
    let mut seeds: Vec<Vec<u8>> = Vec::new();
    seeds.push(slice_to_vec(tag.as_bytes()));
    let mut i: usize = 0;
    while i < parts.len()
        invariant
            0 <= i <= parts@.len(),
            seeds@.len() == i + 1,
            seeds@[0]@ == encode_utf8(tag@),
            forall|j: int| 0 <= j < i ==> seeds@[j + 1]@ == parts@[j]@,
        decreases parts@.len() - i,
    {
        seeds.push(slice_to_vec(parts[i].as_slice()));
        i = i + 1;
    }
    assert(views(seeds@) =~= seeds_of(tag@, views(parts@)));
    let r = find_program_address(&seeds, program_id);
    proof {
        if let Some((a, _)) = r {
            lemma_address_view_injective(address_of(a@), a);
        }
        if exists|i: int| 0 <= i < parts@.len() && parts@[i]@.len() > MAX_SEED_LEN {
            let k = choose|i: int| 0 <= i < parts@.len() && parts@[i]@.len() > MAX_SEED_LEN;
            assert(seeds@[k + 1]@.len() > MAX_SEED_LEN);
        }
        if encode_utf8(tag@).len() > MAX_SEED_LEN {
            assert(seeds@[0]@.len() > MAX_SEED_LEN);
        }
    }
    r
}

/// The parts that identify a community: its name.
pub open spec fn community_parts(name: Seq<char>) -> Seq<Seq<u8>> {
    seq![encode_utf8(name)]
}

/// The parts that identify a membership: the community and the member.
pub open spec fn membership_parts(community: Address, member: Address) -> Seq<Seq<u8>> {
    seq![community@, member@]
}

/// The parts that identify a poll: the community and the number of polls
/// that the community had before this one, as eight little-endian bytes.
pub open spec fn poll_parts(community: Address, index: u64) -> Seq<Seq<u8>> {
    seq![community@, spec_u64_to_le_bytes(index)]
}

/// The parts that identify a vote: the poll and the voter.
pub open spec fn vote_parts(poll: Address, voter: Address) -> Seq<Seq<u8>> {
    seq![poll@, voter@]
}

/// Where the community of the given name is kept.
pub open spec fn community_slot(program_id: Address, name: Seq<char>) -> Option<(Address, u8)> {
    derived(program_id, "community"@, community_parts(name))
}

/// Where the membership of `member` in `community` is kept.
pub open spec fn membership_slot(program_id: Address, community: Address, member: Address) -> Option<
    (Address, u8),
> {
    derived(program_id, "membership"@, membership_parts(community, member))
}

/// Where the poll of `community` with the given index is kept.
pub open spec fn poll_slot(program_id: Address, community: Address, index: u64) -> Option<
    (Address, u8),
> {
    derived(program_id, "poll"@, poll_parts(community, index))
}

/// Where the vote of `voter` on `poll` is kept.
pub open spec fn vote_slot(program_id: Address, poll: Address, voter: Address) -> Option<
    (Address, u8),
> {
    derived(program_id, "vote"@, vote_parts(poll, voter))
}

/// The address of the community of the given name, with its bump seed.
/// There is none for a name longer than 32 bytes.
pub fn community_address(program_id: &Address, name: &str) -> (r: Option<(Address, u8)>)
    ensures
        r == community_slot(*program_id, name@),
        encode_utf8(name@).len() > MAX_SEED_LEN ==> r is None,
{
    let mut parts: Vec<Vec<u8>> = Vec::new();
    parts.push(slice_to_vec(name.as_bytes()));
    assert(views(parts@) =~= community_parts(name@));
    assert(encode_utf8(name@).len() > MAX_SEED_LEN ==> parts@[0]@.len() > MAX_SEED_LEN);
    derive(program_id, "community", &parts)
}

/// The address of the membership of `member` in `community`, with its bump
/// seed.
pub fn membership_address(program_id: &Address, community: &Address, member: &Address) -> (r:
    Option<(Address, u8)>)
    ensures
        r == membership_slot(*program_id, *community, *member),
{
    let mut parts: Vec<Vec<u8>> = Vec::new();
    parts.push(community.to_seed());
    parts.push(member.to_seed());
    assert(views(parts@) =~= membership_parts(*community, *member));
    derive(program_id, "membership", &parts)
}

/// The address of the poll of `community` with the given index, with its
/// bump seed.
pub fn poll_address(program_id: &Address, community: &Address, index: u64) -> (r: Option<
    (Address, u8),
>)
    ensures
        r == poll_slot(*program_id, *community, index),
{
    let mut parts: Vec<Vec<u8>> = Vec::new();
    parts.push(community.to_seed());
    parts.push(u64_to_le_bytes(index));
    assert(views(parts@) =~= poll_parts(*community, index));
    derive(program_id, "poll", &parts)
}

/// The address of the vote of `voter` on `poll`, with its bump seed.
pub fn vote_address(program_id: &Address, poll: &Address, voter: &Address) -> (r: Option<
    (Address, u8),
>)
    ensures
        r == vote_slot(*program_id, *poll, *voter),
{
    let mut parts: Vec<Vec<u8>> = Vec::new();
    parts.push(poll.to_seed());
    parts.push(voter.to_seed());
    assert(views(parts@) =~= vote_parts(*poll, *voter));
    derive(program_id, "vote", &parts)
}

} // verus!
