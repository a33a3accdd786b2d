use anchor_lang::solana_program::pubkey::Pubkey;
use vstd::prelude::*;

verus! {

/// A 32-byte account address or public key.
#[derive(Clone, Copy, Debug, PartialEq, Eq)]
pub struct Address {
    pub bytes: [u8; 32],
}

/// The address that the protocol's accounts are derived under
/// (`CZcvoryaQNrtZ3qb3gC1h9opcYpzEP1D9Mu1RVwFQeBu` in base58).
pub fn program_id() -> Address {
    Address {
        bytes: [
            171, 203, 196, 4, 10, 205, 114, 253, 12, 133, 26, 104, 15, 239, 42, 207,
            107, 2, 128, 149, 125, 162, 4, 119, 46, 144, 188, 104, 72, 125, 235, 228,
        ],
    }
}

impl Address {
    /// Compares two addresses byte by byte.
    pub fn same_as(&self, other: &Address) -> (r: bool)
        ensures
            r == (*self == *other),
            r == (self.bytes@ == other.bytes@),
    {
        let mut i: usize = 0;
        while i < 32
            invariant
                i <= 32,
                forall|j: int| 0 <= j < i ==> self.bytes[j] == other.bytes[j],
            decreases 32 - i,
        {
            if self.bytes[i] != other.bytes[i] {
                return false;
            }
            i = i + 1;
        }
        proof {
            broadcast use vstd::array::group_array_axioms;
            assert(self.bytes =~= other.bytes);
        }
        true
    }
}

/// The bytes of `"agent"`.
pub open spec fn agent_tag() -> Seq<u8> {
    seq![97u8, 103, 101, 110, 116]
}

/// The bytes of `"commitment"`.
pub open spec fn commitment_tag() -> Seq<u8> {
    seq![99u8, 111, 109, 109, 105, 116, 109, 101, 110, 116]
}

/// The `count` low bytes of `n`, least significant first.
pub open spec fn le_bytes(n: nat, count: nat) -> Seq<u8>
    decreases count,
{
    if count == 0 {
        Seq::empty()
    } else {
        seq![(n % 256) as u8] + le_bytes(n / 256, (count - 1) as nat)
    }
}

/// The seeds of the profile account of `authority`.
pub open spec fn agent_seeds(authority: Address) -> Seq<Seq<u8>> {
    seq![agent_tag(), authority.bytes@]
}

/// The seeds of the commitment account under `agent` with `nonce`.
pub open spec fn commitment_seeds(agent: Address, nonce: u64) -> Seq<Seq<u8>> {
    seq![commitment_tag(), agent.bytes@, le_bytes(nonce as nat, 8)]
}

/// The address and bump that `seeds` derive under `program`, where one exists.
pub uninterp spec fn program_address(seeds: Seq<Seq<u8>>, program: Seq<u8>) -> Option<(Seq<u8>, u8)>;

/// What a derivation result stands for, as plain bytes.
pub open spec fn derived_view(r: Option<(Address, u8)>) -> Option<(Seq<u8>, u8)> {
    match r {
        Some((a, bump)) => Some((a.bytes@, bump)),
        None => None,
    }
}

/// Relies on `Pubkey::try_find_program_address` of solana-program (as
/// anchor-lang re-exports it): it hashes the seeds, a bump and the program
/// id, and returns the first bump from 255 down whose hash lies off the
/// curve, or none; the result depends on the seeds and the program alone.
#[verifier::external_body]
fn find_program_address(seeds: &Vec<Vec<u8>>, program: &Address) -> (r: Option<(Address, u8)>)
    ensures
        derived_view(r) == program_address(seeds.deep_view(), program.bytes@),
{
    let slices: Vec<&[u8]> = seeds.iter().map(|s| s.as_slice()).collect();
    match Pubkey::try_find_program_address(&slices, &Pubkey::new_from_array(program.bytes)) {
        Some((key, bump)) => Some((Address { bytes: key.to_bytes() }, bump)),
        None => None,
    }
}

fn address_bytes(a: &Address) -> (r: Vec<u8>)
    ensures
        r@ == a.bytes@,
{
    let mut out: Vec<u8> = Vec::new();
    let mut i: usize = 0;
    while i < 32
        invariant
            i <= 32,
            out@ == a.bytes@.subrange(0, i as int),
        decreases 32 - i,
    {
        out.push(a.bytes[i]);
        i = i + 1;
        assert(out@ =~= a.bytes@.subrange(0, i as int));
    }
    assert(a.bytes@.subrange(0, 32) =~= a.bytes@);
    out
}

/// The eight bytes of `n`, least significant first.
pub fn nonce_bytes(n: u64) -> (r: Vec<u8>)
    ensures
        r@ == le_bytes(n as nat, 8),
{
    let mut out: Vec<u8> = Vec::new();
    let mut x: u64 = n;
    let mut i: usize = 0;
    while i < 8
        invariant
            i <= 8,
            out@ + le_bytes(x as nat, (8 - i) as nat) == le_bytes(n as nat, 8),
        decreases 8 - i,
    {
        let ghost before = out@;
        let b: u8 = (x % 256) as u8;
        assert(le_bytes(x as nat, (8 - i) as nat) == seq![b] + le_bytes((x / 256) as nat, (8 - i - 1) as nat));
        out.push(b);
        assert(out@ + le_bytes((x / 256) as nat, (8 - i - 1) as nat) =~= before + le_bytes(x as nat, (8 - i) as nat));
        x = x / 256;
        i = i + 1;
    }
    assert(out@ + le_bytes(x as nat, 0) =~= out@);
    out
}

/// Derives the profile address of `authority` under `program`.
pub fn derive_agent_address(authority: &Address, program: &Address) -> (r: Option<(Address, u8)>)
    ensures
        derived_view(r) == program_address(agent_seeds(*authority), program.bytes@),
{
    let tag: Vec<u8> = vec![97u8, 103, 101, 110, 116];
    let key = address_bytes(authority);
    assert(tag.deep_view() =~= agent_tag());
    assert(key.deep_view() =~= authority.bytes@);
    let seeds: Vec<Vec<u8>> = vec![tag, key];
    assert(seeds.deep_view() =~= agent_seeds(*authority));
    find_program_address(&seeds, program)
}

/// Derives the address of the commitment under `agent` with `nonce`.
pub fn derive_commitment_address(agent: &Address, nonce: u64, program: &Address) -> (r: Option<(Address, u8)>)
    ensures
        derived_view(r) == program_address(commitment_seeds(*agent, nonce), program.bytes@),
{
    let tag: Vec<u8> = vec![99u8, 111, 109, 109, 105, 116, 109, 101, 110, 116];
    let key = address_bytes(agent);
    let le = nonce_bytes(nonce);
    assert(tag.deep_view() =~= commitment_tag());
    assert(key.deep_view() =~= agent.bytes@);
    assert(le.deep_view() =~= le_bytes(nonce as nat, 8));
    let seeds: Vec<Vec<u8>> = vec![tag, key, le];
    assert(seeds.deep_view() =~= commitment_seeds(*agent, nonce));
    find_program_address(&seeds, program)
}

} // verus!
