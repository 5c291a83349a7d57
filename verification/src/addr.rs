//! Address derivation: a pure, injective map from a logical key
//! (namespace tag + ordered fixed-width key fields) to a storage address.
//!
//! The three namespaces are kept apart by their tag bytes (no tag is a
//! prefix of another), and within a namespace the key fields have fixed
//! widths, so two distinct keys never share an address.

use vstd::prelude::*;

verus! {

/// Identities (creators, voters) are opaque fixed-width keys of this many bytes.
pub const IDENTITY_LEN: usize = 32;

/// Namespace tag for creator-registry records: the bytes of `"creator_state"`.
pub open spec fn creator_tag() -> Seq<u8> {
    seq![0x63u8, 0x72u8, 0x65u8, 0x61u8, 0x74u8, 0x6fu8, 0x72u8, 0x5fu8, 0x73u8, 0x74u8, 0x61u8, 0x74u8, 0x65u8]
}

/// Namespace tag for proposal records: the bytes of `"proposal"`.
pub open spec fn proposal_tag() -> Seq<u8> {
    seq![0x70u8, 0x72u8, 0x6fu8, 0x70u8, 0x6fu8, 0x73u8, 0x61u8, 0x6cu8]
}

/// Namespace tag for vote-receipt records: the bytes of `"vote"`.
pub open spec fn vote_tag() -> Seq<u8> {
    seq![0x76u8, 0x6fu8, 0x74u8, 0x65u8]
}

/// The four little-endian bytes of a 32-bit proposal index.
pub open spec fn u32_le_bytes(x: u32) -> Seq<u8> {
    seq![
        (x & 0xff) as u8,
        ((x >> 8) & 0xff) as u8,
        ((x >> 16) & 0xff) as u8,
        ((x >> 24) & 0xff) as u8,
    ]
}

/// Address of the registry record of `creator`.
pub open spec fn creator_state_addr(creator: Seq<u8>) -> Seq<u8> {
    creator_tag() + creator
}

/// Address of the proposal record of `creator` at `index`.
pub open spec fn proposal_addr(creator: Seq<u8>, index: u32) -> Seq<u8> {
    proposal_tag() + creator + u32_le_bytes(index)
}

/// Address of the vote receipt of `voter` on the proposal stored at `proposal`.
pub open spec fn vote_addr(proposal: Seq<u8>, voter: Seq<u8>) -> Seq<u8> {
    vote_tag() + proposal + voter
}

fn append_bytes(dst: &mut Vec<u8>, src: &Vec<u8>)
    ensures
        final(dst)@ == old(dst)@ + src@,
{
    let ghost dst0 = dst@;
    let mut i: usize = 0;
    while i < src.len()
        invariant
            i <= src.len(),
            dst@ == dst0 + src@.subrange(0, i as int),
        decreases src.len() - i,
    {
        dst.push(src[i]);
        assert(src@.subrange(0, i as int).push(src@[i as int]) =~= src@.subrange(0, i + 1));
        i = i + 1;
    }
    assert(src@.subrange(0, src@.len() as int) =~= src@);
}

/// Computes `creator_state_addr` on concrete bytes, so that any client can
/// locate a registry record from the public identity alone.
pub fn derive_creator_state_addr(creator: &Vec<u8>) -> (r: Vec<u8>)
    ensures
        r@ == creator_state_addr(creator@),
{
    let mut v: Vec<u8> = Vec::new();
    v.push(0x63);
    v.push(0x72);
    v.push(0x65);
    v.push(0x61);
    v.push(0x74);
    v.push(0x6f);
    v.push(0x72);
    v.push(0x5f);
    v.push(0x73);
    v.push(0x74);
    v.push(0x61);
    v.push(0x74);
    v.push(0x65);
    assert(v@ =~= creator_tag());
    append_bytes(&mut v, creator);
    v
}

/// Computes `proposal_addr` on concrete bytes, so that any client can locate
/// a proposal record from the public identity and the index alone.
pub fn derive_proposal_addr(creator: &Vec<u8>, index: u32) -> (r: Vec<u8>)
    ensures
        r@ == proposal_addr(creator@, index),
{
    let mut v: Vec<u8> = Vec::new();
    v.push(0x70);
    v.push(0x72);
    v.push(0x6f);
    v.push(0x70);
    v.push(0x6f);
    v.push(0x73);
    v.push(0x61);
    v.push(0x6c);
    assert(v@ =~= proposal_tag());
    append_bytes(&mut v, creator);
    let ghost before_index = v@;
    v.push((index & 0xff) as u8);
    v.push(((index >> 8) & 0xff) as u8);
    v.push(((index >> 16) & 0xff) as u8);
    v.push(((index >> 24) & 0xff) as u8);
    assert(v@ =~= before_index + u32_le_bytes(index));
    assert(v@ =~= proposal_addr(creator@, index));
    v
}

/// Computes `vote_addr` on concrete bytes, so that any client can locate a
/// vote receipt from the proposal address and the voter identity alone.
pub fn derive_vote_addr(proposal: &Vec<u8>, voter: &Vec<u8>) -> (r: Vec<u8>)
    ensures
        r@ == vote_addr(proposal@, voter@),
{
    let mut v: Vec<u8> = Vec::new();
    v.push(0x76);
    v.push(0x6f);
    v.push(0x74);
    v.push(0x65);
    assert(v@ =~= vote_tag());
    append_bytes(&mut v, proposal);
    append_bytes(&mut v, voter);
    assert(v@ =~= vote_addr(proposal@, voter@));
    v
}

/// Two distinct creators never share a registry address.
pub proof fn lemma_creator_state_addr_injective(a: Seq<u8>, b: Seq<u8>)
    requires
        creator_state_addr(a) == creator_state_addr(b),
    ensures
        a == b,
{
    assert(creator_state_addr(a).len() == 13 + a.len());
    assert(creator_state_addr(b).len() == 13 + b.len());
    assert forall|i: int| 0 <= i < a.len() implies a[i] == b[i] by {
        assert(creator_state_addr(a)[13 + i] == a[i]);
        assert(creator_state_addr(b)[13 + i] == b[i]);
    }
    assert(a =~= b);
}

/// The little-endian encoding of a 32-bit index is injective.
pub proof fn lemma_u32_le_bytes_injective(a: u32, b: u32)
    requires
        u32_le_bytes(a) == u32_le_bytes(b),
    ensures
        a == b,
{
    assert(u32_le_bytes(a)[0] == u32_le_bytes(b)[0]);
    assert(u32_le_bytes(a)[1] == u32_le_bytes(b)[1]);
    assert(u32_le_bytes(a)[2] == u32_le_bytes(b)[2]);
    assert(u32_le_bytes(a)[3] == u32_le_bytes(b)[3]);
    assert(a == b) by (bit_vector)
        requires
            (a & 0xff) as u8 == (b & 0xff) as u8,
            ((a >> 8) & 0xff) as u8 == ((b >> 8) & 0xff) as u8,
            ((a >> 16) & 0xff) as u8 == ((b >> 16) & 0xff) as u8,
            ((a >> 24) & 0xff) as u8 == ((b >> 24) & 0xff) as u8,
    ;
}

/// Two distinct (creator, index) keys never share a proposal address,
/// provided the creator identities have their fixed width.
pub proof fn lemma_proposal_addr_injective(c1: Seq<u8>, i1: u32, c2: Seq<u8>, i2: u32)
    requires
        c1.len() == c2.len(),
        proposal_addr(c1, i1) == proposal_addr(c2, i2),
    ensures
        c1 == c2,
        i1 == i2,
{
    let n = c1.len() as int;
    assert(proposal_addr(c1, i1).len() == 8 + c1.len() + 4);
    assert(proposal_addr(c2, i2).len() == 8 + c2.len() + 4);
    assert forall|i: int| 0 <= i < n implies c1[i] == c2[i] by {
        assert(proposal_addr(c1, i1)[8 + i] == c1[i]);
        assert(proposal_addr(c2, i2)[8 + i] == c2[i]);
    }
    assert(c1 =~= c2);
    assert forall|i: int| 0 <= i < 4 implies u32_le_bytes(i1)[i] == u32_le_bytes(i2)[i] by {
        assert(proposal_addr(c1, i1)[8 + n + i] == u32_le_bytes(i1)[i]);
        assert(proposal_addr(c2, i2)[8 + n + i] == u32_le_bytes(i2)[i]);
    }
    assert(u32_le_bytes(i1) =~= u32_le_bytes(i2));
    lemma_u32_le_bytes_injective(i1, i2);
}

/// Two distinct (proposal, voter) keys never share a receipt address,
/// provided the voter identities have their fixed width.
pub proof fn lemma_vote_addr_injective(p1: Seq<u8>, v1: Seq<u8>, p2: Seq<u8>, v2: Seq<u8>)
    requires
        v1.len() == v2.len(),
        vote_addr(p1, v1) == vote_addr(p2, v2),
    ensures
        p1 == p2,
        v1 == v2,
{
    let n = p1.len() as int;
    assert(vote_addr(p1, v1).len() == 4 + p1.len() + v1.len());
    assert(vote_addr(p2, v2).len() == 4 + p2.len() + v2.len());
    assert(p1.len() == p2.len());
    assert forall|i: int| 0 <= i < n implies p1[i] == p2[i] by {
        assert(vote_addr(p1, v1)[4 + i] == p1[i]);
        assert(vote_addr(p2, v2)[4 + i] == p2[i]);
    }
    assert(p1 =~= p2);
    assert forall|i: int| 0 <= i < v1.len() implies v1[i] == v2[i] by {
        assert(vote_addr(p1, v1)[4 + n + i] == v1[i]);
        assert(vote_addr(p2, v2)[4 + n + i] == v2[i]);
    }
    assert(v1 =~= v2);
}

} // verus!
