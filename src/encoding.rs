//! Canonical byte encoding, hashing and identifier derivation.
use vstd::prelude::*;

verus! {

/// Little-endian bytes of `v`, `k` of them.
pub open spec fn le_bytes(v: nat, k: nat) -> Seq<u8>
    decreases k,
{
    if k == 0 {
        Seq::empty()
    } else {
        seq![(v % 256) as u8] + le_bytes(v / 256, (k - 1) as nat)
    }
}

/// The compact length prefix of the SCALE codec for a length `n < 2^32`.
pub open spec fn compact_prefix(n: nat) -> Seq<u8> {
    if n < 64 {
        seq![(n * 4) as u8]
    } else if n < 0x4000 {
        le_bytes(n * 4 + 1, 2)
    } else if n < 0x4000_0000 {
        le_bytes(n * 4 + 2, 4)
    } else {
        seq![3u8] + le_bytes(n, 4)
    }
}

/// The SCALE encoding of a byte string: its compact length, then its bytes.
pub open spec fn scale_bytes(s: Seq<u8>) -> Seq<u8> {
    compact_prefix(s.len()) + s
}

/// A byte string whose length the codec can write.
pub open spec fn encodable(s: Seq<u8>) -> bool {
    s.len() <= u32::MAX
}

/// The 256-bit Blake2b digest of `data`.
pub uninterp spec fn blake2_256_of(data: Seq<u8>) -> Seq<u8>;

/// Relies on `Encode::encode` of parity-scale-codec for `Vec<u8>`: the compact
/// length, then the bytes; it panics on a length above `u32::MAX`.
#[verifier::external_body]
fn scale_encode(b: &Vec<u8>) -> (r: Vec<u8>)
    requires
        encodable(b@),
    ensures
        r@ == scale_bytes(b@),
{
    parity_scale_codec::Encode::encode(b)
}

/// Relies on `sp_crypto_hashing::blake2_256`: a 32-byte digest of the input,
/// determined by the input alone.
#[verifier::external_body]
fn blake2_256(data: &Vec<u8>) -> (r: Vec<u8>)
    ensures
        r@ == blake2_256_of(data@),
        r@.len() == 32,
{
    sp_crypto_hashing::blake2_256(data.as_slice()).to_vec()
}

/// The bytes hashed to identify a rating entry: the SCALE encodings of the
/// payload digest, entity, submission token, space and issuer, in that order.
pub open spec fn rating_id_preimage(
    digest: Seq<u8>,
    entity: Seq<u8>,
    token: Seq<u8>,
    space: Seq<u8>,
    issuer: Seq<u8>,
) -> Seq<u8> {
    scale_bytes(digest) + scale_bytes(entity) + scale_bytes(token) + scale_bytes(space)
        + scale_bytes(issuer)
}

/// The kinds of identifier that the ledger hands out.
#[derive(Clone, Copy, Debug, PartialEq, Eq, Structural)]
pub enum IdentifierKind {
    Rating,
    Space,
    Authorization,
}

/// The tag byte that starts an identifier of the given kind.
pub open spec fn kind_tag(kind: IdentifierKind) -> u8 {
    match kind {
        IdentifierKind::Rating => 1u8,
        IdentifierKind::Space => 2u8,
        IdentifierKind::Authorization => 3u8,
    }
}

/// An identifier: the kind's tag followed by the raw digest.
pub open spec fn identifier_of(digest: Seq<u8>, kind: IdentifierKind) -> Seq<u8> {
    seq![kind_tag(kind)] + digest
}

/// The identifier of a rating entry derived from its chain-relevant fields.
pub open spec fn rating_id_of(
    digest: Seq<u8>,
    entity: Seq<u8>,
    token: Seq<u8>,
    space: Seq<u8>,
    issuer: Seq<u8>,
) -> Seq<u8> {
    identifier_of(
        blake2_256_of(rating_id_preimage(digest, entity, token, space, issuer)),
        IdentifierKind::Rating,
    )
}

/// Builds the identifier of the given kind for a raw digest.
pub fn create_identifier(digest: &Vec<u8>, kind: IdentifierKind) -> (r: Vec<u8>)
    ensures
        r@ == identifier_of(digest@, kind),
{
    let tag: u8 = match kind {
        IdentifierKind::Rating => 1u8,
        IdentifierKind::Space => 2u8,
        IdentifierKind::Authorization => 3u8,
    };
    let mut r: Vec<u8> = Vec::new();
    r.push(tag);
    let mut i: usize = 0;
    while i < digest.len()
        invariant
            i <= digest@.len(),
            r@ == seq![tag] + digest@.subrange(0, i as int),
            tag == kind_tag(kind),
        decreases digest@.len() - i,
    {
        r.push(digest[i]);
        i = i + 1;
        assert(r@ =~= seq![tag] + digest@.subrange(0, i as int));
    }
    assert(digest@.subrange(0, digest@.len() as int) =~= digest@);
    r
}

/// The rating identifier for a raw digest.
pub fn generate_rating_id(digest: &Vec<u8>) -> (r: Vec<u8>)
    ensures
        r@ == identifier_of(digest@, IdentifierKind::Rating),
{
    create_identifier(digest, IdentifierKind::Rating)
}

/// The space identifier for a raw digest.
pub fn generate_space_id(digest: &Vec<u8>) -> (r: Vec<u8>)
    ensures
        r@ == identifier_of(digest@, IdentifierKind::Space),
{
    create_identifier(digest, IdentifierKind::Space)
}

/// Appends `src` to `dst`.
fn append_bytes(dst: &mut Vec<u8>, src: &Vec<u8>)
    ensures
        final(dst)@ == old(dst)@ + src@,
{
    let ghost start = dst@;
    let mut i: usize = 0;
    while i < src.len()
        invariant
            i <= src@.len(),
            dst@ == start + src@.subrange(0, i as int),
        decreases src@.len() - i,
    {
        dst.push(src[i]);
        i = i + 1;
        assert(dst@ =~= start + src@.subrange(0, i as int));
    }
    assert(src@.subrange(0, src@.len() as int) =~= src@);
}

/// Derives the identifier of a rating entry from its chain-relevant fields.
pub fn derive_rating_id(
    digest: &Vec<u8>,
    entity: &Vec<u8>,
    token: &Vec<u8>,
    space: &Vec<u8>,
    issuer: &Vec<u8>,
) -> (r: Vec<u8>)
    requires
        encodable(digest@),
        encodable(entity@),
        encodable(token@),
        encodable(space@),
        encodable(issuer@),
    ensures
        r@ == rating_id_of(digest@, entity@, token@, space@, issuer@),
{
    let mut pre = scale_encode(digest);
    let e = scale_encode(entity);
    append_bytes(&mut pre, &e);
    let t = scale_encode(token);
    append_bytes(&mut pre, &t);
    let s = scale_encode(space);
    append_bytes(&mut pre, &s);
    let i = scale_encode(issuer);
    append_bytes(&mut pre, &i);
    assert(pre@ == rating_id_preimage(digest@, entity@, token@, space@, issuer@));
    let h = blake2_256(&pre);
    generate_rating_id(&h)
}

} // verus!
