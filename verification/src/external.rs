//! Trusted interfaces to `solana_program`, `mpl_token_metadata` and the
//! parts of std's `Hasher` that vstd leaves unspecified.
//!
//! Nothing in this file is proved: each contract below is believed as
//! written, and its doc comment says what it claims of the outside code.
use anchor_lang::prelude::Pubkey;
use anchor_lang::solana_program::keccak;
use anchor_spl::metadata::mpl_token_metadata;
use std::collections::hash_map::DefaultHasher;
use std::hash::Hasher;
use vstd::prelude::*;

verus! {

/// The Keccak-256 digest that `solana_program::keccak::hashv` computes over
/// a list of byte strings.
pub uninterp spec fn keccak_hashv(vals: Seq<Seq<u8>>) -> Seq<u8>;

/// Calls `solana_program::keccak::hashv(&[left, right])`. Claimed: the
/// 32-byte digest is `keccak_hashv` of the two byte strings, in that order.
#[verifier::external_body]
pub(crate) fn hashv_pair(left: &[u8], right: &[u8]) -> (digest: [u8; 32])
    ensures
        digest@ == keccak_hashv(seq![left@, right@]),
{
    keccak::hashv(&[left, right]).to_bytes()
}

/// The address and bump seed that `Pubkey::try_find_program_address`
/// derives from a list of seeds and a program id, or `None` where it finds
/// none.
pub uninterp spec fn program_address(seeds: Seq<Seq<u8>>, program_id: Seq<u8>) -> Option<(Seq<u8>, u8)>;

/// The byte strings that a list of seeds holds.
pub open spec fn seed_views(seeds: Seq<Vec<u8>>) -> Seq<Seq<u8>> {
    seeds.map_values(|s: Vec<u8>| s@)
}

/// A derived address and its bump, with the key taken by its bytes.
pub open spec fn address_view(r: Option<([u8; 32], u8)>) -> Option<(Seq<u8>, u8)> {
    match r {
        Some(p) => Some((p.0@, p.1)),
        None => None,
    }
}

/// Calls `Pubkey::try_find_program_address(seeds, program_id)`, which
/// returns `None` instead of panicking where no bump seed gives an address
/// off the curve, or where there are too many seeds or a seed is too long.
/// Claimed: the result, the key taken by its bytes, is `program_address` of
/// the seeds and the program id.
#[verifier::external_body]
pub(crate) fn try_find_program_address(seeds: &Vec<Vec<u8>>, program_id: &[u8; 32]) -> (r: Option<
    ([u8; 32], u8),
>)
    ensures
        address_view(r) == program_address(seed_views(seeds@), program_id@),
{
    let refs: Vec<&[u8]> = seeds.iter().map(Vec::as_slice).collect();
    Pubkey::try_find_program_address(&refs, &Pubkey::new_from_array(*program_id)).map(
        |(key, bump)| (key.to_bytes(), bump),
    )
}

/// The bytes of the token metadata program's id,
/// `metaqbxxUerdq28cj1RbAWkYQm3ybzjb6a8bt518x1s` decoded from base 58.
pub open spec fn metadata_program_id_bytes() -> Seq<u8> {
    seq![
        11u8, 112u8, 101u8, 177u8, 227u8, 209u8, 124u8, 69u8, 56u8, 157u8, 82u8, 127u8, 107u8,
        4u8, 195u8, 205u8, 88u8, 184u8, 108u8, 115u8, 26u8, 160u8, 253u8, 181u8, 73u8, 182u8,
        209u8, 188u8, 3u8, 248u8, 41u8, 70u8,
    ]
}

/// Reads `mpl_token_metadata::programs::MPL_TOKEN_METADATA_ID`. Claimed: its
/// bytes are those of `metadata_program_id_bytes`, the decoding of the
/// base-58 string that the crate's source declares it with.
#[verifier::external_body]
pub(crate) fn metadata_program_id() -> (id: [u8; 32])
    ensures
        id@ == metadata_program_id_bytes(),
{
    mpl_token_metadata::programs::MPL_TOKEN_METADATA_ID.to_bytes()
}

/// Reads `mpl_token_metadata::EDITION_MARKER_BIT_SIZE`, which the crate's
/// source declares as 248: the number of editions that one edition marker
/// account records.
#[verifier::external_body]
pub(crate) fn edition_marker_bit_size() -> (n: u64)
    ensures
        n == 248,
{
    mpl_token_metadata::EDITION_MARKER_BIT_SIZE
}

#[verifier::external_type_specification]
#[verifier::external_body]
pub struct ExIoError(std::io::Error);

/// The fields of a print edition's account that the program reads.
#[derive(Clone, Copy, Debug, PartialEq, Eq)]
pub struct EditionRecord {
    /// The master edition this edition was printed from.
    pub parent: [u8; 32],
    /// The edition's number.
    pub edition: u64,
}

/// The number that eight bytes encode in little-endian order.
pub open spec fn le_value(bytes: Seq<u8>) -> int
    decreases bytes.len(),
{
    if bytes.len() == 0 {
        0
    } else {
        bytes[0] + 256 * le_value(bytes.drop_first())
    }
}

/// Calls `mpl_token_metadata::accounts::Edition::from_bytes(data)`, a Borsh
/// decoding of a one-byte account kind (one of the 14 variants of `Key`), a
/// 32-byte parent key and a little-endian `u64` edition number; bytes after
/// the first 41 are ignored. Claimed: it succeeds exactly when `data` has at
/// least 41 bytes and its first byte names a variant, and then returns the
/// parent and edition found at those places.
#[verifier::external_body]
pub(crate) fn edition_from_bytes(data: &[u8]) -> (r: Result<EditionRecord, std::io::Error>)
    ensures
        r is Ok <==> (data@.len() >= 41 && data@[0] < 14),
        r matches Ok(e) ==> {
            &&& e.parent@ == data@.subrange(1, 33)
            &&& e.edition as int == le_value(data@.subrange(33, 41))
        },
{
    mpl_token_metadata::accounts::Edition::from_bytes(data).map(
        |e| EditionRecord { parent: e.parent.to_bytes(), edition: e.edition },
    )
}

/// The state a `DefaultHasher` is left in by `Hasher::write_u64` of
/// `value`, from the state `state`.
pub uninterp spec fn hasher_after_u64(state: Seq<Seq<u8>>, value: u64) -> Seq<Seq<u8>>;

/// Calls `Hasher::write_u64` on a `DefaultHasher`. Claimed: the state it
/// leaves is `hasher_after_u64` of the state before and the value; which
/// bytes it feeds the hasher is left unsaid, as std's documentation says
/// only that it writes the value into the hasher.
#[verifier::external_body]
pub(crate) fn hasher_write_u64(hasher: &mut DefaultHasher, value: u64)
    ensures
        final(hasher)@ == hasher_after_u64(old(hasher)@, value),
{
    hasher.write_u64(value)
}

/// The state a `DefaultHasher` is left in by `Hasher::write_i64` of
/// `value`, from the state `state`.
pub uninterp spec fn hasher_after_i64(state: Seq<Seq<u8>>, value: i64) -> Seq<Seq<u8>>;

/// Calls `Hasher::write_i64` on a `DefaultHasher`. Claimed: the state it
/// leaves is `hasher_after_i64` of the state before and the value; which
/// bytes it feeds the hasher is left unsaid, as std's documentation says
/// only that it writes the value into the hasher.
#[verifier::external_body]
pub(crate) fn hasher_write_i64(hasher: &mut DefaultHasher, value: i64)
    ensures
        final(hasher)@ == hasher_after_i64(old(hasher)@, value),
{
    hasher.write_i64(value)
}

} // verus!
