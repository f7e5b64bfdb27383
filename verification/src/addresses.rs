//! Seeds and derived addresses: the program's own seed words and the
//! token metadata program's metadata, master edition and edition marker
//! accounts.
use vstd::prelude::*;
use vstd::slice::slice_to_vec;
use vstd::string::StringSliceAdditionalSpecFns;

use crate::external::{
    address_view, edition_marker_bit_size, metadata_program_id, metadata_program_id_bytes,
    program_address, seed_views, try_find_program_address,
};

verus! {

pub const MPL_PREFIX: &'static str = "metadata";

pub const MPL_EDITION: &'static str = "edition";

pub const STATE: &'static str = "state";

pub const MVB: &'static str = "mvb";

pub const MINT: &'static str = "mint";

pub const LOCK: &'static str = "lock";

pub const COLLECTION: &'static str = "WMC";

/// The ASCII bytes of "metadata".
pub open spec fn prefix_seed() -> Seq<u8> {
    seq![109u8, 101u8, 116u8, 97u8, 100u8, 97u8, 116u8, 97u8]
}

/// The ASCII bytes of "edition".
pub open spec fn edition_seed() -> Seq<u8> {
    seq![101u8, 100u8, 105u8, 116u8, 105u8, 111u8, 110u8]
}

/// The decimal digits of `n`, in ASCII, most significant first.
pub open spec fn decimal(n: nat) -> Seq<u8>
    decreases n,
{
    if n < 10 {
        seq![(n + 48) as u8]
    } else {
        decimal(n / 10).push((n % 10 + 48) as u8)
    }
}

/// Ten to the power `k`.
pub open spec fn pow10(k: nat) -> nat
    decreases k,
{
    if k == 0 {
        1
    } else {
        10 * pow10((k - 1) as nat)
    }
}

/// A number below `10^k` has at most `k` decimal digits.
proof fn lemma_decimal_len(n: nat, k: nat)
    requires
        n < pow10(k),
        k >= 1,
    ensures
        decimal(n).len() <= k,
    decreases n,
{
    if n >= 10 {
        if k == 1 {
            assert(pow10(1) == 10) by {
                reveal_with_fuel(pow10, 2);
            }
        } else {
            let p = pow10((k - 1) as nat);
            assert(n / 10 < p) by (nonlinear_arith)
                requires
                    n < 10 * p,
            ;
            lemma_decimal_len(n / 10, (k - 1) as nat);
        }
    }
}

/// The decimal digits of `n` in ASCII, as `n.to_string()` writes them.
pub fn u64_to_decimal(n: u64) -> (digits: Vec<u8>)
    ensures
        digits@ == decimal(n as nat),
        digits@.len() <= 20,
    decreases n,
{
    proof {
        reveal_with_fuel(pow10, 21);
        assert(n < pow10(20));
        lemma_decimal_len(n as nat, 20);
    }
    if n < 10 {
        vec![(n as u8) + 48]
    } else {
        let mut digits = u64_to_decimal(n / 10);
        digits.push(((n % 10) as u8) + 48);
        digits
    }
}

/// The seeds of a mint's metadata account.
pub open spec fn metadata_seeds(mint: Seq<u8>) -> Seq<Seq<u8>> {
    seq![prefix_seed(), metadata_program_id_bytes(), mint]
}

/// The seeds of a mint's master edition account.
pub open spec fn master_edition_seeds(mint: Seq<u8>) -> Seq<Seq<u8>> {
    seq![prefix_seed(), metadata_program_id_bytes(), mint, edition_seed()]
}

/// The seeds of the edition marker account that records edition
/// `edition_number` of a master mint: one marker per 248 editions.
pub open spec fn edition_marker_seeds(mint: Seq<u8>, edition_number: u64) -> Seq<Seq<u8>> {
    seq![
        prefix_seed(),
        metadata_program_id_bytes(),
        mint,
        edition_seed(),
        decimal((edition_number / 248) as nat),
    ]
}

/// The ASCII bytes of a seed word.
fn seed_bytes(word: &str) -> (bytes: Vec<u8>)
    ensures
        bytes@ == word.spec_bytes(),
{
    slice_to_vec(word.as_bytes())
}

/// The bytes "metadata".
fn prefix_bytes() -> (bytes: Vec<u8>)
    ensures
        bytes@ == prefix_seed(),
{
    proof {
        reveal_strlit("metadata");
        vstd::string::is_ascii_spec_bytes(MPL_PREFIX);
    }
    let bytes = seed_bytes(MPL_PREFIX);
    assert(bytes@ =~= prefix_seed());
    bytes
}

/// The bytes "edition".
fn edition_bytes() -> (bytes: Vec<u8>)
    ensures
        bytes@ == edition_seed(),
{
    proof {
        reveal_strlit("edition");
        vstd::string::is_ascii_spec_bytes(MPL_EDITION);
    }
    let bytes = seed_bytes(MPL_EDITION);
    assert(bytes@ =~= edition_seed());
    bytes
}

/// The address and bump of the edition marker account for edition
/// `edition_number` of the master mint `mint`, or `None` where no bump seed
/// gives one.
pub fn find_edition_account(mint: &[u8; 32], edition_number: u64) -> (r: Option<([u8; 32], u8)>)
    ensures
        address_view(r) == program_address(
            edition_marker_seeds(mint@, edition_number),
            metadata_program_id_bytes(),
        ),
{
    let program_id = metadata_program_id();
    let marker = edition_number.checked_div(edition_marker_bit_size()).unwrap();
    let seeds: Vec<Vec<u8>> = vec![
        prefix_bytes(),
        slice_to_vec(program_id.as_slice()),
        slice_to_vec(mint.as_slice()),
        edition_bytes(),
        u64_to_decimal(marker),
    ];
    assert(seed_views(seeds@) =~= edition_marker_seeds(mint@, edition_number));
    try_find_program_address(&seeds, &program_id)
}

/// The address and bump of the master edition account of `mint`, or `None`
/// where no bump seed gives one.
pub fn find_master_edition_account(mint: &[u8; 32]) -> (r: Option<([u8; 32], u8)>)
    ensures
        address_view(r) == program_address(master_edition_seeds(mint@), metadata_program_id_bytes()),
{
    let program_id = metadata_program_id();
    let seeds: Vec<Vec<u8>> = vec![
        prefix_bytes(),
        slice_to_vec(program_id.as_slice()),
        slice_to_vec(mint.as_slice()),
        edition_bytes(),
    ];
    assert(seed_views(seeds@) =~= master_edition_seeds(mint@));
    try_find_program_address(&seeds, &program_id)
}

/// The address and bump of the metadata account of `mint`, or `None` where
/// no bump seed gives one.
pub fn find_metadata_account(mint: &[u8; 32]) -> (r: Option<([u8; 32], u8)>)
    ensures
        address_view(r) == program_address(metadata_seeds(mint@), metadata_program_id_bytes()),
{
    let program_id = metadata_program_id();
    let seeds: Vec<Vec<u8>> = vec![
        prefix_bytes(),
        slice_to_vec(program_id.as_slice()),
        slice_to_vec(mint.as_slice()),
    ];
    assert(seed_views(seeds@) =~= metadata_seeds(mint@));
    try_find_program_address(&seeds, &program_id)
}

/// Editions in the same block of 248 are recorded by the same edition
/// marker account.
pub proof fn lemma_same_edition_marker(mint: Seq<u8>, first: u64, second: u64)
    requires
        first / 248 == second / 248,
    ensures
        program_address(edition_marker_seeds(mint, first), metadata_program_id_bytes())
            == program_address(edition_marker_seeds(mint, second), metadata_program_id_bytes()),
{
}

} // verus!
