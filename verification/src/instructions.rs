//! What each instruction of the program decides and writes into its
//! accounts. The accounts are loaded and stored, and the token and metadata
//! programs are invoked, around these functions; each function gives back
//! the values those invocations need.
//!
//! On an error the instruction fails and the runtime discards every account
//! write; the functions below still state what they wrote before failing.
use std::collections::hash_map::DefaultHasher;
use std::hash::Hasher;
use vstd::prelude::*;
use vstd::std_specs::hash::DefaultHasherAdditionalSpecFns;

use crate::accounts::{
    keys_equal, lock_duration_after, lock_duration_computable, zero_key, AppErrorCode, Clock, MvbAccount, MvbEditionAccount,
    MvbUserAccount, NftLockAccount, StateAccount, UserAccount,
};
use crate::external::{
    edition_from_bytes, hasher_after_i64, hasher_after_u64, hasher_write_i64, hasher_write_u64,
    hashv_pair, keccak_hashv, le_value,
};
use crate::honey::{draw_honey_drops, drop_total, remains_after_draws, sum_drops};
use crate::merkle_proof::{merkle_root, verify};

verus! {

/// Four zero counts.
pub open spec fn zero_counts(a: Seq<u64>) -> bool {
    a == seq![0u64, 0u64, 0u64, 0u64]
}

/// Thirty-two zero bytes.
pub open spec fn zero_bytes(k: Seq<u8>) -> bool {
    k.len() == 32 && forall|i: int| 0 <= i < 32 ==> k[i] == 0
}

// ---------------------------------------------------------------------------
// Users

/// A new user record: the user's key, every count zero.
pub fn init_user(authority: &[u8; 32]) -> (user: UserAccount)
    ensures
        user.authority == *authority,
        user.num_minted == 0,
        user.lp_staked_amount == 0,
        user.lp_staked_value == 0,
        user.lp_staked_time == 0,
        zero_counts(user.honey_drops@),
{
    let user = UserAccount {
        authority: *authority,
        num_minted: 0,
        lp_staked_amount: 0,
        lp_staked_value: 0,
        lp_staked_time: 0,
        honey_drops: [0u64; 4],
    };
    assert(user.honey_drops@ =~= seq![0u64, 0u64, 0u64, 0u64]);
    user
}

/// A new record of a user for one master NFT: the user's key and the
/// master's account key, no mints yet.
pub fn init_mvb_user(authority: &[u8; 32], mvb: &[u8; 32]) -> (user: MvbUserAccount)
    ensures
        user == (MvbUserAccount {
            authority: *authority,
            mvb: *mvb,
            airdrop_num_minted: 0,
            num_minted: 0,
        }),
{
    MvbUserAccount { authority: *authority, mvb: *mvb, airdrop_num_minted: 0, num_minted: 0 }
}

// ---------------------------------------------------------------------------
// Program state

/// The accounts that the program state records when it is created.
#[derive(Clone, Copy, Debug, PartialEq, Eq)]
pub struct StateKeys {
    pub authority: [u8; 32],
    pub service: [u8; 32],
    pub lp_mint: [u8; 32],
    pub lp_vault: [u8; 32],
    pub usd_mint: [u8; 32],
    pub wag_mint: [u8; 32],
    pub lp_usd_vault: [u8; 32],
    pub lp_wag_vault: [u8; 32],
}

/// The new program state. The harvest end time given here is not recorded:
/// it stays zero until `set_state_config` sets it.
pub fn create_state(
    keys: &StateKeys,
    total_supply: u64,
    user_max_mint: u64,
    lock_duration: i64,
    honey_drop_cycle: i64,
    mint_end_time: i64,
    drop_harvest_end_time: i64,
    honey_drops: [u64; 4],
) -> (state: StateAccount)
    ensures
        state.authority == keys.authority,
        state.service == keys.service,
        state.lp_mint == keys.lp_mint,
        state.lp_vault == keys.lp_vault,
        state.usd_mint == keys.usd_mint,
        state.wag_mint == keys.wag_mint,
        state.lp_usd_vault == keys.lp_usd_vault,
        state.lp_wag_vault == keys.lp_wag_vault,
        state.total_supply == total_supply,
        state.num_minted == 0,
        state.user_max_mint == user_max_mint,
        state.lock_duration == lock_duration,
        state.mint_end_time == mint_end_time,
        state.harvest_drop_end_time == 0,
        state.honey_drop_cycle == honey_drop_cycle,
        state.honey_drop_remains == honey_drops,
        zero_counts(state.honey_drop_values@),
{
    let state = StateAccount {
        authority: keys.authority,
        service: keys.service,
        lp_mint: keys.lp_mint,
        lp_vault: keys.lp_vault,
        wag_mint: keys.wag_mint,
        lp_wag_vault: keys.lp_wag_vault,
        usd_mint: keys.usd_mint,
        lp_usd_vault: keys.lp_usd_vault,
        total_supply,
        num_minted: 0,
        user_max_mint,
        lock_duration,
        mint_end_time,
        harvest_drop_end_time: 0,
        honey_drop_cycle,
        honey_drop_remains: honey_drops,
        honey_drop_values: [0u64; 4],
    };
    assert(state.honey_drop_values@ =~= seq![0u64, 0u64, 0u64, 0u64]);
    state
}

/// The value an optional setting leaves a field with.
pub open spec fn updated<T>(setting: Option<T>, current: T) -> T {
    match setting {
        Some(v) => v,
        None => current,
    }
}

/// Overwrites each setting that is given and keeps the others.
pub fn set_state_config(
    state: &mut StateAccount,
    total_supply: Option<u64>,
    user_max_mint: Option<u64>,
    lock_duration: Option<i64>,
    honey_drop_cycle: Option<i64>,
    mint_end_time: Option<i64>,
    drop_harvest_end_time: Option<i64>,
    honey_drops: Option<[u64; 4]>,
)
    ensures
        *final(state) == (StateAccount {
            total_supply: updated(total_supply, old(state).total_supply),
            user_max_mint: updated(user_max_mint, old(state).user_max_mint),
            lock_duration: updated(lock_duration, old(state).lock_duration),
            honey_drop_cycle: updated(honey_drop_cycle, old(state).honey_drop_cycle),
            mint_end_time: updated(mint_end_time, old(state).mint_end_time),
            harvest_drop_end_time: updated(drop_harvest_end_time, old(state).harvest_drop_end_time),
            honey_drop_remains: updated(honey_drops, old(state).honey_drop_remains),
            ..*old(state)
        }),
{
    if let Some(v) = total_supply {
        state.total_supply = v;
    }
    if let Some(v) = user_max_mint {
        state.user_max_mint = v;
    }
    if let Some(v) = lock_duration {
        state.lock_duration = v;
    }
    if let Some(v) = honey_drop_cycle {
        state.honey_drop_cycle = v;
    }
    if let Some(v) = mint_end_time {
        state.mint_end_time = v;
    }
    if let Some(v) = drop_harvest_end_time {
        state.harvest_drop_end_time = v;
    }
    if let Some(v) = honey_drops {
        state.honey_drop_remains = v;
    }
}

// ---------------------------------------------------------------------------
// Master NFTs, their metadata and the collection

/// A creator listed in an NFT's metadata.
#[derive(Clone, Copy, Debug, PartialEq, Eq)]
pub struct Creator {
    pub address: [u8; 32],
    pub verified: bool,
    pub share: u8,
}

/// The metadata and master edition that the token metadata program is asked
/// to create for a new NFT.
#[derive(Clone, Debug)]
pub struct NftMetadata {
    pub name: String,
    pub symbol: String,
    pub uri: String,
    pub seller_fee_basis_points: u16,
    pub creators: Option<Vec<Creator>>,
    pub is_mutable: bool,
    pub update_authority_is_signer: bool,
    /// The size of the collection this NFT heads, if it heads one.
    pub collection_size: Option<u64>,
    /// The most prints the master edition allows.
    pub max_supply: Option<u64>,
}

/// A new master NFT: its record, and its metadata with a 1% seller fee, the
/// signing authority as unverified sole creator, and at most
/// `total_supply` prints.
pub fn mint_master_nft(
    mint: &[u8; 32],
    authority: &[u8; 32],
    name: String,
    symbol: String,
    uri: String,
    total_supply: u64,
    lp_value_price: u64,
) -> (r: (MvbAccount, NftMetadata))
    ensures
        r.0.mint == *mint,
        zero_bytes(r.0.airdrop_root@),
        r.0.total_supply == total_supply,
        r.0.num_minted == 0,
        r.0.lp_value_price == lp_value_price,
        r.0.num_honey_drop_per_cycle == 0,
        r.1.name@ == name@,
        r.1.symbol@ == symbol@,
        r.1.uri@ == uri@,
        r.1.seller_fee_basis_points == 100,
        r.1.creators matches Some(cs) && cs@ == seq![
            Creator { address: *authority, verified: false, share: 100 },
        ],
        r.1.is_mutable,
        r.1.update_authority_is_signer,
        r.1.collection_size is None,
        r.1.max_supply == Some(total_supply),
{
    let mvb = MvbAccount {
        mint: *mint,
        airdrop_root: zero_key(),
        total_supply,
        num_minted: 0,
        lp_value_price,
        num_honey_drop_per_cycle: 0,
    };
    let creators = vec![Creator { address: *authority, verified: false, share: 100 }];
    let metadata = NftMetadata {
        name,
        symbol,
        uri,
        seller_fee_basis_points: 100,
        creators: Some(creators),
        is_mutable: true,
        update_authority_is_signer: true,
        collection_size: None,
        max_supply: Some(total_supply),
    };
    (mvb, metadata)
}

/// The collection NFT's metadata: no seller fee, no creators, sized to the
/// program's total supply, and a master edition that allows no prints.
pub fn create_collection(state: &StateAccount, name: String, symbol: String, uri: String) -> (r:
    NftMetadata)
    ensures
        r.name@ == name@,
        r.symbol@ == symbol@,
        r.uri@ == uri@,
        r.seller_fee_basis_points == 0,
        r.creators is None,
        r.is_mutable,
        r.update_authority_is_signer,
        r.collection_size == Some(state.total_supply),
        r.max_supply == Some(0u64),
{
    NftMetadata {
        name,
        symbol,
        uri,
        seller_fee_basis_points: 0,
        creators: None,
        is_mutable: true,
        update_authority_is_signer: true,
        collection_size: Some(state.total_supply),
        max_supply: Some(0),
    }
}

/// Overwrites the airdrop root and the honey drops per cycle where given.
pub fn set_mvb_config(
    mvb: &mut MvbAccount,
    airdrop_root: Option<[u8; 32]>,
    num_honey_drop_per_cycle: Option<u64>,
)
    ensures
        *final(mvb) == (MvbAccount {
            airdrop_root: updated(airdrop_root, old(mvb).airdrop_root),
            num_honey_drop_per_cycle: updated(
                num_honey_drop_per_cycle,
                old(mvb).num_honey_drop_per_cycle,
            ),
            ..*old(mvb)
        }),
{
    if let Some(root) = airdrop_root {
        mvb.airdrop_root = root;
    }
    if let Some(n) = num_honey_drop_per_cycle {
        mvb.num_honey_drop_per_cycle = n;
    }
}

/// Marks a printed edition as added to the collection.
pub fn add_to_collection(edition: &mut MvbEditionAccount)
    ensures
        *final(edition) == (MvbEditionAccount { added_to_collection: 1, ..*old(edition) }),
{
    edition.added_to_collection = 1;
}

// ---------------------------------------------------------------------------
// Minting editions

/// Whether minting is closed at `now` or no print is left.
pub open spec fn mint_error(state: StateAccount, mvb: MvbAccount, now: i64) -> Option<AppErrorCode> {
    if now > state.mint_end_time {
        Some(AppErrorCode::MintEnded)
    } else if mvb.num_minted >= mvb.total_supply || state.num_minted >= state.total_supply {
        Some(AppErrorCode::ExceededTotalSupply)
    } else {
        None
    }
}

/// What a successful print leaves: both counters one higher and a new
/// edition record numbered after the master's count.
pub open spec fn minted(
    state0: StateAccount,
    mvb0: MvbAccount,
    state1: StateAccount,
    mvb1: MvbAccount,
    edition: MvbEditionAccount,
    new_mint: [u8; 32],
    mvb_key: [u8; 32],
) -> bool {
    &&& state1 == (StateAccount { num_minted: (state0.num_minted + 1) as u64, ..state0 })
    &&& mvb1 == (MvbAccount { num_minted: (mvb0.num_minted + 1) as u64, ..mvb0 })
    &&& edition.mint == new_mint
    &&& edition.mvb == mvb_key
    &&& edition.index == mvb1.num_minted
    &&& zero_bytes(edition.metadata@)
    &&& edition.added_to_collection == 0
    &&& forall|i: int| 0 <= i < 15 ==> zero_bytes(#[trigger] edition.data@[i]@)
}

/// Prints one edition of the master NFT: fails with `MintEnded` after the
/// mint end time and with `ExceededTotalSupply` when the master or the
/// program has no print left, changing nothing; otherwise counts the print
/// and returns the new edition's record, whose `index` is the edition
/// number to print.
pub fn mint_nft(
    state: &mut StateAccount,
    mvb: &mut MvbAccount,
    new_mint: &[u8; 32],
    mvb_key: &[u8; 32],
    clock: &Clock,
) -> (r: Result<MvbEditionAccount, AppErrorCode>)
    ensures
        mint_error(*old(state), *old(mvb), clock.unix_timestamp) matches Some(e) ==> {
            &&& r == Err::<MvbEditionAccount, AppErrorCode>(e)
            &&& *final(state) == *old(state)
            &&& *final(mvb) == *old(mvb)
        },
        mint_error(*old(state), *old(mvb), clock.unix_timestamp) is None ==> (r matches Ok(
            edition,
        ) && minted(*old(state), *old(mvb), *final(state), *final(mvb), edition, *new_mint, *mvb_key)),
{
    if clock.unix_timestamp > state.mint_end_time {
        return Err(AppErrorCode::MintEnded);
    }
    if mvb.num_minted >= mvb.total_supply || state.num_minted >= state.total_supply {
        return Err(AppErrorCode::ExceededTotalSupply);
    }
    state.num_minted = state.num_minted + 1;
    mvb.num_minted = mvb.num_minted + 1;

    let edition = MvbEditionAccount {
        mint: *new_mint,
        metadata: zero_key(),
        mvb: *mvb_key,
        index: mvb.num_minted,
        added_to_collection: 0,
        data: [[0u8; 32]; 15],
    };
    Ok(edition)
}

/// The little-endian bytes of `x`.
pub open spec fn le_bytes(x: u64) -> Seq<u8> {
    seq![
        x as u8,
        (x >> 8) as u8,
        (x >> 16) as u8,
        (x >> 24) as u8,
        (x >> 32) as u8,
        (x >> 40) as u8,
        (x >> 48) as u8,
        (x >> 56) as u8,
    ]
}

/// The little-endian bytes of `x`, as `x.to_le_bytes()` gives them.
pub fn u64_le_bytes(x: u64) -> (bytes: [u8; 8])
    ensures
        bytes@ == le_bytes(x),
{
    let bytes = [
        x as u8,
        (x >> 8) as u8,
        (x >> 16) as u8,
        (x >> 24) as u8,
        (x >> 32) as u8,
        (x >> 40) as u8,
        (x >> 48) as u8,
        (x >> 56) as u8,
    ];
    assert(bytes@ =~= le_bytes(x));
    bytes
}

/// The leaf that an airdrop allowance of `amount` to `authority` is
/// recorded under: the Keccak hash of the key followed by the amount.
pub open spec fn airdrop_leaf(authority: Seq<u8>, amount: u64) -> Seq<u8> {
    keccak_hashv(seq![authority, le_bytes(amount)])
}

/// What a successful airdrop print requires and does to the user's record:
/// the user had used fewer than `amount` airdrop prints, the proof leads
/// from the user's leaf for `amount` to `root`, and the count of airdrop
/// prints grows by one.
pub open spec fn airdrop_printed(
    user0: MvbUserAccount,
    user1: MvbUserAccount,
    authority: Seq<u8>,
    amount: u64,
    proof: Seq<Seq<u8>>,
    root: Seq<u8>,
) -> bool {
    &&& user0.airdrop_num_minted < amount
    &&& user1 == (MvbUserAccount {
        airdrop_num_minted: (user0.airdrop_num_minted + 1) as u64,
        ..user0
    })
    &&& merkle_root(airdrop_leaf(authority, amount), proof) == root
}

/// Prints one edition against an airdrop allowance. Fails with
/// `ExceededUserAirdrop`, changing nothing, when the user has already used
/// `airdrop_amount` prints; otherwise counts the airdrop print, then fails
/// with `InvalidMerkleProof` unless the proof leads from the user's leaf to
/// the master's airdrop root, and then prints as `mint_nft` does.
pub fn mint_nft_airdrop(
    state: &mut StateAccount,
    mvb: &mut MvbAccount,
    mvb_user: &mut MvbUserAccount,
    authority: &[u8; 32],
    airdrop_amount: u64,
    proof: Vec<[u8; 32]>,
    new_mint: &[u8; 32],
    mvb_key: &[u8; 32],
    clock: &Clock,
) -> (r: Result<MvbEditionAccount, AppErrorCode>)
    ensures
        final(mvb_user).airdrop_num_minted != old(mvb_user).airdrop_num_minted
            ==> final(mvb_user).airdrop_num_minted <= airdrop_amount,
        r is Ok ==> airdrop_printed(
            *old(mvb_user),
            *final(mvb_user),
            authority@,
            airdrop_amount,
            proof.deep_view(),
            old(mvb).airdrop_root@,
        ),
        old(mvb_user).airdrop_num_minted >= airdrop_amount ==> {
            &&& r == Err::<MvbEditionAccount, AppErrorCode>(AppErrorCode::ExceededUserAirdrop)
            &&& *final(mvb_user) == *old(mvb_user)
            &&& *final(state) == *old(state)
            &&& *final(mvb) == *old(mvb)
        },
        old(mvb_user).airdrop_num_minted < airdrop_amount ==> {
            &&& *final(mvb_user) == (MvbUserAccount {
                airdrop_num_minted: (old(mvb_user).airdrop_num_minted + 1) as u64,
                ..*old(mvb_user)
            })
            &&& merkle_root(airdrop_leaf(authority@, airdrop_amount), proof.deep_view())
                != old(mvb).airdrop_root@ ==> {
                &&& r == Err::<MvbEditionAccount, AppErrorCode>(AppErrorCode::InvalidMerkleProof)
                &&& *final(state) == *old(state)
                &&& *final(mvb) == *old(mvb)
            }
            &&& merkle_root(airdrop_leaf(authority@, airdrop_amount), proof.deep_view())
                == old(mvb).airdrop_root@ ==> {
                &&& mint_error(*old(state), *old(mvb), clock.unix_timestamp) matches Some(e) ==> {
                    &&& r == Err::<MvbEditionAccount, AppErrorCode>(e)
                    &&& *final(state) == *old(state)
                    &&& *final(mvb) == *old(mvb)
                }
                &&& mint_error(*old(state), *old(mvb), clock.unix_timestamp) is None ==> (r matches Ok(
                    edition,
                ) && minted(
                    *old(state),
                    *old(mvb),
                    *final(state),
                    *final(mvb),
                    edition,
                    *new_mint,
                    *mvb_key,
                ))
            }
        },
{
    if mvb_user.airdrop_num_minted >= airdrop_amount {
        return Err(AppErrorCode::ExceededUserAirdrop);
    }
    mvb_user.airdrop_num_minted = mvb_user.airdrop_num_minted + 1;

    let amount_bytes = u64_le_bytes(airdrop_amount);
    let node = hashv_pair(authority, &amount_bytes);
    if !verify(proof, mvb.airdrop_root, node) {
        return Err(AppErrorCode::InvalidMerkleProof);
    }
    mint_nft(state, mvb, new_mint, mvb_key, clock)
}

/// Prints one edition paid for with staked LP value. Fails with
/// `ExceededUserMaxMint` when the user has used the per-user allowance and
/// with `Insufficient` when the staked value is below the master's price,
/// changing nothing; otherwise counts the print and charges the price, then
/// prints as `mint_nft` does.
pub fn mint_nft_from_staked_lp(
    state: &mut StateAccount,
    mvb: &mut MvbAccount,
    user: &mut UserAccount,
    new_mint: &[u8; 32],
    mvb_key: &[u8; 32],
    clock: &Clock,
) -> (r: Result<MvbEditionAccount, AppErrorCode>)
    ensures
        final(user).num_minted != old(user).num_minted
            ==> final(user).num_minted <= old(state).user_max_mint,
        old(user).num_minted >= old(state).user_max_mint ==> {
            &&& r == Err::<MvbEditionAccount, AppErrorCode>(AppErrorCode::ExceededUserMaxMint)
            &&& *final(user) == *old(user)
            &&& *final(state) == *old(state)
            &&& *final(mvb) == *old(mvb)
        },
        old(user).num_minted < old(state).user_max_mint && old(user).lp_staked_value < old(
            mvb,
        ).lp_value_price ==> {
            &&& r == Err::<MvbEditionAccount, AppErrorCode>(AppErrorCode::Insufficient)
            &&& *final(user) == *old(user)
            &&& *final(state) == *old(state)
            &&& *final(mvb) == *old(mvb)
        },
        old(user).num_minted < old(state).user_max_mint && old(user).lp_staked_value >= old(
            mvb,
        ).lp_value_price ==> {
            &&& *final(user) == (UserAccount {
                num_minted: (old(user).num_minted + 1) as u64,
                lp_staked_value: (old(user).lp_staked_value - old(mvb).lp_value_price) as u64,
                ..*old(user)
            })
            &&& mint_error(*old(state), *old(mvb), clock.unix_timestamp) matches Some(e) ==> {
                &&& r == Err::<MvbEditionAccount, AppErrorCode>(e)
                &&& *final(state) == *old(state)
                &&& *final(mvb) == *old(mvb)
            }
            &&& mint_error(*old(state), *old(mvb), clock.unix_timestamp) is None ==> (r matches Ok(
                edition,
            ) && minted(
                *old(state),
                *old(mvb),
                *final(state),
                *final(mvb),
                edition,
                *new_mint,
                *mvb_key,
            ))
        },
{
    if user.num_minted >= state.user_max_mint {
        return Err(AppErrorCode::ExceededUserMaxMint);
    }
    if user.lp_staked_value < mvb.lp_value_price {
        return Err(AppErrorCode::Insufficient);
    }
    user.num_minted = user.num_minted + 1;
    user.lp_staked_value = user.lp_staked_value - mvb.lp_value_price;
    mint_nft(state, mvb, new_mint, mvb_key, clock)
}

} // verus!

verus! {

// ---------------------------------------------------------------------------
// Staking LP tokens

/// The value credited for staking `amount` LP tokens: their share of a pool
/// valued at twice its USD side.
pub open spec fn stake_value(amount: u64, lp_supply: u64, lp_usd_amount: u64) -> int {
    (amount * (2 * lp_usd_amount)) / (lp_supply as int)
}

/// The user record after `amount` tokens worth `value` are staked at `now`.
pub open spec fn staked(user: UserAccount, amount: u64, value: int, now: i64) -> UserAccount {
    UserAccount {
        lp_staked_amount: (user.lp_staked_amount + amount) as u64,
        lp_staked_value: (user.lp_staked_value + value) as u64,
        lp_staked_time: now,
        ..user
    }
}

/// What unstaking at `now` returns and leaves: `UnderLock` while the lock
/// runs, otherwise every staked token, with the staked amount emptied.
pub open spec fn unstake_outcome(user: UserAccount, state: StateAccount, now: i64) -> (
    Result<u64, AppErrorCode>,
    UserAccount,
) {
    if user.lp_staked_time + state.lock_duration > now {
        (Err(AppErrorCode::UnderLock), user)
    } else {
        (Ok(user.lp_staked_amount), UserAccount { lp_staked_amount: 0, ..user })
    }
}

/// Stakes `amount` LP tokens: adds them and their value to the user's
/// stake and restarts the lock at the clock's time. Returns the number of
/// tokens to move into the program's vault.
pub fn stake_lp(
    user: &mut UserAccount,
    amount: u64,
    lp_supply: u64,
    lp_usd_amount: u64,
    clock: &Clock,
) -> (transfer: u64)
    requires
        2 * lp_usd_amount <= u64::MAX,
        lp_supply > 0,
        stake_value(amount, lp_supply, lp_usd_amount) <= u64::MAX,
        old(user).lp_staked_amount + amount <= u64::MAX,
        old(user).lp_staked_value + stake_value(amount, lp_supply, lp_usd_amount) <= u64::MAX,
    ensures
        transfer == amount,
        *final(user) == staked(
            *old(user),
            amount,
            stake_value(amount, lp_supply, lp_usd_amount),
            clock.unix_timestamp,
        ),
{
    let lp_value = lp_usd_amount * 2;
    let wide_amount = amount as u128;
    let wide_value = lp_value as u128;
    assert(wide_amount * wide_value <= u128::MAX) by (nonlinear_arith)
        requires
            wide_amount <= u64::MAX,
            wide_value <= u64::MAX,
    ;
    let product = wide_amount.checked_mul(wide_value).unwrap();
    let quotient = product.checked_div(lp_supply as u128).unwrap();
    assert(quotient == stake_value(amount, lp_supply, lp_usd_amount));
    let value = quotient as u64;

    user.lp_staked_amount = user.lp_staked_amount + amount;
    user.lp_staked_value = user.lp_staked_value + value;
    user.lp_staked_time = clock.unix_timestamp;
    amount
}

/// Unstakes every staked LP token: fails with `UnderLock`, changing
/// nothing, while the lock duration since the last stake has not passed;
/// otherwise empties the staked amount (the staked value is kept) and
/// returns the number of tokens to move back to the user.
pub fn unstake_lp(user: &mut UserAccount, state: &StateAccount, clock: &Clock) -> (r: Result<
    u64,
    AppErrorCode,
>)
    requires
        i64::MIN <= old(user).lp_staked_time + state.lock_duration <= i64::MAX,
    ensures
        (r, *final(user)) == unstake_outcome(*old(user), *state, clock.unix_timestamp),
{
    if user.lp_staked_time + state.lock_duration > clock.unix_timestamp {
        return Err(AppErrorCode::UnderLock);
    }
    let amount = user.lp_staked_amount;
    user.lp_staked_amount = 0;
    Ok(amount)
}

// ---------------------------------------------------------------------------
// Locking editions

/// Why locking an NFT failed.
#[derive(Debug)]
pub enum LockNftError {
    /// The edition account's data is not a print edition record; holds the
    /// decoder's error.
    EditionNotReadable(std::io::Error),
    /// A rule of the program refused the lock.
    App(AppErrorCode),
}

/// Whether an account's data decodes as a print edition record.
pub open spec fn edition_readable(data: Seq<u8>) -> bool {
    data.len() >= 41 && data[0] < 14
}

/// The lock record after the NFT `mint`, edition `edition` of
/// `parent_mint`, is locked by `authority` at `now`.
pub open spec fn locked(
    lock: NftLockAccount,
    authority: [u8; 32],
    parent_mint: [u8; 32],
    mint: [u8; 32],
    edition: u64,
    now: i64,
) -> NftLockAccount {
    NftLockAccount {
        authority,
        parent_mint,
        mint,
        edition,
        locked_at: now,
        last_calculated_at: now,
        locking: 1,
        ..lock
    }
}

/// The lock record after it is unlocked at `now`.
pub open spec fn unlocked(lock: NftLockAccount, now: i64) -> NftLockAccount {
    NftLockAccount { locking: 0, ..lock_duration_after(lock, now) }
}

/// Locks the edition NFT `mint`, printed from the master `parent_mint`.
/// Fails, changing nothing, with `EditionNotReadable` when the edition
/// account's data is not an edition record and with `InvalidEdition` when
/// the edition was not printed from `parent_mint_master`; otherwise records
/// the owner, the mints and the edition number, and starts the lock at the
/// clock's time. Time counted by earlier locks is kept.
pub fn lock_nft(
    lock: &mut NftLockAccount,
    edition_data: &[u8],
    parent_mint_master: &[u8; 32],
    authority: &[u8; 32],
    parent_mint: &[u8; 32],
    mint: &[u8; 32],
    clock: &Clock,
) -> (r: Result<(), LockNftError>)
    ensures
        !edition_readable(edition_data@) ==> {
            &&& r matches Err(LockNftError::EditionNotReadable(_))
            &&& *final(lock) == *old(lock)
        },
        edition_readable(edition_data@) && edition_data@.subrange(1, 33) != parent_mint_master@
            ==> {
            &&& r == Err::<(), LockNftError>(LockNftError::App(AppErrorCode::InvalidEdition))
            &&& *final(lock) == *old(lock)
        },
        edition_readable(edition_data@) && edition_data@.subrange(1, 33) == parent_mint_master@
            ==> {
            &&& r == Ok::<(), LockNftError>(())
            &&& *final(lock) == locked(
                *old(lock),
                *authority,
                *parent_mint,
                *mint,
                final(lock).edition,
                clock.unix_timestamp,
            )
            &&& final(lock).edition as int == le_value(edition_data@.subrange(33, 41))
        },
{
    let edition = match edition_from_bytes(edition_data) {
        Ok(e) => e,
        Err(e) => {
            return Err(LockNftError::EditionNotReadable(e));
        },
    };
    if !keys_equal(&edition.parent, parent_mint_master) {
        return Err(LockNftError::App(AppErrorCode::InvalidEdition));
    }
    lock.authority = *authority;
    lock.parent_mint = *parent_mint;
    lock.mint = *mint;
    lock.edition = edition.edition;
    lock.locked_at = clock.unix_timestamp;
    lock.last_calculated_at = lock.locked_at;
    lock.locking = 1;
    Ok(())
}

/// Unlocks an NFT: counts its time up to the clock's time, then marks it
/// unlocked.
pub fn unlock_nft(lock: &mut NftLockAccount, clock: &Clock)
    requires
        lock_duration_computable(*old(lock), clock.unix_timestamp),
    ensures
        *final(lock) == unlocked(*old(lock), clock.unix_timestamp),
{
    lock.calculate_lock_duration(clock);
    lock.locking = 0;
}

} // verus!

verus! {

// ---------------------------------------------------------------------------
// Harvesting honey drops

/// Whether harvesting stays within the integer types: counting the lock's
/// time and, once a full cycle is counted, paying for the cycle out of it
/// and totalling the remaining drops.
pub open spec fn harvest_counters_fit(state: StateAccount, lock: NftLockAccount, now: i64) -> bool {
    &&& lock_duration_computable(lock, now)
    &&& lock_duration_after(lock, now).locked_duration >= state.honey_drop_cycle ==> {
        &&& i64::MIN <= lock_duration_after(lock, now).locked_duration - state.honey_drop_cycle
            <= i64::MAX
        &&& drop_total(state.honey_drop_remains@) <= u64::MAX
    }
}

/// The lock record after its time up to `now` is counted and one cycle of
/// it is paid for.
pub open spec fn lock_after_cycle(lock: NftLockAccount, state: StateAccount, now: i64) -> NftLockAccount {
    NftLockAccount {
        locked_duration: (lock_duration_after(lock, now).locked_duration
            - state.honey_drop_cycle) as i64,
        ..lock_duration_after(lock, now)
    }
}

/// The number of drops of each kind that `num` draws with `random` take.
pub open spec fn drawn(remains: Seq<u64>, random: u64, num: u64) -> Seq<int> {
    Seq::new(4, |j: int| remains[j] - remains_after_draws(remains, random, num as nat)[j])
}

/// Whether the user's drop counts can hold what the draws add.
pub open spec fn drops_fit(user: UserAccount, remains: Seq<u64>, random: u64, num: u64) -> bool {
    forall|j: int|
        0 <= j < 4 ==> user.honey_drops@[j] + #[trigger] drawn(remains, random, num)[j]
            <= u64::MAX
}

/// Whether a harvest with `random` gets as far as adding drawn drops to the
/// user's counts.
pub open spec fn harvest_draws(
    state: StateAccount,
    lock: NftLockAccount,
    num: u64,
    now: i64,
) -> bool {
    &&& lock_duration_after(lock, now).locked_duration >= state.honey_drop_cycle
    &&& num <= drop_total(state.honey_drop_remains@)
}

/// What a harvest of `num` drops with the random value `random` does,
/// from state `s0`, lock `l0` and user `u0` to `s1`, `l1` and `u1`, with
/// result `r`. Without a full cycle of locked time it fails with
/// `InsufficientCycleTime`; otherwise it pays for a cycle and, without
/// enough drops left, fails with `InsufficientHoneyDrop`. When the user's
/// counts cannot hold the draw the result is `None` and nothing changes.
/// Otherwise the drawn drops move from the state to the user.
pub open spec fn harvest_effect(
    s0: StateAccount,
    l0: NftLockAccount,
    u0: UserAccount,
    num: u64,
    now: i64,
    random: u64,
    r: Option<Result<(), AppErrorCode>>,
    s1: StateAccount,
    l1: NftLockAccount,
    u1: UserAccount,
) -> bool {
    if lock_duration_after(l0, now).locked_duration < s0.honey_drop_cycle {
        &&& r == Some(Err::<(), AppErrorCode>(AppErrorCode::InsufficientCycleTime))
        &&& s1 == s0
        &&& l1 == lock_duration_after(l0, now)
        &&& u1 == u0
    } else if num > drop_total(s0.honey_drop_remains@) {
        &&& r == Some(Err::<(), AppErrorCode>(AppErrorCode::InsufficientHoneyDrop))
        &&& s1 == s0
        &&& l1 == lock_after_cycle(l0, s0, now)
        &&& u1 == u0
    } else if !drops_fit(u0, s0.honey_drop_remains@, random, num) {
        &&& r is None
        &&& s1 == s0
        &&& l1 == l0
        &&& u1 == u0
    } else {
        &&& r == Some(Ok::<(), AppErrorCode>(()))
        &&& s1 == (StateAccount { honey_drop_remains: s1.honey_drop_remains, ..s0 })
        &&& s1.honey_drop_remains@ == remains_after_draws(
            s0.honey_drop_remains@,
            random,
            num as nat,
        )
        &&& l1 == lock_after_cycle(l0, s0, now)
        &&& u1 == (UserAccount { honey_drops: u1.honey_drops, ..u0 })
        &&& forall|j: int|
            0 <= j < 4 ==> #[trigger] u1.honey_drops@[j] == u0.honey_drops@[j] + drawn(
                s0.honey_drop_remains@,
                random,
                num,
            )[j]
    }
}

/// Harvests one cycle's honey drops for a locked NFT, drawing with the
/// value `hasher` finishes with: counts the lock's time, fails with
/// `InsufficientCycleTime` without a full cycle, pays for one cycle, draws
/// `mvb.num_honey_drop_per_cycle` drops from the state (failing with
/// `InsufficientHoneyDrop` when too few remain) and adds them to the
/// user's counts.
pub fn harvest_with_hasher(
    state: &mut StateAccount,
    lock: &mut NftLockAccount,
    user: &mut UserAccount,
    mvb: &MvbAccount,
    clock: &Clock,
    hasher: &DefaultHasher,
) -> (r: Result<(), AppErrorCode>)
    requires
        harvest_counters_fit(*old(state), *old(lock), clock.unix_timestamp),
        harvest_draws(*old(state), *old(lock), mvb.num_honey_drop_per_cycle, clock.unix_timestamp)
            ==> drops_fit(
            *old(user),
            old(state).honey_drop_remains@,
            DefaultHasher::spec_finish(hasher@),
            mvb.num_honey_drop_per_cycle,
        ),
    ensures
        harvest_effect(
            *old(state),
            *old(lock),
            *old(user),
            mvb.num_honey_drop_per_cycle,
            clock.unix_timestamp,
            DefaultHasher::spec_finish(hasher@),
            Some(r),
            *final(state),
            *final(lock),
            *final(user),
        ),
{
    let ghost random = DefaultHasher::spec_finish(hasher@);
    let ghost num = mvb.num_honey_drop_per_cycle;
    lock.calculate_lock_duration(clock);
    if lock.locked_duration < state.honey_drop_cycle {
        return Err(AppErrorCode::InsufficientCycleTime);
    }
    lock.locked_duration = lock.locked_duration - state.honey_drop_cycle;

    let drops = match state.take_honey_drops(hasher, mvb.num_honey_drop_per_cycle) {
        Ok(d) => d,
        Err(e) => {
            return Err(e);
        },
    };
    assert forall|j: int| 0 <= j < 4 implies #[trigger] drops@[j] == drawn(
        old(state).honey_drop_remains@,
        random,
        num,
    )[j] by {}

    let ghost before = user.honey_drops@;
    let mut j: usize = 0;
    while j < 4
        invariant
            0 <= j <= 4,
            user.honey_drops@.len() == 4,
            drops@.len() == 4,
            forall|k: int| 0 <= k < 4 ==> before[k] + #[trigger] drops@[k] <= u64::MAX,
            forall|k: int| 0 <= k < j ==> #[trigger] user.honey_drops@[k] == before[k] + drops@[k],
            forall|k: int| j <= k < 4 ==> #[trigger] user.honey_drops@[k] == before[k],
            *user == (UserAccount { honey_drops: user.honey_drops, ..*old(user) }),
        decreases 4 - j,
    {
        user.honey_drops[j] = user.honey_drops[j] + drops[j];
        j = j + 1;
    }
    Ok(())
}

/// The value a harvest draws with: what a `DefaultHasher` finishes with
/// once the most recent slot hash, the clock's slot, the clock's time, the
/// user's account key and the NFT's mint are written into it, in that order.
pub open spec fn harvest_random(
    slot_hash: Seq<u8>,
    clock: Clock,
    user_account: Seq<u8>,
    mint: Seq<u8>,
) -> u64 {
    DefaultHasher::spec_finish(
        hasher_after_i64(
            hasher_after_u64(seq![slot_hash], clock.slot),
            clock.unix_timestamp,
        ).push(user_account).push(mint),
    )
}

/// Harvests one cycle's honey drops for a locked NFT, drawing with a
/// value hashed from the most recent slot hash, the clock, the user's
/// account and the NFT's mint. Returns `None`, changing nothing, when the
/// user's drop counts could not hold the drops drawn; otherwise does what
/// `harvest_with_hasher` does.
#[verifier::loop_isolation(false)]
pub fn harvest(
    state: &mut StateAccount,
    lock: &mut NftLockAccount,
    user: &mut UserAccount,
    mvb: &MvbAccount,
    clock: &Clock,
    recent_slot_hash: &[u8; 8],
    user_account: &[u8; 32],
    mint: &[u8; 32],
) -> (r: Option<Result<(), AppErrorCode>>)
    requires
        harvest_counters_fit(*old(state), *old(lock), clock.unix_timestamp),
    ensures
        harvest_effect(
            *old(state),
            *old(lock),
            *old(user),
            mvb.num_honey_drop_per_cycle,
            clock.unix_timestamp,
            harvest_random(recent_slot_hash@, *clock, user_account@, mint@),
            r,
            *final(state),
            *final(lock),
            *final(user),
        ),
{
    let mut hasher = DefaultHasher::new();
    hasher.write(recent_slot_hash.as_slice());
    hasher_write_u64(&mut hasher, clock.slot);
    hasher_write_i64(&mut hasher, clock.unix_timestamp);
    hasher.write(user_account.as_slice());
    hasher.write(mint.as_slice());
    let ghost random = DefaultHasher::spec_finish(hasher@);
    assert(seq![recent_slot_hash@] =~= Seq::<Seq<u8>>::empty().push(recent_slot_hash@));
    assert(random == harvest_random(recent_slot_hash@, *clock, user_account@, mint@));
    let num = mvb.num_honey_drop_per_cycle;

    let mut counted = *lock;
    counted.calculate_lock_duration(clock);
    if counted.locked_duration >= state.honey_drop_cycle && num <= sum_drops(
        &state.honey_drop_remains,
    ) {
        let random_value = hasher.finish();
        if let Ok((taken, _)) = draw_honey_drops(&state.honey_drop_remains, random_value, num) {
            let mut j: usize = 0;
            while j < 4
                invariant
                    0 <= j <= 4,
                    taken@.len() == 4,
                    forall|k: int|
                        0 <= k < 4 ==> #[trigger] taken@[k] == drawn(
                            state.honey_drop_remains@,
                            random,
                            num,
                        )[k],
                    forall|k: int|
                        0 <= k < j ==> user.honey_drops@[k] + #[trigger] drawn(
                            state.honey_drop_remains@,
                            random,
                            num,
                        )[k] <= u64::MAX,
                decreases 4 - j,
            {
                if user.honey_drops[j] > u64::MAX - taken[j] {
                    assert(!drops_fit(*user, state.honey_drop_remains@, random, num));
                    assert(harvest_effect(
                        *state,
                        *lock,
                        *user,
                        num,
                        clock.unix_timestamp,
                        random,
                        None,
                        *state,
                        *lock,
                        *user,
                    ));
                    return None;
                }
                j = j + 1;
            }
        }
    }
    let r = harvest_with_hasher(state, lock, user, mvb, clock, &hasher);
    assert(harvest_effect(
        *old(state),
        *old(lock),
        *old(user),
        num,
        clock.unix_timestamp,
        random,
        Some(r),
        *state,
        *lock,
        *user,
    ));
    Some(r)
}

} // verus!
