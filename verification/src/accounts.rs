//! The program's account records and its error codes.
//!
//! Every public key is held as its 32 raw bytes.
use vstd::prelude::*;

verus! {

/// The clock values the program reads: the current slot and the Unix time
/// in seconds.
#[derive(Clone, Copy, Debug, PartialEq, Eq)]
pub struct Clock {
    pub slot: u64,
    pub unix_timestamp: i64,
}

/// The program-wide configuration and counters.
#[derive(Clone, Copy, Debug, PartialEq, Eq)]
pub struct StateAccount {
    pub authority: [u8; 32],
    pub service: [u8; 32],
    pub lp_mint: [u8; 32],
    pub lp_vault: [u8; 32],
    pub wag_mint: [u8; 32],
    pub lp_wag_vault: [u8; 32],
    pub usd_mint: [u8; 32],
    pub lp_usd_vault: [u8; 32],
    pub total_supply: u64,
    pub num_minted: u64,
    pub user_max_mint: u64,
    pub lock_duration: i64,
    pub mint_end_time: i64,
    pub harvest_drop_end_time: i64,
    pub honey_drop_cycle: i64,
    pub honey_drop_remains: [u64; 4],
    pub honey_drop_values: [u64; 4],
}

/// One master NFT ("MVB") and the editions printed from it.
#[derive(Clone, Copy, Debug, PartialEq, Eq)]
pub struct MvbAccount {
    pub mint: [u8; 32],
    /// The 256-bit merkle root.
    pub airdrop_root: [u8; 32],
    pub total_supply: u64,
    pub num_minted: u64,
    pub lp_value_price: u64,
    pub num_honey_drop_per_cycle: u64,
}

/// A user's record for one master NFT.
#[derive(Clone, Copy, Debug, PartialEq, Eq)]
pub struct MvbUserAccount {
    pub authority: [u8; 32],
    pub mvb: [u8; 32],
    pub airdrop_num_minted: u64,
    pub num_minted: u64,
}

/// A user's program-wide record: mints, staked LP tokens and honey drops.
#[derive(Clone, Copy, Debug, PartialEq, Eq)]
pub struct UserAccount {
    pub authority: [u8; 32],
    pub num_minted: u64,
    pub lp_staked_amount: u64,
    pub lp_staked_value: u64,
    pub lp_staked_time: i64,
    pub honey_drops: [u64; 4],
}

/// One printed edition.
#[derive(Clone, Copy, Debug, PartialEq, Eq)]
pub struct MvbEditionAccount {
    pub mint: [u8; 32],
    pub metadata: [u8; 32],
    pub mvb: [u8; 32],
    pub index: u64,
    pub added_to_collection: u64,
    pub data: [[u8; 32]; 15],
}

/// The lock of one edition NFT by its owner.
#[derive(Clone, Copy, Debug, PartialEq, Eq)]
pub struct NftLockAccount {
    pub parent_mint: [u8; 32],
    pub authority: [u8; 32],
    pub mint: [u8; 32],
    pub edition: u64,
    pub locked_at: i64,
    pub last_calculated_at: i64,
    pub locked_duration: i64,
    pub honey_drops: [u64; 4],
    pub locking: u64,
}

/// The errors the program reports.
#[derive(Clone, Copy, Debug, PartialEq, Eq)]
pub enum AppErrorCode {
    ExceededTotalSupply,
    ExceededUserMaxMint,
    ExceededUserAirdrop,
    InvalidMerkleProof,
    Insufficient,
    InsufficientCycleTime,
    InsufficientHoneyDrop,
    UnderLock,
    InvalidEdition,
    MintEnded,
    HarvestEnded,
}

impl NftLockAccount {
    /// While the NFT is locked, adds the seconds since the last calculation to
    /// `locked_duration` and moves `last_calculated_at` to the clock's time;
    /// an unlocked record is left as it is.
    pub fn calculate_lock_duration(&mut self, clock: &Clock)
        requires
            lock_duration_computable(*old(self), clock.unix_timestamp),
        ensures
            *final(self) == lock_duration_after(*old(self), clock.unix_timestamp),
    {
        if self.locking == 0 {
            return;
        }
        let elapsed = clock.unix_timestamp.checked_sub(self.last_calculated_at).unwrap();
        self.locked_duration = self.locked_duration + elapsed;
        self.last_calculated_at = clock.unix_timestamp;
    }
}

/// Whether counting the lock's time up to `now` stays within `i64`.
pub open spec fn lock_duration_computable(lock: NftLockAccount, now: i64) -> bool {
    lock.locking != 0 ==> {
        &&& i64::MIN <= now - lock.last_calculated_at <= i64::MAX
        &&& i64::MIN <= lock.locked_duration + (now - lock.last_calculated_at) <= i64::MAX
    }
}

/// The lock record once the time up to `now` has been counted.
pub open spec fn lock_duration_after(lock: NftLockAccount, now: i64) -> NftLockAccount {
    if lock.locking == 0 {
        lock
    } else {
        NftLockAccount {
            locked_duration: (lock.locked_duration + (now - lock.last_calculated_at)) as i64,
            last_calculated_at: now,
            ..lock
        }
    }
}

/// The collection recorded in an NFT's metadata.
#[derive(Clone, Copy, Debug, PartialEq, Eq)]
pub struct MetadataCollection {
    pub verified: bool,
    pub key: [u8; 32],
}

/// Whether an NFT's metadata names `collection_mint` as its collection.
pub fn check_metadata_collection(
    collection: &Option<MetadataCollection>,
    collection_mint: &[u8; 32],
) -> (r: bool)
    ensures
        r == (collection matches Some(c) && c.key@ == collection_mint@),
{
    match collection {
        Some(c) => keys_equal(&c.key, collection_mint),
        None => false,
    }
}

/// Thirty-two zero bytes: the key of an account that was never set.
pub(crate) fn zero_key() -> (k: [u8; 32])
    ensures
        forall|i: int| 0 <= i < 32 ==> k@[i] == 0,
        k@.len() == 32,
{
    [0u8; 32]
}

/// Whether two keys hold the same bytes.
pub fn keys_equal(a: &[u8; 32], b: &[u8; 32]) -> (r: bool)
    ensures
        r == (a@ == b@),
{
    let mut i: usize = 0;
    while i < 32
        invariant
            0 <= i <= 32,
            a@.len() == 32,
            b@.len() == 32,
            forall|j: int| 0 <= j < i ==> a@[j] == b@[j],
        decreases 32 - i,
    {
        if a[i] != b[i] {
            return false;
        }
        i = i + 1;
    }
    assert(a@ =~= b@);
    true
}

} // verus!
