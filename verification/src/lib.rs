//! The logic of an NFT program: master NFTs whose editions are minted
//! against an airdrop allowance or staked LP value, locked to earn time,
//! and harvested for randomly drawn honey drops.
use vstd::prelude::*;

pub mod accounts;
pub mod addresses;
pub mod honey;
pub mod instructions;
pub mod laws;
pub mod external;
pub mod merkle_proof;


verus! {
} // verus!
