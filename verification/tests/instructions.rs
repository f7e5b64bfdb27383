use anchor_lang::solana_program::keccak;
use std::collections::hash_map::DefaultHasher;
use std::hash::Hasher;
use waggle_mvb::honey::draw_honey_drops;
use waggle_mvb::accounts::{
    AppErrorCode, Clock, MvbAccount, MvbEditionAccount, MvbUserAccount, NftLockAccount,
    StateAccount, UserAccount,
};
use waggle_mvb::instructions::{
    add_to_collection, create_collection, create_state, harvest, init_mvb_user, init_user,
    lock_nft, mint_master_nft, mint_nft, mint_nft_airdrop, mint_nft_from_staked_lp,
    set_mvb_config, set_state_config, stake_lp, u64_le_bytes, unlock_nft, unstake_lp, Creator,
    LockNftError, StateKeys,
};

fn keys() -> StateKeys {
    StateKeys {
        authority: [1; 32],
        service: [2; 32],
        lp_mint: [3; 32],
        lp_vault: [4; 32],
        usd_mint: [5; 32],
        wag_mint: [6; 32],
        lp_usd_vault: [7; 32],
        lp_wag_vault: [8; 32],
    }
}

fn state() -> StateAccount {
    create_state(&keys(), 3, 2, 100, 50, 1_000, 2_000, [2, 3, 0, 5])
}

fn mvb(total_supply: u64, lp_value_price: u64) -> MvbAccount {
    mint_master_nft(&[20; 32], &[1; 32], "Bee".to_string(), "BEE".to_string(), "u".to_string(), total_supply, lp_value_price).0
}

fn clock(unix_timestamp: i64) -> Clock {
    Clock { slot: 77, unix_timestamp }
}

fn lock_record() -> NftLockAccount {
    NftLockAccount {
        parent_mint: [0; 32],
        authority: [0; 32],
        mint: [0; 32],
        edition: 0,
        locked_at: 0,
        last_calculated_at: 0,
        locked_duration: 0,
        honey_drops: [0; 4],
        locking: 0,
    }
}

fn edition_data(key: u8, parent: [u8; 32], edition: u64) -> Vec<u8> {
    let mut data = vec![key];
    data.extend_from_slice(&parent);
    data.extend_from_slice(&edition.to_le_bytes());
    data
}

#[test]
fn init_user_records_the_authority() {
    let user = init_user(&[9; 32]);
    assert_eq!(
        user,
        UserAccount {
            authority: [9; 32],
            num_minted: 0,
            lp_staked_amount: 0,
            lp_staked_value: 0,
            lp_staked_time: 0,
            honey_drops: [0; 4],
        }
    );
}

#[test]
fn init_mvb_user_records_authority_and_master() {
    let user = init_mvb_user(&[9; 32], &[10; 32]);
    assert_eq!(
        user,
        MvbUserAccount { authority: [9; 32], mvb: [10; 32], airdrop_num_minted: 0, num_minted: 0 }
    );
}

#[test]
fn create_state_records_settings_but_not_the_harvest_end() {
    let s = state();
    assert_eq!(s.authority, [1; 32]);
    assert_eq!(s.service, [2; 32]);
    assert_eq!(s.lp_mint, [3; 32]);
    assert_eq!(s.lp_vault, [4; 32]);
    assert_eq!(s.usd_mint, [5; 32]);
    assert_eq!(s.wag_mint, [6; 32]);
    assert_eq!(s.lp_usd_vault, [7; 32]);
    assert_eq!(s.lp_wag_vault, [8; 32]);
    assert_eq!(s.total_supply, 3);
    assert_eq!(s.user_max_mint, 2);
    assert_eq!(s.lock_duration, 100);
    assert_eq!(s.honey_drop_cycle, 50);
    assert_eq!(s.mint_end_time, 1_000);
    assert_eq!(s.harvest_drop_end_time, 0);
    assert_eq!(s.honey_drop_remains, [2, 3, 0, 5]);
    assert_eq!(s.honey_drop_values, [0; 4]);
    assert_eq!(s.num_minted, 0);
}

#[test]
fn set_state_config_changes_only_what_is_given() {
    let mut s = state();
    let before = s;
    set_state_config(&mut s, None, None, None, None, None, None, None);
    assert_eq!(s, before);
    set_state_config(&mut s, Some(9), None, Some(5), None, None, Some(3_000), Some([1, 1, 1, 1]));
    assert_eq!(s.total_supply, 9);
    assert_eq!(s.user_max_mint, 2);
    assert_eq!(s.lock_duration, 5);
    assert_eq!(s.honey_drop_cycle, 50);
    assert_eq!(s.mint_end_time, 1_000);
    assert_eq!(s.harvest_drop_end_time, 3_000);
    assert_eq!(s.honey_drop_remains, [1, 1, 1, 1]);
}

#[test]
fn mint_master_nft_describes_the_master() {
    let (m, metadata) = mint_master_nft(
        &[20; 32],
        &[1; 32],
        "Bee".to_string(),
        "BEE".to_string(),
        "https://x".to_string(),
        500,
        40,
    );
    assert_eq!(
        m,
        MvbAccount {
            mint: [20; 32],
            airdrop_root: [0; 32],
            total_supply: 500,
            num_minted: 0,
            lp_value_price: 40,
            num_honey_drop_per_cycle: 0,
        }
    );
    assert_eq!(metadata.name, "Bee");
    assert_eq!(metadata.symbol, "BEE");
    assert_eq!(metadata.uri, "https://x");
    assert_eq!(metadata.seller_fee_basis_points, 100);
    assert_eq!(metadata.creators, Some(vec![Creator { address: [1; 32], verified: false, share: 100 }]));
    assert!(metadata.is_mutable);
    assert!(metadata.update_authority_is_signer);
    assert_eq!(metadata.collection_size, None);
    assert_eq!(metadata.max_supply, Some(500));
}

#[test]
fn create_collection_is_sized_to_the_total_supply() {
    let metadata = create_collection(&state(), "Col".to_string(), "WMC".to_string(), "u".to_string());
    assert_eq!(metadata.name, "Col");
    assert_eq!(metadata.seller_fee_basis_points, 0);
    assert_eq!(metadata.creators, None);
    assert_eq!(metadata.collection_size, Some(3));
    assert_eq!(metadata.max_supply, Some(0));
}

#[test]
fn set_mvb_config_changes_only_what_is_given() {
    let mut m = mvb(5, 1);
    set_mvb_config(&mut m, None, Some(4));
    assert_eq!(m.num_honey_drop_per_cycle, 4);
    assert_eq!(m.airdrop_root, [0; 32]);
    set_mvb_config(&mut m, Some([3; 32]), None);
    assert_eq!(m.airdrop_root, [3; 32]);
    assert_eq!(m.num_honey_drop_per_cycle, 4);
}

#[test]
fn add_to_collection_marks_the_edition() {
    let mut e = MvbEditionAccount {
        mint: [1; 32],
        metadata: [0; 32],
        mvb: [2; 32],
        index: 4,
        added_to_collection: 0,
        data: [[0; 32]; 15],
    };
    add_to_collection(&mut e);
    assert_eq!(e.added_to_collection, 1);
    assert_eq!(e.index, 4);
}

#[test]
fn mint_nft_numbers_editions_after_the_master() {
    let mut s = state();
    let mut m = mvb(5, 1);
    let e = mint_nft(&mut s, &mut m, &[30; 32], &[31; 32], &clock(1_000)).unwrap();
    assert_eq!(e.index, 1);
    assert_eq!(e.mint, [30; 32]);
    assert_eq!(e.mvb, [31; 32]);
    assert_eq!(e.metadata, [0; 32]);
    assert_eq!(e.added_to_collection, 0);
    assert_eq!(e.data, [[0; 32]; 15]);
    assert_eq!(s.num_minted, 1);
    assert_eq!(m.num_minted, 1);
    let e2 = mint_nft(&mut s, &mut m, &[32; 32], &[31; 32], &clock(1_000)).unwrap();
    assert_eq!(e2.index, 2);
}

#[test]
fn mint_nft_after_the_end_time_is_refused() {
    let mut s = state();
    let mut m = mvb(5, 1);
    assert_eq!(mint_nft(&mut s, &mut m, &[30; 32], &[31; 32], &clock(1_001)), Err(AppErrorCode::MintEnded));
    assert_eq!(s, state());
    assert_eq!(m.num_minted, 0);
}

#[test]
fn mint_nft_beyond_the_masters_supply_is_refused() {
    let mut s = state();
    let mut m = mvb(1, 1);
    mint_nft(&mut s, &mut m, &[30; 32], &[31; 32], &clock(0)).unwrap();
    assert_eq!(mint_nft(&mut s, &mut m, &[32; 32], &[31; 32], &clock(0)), Err(AppErrorCode::ExceededTotalSupply));
    assert_eq!(s.num_minted, 1);
    assert_eq!(m.num_minted, 1);
}

#[test]
fn mint_nft_beyond_the_programs_supply_is_refused() {
    let mut s = state();
    let mut m1 = mvb(10, 1);
    let mut m2 = mvb(10, 1);
    mint_nft(&mut s, &mut m1, &[30; 32], &[31; 32], &clock(0)).unwrap();
    mint_nft(&mut s, &mut m1, &[32; 32], &[31; 32], &clock(0)).unwrap();
    mint_nft(&mut s, &mut m2, &[33; 32], &[34; 32], &clock(0)).unwrap();
    assert_eq!(mint_nft(&mut s, &mut m2, &[35; 32], &[34; 32], &clock(0)), Err(AppErrorCode::ExceededTotalSupply));
    assert_eq!(s.num_minted, 3);
}

fn airdrop_leaf(authority: &[u8; 32], amount: u64) -> [u8; 32] {
    keccak::hashv(&[authority, &amount.to_le_bytes()]).to_bytes()
}

#[test]
fn u64_le_bytes_matches_to_le_bytes() {
    assert_eq!(u64_le_bytes(0x0102030405060708), 0x0102030405060708u64.to_le_bytes());
    assert_eq!(u64_le_bytes(u64::MAX), [0xff; 8]);
}

#[test]
fn mint_nft_airdrop_with_a_valid_proof_mints() {
    let authority = [44u8; 32];
    let other = airdrop_leaf(&[45; 32], 1);
    let leaf = airdrop_leaf(&authority, 2);
    let root = if leaf <= other {
        keccak::hashv(&[&leaf, &other]).to_bytes()
    } else {
        keccak::hashv(&[&other, &leaf]).to_bytes()
    };
    let mut s = state();
    let mut m = mvb(5, 1);
    set_mvb_config(&mut m, Some(root), None);
    let mut u = init_mvb_user(&authority, &[31; 32]);
    let e = mint_nft_airdrop(&mut s, &mut m, &mut u, &authority, 2, vec![other], &[30; 32], &[31; 32], &clock(0)).unwrap();
    assert_eq!(e.index, 1);
    assert_eq!(u.airdrop_num_minted, 1);
    mint_nft_airdrop(&mut s, &mut m, &mut u, &authority, 2, vec![other], &[32; 32], &[31; 32], &clock(0)).unwrap();
    assert_eq!(u.airdrop_num_minted, 2);
    assert_eq!(
        mint_nft_airdrop(&mut s, &mut m, &mut u, &authority, 2, vec![other], &[33; 32], &[31; 32], &clock(0)),
        Err(AppErrorCode::ExceededUserAirdrop)
    );
    assert_eq!(u.airdrop_num_minted, 2);
    assert_eq!(m.num_minted, 2);
}

#[test]
fn mint_nft_airdrop_with_a_wrong_amount_fails_the_proof() {
    let authority = [44u8; 32];
    let leaf = airdrop_leaf(&authority, 2);
    let mut s = state();
    let mut m = mvb(5, 1);
    set_mvb_config(&mut m, Some(leaf), None);
    let mut u = init_mvb_user(&authority, &[31; 32]);
    assert_eq!(
        mint_nft_airdrop(&mut s, &mut m, &mut u, &authority, 3, vec![], &[30; 32], &[31; 32], &clock(0)),
        Err(AppErrorCode::InvalidMerkleProof)
    );
    assert_eq!(m.num_minted, 0);
    assert_eq!(s.num_minted, 0);
    let e = mint_nft_airdrop(&mut s, &mut m, &mut u, &authority, 2, vec![], &[30; 32], &[31; 32], &clock(0)).unwrap();
    assert_eq!(e.index, 1);
}

#[test]
fn mint_nft_airdrop_leaf_is_not_the_key_itself() {
    let authority = [44u8; 32];
    let mut s = state();
    let mut m = mvb(5, 1);
    set_mvb_config(&mut m, Some(authority), None);
    let mut u = init_mvb_user(&authority, &[31; 32]);
    assert_eq!(
        mint_nft_airdrop(&mut s, &mut m, &mut u, &authority, 1, vec![], &[30; 32], &[31; 32], &clock(0)),
        Err(AppErrorCode::InvalidMerkleProof)
    );
}

#[test]
fn mint_nft_from_staked_lp_charges_the_price() {
    let mut s = state();
    let mut m = mvb(5, 30);
    let mut u = init_user(&[1; 32]);
    u.lp_staked_value = 70;
    let e = mint_nft_from_staked_lp(&mut s, &mut m, &mut u, &[30; 32], &[31; 32], &clock(0)).unwrap();
    assert_eq!(e.index, 1);
    assert_eq!(u.num_minted, 1);
    assert_eq!(u.lp_staked_value, 40);
    mint_nft_from_staked_lp(&mut s, &mut m, &mut u, &[32; 32], &[31; 32], &clock(0)).unwrap();
    assert_eq!(u.lp_staked_value, 10);
    assert_eq!(
        mint_nft_from_staked_lp(&mut s, &mut m, &mut u, &[33; 32], &[31; 32], &clock(0)),
        Err(AppErrorCode::ExceededUserMaxMint)
    );
    assert_eq!(u.num_minted, 2);
}

#[test]
fn mint_nft_from_staked_lp_without_enough_value_is_refused() {
    let mut s = state();
    let mut m = mvb(5, 30);
    let mut u = init_user(&[1; 32]);
    u.lp_staked_value = 29;
    assert_eq!(
        mint_nft_from_staked_lp(&mut s, &mut m, &mut u, &[30; 32], &[31; 32], &clock(0)),
        Err(AppErrorCode::Insufficient)
    );
    assert_eq!(u.lp_staked_value, 29);
    assert_eq!(u.num_minted, 0);
    assert_eq!(m.num_minted, 0);
}

#[test]
fn stake_lp_values_tokens_at_twice_the_usd_side() {
    let mut u = init_user(&[1; 32]);
    assert_eq!(stake_lp(&mut u, 10, 100, 50, &clock(5)), 10);
    assert_eq!(u.lp_staked_amount, 10);
    assert_eq!(u.lp_staked_value, 10);
    assert_eq!(u.lp_staked_time, 5);
    // 7 * 2 / 3 rounds down to 4
    assert_eq!(stake_lp(&mut u, 7, 3, 1, &clock(9)), 7);
    assert_eq!(u.lp_staked_amount, 17);
    assert_eq!(u.lp_staked_value, 14);
    assert_eq!(u.lp_staked_time, 9);
}

#[test]
fn stake_lp_with_large_values_uses_wide_arithmetic() {
    let mut u = init_user(&[1; 32]);
    stake_lp(&mut u, u64::MAX / 2, u64::MAX / 2, 1_000, &clock(0));
    assert_eq!(u.lp_staked_value, 2_000);
}

#[test]
fn unstake_lp_under_lock_is_refused() {
    let s = state();
    let mut u = init_user(&[1; 32]);
    stake_lp(&mut u, 10, 100, 50, &clock(5));
    let before = u;
    assert_eq!(unstake_lp(&mut u, &s, &clock(104)), Err(AppErrorCode::UnderLock));
    assert_eq!(u, before);
}

#[test]
fn unstake_lp_returns_every_token_and_keeps_the_value() {
    let s = state();
    let mut u = init_user(&[1; 32]);
    stake_lp(&mut u, 10, 100, 50, &clock(5));
    assert_eq!(unstake_lp(&mut u, &s, &clock(105)), Ok(10));
    assert_eq!(u.lp_staked_amount, 0);
    assert_eq!(u.lp_staked_value, 10);
}

#[test]
fn lock_nft_records_the_edition() {
    let mut lock = lock_record();
    lock.locked_duration = 30;
    let data = edition_data(1, [50; 32], 0x0102);
    let r = lock_nft(&mut lock, &data, &[50; 32], &[1; 32], &[20; 32], &[30; 32], &clock(500));
    assert!(matches!(r, Ok(())));
    assert_eq!(
        lock,
        NftLockAccount {
            parent_mint: [20; 32],
            authority: [1; 32],
            mint: [30; 32],
            edition: 0x0102,
            locked_at: 500,
            last_calculated_at: 500,
            locked_duration: 30,
            honey_drops: [0; 4],
            locking: 1,
        }
    );
}

#[test]
fn lock_nft_of_an_edition_of_another_master_is_refused() {
    let mut lock = lock_record();
    let data = edition_data(1, [51; 32], 3);
    let r = lock_nft(&mut lock, &data, &[50; 32], &[1; 32], &[20; 32], &[30; 32], &clock(500));
    assert!(matches!(r, Err(LockNftError::App(AppErrorCode::InvalidEdition))));
    assert_eq!(lock, lock_record());
}

#[test]
fn lock_nft_with_unreadable_edition_data_is_refused() {
    let mut lock = lock_record();
    let short = edition_data(1, [50; 32], 3)[..40].to_vec();
    assert!(matches!(
        lock_nft(&mut lock, &short, &[50; 32], &[1; 32], &[20; 32], &[30; 32], &clock(5)),
        Err(LockNftError::EditionNotReadable(_))
    ));
    assert_eq!(lock, lock_record());
    let bad_kind = edition_data(14, [50; 32], 3);
    assert!(matches!(
        lock_nft(&mut lock, &bad_kind, &[50; 32], &[1; 32], &[20; 32], &[30; 32], &clock(5)),
        Err(LockNftError::EditionNotReadable(_))
    ));
    let mut longer = edition_data(13, [50; 32], 3);
    longer.extend_from_slice(&[0; 10]);
    assert!(matches!(
        lock_nft(&mut lock, &longer, &[50; 32], &[1; 32], &[20; 32], &[30; 32], &clock(5)),
        Ok(())
    ));
    assert_eq!(lock.edition, 3);
}

#[test]
fn unlock_nft_counts_the_locked_time() {
    let mut lock = lock_record();
    lock_nft(&mut lock, &edition_data(1, [50; 32], 3), &[50; 32], &[1; 32], &[20; 32], &[30; 32], &clock(100)).unwrap();
    unlock_nft(&mut lock, &clock(160));
    assert_eq!(lock.locked_duration, 60);
    assert_eq!(lock.last_calculated_at, 160);
    assert_eq!(lock.locking, 0);
    // an unlocked NFT counts no more time
    unlock_nft(&mut lock, &clock(500));
    assert_eq!(lock.locked_duration, 60);
    assert_eq!(lock.last_calculated_at, 160);
}

fn locked_since(t: i64) -> NftLockAccount {
    let mut lock = lock_record();
    lock_nft(&mut lock, &edition_data(1, [50; 32], 3), &[50; 32], &[1; 32], &[20; 32], &[30; 32], &clock(t)).unwrap();
    lock
}

#[test]
fn harvest_without_a_full_cycle_is_refused() {
    let mut s = state();
    let mut m = mvb(5, 1);
    set_mvb_config(&mut m, None, Some(2));
    let mut lock = locked_since(100);
    let mut u = init_user(&[1; 32]);
    let r = harvest(&mut s, &mut lock, &mut u, &m, &clock(149), &[1; 8], &[2; 32], &[3; 32]);
    assert_eq!(r, Some(Err(AppErrorCode::InsufficientCycleTime)));
    assert_eq!(s, state());
    assert_eq!(u.honey_drops, [0; 4]);
    assert_eq!(lock.locked_duration, 49);
}

#[test]
fn harvest_with_too_few_drops_left_is_refused() {
    let mut s = state();
    let mut m = mvb(5, 1);
    set_mvb_config(&mut m, None, Some(11));
    let mut lock = locked_since(100);
    let mut u = init_user(&[1; 32]);
    let r = harvest(&mut s, &mut lock, &mut u, &m, &clock(150), &[1; 8], &[2; 32], &[3; 32]);
    assert_eq!(r, Some(Err(AppErrorCode::InsufficientHoneyDrop)));
    assert_eq!(s, state());
    assert_eq!(u.honey_drops, [0; 4]);
}

#[test]
fn harvest_moves_drops_from_the_program_to_the_user() {
    let mut s = state();
    let mut m = mvb(5, 1);
    set_mvb_config(&mut m, None, Some(4));
    let mut lock = locked_since(100);
    let mut u = init_user(&[1; 32]);
    u.honey_drops = [1, 0, 0, 0];
    let r = harvest(&mut s, &mut lock, &mut u, &m, &clock(175), &[1; 8], &[2; 32], &[3; 32]);
    assert_eq!(r, Some(Ok(())));
    assert_eq!(lock.locked_duration, 25);
    assert_eq!(lock.last_calculated_at, 175);
    assert_eq!(s.honey_drop_remains.iter().sum::<u64>(), 6);
    assert_eq!(u.honey_drops.iter().sum::<u64>(), 5);
    for j in 0..4 {
        assert_eq!(u.honey_drops[j] + s.honey_drop_remains[j], [1, 0, 0, 0][j] + [2, 3, 0, 5][j]);
    }
    assert_eq!(u.honey_drops[2], 0);
}

#[test]
fn harvest_that_would_overflow_a_users_count_changes_nothing() {
    let mut s = state();
    set_state_config(&mut s, None, None, None, None, None, None, Some([1, 1, 1, 1]));
    let before = s;
    let mut m = mvb(5, 1);
    set_mvb_config(&mut m, None, Some(4));
    let mut lock = locked_since(100);
    let lock_before = lock;
    let mut u = init_user(&[1; 32]);
    u.honey_drops = [u64::MAX, 0, 0, 0];
    let r = harvest(&mut s, &mut lock, &mut u, &m, &clock(175), &[1; 8], &[2; 32], &[3; 32]);
    assert_eq!(r, None);
    assert_eq!(s, before);
    assert_eq!(lock, lock_before);
    assert_eq!(u.honey_drops, [u64::MAX, 0, 0, 0]);
}

#[test]
fn harvest_draws_with_the_hash_of_slot_hash_clock_user_and_mint() {
    let mut s = state();
    set_state_config(&mut s, None, None, None, None, None, None, Some([50, 60, 70, 80]));
    let before = s;
    let mut m = mvb(5, 1);
    set_mvb_config(&mut m, None, Some(5));
    let mut lock = locked_since(100);
    let mut u = init_user(&[1; 32]);
    let r = harvest(&mut s, &mut lock, &mut u, &m, &clock(175), &[8, 7, 6, 5, 4, 3, 2, 1], &[2; 32], &[3; 32]);
    assert_eq!(r, Some(Ok(())));

    let mut hasher = DefaultHasher::new();
    hasher.write(&[8, 7, 6, 5, 4, 3, 2, 1]);
    hasher.write_u64(77);
    hasher.write_i64(175);
    hasher.write(&[2; 32]);
    hasher.write(&[3; 32]);
    let (taken, left) = draw_honey_drops(&before.honey_drop_remains, hasher.finish(), 5).unwrap();
    assert_eq!(u.honey_drops, taken);
    assert_eq!(s.honey_drop_remains, left);
}

#[test]
fn harvest_without_a_full_cycle_is_refused_even_with_an_overflowing_pool() {
    let mut s = state();
    set_state_config(&mut s, None, None, None, None, None, None, Some([u64::MAX, 1, 0, 0]));
    let before = s;
    let m = mvb(5, 1);
    let mut lock = locked_since(100);
    let mut u = init_user(&[1; 32]);
    let r = harvest(&mut s, &mut lock, &mut u, &m, &clock(120), &[1; 8], &[2; 32], &[3; 32]);
    assert_eq!(r, Some(Err(AppErrorCode::InsufficientCycleTime)));
    assert_eq!(s, before);
}
