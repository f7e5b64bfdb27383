//! Properties that relate the program's instructions to one another.
use vstd::prelude::*;

use vstd::arithmetic::div_mod::{lemma_div_is_ordered, lemma_fundamental_div_mod, lemma_mod_pos_bound};
use vstd::arithmetic::mul::lemma_mul_inequality;

use crate::accounts::{
    lock_duration_after, lock_duration_computable, AppErrorCode, MvbAccount, MvbEditionAccount, MvbUserAccount,
    NftLockAccount, StateAccount, UserAccount,
};
use crate::honey::{drop_total, lemma_remains_after_draws};
use crate::instructions::{
    harvest_counters_fit, airdrop_leaf, airdrop_printed, drawn, harvest_effect, lock_after_cycle, locked, mint_error,
    minted, stake_value, staked, unlocked, unstake_outcome,
};
use crate::merkle_proof::merkle_root;

verus! {

/// Once the lock duration has passed since a stake, unstaking returns every
/// token staked, those staked before included, and leaves none staked.
pub proof fn lemma_unstake_returns_stake(
    user: UserAccount,
    state: StateAccount,
    amount: u64,
    value: int,
    staked_at: i64,
    now: i64,
)
    requires
        user.lp_staked_amount + amount <= u64::MAX,
        staked_at + state.lock_duration <= now,
    ensures
        unstake_outcome(staked(user, amount, value, staked_at), state, now).0 == Ok::<
            u64,
            AppErrorCode,
        >((user.lp_staked_amount + amount) as u64),
        unstake_outcome(staked(user, amount, value, staked_at), state, now).1.lp_staked_amount == 0,
{
}

/// Before the lock duration has passed since a stake, unstaking is refused
/// and the stake stays as it is.
pub proof fn lemma_unstake_refused_under_lock(
    user: UserAccount,
    state: StateAccount,
    amount: u64,
    value: int,
    staked_at: i64,
    now: i64,
)
    requires
        staked_at + state.lock_duration > now,
    ensures
        unstake_outcome(staked(user, amount, value, staked_at), state, now) == (
            Err::<u64, AppErrorCode>(AppErrorCode::UnderLock),
            staked(user, amount, value, staked_at),
        ),
{
}

/// Unlocking an NFT adds the time since it was locked to the time counted
/// before, and leaves it unlocked.
pub proof fn lemma_unlock_counts_lock_time(
    lock: NftLockAccount,
    authority: [u8; 32],
    parent_mint: [u8; 32],
    mint: [u8; 32],
    edition: u64,
    locked_at: i64,
    now: i64,
)
    requires
        i64::MIN <= lock.locked_duration + (now - locked_at) <= i64::MAX,
    ensures
        unlocked(locked(lock, authority, parent_mint, mint, edition, locked_at), now).locked_duration
            == lock.locked_duration + (now - locked_at),
        unlocked(locked(lock, authority, parent_mint, mint, edition, locked_at), now).locking == 0,
        unlocked(locked(lock, authority, parent_mint, mint, edition, locked_at), now).last_calculated_at
            == now,
{
}

/// A harvest creates no honey drop and loses none: for each kind, the
/// user's drops plus the program's remaining drops stay the same, and a
/// successful harvest takes exactly `num` drops from the program.
pub proof fn lemma_harvest_moves_drops(
    s0: StateAccount,
    l0: NftLockAccount,
    u0: UserAccount,
    num: u64,
    now: i64,
    random: u64,
    r: Option<Result<(), AppErrorCode>>,
    s1: StateAccount,
    l1: NftLockAccount,
    u1: UserAccount,
)
    requires
        harvest_effect(s0, l0, u0, num, now, random, r, s1, l1, u1),
    ensures
        forall|j: int|
            0 <= j < 4 ==> #[trigger] u1.honey_drops@[j] + s1.honey_drop_remains@[j]
                == u0.honey_drops@[j] + s0.honey_drop_remains@[j],
        r == Some(Ok::<(), AppErrorCode>(())) ==> drop_total(s1.honey_drop_remains@) == drop_total(
            s0.honey_drop_remains@,
        ) - num,
{
    if r == Some(Ok::<(), AppErrorCode>(())) {
        lemma_remains_after_draws(s0.honey_drop_remains@, random, num as nat);
        assert forall|j: int|
            0 <= j < 4 implies #[trigger] u1.honey_drops@[j] + s1.honey_drop_remains@[j]
                == u0.honey_drops@[j] + s0.honey_drop_remains@[j] by {
            assert(u1.honey_drops@[j] == u0.honey_drops@[j] + drawn(
                s0.honey_drop_remains@,
                random,
                num,
            )[j]);
        }
    }
}

/// A print that goes through never takes the master's or the program's
/// count of prints beyond its total supply, and the new edition's number
/// is the master's new count, at least one.
pub proof fn lemma_print_within_supply(
    s0: StateAccount,
    m0: MvbAccount,
    s1: StateAccount,
    m1: MvbAccount,
    edition: MvbEditionAccount,
    new_mint: [u8; 32],
    mvb_key: [u8; 32],
    now: i64,
)
    requires
        mint_error(s0, m0, now) is None,
        minted(s0, m0, s1, m1, edition, new_mint, mvb_key),
    ensures
        s1.num_minted <= s1.total_supply,
        m1.num_minted <= m1.total_supply,
        edition.index == m1.num_minted,
        edition.index >= 1,
        edition.index == m0.num_minted + 1,
        edition.mint == new_mint,
        edition.mvb == mvb_key,
        edition.added_to_collection == 0,
{
}

/// Staking more LP tokens into the same pool never credits less value, and
/// staking none credits no value and stakes nothing.
pub proof fn lemma_stake_value_monotone(
    user: UserAccount,
    smaller: u64,
    larger: u64,
    lp_supply: u64,
    lp_usd_amount: u64,
    now: i64,
)
    requires
        smaller <= larger,
        lp_supply > 0,
    ensures
        stake_value(smaller, lp_supply, lp_usd_amount) <= stake_value(
            larger,
            lp_supply,
            lp_usd_amount,
        ),
        stake_value(0, lp_supply, lp_usd_amount) == 0,
        staked(user, 0, stake_value(0, lp_supply, lp_usd_amount), now).lp_staked_amount
            == user.lp_staked_amount,
        staked(user, 0, stake_value(0, lp_supply, lp_usd_amount), now).lp_staked_value
            == user.lp_staked_value,
{
    let pool: int = 2 * lp_usd_amount;
    lemma_mul_inequality(smaller as int, larger as int, pool);
    assert(smaller * (2 * lp_usd_amount) == (smaller as int) * pool);
    assert(larger * (2 * lp_usd_amount) == (larger as int) * pool);
    lemma_div_is_ordered((smaller as int) * pool, (larger as int) * pool, lp_supply as int);
    assert(0 * (2 * lp_usd_amount) == 0);
}

/// Successive prints of one master number its editions 1, 2, ..., n in the
/// order they are printed, when the master starts with no prints and
/// nothing but a print changes its count between prints.
pub proof fn lemma_editions_numbered_in_order(
    states_before: Seq<StateAccount>,
    states_after: Seq<StateAccount>,
    masters_before: Seq<MvbAccount>,
    masters_after: Seq<MvbAccount>,
    editions: Seq<MvbEditionAccount>,
    mvb_key: [u8; 32],
)
    requires
        editions.len() <= u64::MAX,
        states_before.len() == editions.len(),
        states_after.len() == editions.len(),
        masters_before.len() == editions.len(),
        masters_after.len() == editions.len(),
        editions.len() > 0 ==> masters_before[0].num_minted == 0,
        forall|i: int|
            0 <= i < editions.len() - 1 ==> #[trigger] masters_before[i + 1].num_minted
                == masters_after[i].num_minted,
        forall|i: int|
            0 <= i < editions.len() ==> minted(
                #[trigger] states_before[i],
                masters_before[i],
                states_after[i],
                masters_after[i],
                editions[i],
                editions[i].mint,
                mvb_key,
            ),
    ensures
        forall|i: int| 0 <= i < editions.len() ==> #[trigger] editions[i].index == i + 1,
        editions.len() > 0 ==> masters_after[editions.len() - 1].num_minted == editions.len(),
    decreases editions.len(),
{
    let n = editions.len();
    if n > 0 {
        let k = n - 1;
        lemma_editions_numbered_in_order(
            states_before.take(k),
            states_after.take(k),
            masters_before.take(k),
            masters_after.take(k),
            editions.take(k),
            mvb_key,
        );
        assert(minted(
            states_before[k],
            masters_before[k],
            states_after[k],
            masters_after[k],
            editions[k],
            editions[k].mint,
            mvb_key,
        ));
        if k > 0 {
            assert(masters_before[(k - 1) + 1].num_minted == masters_after[k - 1].num_minted);
            assert(masters_after.take(k)[k - 1] == masters_after[k - 1]);
        }
        assert forall|i: int| 0 <= i < n implies #[trigger] editions[i].index == i + 1 by {
            if i < k {
                assert(editions.take(k)[i] == editions[i]);
            }
        }
    }
}

/// A user's successful airdrop prints of one master never outnumber the
/// largest amount for which the user's leaf has a proof under the root:
/// each one needs fewer prints so far than its amount, and each adds one.
pub proof fn lemma_airdrops_within_allowance(
    users: Seq<MvbUserAccount>,
    amounts: Seq<u64>,
    proofs: Seq<Seq<Seq<u8>>>,
    authority: Seq<u8>,
    root: Seq<u8>,
    allowance: u64,
)
    requires
        users.len() == amounts.len() + 1,
        proofs.len() == amounts.len(),
        users[0].airdrop_num_minted == 0,
        forall|i: int|
            0 <= i < amounts.len() ==> airdrop_printed(
                #[trigger] users[i],
                users[i + 1],
                authority,
                amounts[i],
                proofs[i],
                root,
            ),
        forall|a: u64, p: Seq<Seq<u8>>|
            #[trigger] merkle_root(airdrop_leaf(authority, a), p) == root ==> a <= allowance,
    ensures
        amounts.len() <= allowance,
        users[amounts.len() as int].airdrop_num_minted == amounts.len(),
    decreases amounts.len(),
{
    let n = amounts.len();
    if n > 0 {
        let k = n - 1;
        lemma_airdrops_within_allowance(
            users.take(n as int),
            amounts.take(k),
            proofs.take(k),
            authority,
            root,
            allowance,
        );
        assert(users.take(n as int)[k] == users[k]);
        assert(airdrop_printed(users[k], users[k + 1], authority, amounts[k], proofs[k], root));
        assert(merkle_root(airdrop_leaf(authority, amounts[k]), proofs[k]) == root);
    }
}

/// One successful call on a lock record, at a clock time.
pub enum LockCall {
    /// `lock_nft` at `at`, recording the owner, the mints and the edition.
    Lock { at: i64, authority: [u8; 32], parent_mint: [u8; 32], mint: [u8; 32], edition: u64 },
    /// `unlock_nft` at `at`.
    Unlock { at: i64 },
    /// `harvest` at `at`.
    Harvest { at: i64 },
}

/// The clock time of a call.
pub open spec fn call_time(c: LockCall) -> i64 {
    match c {
        LockCall::Lock { at, .. } => at,
        LockCall::Unlock { at } => at,
        LockCall::Harvest { at } => at,
    }
}

/// The lock record after one call, and whether the call harvested a cycle.
/// A harvest without a full cycle of counted time fails and, like every
/// failed instruction, leaves the record as it was.
pub open spec fn after_call(lock: NftLockAccount, state: StateAccount, c: LockCall) -> (
    NftLockAccount,
    bool,
) {
    match c {
        LockCall::Lock { at, authority, parent_mint, mint, edition } => (
            locked(lock, authority, parent_mint, mint, edition, at),
            false,
        ),
        LockCall::Unlock { at } => (unlocked(lock, at), false),
        LockCall::Harvest { at } => if lock_duration_after(lock, at).locked_duration
            >= state.honey_drop_cycle {
            (lock_after_cycle(lock, state, at), true)
        } else {
            (lock, false)
        },
    }
}

/// The time of the last call, or `start` when there is none.
pub open spec fn last_time(start: i64, calls: Seq<LockCall>) -> i64 {
    if calls.len() == 0 {
        start
    } else {
        call_time(calls.last())
    }
}

/// After the calls in order, from `lock` at time `start`: the lock record,
/// the number of cycles harvested, and the clock time during which the NFT
/// was locked.
pub open spec fn run_calls(
    lock: NftLockAccount,
    state: StateAccount,
    start: i64,
    calls: Seq<LockCall>,
) -> (NftLockAccount, nat, int)
    decreases calls.len(),
{
    if calls.len() == 0 {
        (lock, 0, 0)
    } else {
        let before = run_calls(lock, state, start, calls.drop_last());
        let step = after_call(before.0, state, calls.last());
        let elapsed = if before.0.locking != 0 {
            call_time(calls.last()) - last_time(start, calls.drop_last())
        } else {
            0
        };
        (step.0, if step.1 {
            before.1 + 1
        } else {
            before.1
        }, before.2 + elapsed)
    }
}

/// Whether the calls come at times from `start` on, never going back.
pub open spec fn calls_in_time_order(start: i64, calls: Seq<LockCall>) -> bool {
    &&& forall|i: int| 0 <= i < calls.len() ==> start <= #[trigger] call_time(calls[i])
    &&& forall|i: int, j: int|
        0 <= i <= j < calls.len() ==> call_time(#[trigger] calls[i]) <= call_time(
            #[trigger] calls[j],
        )
}

/// Whether each call's counting of the lock's time stays within `i64`, as
/// `unlock_nft` and `harvest` require: where it would not, the call panics
/// and is no successful call.
pub open spec fn calls_fit(
    lock: NftLockAccount,
    state: StateAccount,
    start: i64,
    calls: Seq<LockCall>,
) -> bool
    decreases calls.len(),
{
    if calls.len() == 0 {
        true
    } else {
        &&& calls_fit(lock, state, start, calls.drop_last())
        &&& match calls.last() {
            LockCall::Lock { .. } => true,
            LockCall::Unlock { at } => lock_duration_computable(
                run_calls(lock, state, start, calls.drop_last()).0,
                at,
            ),
            LockCall::Harvest { at } => lock_duration_computable(
                run_calls(lock, state, start, calls.drop_last()).0,
                at,
            ),
        }
    }
}

/// What holds after every prefix of the calls: the counted time is not
/// negative, and the counted time, the harvested cycles and the time not
/// yet counted together fit in the time spent locked.
proof fn lemma_run_calls_invariant(
    lock: NftLockAccount,
    state: StateAccount,
    start: i64,
    calls: Seq<LockCall>,
)
    requires
        lock.locking == 0,
        lock.locked_duration == 0,
        state.honey_drop_cycle > 0,
        calls_in_time_order(start, calls),
        calls_fit(lock, state, start, calls),
    ensures
        ({
            let r = run_calls(lock, state, start, calls);
            let now = last_time(start, calls);
            &&& 0 <= r.0.locked_duration
            &&& r.0.locking != 0 ==> r.0.last_calculated_at <= now
            &&& r.0.locked_duration + r.1 * state.honey_drop_cycle + (if r.0.locking != 0 {
                now - r.0.last_calculated_at
            } else {
                0
            }) <= r.2
            &&& 0 <= r.2
            &&& start <= now
        }),
    decreases calls.len(),
{
    if calls.len() > 0 {
        let prefix = calls.drop_last();
        assert forall|i: int| 0 <= i < prefix.len() implies start <= #[trigger] call_time(
            prefix[i],
        ) by {
            assert(prefix[i] == calls[i]);
        }
        assert forall|i: int, j: int| 0 <= i <= j < prefix.len() implies call_time(
            #[trigger] prefix[i],
        ) <= call_time(#[trigger] prefix[j]) by {
            assert(prefix[i] == calls[i]);
            assert(prefix[j] == calls[j]);
        }
        lemma_run_calls_invariant(lock, state, start, prefix);
        let before = run_calls(lock, state, start, prefix);
        let prev = last_time(start, prefix);
        let c = calls.last();
        let t = call_time(c);
        let cycle = state.honey_drop_cycle;
        assert(prev <= t) by {
            if prefix.len() > 0 {
                assert(prefix.last() == calls[calls.len() - 2]);
                assert(call_time(calls[calls.len() - 2]) <= call_time(calls[calls.len() - 1]));
            } else {
                assert(start <= call_time(calls[calls.len() - 1]));
            }
        }
        let h = before.1;
        assert((h + 1) * cycle == h * cycle + cycle) by (nonlinear_arith);
        assert(h * cycle >= 0) by (nonlinear_arith)
            requires
                cycle > 0,
        ;
    }
}

/// Over any run of successful `lock_nft`, `unlock_nft` and `harvest` calls
/// on a new lock record, at clock times that never go back (and with no
/// call panicking on an overflow of the counted time), the cycles
/// harvested never amount to more than the time the NFT spent locked, and
/// the counted time never goes negative.
pub proof fn lemma_harvests_within_locked_time(
    lock: NftLockAccount,
    state: StateAccount,
    start: i64,
    calls: Seq<LockCall>,
)
    requires
        lock.locking == 0,
        lock.locked_duration == 0,
        state.honey_drop_cycle > 0,
        calls_in_time_order(start, calls),
        calls_fit(lock, state, start, calls),
    ensures
        run_calls(lock, state, start, calls).1 * state.honey_drop_cycle <= run_calls(
            lock,
            state,
            start,
            calls,
        ).2,
        0 <= run_calls(lock, state, start, calls).0.locked_duration,
{
    lemma_run_calls_invariant(lock, state, start, calls);
}

/// The value credited for a stake is the pool's value times the share of
/// the supply staked, rounded down: the largest whole number `v` with
/// `v * lp_supply <= amount * 2 * lp_usd_amount`.
pub proof fn lemma_stake_value_is_the_rounded_down_share(
    amount: u64,
    lp_supply: u64,
    lp_usd_amount: u64,
)
    requires
        lp_supply > 0,
    ensures
        0 <= stake_value(amount, lp_supply, lp_usd_amount),
        stake_value(amount, lp_supply, lp_usd_amount) * lp_supply <= amount * 2 * lp_usd_amount,
        amount * 2 * lp_usd_amount < (stake_value(amount, lp_supply, lp_usd_amount) + 1)
            * lp_supply,
{
    let x: int = amount * (2 * lp_usd_amount);
    let d: int = lp_supply as int;
    assert(amount * 2 * lp_usd_amount == x) by (nonlinear_arith)
        requires
            x == amount * (2 * lp_usd_amount),
    ;
    lemma_fundamental_div_mod(x, d);
    lemma_mod_pos_bound(x, d);
    let q = x / d;
    assert(q == stake_value(amount, lp_supply, lp_usd_amount));
    assert(q * d == d * q) by (nonlinear_arith);
    assert((q + 1) * d == q * d + d) by (nonlinear_arith);
    assert(x >= 0) by (nonlinear_arith)
        requires
            x == amount * (2 * lp_usd_amount),
    ;
    if q < 0 {
        assert(q * d <= -d) by (nonlinear_arith)
            requires
                q < 0,
                d > 0,
        ;
    }
}

/// A successful harvest pays for exactly one cycle: the lock's counted time
/// afterwards is the time counted before, plus the time since the last count
/// while the NFT is locked, minus one cycle; the count is moved to the
/// harvest's time while locked, and nothing else in the lock record changes.
pub proof fn lemma_harvest_pays_one_cycle(
    s0: StateAccount,
    l0: NftLockAccount,
    u0: UserAccount,
    num: u64,
    now: i64,
    random: u64,
    s1: StateAccount,
    l1: NftLockAccount,
    u1: UserAccount,
)
    requires
        harvest_counters_fit(s0, l0, now),
        harvest_effect(s0, l0, u0, num, now, random, Some(Ok::<(), AppErrorCode>(())), s1, l1, u1),
    ensures
        l1.locked_duration == l0.locked_duration + (if l0.locking != 0 {
            now - l0.last_calculated_at
        } else {
            0
        }) - s0.honey_drop_cycle,
        l1.locked_duration >= 0 || s0.honey_drop_cycle < 0,
        l1.last_calculated_at == (if l0.locking != 0 {
            now
        } else {
            l0.last_calculated_at
        }),
        l1 == (NftLockAccount {
            locked_duration: l1.locked_duration,
            last_calculated_at: l1.last_calculated_at,
            ..l0
        }),
{
}

} // verus!
