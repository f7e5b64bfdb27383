//! Drawing honey drops.
//!
//! The state keeps a count of the remaining drops of each of the four kinds.
//! A draw lays the remaining drops out kind after kind, takes the drop at
//! position `random % total`, and removes it. Every draw of one harvest uses
//! the same random value, while the total shrinks by one per draw.
use std::collections::hash_map::DefaultHasher;
use std::hash::Hasher;
use vstd::std_specs::hash::DefaultHasherAdditionalSpecFns;
use vstd::prelude::*;

use crate::accounts::{AppErrorCode, StateAccount};

verus! {

/// The number of remaining drops of the first `n` kinds.
pub open spec fn prefix_sum(s: Seq<u64>, n: int) -> int {
    if n <= 0 {
        0
    } else if n == 1 {
        s[0] as int
    } else if n == 2 {
        s[0] + s[1]
    } else if n == 3 {
        s[0] + s[1] + s[2]
    } else {
        s[0] + s[1] + s[2] + s[3]
    }
}

/// The number of remaining drops of all four kinds.
pub open spec fn drop_total(s: Seq<u64>) -> int {
    prefix_sum(s, 4)
}

/// The kind of the drop at position `target` when the remaining drops are
/// laid out kind after kind (4 when there is no such drop).
pub open spec fn drop_index(s: Seq<u64>, target: int) -> int {
    if target < prefix_sum(s, 1) {
        0
    } else if target < prefix_sum(s, 2) {
        1
    } else if target < prefix_sum(s, 3) {
        2
    } else if target < prefix_sum(s, 4) {
        3
    } else {
        4
    }
}

/// The remaining counts after one drop is drawn with `random`.
pub open spec fn draw_one(s: Seq<u64>, random: u64) -> Seq<u64> {
    let i = drop_index(s, random as int % drop_total(s));
    s.update(i, (s[i] - 1) as u64)
}

/// The remaining counts after `k` drops are drawn with `random`.
pub open spec fn remains_after_draws(s: Seq<u64>, random: u64, k: nat) -> Seq<u64>
    decreases k,
{
    if k == 0 {
        s
    } else {
        draw_one(remains_after_draws(s, random, (k - 1) as nat), random)
    }
}

/// One draw from a non-empty pool takes a drop of a kind that has one, and
/// the pool shrinks by exactly that drop.
pub proof fn lemma_draw_one(s: Seq<u64>, random: u64)
    requires
        s.len() == 4,
        drop_total(s) > 0,
    ensures
        0 <= drop_index(s, random as int % drop_total(s)) < 4,
        s[drop_index(s, random as int % drop_total(s))] > 0,
        draw_one(s, random).len() == 4,
        drop_total(draw_one(s, random)) == drop_total(s) - 1,
        forall|j: int| 0 <= j < 4 ==> #[trigger] draw_one(s, random)[j] <= s[j],
{
}

/// After `k` draws from a pool of at least `k` drops the pool has exactly `k`
/// drops fewer, and no kind has grown.
pub proof fn lemma_remains_after_draws(s: Seq<u64>, random: u64, k: nat)
    requires
        s.len() == 4,
        k <= drop_total(s),
    ensures
        remains_after_draws(s, random, k).len() == 4,
        drop_total(remains_after_draws(s, random, k)) == drop_total(s) - k,
        forall|j: int| 0 <= j < 4 ==> #[trigger] remains_after_draws(s, random, k)[j] <= s[j],
    decreases k,
{
    if k > 0 {
        lemma_remains_after_draws(s, random, (k - 1) as nat);
        lemma_draw_one(remains_after_draws(s, random, (k - 1) as nat), random);
    }
}

/// One draw takes the drop at position `random mod total` when the
/// remaining drops are laid out kind after kind: from the first kind when
/// the position is below its count, from the second when it is below the
/// first two counts, and so on. Drawing with `random` or with
/// `random mod total` is therefore the same.
pub proof fn lemma_draw_position(s: Seq<u64>, random: u64)
    requires
        s.len() == 4,
        s[0] + s[1] + s[2] + s[3] > 0,
    ensures
        ({
            let total = s[0] + s[1] + s[2] + s[3];
            let p = random as int % total;
            &&& p < s[0] ==> remains_after_draws(s, random, 1) == seq![
                (s[0] - 1) as u64,
                s[1],
                s[2],
                s[3],
            ]
            &&& s[0] <= p < s[0] + s[1] ==> remains_after_draws(s, random, 1) == seq![
                s[0],
                (s[1] - 1) as u64,
                s[2],
                s[3],
            ]
            &&& s[0] + s[1] <= p < s[0] + s[1] + s[2] ==> remains_after_draws(s, random, 1)
                == seq![s[0], s[1], (s[2] - 1) as u64, s[3]]
            &&& s[0] + s[1] + s[2] <= p ==> remains_after_draws(s, random, 1) == seq![
                s[0],
                s[1],
                s[2],
                (s[3] - 1) as u64,
            ]
            &&& 0 <= p <= random
            &&& remains_after_draws(s, random, 1) == remains_after_draws(s, p as u64, 1)
        }),
{
    let total = s[0] + s[1] + s[2] + s[3];
    let p = random as int % total;
    reveal_with_fuel(remains_after_draws, 2);
    assert(0 <= p <= random) by (nonlinear_arith)
        requires
            p == random as int % total,
            total > 0,
            random >= 0,
    ;
    assert((p as u64) as int % total == p) by (nonlinear_arith)
        requires
            0 <= p < total,
            (p as u64) as int == p,
    ;
}

/// The sum of the four counts, which the state requires to fit in a `u64`.
pub(crate) fn sum_drops(drops: &[u64; 4]) -> (total: u64)
    requires
        drop_total(drops@) <= u64::MAX,
    ensures
        total as int == drop_total(drops@),
{
    let mut total: u64 = 0;
    let mut i: usize = 0;
    while i < 4
        invariant
            0 <= i <= 4,
            drops@.len() == 4,
            total as int == prefix_sum(drops@, i as int),
            drop_total(drops@) <= u64::MAX,
        decreases 4 - i,
    {
        total = total + drops[i];
        i = i + 1;
    }
    total
}

/// Draws `num` honey drops from the counts `remains`, every draw using
/// `random`. Returns the number drawn of each kind and the counts left, or
/// `InsufficientHoneyDrop` when fewer than `num` drops remain.
pub fn draw_honey_drops(remains: &[u64; 4], random: u64, num: u64) -> (r: Result<
    ([u64; 4], [u64; 4]),
    AppErrorCode,
>)
    requires
        drop_total(remains@) <= u64::MAX,
    ensures
        r is Err <==> num > drop_total(remains@),
        r matches Err(e) ==> e == AppErrorCode::InsufficientHoneyDrop,
        r matches Ok(res) ==> {
            &&& res.1@ == remains_after_draws(remains@, random, num as nat)
            &&& drop_total(res.0@) == num
            &&& drop_total(res.1@) == drop_total(remains@) - num
            &&& forall|j: int| 0 <= j < 4 ==> #[trigger] res.0@[j] + res.1@[j] == remains@[j]
        },
{
    let mut total_drops: u64 = sum_drops(remains);
    let mut honey_drop_clones: [u64; 4] = *remains;

    if num > total_drops {
        return Err(AppErrorCode::InsufficientHoneyDrop);
    }

    let mut honey_drop_results: [u64; 4] = [0u64; 4];
    let mut k: u64 = 0;
    while k < num
        invariant
            0 <= k <= num <= drop_total(remains@),
            remains@.len() == 4,
            honey_drop_clones@ == remains_after_draws(remains@, random, k as nat),
            total_drops as int == drop_total(honey_drop_clones@),
            total_drops as int == drop_total(remains@) - k,
            forall|j: int|
                0 <= j < 4 ==> #[trigger] honey_drop_results@[j] + honey_drop_clones@[j]
                    == remains@[j],
        decreases num - k,
    {
        proof {
            lemma_remains_after_draws(remains@, random, k as nat);
            lemma_draw_one(honey_drop_clones@, random);
        }
        let last_drop_index = random % total_drops;
        let mut index: usize = 0;
        let mut drop_acc: u64 = 0;
        while index < 4
            invariant_except_break
                0 <= index <= 4,
                honey_drop_clones@.len() == 4,
                drop_acc as int == prefix_sum(honey_drop_clones@, index as int),
                drop_acc <= last_drop_index < total_drops,
                total_drops as int == drop_total(honey_drop_clones@),
                forall|j: int|
                    0 <= j < index ==> #[trigger] prefix_sum(honey_drop_clones@, j + 1)
                        <= last_drop_index,
            ensures
                0 <= index < 4,
                prefix_sum(honey_drop_clones@, index as int) <= last_drop_index,
                last_drop_index < prefix_sum(honey_drop_clones@, index + 1),
            decreases 4 - index,
        {
            if honey_drop_clones[index] + drop_acc > last_drop_index {
                break;
            }
            drop_acc = drop_acc + honey_drop_clones[index];
            index = index + 1;
        }
        assert(index as int == drop_index(honey_drop_clones@, last_drop_index as int));

        honey_drop_results[index] = honey_drop_results[index] + 1;
        let taken = honey_drop_clones[index].checked_sub(1).unwrap();
        honey_drop_clones[index] = taken;
        total_drops = total_drops - 1;
        k = k + 1;
        assert(honey_drop_clones@ == remains_after_draws(remains@, random, k as nat));
    }

    proof {
        lemma_remains_after_draws(remains@, random, num as nat);
    }
    Ok((honey_drop_results, honey_drop_clones))
}

impl StateAccount {
    /// Draws `num` honey drops from the remaining ones, using the value that
    /// `hasher` finishes with, and removes them from `honey_drop_remains`.
    /// Fails with `InsufficientHoneyDrop`, changing nothing, when fewer than
    /// `num` drops remain.
    pub fn take_honey_drops(&mut self, hasher: &DefaultHasher, num: u64) -> (r: Result<
        [u64; 4],
        AppErrorCode,
    >)
        requires
            drop_total(old(self).honey_drop_remains@) <= u64::MAX,
        ensures
            r is Err <==> num > drop_total(old(self).honey_drop_remains@),
            r matches Err(e) ==> e == AppErrorCode::InsufficientHoneyDrop && *final(self) == *old(
                self,
            ),
            r matches Ok(drops) ==> {
                &&& final(self).honey_drop_remains@ == remains_after_draws(
                    old(self).honey_drop_remains@,
                    DefaultHasher::spec_finish(hasher@),
                    num as nat,
                )
                &&& forall|j: int|
                    0 <= j < 4 ==> #[trigger] drops@[j] + final(self).honey_drop_remains@[j]
                        == old(self).honey_drop_remains@[j]
                &&& *final(self) == (StateAccount {
                    honey_drop_remains: final(self).honey_drop_remains,
                    ..*old(self)
                })
            },
    {
        let random = hasher.finish();
        match draw_honey_drops(&self.honey_drop_remains, random, num) {
            Err(e) => Err(e),
            Ok((drops, left)) => {
                self.honey_drop_remains = left;
                Ok(drops)
            },
        }
    }
}

} // verus!
