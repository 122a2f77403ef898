//! A hashed hierarchical timing wheel: six levels of 64 slots each.
//!
//! Level `l` buckets cover `64^l` milliseconds, so insertion and cascade
//! are O(1) amortized.  Absolute time is tracked in milliseconds since the
//! wheel's construction (`elapsed`).  A timer sits at the lowest level
//! whose bucket span still separates it from `elapsed`; as the wheel's
//! cursor advances past coarser buckets their timers cascade down, and a
//! timer fires from level zero, where a bucket holds exactly one
//! millisecond.  Firing therefore happens in non-decreasing expiry order.

use vstd::prelude::*;
use vstd::multiset::Multiset;
use crate::error::OpError;
use vstd::arithmetic::div_mod::{
    lemma_div_denominator, lemma_div_is_ordered, lemma_fundamental_div_mod,
    lemma_fundamental_div_mod_converse,
};

verus! {

/// The span of one slot at level `l`, in milliseconds: `64^l`.
pub open spec fn pow_level(l: int) -> u64 {
    if l <= 0 {
        1
    } else if l == 1 {
        64
    } else if l == 2 {
        4096
    } else if l == 3 {
        262144
    } else if l == 4 {
        16777216
    } else if l == 5 {
        1073741824
    } else {
        68719476736
    }
}

/// Executable slot span for the levels of the wheel.
pub fn level_span(l: usize) -> (r: u64)
    requires
        l <= 6,
    ensures
        r == pow_level(l as int),
{
    if l == 0 {
        1
    } else if l == 1 {
        64
    } else if l == 2 {
        4096
    } else if l == 3 {
        262144
    } else if l == 4 {
        16777216
    } else if l == 5 {
        1073741824
    } else {
        68719476736
    }
}

/// One registered timer: its absolute expiry in milliseconds, its
/// generation key, and the task to wake when it fires.
#[derive(Clone, Copy, Debug, PartialEq, Eq, Structural)]
pub struct TimerEntry {
    pub when: u64,
    pub key: u64,
    pub waker: u64,
}

/// A timer parked at level `l`, slot `s`, is in the future, shares its
/// level-`l+1` block with the cursor, and hashes to `s` by its level-`l`
/// quotient.
pub open spec fn entry_ok(e: TimerEntry, l: int, s: int, elapsed: u64) -> bool {
    &&& elapsed <= e.when
    &&& e.when as int / pow_level(l + 1) as int == elapsed as int / pow_level(l + 1) as int
    &&& (e.when as int / pow_level(l) as int) % 64 == s
}

/// Total number of timers across the slots of one level.
pub open spec fn slots_count(slots: Seq<Vec<TimerEntry>>) -> nat
    decreases slots.len(),
{
    if slots.len() == 0 {
        0
    } else {
        slots_count(slots.drop_last()) + slots.last()@.len()
    }
}

/// All timers across the slots of one level, as a multiset.
pub open spec fn slots_mset(slots: Seq<Vec<TimerEntry>>) -> Multiset<TimerEntry>
    decreases slots.len(),
{
    if slots.len() == 0 {
        Multiset::empty()
    } else {
        slots_mset(slots.drop_last()).add(slots.last()@.to_multiset())
    }
}

/// The cascade measure: every timer weighs one more than its level, so a
/// cascade (which only moves timers to strictly lower levels) and a fire
/// (which removes timers) both strictly shrink it.
pub open spec fn levels_weight(levels: Seq<Vec<Vec<TimerEntry>>>) -> nat
    decreases levels.len(),
{
    if levels.len() == 0 {
        0
    } else {
        levels_weight(levels.drop_last()) + slots_count(levels.last()@) * levels.len()
    }
}

/// All timers in the wheel, as a multiset.
pub open spec fn levels_mset(levels: Seq<Vec<Vec<TimerEntry>>>) -> Multiset<TimerEntry>
    decreases levels.len(),
{
    if levels.len() == 0 {
        Multiset::empty()
    } else {
        levels_mset(levels.drop_last()).add(slots_mset(levels.last()@))
    }
}

proof fn lemma_slots_count_update(slots: Seq<Vec<TimerEntry>>, i: int, v: Vec<TimerEntry>)
    requires
        0 <= i < slots.len(),
    ensures
        slots_count(slots.update(i, v)) + slots[i]@.len() == slots_count(slots) + v@.len(),
    decreases slots.len(),
{
    let u = slots.update(i, v);
    if i == slots.len() - 1 {
        assert(u.drop_last() =~= slots.drop_last());
    } else {
        assert(u.drop_last() =~= slots.drop_last().update(i, v));
        lemma_slots_count_update(slots.drop_last(), i, v);
        assert(u.last() == slots.last());
    }
}

proof fn lemma_slots_mset_update(slots: Seq<Vec<TimerEntry>>, i: int, v: Vec<TimerEntry>)
    requires
        0 <= i < slots.len(),
    ensures
        slots_mset(slots.update(i, v)).add(slots[i]@.to_multiset())
            =~= slots_mset(slots).add(v@.to_multiset()),
    decreases slots.len(),
{
    let u = slots.update(i, v);
    if i == slots.len() - 1 {
        assert(u.drop_last() =~= slots.drop_last());
    } else {
        assert(u.drop_last() =~= slots.drop_last().update(i, v));
        lemma_slots_mset_update(slots.drop_last(), i, v);
        assert(u.last() == slots.last());
        assert(slots.drop_last()[i] == slots[i]);
        assert forall|x: TimerEntry|
            slots_mset(u).add(slots[i]@.to_multiset()).count(x)
                == slots_mset(slots).add(v@.to_multiset()).count(x) by {
            assert(slots_mset(u.drop_last()).add(slots.drop_last()[i]@.to_multiset()).count(x)
                == slots_mset(slots.drop_last()).add(v@.to_multiset()).count(x));
        }
    }
}

proof fn lemma_levels_weight_update(levels: Seq<Vec<Vec<TimerEntry>>>, l: int, v: Vec<Vec<TimerEntry>>)
    requires
        0 <= l < levels.len(),
    ensures
        levels_weight(levels.update(l, v)) + slots_count(levels[l]@) * (l + 1)
            == levels_weight(levels) + slots_count(v@) * (l + 1),
    decreases levels.len(),
{
    let u = levels.update(l, v);
    if l == levels.len() - 1 {
        assert(u.drop_last() =~= levels.drop_last());
    } else {
        assert(u.drop_last() =~= levels.drop_last().update(l, v));
        lemma_levels_weight_update(levels.drop_last(), l, v);
        assert(u.last() == levels.last());
    }
}

proof fn lemma_levels_mset_update(levels: Seq<Vec<Vec<TimerEntry>>>, l: int, v: Vec<Vec<TimerEntry>>)
    requires
        0 <= l < levels.len(),
    ensures
        levels_mset(levels.update(l, v)).add(slots_mset(levels[l]@))
            =~= levels_mset(levels).add(slots_mset(v@)),
    decreases levels.len(),
{
    let u = levels.update(l, v);
    if l == levels.len() - 1 {
        assert(u.drop_last() =~= levels.drop_last());
    } else {
        assert(u.drop_last() =~= levels.drop_last().update(l, v));
        lemma_levels_mset_update(levels.drop_last(), l, v);
        assert(u.last() == levels.last());
        assert(levels.drop_last()[l] == levels[l]);
        assert forall|x: TimerEntry|
            levels_mset(u).add(slots_mset(levels[l]@)).count(x)
                == levels_mset(levels).add(slots_mset(v@)).count(x) by {
            assert(levels_mset(u.drop_last()).add(slots_mset(levels.drop_last()[l]@)).count(x)
                == levels_mset(levels.drop_last()).add(slots_mset(v@)).count(x));
        }
    }
}

/// Pushing one timer onto the slot at level `l`, slot `s`, adds it to the
/// wheel's timers and adds `l + 1` to the cascade measure.
proof fn lemma_push_into_slot(
    pre: Seq<Vec<Vec<TimerEntry>>>,
    post: Seq<Vec<Vec<TimerEntry>>>,
    new_level: Vec<Vec<TimerEntry>>,
    new_slot: Vec<TimerEntry>,
    l: int,
    s: int,
    e: TimerEntry,
)
    requires
        0 <= l < pre.len(),
        0 <= s < pre[l]@.len(),
        post == pre.update(l, new_level),
        new_level@ == pre[l]@.update(s, new_slot),
        new_slot@ == pre[l]@[s]@.push(e),
    ensures
        levels_mset(post) =~= levels_mset(pre).insert(e),
        levels_weight(post) == levels_weight(pre) + l + 1,
{
    broadcast use vstd::seq_lib::group_to_multiset_ensures;

    let old_level = pre[l];
    let old_slot = pre[l]@[s];
    lemma_levels_mset_update(pre, l, new_level);
    lemma_slots_mset_update(old_level@, s, new_slot);
    assert(new_slot@.to_multiset() =~= old_slot@.to_multiset().insert(e));
    assert forall|x: TimerEntry|
        levels_mset(post).count(x) == levels_mset(pre).insert(e).count(x) by {
        assert(levels_mset(post).add(slots_mset(old_level@)).count(x)
            == levels_mset(pre).add(slots_mset(new_level@)).count(x));
        assert(slots_mset(new_level@).add(old_slot@.to_multiset()).count(x)
            == slots_mset(old_level@).add(new_slot@.to_multiset()).count(x));
    }
    lemma_levels_weight_update(pre, l, new_level);
    lemma_slots_count_update(old_level@, s, new_slot);
    assert(slots_count(new_level@) == slots_count(old_level@) + 1);
    vstd::arithmetic::mul::lemma_mul_is_distributive_add_other_way(
        l + 1,
        slots_count(old_level@) as int,
        1,
    );
}

/// The timing wheel.
pub struct TimerWheel {
    pub levels: Vec<Vec<Vec<TimerEntry>>>,
    pub elapsed: u64,
    pub next_key: u64,
}

impl TimerWheel {
    /// The timers parked at level `l`, slot `s`.
    pub open spec fn slot_seq(&self, l: int, s: int) -> Seq<TimerEntry>
        recommends
            0 <= l < 6,
            0 <= s < 64,
    {
        self.levels@[l]@[s]@
    }

    /// Six levels of 64 slots, every timer placed by [`entry_ok`].
    pub open spec fn wf(&self) -> bool {
        &&& self.levels@.len() == 6
        &&& forall|l: int| 0 <= l < 6 ==> (#[trigger] self.levels@[l])@.len() == 64
        &&& forall|l: int, s: int, k: int|
            0 <= l < 6 && 0 <= s < 64 && 0 <= k < self.slot_seq(l, s).len()
                ==> entry_ok(#[trigger] self.slot_seq(l, s)[k], l, s, self.elapsed)
    }

    /// All timers currently in the wheel.
    pub open spec fn timers(&self) -> Multiset<TimerEntry> {
        levels_mset(self.levels@)
    }

    pub fn new() -> (r: TimerWheel)
        ensures
            r.wf(),
            r.elapsed == 0,
            r.next_key == 0,
            r.timers() =~= Multiset::<TimerEntry>::empty(),
    {
        let mut levels: Vec<Vec<Vec<TimerEntry>>> = Vec::new();
        let mut l: usize = 0;
        while l < 6
            invariant
                l <= 6,
                levels@.len() == l,
                forall|i: int| 0 <= i < l ==> (#[trigger] levels@[i])@.len() == 64,
                forall|i: int, s: int| 0 <= i < l && 0 <= s < 64
                    ==> (#[trigger] levels@[i]@[s])@.len() == 0,
                levels_mset(levels@) =~= Multiset::<TimerEntry>::empty(),
                levels_weight(levels@) == 0,
            decreases 6 - l,
        {
            let mut slots: Vec<Vec<TimerEntry>> = Vec::new();
            let mut s: usize = 0;
            while s < 64
                invariant
                    s <= 64,
                    slots@.len() == s,
                    forall|j: int| 0 <= j < s ==> (#[trigger] slots@[j])@.len() == 0,
                    slots_mset(slots@) =~= Multiset::<TimerEntry>::empty(),
                    slots_count(slots@) == 0,
                decreases 64 - s,
            {
                let empty: Vec<TimerEntry> = Vec::new();
                proof {
                    broadcast use vstd::seq_lib::group_to_multiset_ensures;
                    broadcast use vstd::multiset::lemma_multiset_empty_len;
                    assert(slots@.push(empty).drop_last() =~= slots@);
                    assert(empty@.to_multiset().len() == 0);
                    assert(empty@.to_multiset() =~= Multiset::<TimerEntry>::empty());
                    assert(slots_mset(slots@.push(empty))
                        =~= slots_mset(slots@).add(empty@.to_multiset()));
                }
                slots.push(empty);
                s = s + 1;
            }
            proof {
                broadcast use vstd::multiset::lemma_multiset_empty_len;
                assert(levels@.push(slots).drop_last() =~= levels@);
                assert(levels_weight(levels@.push(slots))
                    == levels_weight(levels@) + slots_count(slots@) * (levels@.len() + 1));
                assert(levels_mset(levels@.push(slots))
                    =~= levels_mset(levels@).add(slots_mset(slots@)));
            }
            levels.push(slots);
            l = l + 1;
        }
        TimerWheel { levels, elapsed: 0, next_key: 0 }
    }
}

/// The level a timer is parked at: the lowest whose block around the
/// cursor still contains the expiry.
pub open spec fn level_of(elapsed: u64, when: u64) -> int {
    if when as int / 64 == elapsed as int / 64 {
        0
    } else if when as int / 4096 == elapsed as int / 4096 {
        1
    } else if when as int / 262144 == elapsed as int / 262144 {
        2
    } else if when as int / 16777216 == elapsed as int / 16777216 {
        3
    } else if when as int / 1073741824 == elapsed as int / 1073741824 {
        4
    } else {
        5
    }
}

/// An expiry clamped into the wheel's horizon: never in the past, and
/// never beyond the end of the cursor's top-level block.
pub open spec fn clamp_deadline(elapsed: u64, deadline: u64) -> u64 {
    let w: u64 = if deadline >= elapsed {
        deadline
    } else {
        elapsed
    };
    if w as int / pow_level(6) as int == elapsed as int / pow_level(6) as int {
        w
    } else {
        ((elapsed as int / pow_level(6) as int) * pow_level(6) as int + pow_level(6) as int
            - 1) as u64
    }
}

/// Division is monotone, so a value between two others that share a
/// quotient shares it too.
proof fn lemma_div_between(a: int, b: int, c: int, k: int)
    requires
        0 < k,
        0 <= a <= b <= c,
        a / k == c / k,
    ensures
        b / k == a / k,
{
    lemma_div_is_ordered(a, b, k);
    lemma_div_is_ordered(b, c, k);
}

impl TimerWheel {
    /// Parks one timer at its level and slot.  Requires the expiry to sit
    /// in the cursor's top-level block (what [`clamp_deadline`] enforces).
    fn insert_entry(&mut self, e: TimerEntry)
        requires
            old(self).wf(),
            old(self).elapsed <= e.when,
            e.when as int / pow_level(6) as int
                == old(self).elapsed as int / pow_level(6) as int,
        ensures
            final(self).wf(),
            final(self).elapsed == old(self).elapsed,
            final(self).next_key == old(self).next_key,
            final(self).timers() =~= old(self).timers().insert(e),
            levels_weight(final(self).levels@)
                == levels_weight(old(self).levels@)
                    + level_of(old(self).elapsed, e.when) + 1,
    {
        let elapsed = self.elapsed;
        let lvl: usize = if e.when / 64 == elapsed / 64 {
            0
        } else if e.when / 4096 == elapsed / 4096 {
            1
        } else if e.when / 262144 == elapsed / 262144 {
            2
        } else if e.when / 16777216 == elapsed / 16777216 {
            3
        } else if e.when / 1073741824 == elapsed / 1073741824 {
            4
        } else {
            5
        };
        proof {
            assert(lvl as int == level_of(elapsed, e.when));
        }
        let span = level_span(lvl);
        let s = ((e.when / span) % 64) as usize;
        let ghost old_levels = self.levels@;
        let ghost old_level_vec = self.levels@[lvl as int];
        let ghost old_slot = self.levels@[lvl as int]@[s as int];
        let level = &mut self.levels[lvl];
        let slot = &mut level[s];
        slot.push(e);
        proof {
            let l = lvl as int;
            let si = s as int;
            assert(final(self).levels@ == old_levels.update(l, *final(level)));
            assert(final(level)@ == old_level_vec@.update(si, *final(slot)));
            assert(final(slot)@ == old_slot@.push(e));
            lemma_push_into_slot(
                old_levels,
                final(self).levels@,
                *final(level),
                *final(slot),
                l,
                si,
                e,
            );
            // Placement: the new timer satisfies the slot invariant.
            assert(entry_ok(e, l, si, elapsed)) by {
                assert((e.when as int / pow_level(l) as int) % 64 == si);
            }
            assert forall|l2: int, s2: int, k: int|
                0 <= l2 < 6 && 0 <= s2 < 64 && 0 <= k < final(self).slot_seq(l2, s2).len()
                    implies entry_ok(
                    final(self).slot_seq(l2, s2)[k],
                    l2,
                    s2,
                    final(self).elapsed,
                ) by {
                if l2 == l && s2 == si {
                    if k < old_slot@.len() {
                        assert(final(self).slot_seq(l2, s2)[k] == old(self).slot_seq(l2, s2)[k]);
                        assert(entry_ok(old(self).slot_seq(l2, s2)[k], l2, s2, elapsed));
                    } else {
                        assert(final(self).slot_seq(l2, s2)[k] == e);
                    }
                } else {
                    assert(final(self).slot_seq(l2, s2) == old(self).slot_seq(l2, s2));
                    assert(entry_ok(old(self).slot_seq(l2, s2)[k], l2, s2, elapsed));
                }
            }
        }
    }

    /// Registers a timer: the expiry is clamped into the wheel's horizon,
    /// the timer gets a fresh generation key, and it is parked until
    /// [`TimerWheel::advance`] reaches its expiry.  Registration fails
    /// exactly when the generation keys are spent.
    pub fn register(&mut self, deadline: u64, waker: u64) -> (r: Result<u64, OpError>)
        requires
            old(self).wf(),
        ensures
            final(self).wf(),
            final(self).elapsed == old(self).elapsed,
            old(self).next_key == u64::MAX <==> r == Result::<u64, OpError>::Err(
                OpError::ResourceExhausted),
            r is Err ==> *final(self) == *old(self),
            r matches Ok(key) ==> {
                &&& key == old(self).next_key
                &&& final(self).next_key == old(self).next_key + 1
                &&& final(self).timers() =~= old(self).timers().insert(TimerEntry {
                    when: clamp_deadline(old(self).elapsed, deadline),
                    key,
                    waker,
                })
            },
    {
        if self.next_key == u64::MAX {
            return Err(OpError::ResourceExhausted);
        }
        let elapsed = self.elapsed;
        let w0 = if deadline >= elapsed {
            deadline
        } else {
            elapsed
        };
        let p6: u64 = 68719476736;
        let q = elapsed / p6;
        proof {
            lemma_div_is_ordered(elapsed as int, u64::MAX as int, p6 as int);
            assert(u64::MAX as int / p6 as int == 268435455);
            vstd::arithmetic::mul::lemma_mul_inequality(q as int, 268435455, p6 as int);
            lemma_fundamental_div_mod(elapsed as int, p6 as int);
        }
        let w = if w0 / p6 == q {
            w0
        } else {
            q * p6 + (p6 - 1)
        };
        proof {
            if !(w0 as int / p6 as int == q as int) {
                lemma_fundamental_div_mod_converse(
                    w as int,
                    p6 as int,
                    q as int,
                    (p6 - 1) as int,
                );
            }
            assert(w == clamp_deadline(elapsed, deadline));
            assert(elapsed <= w);
            assert(w as int / pow_level(6) as int == elapsed as int / pow_level(6) as int);
        }
        let key = self.next_key;
        self.next_key = key + 1;
        proof {
            assert forall|l2: int, s2: int, k: int|
                0 <= l2 < 6 && 0 <= s2 < 64 && 0 <= k < self.slot_seq(l2, s2).len()
                    implies entry_ok(self.slot_seq(l2, s2)[k], l2, s2, self.elapsed) by {
                assert(self.slot_seq(l2, s2) == old(self).slot_seq(l2, s2));
                assert(entry_ok(old(self).slot_seq(l2, s2)[k], l2, s2, old(self).elapsed));
            }
            assert(self.wf());
        }
        self.insert_entry(TimerEntry { when: w, key, waker });
        Ok(key)
    }
}


/// Replacing the slot at level `l`, slot `s`, exchanges its timers in the
/// wheel's multiset and its weighted count in the cascade measure.
proof fn lemma_swap_slot(
    pre: Seq<Vec<Vec<TimerEntry>>>,
    post: Seq<Vec<Vec<TimerEntry>>>,
    new_level: Vec<Vec<TimerEntry>>,
    new_slot: Vec<TimerEntry>,
    l: int,
    s: int,
)
    requires
        0 <= l < pre.len(),
        0 <= s < pre[l]@.len(),
        post == pre.update(l, new_level),
        new_level@ == pre[l]@.update(s, new_slot),
    ensures
        levels_mset(post).add(pre[l]@[s]@.to_multiset())
            =~= levels_mset(pre).add(new_slot@.to_multiset()),
        levels_weight(post) + pre[l]@[s]@.len() * (l + 1)
            == levels_weight(pre) + new_slot@.len() * (l + 1),
{
    let old_level = pre[l];
    let old_slot = pre[l]@[s];
    lemma_levels_mset_update(pre, l, new_level);
    lemma_slots_mset_update(old_level@, s, new_slot);
    assert forall|x: TimerEntry|
        levels_mset(post).add(old_slot@.to_multiset()).count(x)
            == levels_mset(pre).add(new_slot@.to_multiset()).count(x) by {
        assert(levels_mset(post).add(slots_mset(old_level@)).count(x)
            == levels_mset(pre).add(slots_mset(new_level@)).count(x));
        assert(slots_mset(new_level@).add(old_slot@.to_multiset()).count(x)
            == slots_mset(old_level@).add(new_slot@.to_multiset()).count(x));
    }
    lemma_levels_weight_update(pre, l, new_level);
    lemma_slots_count_update(old_level@, s, new_slot);
    vstd::arithmetic::mul::lemma_mul_is_distributive_add_other_way(
        l + 1,
        slots_count(new_level@) as int,
        old_slot@.len() as int,
    );
    vstd::arithmetic::mul::lemma_mul_is_distributive_add_other_way(
        l + 1,
        slots_count(old_level@) as int,
        new_slot@.len() as int,
    );
}

/// Two timers parked in the same slot share their level quotient: the
/// block alignment pins the quotient's upper digits and the slot index its
/// lower digit.
proof fn lemma_slot_quotient(w: TimerWheel, l: int, s: int, k1: int, k2: int)
    requires
        w.wf(),
        0 <= l < 6,
        0 <= s < 64,
        0 <= k1 < w.slot_seq(l, s).len(),
        0 <= k2 < w.slot_seq(l, s).len(),
    ensures
        w.slot_seq(l, s)[k1].when as int / pow_level(l) as int
            == w.slot_seq(l, s)[k2].when as int / pow_level(l) as int,
{
    let p = pow_level(l) as int;
    let q = pow_level(l + 1) as int;
    assert(q == 64 * p);
    let e1 = w.slot_seq(l, s)[k1];
    let e2 = w.slot_seq(l, s)[k2];
    assert(entry_ok(e1, l, s, w.elapsed));
    assert(entry_ok(e2, l, s, w.elapsed));
    lemma_div_denominator(e1.when as int, p, 64);
    lemma_div_denominator(e2.when as int, p, 64);
    assert(p * 64 == 64 * p) by (nonlinear_arith);
    assert((e1.when as int / p) / 64 == (e2.when as int / p) / 64);
    lemma_fundamental_div_mod(e1.when as int / p, 64);
    lemma_fundamental_div_mod(e2.when as int / p, 64);
}

impl TimerWheel {
    /// When the slot at level `l`, slot `s`, is processed: the start of its
    /// timers' shared level-`l` block, but never before the cursor.
    pub open spec fn slot_deadline(&self, l: int, s: int) -> int
        recommends
            0 <= l < 6,
            0 <= s < 64,
            self.slot_seq(l, s).len() > 0,
    {
        let m = self.slot_seq(l, s)[0].when as int / pow_level(l) as int;
        let start = m * pow_level(l) as int;
        if start >= self.elapsed as int {
            start
        } else {
            self.elapsed as int
        }
    }

    /// No timer in the wheel is due at or before `t`.
    pub open spec fn none_due(&self, t: u64) -> bool {
        forall|l: int, s: int, k: int|
            0 <= l < 6 && 0 <= s < 64 && 0 <= k < self.slot_seq(l, s).len()
                ==> (#[trigger] self.slot_seq(l, s)[k]).when > t
    }
}

/// A slot's deadline lies between the cursor and each of its timers'
/// expiries, it shares their level quotient, and at level zero it *is*
/// their shared expiry.
proof fn lemma_slot_facts(w: TimerWheel, l: int, s: int, k: int)
    requires
        w.wf(),
        0 <= l < 6,
        0 <= s < 64,
        0 <= k < w.slot_seq(l, s).len(),
    ensures
        ({
            let e = w.slot_seq(l, s)[k];
            let d = w.slot_deadline(l, s);
            &&& w.elapsed as int <= d
            &&& d <= e.when as int
            &&& e.when as int / pow_level(l) as int == d / pow_level(l) as int
            &&& (e.when as int) < d + pow_level(l)
            &&& (l == 0 ==> e.when as int == d)
        }),
{
    let p = pow_level(l) as int;
    let e = w.slot_seq(l, s)[k];
    let e0 = w.slot_seq(l, s)[0];
    let m = e0.when as int / p;
    let start = m * p;
    let d = w.slot_deadline(l, s);
    assert(entry_ok(e, l, s, w.elapsed));
    assert(entry_ok(e0, l, s, w.elapsed));
    lemma_slot_quotient(w, l, s, 0, k);
    assert(e.when as int / p == m);
    lemma_fundamental_div_mod(e.when as int, p);
    vstd::arithmetic::div_mod::lemma_mod_bound(e.when as int, p);
    assert(p * m == m * p) by (nonlinear_arith);
    assert(start <= e.when as int);
    assert((e.when as int) < start + p);
    assert(d <= e.when as int);
    assert((e.when as int) < d + p);
    // d / p == m, whichever branch the deadline took.
    if start >= w.elapsed as int {
        vstd::arithmetic::div_mod::lemma_div_multiples_vanish(m, p);
        assert(d / p == m);
    } else {
        lemma_fundamental_div_mod_converse(d, p, m, d - start);
        assert(d / p == m);
    }
    if l == 0 {
        assert(p == 1);
        assert(m == e0.when as int);
        assert(start == m) by (nonlinear_arith)
            requires start == m * 1;
        assert(e.when as int == d);
    }
}

impl TimerWheel {
    /// Empties the slot at level `l`, slot `s`, and hands its timers out.
    fn take_slot(&mut self, l: usize, s: usize) -> (entries: Vec<TimerEntry>)
        requires
            old(self).wf(),
            l < 6,
            s < 64,
        ensures
            final(self).wf(),
            final(self).elapsed == old(self).elapsed,
            final(self).next_key == old(self).next_key,
            entries@ == old(self).slot_seq(l as int, s as int),
            final(self).slot_seq(l as int, s as int).len() == 0,
            forall|l2: int, s2: int|
                0 <= l2 < 6 && 0 <= s2 < 64 && !(l2 == l && s2 == s)
                    ==> #[trigger] final(self).slot_seq(l2, s2)
                        == old(self).slot_seq(l2, s2),
            final(self).timers().add(entries@.to_multiset()) =~= old(self).timers(),
            levels_weight(final(self).levels@) + entries@.len() * (l as int + 1)
                == levels_weight(old(self).levels@),
    {
        let ghost old_levels = self.levels@;
        let ghost old_level_vec = self.levels@[l as int];
        let ghost old_slot = self.levels@[l as int]@[s as int];
        let mut taken: Vec<TimerEntry> = Vec::new();
        let level = &mut self.levels[l];
        let slot = &mut level[s];
        core::mem::swap(slot, &mut taken);
        proof {
            let li = l as int;
            let si = s as int;
            assert(final(self).levels@ == old_levels.update(li, *final(level)));
            assert(final(level)@ == old_level_vec@.update(si, *final(slot)));
            assert(final(slot)@.len() == 0);
            lemma_swap_slot(
                old_levels,
                final(self).levels@,
                *final(level),
                *final(slot),
                li,
                si,
            );
            broadcast use vstd::seq_lib::group_to_multiset_ensures;
            broadcast use vstd::multiset::lemma_multiset_empty_len;
            assert(final(slot)@.to_multiset().len() == 0);
            assert(final(slot)@.to_multiset() =~= Multiset::<TimerEntry>::empty());
            assert forall|l2: int, s2: int, k: int|
                0 <= l2 < 6 && 0 <= s2 < 64 && 0 <= k < final(self).slot_seq(l2, s2).len()
                    implies entry_ok(
                    final(self).slot_seq(l2, s2)[k],
                    l2,
                    s2,
                    final(self).elapsed,
                ) by {
                if !(l2 == li && s2 == si) {
                    assert(final(self).slot_seq(l2, s2) == old(self).slot_seq(l2, s2));
                }
                assert(entry_ok(old(self).slot_seq(l2, s2)[k], l2, s2, old(self).elapsed));
            }
        }
        taken
    }

    /// The nearest deadline among the occupied slots, with its slot.
    fn next_expiration(&self) -> (r: Option<(usize, usize, u64)>)
        requires
            self.wf(),
        ensures
            r is None ==> forall|l: int, s: int|
                0 <= l < 6 && 0 <= s < 64 ==> #[trigger] self.slot_seq(l, s).len() == 0,
            r matches Some((l, s, d)) ==> {
                &&& l < 6
                &&& s < 64
                &&& self.slot_seq(l as int, s as int).len() > 0
                &&& d as int == self.slot_deadline(l as int, s as int)
                &&& d >= self.elapsed
                &&& forall|l2: int, s2: int|
                    0 <= l2 < 6 && 0 <= s2 < 64 && #[trigger] self.slot_seq(l2, s2).len() > 0
                        ==> self.slot_deadline(l2, s2) >= d as int
            },
    {
        let mut best: Option<(usize, usize, u64)> = None;
        let mut l: usize = 0;
        while l < 6
            invariant
                self.wf(),
                l <= 6,
                best is None ==> forall|l2: int, s2: int|
                    0 <= l2 < l && 0 <= s2 < 64 ==> #[trigger] self.slot_seq(l2, s2).len() == 0,
                best matches Some((bl, bs, bd)) ==> {
                    &&& bl < 6
                    &&& bs < 64
                    &&& self.slot_seq(bl as int, bs as int).len() > 0
                    &&& bd as int == self.slot_deadline(bl as int, bs as int)
                    &&& bd >= self.elapsed
                    &&& forall|l2: int, s2: int|
                        0 <= l2 < l && 0 <= s2 < 64
                            && #[trigger] self.slot_seq(l2, s2).len() > 0
                            ==> self.slot_deadline(l2, s2) >= bd as int
                },
            decreases 6 - l,
        {
            let mut s: usize = 0;
            while s < 64
                invariant
                    self.wf(),
                    l < 6,
                    s <= 64,
                    best is None ==> forall|l2: int, s2: int|
                        0 <= l2 < 6 && 0 <= s2 < 64 && (l2 < l || (l2 == l && s2 < s))
                            ==> #[trigger] self.slot_seq(l2, s2).len() == 0,
                    best matches Some((bl, bs, bd)) ==> {
                        &&& bl < 6
                        &&& bs < 64
                        &&& self.slot_seq(bl as int, bs as int).len() > 0
                        &&& bd as int == self.slot_deadline(bl as int, bs as int)
                        &&& bd >= self.elapsed
                        &&& forall|l2: int, s2: int|
                            0 <= l2 < 6 && 0 <= s2 < 64 && (l2 < l || (l2 == l && s2 < s))
                                && #[trigger] self.slot_seq(l2, s2).len() > 0
                                ==> self.slot_deadline(l2, s2) >= bd as int
                    },
                decreases 64 - s,
            {
                let slot_len = self.levels[l][s].len();
                if slot_len > 0 {
                    let first = self.levels[l][s][0];
                    let span = level_span(l);
                    let m = first.when / span;
                    proof {
                        lemma_fundamental_div_mod(first.when as int, span as int);
                        assert(span as int * m as int == m as int * span as int)
                            by (nonlinear_arith);
                        lemma_slot_facts(*self, l as int, s as int, 0);
                    }
                    let start = m * span;
                    let d = if start >= self.elapsed {
                        start
                    } else {
                        self.elapsed
                    };
                    proof {
                        assert(d as int == self.slot_deadline(l as int, s as int));
                    }
                    let replace = match best {
                        None => true,
                        Some((_, _, bd)) => d < bd,
                    };
                    if replace {
                        best = Some((l, s, d));
                    }
                }
                s = s + 1;
            }
            l = l + 1;
        }
        best
    }

    /// How long a park may last before the next timer is due: the smaller
    /// of the caller's bound and the time to the nearest deadline.
    pub fn park_duration(&self, cap_ms: u64) -> (r: u64)
        requires
            self.wf(),
        ensures
            r <= cap_ms,
            // No occupied slot is overslept: the park ends at or before the
            // wheel's next event, so no due timer waits past its deadline.
            forall|l: int, s: int|
                0 <= l < 6 && 0 <= s < 64 && #[trigger] self.slot_seq(l, s).len() > 0
                    ==> r as int <= self.slot_deadline(l, s) - self.elapsed as int,
            // The park is only ever shortened for an actual event.
            r < cap_ms ==> exists|l: int, s: int|
                0 <= l < 6 && 0 <= s < 64 && (#[trigger] self.slot_seq(l, s)).len() > 0
                    && self.slot_deadline(l, s) == self.elapsed as int + r as int,
            (forall|l: int, s: int|
                0 <= l < 6 && 0 <= s < 64 ==> #[trigger] self.slot_seq(l, s).len() == 0)
                ==> r == cap_ms,
    {
        match self.next_expiration() {
            None => cap_ms,
            Some((l, s, d)) => {
                let until = d - self.elapsed;
                proof {
                    if until < cap_ms {
                        assert(self.slot_deadline(l as int, s as int)
                            == self.elapsed as int + until as int);
                    }
                }
                if until < cap_ms {
                    until
                } else {
                    cap_ms
                }
            }
        }
    }
}

/// Appends all of `src` to `dst`.
fn append_all(dst: &mut Vec<TimerEntry>, src: &Vec<TimerEntry>)
    ensures
        final(dst)@ == old(dst)@ + src@,
        final(dst)@.to_multiset() =~= old(dst)@.to_multiset().add(src@.to_multiset()),
{
    broadcast use vstd::seq_lib::group_to_multiset_ensures;
    broadcast use vstd::multiset::lemma_multiset_empty_len;

    let mut i: usize = 0;
    proof {
        assert(dst@ =~= old(dst)@ + src@.subrange(0, 0));
        assert(src@.subrange(0, 0).to_multiset().len() == 0);
    }
    while i < src.len()
        invariant
            i <= src@.len(),
            dst@ == old(dst)@ + src@.subrange(0, i as int),
            dst@.to_multiset() =~= old(dst)@.to_multiset().add(
                src@.subrange(0, i as int).to_multiset()),
        decreases src@.len() - i,
    {
        proof {
            assert(src@.subrange(0, i as int + 1)
                =~= src@.subrange(0, i as int).push(src@[i as int]));
            assert(dst@.push(src@[i as int]) =~= old(dst)@ + src@.subrange(0, i as int + 1));
            vstd::seq_lib::to_multiset_build::<TimerEntry>(
                src@.subrange(0, i as int), src@[i as int]);
        }
        let ghost pre = dst@;
        dst.push(src[i]);
        i = i + 1;
        proof {
            vstd::seq_lib::to_multiset_build::<TimerEntry>(pre, src@[i as int - 1]);
            assert(dst@.to_multiset() =~= pre.to_multiset().insert(src@[i as int - 1]));
        }
    }
    proof {
        assert(src@.subrange(0, src@.len() as int) =~= src@);
    }
}



/// Firing order: earlier expiry first; ties settled by the generation key,
/// which [`TimerWheel::register`] hands out in registration order.
pub open spec fn fire_ordered(s: Seq<TimerEntry>) -> bool {
    forall|i: int, j: int| 0 <= i <= j < s.len() ==> (s[i].when < s[j].when
        || (s[i].when == s[j].when && s[i].key <= s[j].key))
}

/// Whether `a` fires no later than `b`.
pub open spec fn fires_before(a: TimerEntry, b: TimerEntry) -> bool {
    a.when < b.when || (a.when == b.when && a.key <= b.key)
}

/// Puts a fired batch into firing order: expiry first, registration order
/// (the generation key) among equal expiries.  Keeps exactly the same
/// timers.
fn sort_fired(v: Vec<TimerEntry>) -> (r: Vec<TimerEntry>)
    ensures
        r@.to_multiset() =~= v@.to_multiset(),
        fire_ordered(r@),
        r@.len() == v@.len(),
{
    broadcast use vstd::seq_lib::group_to_multiset_ensures;
    broadcast use vstd::multiset::lemma_multiset_empty_len;

    let mut rest = v;
    let mut out: Vec<TimerEntry> = Vec::new();
    proof {
        assert(out@.to_multiset().len() == 0);
        assert(rest@.to_multiset().add(out@.to_multiset())
            =~= rest@.to_multiset());
    }
    while rest.len() > 0
        invariant
            rest@.to_multiset().add(out@.to_multiset()) =~= v@.to_multiset(),
            fire_ordered(out@),
            out@.len() + rest@.len() == v@.len(),
            forall|i: int, j: int| #![trigger out@[i], rest@[j]]
                0 <= i < out@.len() && 0 <= j < rest@.len()
                    ==> fires_before(out@[i], rest@[j]),
        decreases rest@.len(),
    {
        // The earliest-firing remaining timer.
        let mut best: usize = 0;
        let mut k: usize = 1;
        while k < rest.len()
            invariant
                best < k,
                k <= rest@.len(),
                rest@.len() > 0,
                forall|j: int| 0 <= j < k ==> fires_before(rest@[best as int], #[trigger] rest@[j]),
            decreases rest@.len() - k,
        {
            let earlier = rest[k].when < rest[best].when
                || (rest[k].when == rest[best].when && rest[k].key < rest[best].key);
            if earlier {
                best = k;
            }
            k = k + 1;
        }
        let ghost pre_rest = rest@;
        let ghost pre_out = out@;
        let e = rest.remove(best);
        out.push(e);
        proof {
            vstd::seq_lib::to_multiset_remove::<TimerEntry>(pre_rest, best as int);
            vstd::seq_lib::to_multiset_build::<TimerEntry>(pre_out, e);
            vstd::seq_lib::to_multiset_contains::<TimerEntry>(pre_rest, e);
            assert(pre_rest[best as int] == e);
            assert(pre_rest.contains(e));
            assert(pre_rest.to_multiset().count(e) > 0);
            assert(pre_rest.remove(best as int).to_multiset()
                =~= pre_rest.to_multiset().remove(e));
            assert(pre_out.push(e).to_multiset() =~= pre_out.to_multiset().insert(e));
            assert forall|x: TimerEntry|
                rest@.to_multiset().add(out@.to_multiset()).count(x)
                    == v@.to_multiset().count(x) by {
                assert(pre_rest.to_multiset().add(pre_out.to_multiset()).count(x)
                    == v@.to_multiset().count(x));
            }
            // Every remaining timer fires no earlier than the one taken.
            assert forall|j: int| 0 <= j < rest@.len()
                implies fires_before(e, #[trigger] rest@[j]) by {
                if j < best {
                    assert(rest@[j] == pre_rest[j]);
                    assert(fires_before(e, pre_rest[j]));
                } else {
                    assert(rest@[j] == pre_rest[j + 1]);
                    assert(fires_before(e, pre_rest[j + 1]));
                }
            }
        }
    }
    proof {
        assert(rest@.to_multiset().len() == 0);
        assert forall|x: TimerEntry| out@.to_multiset().count(x)
            == v@.to_multiset().count(x) by {
            assert(rest@.to_multiset().add(out@.to_multiset()).count(x)
                == v@.to_multiset().count(x));
            assert(rest@.to_multiset().count(x) == 0);
        }
    }
    out
}

/// The measure that forces the advance loop to stop scanning once it is
/// done.
pub open spec fn scan_measure(done: bool) -> int {
    if done {
        0
    } else {
        1
    }
}

/// Alignment at a fine block implies alignment at every coarser one, up to
/// the top of the wheel.
proof fn lemma_align_up(x: u64, y: u64, l: int)
    requires
        0 <= l < 6,
        x as int / pow_level(l + 1) as int == y as int / pow_level(l + 1) as int,
    ensures
        x as int / pow_level(6) as int == y as int / pow_level(6) as int,
    decreases 6 - l,
{
    if l == 5 {
    } else {
        let p = pow_level(l + 1) as int;
        assert(pow_level(l + 2) == 64 * pow_level(l + 1));
        assert(p * 64 == 64 * p) by (nonlinear_arith);
        lemma_div_denominator(x as int, p, 64);
        lemma_div_denominator(y as int, p, 64);
        lemma_align_up(x, y, l + 1);
    }
}

impl TimerWheel {
    /// Moves the cursor to `now`, firing every timer whose expiry is due.
    ///
    /// The returned batch is the fired timers in firing order: earlier
    /// expiry first, and equal expiries in registration order (the
    /// generation key records it).  Every fired timer was due
    /// (`expiry <= now`), none had expired before the cursor, no due timer
    /// remains parked, and the wheel loses exactly the fired timers.
    #[verifier::spinoff_prover]
    #[verifier::rlimit(60)]
    pub fn advance(&mut self, now: u64) -> (fired: Vec<TimerEntry>)
        requires
            old(self).wf(),
            old(self).elapsed <= now,
        ensures
            final(self).wf(),
            final(self).elapsed == now,
            final(self).next_key == old(self).next_key,
            fire_ordered(fired@),
            forall|i: int| 0 <= i < fired@.len()
                ==> old(self).elapsed <= (#[trigger] fired@[i]).when <= now,
            final(self).none_due(now),
            old(self).timers() =~= final(self).timers().add(fired@.to_multiset()),
    {
        broadcast use vstd::seq_lib::group_to_multiset_ensures;
        broadcast use vstd::multiset::lemma_multiset_empty_len;

        let mut fired: Vec<TimerEntry> = Vec::new();
        let mut done = false;
        proof {
            assert(fired@.to_multiset().len() == 0);
            assert(old(self).timers() =~= self.timers().add(fired@.to_multiset()));
        }
        while !done
            invariant
                self.wf(),
                self.next_key == old(self).next_key,
                old(self).elapsed <= self.elapsed,
                self.elapsed <= now,
                forall|i: int, j: int| 0 <= i <= j < fired@.len()
                    ==> fired@[i].when <= fired@[j].when,
                forall|i: int| 0 <= i < fired@.len()
                    ==> old(self).elapsed <= (#[trigger] fired@[i]).when,
                forall|i: int| 0 <= i < fired@.len()
                    ==> (#[trigger] fired@[i]).when <= self.elapsed,
                old(self).timers() =~= self.timers().add(fired@.to_multiset()),
                done ==> self.none_due(now),
            decreases levels_weight(self.levels@), scan_measure(done),
        {
            let ghost pre = *self;
            let next = self.next_expiration();
            match next {
                None => {
                    proof {
                        assert forall|l2: int, s2: int, k: int|
                            0 <= l2 < 6 && 0 <= s2 < 64
                                && 0 <= k < self.slot_seq(l2, s2).len()
                                implies (#[trigger] self.slot_seq(l2, s2)[k]).when > now by {
                            assert(self.slot_seq(l2, s2).len() == 0);
                        }
                    }
                    done = true;
                }
                Some((l, s, d)) => {
                    if d > now {
                        proof {
                            assert forall|l2: int, s2: int, k: int|
                                0 <= l2 < 6 && 0 <= s2 < 64
                                    && 0 <= k < self.slot_seq(l2, s2).len()
                                    implies (#[trigger] self.slot_seq(l2, s2)[k]).when
                                    > now by {
                                assert(self.slot_seq(l2, s2).len() > 0);
                                assert(self.slot_deadline(l2, s2) >= d as int);
                                lemma_slot_facts(*self, l2, s2, k);
                            }
                        }
                        done = true;
                    } else {
                        let ghost fired0 = fired@;
                        let entries = self.take_slot(l, s);
                        let ghost post_take = *self;
                        proof {
                            // Facts about the removed batch, from the slot
                            // they came out of.
                            assert forall|k: int| 0 <= k < entries@.len() implies ({
                                &&& d as int <= (#[trigger] entries@[k]).when as int
                                &&& entries@[k].when as int / pow_level(l as int) as int
                                    == d as int / pow_level(l as int) as int
                                &&& entries@[k].when as int / pow_level(6) as int
                                    == d as int / pow_level(6) as int
                                &&& (l == 0 ==> entries@[k].when == d)
                            }) by {
                                lemma_slot_facts(pre, l as int, s as int, k);
                                let e = entries@[k];
                                assert(entry_ok(e, l as int, s as int, pre.elapsed));
                                lemma_align_up(e.when, pre.elapsed, l as int);
                                lemma_div_between(
                                    pre.elapsed as int,
                                    d as int,
                                    e.when as int,
                                    pow_level(6) as int,
                                );
                            }
                        }
                        self.elapsed = d;
                        proof {
                            // The cursor may move up to the processed
                            // deadline: it passes no other occupied slot.
                            assert forall|l2: int, s2: int, k: int|
                                0 <= l2 < 6 && 0 <= s2 < 64
                                    && 0 <= k < self.slot_seq(l2, s2).len()
                                    implies entry_ok(
                                    #[trigger] self.slot_seq(l2, s2)[k],
                                    l2,
                                    s2,
                                    d,
                                ) by {
                                assert(self.slot_seq(l2, s2) == post_take.slot_seq(l2, s2));
                                if !(l2 == l as int && s2 == s as int) {
                                    assert(post_take.slot_seq(l2, s2)
                                        == pre.slot_seq(l2, s2));
                                    let e = pre.slot_seq(l2, s2)[k];
                                    assert(entry_ok(e, l2, s2, pre.elapsed));
                                    lemma_slot_facts(pre, l2, s2, k);
                                    assert(pre.slot_deadline(l2, s2) >= d as int);
                                    lemma_div_between(
                                        pre.elapsed as int,
                                        d as int,
                                        e.when as int,
                                        pow_level(l2 + 1) as int,
                                    );
                                }
                            }
                            assert(self.wf());
                        }
                        if l == 0 {
                            proof {
                                assert(entries@.len() > 0);
                            }
                            append_all(&mut fired, &entries);
                            proof {
                                assert forall|x: TimerEntry|
                                    old(self).timers().count(x)
                                        == self.timers().add(fired@.to_multiset()).count(x)
                                    by {
                                    assert(old(self).timers().count(x)
                                        == pre.timers().add(fired0.to_multiset()).count(x));
                                    assert(self.timers().add(entries@.to_multiset()).count(x)
                                        == pre.timers().count(x));
                                    assert(fired@.to_multiset().count(x)
                                        == fired0.to_multiset().count(x)
                                            + entries@.to_multiset().count(x));
                                }
                            }
                        } else {
                            let ghost t0 = self.timers();
                            let ghost w0 = levels_weight(self.levels@);
                            proof {
                                assert forall|k: int| 0 <= k < entries@.len()
                                    implies level_of(d, (#[trigger] entries@[k]).when)
                                        < l as int by {
                                    assert(entries@[k].when as int
                                        / pow_level(l as int) as int
                                        == d as int / pow_level(l as int) as int);
                                }
                                vstd::seq_lib::to_multiset_len::<TimerEntry>(
                                    entries@.subrange(0, 0));
                                assert(entries@.subrange(0, 0).to_multiset().len() == 0);
                            }
                            let mut i: usize = 0;
                            while i < entries.len()
                                invariant
                                    self.wf(),
                                    self.elapsed == d,
                                    self.next_key == old(self).next_key,
                                    i <= entries@.len(),
                                    l < 6,
                                    0 < l,
                                    forall|k: int| 0 <= k < entries@.len() ==> ({
                                        &&& d <= (#[trigger] entries@[k]).when
                                        &&& entries@[k].when as int / pow_level(6) as int
                                            == d as int / pow_level(6) as int
                                        &&& level_of(d, entries@[k].when) < l as int
                                    }),
                                    self.timers() =~= t0.add(
                                        entries@.subrange(0, i as int).to_multiset()),
                                    levels_weight(self.levels@)
                                        <= w0 + i * (l as int),
                                decreases entries@.len() - i,
                            {
                                let ghost t_pre = self.timers();
                                let ghost w_pre = levels_weight(self.levels@);
                                let e = entries[i];
                                self.insert_entry(e);
                                proof {
                                    vstd::seq_lib::to_multiset_build::<TimerEntry>(
                                        entries@.subrange(0, i as int),
                                        entries@[i as int],
                                    );
                                    assert(entries@.subrange(0, i as int + 1)
                                        =~= entries@.subrange(0, i as int).push(
                                            entries@[i as int]));
                                    assert forall|x: TimerEntry| self.timers().count(x)
                                        == t0.add(entries@.subrange(
                                            0, i as int + 1).to_multiset()).count(x) by {
                                        assert(self.timers().count(x)
                                            == t_pre.insert(e).count(x));
                                        assert(t_pre.count(x) == t0.add(entries@.subrange(
                                            0, i as int).to_multiset()).count(x));
                                    }
                                    assert(levels_weight(self.levels@)
                                        == w_pre + level_of(d, e.when) + 1);
                                    assert(levels_weight(self.levels@)
                                        <= w_pre + l as int);
                                    vstd::arithmetic::mul::lemma_mul_is_distributive_add_other_way(
                                        l as int,
                                        i as int,
                                        1,
                                    );
                                }
                                i = i + 1;
                            }
                            proof {
                                assert(entries@.subrange(0, entries@.len() as int)
                                    =~= entries@);
                                // Conservation: the cascade only moved the
                                // batch back in.
                                assert forall|x: TimerEntry|
                                    old(self).timers().count(x)
                                        == self.timers().add(fired@.to_multiset()).count(x)
                                    by {
                                    assert(old(self).timers().count(x)
                                        == pre.timers().add(fired0.to_multiset()).count(x));
                                    assert(t0.add(entries@.to_multiset()).count(x)
                                        == pre.timers().count(x));
                                    assert(self.timers().count(x)
                                        == t0.add(entries@.to_multiset()).count(x));
                                }
                                // The measure shrank: the batch weighed
                                // `l + 1` a timer and came back at `l` or
                                // less.
                                assert(w0 + entries@.len() * (l as int + 1)
                                    == levels_weight(pre.levels@));
                                assert(i == entries@.len());
                                assert(levels_weight(self.levels@)
                                    <= w0 + entries@.len() * (l as int));
                                assert(entries@.len() * (l as int + 1)
                                    == entries@.len() * (l as int) + entries@.len())
                                    by (nonlinear_arith);
                                assert(entries@.len() >= 1);
                                assert(levels_weight(self.levels@)
                                    < levels_weight(pre.levels@));
                            }
                        }
                    }
                }
            }
        }
        let ghost before_jump = *self;
        self.elapsed = now;
        proof {
            assert forall|l2: int, s2: int, k: int|
                0 <= l2 < 6 && 0 <= s2 < 64 && 0 <= k < self.slot_seq(l2, s2).len()
                    implies entry_ok(#[trigger] self.slot_seq(l2, s2)[k], l2, s2, now) by {
                let e = before_jump.slot_seq(l2, s2)[k];
                assert(self.slot_seq(l2, s2) == before_jump.slot_seq(l2, s2));
                assert(entry_ok(e, l2, s2, before_jump.elapsed));
                assert(e.when > now);
                lemma_div_between(
                    before_jump.elapsed as int,
                    now as int,
                    e.when as int,
                    pow_level(l2 + 1) as int,
                );
            }
            assert(self.wf());
            assert forall|l2: int, s2: int, k: int|
                0 <= l2 < 6 && 0 <= s2 < 64 && 0 <= k < self.slot_seq(l2, s2).len()
                    implies (#[trigger] self.slot_seq(l2, s2)[k]).when > now by {
                assert(self.slot_seq(l2, s2) == before_jump.slot_seq(l2, s2));
                assert(before_jump.slot_seq(l2, s2)[k].when > now);
            }
            assert(self.none_due(now));
        }
        let ghost pre_fired = fired@;
        let fired = sort_fired(fired);
        proof {
            // The per-timer bounds survive the reordering: every sorted
            // timer is one of the fired ones.
            assert forall|i: int| 0 <= i < fired@.len()
                implies old(self).elapsed <= (#[trigger] fired@[i]).when <= now by {
                vstd::seq_lib::to_multiset_contains::<TimerEntry>(fired@, fired@[i]);
                vstd::seq_lib::to_multiset_contains::<TimerEntry>(pre_fired, fired@[i]);
                assert(fired@.contains(fired@[i]));
                assert(fired@.to_multiset().count(fired@[i]) > 0);
                assert(pre_fired.to_multiset().count(fired@[i]) > 0);
                assert(pre_fired.contains(fired@[i]));
                let j = choose|j: int| 0 <= j < pre_fired.len() && pre_fired[j] == fired@[i];
                assert(old(self).elapsed <= pre_fired[j].when);
                assert(pre_fired[j].when <= now);
            }
            assert forall|x: TimerEntry| old(self).timers().count(x)
                == self.timers().add(fired@.to_multiset()).count(x) by {
                assert(old(self).timers().count(x)
                    == self.timers().add(pre_fired.to_multiset()).count(x));
                assert(fired@.to_multiset().count(x) == pre_fired.to_multiset().count(x));
            }
        }
        fired
    }
}


/// The timers a cancellation of `key` keeps.
pub open spec fn keeps(key: u64) -> spec_fn(TimerEntry) -> bool {
    |e: TimerEntry| e.key != key
}

impl TimerWheel {
    /// Removes every timer carrying this generation key (at most one, since
    /// keys are handed out once).  Slots keep their other timers in order.
    pub fn cancel(&mut self, key: u64)
        requires
            old(self).wf(),
        ensures
            final(self).wf(),
            final(self).elapsed == old(self).elapsed,
            final(self).next_key == old(self).next_key,
            forall|l: int, s: int| 0 <= l < 6 && 0 <= s < 64
                ==> #[trigger] final(self).slot_seq(l, s)
                    == old(self).slot_seq(l, s).filter(keeps(key)),
    {
        let mut l: usize = 0;
        while l < 6
            invariant
                self.wf(),
                self.elapsed == old(self).elapsed,
                self.next_key == old(self).next_key,
                l <= 6,
                forall|l2: int, s2: int| 0 <= l2 < 6 && 0 <= s2 < 64 && l2 < l
                    ==> #[trigger] self.slot_seq(l2, s2)
                        == old(self).slot_seq(l2, s2).filter(keeps(key)),
                forall|l2: int, s2: int| 0 <= l2 < 6 && 0 <= s2 < 64 && l2 >= l
                    ==> #[trigger] self.slot_seq(l2, s2) == old(self).slot_seq(l2, s2),
            decreases 6 - l,
        {
            let mut s: usize = 0;
            while s < 64
                invariant
                    self.wf(),
                    self.elapsed == old(self).elapsed,
                    self.next_key == old(self).next_key,
                    l < 6,
                    s <= 64,
                    forall|l2: int, s2: int| 0 <= l2 < 6 && 0 <= s2 < 64
                        && (l2 < l || (l2 == l && s2 < s))
                        ==> #[trigger] self.slot_seq(l2, s2)
                            == old(self).slot_seq(l2, s2).filter(keeps(key)),
                    forall|l2: int, s2: int| 0 <= l2 < 6 && 0 <= s2 < 64
                        && (l2 > l || (l2 == l && s2 >= s))
                        ==> #[trigger] self.slot_seq(l2, s2) == old(self).slot_seq(l2, s2),
                decreases 64 - s,
            {
                let ghost pre_wheel = *self;
                let ghost pre_slot = self.slot_seq(l as int, s as int);
                let mut kept: Vec<TimerEntry> = Vec::new();
                let n = self.levels[l][s].len();
                let mut k: usize = 0;
                proof {
                    reveal(Seq::filter);
                    assert(pre_slot.subrange(0, 0).filter(keeps(key)) =~= kept@);
                }
                while k < n
                    invariant
                        *self == pre_wheel,
                        self.wf(),
                        l < 6,
                        s < 64,
                        k <= n,
                        n == pre_slot.len(),
                        pre_slot == self.slot_seq(l as int, s as int),
                        kept@ == pre_slot.subrange(0, k as int).filter(keeps(key)),
                    decreases n - k,
                {
                    let e = self.levels[l][s][k];
                    proof {
                        reveal(Seq::filter);
                        let sub1 = pre_slot.subrange(0, k as int + 1);
                        assert(sub1.drop_last() =~= pre_slot.subrange(0, k as int));
                        assert(sub1.last() == pre_slot[k as int]);
                        assert(sub1.filter(keeps(key)) == if keeps(key)(pre_slot[k as int]) {
                            pre_slot.subrange(0, k as int).filter(keeps(key)).push(
                                pre_slot[k as int])
                        } else {
                            pre_slot.subrange(0, k as int).filter(keeps(key))
                        });
                    }
                    if e.key != key {
                        kept.push(e);
                    }
                    k = k + 1;
                }
                proof {
                    assert(k == n);
                    assert(pre_slot.subrange(0, n as int) =~= pre_slot);
                    assert(kept@ == pre_slot.subrange(0, n as int).filter(keeps(key)));
                    assert(kept@ == pre_slot.filter(keeps(key)));
                }
                let ghost old_levels = self.levels@;
                let ghost old_level_vec = self.levels@[l as int];
                let level = &mut self.levels[l];
                let slot = &mut level[s];
                core::mem::swap(slot, &mut kept);
                proof {
                    let li = l as int;
                    let si = s as int;
                    assert(final(level)@ == old_level_vec@.update(si, *final(slot)));
                    assert(self.levels@ == old_levels.update(li, *final(level)));
                    assert forall|l2: int, s2: int|
                        0 <= l2 < 6 && 0 <= s2 < 64 && !(l2 == li && s2 == si)
                            implies #[trigger] self.slot_seq(l2, s2)
                            == pre_wheel.slot_seq(l2, s2) by {
                    }
                    assert(self.slot_seq(li, si) == pre_slot.filter(keeps(key)));
                    // Every kept timer was in the slot, so placement holds.
                    assert forall|l2: int, s2: int, k2: int|
                        0 <= l2 < 6 && 0 <= s2 < 64
                            && 0 <= k2 < self.slot_seq(l2, s2).len()
                            implies entry_ok(
                            #[trigger] self.slot_seq(l2, s2)[k2],
                            l2,
                            s2,
                            self.elapsed,
                        ) by {
                        if l2 == li && s2 == si {
                            let e = self.slot_seq(l2, s2)[k2];
                            assert(pre_slot.filter(keeps(key)).contains(e));
                            pre_slot.lemma_filter_contains_rev(keeps(key), e);
                            let orig = choose|j: int| 0 <= j < pre_slot.len()
                                && pre_slot[j] == e;
                            assert(entry_ok(pre_slot[orig], l2, s2, pre_wheel.elapsed));
                        } else {
                            assert(self.slot_seq(l2, s2) == pre_wheel.slot_seq(l2, s2));
                            assert(entry_ok(pre_wheel.slot_seq(l2, s2)[k2], l2, s2,
                                pre_wheel.elapsed));
                        }
                    }
                    assert(self.wf());
                }
                s = s + 1;
            }
            l = l + 1;
        }
    }
}


/// The absolute expiry of a sleep for `duration_ms` starting now,
/// saturating at the end of time.
pub fn sleep_deadline(now_ms: u64, duration_ms: u64) -> (r: u64)
    ensures
        now_ms + duration_ms <= u64::MAX ==> r == now_ms + duration_ms,
        now_ms + duration_ms > u64::MAX ==> r == u64::MAX,
{
    if duration_ms <= u64::MAX - now_ms {
        now_ms + duration_ms
    } else {
        u64::MAX
    }
}

/// The timer driver: a timing wheel layered over any inner driver.  A park
/// is bounded by the nearest deadline; after the inner driver returns, the
/// shell reads the clock and advances the wheel, waking what fired.
pub struct TimeDriver<D> {
    pub inner: D,
    pub wheel: TimerWheel,
}

impl<D> TimeDriver<D> {
    /// Wraps a driver with a fresh wheel.
    pub fn new(inner: D) -> (r: TimeDriver<D>)
        ensures
            r.inner == inner,
            r.wheel.wf(),
            r.wheel.elapsed == 0,
            r.wheel.next_key == 0,
            r.wheel.timers() =~= Multiset::<TimerEntry>::empty(),
    {
        TimeDriver { inner, wheel: TimerWheel::new() }
    }
}

impl<D: crate::driver::Driver> TimeDriver<D> {
    /// Flushes the inner driver without sleeping.
    pub fn submit(&mut self) -> (r: Result<(), i32>)
        ensures
            final(self).wheel == old(self).wheel,
    {
        self.inner.submit()
    }

    /// Parks the inner driver for at most `ms` milliseconds, shortened so
    /// the nearest registered timer is not overslept.
    pub fn park_timeout(&mut self, ms: u64) -> (r: Result<(), i32>)
        requires
            old(self).wheel.wf(),
        ensures
            final(self).wheel == old(self).wheel,
    {
        let bound = self.wheel.park_duration(ms);
        self.inner.park_timeout(bound)
    }

    /// Parks the inner driver until work arrives, but never past the
    /// nearest registered timer.
    pub fn park(&mut self) -> (r: Result<(), i32>)
        requires
            old(self).wheel.wf(),
        ensures
            final(self).wheel == old(self).wheel,
    {
        let bound = self.wheel.park_duration(u64::MAX);
        if bound == u64::MAX {
            self.inner.park()
        } else {
            self.inner.park_timeout(bound)
        }
    }
}

} // verus!
