use vstd::prelude::*;

verus! {

/// How many entries of `s` hold the value `v`.
pub open spec fn count_of(s: Seq<bool>, v: bool) -> nat
    decreases s.len(),
{
    if s.len() == 0 {
        0
    } else {
        count_of(s.drop_last(), v) + (if s.last() == v {
            1nat
        } else {
            0nat
        })
    }
}

/// `i` is the position of the `k`-th entry of `s` that holds `v`, counting
/// from zero.
pub open spec fn is_nth_with(s: Seq<bool>, v: bool, k: nat, i: int) -> bool {
    &&& 0 <= i < s.len()
    &&& s[i] == v
    &&& count_of(s.take(i), v) == k
}

/// The position of the `k`-th entry of `s` that holds `v`.
pub open spec fn nth_with(s: Seq<bool>, v: bool, k: nat) -> int {
    choose|i: int| is_nth_with(s, v, k, i)
}

pub proof fn lemma_count_take_step(s: Seq<bool>, v: bool, i: int)
    requires
        0 <= i < s.len(),
    ensures
        count_of(s.take(i + 1), v) == count_of(s.take(i), v) + (if s[i] == v {
            1nat
        } else {
            0nat
        }),
{
    assert(s.take(i + 1).drop_last() =~= s.take(i));
    assert(s.take(i + 1).last() == s[i]);
}

pub proof fn lemma_count_take_all(s: Seq<bool>, v: bool)
    ensures
        count_of(s.take(s.len() as int), v) == count_of(s, v),
{
    assert(s.take(s.len() as int) =~= s);
}

/// Nothing matches where nothing holds the value.
pub proof fn lemma_count_zero_when_absent(s: Seq<bool>, v: bool)
    requires
        forall|i: int| 0 <= i < s.len() ==> s[i] != v,
    ensures
        count_of(s, v) == 0,
    decreases s.len(),
{
    if s.len() > 0 {
        lemma_count_zero_when_absent(s.drop_last(), v);
    }
}

/// A count of matching entries never exceeds the number of entries.
pub proof fn lemma_count_le_len(s: Seq<bool>, v: bool)
    ensures
        count_of(s, v) <= s.len(),
    decreases s.len(),
{
    if s.len() > 0 {
        lemma_count_le_len(s.drop_last(), v);
    }
}

/// Counting over a longer front of `s` never counts fewer entries.
pub proof fn lemma_count_take_mono(s: Seq<bool>, v: bool, i: int, j: int)
    requires
        0 <= i <= j <= s.len(),
    ensures
        count_of(s.take(i), v) <= count_of(s.take(j), v),
    decreases j - i,
{
    if i < j {
        lemma_count_take_step(s, v, j - 1);
        lemma_count_take_mono(s, v, i, j - 1);
    }
}

/// Only one position can be the `k`-th entry holding `v`.
pub proof fn lemma_nth_with_unique(s: Seq<bool>, v: bool, k: nat, i1: int, i2: int)
    requires
        is_nth_with(s, v, k, i1),
        is_nth_with(s, v, k, i2),
    ensures
        i1 == i2,
{
    if i1 < i2 {
        lemma_count_take_step(s, v, i1);
        lemma_count_take_mono(s, v, i1 + 1, i2);
    }
    if i2 < i1 {
        lemma_count_take_step(s, v, i2);
        lemma_count_take_mono(s, v, i2 + 1, i1);
    }
}

/// How many flags hold the value `v`.
pub(crate) fn count_flags(flags: &Vec<bool>, v: bool) -> (n: u64)
    requires
        flags@.len() <= u64::MAX,
    ensures
        n == count_of(flags@, v),
{
    let mut n: u64 = 0;
    let mut i: usize = 0;
    while i < flags.len()
        invariant
            0 <= i <= flags@.len(),
            flags@.len() <= u64::MAX,
            n == count_of(flags@.take(i as int), v),
        decreases flags@.len() - i,
    {
        proof {
            lemma_count_take_step(flags@, v, i as int);
            lemma_count_le_len(flags@.take(i as int), v);
        }
        if flags[i] == v {
            n = n + 1;
        }
        i = i + 1;
    }
    proof {
        lemma_count_take_all(flags@, v);
    }
    n
}

/// The position of the `k`-th flag holding `v`: the selection is a function
/// of the flags and of `k` alone, so a seeded run replays identically.
pub(crate) fn select_nth(flags: &Vec<bool>, v: bool, k: u64) -> (idx: usize)
    requires
        k < count_of(flags@, v),
    ensures
        is_nth_with(flags@, v, k as nat, idx as int),
        idx == nth_with(flags@, v, k as nat),
        idx < flags@.len(),
{
    let mut seen: u64 = 0;
    let mut i: usize = 0;
    while i < flags.len()
        invariant
            0 <= i <= flags@.len(),
            seen == count_of(flags@.take(i as int), v),
            seen <= k,
            k < count_of(flags@, v),
        decreases flags@.len() - i,
    {
        proof {
            lemma_count_take_step(flags@, v, i as int);
        }
        if flags[i] == v {
            if seen == k {
                proof {
                    assert(is_nth_with(flags@, v, k as nat, i as int));
                    assert(exists|j: int| is_nth_with(flags@, v, k as nat, j));
                    lemma_nth_with_unique(
                        flags@,
                        v,
                        k as nat,
                        i as int,
                        nth_with(flags@, v, k as nat),
                    );
                }
                return i;
            }
            seen = seen + 1;
        }
        i = i + 1;
    }
    // unreachable: fewer than k matching flags would contradict the requires
    proof {
        lemma_count_take_all(flags@, v);
    }
    assert(false);
    0
}

/// Write `val` into flag `i`.
pub(crate) fn set_flag(flags: &mut Vec<bool>, i: usize, val: bool)
    requires
        i < old(flags)@.len(),
    ensures
        final(flags)@ == old(flags)@.update(i as int, val),
{
    flags.remove(i);
    flags.insert(i, val);
    proof {
        assert(flags@ =~= old(flags)@.update(i as int, val));
    }
}

} // verus!
