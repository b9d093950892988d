use vstd::prelude::*;

verus! {

/// `a` is a prefix of `b`.
pub open spec fn is_prefix(a: Seq<u64>, b: Seq<u64>) -> bool {
    a.len() <= b.len() && forall|k: int| 0 <= k < a.len() ==> a[k] == b[k]
}

/// Two observation logs agree on the part both have seen.
pub open spec fn agree(a: Seq<u64>, b: Seq<u64>) -> bool {
    forall|k: int| 0 <= k < a.len() && k < b.len() ==> a[k] == b[k]
}

/// Order-prefix agreement: two logs that are each prefixes of one canonical
/// order agree on the part both have seen.
pub proof fn lemma_order_prefix_agreement(a: Seq<u64>, b: Seq<u64>, o: Seq<u64>)
    requires
        is_prefix(a, o),
        is_prefix(b, o),
    ensures
        agree(a, b),
{
}

/// Whenever two logs agree, their first `k` entries are equal, for any `k`
/// both have reached.
pub proof fn lemma_agree_prefixes_equal(a: Seq<u64>, b: Seq<u64>, k: int)
    requires
        agree(a, b),
        0 <= k <= a.len(),
        k <= b.len(),
    ensures
        a.take(k) == b.take(k),
{
    assert(a.take(k) =~= b.take(k));
}

/// An owned copy of one observation log.
pub(crate) fn copy_log(v: &Vec<u64>) -> (r: Vec<u64>)
    ensures
        r@ == v@,
{
    let mut r: Vec<u64> = Vec::new();
    let mut i: usize = 0;
    while i < v.len()
        invariant
            i <= v@.len(),
            r@ == v@.take(i as int),
        decreases v@.len() - i,
    {
        r.push(v[i]);
        proof {
            assert(r@ =~= v@.take(i as int + 1));
        }
        i = i + 1;
    }
    proof {
        assert(v@.take(v@.len() as int) =~= v@);
    }
    r
}

/// The canonical ordered sequence of identifiers agreed by every consumer
/// reported so far: the longest prefix any consumer has observed.
pub struct DurabilityModel {
    pub observed: Vec<u64>,
}

impl DurabilityModel {
    pub fn new() -> (m: DurabilityModel)
        ensures
            m.observed@ == Seq::<u64>::empty(),
    {
        DurabilityModel { observed: Vec::new() }
    }

    /// Merge one consumer's log into the canonical order. The merge succeeds
    /// exactly when the log agrees with the order on the part both have seen;
    /// the order then becomes the longer of the two, so its length never
    /// shrinks and always equals the longest log merged so far. On failure the
    /// result names the first position where the two diverge.
    pub fn merge(&mut self, log: &Vec<u64>) -> (r: Result<(), usize>)
        ensures
            is_prefix(old(self).observed@, final(self).observed@),
            r is Ok <==> agree(old(self).observed@, log@),
            r is Ok ==> final(self).observed@ == (if log@.len() > old(self).observed@.len() {
                log@
            } else {
                old(self).observed@
            }),
            r matches Err(k) ==> {
                &&& *final(self) == *old(self)
                &&& k < old(self).observed@.len()
                &&& k < log@.len()
                &&& old(self).observed@[k as int] != log@[k as int]
                &&& forall|j: int| 0 <= j < k ==> old(self).observed@[j] == log@[j]
            },
    {
        let shared = if log.len() < self.observed.len() {
            log.len()
        } else {
            self.observed.len()
        };
        let mut k: usize = 0;
        while k < shared
            invariant
                0 <= k <= shared,
                shared <= log@.len(),
                shared <= self.observed@.len(),
                shared == if log@.len() < self.observed@.len() {
                    log@.len() as int
                } else {
                    self.observed@.len() as int
                },
                forall|j: int| 0 <= j < k ==> self.observed@[j] == log@[j],
            decreases shared - k,
        {
            if self.observed[k] != log[k] {
                return Err(k);
            }
            k = k + 1;
        }
        if log.len() > self.observed.len() {
            self.observed = copy_log(log);
        }
        Ok(())
    }
}

} // verus!
