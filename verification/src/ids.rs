use vstd::prelude::*;

verus! {

/// The run-wide identifier source: a monotonically increasing counter,
/// together with the ghost sequence of every identifier handed out so far.
pub struct IdGen {
    pub next: u64,
    pub generated: Ghost<Seq<u64>>,
}

/// The counter equals the number of identifiers handed out, and the
/// identifiers handed out so far are 0, 1, 2, ... in order.
pub open spec fn idgen_wf(g: IdGen) -> bool {
    &&& g.generated@.len() == g.next
    &&& forall|i: int| 0 <= i < g.generated@.len() ==> g.generated@[i] == i
}

impl IdGen {
    pub fn new() -> (g: IdGen)
        ensures
            idgen_wf(g),
            g.next == 0,
            g.generated@ == Seq::<u64>::empty(),
    {
        IdGen { next: 0, generated: Ghost(Seq::empty()) }
    }
}

/// The next identifier: assigned at publish time, unique for the run, and
/// strictly larger than every identifier handed out before it.
pub fn idgen(g: &mut IdGen) -> (id: u64)
    requires
        idgen_wf(*old(g)),
        old(g).next < u64::MAX,
    ensures
        idgen_wf(*final(g)),
        id == old(g).next,
        final(g).next == old(g).next + 1,
        final(g).generated@ == old(g).generated@.push(id),
{
    let id = g.next;
    g.next = g.next + 1;
    proof {
        g.generated@ = g.generated@.push(id);
    }
    id
}

/// Identifier uniqueness and strict increase: of any two identifiers handed
/// out, the earlier one is strictly smaller than the later one.
pub proof fn lemma_ids_strictly_increase(g: IdGen, i: int, j: int)
    requires
        idgen_wf(g),
        0 <= i < j < g.generated@.len(),
    ensures
        g.generated@[i] < g.generated@[j],
{
}

} // verus!
