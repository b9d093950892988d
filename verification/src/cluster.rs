use vstd::prelude::*;

use crate::ids::{idgen, idgen_wf, IdGen};
use crate::oracle::{agree, copy_log, is_prefix, DurabilityModel};
use crate::rng::{resolve_seed, rng_draw, SeededRng};
use crate::select::{
    count_flags, count_of, lemma_count_zero_when_absent, nth_with, select_nth, set_flag,
};

verus! {

/// One server slot of the cluster. The operating-system process lives with
/// the caller; the slot keeps the stable identity: index and port survive a
/// restart, the process and its storage do not.
pub struct Server {
    pub idx: u16,
    pub port: u16,
}

/// One consumer. The connection handle lives with the caller; the node keeps
/// the stable id and the append-only log of observed identifiers.
pub struct Consumer {
    pub id: usize,
    pub observed: Vec<u64>,
}

/// The action one scheduler step chose. The caller carries it out against
/// the real processes and connections.
#[derive(Clone, Copy, PartialEq, Eq, Structural, Debug)]
pub enum Action {
    RestartServer { idx: usize },
    PauseServer { idx: usize },
    PauseNoop,
    ResumeServer { idx: usize },
    ResumeNoop,
    Publish { client: usize, id: u64 },
    Consume { client: usize },
}

/// The scheduler: owns the bookkeeping for every server slot and consumer,
/// the seeded generator, the identifier source, and the durability oracle.
pub struct Cluster {
    pub servers: Vec<Server>,
    pub clients: Vec<Consumer>,
    pub paused: Vec<bool>,
    pub rng: SeededRng,
    pub ids: IdGen,
    pub unvalidated_consumers: Vec<bool>,
    pub durability_model: DurabilityModel,
}

impl Cluster {
    /// The scheduler's invariant: slots carry their stable identities, the
    /// paused set covers exactly the server slots, every consumer already
    /// validated reads as a prefix of the canonical order, and the canonical
    /// order is a prefix of some consumer's log.
    pub open spec fn wf(self) -> bool {
        &&& 1 <= self.servers@.len() <= 21536
        &&& 1 <= self.clients@.len()
        &&& self.paused@.len() == self.servers@.len()
        &&& self.unvalidated_consumers@.len() == self.clients@.len()
        &&& forall|i: int|
            0 <= i < self.servers@.len() ==> (#[trigger] self.servers@[i]).idx == i
        &&& forall|i: int|
            0 <= i < self.servers@.len() ==> (#[trigger] self.servers@[i]).port == 44000 + i
        &&& forall|i: int| 0 <= i < self.clients@.len() ==> (#[trigger] self.clients@[i]).id == i
        &&& idgen_wf(self.ids)
        &&& forall|i: int|
            0 <= i < self.clients@.len() && !self.unvalidated_consumers@[i] ==> is_prefix(
                (#[trigger] self.clients@[i]).observed@,
                self.durability_model.observed@,
            )
        &&& exists|i: int|
            0 <= i < self.clients@.len() && is_prefix(
                self.durability_model.observed@,
                (#[trigger] self.clients@[i]).observed@,
            )
    }
}

/// The part of the state the next choice depends on: seed, draw history,
/// paused set, identifier counter, and the number of consumers. The logs and
/// the canonical order play no part in a choice.
pub open spec fn decision_state(c: Cluster) -> (u64, Seq<u64>, Seq<bool>, u64, nat) {
    (c.rng.seed, c.rng.history@, c.paused@, c.ids.next, c.clients@.len())
}

/// The action one step chooses, as a function of the decision state alone:
/// one weighted draw over 50 units -- restart 1, pause 4, resume 5,
/// publish 20, consume 20 -- then a uniform draw over the eligible targets.
pub open spec fn state_choose(s: (u64, Seq<u64>, Seq<bool>, u64, nat)) -> Action {
    let seed = s.0;
    let h1 = s.1.push(50);
    let ns = s.2.len() as u64;
    let nc = s.4 as u64;
    let r0 = rng_draw(seed, s.1, 50);
    if r0 == 0 {
        Action::RestartServer { idx: rng_draw(seed, h1, ns) as usize }
    } else if r0 <= 4 {
        if count_of(s.2, false) == 0 {
            Action::PauseNoop
        } else {
            Action::PauseServer {
                idx: nth_with(
                    s.2,
                    false,
                    rng_draw(seed, h1, count_of(s.2, false) as u64) as nat,
                ) as usize,
            }
        }
    } else if r0 <= 9 {
        if count_of(s.2, true) == 0 {
            Action::ResumeNoop
        } else {
            Action::ResumeServer {
                idx: nth_with(
                    s.2,
                    true,
                    rng_draw(seed, h1, count_of(s.2, true) as u64) as nat,
                ) as usize,
            }
        }
    } else if r0 <= 29 {
        Action::Publish { client: rng_draw(seed, h1, nc) as usize, id: s.3 }
    } else {
        Action::Consume { client: rng_draw(seed, h1, nc) as usize }
    }
}

/// The decision state after one step's choice: again a function of the
/// decision state alone.
pub open spec fn state_next(s: (u64, Seq<u64>, Seq<bool>, u64, nat)) -> (
    u64,
    Seq<u64>,
    Seq<bool>,
    u64,
    nat,
) {
    let seed = s.0;
    let h1 = s.1.push(50);
    let ns = s.2.len() as u64;
    let nc = s.4 as u64;
    let r0 = rng_draw(seed, s.1, 50);
    if r0 == 0 {
        let idx = rng_draw(seed, h1, ns) as usize;
        (seed, h1.push(ns), s.2.update(idx as int, false), s.3, s.4)
    } else if r0 <= 4 {
        let cu = count_of(s.2, false) as u64;
        if count_of(s.2, false) == 0 {
            (seed, h1, s.2, s.3, s.4)
        } else {
            let idx = nth_with(s.2, false, rng_draw(seed, h1, cu) as nat);
            (seed, h1.push(cu), s.2.update(idx, true), s.3, s.4)
        }
    } else if r0 <= 9 {
        let cp = count_of(s.2, true) as u64;
        if count_of(s.2, true) == 0 {
            (seed, h1, s.2, s.3, s.4)
        } else {
            let idx = nth_with(s.2, true, rng_draw(seed, h1, cp) as nat);
            (seed, h1.push(cp), s.2.update(idx, false), s.3, s.4)
        }
    } else if r0 <= 29 {
        (seed, h1.push(nc), s.2, (s.3 + 1) as u64, s.4)
    } else {
        (seed, h1.push(nc), s.2, s.3, s.4)
    }
}

/// The whole sequence of actions `n` further steps choose, as a function of
/// the decision state alone.
pub open spec fn state_actions(s: (u64, Seq<u64>, Seq<bool>, u64, nat), n: nat) -> Seq<Action>
    decreases n,
{
    if n == 0 {
        Seq::empty()
    } else {
        seq![state_choose(s)] + state_actions(state_next(s), (n - 1) as nat)
    }
}

/// The action one step chooses.
pub open spec fn spec_choose(c: Cluster) -> Action {
    state_choose(decision_state(c))
}

/// The decision state after one step's choice.
pub open spec fn spec_next_decision_state(c: Cluster) -> (u64, Seq<u64>, Seq<bool>, u64, nat) {
    state_next(decision_state(c))
}

/// A choice touches neither the logs, the validation marks nor the canonical
/// order, so the invariant survives it.
proof fn lemma_wf_preserved_same_logs(pre: Cluster, post: Cluster)
    requires
        pre.wf(),
        post.servers@ == pre.servers@,
        post.clients@ == pre.clients@,
        post.unvalidated_consumers@ == pre.unvalidated_consumers@,
        post.durability_model.observed@ == pre.durability_model.observed@,
        post.paused@.len() == pre.paused@.len(),
        idgen_wf(post.ids),
    ensures
        post.wf(),
{
    let w = choose|i: int|
        0 <= i < pre.clients@.len() && is_prefix(
            pre.durability_model.observed@,
            (#[trigger] pre.clients@[i]).observed@,
        );
    assert(0 <= w < post.clients@.len() && is_prefix(
        post.durability_model.observed@,
        post.clients@[w].observed@,
    ));
}

impl Cluster {
    /// Provision the scheduler's state for a fresh cluster: every slot
    /// running, every log empty, the canonical order empty, the counter at
    /// zero, the generator seeded with the given seed or a fresh one.
    pub fn start(servers: u8, clients: u8, seed: Option<u64>) -> (c: Cluster)
        requires
            servers >= 1,
            clients >= 1,
        ensures
            c.wf(),
            c.servers@.len() == servers,
            c.clients@.len() == clients,
            forall|i: int| 0 <= i < c.paused@.len() ==> !c.paused@[i],
            forall|i: int|
                0 <= i < c.clients@.len() ==> (#[trigger] c.clients@[i]).observed@
                    == Seq::<u64>::empty(),
            forall|i: int| 0 <= i < c.unvalidated_consumers@.len()
                ==> !c.unvalidated_consumers@[i],
            c.durability_model.observed@ == Seq::<u64>::empty(),
            c.ids.next == 0,
            c.rng.history@ == Seq::<u64>::empty(),
            seed matches Some(s) ==> c.rng.seed == s,
    {
        let mut server_v: Vec<Server> = Vec::new();
        let mut paused: Vec<bool> = Vec::new();
        let mut i: u16 = 0;
        while i < servers as u16
            invariant
                i <= servers as u16,
                server_v@.len() == i,
                paused@.len() == i,
                forall|j: int| 0 <= j < i ==> (#[trigger] server_v@[j]).idx == j,
                forall|j: int| 0 <= j < i ==> (#[trigger] server_v@[j]).port == 44000 + j,
                forall|j: int| 0 <= j < i ==> !paused@[j],
            decreases servers as int - i,
        {
            server_v.push(Server { idx: i, port: 44000 + i });
            paused.push(false);
            i = i + 1;
        }
        let mut client_v: Vec<Consumer> = Vec::new();
        let mut unvalidated: Vec<bool> = Vec::new();
        let mut j: usize = 0;
        while j < clients as usize
            invariant
                j <= clients as usize,
                client_v@.len() == j,
                unvalidated@.len() == j,
                forall|k: int| 0 <= k < j ==> (#[trigger] client_v@[k]).id == k,
                forall|k: int|
                    0 <= k < j ==> (#[trigger] client_v@[k]).observed@ == Seq::<u64>::empty(),
                forall|k: int| 0 <= k < j ==> !unvalidated@[k],
            decreases clients as int - j,
        {
            client_v.push(Consumer { id: j, observed: Vec::new() });
            unvalidated.push(false);
            j = j + 1;
        }
        let s = resolve_seed(seed);
        let c = Cluster {
            servers: server_v,
            clients: client_v,
            paused,
            rng: SeededRng::new(s),
            ids: IdGen::new(),
            unvalidated_consumers: unvalidated,
            durability_model: DurabilityModel::new(),
        };
        proof {
            assert(is_prefix(c.durability_model.observed@, c.clients@[0].observed@));
        }
        c
    }

    /// Choose one server uniformly at random to terminate and replace in
    /// place: same index, same port, storage wiped. The caller kills, waits
    /// and respawns; here the slot leaves the paused set, so a restarted
    /// index is never left in it.
    pub fn restart_server(&mut self) -> (a: Action)
        requires
            old(self).wf(),
        ensures
            final(self).wf(),
            final(self).servers@ == old(self).servers@,
            final(self).clients@ == old(self).clients@,
            final(self).unvalidated_consumers@ == old(self).unvalidated_consumers@,
            final(self).durability_model == old(self).durability_model,
            final(self).ids == old(self).ids,
            final(self).rng.seed == old(self).rng.seed,
            ({
                let ns = old(self).servers@.len() as u64;
                let idx = rng_draw(old(self).rng.seed, old(self).rng.history@, ns) as usize;
                &&& a == (Action::RestartServer { idx })
                &&& idx < old(self).servers@.len()
                &&& final(self).paused@ == old(self).paused@.update(idx as int, false)
                &&& !final(self).paused@[idx as int]
                &&& final(self).rng.history@ == old(self).rng.history@.push(ns)
            }),
    {
        let ns = self.servers.len() as u64;
        let r = self.rng.draw(ns);
        let idx = r as usize;
        set_flag(&mut self.paused, idx, false);
        proof {
            lemma_wf_preserved_same_logs(*old(self), *self);
        }
        Action::RestartServer { idx }
    }

    /// Deliver a suspend to one uniformly chosen non-paused server and record
    /// it, or do nothing when every server is already paused, so the harness
    /// is never permanently blocked. The caller delivers the signal itself.
    pub fn pause_server(&mut self) -> (a: Action)
        requires
            old(self).wf(),
        ensures
            final(self).wf(),
            final(self).servers@ == old(self).servers@,
            final(self).clients@ == old(self).clients@,
            final(self).unvalidated_consumers@ == old(self).unvalidated_consumers@,
            final(self).durability_model == old(self).durability_model,
            final(self).ids == old(self).ids,
            final(self).rng.seed == old(self).rng.seed,
            count_of(old(self).paused@, false) == 0 ==> {
                &&& a == Action::PauseNoop
                &&& final(self).paused@ == old(self).paused@
                &&& final(self).rng.history@ == old(self).rng.history@
            },
            count_of(old(self).paused@, false) > 0 ==> ({
                let cu = count_of(old(self).paused@, false) as u64;
                let k = rng_draw(old(self).rng.seed, old(self).rng.history@, cu);
                let idx = nth_with(old(self).paused@, false, k as nat);
                &&& a == (Action::PauseServer { idx: idx as usize })
                &&& 0 <= idx < old(self).paused@.len()
                &&& !old(self).paused@[idx]
                &&& final(self).paused@ == old(self).paused@.update(idx, true)
                &&& final(self).paused@[idx]
                &&& final(self).rng.history@ == old(self).rng.history@.push(cu)
            }),
    {
        let cu = count_flags(&self.paused, false);
        if cu == 0 {
            return Action::PauseNoop;
        }
        let k = self.rng.draw(cu);
        let idx = select_nth(&self.paused, false, k);
        set_flag(&mut self.paused, idx, true);
        proof {
            lemma_wf_preserved_same_logs(*old(self), *self);
        }
        Action::PauseServer { idx }
    }

    /// Deliver a continue to one uniformly chosen paused server and clear it,
    /// or do nothing when nothing is paused. A resumed index is never left in
    /// the paused set. The caller delivers the signal itself.
    pub fn resume_server(&mut self) -> (a: Action)
        requires
            old(self).wf(),
        ensures
            final(self).wf(),
            final(self).servers@ == old(self).servers@,
            final(self).clients@ == old(self).clients@,
            final(self).unvalidated_consumers@ == old(self).unvalidated_consumers@,
            final(self).durability_model == old(self).durability_model,
            final(self).ids == old(self).ids,
            final(self).rng.seed == old(self).rng.seed,
            count_of(old(self).paused@, true) == 0 ==> {
                &&& a == Action::ResumeNoop
                &&& final(self).paused@ == old(self).paused@
                &&& final(self).rng.history@ == old(self).rng.history@
            },
            count_of(old(self).paused@, true) > 0 ==> ({
                let cp = count_of(old(self).paused@, true) as u64;
                let k = rng_draw(old(self).rng.seed, old(self).rng.history@, cp);
                let idx = nth_with(old(self).paused@, true, k as nat);
                &&& a == (Action::ResumeServer { idx: idx as usize })
                &&& 0 <= idx < old(self).paused@.len()
                &&& old(self).paused@[idx]
                &&& final(self).paused@ == old(self).paused@.update(idx, false)
                &&& !final(self).paused@[idx]
                &&& final(self).rng.history@ == old(self).rng.history@.push(cp)
            }),
    {
        let cp = count_flags(&self.paused, true);
        if cp == 0 {
            return Action::ResumeNoop;
        }
        let k = self.rng.draw(cp);
        let idx = select_nth(&self.paused, true, k);
        set_flag(&mut self.paused, idx, false);
        proof {
            lemma_wf_preserved_same_logs(*old(self), *self);
        }
        Action::ResumeServer { idx }
    }

    /// Choose one client uniformly at random and allocate the next
    /// identifier for it to publish; the caller sends the identifier,
    /// little-endian encoded, as the record payload.
    pub fn publish(&mut self) -> (a: Action)
        requires
            old(self).wf(),
            old(self).ids.next < u64::MAX,
        ensures
            final(self).wf(),
            final(self).servers@ == old(self).servers@,
            final(self).clients@ == old(self).clients@,
            final(self).unvalidated_consumers@ == old(self).unvalidated_consumers@,
            final(self).durability_model == old(self).durability_model,
            final(self).paused@ == old(self).paused@,
            final(self).rng.seed == old(self).rng.seed,
            ({
                let nc = old(self).clients@.len() as u64;
                let c = rng_draw(old(self).rng.seed, old(self).rng.history@, nc) as usize;
                &&& a == (Action::Publish { client: c, id: old(self).ids.next })
                &&& c < old(self).clients@.len()
                &&& final(self).ids.next == old(self).ids.next + 1
                &&& final(self).ids.generated@ == old(self).ids.generated@.push(
                    old(self).ids.next,
                )
                &&& final(self).rng.history@ == old(self).rng.history@.push(nc)
            }),
    {
        let nc = self.clients.len() as u64;
        let r = self.rng.draw(nc);
        let id = idgen(&mut self.ids);
        proof {
            lemma_wf_preserved_same_logs(*old(self), *self);
        }
        Action::Publish { client: r as usize, id }
    }

    /// Choose one client uniformly at random for a bounded-time receive; the
    /// caller attempts the receive and records a decoded identifier, while a
    /// timeout is a plain no-op.
    pub fn consume(&mut self) -> (a: Action)
        requires
            old(self).wf(),
        ensures
            final(self).wf(),
            final(self).servers@ == old(self).servers@,
            final(self).clients@ == old(self).clients@,
            final(self).unvalidated_consumers@ == old(self).unvalidated_consumers@,
            final(self).durability_model == old(self).durability_model,
            final(self).ids == old(self).ids,
            final(self).paused@ == old(self).paused@,
            final(self).rng.seed == old(self).rng.seed,
            ({
                let nc = old(self).clients@.len() as u64;
                let c = rng_draw(old(self).rng.seed, old(self).rng.history@, nc) as usize;
                &&& a == (Action::Consume { client: c })
                &&& c < old(self).clients@.len()
                &&& final(self).rng.history@ == old(self).rng.history@.push(nc)
            }),
    {
        let nc = self.clients.len() as u64;
        let r = self.rng.draw(nc);
        proof {
            lemma_wf_preserved_same_logs(*old(self), *self);
        }
        Action::Consume { client: r as usize }
    }

    /// One scheduler step's choice. The weights keep faults rare relative to
    /// traffic, and the skew toward resume keeps the cluster from collapsing
    /// into an all-paused state.
    pub fn step_decide(&mut self) -> (a: Action)
        requires
            old(self).wf(),
            old(self).ids.next < u64::MAX,
        ensures
            final(self).wf(),
            a == spec_choose(*old(self)),
            decision_state(*final(self)) == spec_next_decision_state(*old(self)),
            final(self).servers@ == old(self).servers@,
            final(self).clients@ == old(self).clients@,
            final(self).unvalidated_consumers@ == old(self).unvalidated_consumers@,
            final(self).durability_model == old(self).durability_model,
            final(self).rng.seed == old(self).rng.seed,
            a matches Action::Publish { client, id } ==> client < old(self).clients@.len()
                && id == old(self).ids.next && final(self).ids.generated@
                == old(self).ids.generated@.push(id),
            !(a matches Action::Publish { .. }) ==> final(self).ids == old(self).ids,
            a matches Action::RestartServer { idx } ==> idx < old(self).servers@.len()
                && !final(self).paused@[idx as int],
            a matches Action::ResumeServer { idx } ==> idx < old(self).servers@.len()
                && !final(self).paused@[idx as int],
            a matches Action::PauseServer { idx } ==> idx < old(self).servers@.len()
                && final(self).paused@[idx as int],
            a matches Action::Consume { client } ==> client < old(self).clients@.len(),
    {
        let r0 = self.rng.draw(50);
        proof {
            lemma_wf_preserved_same_logs(*old(self), *self);
        }
        let a = if r0 == 0 {
            self.restart_server()
        } else if r0 <= 4 {
            self.pause_server()
        } else if r0 <= 9 {
            self.resume_server()
        } else if r0 <= 29 {
            self.publish()
        } else {
            self.consume()
        };
        proof {
            crate::select::lemma_count_le_len(old(self).paused@, false);
            crate::select::lemma_count_le_len(old(self).paused@, true);
        }
        a
    }

    /// Record one successfully received identifier: append it to the
    /// consumer's local log and mark the consumer for the next validation
    /// pass.
    pub fn record_consume(&mut self, client: usize, id: u64)
        requires
            old(self).wf(),
            client < old(self).clients@.len(),
        ensures
            final(self).wf(),
            final(self).servers@ == old(self).servers@,
            final(self).paused@ == old(self).paused@,
            final(self).durability_model == old(self).durability_model,
            final(self).ids == old(self).ids,
            final(self).rng == old(self).rng,
            final(self).clients@.len() == old(self).clients@.len(),
            forall|i: int|
                0 <= i < old(self).clients@.len() && i != client ==> final(self).clients@[i]
                    == old(self).clients@[i],
            final(self).clients@[client as int].id == client,
            final(self).clients@[client as int].observed@
                == old(self).clients@[client as int].observed@.push(id),
            final(self).unvalidated_consumers@ == old(self).unvalidated_consumers@.update(
                client as int,
                true,
            ),
    {
        let mut log = copy_log(&self.clients[client].observed);
        log.push(id);
        let node = Consumer { id: client, observed: log };
        self.clients.remove(client);
        self.clients.insert(client, node);
        set_flag(&mut self.unvalidated_consumers, client, true);
        proof {
            assert(self.clients@ =~= old(self).clients@.update(
                client as int,
                self.clients@[client as int],
            ));
            let w = choose|i: int|
                0 <= i < old(self).clients@.len() && is_prefix(
                    old(self).durability_model.observed@,
                    old(self).clients@[i].observed@,
                );
            assert(is_prefix(self.durability_model.observed@, self.clients@[w].observed@));
        }
    }
}

/// A fatal order violation: the consumer whose log diverges from the
/// canonical order, with both sequences for the report.
pub struct Divergence {
    pub consumer: usize,
    pub expected: Vec<u64>,
    pub log: Vec<u64>,
}

/// Every consumer whose log grew agrees with the canonical order and with
/// every other grown log on the parts both have seen.
pub open spec fn all_compat(c: Cluster) -> bool {
    &&& forall|i: int|
        0 <= i < c.clients@.len() && c.unvalidated_consumers@[i] ==> agree(
            (#[trigger] c.clients@[i]).observed@,
            c.durability_model.observed@,
        )
    &&& forall|i: int, j: int|
        0 <= i < c.clients@.len() && 0 <= j < c.clients@.len() && c.unvalidated_consumers@[i]
            && c.unvalidated_consumers@[j] ==> agree(
            (#[trigger] c.clients@[i]).observed@,
            (#[trigger] c.clients@[j]).observed@,
        )
}

impl Cluster {
    /// One validation pass: check every consumer whose log grew against the
    /// canonical order and fold the growth in. The pass succeeds exactly when
    /// the grown logs agree with the order and with one another; every log is
    /// then a prefix of the order, the order equals the longest log -- its
    /// length never shrinks -- and no consumer stays unvalidated. A
    /// divergence is reported with the consumer and both sequences; it is the
    /// defect this harness exists to find.
    pub fn validate(&mut self) -> (r: Result<(), Divergence>)
        requires
            old(self).wf(),
        ensures
            final(self).wf(),
            final(self).servers@ == old(self).servers@,
            final(self).clients@ == old(self).clients@,
            final(self).paused@ == old(self).paused@,
            final(self).rng == old(self).rng,
            final(self).ids == old(self).ids,
            is_prefix(
                old(self).durability_model.observed@,
                final(self).durability_model.observed@,
            ),
            r is Ok <==> all_compat(*old(self)),
            r is Ok ==> {
                &&& forall|i: int|
                    0 <= i < final(self).clients@.len()
                        ==> !final(self).unvalidated_consumers@[i]
                &&& forall|i: int|
                    0 <= i < final(self).clients@.len() ==> is_prefix(
                        (#[trigger] final(self).clients@[i]).observed@,
                        final(self).durability_model.observed@,
                    )
                &&& exists|i: int|
                    0 <= i < final(self).clients@.len()
                        && (#[trigger] final(self).clients@[i]).observed@
                        == final(self).durability_model.observed@
            },
            r matches Err(d) ==> {
                &&& d.consumer < old(self).clients@.len()
                &&& d.log@ == old(self).clients@[d.consumer as int].observed@
                &&& d.expected@ == final(self).durability_model.observed@
                &&& !agree(d.log@, d.expected@)
            },
    {
        let ghost pre = *old(self);
        let n = self.clients.len();
        let mut i: usize = 0;
        while i < n
            invariant
                pre == *old(self),
                0 <= i <= n,
                n == self.clients@.len(),
                self.wf(),
                self.servers@ == pre.servers@,
                self.clients@ == pre.clients@,
                self.paused@ == pre.paused@,
                self.rng == pre.rng,
                self.ids == pre.ids,
                pre.wf(),
                forall|j: int| 0 <= j < i ==> !self.unvalidated_consumers@[j],
                forall|j: int|
                    i <= j < n ==> self.unvalidated_consumers@[j]
                        == pre.unvalidated_consumers@[j],
                forall|j: int|
                    0 <= j < n && !pre.unvalidated_consumers@[j]
                        ==> !self.unvalidated_consumers@[j],
                is_prefix(pre.durability_model.observed@, self.durability_model.observed@),
                self.durability_model.observed@ == pre.durability_model.observed@ || exists|
                    j: int,
                |
                    0 <= j < i && pre.unvalidated_consumers@[j]
                        && self.durability_model.observed@ == (
                        #[trigger] pre.clients@[j]).observed@,
            decreases n - i,
        {
            if self.unvalidated_consumers[i] {
                let merged = self.durability_model.merge(&self.clients[i].observed);
                match merged {
                    Err(_k) => {
                        proof {
                            assert(!agree(
                                self.clients@[i as int].observed@,
                                self.durability_model.observed@,
                            ));
                            assert(!all_compat(pre));
                        }
                        let expected = copy_log(&self.durability_model.observed);
                        let log = copy_log(&self.clients[i].observed);
                        return Err(Divergence { consumer: i, expected, log });
                    },
                    Ok(_u) => {},
                }
                set_flag(&mut self.unvalidated_consumers, i, false);
                proof {
                    assert(is_prefix(
                        self.clients@[i as int].observed@,
                        self.durability_model.observed@,
                    ));
                }
            }
            i = i + 1;
        }
        proof {
            assert forall|a: int|
                0 <= a < pre.clients@.len() && pre.unvalidated_consumers@[a] implies agree(
                (#[trigger] pre.clients@[a]).observed@,
                pre.durability_model.observed@,
            ) by {
                crate::oracle::lemma_order_prefix_agreement(
                    pre.clients@[a].observed@,
                    pre.durability_model.observed@,
                    self.durability_model.observed@,
                );
            }
            assert forall|a: int, b: int|
                0 <= a < pre.clients@.len() && 0 <= b < pre.clients@.len()
                    && pre.unvalidated_consumers@[a] && pre.unvalidated_consumers@[b] implies agree(
                (#[trigger] pre.clients@[a]).observed@,
                (#[trigger] pre.clients@[b]).observed@,
            ) by {
                crate::oracle::lemma_order_prefix_agreement(
                    pre.clients@[a].observed@,
                    pre.clients@[b].observed@,
                    self.durability_model.observed@,
                );
            }
            let w = choose|j: int|
                0 <= j < self.clients@.len() && is_prefix(
                    self.durability_model.observed@,
                    (#[trigger] self.clients@[j]).observed@,
                );
            assert(is_prefix(self.clients@[w].observed@, self.durability_model.observed@));
            assert(self.clients@[w].observed@ =~= self.durability_model.observed@);
        }
        Ok(())
    }
}

/// Determinism: two schedulers that share the seed, the draw history and the
/// bookkeeping state choose the same action and leave the same bookkeeping
/// state.
pub proof fn lemma_step_deterministic(c1: Cluster, c2: Cluster)
    requires
        decision_state(c1) == decision_state(c2),
    ensures
        spec_choose(c1) == spec_choose(c2),
        spec_next_decision_state(c1) == spec_next_decision_state(c2),
{
}

/// Determinism over whole runs: from equal decision states -- in particular,
/// from the same fixed seed and the same counts at the start of a run -- any
/// number of further steps chooses the identical sequence of actions.
pub proof fn lemma_action_sequence_deterministic(c1: Cluster, c2: Cluster, n: nat)
    requires
        decision_state(c1) == decision_state(c2),
    ensures
        state_actions(decision_state(c1), n) == state_actions(decision_state(c2), n),
{
}

/// No permanent stall: whenever every server is already paused, the pause
/// step chooses a no-op, never an actual pause.
pub proof fn lemma_pause_noop_when_all_paused(c: Cluster)
    requires
        forall|i: int| 0 <= i < c.paused@.len() ==> c.paused@[i],
    ensures
        !(spec_choose(c) matches Action::PauseServer { .. }),
{
    lemma_count_zero_when_absent(c.paused@, false);
}

/// Order-prefix agreement: after a successful validation pass, any two
/// consumers that have both observed at least `k` messages agree on their
/// first `k` identifiers.
pub proof fn lemma_consumers_agree(c: Cluster, i: int, j: int, k: int)
    requires
        c.wf(),
        0 <= i < c.clients@.len(),
        0 <= j < c.clients@.len(),
        !c.unvalidated_consumers@[i],
        !c.unvalidated_consumers@[j],
        0 <= k <= c.clients@[i].observed@.len(),
        k <= c.clients@[j].observed@.len(),
    ensures
        c.clients@[i].observed@.take(k) == c.clients@[j].observed@.take(k),
{
    crate::oracle::lemma_order_prefix_agreement(
        c.clients@[i].observed@,
        c.clients@[j].observed@,
        c.durability_model.observed@,
    );
    crate::oracle::lemma_agree_prefixes_equal(
        c.clients@[i].observed@,
        c.clients@[j].observed@,
        k,
    );
}

} // verus!
