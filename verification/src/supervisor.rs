//! The supervisor of the token pool: it restarts the pool whenever a run
//! ends and counts the restarts. This file also states what holds of every
//! run of the pool, whatever happens outside.

use crate::pool::{effect_views, start_effects, started, step_spec, Ended, PoolEffect, PoolEffectView, PoolEvent, PoolEventView, PoolView, TokenPool, TokenView, CAPACITY};
use vstd::prelude::*;

verus! {

/// The pool and the effects asked for so far, after a sequence of events.
pub open spec fn run_spec(pool: PoolView, events: Seq<PoolEventView>) -> (
    PoolView,
    Seq<PoolEffectView>,
)
    decreases events.len(),
{
    if events.len() == 0 {
        (pool, Seq::empty())
    } else {
        let (before, effects) = run_spec(pool, events.drop_last());
        let (after, more) = step_spec(before, events.last());
        (after, effects + more)
    }
}

/// The deliveries that a sequence of effects asks for, in order: each the
/// reply slot and the token put in it.
pub open spec fn deliveries(effects: Seq<PoolEffectView>) -> Seq<(u64, TokenView)>
    decreases effects.len(),
{
    if effects.len() == 0 {
        Seq::empty()
    } else {
        let earlier = deliveries(effects.drop_last());
        match effects.last() {
            PoolEffectView::Deliver { slot, token } => earlier.push((slot, token)),
            _ => earlier,
        }
    }
}

/// The tokens that a sequence of effects hands out, in order.
pub open spec fn delivered(effects: Seq<PoolEffectView>) -> Seq<TokenView> {
    deliveries(effects).map_values(|d: (u64, TokenView)| d.1)
}

/// The reply slots that a sequence of effects fills, in order.
pub open spec fn served_slots(effects: Seq<PoolEffectView>) -> Seq<u64> {
    deliveries(effects).map_values(|d: (u64, TokenView)| d.0)
}

/// The reply slots of the requests that arrive while the pool runs, in
/// order.
pub open spec fn requested(pool: PoolView, events: Seq<PoolEventView>) -> Seq<u64>
    decreases events.len(),
{
    if events.len() == 0 {
        Seq::empty()
    } else {
        let earlier = requested(pool, events.drop_last());
        match events.last() {
            PoolEventView::Request { slot } => if run_spec(pool, events.drop_last()).0.running {
                earlier.push(slot)
            } else {
                earlier
            },
            _ => earlier,
        }
    }
}

/// The deliveries of two sequences of effects, one after the other, are
/// those of the first followed by those of the second; so are the tokens
/// handed out and the slots filled.
proof fn lemma_deliveries_concat(a: Seq<PoolEffectView>, b: Seq<PoolEffectView>)
    ensures
        deliveries(a + b) == deliveries(a) + deliveries(b),
        delivered(a + b) == delivered(a) + delivered(b),
        served_slots(a + b) == served_slots(a) + served_slots(b),
    decreases b.len(),
{
    if b.len() == 0 {
        assert(a + b =~= a);
        assert(deliveries(a) + deliveries(b) =~= deliveries(a));
    } else {
        assert((a + b).drop_last() =~= a + b.drop_last());
        assert((a + b).last() == b.last());
        lemma_deliveries_concat(a, b.drop_last());
        match b.last() {
            PoolEffectView::Deliver { slot, token } => {
                assert(deliveries(a + b) =~= deliveries(a) + deliveries(b));
            },
            _ => {},
        }
    }
    assert(delivered(a + b) =~= delivered(a) + delivered(b));
    assert(served_slots(a + b) =~= served_slots(a) + served_slots(b));
}

/// The deliveries of the effects of one step, which are none, one or two:
/// only a delivery counts, and of a delivery followed by something else only
/// the delivery.
proof fn lemma_deliveries_of_step(more: Seq<PoolEffectView>)
    requires
        more.len() <= 2,
        more.len() == 2 ==> more[0] is Deliver && !(more[1] is Deliver),
        more.len() == 1 ==> !(more[0] is Deliver),
    ensures
        more.len() < 2 ==> deliveries(more) == Seq::<(u64, TokenView)>::empty(),
        more.len() < 2 ==> delivered(more) == Seq::<TokenView>::empty(),
        more.len() < 2 ==> served_slots(more) == Seq::<u64>::empty(),
        more.len() == 2 ==> deliveries(more) == seq![(more[0]->Deliver_slot, more[0]->Deliver_token)],
        more.len() == 2 ==> delivered(more) == seq![more[0]->Deliver_token],
        more.len() == 2 ==> served_slots(more) == seq![more[0]->Deliver_slot],
{
    let none = Seq::<PoolEffectView>::empty();
    assert(deliveries(none) =~= Seq::<(u64, TokenView)>::empty());
    if more.len() == 0 {
        assert(more =~= none);
    } else if more.len() == 1 {
        assert(more.drop_last() =~= none);
    } else {
        let first = seq![more[0]];
        assert(first.drop_last() =~= none);
        assert(deliveries(first) =~= seq![(more[0]->Deliver_slot, more[0]->Deliver_token)]);
        assert(more.drop_last() =~= first);
    }
    assert(delivered(more) =~= if more.len() == 2 {
        seq![more[0]->Deliver_token]
    } else {
        Seq::<TokenView>::empty()
    });
    assert(served_slots(more) =~= if more.len() == 2 {
        seq![more[0]->Deliver_slot]
    } else {
        Seq::<u64>::empty()
    });
}

/// What a step asks for is nothing, one effect that is no delivery, or a
/// delivery followed by a handshake.
proof fn lemma_step_shape(pool: PoolView, event: PoolEventView)
    ensures
        step_spec(pool, event).1.len() <= 2,
        step_spec(pool, event).1.len() == 2 ==> step_spec(pool, event).1[0] is Deliver && !(
        step_spec(pool, event).1[1] is Deliver),
        step_spec(pool, event).1.len() == 1 ==> !(step_spec(pool, event).1[0] is Deliver),
{
}

/// In every run of the pool the requests are served in the order in which
/// they arrived, each at most once: while the run goes on, the slots filled
/// so far followed by the slots still waiting are the slots of the requests
/// so far; after its end, the slots filled are the first of them.
pub proof fn requests_are_served_in_order(epoch: u64, events: Seq<PoolEventView>)
    ensures
        ({
            let (pool, effects) = run_spec(started(epoch), events);
            let asked = requested(started(epoch), events);
            let served = served_slots(effects);
            &&& served.len() <= asked.len()
            &&& served == asked.subrange(0, served.len() as int)
            &&& pool.running ==> served + pool.waiting == asked
        }),
    decreases events.len(),
{
    let start = started(epoch);
    if events.len() == 0 {
        lemma_deliveries_of_step(Seq::<PoolEffectView>::empty());
        assert(requested(start, events) =~= Seq::<u64>::empty());
        assert(Seq::<u64>::empty() + start.waiting =~= Seq::<u64>::empty());
        assert(Seq::<u64>::empty().subrange(0, 0) =~= Seq::<u64>::empty());
    } else {
        requests_are_served_in_order(epoch, events.drop_last());
        lemma_run_in_order(epoch, events.drop_last());
        let (before, effects) = run_spec(start, events.drop_last());
        let (after, more) = step_spec(before, events.last());
        let asked_before = requested(start, events.drop_last());
        let asked = requested(start, events);
        let served_before = served_slots(effects);
        lemma_deliveries_concat(effects, more);
        lemma_step_shape(before, events.last());
        lemma_deliveries_of_step(more);
        if more.len() < 2 {
            assert(served_slots(effects + more) =~= served_before);
            assert(asked.subrange(0, served_before.len() as int) =~= asked_before.subrange(
                0,
                served_before.len() as int,
            ));
            if after.running {
                assert(served_before + after.waiting =~= asked);
            }
        } else {
            let slot = more[0]->Deliver_slot;
            assert(served_slots(effects + more) =~= served_before.push(slot));
            assert(before.running);
            assert(served_before + before.waiting == asked_before);
            match events.last() {
                PoolEventView::Request { slot: arrived } => {
                    assert(before.waiting.len() == 0);
                    assert(served_before =~= asked_before);
                    assert(asked == asked_before.push(arrived));
                    assert(served_before.push(slot) + after.waiting =~= asked);
                },
                _ => {
                    assert(asked == asked_before);
                    assert(slot == before.waiting[0]);
                    assert(asked_before[served_before.len() as int] == slot);
                    assert(served_before.push(slot) + after.waiting =~= asked);
                },
            }
            assert(served_before.push(slot) =~= asked.subrange(0, served_before.len() as int + 1));
        }
    }
}

/// What holds of a pool and the tokens it has handed out so far.
pub open spec fn in_order(pool: PoolView, effects: Seq<PoolEffectView>) -> bool {
    let served = delivered(effects);
    &&& pool.wf()
    &&& forall|i: int| 0 <= i < served.len() ==> (#[trigger] served[i]).serial == i
    &&& served.len() + pool.ready.len() <= pool.minted
    &&& pool.running ==> served.len() + pool.ready.len() == pool.minted
}

/// One more event keeps the tokens in order.
proof fn lemma_step_in_order(pool: PoolView, effects: Seq<PoolEffectView>, event: PoolEventView)
    requires
        in_order(pool, effects),
    ensures
        in_order(step_spec(pool, event).0, effects + step_spec(pool, event).1),
{
    let (after, more) = step_spec(pool, event);
    lemma_deliveries_concat(effects, more);
    lemma_step_shape(pool, event);
    lemma_deliveries_of_step(more);
    let served = delivered(effects);
    if more.len() < 2 {
        assert(delivered(effects + more) =~= served);
        if more.len() == 0 && after != pool {
            assert(pool.running);
            assert(after.ready[pool.ready.len() as int].serial == pool.minted);
        }
    } else {
        let token = more[0]->Deliver_token;
        assert(delivered(effects + more) =~= served.push(token));
        assert(token.serial == served.len()) by {
            if pool.ready.len() > 0 {
                assert(token == pool.ready[0]);
            }
        }
    }
}

/// In every run of the pool, whatever happens and in whatever order, the
/// tokens handed out are the tokens that handshakes brought, each at most
/// once and in the order in which they came: the first request served gets
/// the first token, the second the second. No two requests are served the
/// same token, and never more tokens are handed out than have come in. While
/// the run goes on, every token that came in is either ready or handed out,
/// and the tokens ready and the handshakes on their way make up the capacity.
pub proof fn tokens_are_served_once_in_order(epoch: u64, events: Seq<PoolEventView>)
    ensures
        ({
            let (pool, effects) = run_spec(started(epoch), events);
            let served = delivered(effects);
            &&& pool.wf()
            &&& forall|i: int| 0 <= i < served.len() ==> (#[trigger] served[i]).serial == i
            &&& forall|i: int, j: int|
                0 <= i < j < served.len() ==> (#[trigger] served[i]).serial != (
                #[trigger] served[j]).serial
            &&& served.len() + pool.ready.len() <= pool.minted
            &&& pool.running ==> served.len() + pool.ready.len() == pool.minted
            &&& pool.running ==> pool.ready.len() + pool.in_flight == CAPACITY
        }),
{
    lemma_run_in_order(epoch, events);
}

proof fn lemma_run_in_order(epoch: u64, events: Seq<PoolEventView>)
    ensures
        in_order(run_spec(started(epoch), events).0, run_spec(started(epoch), events).1),
    decreases events.len(),
{
    if events.len() == 0 {
    } else {
        lemma_run_in_order(epoch, events.drop_last());
        let (before, effects) = run_spec(started(epoch), events.drop_last());
        lemma_step_in_order(before, effects, events.last());
    }
}

/// A failed handshake of the run ends the run: the pool stops and asks to be
/// restarted.
pub proof fn failed_handshake_ends_the_run(pool: PoolView)
    requires
        pool.running,
    ensures
        step_spec(pool, PoolEventView::HandshakeFailed { epoch: pool.epoch }) == (
            pool.stopped(),
            seq![PoolEffectView::Terminate(Ended::HandshakeFailed)],
        ),
        !pool.stopped().running,
{
}

/// The pool with the count of its restarts.
pub struct Supervisor {
    reboots: u64,
    pool: TokenPool,
}

pub ghost struct SupervisorView {
    pub reboots: u64,
    pub pool: PoolView,
}

impl View for Supervisor {
    type V = SupervisorView;

    closed spec fn view(&self) -> SupervisorView {
        SupervisorView { reboots: self.reboots, pool: self.pool@ }
    }
}

impl SupervisorView {
    /// The run in progress is the one that the count of restarts numbers.
    pub open spec fn wf(self) -> bool {
        &&& self.pool.wf()
        &&& self.pool.epoch == self.reboots
    }

    /// The supervisor after a restart: one more restart counted, and a pool
    /// at the start of a run of its own.
    pub open spec fn restarted(self) -> SupervisorView
        recommends
            self.reboots < u64::MAX,
    {
        SupervisorView {
            reboots: (self.reboots + 1) as u64,
            pool: started((self.reboots + 1) as u64),
        }
    }

    /// The supervisor after a run that ends in a failed handshake and the
    /// restart that follows.
    pub open spec fn failed_and_restarted(self) -> SupervisorView {
        SupervisorView {
            pool: step_spec(self.pool, PoolEventView::HandshakeFailed { epoch: self.pool.epoch }).0,
            ..self
        }.restarted()
    }

    /// The supervisor after `n` runs that each end in a failed handshake.
    pub open spec fn after_failed_runs(self, n: nat) -> SupervisorView
        decreases n,
    {
        if n == 0 {
            self
        } else {
            self.after_failed_runs((n - 1) as nat).failed_and_restarted()
        }
    }
}

/// Where every run ends in a failed handshake, every run is followed by a
/// restart that counts one more than the one before, and after any number of
/// them the pool is running again, at the start of a run of its own.
pub proof fn every_failed_run_is_restarted(supervisor: SupervisorView, n: nat)
    requires
        supervisor.wf(),
        supervisor.pool.running,
        supervisor.reboots + n <= u64::MAX,
    ensures
        supervisor.after_failed_runs(n).wf(),
        supervisor.after_failed_runs(n).reboots == supervisor.reboots + n,
        supervisor.after_failed_runs(n).pool.running,
        n > 0 ==> supervisor.after_failed_runs(n).pool == started((supervisor.reboots + n) as u64),
        n > 0 ==> supervisor.after_failed_runs(n).reboots > supervisor.after_failed_runs(
            (n - 1) as nat,
        ).reboots,
    decreases n,
{
    if n > 0 {
        every_failed_run_is_restarted(supervisor, (n - 1) as nat);
    }
}

impl Supervisor {
    /// A supervisor that has never restarted, with its pool at the start of
    /// its first run, and the effects that start the run.
    pub fn new() -> (out: (Supervisor, Vec<PoolEffect>))
        ensures
            out.0@ == (SupervisorView { reboots: 0, pool: started(0) }),
            out.0@.wf(),
            effect_views(out.1@) == start_effects(0),
    {
        let (pool, effects) = TokenPool::start(0);
        (Supervisor { reboots: 0, pool }, effects)
    }

    /// How often the pool has been restarted.
    pub fn reboots(&self) -> (n: u64)
        ensures
            n == self@.reboots,
    {
        self.reboots
    }

    /// Whether the run has ended and the pool waits to be restarted.
    pub fn needs_restart(&self) -> (ended: bool)
        ensures
            ended == !self@.pool.running,
    {
        !self.pool.is_running()
    }

    /// The pool of the run in progress.
    pub fn pool(&self) -> (pool: &TokenPool)
        ensures
            pool@ == self@.pool,
    {
        &self.pool
    }

    /// Hands an event to the pool of the run in progress.
    pub fn handle(&mut self, event: PoolEvent) -> (effects: Vec<PoolEffect>)
        requires
            old(self)@.wf(),
        ensures
            final(self)@.wf(),
            final(self)@.reboots == old(self)@.reboots,
            (final(self)@.pool, effect_views(effects@)) == step_spec(old(self)@.pool, event@),
    {
        self.pool.step(event)
    }

    /// Starts the pool afresh and counts the restart. What the old run held
    /// is dropped, and handshakes of the old run that come back later are
    /// ignored.
    pub fn restart(&mut self) -> (effects: Vec<PoolEffect>)
        requires
            old(self)@.reboots < u64::MAX,
        ensures
            final(self)@ == old(self)@.restarted(),
            final(self)@.wf(),
            final(self)@.reboots == old(self)@.reboots + 1,
            effect_views(effects@) == start_effects(final(self)@.reboots),
    {
        self.reboots = self.reboots + 1;
        let (pool, effects) = TokenPool::start(self.reboots);
        self.pool = pool;
        effects
    }
}

} // verus!
