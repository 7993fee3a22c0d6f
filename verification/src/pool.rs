//! The token pool: a supply of tokens kept topped up by handshakes and handed
//! out one at a time, as a machine that is told what happened outside and
//! says what to do next.
//!
//! The machine makes no handshake and fills no reply slot itself. Whoever
//! drives it carries out each effect and hands back the events that follow.

use std::collections::VecDeque;
use vstd::prelude::*;

verus! {

/// How many tokens the pool keeps ready or on their way.
pub const CAPACITY: usize = 10;

/// A credential for one upstream call. `serial` counts the tokens of one run
/// of the pool in the order in which their handshakes came back.
pub struct Token {
    pub secret: String,
    pub serial: Ghost<nat>,
}

pub ghost struct TokenView {
    pub secret: Seq<char>,
    pub serial: nat,
}

impl View for Token {
    type V = TokenView;

    open spec fn view(&self) -> TokenView {
        TokenView { secret: self.secret@, serial: self.serial@ }
    }
}

/// Why a run of the pool ended.
#[derive(Clone, Copy, Debug, PartialEq, Eq, Structural)]
pub enum Ended {
    /// A handshake failed.
    HandshakeFailed,
    /// Nobody can ask for a token any more.
    ChannelsClosed,
}

/// What happened outside the pool.
pub enum PoolEvent {
    /// A caller asks for a token, to be put in the reply slot `slot`.
    Request { slot: u64 },
    /// A handshake started in the run `epoch` came back with a token.
    HandshakeSucceeded { epoch: u64, secret: String },
    /// A handshake started in the run `epoch` failed.
    HandshakeFailed { epoch: u64 },
    /// Every way of asking for a token is closed.
    Closed,
}

pub ghost enum PoolEventView {
    Request { slot: u64 },
    HandshakeSucceeded { epoch: u64, secret: Seq<char> },
    HandshakeFailed { epoch: u64 },
    Closed,
}

impl View for PoolEvent {
    type V = PoolEventView;

    open spec fn view(&self) -> PoolEventView {
        match *self {
            PoolEvent::Request { slot } => PoolEventView::Request { slot },
            PoolEvent::HandshakeSucceeded { epoch, secret } => PoolEventView::HandshakeSucceeded {
                epoch,
                secret: secret@,
            },
            PoolEvent::HandshakeFailed { epoch } => PoolEventView::HandshakeFailed { epoch },
            PoolEvent::Closed => PoolEventView::Closed,
        }
    }
}

/// What the driver of the pool is to do.
pub enum PoolEffect {
    /// Start one handshake, and report how it went with this `epoch`.
    SpawnHandshake { epoch: u64 },
    /// Put `token` in the reply slot `slot`. If the slot takes nothing any
    /// more, the token is lost and nothing else changes.
    Deliver { slot: u64, token: Token },
    /// Warn that a request found no token ready.
    WarnExhausted,
    /// The run is over: restart the pool.
    Terminate(Ended),
}

pub ghost enum PoolEffectView {
    SpawnHandshake { epoch: u64 },
    Deliver { slot: u64, token: TokenView },
    WarnExhausted,
    Terminate(Ended),
}

impl View for PoolEffect {
    type V = PoolEffectView;

    open spec fn view(&self) -> PoolEffectView {
        match *self {
            PoolEffect::SpawnHandshake { epoch } => PoolEffectView::SpawnHandshake { epoch },
            PoolEffect::Deliver { slot, token } => PoolEffectView::Deliver { slot, token: token@ },
            PoolEffect::WarnExhausted => PoolEffectView::WarnExhausted,
            PoolEffect::Terminate(why) => PoolEffectView::Terminate(why),
        }
    }
}

/// The views of a sequence of effects, position by position.
pub open spec fn effect_views(effects: Seq<PoolEffect>) -> Seq<PoolEffectView> {
    Seq::new(effects.len(), |i: int| effects[i]@)
}

/// The views of a sequence of tokens, position by position.
pub open spec fn token_views(tokens: Seq<Token>) -> Seq<TokenView> {
    Seq::new(tokens.len(), |i: int| tokens[i]@)
}

/// One run of the pool.
pub ghost struct PoolView {
    /// The number of the run.
    pub epoch: u64,
    /// Whether the run is still going.
    pub running: bool,
    /// The tokens ready to be handed out, oldest first.
    pub ready: Seq<TokenView>,
    /// The handshakes started and not yet back.
    pub in_flight: nat,
    /// The reply slots of the requests that wait for a token, oldest first.
    pub waiting: Seq<u64>,
    /// The tokens that handshakes have brought in this run.
    pub minted: nat,
}

impl PoolView {
    /// What holds of a pool at every moment. While it runs, the tokens
    /// ready and the handshakes on their way make up the capacity, and no
    /// request waits while a token is ready. Once it has ended it holds
    /// nothing.
    pub open spec fn wf(self) -> bool {
        &&& self.running ==> self.ready.len() + self.in_flight == CAPACITY
        &&& !self.running ==> self.ready.len() == 0 && self.in_flight == 0 && self.waiting.len()
            == 0
        &&& self.ready.len() > 0 ==> self.waiting.len() == 0
        &&& self.ready.len() <= self.minted
        &&& forall|i: int|
            0 <= i < self.ready.len() ==> (#[trigger] self.ready[i]).serial == self.minted
                - self.ready.len() + i
    }

    /// The pool as it stops: nothing ready, nothing on its way, nobody
    /// waiting.
    pub open spec fn stopped(self) -> PoolView {
        PoolView {
            running: false,
            ready: Seq::empty(),
            in_flight: 0,
            waiting: Seq::empty(),
            ..self
        }
    }
}

/// The pool at the start of the run `epoch`: one handshake on its way for
/// each token of the capacity.
pub open spec fn started(epoch: u64) -> PoolView {
    PoolView {
        epoch,
        running: true,
        ready: Seq::empty(),
        in_flight: CAPACITY as nat,
        waiting: Seq::empty(),
        minted: 0,
    }
}

/// The effects with which a run starts: one handshake for each token of the
/// capacity.
pub open spec fn start_effects(epoch: u64) -> Seq<PoolEffectView> {
    Seq::new(CAPACITY as nat, |i: int| PoolEffectView::SpawnHandshake { epoch })
}

/// The next state of the pool and the effects it asks for, given what
/// happened.
///
/// A pool that has ended ignores everything, and a running pool ignores the
/// handshakes of other runs and those it never started. A request takes the
/// oldest ready token, and a handshake is started in its place; where none
/// is ready the request waits, with a warning. A token that comes in goes to
/// the oldest waiting request, with a handshake started in its place, or to
/// the end of the ready queue. A failed handshake ends the run, and so does
/// the closing of the requests.
pub open spec fn step_spec(pool: PoolView, event: PoolEventView) -> (PoolView, Seq<PoolEffectView>) {
    if !pool.running {
        (pool, Seq::empty())
    } else {
        match event {
            PoolEventView::Request { slot } => {
                if pool.ready.len() > 0 {
                    (
                        PoolView {
                            ready: pool.ready.drop_first(),
                            in_flight: pool.in_flight + 1,
                            ..pool
                        },
                        seq![
                            PoolEffectView::Deliver { slot, token: pool.ready[0] },
                            PoolEffectView::SpawnHandshake { epoch: pool.epoch },
                        ],
                    )
                } else {
                    (
                        PoolView { waiting: pool.waiting.push(slot), ..pool },
                        seq![PoolEffectView::WarnExhausted],
                    )
                }
            },
            PoolEventView::HandshakeSucceeded { epoch, secret } => {
                if epoch != pool.epoch || pool.in_flight == 0 {
                    (pool, Seq::empty())
                } else {
                    let token = TokenView { secret, serial: pool.minted };
                    if pool.waiting.len() > 0 {
                        (
                            PoolView {
                                waiting: pool.waiting.drop_first(),
                                minted: pool.minted + 1,
                                ..pool
                            },
                            seq![
                                PoolEffectView::Deliver { slot: pool.waiting[0], token },
                                PoolEffectView::SpawnHandshake { epoch: pool.epoch },
                            ],
                        )
                    } else {
                        (
                            PoolView {
                                ready: pool.ready.push(token),
                                in_flight: (pool.in_flight - 1) as nat,
                                minted: pool.minted + 1,
                                ..pool
                            },
                            Seq::empty(),
                        )
                    }
                }
            },
            PoolEventView::HandshakeFailed { epoch } => {
                if epoch != pool.epoch {
                    (pool, Seq::empty())
                } else {
                    (pool.stopped(), seq![PoolEffectView::Terminate(Ended::HandshakeFailed)])
                }
            },
            PoolEventView::Closed => {
                (pool.stopped(), seq![PoolEffectView::Terminate(Ended::ChannelsClosed)])
            },
        }
    }
}

/// One run of the token pool.
pub struct TokenPool {
    epoch: u64,
    running: bool,
    ready: VecDeque<Token>,
    in_flight: usize,
    waiting: VecDeque<u64>,
    minted: Ghost<nat>,
}

impl View for TokenPool {
    type V = PoolView;

    closed spec fn view(&self) -> PoolView {
        PoolView {
            epoch: self.epoch,
            running: self.running,
            ready: token_views(self.ready@),
            in_flight: self.in_flight as nat,
            waiting: self.waiting@,
            minted: self.minted@,
        }
    }
}

impl TokenPool {
    /// Starts the run `epoch`.
    pub fn start(epoch: u64) -> (out: (TokenPool, Vec<PoolEffect>))
        ensures
            out.0@ == started(epoch),
            out.0@.wf(),
            effect_views(out.1@) == start_effects(epoch),
    {
        let pool = TokenPool {
            epoch,
            running: true,
            ready: VecDeque::new(),
            in_flight: CAPACITY,
            waiting: VecDeque::new(),
            minted: Ghost(0),
        };
        assert(pool@.ready =~= Seq::<TokenView>::empty());
        let mut effects: Vec<PoolEffect> = Vec::new();
        let mut i: usize = 0;
        while i < CAPACITY
            invariant
                i <= CAPACITY,
                effects@.len() == i,
                forall|j: int|
                    0 <= j < i ==> (#[trigger] effects@[j])@ == (PoolEffectView::SpawnHandshake {
                        epoch,
                    }),
            decreases CAPACITY - i,
        {
            effects.push(PoolEffect::SpawnHandshake { epoch });
            i += 1;
        }
        assert(effect_views(effects@) =~= start_effects(epoch));
        (pool, effects)
    }

    /// The number of the run.
    pub fn epoch(&self) -> (epoch: u64)
        ensures
            epoch == self@.epoch,
    {
        self.epoch
    }

    /// Whether the run is still going.
    pub fn is_running(&self) -> (running: bool)
        ensures
            running == self@.running,
    {
        self.running
    }

    /// How many tokens are ready.
    pub fn ready_count(&self) -> (n: usize)
        ensures
            n == self@.ready.len(),
    {
        self.ready.len()
    }

    /// How many handshakes are on their way.
    pub fn in_flight(&self) -> (n: usize)
        ensures
            n == self@.in_flight,
    {
        self.in_flight
    }

    /// How many requests wait for a token.
    pub fn waiting_count(&self) -> (n: usize)
        ensures
            n == self@.waiting.len(),
    {
        self.waiting.len()
    }

    fn stop(&mut self)
        ensures
            final(self)@ == old(self)@.stopped(),
    {
        self.running = false;
        self.ready.clear();
        self.waiting.clear();
        self.in_flight = 0;
        assert(self@.ready =~= Seq::<TokenView>::empty());
    }

    /// Takes what happened and says what to do.
    pub fn step(&mut self, event: PoolEvent) -> (effects: Vec<PoolEffect>)
        requires
            old(self)@.wf(),
        ensures
            (final(self)@, effect_views(effects@)) == step_spec(old(self)@, event@),
            final(self)@.wf(),
    {
        let mut effects: Vec<PoolEffect> = Vec::new();
        assert(effect_views(effects@) =~= Seq::<PoolEffectView>::empty());
        if !self.running {
            return effects;
        }
        let ghost before = self@;
        match event {
            PoolEvent::Request { slot } => {
                match self.ready.pop_front() {
                    Some(token) => {
                        self.in_flight += 1;
                        effects.push(PoolEffect::Deliver { slot, token });
                        effects.push(PoolEffect::SpawnHandshake { epoch: self.epoch });
                        assert(self@.ready =~= before.ready.drop_first());
                        assert(effect_views(effects@) =~= step_spec(before, event@).1);
                    },
                    None => {
                        self.waiting.push_back(slot);
                        effects.push(PoolEffect::WarnExhausted);
                        assert(self@.ready =~= before.ready);
                        assert(effect_views(effects@) =~= step_spec(before, event@).1);
                    },
                }
            },
            PoolEvent::HandshakeSucceeded { epoch, secret } => {
                if epoch == self.epoch && self.in_flight > 0 {
                    let token = Token { secret, serial: Ghost(self.minted@) };
                    self.minted = Ghost(self.minted@ + 1);
                    match self.waiting.pop_front() {
                        Some(slot) => {
                            effects.push(PoolEffect::Deliver { slot, token });
                            effects.push(PoolEffect::SpawnHandshake { epoch: self.epoch });
                            assert(self@.waiting =~= before.waiting.drop_first());
                            assert(self@.ready =~= before.ready);
                            assert(effect_views(effects@) =~= step_spec(before, event@).1);
                        },
                        None => {
                            self.ready.push_back(token);
                            self.in_flight -= 1;
                            assert(self@.ready =~= before.ready.push(token@));
                            assert(self@.waiting =~= before.waiting);
                        },
                    }
                }
            },
            PoolEvent::HandshakeFailed { epoch } => {
                if epoch == self.epoch {
                    self.stop();
                    effects.push(PoolEffect::Terminate(Ended::HandshakeFailed));
                    assert(effect_views(effects@) =~= step_spec(before, event@).1);
                }
            },
            PoolEvent::Closed => {
                self.stop();
                effects.push(PoolEffect::Terminate(Ended::ChannelsClosed));
                assert(effect_views(effects@) =~= step_spec(before, event@).1);
            },
        }
        effects
    }
}

} // verus!
