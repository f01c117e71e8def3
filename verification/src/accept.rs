//! The accept loop of a listener.
//!
//! An [`AcceptLoop`] holds what has been decided so far. The caller performs
//! the [`LoopAction`] it asks for and hands back the [`LoopEvent`] that came of
//! it. A listener with a cap takes a slot before it accepts a connection, and
//! the connection's handler holds the slot until it ends, so that the listen
//! queue fills up rather than the memory.

use vstd::prelude::*;

use crate::session::ListenerKind;

verus! {

/// What the loop waits for.
#[derive(Debug, Clone, Copy, PartialEq, Eq, Structural)]
pub enum LoopPhase {
    /// The listening socket.
    Bind,
    /// How many slots are free.
    Check,
    /// A slot.
    Acquire,
    /// A connection.
    Accept,
    /// The connection to be handed over, or the failure to be dealt with.
    Handle,
    /// Nothing more.
    Stopped,
}

/// What came of an action.
#[derive(Debug, Clone, Copy, PartialEq, Eq, Structural)]
pub enum LoopEvent {
    /// Whether the address could be bound.
    Bound(bool),
    /// How many slots are free.
    Available(usize),
    /// Whether a slot was taken; no slot is ever given out again if not.
    Acquired(bool),
    /// Whether a connection was accepted.
    Accepted(bool),
    /// The connection was handed over, or the failure was dealt with.
    Handled,
}

/// What the caller is to do next.
#[derive(Debug, Clone, Copy, PartialEq, Eq, Structural)]
pub enum LoopAction {
    /// Count the free slots.
    CheckSlots,
    /// Wait for a slot; before that, warn that the listener is saturated.
    Acquire { warn: bool },
    /// Accept a connection; before that, note that there is capacity again.
    Accept { announce: bool },
    /// Start the connection's handler and give it the slot.
    Spawn,
    /// Report the failure and give the slot back.
    Discard,
    /// Leave the loop, with the error that came last or without one.
    Stop { failed: bool },
}

/// The state of an accept loop.
#[derive(Debug, Clone, Copy, PartialEq, Eq, Structural)]
pub struct AcceptLoop {
    pub kind: ListenerKind,
    /// The cap on connections in flight; 0 for none.
    pub max_connections: usize,
    /// A warning of saturation was given and not taken back.
    pub warned_saturated: bool,
    pub phase: LoopPhase,
}

impl AcceptLoop {
    /// A loop that has yet to bind its address.
    pub open spec fn spec_start(kind: ListenerKind, max_connections: usize) -> AcceptLoop {
        AcceptLoop { kind, max_connections, warned_saturated: false, phase: LoopPhase::Bind }
    }

    /// The events that can come of the action last asked for.
    pub open spec fn expects(self, event: LoopEvent) -> bool {
        match event {
            LoopEvent::Bound(_) => self.phase == LoopPhase::Bind,
            LoopEvent::Available(_) => self.phase == LoopPhase::Check,
            LoopEvent::Acquired(_) => self.phase == LoopPhase::Acquire,
            LoopEvent::Accepted(_) => self.phase == LoopPhase::Accept,
            LoopEvent::Handled => self.phase == LoopPhase::Handle,
        }
    }

    /// The next round: with a cap, a slot comes before the connection.
    pub open spec fn next_round(self) -> (AcceptLoop, LoopAction) {
        if self.max_connections > 0 {
            (AcceptLoop { phase: LoopPhase::Check, ..self }, LoopAction::CheckSlots)
        } else {
            (
                AcceptLoop { phase: LoopPhase::Accept, ..self },
                LoopAction::Accept { announce: false },
            )
        }
    }

    /// The loop ends.
    pub open spec fn stop(self, failed: bool) -> (AcceptLoop, LoopAction) {
        (AcceptLoop { phase: LoopPhase::Stopped, ..self }, LoopAction::Stop { failed })
    }

    /// The next state and the next action.
    pub open spec fn spec_step(self, event: LoopEvent) -> (AcceptLoop, LoopAction) {
        match event {
            LoopEvent::Bound(bound) => if bound {
                self.next_round()
            } else {
                self.stop(true)
            },
            LoopEvent::Available(free) => (
                AcceptLoop {
                    phase: LoopPhase::Acquire,
                    warned_saturated: self.warned_saturated || free == 0,
                    ..self
                },
                LoopAction::Acquire { warn: free == 0 && !self.warned_saturated },
            ),
            LoopEvent::Acquired(taken) => if taken {
                (
                    AcceptLoop { phase: LoopPhase::Accept, warned_saturated: false, ..self },
                    LoopAction::Accept { announce: self.warned_saturated },
                )
            } else {
                self.stop(false)
            },
            LoopEvent::Accepted(accepted) => if accepted {
                (AcceptLoop { phase: LoopPhase::Handle, ..self }, LoopAction::Spawn)
            } else if self.kind == ListenerKind::Mixed {
                (AcceptLoop { phase: LoopPhase::Handle, ..self }, LoopAction::Discard)
            } else {
                self.stop(true)
            },
            LoopEvent::Handled => self.next_round(),
        }
    }

    /// A loop that has yet to bind its address.
    pub fn start(kind: ListenerKind, max_connections: usize) -> (r: AcceptLoop)
        ensures
            r == AcceptLoop::spec_start(kind, max_connections),
            r == (AcceptLoop {
                kind,
                max_connections,
                warned_saturated: false,
                phase: LoopPhase::Bind,
            }),
    {
        AcceptLoop { kind, max_connections, warned_saturated: false, phase: LoopPhase::Bind }
    }

    /// Whether this event can come of the action last asked for.
    pub fn accepts(&self, event: LoopEvent) -> (r: bool)
        ensures
            r == self.expects(event),
    {
        match event {
            LoopEvent::Bound(_) => self.phase == LoopPhase::Bind,
            LoopEvent::Available(_) => self.phase == LoopPhase::Check,
            LoopEvent::Acquired(_) => self.phase == LoopPhase::Acquire,
            LoopEvent::Accepted(_) => self.phase == LoopPhase::Accept,
            LoopEvent::Handled => self.phase == LoopPhase::Handle,
        }
    }

    fn begin_round(&mut self) -> (action: LoopAction)
        ensures
            (*final(self), action) == old(self).next_round(),
    {
        if self.max_connections > 0 {
            self.phase = LoopPhase::Check;
            LoopAction::CheckSlots
        } else {
            self.phase = LoopPhase::Accept;
            LoopAction::Accept { announce: false }
        }
    }

    fn leave(&mut self, failed: bool) -> (action: LoopAction)
        ensures
            (*final(self), action) == old(self).stop(failed),
    {
        self.phase = LoopPhase::Stopped;
        LoopAction::Stop { failed }
    }

    /// Takes in what came of the last action and says what to do next.
    pub fn step(&mut self, event: LoopEvent) -> (action: LoopAction)
        requires
            old(self).expects(event),
        ensures
            (*final(self), action) == old(self).spec_step(event),
    {
        match event {
            LoopEvent::Bound(bound) => if bound {
                self.begin_round()
            } else {
                self.leave(true)
            },
            LoopEvent::Available(free) => {
                let warn: bool = free == 0 && !self.warned_saturated;
                if warn {
                    self.warned_saturated = true;
                }
                self.phase = LoopPhase::Acquire;
                LoopAction::Acquire { warn }
            },
            LoopEvent::Acquired(taken) => if taken {
                let announce: bool = self.warned_saturated;
                self.warned_saturated = false;
                self.phase = LoopPhase::Accept;
                LoopAction::Accept { announce }
            } else {
                self.leave(false)
            },
            LoopEvent::Accepted(accepted) => if accepted {
                self.phase = LoopPhase::Handle;
                LoopAction::Spawn
            } else if self.kind == ListenerKind::Mixed {
                self.phase = LoopPhase::Handle;
                LoopAction::Discard
            } else {
                self.leave(true)
            },
            LoopEvent::Handled => self.begin_round(),
        }
    }
}

/// A warning of saturation is given only where none stands, and is taken back
/// only where one stands; nothing else changes whether one stands. So two
/// warnings always have a note of free capacity between them.
pub proof fn lemma_warnings_alternate(state: AcceptLoop, event: LoopEvent)
    requires
        state.expects(event),
    ensures
        ({
            let (next, action) = state.spec_step(event);
            if action == (LoopAction::Acquire { warn: true }) {
                !state.warned_saturated && next.warned_saturated
            } else if action == (LoopAction::Accept { announce: true }) {
                state.warned_saturated && !next.warned_saturated
            } else {
                next.warned_saturated == state.warned_saturated
            }
        }),
{
}

/// A listener with all that it has set in motion.
pub struct World {
    pub state: AcceptLoop,
    /// Connections whose handlers have not ended.
    pub in_flight: nat,
    /// Slots that are taken.
    pub taken: nat,
}

/// What can happen next in the world.
pub enum WorldEvent {
    /// The loop's action came to something.
    Loop(LoopEvent),
    /// A handler ended and gave its slot back.
    Finished,
}

impl World {
    /// Nothing was accepted yet.
    pub open spec fn start(kind: ListenerKind, max_connections: usize) -> World {
        World { state: AcceptLoop::spec_start(kind, max_connections), in_flight: 0, taken: 0 }
    }

    /// A slot is only given out while fewer are taken than there are.
    pub open spec fn possible(self, event: WorldEvent) -> bool {
        match event {
            WorldEvent::Loop(event) => {
                &&& self.state.expects(event)
                &&& event == LoopEvent::Acquired(true) ==> self.taken < self.state.max_connections
            },
            WorldEvent::Finished => self.in_flight > 0,
        }
    }

    /// One slot for each connection, if there is a cap.
    pub open spec fn slot(self) -> nat {
        if self.state.max_connections > 0 {
            1
        } else {
            0
        }
    }

    /// The world after something happened.
    pub open spec fn next(self, event: WorldEvent) -> World {
        match event {
            WorldEvent::Loop(event) => {
                let (state, action) = self.state.spec_step(event);
                World {
                    state,
                    in_flight: if action == LoopAction::Spawn {
                        self.in_flight + 1
                    } else {
                        self.in_flight
                    },
                    taken: if event == LoopEvent::Acquired(true) {
                        self.taken + 1
                    } else if action == LoopAction::Discard {
                        (self.taken - self.slot()) as nat
                    } else {
                        self.taken
                    },
                }
            },
            WorldEvent::Finished => World {
                in_flight: (self.in_flight - 1) as nat,
                taken: (self.taken - self.slot()) as nat,
                ..self
            },
        }
    }

    /// The world after a series of events.
    pub open spec fn after(self, events: Seq<WorldEvent>) -> World
        decreases events.len(),
    {
        if events.len() == 0 {
            self
        } else {
            self.after(events.drop_last()).next(events.last())
        }
    }

    /// Each event of the series can happen when it does.
    pub open spec fn all_possible(self, events: Seq<WorldEvent>) -> bool
        decreases events.len(),
    {
        events.len() > 0 ==> {
            &&& self.all_possible(events.drop_last())
            &&& self.after(events.drop_last()).possible(events.last())
        }
    }
}

/// With a cap there are never more connections in flight than the cap allows,
/// and whenever the loop waits for a connection there is room for one more.
/// Without a cap no slot is ever asked for.
pub proof fn lemma_cap_holds(kind: ListenerKind, max_connections: usize, events: Seq<WorldEvent>)
    requires
        World::start(kind, max_connections).all_possible(events),
    ensures
        ({
            let world = World::start(kind, max_connections).after(events);
            &&& max_connections > 0 ==> world.in_flight <= max_connections
            &&& max_connections > 0 && world.state.phase == LoopPhase::Accept ==> world.in_flight
                < max_connections
            &&& max_connections == 0 ==> world.taken == 0 && world.state.phase != LoopPhase::Check
                && world.state.phase != LoopPhase::Acquire
        }),
{
    lemma_slots_counted(kind, max_connections, events);
}

/// Each slot that is taken belongs to a connection in flight or to the loop
/// that is about to accept one.
pub proof fn lemma_slots_counted(
    kind: ListenerKind,
    max_connections: usize,
    events: Seq<WorldEvent>,
)
    requires
        World::start(kind, max_connections).all_possible(events),
    ensures
        ({
            let world = World::start(kind, max_connections).after(events);
            &&& world.state.kind == kind
            &&& world.state.max_connections == max_connections
            &&& max_connections > 0 && world.state.phase != LoopPhase::Stopped ==> world.taken
                == world.in_flight + (if world.state.phase == LoopPhase::Accept {
                1nat
            } else {
                0nat
            })
            &&& max_connections > 0 ==> world.in_flight <= world.taken <= max_connections
            &&& max_connections == 0 ==> world.taken == 0 && world.state.phase != LoopPhase::Check
                && world.state.phase != LoopPhase::Acquire
        }),
    decreases events.len(),
{
    if events.len() > 0 {
        lemma_slots_counted(kind, max_connections, events.drop_last());
    }
}

/// Every connection that is accepted is handed to a handler, for every kind of
/// listener and every cap; a connection is only given up, or the loop left for
/// it, where none was accepted.
pub proof fn lemma_accepted_is_served(state: AcceptLoop, accepted: bool)
    requires
        state.phase == LoopPhase::Accept,
    ensures
        ({
            let (next, action) = state.spec_step(LoopEvent::Accepted(accepted));
            &&& action == LoopAction::Spawn <==> accepted
            &&& action == LoopAction::Discard <==> !accepted && state.kind == ListenerKind::Mixed
            &&& action is Stop <==> !accepted && state.kind == ListenerKind::Redir
            &&& action is Stop ==> action == (LoopAction::Stop { failed: true })
            &&& next == (AcceptLoop {
                phase: if action is Stop {
                    LoopPhase::Stopped
                } else {
                    LoopPhase::Handle
                },
                ..state
            })
        }),
{
}

/// A round begins, for every kind of listener, when the address is bound and
/// when a connection or a failure was dealt with: with a cap, however high, the
/// free slots are counted first; without one a connection is accepted at once.
/// A listener that cannot be bound ends with the failure.
pub proof fn lemma_round(state: AcceptLoop, event: LoopEvent)
    requires
        event is Bound || event is Handled,
    ensures
        ({
            let (next, action) = state.spec_step(event);
            if event == LoopEvent::Bound(false) {
                &&& action == (LoopAction::Stop { failed: true })
                &&& next == (AcceptLoop { phase: LoopPhase::Stopped, ..state })
            } else if state.max_connections == 0 {
                &&& action == (LoopAction::Accept { announce: false })
                &&& next == (AcceptLoop { phase: LoopPhase::Accept, ..state })
            } else {
                &&& action == LoopAction::CheckSlots
                &&& next == (AcceptLoop { phase: LoopPhase::Check, ..state })
            }
        }),
{
}

/// Slots: counting them is followed by waiting for one, with a warning exactly
/// if none is free and none was given yet; taking one is followed by accepting,
/// with a note exactly if a warning stands; if no slot is given out any more the
/// loop ends without a failure.
pub proof fn lemma_slots(state: AcceptLoop, free: usize, taken: bool)
    ensures
        ({
            let (waiting, ask) = state.spec_step(LoopEvent::Available(free));
            &&& ask == (LoopAction::Acquire { warn: free == 0 && !state.warned_saturated })
            &&& waiting.phase == LoopPhase::Acquire
            &&& waiting.warned_saturated <==> free == 0 || state.warned_saturated
            &&& waiting.kind == state.kind
            &&& waiting.max_connections == state.max_connections
        }),
        ({
            let (next, action) = state.spec_step(LoopEvent::Acquired(taken));
            if taken {
                &&& action == (LoopAction::Accept { announce: state.warned_saturated })
                &&& next.phase == LoopPhase::Accept
                &&& !next.warned_saturated
                &&& next.kind == state.kind
                &&& next.max_connections == state.max_connections
            } else {
                &&& action == (LoopAction::Stop { failed: false })
                &&& next == (AcceptLoop { phase: LoopPhase::Stopped, ..state })
            }
        }),
{
}

/// In each phase the loop takes the events of one sort, whatever they carry, and
/// no others; once stopped it takes none.
pub proof fn lemma_awaited(state: AcceptLoop, event: LoopEvent)
    ensures
        state.phase == LoopPhase::Bind ==> (state.expects(event) <==> event is Bound),
        state.phase == LoopPhase::Check ==> (state.expects(event) <==> event is Available),
        state.phase == LoopPhase::Acquire ==> (state.expects(event) <==> event is Acquired),
        state.phase == LoopPhase::Accept ==> (state.expects(event) <==> event is Accepted),
        state.phase == LoopPhase::Handle ==> (state.expects(event) <==> event is Handled),
        state.phase == LoopPhase::Stopped ==> !state.expects(event),
{
}

/// A loop starts with the address to bind, without a warning, and with the cap
/// that it was given.
pub proof fn lemma_start(kind: ListenerKind, max_connections: usize)
    ensures
        AcceptLoop::spec_start(kind, max_connections).kind == kind,
        AcceptLoop::spec_start(kind, max_connections).max_connections == max_connections,
        !AcceptLoop::spec_start(kind, max_connections).warned_saturated,
        AcceptLoop::spec_start(kind, max_connections).phase == LoopPhase::Bind,
{
}

/// How often a connection was accepted in a series of events.
pub open spec fn accepted_count(events: Seq<WorldEvent>) -> nat
    decreases events.len(),
{
    if events.len() == 0 {
        0
    } else if events.last() == WorldEvent::Loop(LoopEvent::Accepted(true)) {
        accepted_count(events.drop_last()) + 1
    } else {
        accepted_count(events.drop_last())
    }
}

/// How often a handler ended in a series of events.
pub open spec fn finished_count(events: Seq<WorldEvent>) -> nat
    decreases events.len(),
{
    if events.len() == 0 {
        0
    } else if events.last() == WorldEvent::Finished {
        finished_count(events.drop_last()) + 1
    } else {
        finished_count(events.drop_last())
    }
}

/// No accepted connection is lost: in every run those that were accepted are in
/// flight or have ended.
pub proof fn lemma_no_connection_lost(
    kind: ListenerKind,
    max_connections: usize,
    events: Seq<WorldEvent>,
)
    requires
        World::start(kind, max_connections).all_possible(events),
    ensures
        World::start(kind, max_connections).after(events).in_flight + finished_count(events)
            == accepted_count(events),
    decreases events.len(),
{
    if events.len() > 0 {
        lemma_no_connection_lost(kind, max_connections, events.drop_last());
    }
}

} // verus!
