//! The five-phase purchase state machine.
//!
//! One purchase attempt walks through CartFill, SessionAcquire,
//! CheckoutEntry, PriceGate and OrderCreate in strict order. A phase that
//! fails is retried (after the caller rotates the proxy, if a pool is
//! configured, and sleeps the task's retry delay); a phase that succeeds
//! advances to the next one; the machine never skips a phase and never
//! goes back. The machine itself is pure: the driver performs the remote
//! call a phase asks for and feeds the outcome back as a [`PhaseEvent`].

use vstd::prelude::*;

verus! {

/// The phases of one purchase attempt, in the order they are entered.
#[derive(Clone, Copy, Debug, PartialEq, Eq, Structural)]
pub enum Phase {
    /// Commit the product identifiers to the cart.
    CartFill,
    /// Extract the checkout-session identifier.
    SessionAcquire,
    /// Enter checkout with the acquired session identifier.
    CheckoutEntry,
    /// Poll the cart total until it is at or below the price ceiling.
    PriceGate,
    /// Submit the order.
    OrderCreate,
    /// The order was created; the attempt is over.
    Done,
}

/// The outcome of one remote operation, fed back into the machine.
///
/// Every remote-call error, whatever its taxonomy, is reported as the
/// uniform [`PhaseEvent::PhaseFailed`]; only successes carry data.
pub enum PhaseEvent {
    /// The current phase's operation succeeded (CartFill, CheckoutEntry,
    /// OrderCreate).
    PhaseSucceeded,
    /// SessionAcquire succeeded and produced this session identifier.
    SessionAcquired(String),
    /// PriceGate's remote call succeeded and observed this cart total.
    PriceObserved(u32),
    /// The current phase's operation failed, or PriceGate could not
    /// observe a total.
    PhaseFailed,
}

/// What the driver must do after feeding an event to the machine.
#[derive(Clone, Copy, Debug, PartialEq, Eq, Structural)]
pub enum Action {
    /// Perform the operation of the (new) current phase.
    Proceed,
    /// Rotate the proxy if a pool is present, sleep the retry delay, then
    /// perform the current phase's operation again.
    RotateAndRetry,
    /// The attempt succeeded; stop.
    Finish,
}

/// One purchase attempt's control state.
pub struct TaskMachine {
    /// The phase whose operation the driver performs next.
    pub phase: Phase,
    /// The session identifier acquired by SessionAcquire, threaded into
    /// CheckoutEntry.
    pub session_uid: Option<String>,
    /// Inclusive ceiling the observed cart total must not exceed before
    /// the machine admits OrderCreate.
    pub cart_total_price_limit: u32,
}

/// Position of a phase in the strict order.
pub open spec fn phase_rank(p: Phase) -> int {
    match p {
        Phase::CartFill => 0,
        Phase::SessionAcquire => 1,
        Phase::CheckoutEntry => 2,
        Phase::PriceGate => 3,
        Phase::OrderCreate => 4,
        Phase::Done => 5,
    }
}

/// Which events can arise from the operation of a given phase. The driver
/// feeds the machine only events of the phase it was asked to perform.
pub open spec fn accepts(p: Phase, e: PhaseEvent) -> bool {
    match e {
        PhaseEvent::PhaseSucceeded => p == Phase::CartFill || p == Phase::CheckoutEntry
            || p == Phase::OrderCreate,
        PhaseEvent::SessionAcquired(_) => p == Phase::SessionAcquire,
        PhaseEvent::PriceObserved(_) => p == Phase::PriceGate,
        PhaseEvent::PhaseFailed => p != Phase::Done,
    }
}

/// The transition table: the machine state after consuming one event.
/// An event that does not fit the current phase leaves the state unchanged.
pub open spec fn step_spec(m: TaskMachine, e: PhaseEvent) -> TaskMachine {
    match e {
        PhaseEvent::PhaseSucceeded => if m.phase == Phase::CartFill {
            TaskMachine { phase: Phase::SessionAcquire, ..m }
        } else if m.phase == Phase::CheckoutEntry {
            TaskMachine { phase: Phase::PriceGate, ..m }
        } else if m.phase == Phase::OrderCreate {
            TaskMachine { phase: Phase::Done, ..m }
        } else {
            m
        },
        PhaseEvent::SessionAcquired(uid) => if m.phase == Phase::SessionAcquire {
            TaskMachine { phase: Phase::CheckoutEntry, session_uid: Some(uid), ..m }
        } else {
            m
        },
        PhaseEvent::PriceObserved(total) => if m.phase == Phase::PriceGate
            && total <= m.cart_total_price_limit {
            TaskMachine { phase: Phase::OrderCreate, ..m }
        } else {
            m
        },
        PhaseEvent::PhaseFailed => m,
    }
}

/// The action the driver is told to take after consuming one event.
pub open spec fn action_spec(m: TaskMachine, e: PhaseEvent) -> Action {
    match e {
        PhaseEvent::PhaseSucceeded => if m.phase == Phase::OrderCreate {
            Action::Finish
        } else {
            Action::Proceed
        },
        PhaseEvent::SessionAcquired(_) => Action::Proceed,
        PhaseEvent::PriceObserved(total) => if total <= m.cart_total_price_limit {
            Action::Proceed
        } else {
            Action::RotateAndRetry
        },
        PhaseEvent::PhaseFailed => Action::RotateAndRetry,
    }
}

impl TaskMachine {
    /// A session identifier is held from CheckoutEntry onwards.
    pub open spec fn wf(self) -> bool {
        phase_rank(self.phase) >= phase_rank(Phase::CheckoutEntry) ==> self.session_uid is Some
    }

    /// A fresh machine, ready to fill the cart.
    pub fn new(cart_total_price_limit: u32) -> (m: Self)
        ensures
            m.phase == Phase::CartFill,
            m.session_uid is None,
            m.cart_total_price_limit == cart_total_price_limit,
            m.wf(),
    {
        TaskMachine { phase: Phase::CartFill, session_uid: None, cart_total_price_limit }
    }

    /// Consume the outcome of the current phase's operation, move to the
    /// next state of the transition table, and tell the driver what to do.
    pub fn step(&mut self, event: PhaseEvent) -> (a: Action)
        requires
            old(self).wf(),
            accepts(old(self).phase, event),
        ensures
            *final(self) == step_spec(*old(self), event),
            a == action_spec(*old(self), event),
            final(self).wf(),
            final(self).cart_total_price_limit == old(self).cart_total_price_limit,
    {
        match event {
            PhaseEvent::PhaseFailed => Action::RotateAndRetry,
            PhaseEvent::PhaseSucceeded => match self.phase {
                Phase::CartFill => {
                    self.phase = Phase::SessionAcquire;
                    Action::Proceed
                },
                Phase::CheckoutEntry => {
                    self.phase = Phase::PriceGate;
                    Action::Proceed
                },
                Phase::OrderCreate => {
                    self.phase = Phase::Done;
                    Action::Finish
                },
                _ => unreached(),
            },
            PhaseEvent::SessionAcquired(uid) => {
                self.phase = Phase::CheckoutEntry;
                self.session_uid = Some(uid);
                Action::Proceed
            },
            PhaseEvent::PriceObserved(total) => {
                if total <= self.cart_total_price_limit {
                    self.phase = Phase::OrderCreate;
                    Action::Proceed
                } else {
                    Action::RotateAndRetry
                }
            },
        }
    }

    /// The phase whose operation the driver performs next.
    pub fn current_phase(&self) -> (p: Phase)
        ensures
            p == self.phase,
    {
        self.phase
    }
}

/// The machine state after consuming a whole sequence of events.
pub open spec fn machine_after(m: TaskMachine, events: Seq<PhaseEvent>) -> TaskMachine
    decreases events.len(),
{
    if events.len() == 0 {
        m
    } else {
        machine_after(step_spec(m, events[0]), events.skip(1))
    }
}

/// One step never goes back a phase and never skips one.
pub proof fn lemma_step_phase_order(m: TaskMachine, e: PhaseEvent)
    ensures
        phase_rank(m.phase) <= phase_rank(step_spec(m, e).phase) <= phase_rank(m.phase) + 1,
        step_spec(m, e).cart_total_price_limit == m.cart_total_price_limit,
{
}

/// The machine reaches CheckoutEntry (or any later phase) only after a
/// SessionAcquire operation has returned successfully: for every event
/// sequence consumed from a phase before CheckoutEntry, if the machine
/// ends at or past CheckoutEntry, some event was a SessionAcquire success.
pub proof fn lemma_no_checkout_before_session_success(m: TaskMachine, events: Seq<PhaseEvent>)
    requires
        phase_rank(m.phase) < phase_rank(Phase::CheckoutEntry),
    ensures
        phase_rank(machine_after(m, events).phase) >= phase_rank(Phase::CheckoutEntry)
            ==> exists|i: int|
            #![trigger events[i]]
            0 <= i < events.len() && events[i] matches PhaseEvent::SessionAcquired(_),
    decreases events.len(),
{
    if events.len() > 0 {
        let m1 = step_spec(m, events[0]);
        if events[0] matches PhaseEvent::SessionAcquired(_) {
            assert(0 <= 0 < events.len() && events[0] matches PhaseEvent::SessionAcquired(_));
        } else {
            assert(phase_rank(m1.phase) < phase_rank(Phase::CheckoutEntry));
            lemma_no_checkout_before_session_success(m1, events.skip(1));
            if phase_rank(machine_after(m, events).phase) >= phase_rank(Phase::CheckoutEntry) {
                let j = choose|j: int|
                    #![trigger events.skip(1)[j]]
                    0 <= j < events.skip(1).len() && events.skip(1)[j] matches PhaseEvent::SessionAcquired(_);
                assert(events[j + 1] matches PhaseEvent::SessionAcquired(_));
            }
        }
    }
}

/// The machine reaches OrderCreate (or Done) only after PriceGate has
/// observed a cart total at or below the machine's price ceiling: for
/// every event sequence consumed from a phase before OrderCreate, if the
/// machine ends at or past OrderCreate, some event observed such a total.
pub proof fn lemma_no_order_before_price_gate(m: TaskMachine, events: Seq<PhaseEvent>)
    requires
        phase_rank(m.phase) < phase_rank(Phase::OrderCreate),
    ensures
        phase_rank(machine_after(m, events).phase) >= phase_rank(Phase::OrderCreate)
            ==> exists|i: int|
            #![trigger events[i]]
            0 <= i < events.len() && (events[i] matches PhaseEvent::PriceObserved(total)
                && total <= m.cart_total_price_limit),
    decreases events.len(),
{
    if events.len() > 0 {
        let m1 = step_spec(m, events[0]);
        lemma_step_phase_order(m, events[0]);
        let admitted = events[0] matches PhaseEvent::PriceObserved(total)
            && total <= m.cart_total_price_limit && m.phase == Phase::PriceGate;
        if admitted {
            assert(0 <= 0 < events.len() && (events[0] matches PhaseEvent::PriceObserved(total)
                && total <= m.cart_total_price_limit));
        } else {
            assert(phase_rank(m1.phase) < phase_rank(Phase::OrderCreate));
            lemma_no_order_before_price_gate(m1, events.skip(1));
            if phase_rank(machine_after(m, events).phase) >= phase_rank(Phase::OrderCreate) {
                let j = choose|j: int|
                    #![trigger events.skip(1)[j]]
                    0 <= j < events.skip(1).len() && (events.skip(1)[j]
                        matches PhaseEvent::PriceObserved(total)
                        && total <= m1.cart_total_price_limit);
                assert(events[j + 1] matches PhaseEvent::PriceObserved(total)
                    && total <= m.cart_total_price_limit);
            }
        }
    }
}

} // verus!
