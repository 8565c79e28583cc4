//! The control of the search for the time at which a swinging charge crossed
//! an observer's past light cone.
//!
//! The time sought is a root of the residual
//! `f(t) = (t - observer.ct)^2 - |center - observer + amplitude * sin(omega * t / c)|^2`.
//! The solver tries Newton's method for a bounded number of rounds and then
//! falls back on bisection, which cannot fail: first it widens a bracket
//! below the observer's time until the residual at its lower end is no longer
//! negative, then it halves the bracket until the residual vanishes or the
//! bracket can no longer be told from a point.
//!
//! The solver decides; whoever drives it evaluates the residual. The width of
//! the bracket is always a power of two, which the solver keeps by its
//! exponent: doubling and halving are then exact, and the solver can tell
//! how many steps it has left at most.

use vstd::prelude::*;
use crate::scalar::{Scalar, MAX_EXPONENT, MIN_EXPONENT};

verus! {

/// The number of rounds that Newton's method is given.
pub const NEWTON_ROUNDS: u8 = 10;

/// The bits of `1e-12`: the residual at or below which bisection stops, and
/// the factor of the distance below which Newton's method stops.
pub const RESIDUAL_TOLERANCE_BITS: u64 = 0x3D71_9799_812D_EA11;

/// The bits of `1e-8`: a slope of the residual below this in absolute value
/// is too flat for a Newton step.
pub const SLOPE_FLOOR_BITS: u64 = 0x3E45_798E_E230_8C3A;

/// The bits of `2^-51`, twice the machine epsilon: an observer nearer to the
/// centre than this sees the charge at the observer's own time.
pub const NEARNESS_BITS: u64 = 0x3CC0_0000_0000_0000;

/// The exponent of the widest bracket: the largest power of two that is
/// finite.
pub const WIDEST: i16 = MAX_EXPONENT;

/// The most steps that a solver takes from its start to its end.
pub const MOST_STEPS: u16 = 3132;

/// Where the solver stands.
#[derive(Clone, Copy, Debug)]
pub enum RetardedTimeSolver {
    /// Newton's method is in round `round` and wants the residual and its
    /// slope at `ct`.
    Newton { round: u8, ct: Scalar },
    /// Bisection widens its bracket, which reaches from `hi` down by two to
    /// the power `log_dt`, and wants the residual at the lower end.
    Expand { hi: Scalar, log_dt: i16 },
    /// Bisection halves its bracket, which reaches from `hi` down by two to
    /// the power `log_dt`, and wants the residual in the middle.
    Halve { hi: Scalar, log_dt: i16 },
    /// The retarded time is `ct`.
    Done { ct: Scalar },
}

impl RetardedTimeSolver {
    /// Newton's method has rounds left, and the width of the bracket is one
    /// that doubling from one and halving can reach.
    pub open spec fn wf(self) -> bool {
        match self {
            RetardedTimeSolver::Newton { round, .. } => round < NEWTON_ROUNDS,
            RetardedTimeSolver::Expand { log_dt, .. } => 0 <= log_dt <= WIDEST,
            RetardedTimeSolver::Halve { log_dt, .. } => MIN_EXPONENT <= log_dt <= WIDEST,
            RetardedTimeSolver::Done { .. } => true,
        }
    }

    /// A bound on the number of steps that the solver still takes.
    pub open spec fn steps_left(self) -> nat {
        match self {
            RetardedTimeSolver::Newton { round, .. } => (3132 - round) as nat,
            RetardedTimeSolver::Expand { log_dt, .. } => (3122 - log_dt) as nat,
            RetardedTimeSolver::Halve { log_dt, .. } => (log_dt + 1075) as nat,
            RetardedTimeSolver::Done { .. } => 0,
        }
    }

    /// How far below `hi` the solver wants the residual next: the width of
    /// the bracket while it widens, half of it while it halves.
    pub open spec fn reach(self) -> Scalar {
        match self {
            RetardedTimeSolver::Expand { log_dt, .. } => Scalar::two_to(log_dt as int),
            RetardedTimeSolver::Halve { log_dt, .. } => Scalar::two_to(log_dt - 1),
            _ => Scalar { bits: 0 },
        }
    }

    /// The bisection as it begins below the observer's time, with a bracket
    /// of width one.
    pub open spec fn fallback(observer_ct: Scalar) -> RetardedTimeSolver {
        RetardedTimeSolver::Expand { hi: observer_ct, log_dt: 0 }
    }

    /// The solver as it begins.
    pub open spec fn begin(
        observer_ct: Scalar,
        distance: Scalar,
        seed: Scalar,
    ) -> RetardedTimeSolver {
        if distance.less(Scalar { bits: NEARNESS_BITS }) {
            RetardedTimeSolver::Done { ct: observer_ct }
        } else {
            RetardedTimeSolver::Newton { round: 0, ct: seed }
        }
    }

    /// The solver after a round of Newton's method.
    pub open spec fn after_newton(
        self,
        observer_ct: Scalar,
        residual: Scalar,
        tolerance: Scalar,
        slope: Scalar,
        next_ct: Scalar,
    ) -> RetardedTimeSolver {
        match self {
            RetardedTimeSolver::Newton { round, ct } => {
                if residual.absolute().less(tolerance) {
                    RetardedTimeSolver::Done { ct }
                } else if slope.absolute().less(Scalar { bits: SLOPE_FLOOR_BITS }) || round + 1
                    >= NEWTON_ROUNDS {
                    RetardedTimeSolver::fallback(observer_ct)
                } else {
                    RetardedTimeSolver::Newton { round: (round + 1) as u8, ct: next_ct }
                }
            },
            _ => self,
        }
    }

    /// The solver after a look at the lower end of the bracket that it
    /// widens.
    pub open spec fn after_expand(self, residual: Scalar) -> RetardedTimeSolver {
        match self {
            RetardedTimeSolver::Expand { hi, log_dt } => {
                if residual.less(Scalar { bits: 0 }) && log_dt < WIDEST {
                    RetardedTimeSolver::Expand { hi, log_dt: (log_dt + 1) as i16 }
                } else {
                    RetardedTimeSolver::Halve { hi, log_dt }
                }
            },
            _ => self,
        }
    }

    /// The solver after a look at the middle of the bracket that it halves.
    pub open spec fn after_halve(self, mid: Scalar, residual: Scalar) -> RetardedTimeSolver {
        match self {
            RetardedTimeSolver::Halve { hi, log_dt } => {
                if mid.equal(hi) || log_dt <= MIN_EXPONENT || residual.absolute().less_eq(
                    Scalar { bits: RESIDUAL_TOLERANCE_BITS },
                ) {
                    RetardedTimeSolver::Done { ct: mid }
                } else if residual.less(Scalar { bits: 0 }) {
                    RetardedTimeSolver::Halve { hi: mid, log_dt: (log_dt - 1) as i16 }
                } else {
                    RetardedTimeSolver::Halve { hi, log_dt: (log_dt - 1) as i16 }
                }
            },
            _ => self,
        }
    }

    /// Begins the search. `distance` is the distance from the observer to
    /// the centre of the swing; `seed` is where Newton's method starts, the
    /// observer's time less that distance less twice the length of the
    /// amplitude. An observer at the centre, up to rounding, sees the charge
    /// at the observer's own time.
    pub fn start(observer_ct: Scalar, distance: Scalar, seed: Scalar) -> (s: RetardedTimeSolver)
        ensures
            s == RetardedTimeSolver::begin(observer_ct, distance, seed),
            s.wf(),
            s.steps_left() <= MOST_STEPS,
    {
        if distance.lt(Scalar::from_bits(NEARNESS_BITS)) {
            RetardedTimeSolver::Done { ct: observer_ct }
        } else {
            RetardedTimeSolver::Newton { round: 0, ct: seed }
        }
    }

    /// The retarded time, once it is found.
    pub fn solution(&self) -> (r: Option<Scalar>)
        ensures
            r == (match *self {
                RetardedTimeSolver::Done { ct } => Some(ct),
                _ => None,
            }),
    {
        match *self {
            RetardedTimeSolver::Done { ct } => Some(ct),
            _ => None,
        }
    }

    /// How far below `hi` the residual is wanted next: while the bracket
    /// widens, the residual is wanted at `hi - offset`; while it halves,
    /// `hi - offset` is its middle.
    pub fn offset(&self) -> (r: Scalar)
        requires
            self.wf(),
        ensures
            r == self.reach(),
    {
        match *self {
            RetardedTimeSolver::Expand { log_dt, .. } => Scalar::power_of_two(log_dt),
            RetardedTimeSolver::Halve { log_dt, .. } => Scalar::power_of_two(log_dt - 1),
            _ => Scalar::zero(),
        }
    }

    /// Ends a round of Newton's method. At the time `ct` of the round,
    /// `residual` is the residual, `slope` its derivative, `next_ct` the
    /// time `ct - residual / slope` that a Newton step leads to, and
    /// `tolerance` is `1e-12` multiplied by the distance from the observer to
    /// the centre. A residual below the tolerance in absolute value ends the
    /// search at `ct`. A slope below `1e-8` in absolute value, or the end of
    /// the last round, hands over to bisection. Otherwise the next round
    /// begins at `next_ct`. A solver that is not in Newton's method stays as
    /// it is.
    pub fn newton_step(
        self,
        observer_ct: Scalar,
        residual: Scalar,
        tolerance: Scalar,
        slope: Scalar,
        next_ct: Scalar,
    ) -> (s: RetardedTimeSolver)
        requires
            self.wf(),
        ensures
            s == self.after_newton(observer_ct, residual, tolerance, slope, next_ct),
            s.wf(),
            self is Newton ==> s.steps_left() < self.steps_left(),
    {
        match self {
            RetardedTimeSolver::Newton { round, ct } => {
                if residual.abs().lt(tolerance) {
                    RetardedTimeSolver::Done { ct }
                } else if slope.abs().lt(Scalar::from_bits(SLOPE_FLOOR_BITS)) || round + 1
                    >= NEWTON_ROUNDS {
                    RetardedTimeSolver::Expand { hi: observer_ct, log_dt: 0 }
                } else {
                    RetardedTimeSolver::Newton { round: round + 1, ct: next_ct }
                }
            },
            _ => self,
        }
    }

    /// Ends a look at the lower end of the bracket: `residual` is the
    /// residual at `hi` less the width of the bracket. While the residual
    /// is negative the bracket does not yet hold the root and is doubled;
    /// after that, or once doubling would make its width infinite, it is
    /// halved. A solver that is not widening stays as it is.
    pub fn expand_step(self, residual: Scalar) -> (s: RetardedTimeSolver)
        requires
            self.wf(),
        ensures
            s == self.after_expand(residual),
            s.wf(),
            self is Expand ==> s.steps_left() < self.steps_left(),
    {
        match self {
            RetardedTimeSolver::Expand { hi, log_dt } => {
                if residual.lt(Scalar::zero()) && log_dt < WIDEST {
                    RetardedTimeSolver::Expand { hi, log_dt: log_dt + 1 }
                } else {
                    RetardedTimeSolver::Halve { hi, log_dt }
                }
            },
            _ => self,
        }
    }

    /// Ends a look at the middle of the bracket: `mid` is `hi` less half
    /// the width of the bracket and `residual` is the residual there. The
    /// search ends at `mid` when `mid` can no longer be told from `hi`,
    /// when half the width is no longer a number other than zero, or when
    /// the residual is at most `1e-12` in absolute value. Otherwise the
    /// bracket shrinks to its lower half, below `mid`, where the residual at
    /// `mid` is negative, and to its upper half where it is not. A solver
    /// that is not halving stays as it is.
    pub fn halve_step(self, mid: Scalar, residual: Scalar) -> (s: RetardedTimeSolver)
        requires
            self.wf(),
        ensures
            s == self.after_halve(mid, residual),
            s.wf(),
            self is Halve ==> s.steps_left() < self.steps_left(),
    {
        match self {
            RetardedTimeSolver::Halve { hi, log_dt } => {
                if mid == hi || log_dt <= MIN_EXPONENT || residual.abs().le(
                    Scalar::from_bits(RESIDUAL_TOLERANCE_BITS),
                ) {
                    RetardedTimeSolver::Done { ct: mid }
                } else if residual.lt(Scalar::zero()) {
                    RetardedTimeSolver::Halve { hi: mid, log_dt: log_dt - 1 }
                } else {
                    RetardedTimeSolver::Halve { hi, log_dt: log_dt - 1 }
                }
            },
            _ => self,
        }
    }
}

/// What one round of Newton's method is told: the residual, the tolerance,
/// the slope of the residual and the time that a Newton step leads to.
pub struct NewtonRound {
    pub residual: Scalar,
    pub tolerance: Scalar,
    pub slope: Scalar,
    pub next_ct: Scalar,
}

/// The solver after it has been told `rounds`, one after the other.
pub open spec fn after_rounds(
    s: RetardedTimeSolver,
    observer_ct: Scalar,
    rounds: Seq<NewtonRound>,
) -> RetardedTimeSolver
    decreases rounds.len(),
{
    if rounds.len() == 0 {
        s
    } else {
        let told = rounds.last();
        after_rounds(s, observer_ct, rounds.drop_last()).after_newton(
            observer_ct,
            told.residual,
            told.tolerance,
            told.slope,
            told.next_ct,
        )
    }
}

/// Newton's method is left after ten rounds at the latest: whatever the
/// rounds are told, after `k` of them the solver is in round `k` if it is
/// still in Newton's method at all, and after ten it is not.
pub proof fn lemma_newton_ends(
    observer_ct: Scalar,
    distance: Scalar,
    seed: Scalar,
    rounds: Seq<NewtonRound>,
)
    ensures
        ({
            let s = after_rounds(
                RetardedTimeSolver::begin(observer_ct, distance, seed),
                observer_ct,
                rounds,
            );
            &&& s.wf()
            &&& s matches RetardedTimeSolver::Newton { round, .. } ==> round == rounds.len()
            &&& rounds.len() >= NEWTON_ROUNDS ==> !(s is Newton)
        }),
    decreases rounds.len(),
{
    if rounds.len() > 0 {
        lemma_newton_ends(observer_ct, distance, seed, rounds.drop_last());
    }
}

/// Bisection cannot go on for ever: each step that widens or halves the
/// bracket uses up one of the steps that are left, whatever the residual is,
/// and a solver without steps left has found its time.
pub proof fn lemma_bisection_ends(s: RetardedTimeSolver, mid: Scalar, residual: Scalar)
    requires
        s.wf(),
    ensures
        s is Expand ==> s.after_expand(residual).steps_left() < s.steps_left(),
        s is Halve ==> s.after_halve(mid, residual).steps_left() < s.steps_left(),
        s.steps_left() == 0 <==> s is Done,
        s.steps_left() <= MOST_STEPS,
{
}

} // verus!
