//! Sets of charges, and the order in which charges that move under each
//! other's fields are advanced.
//!
//! Charges that act on each other are advanced one small step at a time,
//! always the charge that stands at the earliest time. The field at that
//! charge's position depends on the other charges only at times that are
//! earlier still, and so only on what their world lines already record.

use vstd::prelude::*;
use crate::mechanics::PhaseSpace;
use crate::scalar::{lemma_total_order_extends_less, Scalar};
use crate::vector::{Vector3, Vector4};
use crate::world_line::{ahead, increasing, DiscreteWorldLine, Retarded};

verus! {

/// The arrangements of charges that can be chosen by name.
#[derive(Copy, Clone, Debug)]
pub enum ChargePreset {
    Static,
    Eom,
    LineOscillate,
    EomWithStatic,
    Circle,
}

impl ChargePreset {
    /// The arrangement that a name stands for.
    pub open spec fn named(s: Seq<char>) -> Option<ChargePreset> {
        if s == "static"@ {
            Some(ChargePreset::Static)
        } else if s == "eom"@ {
            Some(ChargePreset::Eom)
        } else if s == "line_o"@ {
            Some(ChargePreset::LineOscillate)
        } else if s == "eom_with_static"@ {
            Some(ChargePreset::EomWithStatic)
        } else if s == "circle"@ {
            Some(ChargePreset::Circle)
        } else {
            None
        }
    }

    /// Reads the name of an arrangement; any other text is an error.
    pub fn from_name(s: &str) -> (r: Result<ChargePreset, ()>)
        ensures
            r == (match ChargePreset::named(s@) {
                Some(preset) => Ok::<ChargePreset, ()>(preset),
                None => Err::<ChargePreset, ()>(()),
            }),
    {
        let name = s.to_owned();
        if name == "static".to_owned() {
            Ok(ChargePreset::Static)
        } else if name == "eom".to_owned() {
            Ok(ChargePreset::Eom)
        } else if name == "line_o".to_owned() {
            Ok(ChargePreset::LineOscillate)
        } else if name == "eom_with_static".to_owned() {
            Ok(ChargePreset::EomWithStatic)
        } else if name == "circle".to_owned() {
            Ok(ChargePreset::Circle)
        } else {
            Err(())
        }
    }
}

impl std::str::FromStr for ChargePreset {
    type Err = ();

    fn from_str(s: &str) -> (r: Result<ChargePreset, ()>)
        ensures
            r == (match ChargePreset::named(s@) {
                Some(preset) => Ok::<ChargePreset, ()>(preset),
                None => Err::<ChargePreset, ()>(()),
            }),
    {
        ChargePreset::from_name(s)
    }
}

/// What a change of the speed of light asks of a set of charges.
#[derive(Copy, Clone, Debug)]
pub enum SpeedChange {
    /// The speed of light rises: what is recorded stays valid, and the
    /// velocities are rescaled in place.
    Rescale,
    /// The speed of light stays: nothing is to be done.
    Keep,
    /// The speed of light falls: what is recorded cannot stand, and the set
    /// is built anew.
    Restart,
}

impl SpeedChange {
    /// What the change from `current_c` to `new_c` asks for. The two are
    /// compared in the IEEE 754 total order.
    pub fn of(current_c: Scalar, new_c: Scalar) -> (r: SpeedChange)
        ensures
            current_c.total_rank() < new_c.total_rank() ==> r is Rescale,
            current_c.total_rank() == new_c.total_rank() ==> r is Keep,
            current_c.total_rank() > new_c.total_rank() ==> r is Restart,
    {
        let current: i64 = current_c.total_order_key();
        let new: i64 = new_c.total_order_key();
        if current < new {
            SpeedChange::Rescale
        } else if current == new {
            SpeedChange::Keep
        } else {
            SpeedChange::Restart
        }
    }
}

/// The points at which a charge has rested at the place of `x` at each of
/// `times`.
pub open spec fn rest_trail(x: Vector4, times: Seq<Scalar>) -> Seq<Vector4> {
    Seq::new(times.len(), |i: int| Vector4 { x: x.x, y: x.y, z: x.z, ct: times[i] })
}

/// A charge that moves as the fields of the other charges push it. Its
/// world line is the record of where it has been; its phase space is where
/// it is now, which is the last point of the record.
#[derive(Debug)]
pub struct EomCharge {
    m: Scalar,
    q: Scalar,
    phase_space: PhaseSpace,
    world_line: DiscreteWorldLine,
}

impl EomCharge {
    pub closed spec fn mass(self) -> Scalar {
        self.m
    }

    pub closed spec fn charge(self) -> Scalar {
        self.q
    }

    /// The present state.
    pub closed spec fn state(self) -> PhaseSpace {
        self.phase_space
    }

    /// The points recorded so far.
    pub closed spec fn history(self) -> Seq<Vector4> {
        self.world_line@
    }

    /// The time at which the charge stands.
    pub open spec fn ct(self) -> Scalar {
        self.state().position.ct
    }

    /// The record is in strictly increasing order of time and ends where
    /// the charge is now.
    pub open spec fn wf(self) -> bool {
        &&& increasing(self.history())
        &&& self.history().len() > 0
        &&& self.history().last() == self.state().position
    }

    /// A charge of mass `m` and charge `q` that is released at `x` with
    /// velocity `u`, having rested at the place of `x` at each of the times
    /// `lead_in` before. The times must lead up to `x` in strictly
    /// increasing order, none of them NaN; otherwise there is no such
    /// charge.
    pub fn new(m: Scalar, q: Scalar, x: Vector4, u: Vector3, lead_in: &[Scalar]) -> (r: Option<
        EomCharge,
    >)
        ensures
            r is Some <==> increasing(rest_trail(x, lead_in@).push(x)),
            r matches Some(c) ==> {
                &&& c.wf()
                &&& c.mass() == m
                &&& c.charge() == q
                &&& c.state() == (PhaseSpace { velocity: u, position: x })
                &&& c.history() == rest_trail(x, lead_in@).push(x)
            },
    {
        let ghost record = rest_trail(x, lead_in@).push(x);
        let mut world_line = DiscreteWorldLine::new();
        let mut k: usize = 0;
        while k < lead_in.len()
            invariant
                k <= lead_in.len(),
                world_line.wf(),
                world_line@ == record.take(k as int),
                record == rest_trail(x, lead_in@).push(x),
            decreases lead_in.len() - k,
        {
            let p = Vector4::from_ctv(lead_in[k], x.spatial());
            assert(p == record[k as int]);
            if !world_line.push(p) {
                proof {
                    if k > 0 {
                        assert(record.take(k as int).last() == record[k - 1]);
                    }
                }
                return None;
            }
            assert(world_line@ == record.take(k + 1));
            k += 1;
        }
        assert(x == record[k as int]);
        if !world_line.push(x) {
            proof {
                if k > 0 {
                    assert(record.take(k as int).last() == record[k - 1]);
                }
            }
            return None;
        }
        assert(world_line@ == record);
        Some(EomCharge { m, q, phase_space: PhaseSpace { velocity: u, position: x }, world_line })
    }

    pub fn m(&self) -> (m: Scalar)
        ensures
            m == self.mass(),
    {
        self.m
    }

    pub fn q(&self) -> (q: Scalar)
        ensures
            q == self.charge(),
    {
        self.q
    }

    pub fn phase_space(&self) -> (p: PhaseSpace)
        ensures
            p == self.state(),
    {
        self.phase_space
    }

    pub fn world_line(&self) -> (w: &DiscreteWorldLine)
        ensures
            w@ == self.history(),
            self.wf() ==> w.wf(),
    {
        &self.world_line
    }

    /// Moves the charge to `next` and records the new position, if it lies
    /// later in time than the present one. Says whether the charge moved.
    pub fn tick(&mut self, next: PhaseSpace) -> (moved: bool)
        requires
            old(self).wf(),
        ensures
            final(self).wf(),
            final(self).mass() == old(self).mass(),
            final(self).charge() == old(self).charge(),
            moved == (!next.position.ct.nan() && old(self).ct().less(next.position.ct)),
            moved ==> final(self).state() == next,
            moved ==> final(self).history() == old(self).history().push(next.position),
            !moved ==> *final(self) == *old(self),
    {
        if self.world_line.push(next.position) {
            self.phase_space = next;
            true
        } else {
            false
        }
    }
}

/// Charge `i` stands at the earliest time of all, and is the first to do
/// so. Times are compared in the IEEE 754 total order.
pub open spec fn most_past(charges: Seq<EomCharge>, i: int) -> bool {
    &&& 0 <= i < charges.len()
    &&& forall|j: int|
        0 <= j < charges.len()
            ==> charges[i].ct().total_rank() <= (#[trigger] charges[j]).ct().total_rank()
    &&& forall|j: int|
        0 <= j < i ==> charges[i].ct().total_rank() < (#[trigger] charges[j]).ct().total_rank()
}

/// The charge that stands at the earliest time; of several that do, the
/// first.
pub fn most_past_charge_index(charges: &[EomCharge]) -> (i: usize)
    requires
        charges@.len() > 0,
    ensures
        most_past(charges@, i as int),
{
    let mut best: usize = 0;
    let mut best_key: i64 = charges[0].phase_space.position.ct.total_order_key();
    let mut k: usize = 1;
    while k < charges.len()
        invariant
            1 <= k <= charges@.len(),
            most_past(charges@.take(k as int), best as int),
            best_key == charges@[best as int].ct().total_rank(),
        decreases charges.len() - k,
    {
        let key: i64 = charges[k].phase_space.position.ct.total_order_key();
        let ghost before = charges@.take(k as int);
        let ghost now = charges@.take(k + 1);
        assert(forall|j: int| 0 <= j < k ==> now[j] == before[j]);
        if key < best_key {
            best = k;
            best_key = key;
        }
        k += 1;
    }
    assert(charges@.take(k as int) == charges@);
    best
}

/// What an observer receives from a set of charges: of every charge whose
/// world line crosses the observer's past light cone, the charge and what
/// its world line shows there, in the order of the charges. `hits` holds for
/// each charge what its world line shows, if anything; a charge without a
/// crossing is left out, and so is the charge at `skip`.
pub open spec fn sources(
    charges: Seq<Scalar>,
    hits: Seq<Option<Retarded>>,
    skip: Option<int>,
) -> Seq<(Scalar, Retarded)>
    decreases hits.len(),
{
    if hits.len() == 0 {
        Seq::empty()
    } else {
        let n = hits.len() - 1;
        let rest = sources(charges, hits.drop_last(), skip);
        match hits[n] {
            Some(hit) => if skip == Some(n) {
                rest
            } else {
                rest.push((charges[n], hit))
            },
            None => rest,
        }
    }
}

/// Pairs each charge with what its world line shows on an observer's past
/// light cone. `hits` holds that for each of `charges`, if there is
/// anything to show; a charge without is left out, without complaint, and
/// so is the charge at `skip`, if one is named.
pub fn collect_sources(charges: &[Scalar], hits: &[Option<Retarded>], skip: Option<usize>) -> (r:
    Vec<(Scalar, Retarded)>)
    requires
        hits@.len() == charges@.len(),
    ensures
        r@ == sources(
            charges@,
            hits@,
            match skip {
                Some(i) => Some(i as int),
                None => None,
            },
        ),
{
    let ghost skipped: Option<int> = match skip {
        Some(i) => Some(i as int),
        None => None,
    };
    let mut out: Vec<(Scalar, Retarded)> = Vec::new();
    let mut k: usize = 0;
    while k < hits.len()
        invariant
            k <= hits@.len(),
            hits@.len() == charges@.len(),
            skipped == (match skip {
                Some(i) => Some(i as int),
                None => None,
            }),
            out@ == sources(charges@, hits@.take(k as int), skipped),
        decreases hits.len() - k,
    {
        assert(hits@.take(k + 1).drop_last() == hits@.take(k as int));
        let left_out = match skip {
            Some(i) => i == k,
            None => false,
        };
        match hits[k] {
            Some(hit) => {
                if !left_out {
                    out.push((charges[k], hit));
                }
            },
            None => {},
        }
        k += 1;
    }
    assert(hits@.take(k as int) == hits@);
    out
}

/// Charges that move under each other's fields.
#[derive(Debug)]
pub struct EomChargeSet {
    charges: Vec<EomCharge>,
}

impl View for EomChargeSet {
    type V = Seq<EomCharge>;

    closed spec fn view(&self) -> Seq<EomCharge> {
        self.charges@
    }
}

impl EomChargeSet {
    /// Every charge's record is in strictly increasing order of time and
    /// ends where the charge is now.
    pub open spec fn wf(self) -> bool {
        forall|i: int| 0 <= i < self@.len() ==> (#[trigger] self@[i]).wf()
    }

    /// The charge of each charge.
    pub open spec fn charge_values(self) -> Seq<Scalar> {
        Seq::new(self@.len(), |i: int| self@[i].charge())
    }

    /// Charge `i` is still causally behind `until`: it stands at an earlier
    /// time and `interval`, the Lorentz squared norm of its position less
    /// `until`, is negative.
    pub open spec fn lags(self, i: int, until: Vector4, interval: Scalar) -> bool {
        !ahead(self@[i].state().position, until, interval)
    }

    pub fn new(charges: Vec<EomCharge>) -> (s: EomChargeSet)
        requires
            forall|i: int| 0 <= i < charges@.len() ==> (#[trigger] charges@[i]).wf(),
        ensures
            s@ == charges@,
            s.wf(),
    {
        EomChargeSet { charges }
    }

    pub fn len(&self) -> (n: usize)
        ensures
            n == self@.len(),
    {
        self.charges.len()
    }

    /// The charge at `i`, if there is one.
    pub fn get(&self, i: usize) -> (r: Option<&EomCharge>)
        ensures
            r matches Some(c) ==> i < self@.len() && *c == self@[i as int],
            r is None <==> i >= self@.len(),
    {
        if i < self.charges.len() {
            Some(&self.charges[i])
        } else {
            None
        }
    }

    /// The charge of each charge, in the order of the set.
    pub fn charges(&self) -> (r: Vec<Scalar>)
        ensures
            r@ == self.charge_values(),
    {
        let mut out: Vec<Scalar> = Vec::new();
        let mut k: usize = 0;
        while k < self.charges.len()
            invariant
                k <= self@.len(),
                out@.len() == k,
                forall|i: int| 0 <= i < k ==> out@[i] == self@[i].charge(),
            decreases self.charges.len() - k,
        {
            out.push(self.charges[k].q);
            k += 1;
        }
        assert(out@ =~= self.charge_values());
        out
    }

    /// What an observer receives from the set. `hits` holds for each charge
    /// what its world line shows on the observer's past light cone, if
    /// anything. A charge whose world line does not reach the light cone is
    /// left out.
    pub fn iter(&self, hits: &[Option<Retarded>]) -> (r: Vec<(Scalar, Retarded)>)
        requires
            hits@.len() == self@.len(),
        ensures
            r@ == sources(self.charge_values(), hits@, None),
    {
        let charges = self.charges();
        collect_sources(charges.as_slice(), hits, None)
    }

    /// What acts on charge `i`: every other charge whose world line crosses
    /// the past light cone of charge `i`. A charge does not act on itself.
    pub fn field_sources(&self, i: usize, hits: &[Option<Retarded>]) -> (r: Vec<
        (Scalar, Retarded),
    >)
        requires
            hits@.len() == self@.len(),
        ensures
            r@ == sources(self.charge_values(), hits@, Some(i as int)),
    {
        let charges = self.charges();
        collect_sources(charges.as_slice(), hits, Some(i))
    }

    /// Which charge is to be advanced next so that the set catches up with
    /// `until`, if any. `intervals` holds for each charge the Lorentz
    /// squared norm of its position less `until`. While some charge is still
    /// causally behind `until`, the charge that stands at the earliest time
    /// is next, whether or not it is itself one of those behind. Once no
    /// charge is behind, none is next.
    pub fn next_to_advance(&self, until: Vector4, intervals: &[Scalar]) -> (r: Option<usize>)
        requires
            intervals@.len() == self@.len(),
        ensures
            r is None <==> forall|i: int|
                0 <= i < self@.len() ==> !#[trigger] self.lags(i, until, intervals@[i]),
            r matches Some(i) ==> most_past(self@, i as int),
    {
        let zero = Scalar::zero();
        let mut k: usize = 0;
        while k < self.charges.len()
            invariant
                k <= self@.len(),
                intervals@.len() == self@.len(),
                zero.bits == 0,
                forall|i: int| 0 <= i < k ==> !#[trigger] self.lags(i, until, intervals@[i]),
            decreases self.charges.len() - k,
        {
            let ct = self.charges[k].phase_space.position.ct;
            if !(ct.ge(until.ct) || intervals[k].ge(zero)) {
                assert(self.lags(k as int, until, intervals@[k as int]));
                return Some(most_past_charge_index(self.charges.as_slice()));
            }
            k += 1;
        }
        None
    }

    /// Moves charge `i` to `next`, the state that one step of the
    /// integrator leads to, and records the new position on the charge's
    /// world line. A state that is not later in time than the present one
    /// is refused and nothing changes. Says whether the charge moved.
    pub fn advance(&mut self, i: usize, next: PhaseSpace) -> (moved: bool)
        requires
            old(self).wf(),
            i < old(self)@.len(),
        ensures
            final(self).wf(),
            final(self)@.len() == old(self)@.len(),
            forall|j: int|
                0 <= j < old(self)@.len() && j != i ==> final(self)@[j] == old(self)@[j],
            final(self)@[i as int].mass() == old(self)@[i as int].mass(),
            final(self)@[i as int].charge() == old(self)@[i as int].charge(),
            moved == (!next.position.ct.nan() && old(self)@[i as int].ct().less(next.position.ct)),
            moved ==> final(self)@[i as int].state() == next && final(self)@[i as int].history()
                == old(self)@[i as int].history().push(next.position),
            !moved ==> final(self)@ == old(self)@,
    {
        let moved = self.charges[i].tick(next);
        proof {
            if !moved {
                assert(final(self)@ =~= old(self)@);
            }
        }
        moved
    }

    /// Gives every charge the velocity that it has under a new speed of
    /// light: `velocities` holds the rescaled velocity of each charge.
    /// Positions and world lines stay as they are.
    pub fn change_c(&mut self, velocities: &[Vector3])
        requires
            old(self).wf(),
            velocities@.len() == old(self)@.len(),
        ensures
            final(self).wf(),
            final(self)@.len() == old(self)@.len(),
            forall|i: int|
                0 <= i < old(self)@.len() ==> {
                    &&& (#[trigger] final(self)@[i]).state().velocity == velocities@[i]
                    &&& final(self)@[i].state().position == old(self)@[i].state().position
                    &&& final(self)@[i].history() == old(self)@[i].history()
                    &&& final(self)@[i].mass() == old(self)@[i].mass()
                    &&& final(self)@[i].charge() == old(self)@[i].charge()
                },
    {
        let mut k: usize = 0;
        while k < self.charges.len()
            invariant
                k <= self@.len(),
                self@.len() == old(self)@.len(),
                velocities@.len() == self@.len(),
                self.wf(),
                forall|i: int|
                    0 <= i < k ==> {
                        &&& (#[trigger] self@[i]).state().velocity == velocities@[i]
                        &&& self@[i].state().position == old(self)@[i].state().position
                        &&& self@[i].history() == old(self)@[i].history()
                        &&& self@[i].mass() == old(self)@[i].mass()
                        &&& self@[i].charge() == old(self)@[i].charge()
                    },
                forall|i: int| k <= i < self@.len() ==> self@[i] == old(self)@[i],
            decreases self.charges.len() - k,
        {
            self.charges[k].phase_space.velocity = velocities[k];
            k += 1;
        }
    }
}

/// The charge that advances stands at a time that is not later than that of
/// any charge still causally behind `until`; and where it is itself behind,
/// it stands earliest among those behind. No charge at all stands at a time
/// that is less than the time of the charge that advances.
pub proof fn lemma_advances_earliest(
    set: EomChargeSet,
    until: Vector4,
    intervals: Seq<Scalar>,
    i: int,
)
    requires
        intervals.len() == set@.len(),
        most_past(set@, i),
    ensures
        forall|j: int|
            0 <= j < set@.len() && set.lags(j, until, intervals[j]) ==> set@[i].ct().total_rank()
                <= (#[trigger] set@[j]).ct().total_rank(),
        forall|j: int| 0 <= j < set@.len() ==> !(#[trigger] set@[j]).ct().less(set@[i].ct()),
{
    assert forall|j: int| 0 <= j < set@.len() implies !(#[trigger] set@[j]).ct().less(
        set@[i].ct(),
    ) by {
        if set@[j].ct().less(set@[i].ct()) {
            lemma_total_order_extends_less(set@[j].ct(), set@[i].ct());
        }
    }
}

/// On every record of a set the times increase strictly from each point to
/// the next, as IEEE 754 compares them.
pub proof fn lemma_histories_increase(set: EomChargeSet, i: int, a: int, b: int)
    requires
        set.wf(),
        0 <= i < set@.len(),
        0 <= a < b < set@[i].history().len(),
    ensures
        set@[i].history()[a].ct.less(set@[i].history()[b].ct),
{
    let h = set@[i].history();
    assert(set@[i].wf());
    assert(!h[a].ct.nan());
    assert(!h[b].ct.nan());
}

} // verus!
