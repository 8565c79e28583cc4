//! World lines and the search for where one crosses a past light cone.

use vstd::prelude::*;
use crate::scalar::Scalar;
use crate::vector::{Vector3, Vector4};

verus! {

/// What a world line shows where it crosses an observer's past light cone:
/// the source point, and the velocity and the acceleration of the source
/// there.
pub type Retarded = (Vector4, Vector3, Vector3);

/// A charge fixed in space forever.
#[derive(Debug, Clone, Copy)]
pub struct StaticWorldLine {
    /// in the world frame
    pub pos: Vector3,
}

impl StaticWorldLine {
    pub fn new(pos: Vector3) -> (w: StaticWorldLine)
        ensures
            w.pos == pos,
    {
        StaticWorldLine { pos }
    }

    /// The charge as an observer sees it. `retarded_ct` is the observer's
    /// time less the distance between observer and charge. The charge has
    /// been there at all times, so there is always an answer: the charge at
    /// its place at that time, at rest and not accelerated.
    pub fn past_intersection(&self, retarded_ct: Scalar) -> (r: Option<Retarded>)
        ensures
            r == Some(
                (
                    Vector4 { x: self.pos.x, y: self.pos.y, z: self.pos.z, ct: retarded_ct },
                    Vector3::origin(),
                    Vector3::origin(),
                ),
            ),
    {
        Some((Vector4::from_ctv(retarded_ct, self.pos), Vector3::zero(), Vector3::zero()))
    }
}

/// A world line of which everything earlier than `appeared` is hidden: the
/// charge does not exist before that time.
#[derive(Debug, Clone)]
pub struct CutOffWorldLine<W> {
    world_line: W,
    appeared: Scalar,
}

impl<W> CutOffWorldLine<W> {
    /// The world line that is cut off.
    pub closed spec fn inner(self) -> W {
        self.world_line
    }

    /// The time from which on the charge exists.
    pub closed spec fn since(self) -> Scalar {
        self.appeared
    }

    pub fn new(world_line: W, appeared: Scalar) -> (w: CutOffWorldLine<W>)
        ensures
            w.inner() == world_line,
            w.since() == appeared,
    {
        CutOffWorldLine { world_line, appeared }
    }

    pub fn world_line(&self) -> (w: &W)
        ensures
            *w == self.inner(),
    {
        &self.world_line
    }

    pub fn appeared(&self) -> (t: Scalar)
        ensures
            t == self.since(),
    {
        self.appeared
    }

    /// What an observer sees of the charge, given what the observer would
    /// see of the world line that is cut off: the same, unless that lies
    /// before the charge appeared.
    pub fn past_intersection(&self, inner: Option<Retarded>) -> (r: Option<Retarded>)
        ensures
            r == (match inner {
                Some(hit) => if hit.0.ct.less(self.since()) {
                    None
                } else {
                    inner
                },
                None => None,
            }),
    {
        match inner {
            Some(hit) => {
                if hit.0.ct.lt(self.appeared) {
                    None
                } else {
                    Some(hit)
                }
            },
            None => None,
        }
    }
}

/// A charge that swings along a line: at time `ct` it stands at
/// `center + amplitude * sin(omega * ct / c)`.
#[derive(Debug, Clone, Copy)]
pub struct LineOscillateWorldLine {
    center: Vector3,
    amplitude: Vector3,
    omega: Scalar,
}

impl LineOscillateWorldLine {
    pub closed spec fn middle(self) -> Vector3 {
        self.center
    }

    pub closed spec fn swing(self) -> Vector3 {
        self.amplitude
    }

    pub closed spec fn angular_frequency(self) -> Scalar {
        self.omega
    }

    /// A swinging charge whose greatest speed, `peak_speed`, is the length
    /// of `amplitude` multiplied by the absolute value of `omega`. A charge
    /// that would outrun light, `peak_speed > c`, is refused.
    pub fn new(
        center: Vector3,
        amplitude: Vector3,
        omega: Scalar,
        peak_speed: Scalar,
        c: Scalar,
    ) -> (r: Result<LineOscillateWorldLine, ()>)
        ensures
            r is Err <==> c.less(peak_speed),
            r matches Ok(w) ==> w.middle() == center && w.swing() == amplitude
                && w.angular_frequency() == omega,
    {
        if peak_speed.gt(c) {
            Err(())
        } else {
            Ok(LineOscillateWorldLine { center, amplitude, omega })
        }
    }

    pub fn center(&self) -> (v: Vector3)
        ensures
            v == self.middle(),
    {
        self.center
    }

    pub fn amplitude(&self) -> (v: Vector3)
        ensures
            v == self.swing(),
    {
        self.amplitude
    }

    pub fn omega(&self) -> (w: Scalar)
        ensures
            w == self.angular_frequency(),
    {
        self.omega
    }
}

/// Times that increase strictly from each sample to the next, none of them
/// NaN.
pub open spec fn increasing(s: Seq<Vector4>) -> bool {
    &&& forall|i: int| 0 <= i < s.len() ==> !(#[trigger] s[i]).ct.nan()
    &&& forall|i: int, j: int|
        0 <= i < j < s.len() ==> (#[trigger] s[i]).ct.rank() < (#[trigger] s[j]).ct.rank()
}

/// A trajectory known only at the points that were appended to it, in the
/// order of their times.
#[derive(Debug, Clone)]
pub struct DiscreteWorldLine {
    x: Vec<Vector4>,
}

impl View for DiscreteWorldLine {
    type V = Seq<Vector4>;

    closed spec fn view(&self) -> Seq<Vector4> {
        self.x@
    }
}

impl DiscreteWorldLine {
    /// The samples are in strictly increasing order of time.
    pub open spec fn wf(self) -> bool {
        increasing(self@)
    }

    pub fn new() -> (w: DiscreteWorldLine)
        ensures
            w@ == Seq::<Vector4>::empty(),
            w.wf(),
    {
        DiscreteWorldLine { x: Vec::new() }
    }

    /// Appends `x` if it lies later in time than every sample so far, and
    /// says whether it did. A point that is not later, or whose time is NaN,
    /// leaves the world line as it was.
    pub fn push(&mut self, x: Vector4) -> (pushed: bool)
        requires
            old(self).wf(),
        ensures
            final(self).wf(),
            pushed == (!x.ct.nan() && (old(self)@.len() == 0 || old(self)@.last().ct.less(x.ct))),
            pushed ==> final(self)@ == old(self)@.push(x),
            !pushed ==> *final(self) == *old(self),
    {
        if x.ct.is_nan() {
            return false;
        }
        let n: usize = self.x.len();
        if n > 0 && !self.x[n - 1].ct.lt(x.ct) {
            return false;
        }
        self.x.push(x);
        true
    }

    /// The latest sample.
    pub fn last(&self) -> (r: Option<Vector4>)
        ensures
            r == (if self@.len() == 0 {
                None
            } else {
                Some(self@.last())
            }),
    {
        let n: usize = self.x.len();
        if n == 0 {
            None
        } else {
            Some(self.x[n - 1])
        }
    }

    pub fn len(&self) -> (n: usize)
        ensures
            n == self@.len(),
    {
        self.x.len()
    }

    /// The sample at `i`, if there is one.
    pub fn get(&self, i: usize) -> (r: Option<Vector4>)
        ensures
            r == (if i < self@.len() {
                Some(self@[i as int])
            } else {
                None
            }),
    {
        if i < self.x.len() {
            Some(self.x[i])
        } else {
            None
        }
    }
}

/// The sample lies at or beyond the observer's past light cone: it is not
/// earlier than the observer, or its interval to the observer is not
/// negative. `interval` is the Lorentz squared norm of `sample - observer`.
pub open spec fn ahead(sample: Vector4, observer: Vector4, interval: Scalar) -> bool {
    observer.ct.less_eq(sample.ct) || (Scalar { bits: 0 }).less_eq(interval)
}

/// The sample lies strictly inside the observer's past light cone: it is
/// earlier than the observer and its interval to the observer is negative.
pub open spec fn behind(sample: Vector4, observer: Vector4, interval: Scalar) -> bool {
    sample.ct.less(observer.ct) && interval.less(Scalar { bits: 0 })
}

/// The number of times that `width` can be halved, rounding down, before
/// nothing is left: the number of binary digits of `width`.
pub open spec fn halvings(width: nat) -> nat
    decreases width,
{
    if width == 0 {
        0
    } else {
        1 + halvings(width / 2)
    }
}

/// A narrower bracket takes no more halvings.
proof fn lemma_halvings_grow(a: nat, b: nat)
    requires
        a <= b,
    ensures
        halvings(a) <= halvings(b),
    decreases b,
{
    if a > 0 {
        lemma_halvings_grow(a / 2, b / 2);
    }
}

/// Where a search for the first sample ahead of a light cone stands.
#[derive(Clone, Copy, Debug)]
enum Stage {
    /// The second sample, the earliest that can close a bracket from below,
    /// is to be looked at.
    Earliest,
    /// The latest sample is to be looked at.
    Latest,
    /// The middle of the bracket is to be looked at.
    Bisect,
    /// The first sample ahead is known.
    Found,
    /// The world line does not cross the light cone between its samples.
    Missed,
}

/// A search over the samples of a [`DiscreteWorldLine`] for the first one
/// that lies ahead of an observer's past light cone. The search asks for the
/// interval of one sample at a time and narrows a bracket by halves.
#[derive(Clone, Copy, Debug)]
pub struct FutureSearch {
    stage: Stage,
    len: usize,
    lo: usize,
    hi: usize,
}

impl FutureSearch {
    /// The search as it begins on a world line of `len` samples.
    pub closed spec fn begin(len: usize) -> FutureSearch {
        if len <= 2 {
            FutureSearch { stage: Stage::Missed, len, lo: 0, hi: 0 }
        } else {
            FutureSearch { stage: Stage::Earliest, len, lo: 2, hi: (len - 1) as usize }
        }
    }

    /// The number of samples of the world line that is searched.
    pub closed spec fn samples(self) -> nat {
        self.len as nat
    }

    /// The bracket lies within the samples.
    pub closed spec fn wf(self) -> bool {
        match self.stage {
            Stage::Earliest | Stage::Latest => self.len >= 3 && self.lo == 2 && self.hi == self.len
                - 1,
            Stage::Bisect => 2 <= self.lo < self.hi < self.len,
            Stage::Found => 2 <= self.hi < self.len && self.lo == self.hi,
            Stage::Missed => true,
        }
    }

    /// The index of the sample whose interval the search needs next; `None`
    /// once the search has ended.
    pub closed spec fn asks(self) -> Option<int> {
        match self.stage {
            Stage::Earliest => Some(1),
            Stage::Latest => Some(self.hi as int),
            Stage::Bisect => Some(self.lo + (self.hi - self.lo) / 2),
            Stage::Found | Stage::Missed => None,
        }
    }

    /// The index that the search has found, if it has.
    pub closed spec fn outcome(self) -> Option<int> {
        match self.stage {
            Stage::Found => Some(self.hi as int),
            _ => None,
        }
    }

    /// A bound on the number of steps that the search still takes: one for
    /// each of the two ends that are still to be looked at, and one for each
    /// halving of the bracket.
    pub closed spec fn steps_left(self) -> nat {
        match self.stage {
            Stage::Earliest => halvings((self.hi - self.lo) as nat) + 2,
            Stage::Latest => halvings((self.hi - self.lo) as nat) + 1,
            Stage::Bisect => halvings((self.hi - self.lo) as nat),
            Stage::Found | Stage::Missed => 0,
        }
    }

    /// The search on the bracket from `lo` to `hi`: ended where the two meet.
    pub closed spec fn narrowed(self, lo: usize, hi: usize) -> FutureSearch {
        if lo == hi {
            FutureSearch { stage: Stage::Found, len: self.len, lo, hi }
        } else {
            FutureSearch { stage: Stage::Bisect, len: self.len, lo, hi }
        }
    }

    /// The search after it has been told the interval of the sample that it
    /// asked for.
    pub closed spec fn after(
        self,
        sample: Vector4,
        observer: Vector4,
        interval: Scalar,
    ) -> FutureSearch {
        match self.stage {
            Stage::Earliest => if ahead(sample, observer, interval) {
                FutureSearch { stage: Stage::Missed, ..self }
            } else {
                FutureSearch { stage: Stage::Latest, ..self }
            },
            Stage::Latest => if behind(sample, observer, interval) {
                FutureSearch { stage: Stage::Missed, ..self }
            } else {
                self.narrowed(self.lo, self.hi)
            },
            Stage::Bisect => {
                let mid = (self.lo + (self.hi - self.lo) / 2) as usize;
                if ahead(sample, observer, interval) {
                    self.narrowed(self.lo, mid)
                } else {
                    self.narrowed((mid + 1) as usize, self.hi)
                }
            },
            Stage::Found | Stage::Missed => self,
        }
    }

    /// The index of the sample whose interval to the observer the search
    /// needs next, or `None` once the search has ended.
    pub fn probe(&self) -> (r: Option<usize>)
        requires
            self.wf(),
        ensures
            r matches Some(i) ==> self.asks() == Some(i as int) && i < self.samples(),
            r is None <==> self.asks() is None,
    {
        match self.stage {
            Stage::Earliest => Some(1),
            Stage::Latest => Some(self.hi),
            Stage::Bisect => Some(self.lo + (self.hi - self.lo) / 2),
            Stage::Found => None,
            Stage::Missed => None,
        }
    }

    /// The index of the first sample ahead of the light cone, once the
    /// search has found it. From that index two samples lead back into the
    /// past.
    pub fn found(&self) -> (r: Option<usize>)
        requires
            self.wf(),
        ensures
            r matches Some(i) ==> self.outcome() == Some(i as int) && 2 <= i < self.samples(),
            r is None <==> self.outcome() is None,
    {
        match self.stage {
            Stage::Found => Some(self.hi),
            _ => None,
        }
    }
}

impl DiscreteWorldLine {
    /// Begins the search for the first sample that lies ahead of an
    /// observer's past light cone. A world line of fewer than three samples
    /// has none: the search has then ended at once, without a result.
    pub fn find_future_nearest(&self) -> (s: FutureSearch)
        ensures
            s == FutureSearch::begin(self@.len() as usize),
            s.wf(),
            s.samples() == self@.len(),
    {
        let n: usize = self.x.len();
        if n <= 2 {
            FutureSearch { stage: Stage::Missed, len: n, lo: 0, hi: 0 }
        } else {
            FutureSearch { stage: Stage::Earliest, len: n, lo: 2, hi: n - 1 }
        }
    }

    /// Takes the search one step on: `interval` is the Lorentz squared norm
    /// of the sample that the search asked for, less `observer`. A search
    /// that has ended stays as it is.
    pub fn search_step(&self, s: FutureSearch, observer: Vector4, interval: Scalar) -> (r:
        FutureSearch)
        requires
            s.wf(),
            s.samples() == self@.len(),
        ensures
            r.wf(),
            r.samples() == s.samples(),
            match s.asks() {
                Some(i) => r == s.after(self@[i], observer, interval) && r.steps_left()
                    < s.steps_left(),
                None => r == s,
            },
    {
        let zero = Scalar::zero();
        match s.stage {
            Stage::Earliest => {
                let sample = self.x[1];
                if sample.ct.ge(observer.ct) || interval.ge(zero) {
                    FutureSearch { stage: Stage::Missed, len: s.len, lo: s.lo, hi: s.hi }
                } else {
                    FutureSearch { stage: Stage::Latest, len: s.len, lo: s.lo, hi: s.hi }
                }
            },
            Stage::Latest => {
                let sample = self.x[s.hi];
                if sample.ct.lt(observer.ct) && interval.lt(zero) {
                    FutureSearch { stage: Stage::Missed, len: s.len, lo: s.lo, hi: s.hi }
                } else if s.lo == s.hi {
                    FutureSearch { stage: Stage::Found, len: s.len, lo: s.lo, hi: s.hi }
                } else {
                    FutureSearch { stage: Stage::Bisect, len: s.len, lo: s.lo, hi: s.hi }
                }
            },
            Stage::Bisect => {
                let mid: usize = s.lo + (s.hi - s.lo) / 2;
                let sample = self.x[mid];
                let (lo, hi) = if sample.ct.ge(observer.ct) || interval.ge(zero) {
                    (s.lo, mid)
                } else {
                    (mid + 1, s.hi)
                };
                proof {
                    lemma_step_shortens(s, self@[mid as int], observer, interval);
                }
                if lo == hi {
                    FutureSearch { stage: Stage::Found, len: s.len, lo, hi }
                } else {
                    FutureSearch { stage: Stage::Bisect, len: s.len, lo, hi }
                }
            },
            Stage::Found => s,
            Stage::Missed => s,
        }
    }

    /// The sample at `i` and the two before it: what the trajectory is
    /// interpolated from once the search has found `i`.
    pub fn bracket(&self, i: usize) -> (r: Option<(Vector4, Vector4, Vector4)>)
        ensures
            r == (if 2 <= i < self@.len() {
                Some((self@[i - 2], self@[i - 1], self@[i as int]))
            } else {
                None
            }),
    {
        if 2 <= i && i < self.x.len() {
            Some((self.x[i - 2], self.x[i - 1], self.x[i]))
        } else {
            None
        }
    }
}

/// Every step brings a search nearer to its end, whatever it is told, and
/// leaves it within the samples.
pub proof fn lemma_step_shortens(
    s: FutureSearch,
    sample: Vector4,
    observer: Vector4,
    interval: Scalar,
)
    requires
        s.wf(),
        s.asks() is Some,
    ensures
        s.after(sample, observer, interval).wf(),
        s.after(sample, observer, interval).samples() == s.samples(),
        s.after(sample, observer, interval).steps_left() < s.steps_left(),
{
    let next = s.after(sample, observer, interval);
    if s.stage is Bisect {
        lemma_halvings_grow((next.hi - next.lo) as nat, ((s.hi - s.lo) / 2) as nat);
    }
}

/// A search over `len` samples takes at most two steps more than the length
/// of its bracket has binary digits.
pub proof fn lemma_search_is_short(len: usize)
    ensures
        FutureSearch::begin(len).steps_left() <= halvings(len as nat) + 2,
{
    if len > 2 {
        lemma_halvings_grow((len - 3) as nat, len as nat);
    }
}

/// Sample `i` lies ahead of the observer's past light cone, its interval
/// taken from `intervals`.
pub open spec fn ahead_at(
    samples: Seq<Vector4>,
    observer: Vector4,
    intervals: Seq<Scalar>,
    i: int,
) -> bool {
    ahead(samples[i], observer, intervals[i])
}

/// Sample `i` lies strictly inside the observer's past light cone, its
/// interval taken from `intervals`.
pub open spec fn behind_at(
    samples: Seq<Vector4>,
    observer: Vector4,
    intervals: Seq<Scalar>,
    i: int,
) -> bool {
    behind(samples[i], observer, intervals[i])
}

/// The search `s` over `samples` carried to its end, the interval of each
/// sample that it asks for taken from `intervals`, which holds one for each
/// sample.
pub open spec fn search_run(
    samples: Seq<Vector4>,
    observer: Vector4,
    intervals: Seq<Scalar>,
    s: FutureSearch,
) -> FutureSearch
    decreases s.steps_left(),
{
    if s.wf() && s.asks() is Some && s.samples() == samples.len() && intervals.len()
        == samples.len() {
        let i = s.asks()->0;
        proof {
            lemma_step_shortens(s, samples[i], observer, intervals[i]);
        }
        search_run(samples, observer, intervals, s.after(samples[i], observer, intervals[i]))
    } else {
        s
    }
}

/// From a bracket whose lower neighbour is not ahead and whose upper end is,
/// the search ends on an index with the same two properties.
proof fn lemma_bisect_keeps_bracket(
    samples: Seq<Vector4>,
    observer: Vector4,
    intervals: Seq<Scalar>,
    s: FutureSearch,
)
    requires
        s.wf(),
        s.samples() == samples.len(),
        intervals.len() == samples.len(),
        s.stage is Bisect || s.stage is Found,
        s.lo <= s.hi,
        2 <= s.lo,
        !ahead_at(samples, observer, intervals, s.lo - 1),
        ahead_at(samples, observer, intervals, s.hi as int) || (s.hi == samples.len() - 1
            && !behind_at(samples, observer, intervals, s.hi as int)),
    ensures
        ({
            let r = search_run(samples, observer, intervals, s);
            &&& r.wf()
            &&& r.asks() is None
            &&& r.outcome() is Some
            &&& s.lo <= r.outcome()->0 <= s.hi
            &&& !ahead_at(samples, observer, intervals, r.outcome()->0 - 1)
            &&& (ahead_at(samples, observer, intervals, r.outcome()->0) || (r.outcome()->0
                == samples.len() - 1 && !behind_at(
                samples,
                observer,
                intervals,
                r.outcome()->0,
            )))
        }),
    decreases s.steps_left(),
{
    if s.stage is Bisect {
        let i = s.asks()->0;
        let next = s.after(samples[i], observer, intervals[i]);
        lemma_step_shortens(s, samples[i], observer, intervals[i]);
        assert(i == s.lo + (s.hi - s.lo) / 2);
        assert(s.lo <= i < s.hi);
        assert(search_run(samples, observer, intervals, s) == search_run(
            samples,
            observer,
            intervals,
            next,
        ));
        if ahead_at(samples, observer, intervals, i) {
            assert(next.lo == s.lo && next.hi == i);
        } else {
            assert(next.lo == i + 1 && next.hi == s.hi);
        }
        lemma_bisect_keeps_bracket(samples, observer, intervals, next);
    } else {
        assert(search_run(samples, observer, intervals, s) == s);
    }
}

/// Where a search ends, whatever the intervals are. It ends without a
/// result exactly when the world line has fewer than three samples, or its
/// second sample is already ahead of the light cone, or its last sample is
/// still strictly inside it. Otherwise it ends on an index from 2 on whose
/// sample is ahead (or is the last and not strictly inside) while the sample
/// before it is not ahead: the two bracket the crossing.
pub proof fn lemma_search_brackets_crossing(
    samples: Seq<Vector4>,
    observer: Vector4,
    intervals: Seq<Scalar>,
)
    requires
        intervals.len() == samples.len(),
        samples.len() <= usize::MAX,
    ensures
        ({
            let n = samples.len() as int;
            let r = search_run(samples, observer, intervals, FutureSearch::begin(n as usize));
            &&& r.asks() is None
            &&& r.outcome() is None <==> (n <= 2 || ahead_at(samples, observer, intervals, 1)
                || behind_at(samples, observer, intervals, n - 1))
            &&& r.outcome() matches Some(hi) ==> {
                &&& 2 <= hi < n
                &&& !ahead_at(samples, observer, intervals, hi - 1)
                &&& (ahead_at(samples, observer, intervals, hi) || (hi == n - 1 && !behind_at(
                    samples,
                    observer,
                    intervals,
                    hi,
                )))
            }
        }),
{
    let n = samples.len() as int;
    let s0 = FutureSearch::begin(n as usize);
    if n > 2 {
        let s1 = s0.after(samples[1], observer, intervals[1]);
        assert(search_run(samples, observer, intervals, s0) == search_run(
            samples,
            observer,
            intervals,
            s1,
        ));
        if !ahead_at(samples, observer, intervals, 1) {
            let s2 = s1.after(samples[n - 1], observer, intervals[n - 1]);
            assert(search_run(samples, observer, intervals, s1) == search_run(
                samples,
                observer,
                intervals,
                s2,
            ));
            if !behind_at(samples, observer, intervals, n - 1) {
                lemma_bisect_keeps_bracket(samples, observer, intervals, s2);
            }
        }
    }
}

/// Samples that are ahead of the light cone stay ahead: once one sample is,
/// every later one is too.
pub open spec fn crosses_once(
    samples: Seq<Vector4>,
    observer: Vector4,
    intervals: Seq<Scalar>,
) -> bool {
    forall|i: int, j: int|
        0 <= i <= j < samples.len() && #[trigger] ahead_at(samples, observer, intervals, i)
            ==> #[trigger] ahead_at(samples, observer, intervals, j)
}

/// On a world line that crosses the light cone once, and with no NaN among
/// the times and intervals, the search finds the smallest index whose sample
/// is ahead: every sample before it is strictly inside the past light cone,
/// every sample from it on is ahead.
pub proof fn lemma_search_finds_first_ahead(
    samples: Seq<Vector4>,
    observer: Vector4,
    intervals: Seq<Scalar>,
)
    requires
        intervals.len() == samples.len(),
        samples.len() <= usize::MAX,
        increasing(samples),
        !observer.ct.nan(),
        forall|i: int| 0 <= i < intervals.len() ==> !(#[trigger] intervals[i]).nan(),
        crosses_once(samples, observer, intervals),
    ensures
        ({
            let n = samples.len() as int;
            let r = search_run(samples, observer, intervals, FutureSearch::begin(n as usize));
            r.outcome() matches Some(hi) ==> {
                &&& 2 <= hi < n
                &&& forall|j: int|
                    0 <= j < hi ==> #[trigger] behind_at(samples, observer, intervals, j)
                &&& forall|j: int|
                    hi <= j < n ==> #[trigger] ahead_at(samples, observer, intervals, j)
            }
        }),
{
    let n = samples.len() as int;
    let r = search_run(samples, observer, intervals, FutureSearch::begin(n as usize));
    lemma_search_brackets_crossing(samples, observer, intervals);
    if r.outcome() is Some {
        let hi = r.outcome()->0;
        assert forall|j: int| 0 <= j < n implies (behind_at(samples, observer, intervals, j)
            <==> !ahead_at(samples, observer, intervals, j)) by {
            assert(!samples[j].ct.nan());
            assert(!intervals[j].nan());
        }
        assert forall|j: int| 0 <= j < hi implies #[trigger] behind_at(
            samples,
            observer,
            intervals,
            j,
        ) by {
            if ahead_at(samples, observer, intervals, j) {
                assert(ahead_at(samples, observer, intervals, hi - 1));
            }
        }
        assert forall|j: int| hi <= j < n implies #[trigger] ahead_at(
            samples,
            observer,
            intervals,
            j,
        ) by {
            assert(ahead_at(samples, observer, intervals, hi));
        }
    }
}

} // verus!
