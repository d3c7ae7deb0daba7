//! The Ring allocator: a one-dimensional flexible-box solver. A `Ring`
//! distributes its total length among an ordered sequence of slots
//! (`RingElement`), each constrained by a minimum and a maximum that may be
//! absolute pixels or a fraction of the ring length. Leftover space that no
//! slot may absorb flows into an implicit trailing buffer slot, so that the
//! slot sizes plus the buffer always add up to the ring length exactly
//! (whenever the length can accommodate every minimum at all).

use vstd::prelude::*;
use crate::arith::{scale_pm, COORD_LIMIT, PM_DEN};

verus! {

/// A slot constraint or size: absolute pixels, or thousandths of the ring
/// length (`Relative(1000)` is the whole ring).
#[derive(Debug, PartialEq, Eq, Structural, Copy, Clone)]
pub enum RingElementSize {
    Absolute(i64),
    Relative(i64),
}

impl RingElementSize {
    /// Ring dimensions are nonnegative; a fraction may not exceed the whole
    /// ring, an absolute value may not exceed the coordinate range.
    pub open spec fn wf(self) -> bool {
        match self {
            RingElementSize::Absolute(a) => 0 <= a <= COORD_LIMIT,
            RingElementSize::Relative(pm) => 0 <= pm <= PM_DEN,
        }
    }

    /// The pixel value of this dimension against the ring length `cmp`.
    pub open spec fn spec_value(self, cmp: int) -> int {
        match self {
            RingElementSize::Absolute(a) => a as int,
            RingElementSize::Relative(pm) => scale_pm(cmp, pm as int),
        }
    }

    /// Resolve against the ring length `cmp_to`.
    pub fn to_value(&self, cmp_to: i64) -> (r: i64)
        requires
            self.wf(),
            0 <= cmp_to <= COORD_LIMIT,
        ensures
            r == self.spec_value(cmp_to as int),
            0 <= r <= COORD_LIMIT,
    {
        match self {
            RingElementSize::Absolute(a) => *a,
            RingElementSize::Relative(pm) => {
                let pm = *pm;
                proof {
                    assert(0 <= cmp_to * pm <= COORD_LIMIT * PM_DEN) by (nonlinear_arith)
                        requires
                            0 <= cmp_to <= COORD_LIMIT,
                            0 <= pm <= PM_DEN,
                    ;
                }
                let p = cmp_to * pm;
                proof {
                    assert(0 <= p as int / (PM_DEN as int) && PM_DEN as int * (p as int / (
                    PM_DEN as int)) <= p) by (nonlinear_arith)
                        requires
                            p >= 0,
                    ;
                }
                p / PM_DEN
            },
        }
    }
}

/// One slot of a `Ring`: its minimum, its maximum, and its current size.
#[derive(Debug, PartialEq, Eq, Structural, Copy, Clone)]
pub struct RingElement {
    pub min: RingElementSize,
    pub max: RingElementSize,
    pub size: RingElementSize,
}

impl RingElement {
    pub open spec fn wf(self) -> bool {
        self.min.wf() && self.max.wf() && self.size.wf()
    }

/// The fully flexible slot, as a value usable in contracts.
pub open spec fn new_spec() -> RingElement {
    RingElement {
        min: RingElementSize::Relative(0i64),
        max: RingElementSize::Relative(1000i64),
        size: RingElementSize::Relative(500i64),
    }
}

    /// The resolved minimum. When the constraints contradict each other
    /// (`min > max`), the maximum wins and the minimum is clamped down.
    pub open spec fn spec_min(self, cmp: int) -> int {
        let mn = self.min.spec_value(cmp);
        let mx = self.max.spec_value(cmp);
        if mx < mn {
            mx
        } else {
            mn
        }
    }

    /// The resolved maximum. It is never clamped up: when the constraints
    /// contradict each other the slot is pinned at its maximum, so the
    /// resolved maximum equals the raw one in every case.
    pub open spec fn spec_max(self, cmp: int) -> int {
        self.max.spec_value(cmp)
    }

    /// The resolved current size.
    pub open spec fn spec_size(self, cmp: int) -> int {
        self.size.spec_value(cmp)
    }

    /// Whether the slot cannot grow further.
    pub open spec fn spec_at_max(self, cmp: int) -> bool {
        self.spec_size(cmp) >= self.spec_max(cmp)
    }

    /// The slot after shrinking to its resolved minimum (the maximum, when
    /// the constraints contradict each other).
    pub open spec fn spec_shrunk(self, cmp: int) -> RingElement {
        if self.max.spec_value(cmp) < self.min.spec_value(cmp) {
            RingElement { size: self.max, ..self }
        } else {
            RingElement { size: self.min, ..self }
        }
    }

    /// The slot after growing by `give`, clamped to its maximum.
    pub open spec fn spec_grown(self, cmp: int, give: int) -> RingElement {
        if self.spec_at_max(cmp) {
            self
        } else if self.spec_size(cmp) + give >= self.spec_max(cmp) {
            RingElement { size: self.max, ..self }
        } else {
            RingElement { size: RingElementSize::Absolute((self.spec_size(cmp) + give) as i64), ..self }
        }
    }

    /// What a grow by `give` cannot absorb.
    pub open spec fn spec_grow_leftover(self, cmp: int, give: int) -> int {
        if self.spec_at_max(cmp) {
            give
        } else if self.spec_size(cmp) + give >= self.spec_max(cmp) {
            self.spec_size(cmp) + give - self.spec_max(cmp)
        } else {
            0
        }
    }

    /// A slot with the given constraints; its size starts at half the ring.
    pub fn new_with_min_max(min: RingElementSize, max: RingElementSize) -> (r: RingElement)
        requires
            min.wf(),
            max.wf(),
        ensures
            r == (RingElement { min, max, size: RingElementSize::Relative(500i64) }),
            r.wf(),
    {
        RingElement { min, max, size: RingElementSize::Relative(500) }
    }

    /// A fully flexible slot: minimum nothing, maximum the whole ring.
    pub fn new() -> (r: RingElement)
        ensures
            r == (RingElement {
                min: RingElementSize::Relative(0i64),
                max: RingElementSize::Relative(1000i64),
                size: RingElementSize::Relative(500i64),
            }),
            r == RingElement::new_spec(),
            r.wf(),
    {
        RingElement::new_with_min_max(
            RingElementSize::Relative(0),
            RingElementSize::Relative(1000),
        )
    }

    /// The resolved minimum (maximum wins on contradiction).
    pub fn get_min(&self, cmp: i64) -> (r: i64)
        requires
            self.wf(),
            0 <= cmp <= COORD_LIMIT,
        ensures
            r == self.spec_min(cmp as int),
            0 <= r <= COORD_LIMIT,
    {
        let min = self.min.to_value(cmp);
        let max = self.max.to_value(cmp);
        if max < min {
            max
        } else {
            min
        }
    }

    /// The resolved maximum.
    pub fn get_max(&self, cmp: i64) -> (r: i64)
        requires
            self.wf(),
            0 <= cmp <= COORD_LIMIT,
        ensures
            r == self.spec_max(cmp as int),
            0 <= r <= COORD_LIMIT,
    {
        self.max.to_value(cmp)
    }

    /// The resolved current size.
    pub fn get_size(&self, cmp: i64) -> (r: i64)
        requires
            self.wf(),
            0 <= cmp <= COORD_LIMIT,
        ensures
            r == self.spec_size(cmp as int),
            0 <= r <= COORD_LIMIT,
    {
        self.size.to_value(cmp)
    }

    /// Whether the slot has reached its maximum.
    pub fn is_at_max(&self, cmp: i64) -> (r: bool)
        requires
            self.wf(),
            0 <= cmp <= COORD_LIMIT,
        ensures
            r == self.spec_at_max(cmp as int),
    {
        let size = self.size.to_value(cmp);
        size >= self.get_max(cmp)
    }

    /// Shrink the slot to its resolved minimum.
    pub fn shrink_to_min(&mut self, cmp: i64)
        requires
            old(self).wf(),
            0 <= cmp <= COORD_LIMIT,
        ensures
            *final(self) == old(self).spec_shrunk(cmp as int),
            final(self).wf(),
            final(self).spec_size(cmp as int) == old(self).spec_min(cmp as int),
    {
        let mn = self.min.to_value(cmp);
        let mx = self.max.to_value(cmp);
        self.size = if mx < mn {
            self.max
        } else {
            self.min
        };
    }

    /// Grow the slot by `grow_by`, clamped to its maximum; returns what the
    /// slot could not absorb.
    pub fn grow(&mut self, cmp: i64, grow_by: i64) -> (r: i64)
        requires
            old(self).wf(),
            0 <= cmp <= COORD_LIMIT,
            0 <= grow_by <= COORD_LIMIT + 1,
        ensures
            *final(self) == old(self).spec_grown(cmp as int, grow_by as int),
            r == old(self).spec_grow_leftover(cmp as int, grow_by as int),
            final(self).wf(),
            0 <= r <= grow_by,
    {
        if self.is_at_max(cmp) {
            return grow_by;
        }
        let s = self.size.to_value(cmp);
        let mx = self.get_max(cmp);
        if s + grow_by >= mx {
            self.size = self.max;
            s + grow_by - mx
        } else {
            self.size = RingElementSize::Absolute(s + grow_by);
            0
        }
    }
}

/// A well-formed ring dimension resolves to a value within the coordinate
/// range, whatever the ring length.
pub proof fn lemma_spec_value_bounds(d: RingElementSize, cmp: int)
    requires
        d.wf(),
        0 <= cmp <= COORD_LIMIT,
    ensures
        0 <= d.spec_value(cmp) <= COORD_LIMIT,
{
    match d {
        RingElementSize::Absolute(_) => {},
        RingElementSize::Relative(pm) => {
            assert(0 <= cmp * (pm as int) <= COORD_LIMIT * PM_DEN) by (nonlinear_arith)
                requires
                    0 <= cmp <= COORD_LIMIT,
                    0 <= pm <= PM_DEN,
            ;
            let p = cmp * (pm as int);
            assert(0 <= p / (PM_DEN as int) <= COORD_LIMIT) by (nonlinear_arith)
                requires
                    0 <= p <= COORD_LIMIT * PM_DEN,
            ;
        },
    }
}

/// Bounds for every resolved quantity of a well-formed slot.
pub proof fn lemma_element_bounds(el: RingElement, cmp: int)
    requires
        el.wf(),
        0 <= cmp <= COORD_LIMIT,
    ensures
        0 <= el.spec_min(cmp) <= el.spec_max(cmp) <= COORD_LIMIT,
        0 <= el.spec_size(cmp) <= COORD_LIMIT,
{
    lemma_spec_value_bounds(el.min, cmp);
    lemma_spec_value_bounds(el.max, cmp);
    lemma_spec_value_bounds(el.size, cmp);
}

/// Most slots a single ring may hold; keeps every size sum within `i64`.
pub const SLOTS_LIMIT: usize = 65536;

/// Every slot in the sequence is well formed.
pub open spec fn slots_wf(els: Seq<RingElement>) -> bool {
    forall|j: int| 0 <= j < els.len() ==> (#[trigger] els[j]).wf()
}

/// Every slot's size lies between its resolved minimum and maximum.
pub open spec fn sizes_bounded(els: Seq<RingElement>, cmp: int) -> bool {
    forall|j: int|
        0 <= j < els.len() ==> (#[trigger] els[j]).spec_min(cmp) <= els[j].spec_size(cmp)
            <= els[j].spec_max(cmp)
}

/// Total of the resolved slot sizes.
pub open spec fn sum_sizes(els: Seq<RingElement>, cmp: int) -> int
    decreases els.len(),
{
    if els.len() == 0 {
        0
    } else {
        sum_sizes(els.drop_last(), cmp) + els.last().spec_size(cmp)
    }
}

/// Total of the resolved (clamped) slot minimums.
pub open spec fn sum_mins(els: Seq<RingElement>, cmp: int) -> int
    decreases els.len(),
{
    if els.len() == 0 {
        0
    } else {
        sum_mins(els.drop_last(), cmp) + els.last().spec_min(cmp)
    }
}

pub proof fn lemma_sum_sizes_take_step(els: Seq<RingElement>, cmp: int, k: int)
    requires
        0 <= k < els.len(),
    ensures
        sum_sizes(els.take(k + 1), cmp) == sum_sizes(els.take(k), cmp) + els[k].spec_size(cmp),
{
    assert(els.take(k + 1).drop_last() =~= els.take(k));
    assert(els.take(k + 1).last() == els[k]);
}

pub proof fn lemma_sum_mins_take_step(els: Seq<RingElement>, cmp: int, k: int)
    requires
        0 <= k < els.len(),
    ensures
        sum_mins(els.take(k + 1), cmp) == sum_mins(els.take(k), cmp) + els[k].spec_min(cmp),
{
    assert(els.take(k + 1).drop_last() =~= els.take(k));
    assert(els.take(k + 1).last() == els[k]);
}

/// The sizes of two pointwise-equal sequences add up the same.
pub proof fn lemma_sum_sizes_congruence(a: Seq<RingElement>, b: Seq<RingElement>, cmp: int)
    requires
        a.len() == b.len(),
        forall|j: int| 0 <= j < a.len() ==> (#[trigger] a[j]).spec_size(cmp) == b[j].spec_size(cmp),
    ensures
        sum_sizes(a, cmp) == sum_sizes(b, cmp),
    decreases a.len(),
{
    if a.len() > 0 {
        lemma_sum_sizes_congruence(a.drop_last(), b.drop_last(), cmp);
    }
}

/// Replacing one slot changes the total by the difference at that slot.
pub proof fn lemma_sum_sizes_update(els: Seq<RingElement>, cmp: int, j: int, x: RingElement)
    requires
        0 <= j < els.len(),
    ensures
        sum_sizes(els.update(j, x), cmp) == sum_sizes(els, cmp) - els[j].spec_size(cmp)
            + x.spec_size(cmp),
    decreases els.len(),
{
    let upd = els.update(j, x);
    if j == els.len() - 1 {
        assert(upd.drop_last() =~= els.drop_last());
    } else {
        assert(upd.drop_last() =~= els.drop_last().update(j, x));
        lemma_sum_sizes_update(els.drop_last(), cmp, j, x);
    }
}

/// If every slot's size dominates pointwise, so does the total.
pub proof fn lemma_sum_sizes_pointwise_le(a: Seq<RingElement>, b: Seq<RingElement>, cmp: int)
    requires
        a.len() == b.len(),
        forall|j: int| 0 <= j < a.len() ==> (#[trigger] a[j]).spec_size(cmp) <= b[j].spec_size(cmp),
    ensures
        sum_sizes(a, cmp) <= sum_sizes(b, cmp),
    decreases a.len(),
{
    if a.len() > 0 {
        lemma_sum_sizes_pointwise_le(a.drop_last(), b.drop_last(), cmp);
    }
}

/// One growth pass: walking the slots left to right from position `k`, every
/// slot not yet checked grows by `q`, the first `bonus` of them by one more
/// (the deterministic largest-remainder tie-break).
pub open spec fn dist_from(
    els: Seq<RingElement>,
    checked: Seq<bool>,
    cmp: int,
    q: int,
    bonus: int,
    k: int,
) -> Seq<RingElement>
    decreases els.len() - k,
{
    if k < 0 || k >= els.len() {
        els
    } else if checked[k] {
        dist_from(els, checked, cmp, q, bonus, k + 1)
    } else {
        let give = if bonus > 0 {
            q + 1
        } else {
            q
        };
        let els2 = els.update(k, els[k].spec_grown(cmp, give));
        let bonus2 = if bonus > 0 {
            bonus - 1
        } else {
            bonus
        };
        dist_from(els2, checked, cmp, q, bonus2, k + 1)
    }
}

/// How many growable slots lie at or after position `k`.
pub open spec fn count_unchecked_from(checked: Seq<bool>, k: int) -> int
    decreases checked.len() - k,
{
    if k < 0 || k >= checked.len() {
        0
    } else {
        (if checked[k] {
            0int
        } else {
            1int
        }) + count_unchecked_from(checked, k + 1)
    }
}

/// Structural facts about a growth pass: it only ever grows sizes of
/// growable slots, keeps every constraint, and adds at most the distributed
/// amount to the total.
pub proof fn lemma_dist_from_props(
    els: Seq<RingElement>,
    checked: Seq<bool>,
    cmp: int,
    q: int,
    bonus: int,
    k: int,
)
    requires
        els.len() == checked.len(),
        0 <= k <= els.len(),
        0 <= q,
        0 <= bonus,
        0 <= cmp <= COORD_LIMIT,
        slots_wf(els),
        sizes_bounded(els, cmp),
    ensures
        ({
            let r = dist_from(els, checked, cmp, q, bonus, k);
            &&& r.len() == els.len()
            &&& slots_wf(r)
            &&& sizes_bounded(r, cmp)
            &&& forall|j: int|
                0 <= j < els.len() ==> (#[trigger] r[j]).min == els[j].min && r[j].max
                    == els[j].max
            &&& forall|j: int|
                0 <= j < els.len() ==> (#[trigger] r[j]).spec_size(cmp) >= els[j].spec_size(cmp)
            &&& forall|j: int| 0 <= j < els.len() && (j < k || checked[j]) ==> r[j] == els[j]
            &&& sum_sizes(r, cmp) <= sum_sizes(els, cmp) + q * count_unchecked_from(checked, k)
                + bonus
        }),
    decreases els.len() - k,
{
    if k < 0 || k >= els.len() {
        assert(q * count_unchecked_from(checked, k) == 0) by (nonlinear_arith)
            requires
                count_unchecked_from(checked, k) == 0,
        ;
    } else if checked[k] {
        lemma_dist_from_props(els, checked, cmp, q, bonus, k + 1);
    } else {
        let give = if bonus > 0 {
            q + 1
        } else {
            q
        };
        let grown = els[k].spec_grown(cmp, give);
        let els2 = els.update(k, grown);
        let bonus2 = if bonus > 0 {
            bonus - 1
        } else {
            bonus
        };
        assert(grown.spec_size(cmp) <= els[k].spec_size(cmp) + give);
        assert(grown.spec_min(cmp) == els[k].spec_min(cmp) && grown.spec_max(cmp) == els[k].spec_max(
            cmp,
        ));
        lemma_element_bounds(els[k], cmp);
        assert(slots_wf(els2));
        assert(sizes_bounded(els2, cmp));
        lemma_sum_sizes_update(els, cmp, k, grown);
        lemma_dist_from_props(els2, checked, cmp, q, bonus2, k + 1);
        let r = dist_from(els, checked, cmp, q, bonus, k);
        assert(r == dist_from(els2, checked, cmp, q, bonus2, k + 1));
        assert(sum_sizes(els2, cmp) <= sum_sizes(els, cmp) + give);
        assert(count_unchecked_from(checked, k) == 1 + count_unchecked_from(checked, k + 1));
        assert(q * count_unchecked_from(checked, k) == q + q * count_unchecked_from(checked, k + 1))
            by (nonlinear_arith)
            requires
                count_unchecked_from(checked, k) == 1 + count_unchecked_from(checked, k + 1),
        ;
    }
}

/// Progress of a growth pass: when something is left to hand out and some
/// slot may still grow, the pass either strictly enlarges the total or hits
/// a slot that was growable but stands at its maximum.
pub proof fn lemma_dist_from_progress(
    els: Seq<RingElement>,
    checked: Seq<bool>,
    cmp: int,
    q: int,
    bonus: int,
    k: int,
)
    requires
        els.len() == checked.len(),
        0 <= k <= els.len(),
        0 <= cmp <= COORD_LIMIT,
        slots_wf(els),
        sizes_bounded(els, cmp),
        q >= 1 || bonus >= 1,
        q >= 0,
        bonus >= 0,
        count_unchecked_from(checked, k) > 0,
    ensures
        ({
            let r = dist_from(els, checked, cmp, q, bonus, k);
            sum_sizes(r, cmp) > sum_sizes(els, cmp) || exists|j: int|
                k <= j < els.len() && !checked[j] && (#[trigger] els[j]).spec_at_max(cmp) && r[j]
                    == els[j]
        }),
    decreases els.len() - k,
{
    if k >= els.len() {
        assert(count_unchecked_from(checked, k) == 0);
    } else if checked[k] {
        lemma_dist_from_progress(els, checked, cmp, q, bonus, k + 1);
    } else {
        let give = if bonus > 0 {
            q + 1
        } else {
            q
        };
        let grown = els[k].spec_grown(cmp, give);
        let els2 = els.update(k, grown);
        let bonus2 = if bonus > 0 {
            bonus - 1
        } else {
            bonus
        };
        let r = dist_from(els, checked, cmp, q, bonus, k);
        assert(grown.spec_size(cmp) <= els[k].spec_size(cmp) + give);
        assert(grown.spec_min(cmp) == els[k].spec_min(cmp) && grown.spec_max(cmp) == els[k].spec_max(
            cmp,
        ));
        lemma_element_bounds(els[k], cmp);
        assert(slots_wf(els2));
        assert(sizes_bounded(els2, cmp));
        lemma_dist_from_props(els2, checked, cmp, q, bonus2, k + 1);
        if els[k].spec_at_max(cmp) {
            assert(grown == els[k]);
            assert(els2 =~= els);
            assert(r[k] == els[k]);
        } else {
            assert(give >= 1);
            assert(grown.spec_size(cmp) > els[k].spec_size(cmp));
            lemma_sum_sizes_update(els, cmp, k, grown);
            assert(sum_sizes(els2, cmp) > sum_sizes(els, cmp));
            lemma_sum_sizes_pointwise_le(els2, r, cmp);
        }
    }
}

/// The growable count never counts below zero, and is zero exactly when
/// every slot from `k` on is checked.
pub proof fn lemma_count_from_zero(checked: Seq<bool>, k: int)
    requires
        0 <= k,
    ensures
        count_unchecked_from(checked, k) >= 0,
        (count_unchecked_from(checked, k) == 0) <==> (forall|j: int|
            k <= j < checked.len() && 0 <= j ==> #[trigger] checked[j]),
    decreases checked.len() - k,
{
    if 0 <= k < checked.len() {
        lemma_count_from_zero(checked, k + 1);
    }
}

/// A pointwise implication between checked vectors bounds the growable
/// counts; a strict difference at one index makes the bound strict.
pub proof fn lemma_count_from_mono(a: Seq<bool>, b: Seq<bool>, k: int)
    requires
        0 <= k,
        a.len() == b.len(),
        forall|j: int| 0 <= j < a.len() ==> (#[trigger] a[j]) ==> b[j],
    ensures
        count_unchecked_from(b, k) <= count_unchecked_from(a, k),
        (exists|j: int| k <= j < a.len() && 0 <= j && !a[j] && b[j]) ==> count_unchecked_from(b, k)
            < count_unchecked_from(a, k),
    decreases a.len() - k,
{
    if k >= a.len() {
    } else {
        lemma_count_from_mono(a, b, k + 1);
        if exists|j: int| k <= j < a.len() && 0 <= j && !a[j] && b[j] {
            let j = choose|j: int| k <= j < a.len() && 0 <= j && !a[j] && b[j];
            if j > k {
                assert(k + 1 <= j < a.len() && !a[j] && b[j]);
            }
        }
    }
}

/// The checked vector after a growth pass: a slot stays checked, and
/// becomes checked once it stands at its maximum.
pub open spec fn next_checked(els2: Seq<RingElement>, checked: Seq<bool>, cmp: int) -> Seq<bool> {
    Seq::new(checked.len(), |j: int| checked[j] || els2[j].spec_at_max(cmp))
}

/// The state carried between growth rounds: the leftover always equals the
/// ring length minus what the slots hold.
pub open spec fn iter_inv(els: Seq<RingElement>, checked: Seq<bool>, rem: int, cmp: int) -> bool {
    &&& els.len() == checked.len()
    &&& 0 <= cmp <= COORD_LIMIT
    &&& slots_wf(els)
    &&& sizes_bounded(els, cmp)
    &&& rem == cmp - sum_sizes(els, cmp)
}

/// One growth round preserves the state invariant, never enlarges the
/// leftover, and makes progress: the leftover shrinks, or some growable
/// slot becomes checked.
pub proof fn lemma_iterate_step(els: Seq<RingElement>, checked: Seq<bool>, rem: int, cmp: int)
    requires
        iter_inv(els, checked, rem, cmp),
        rem > 0,
        count_unchecked_from(checked, 0) > 0,
    ensures
        ({
            let cnt = count_unchecked_from(checked, 0);
            let q = rem / cnt;
            let bonus = rem % cnt;
            let els2 = dist_from(els, checked, cmp, q, bonus, 0);
            let checked2 = next_checked(els2, checked, cmp);
            let rem2 = cmp - sum_sizes(els2, cmp);
            &&& iter_inv(els2, checked2, rem2, cmp)
            &&& 0 <= rem2 <= rem
            &&& count_unchecked_from(checked2, 0) <= cnt
            &&& rem2 == rem ==> count_unchecked_from(checked2, 0) < cnt
            &&& els2.len() == els.len()
            &&& forall|j: int|
                0 <= j < els.len() ==> (#[trigger] els2[j]).min == els[j].min && els2[j].max
                    == els[j].max
        }),
{
    let cnt = count_unchecked_from(checked, 0);
    let q = rem / cnt;
    let bonus = rem % cnt;
    let els2 = dist_from(els, checked, cmp, q, bonus, 0);
    let checked2 = next_checked(els2, checked, cmp);
    let rem2 = cmp - sum_sizes(els2, cmp);
    vstd::arithmetic::div_mod::lemma_fundamental_div_mod(rem, cnt);
    assert(rem == cnt * q + bonus);
    assert(q >= 0 && bonus >= 0) by (nonlinear_arith)
        requires
            rem > 0,
            cnt > 0,
            q == rem / cnt,
            bonus == rem % cnt,
    ;
    lemma_dist_from_props(els, checked, cmp, q, bonus, 0);
    assert(cnt * q == q * cnt) by (nonlinear_arith);
    assert(sum_sizes(els2, cmp) <= sum_sizes(els, cmp) + rem);
    lemma_sum_sizes_pointwise_le(els, els2, cmp);
    assert(forall|j: int| 0 <= j < checked.len() ==> (#[trigger] checked[j]) ==> checked2[j]);
    lemma_count_from_mono(checked, checked2, 0);
    if rem2 == rem {
        assert(sum_sizes(els2, cmp) == sum_sizes(els, cmp));
        if q >= 1 || bonus >= 1 {
            lemma_dist_from_progress(els, checked, cmp, q, bonus, 0);
            let j = choose|j: int|
                0 <= j < els.len() && !checked[j] && (#[trigger] els[j]).spec_at_max(cmp) && els2[j]
                    == els[j];
            assert(!checked[j] && checked2[j]);
        } else {
            assert(rem == cnt * 0 + bonus);
            assert(false);
        }
    }
}

/// The growth loop of the rescale algorithm, as a mathematical function:
/// starting from slots shrunk to their minimums, it hands the leftover out
/// round by round until nothing is left or no slot may grow, and returns
/// the final slots together with what flows into the buffer.
pub open spec fn iterate(els: Seq<RingElement>, checked: Seq<bool>, rem: int, cmp: int) -> (
    Seq<RingElement>,
    int,
)
    decreases rem, count_unchecked_from(checked, 0),
    when iter_inv(els, checked, rem, cmp)
{
    if rem <= 0 {
        (els, 0int)
    } else if count_unchecked_from(checked, 0) <= 0 {
        (els, rem)
    } else {
        let cnt = count_unchecked_from(checked, 0);
        let q = rem / cnt;
        let bonus = rem % cnt;
        let els2 = dist_from(els, checked, cmp, q, bonus, 0);
        let checked2 = next_checked(els2, checked, cmp);
        let rem2 = cmp - sum_sizes(els2, cmp);
        if count_unchecked_from(checked2, 0) <= 0 {
            (els2, rem2)
        } else if rem2 <= 0 {
            (els2, 0int)
        } else {
            proof {
                lemma_iterate_step(els, checked, rem, cmp);
                lemma_count_from_zero(checked2, 0);
            }
            iterate(els2, checked2, rem2, cmp)
        }
    }
}

/// Facts carried through the whole growth loop: constraints never change,
/// sizes stay within them, and (when the loop started with space to hand
/// out) the slots plus the buffer fill account for the ring exactly.
pub proof fn lemma_iterate_props(els: Seq<RingElement>, checked: Seq<bool>, rem: int, cmp: int)
    requires
        iter_inv(els, checked, rem, cmp),
    ensures
        ({
            let (f, fill) = iterate(els, checked, rem, cmp);
            &&& f.len() == els.len()
            &&& forall|j: int|
                0 <= j < els.len() ==> (#[trigger] f[j]).min == els[j].min && f[j].max
                    == els[j].max
            &&& slots_wf(f)
            &&& sizes_bounded(f, cmp)
            &&& rem >= 0 ==> fill >= 0 && sum_sizes(f, cmp) + fill == cmp
            &&& rem < 0 ==> f == els && fill == 0
        }),
    decreases rem, count_unchecked_from(checked, 0),
{
    lemma_count_from_zero(checked, 0);
    if rem <= 0 {
    } else if count_unchecked_from(checked, 0) <= 0 {
    } else {
        let cnt = count_unchecked_from(checked, 0);
        let q = rem / cnt;
        let bonus = rem % cnt;
        let els2 = dist_from(els, checked, cmp, q, bonus, 0);
        let checked2 = next_checked(els2, checked, cmp);
        let rem2 = cmp - sum_sizes(els2, cmp);
        lemma_iterate_step(els, checked, rem, cmp);
        if count_unchecked_from(checked2, 0) <= 0 {
        } else if rem2 <= 0 {
        } else {
            lemma_iterate_props(els2, checked2, rem2, cmp);
        }
    }
}

/// The rescale algorithm as a mathematical function: shrink every slot to
/// its resolved minimum, then grow round by round. Returns the slots and
/// the buffer fill.
pub open spec fn spec_rescale(els: Seq<RingElement>, cmp: int) -> (Seq<RingElement>, int) {
    let shr = Seq::new(els.len(), |k: int| els[k].spec_shrunk(cmp));
    let checked0 = Seq::new(els.len(), |k: int| false);
    let rem0 = cmp - sum_sizes(shr, cmp);
    iterate(shr, checked0, rem0, cmp)
}

/// Shrinking every slot makes the size total equal the minimum total.
pub proof fn lemma_sum_shrunk(els: Seq<RingElement>, cmp: int)
    ensures
        sum_sizes(Seq::new(els.len(), |k: int| els[k].spec_shrunk(cmp)), cmp) == sum_mins(
            els,
            cmp,
        ),
    decreases els.len(),
{
    let shr = Seq::new(els.len(), |k: int| els[k].spec_shrunk(cmp));
    if els.len() > 0 {
        lemma_sum_shrunk(els.drop_last(), cmp);
        assert(shr.drop_last() =~= Seq::new(
            els.drop_last().len(),
            |k: int| els.drop_last()[k].spec_shrunk(cmp),
        ));
        assert(shr.last().spec_size(cmp) == els.last().spec_min(cmp));
    }
}

/// What rescaling guarantees. Whenever the ring length covers the sum of
/// the resolved minimums, the resolved slot sizes plus the buffer fill add
/// up to the ring length exactly; otherwise every slot stays at its
/// (over-budget) minimum and the buffer stays empty. In every case each
/// size lies between the slot's resolved minimum and maximum.
pub proof fn lemma_rescale_props(els: Seq<RingElement>, cmp: int)
    requires
        slots_wf(els),
        0 <= cmp <= COORD_LIMIT,
    ensures
        ({
            let (f, fill) = spec_rescale(els, cmp);
            &&& f.len() == els.len()
            &&& forall|j: int|
                0 <= j < els.len() ==> (#[trigger] f[j]).min == els[j].min && f[j].max
                    == els[j].max
            &&& slots_wf(f)
            &&& sizes_bounded(f, cmp)
            &&& sum_mins(els, cmp) <= cmp ==> fill >= 0 && sum_sizes(f, cmp) + fill == cmp
            &&& sum_mins(els, cmp) > cmp ==> fill == 0 && forall|j: int|
                0 <= j < f.len() ==> (#[trigger] f[j]).spec_size(cmp) == f[j].spec_min(cmp)
        }),
{
    let shr = Seq::new(els.len(), |k: int| els[k].spec_shrunk(cmp));
    let checked0 = Seq::new(els.len(), |k: int| false);
    let rem0 = cmp - sum_sizes(shr, cmp);
    lemma_sum_shrunk(els, cmp);
    assert forall|j: int| 0 <= j < shr.len() implies (#[trigger] shr[j]).wf()
        && shr[j].spec_min(cmp) <= shr[j].spec_size(cmp) <= shr[j].spec_max(cmp) by {
        lemma_element_bounds(els[j], cmp);
        assert(shr[j] == els[j].spec_shrunk(cmp));
    }
    assert(iter_inv(shr, checked0, rem0, cmp));
    lemma_iterate_props(shr, checked0, rem0, cmp);
}

/// The rescaled sizes are a function of the constraints and the ring
/// length alone: two slot sequences with the same minimums and maximums
/// rescale identically, whatever sizes they held before.
pub proof fn lemma_rescale_constraints_only(a: Seq<RingElement>, b: Seq<RingElement>, cmp: int)
    requires
        a.len() == b.len(),
        forall|j: int|
            0 <= j < a.len() ==> (#[trigger] a[j]).min == b[j].min && a[j].max == b[j].max,
    ensures
        spec_rescale(a, cmp) == spec_rescale(b, cmp),
{
    let shr_a = Seq::new(a.len(), |k: int| a[k].spec_shrunk(cmp));
    let shr_b = Seq::new(b.len(), |k: int| b[k].spec_shrunk(cmp));
    assert(shr_a =~= shr_b);
    assert(Seq::new(a.len(), |k: int| false) =~= Seq::new(b.len(), |k: int| false));
}

/// Rescaling is idempotent: running the algorithm on an already rescaled
/// sequence changes nothing.
pub proof fn lemma_rescale_idempotent(els: Seq<RingElement>, cmp: int)
    requires
        slots_wf(els),
        0 <= cmp <= COORD_LIMIT,
    ensures
        spec_rescale(spec_rescale(els, cmp).0, cmp) == spec_rescale(els, cmp),
{
    let (f, fill) = spec_rescale(els, cmp);
    lemma_rescale_props(els, cmp);
    lemma_rescale_constraints_only(f, els, cmp);
}

/// Slot sizes are nonnegative, so their total is too.
pub proof fn lemma_sum_sizes_nonneg(els: Seq<RingElement>, cmp: int)
    requires
        slots_wf(els),
        0 <= cmp <= COORD_LIMIT,
    ensures
        0 <= sum_sizes(els, cmp) <= els.len() * COORD_LIMIT,
    decreases els.len(),
{
    if els.len() > 0 {
        assert(slots_wf(els.drop_last())) by {
            assert(forall|j: int|
                0 <= j < els.len() - 1 ==> els.drop_last()[j] == (#[trigger] els[j]));
        }
        lemma_sum_sizes_nonneg(els.drop_last(), cmp);
        lemma_element_bounds(els.last(), cmp);
        assert((els.len() - 1) * COORD_LIMIT + COORD_LIMIT == els.len() * COORD_LIMIT)
            by (nonlinear_arith);
    }
}

/// Total of the resolved slot sizes.
fn sum_sizes_exec(els: &Vec<RingElement>, cmp: i64) -> (r: i64)
    requires
        slots_wf(els@),
        els@.len() <= SLOTS_LIMIT,
        0 <= cmp <= COORD_LIMIT,
    ensures
        r == sum_sizes(els@, cmp as int),
        0 <= r <= els@.len() * COORD_LIMIT,
{
    let n = els.len();
    let mut total: i64 = 0;
    let mut k: usize = 0;
    while k < n
        invariant
            n == els@.len() <= SLOTS_LIMIT,
            k <= n,
            slots_wf(els@),
            0 <= cmp <= COORD_LIMIT,
            total == sum_sizes(els@.take(k as int), cmp as int),
            0 <= total <= (k as int) * COORD_LIMIT,
        decreases n - k,
    {
        let s = els[k].get_size(cmp);
        proof {
            lemma_sum_sizes_take_step(els@, cmp as int, k as int);
        }
        total = total + s;
        k = k + 1;
    }
    proof {
        assert(els@.take(n as int) =~= els@);
    }
    total
}

/// How many slots may still grow.
fn count_growable(checked: &Vec<bool>) -> (r: i64)
    requires
        checked@.len() <= SLOTS_LIMIT,
    ensures
        r == count_unchecked_from(checked@, 0),
        0 <= r <= checked@.len(),
{
    let n = checked.len();
    let mut cnt: i64 = 0;
    let mut k: usize = 0;
    proof {
        lemma_count_from_zero(checked@, 0);
    }
    while k < n
        invariant
            n == checked@.len() <= SLOTS_LIMIT,
            k <= n,
            cnt == count_unchecked_from(checked@, 0) - count_unchecked_from(checked@, k as int),
            0 <= cnt <= k,
        decreases n - k,
    {
        proof {
            lemma_count_from_zero(checked@, k as int);
            lemma_count_from_zero(checked@, k + 1 as int);
        }
        if !checked[k] {
            cnt = cnt + 1;
        }
        k = k + 1;
    }
    cnt
}

/// One growth pass over the slots, left to right.
fn distribute(els: &mut Vec<RingElement>, checked: &Vec<bool>, cmp: i64, q: i64, bonus: i64)
    requires
        old(els)@.len() == checked@.len() <= SLOTS_LIMIT,
        slots_wf(old(els)@),
        0 <= cmp <= COORD_LIMIT,
        0 <= q <= COORD_LIMIT,
        0 <= bonus <= SLOTS_LIMIT,
    ensures
        final(els)@ == dist_from(old(els)@, checked@, cmp as int, q as int, bonus as int, 0),
        final(els)@.len() == old(els)@.len(),
        slots_wf(final(els)@),
{
    let ghost els0 = els@;
    let n = els.len();
    let mut k: usize = 0;
    let mut b = bonus;
    while k < n
        invariant
            n == els@.len() == els0.len() == checked@.len() <= SLOTS_LIMIT,
            k <= n,
            slots_wf(els@),
            0 <= cmp <= COORD_LIMIT,
            0 <= q <= COORD_LIMIT,
            0 <= b <= bonus <= SLOTS_LIMIT,
            dist_from(els0, checked@, cmp as int, q as int, bonus as int, 0) == dist_from(
                els@,
                checked@,
                cmp as int,
                q as int,
                b as int,
                k as int,
            ),
        decreases n - k,
    {
        if !checked[k] {
            let give = if b > 0 {
                q + 1
            } else {
                q
            };
            let mut el = els[k];
            let _ = el.grow(cmp, give);
            proof {
                assert(el == els@[k as int].spec_grown(cmp as int, give as int));
            }
            els.set(k, el);
            if b > 0 {
                b = b - 1;
            }
        }
        k = k + 1;
    }
}

/// Mark every slot that stands at its maximum as checked.
fn update_checked(checked: &mut Vec<bool>, els: &Vec<RingElement>, cmp: i64)
    requires
        old(checked)@.len() == els@.len() <= SLOTS_LIMIT,
        slots_wf(els@),
        0 <= cmp <= COORD_LIMIT,
    ensures
        final(checked)@ == next_checked(els@, old(checked)@, cmp as int),
{
    let ghost checked0 = checked@;
    let n = checked.len();
    let mut k: usize = 0;
    while k < n
        invariant
            n == checked@.len() == checked0.len() == els@.len() <= SLOTS_LIMIT,
            k <= n,
            slots_wf(els@),
            0 <= cmp <= COORD_LIMIT,
            forall|j: int|
                0 <= j < k ==> #[trigger] checked@[j] == (checked0[j] || els@[j].spec_at_max(
                    cmp as int,
                )),
            forall|j: int| k <= j < n ==> #[trigger] checked@[j] == checked0[j],
        decreases n - k,
    {
        if !checked[k] {
            let at = els[k].is_at_max(cmp);
            if at {
                checked.set(k, true);
            }
        }
        k = k + 1;
    }
    proof {
        assert(checked@ =~= next_checked(els@, checked0, cmp as int));
    }
}

/// The allocator: an ordered sequence of slots plus one implicit trailing
/// buffer slot that absorbs space no real slot may take. The `size` field
/// is the total length being distributed; every mutating operation
/// rescales, so that afterwards the resolved slot sizes plus the buffer
/// equal the length exactly (whenever the minimums fit at all).
#[derive(Debug, Clone)]
pub struct Ring {
    pub size: i64,
    pub elements: Vec<RingElement>,
    pub buffer: RingElement,
}

impl Ring {
    pub open spec fn wf(self) -> bool {
        &&& 0 <= self.size <= COORD_LIMIT
    &&& self.elements@.len() <= SLOTS_LIMIT
    &&& slots_wf(self.elements@)
    &&& self.buffer.wf()
    &&& self.buffer.min == RingElementSize::Relative(0i64)
    }

    /// The ring holds exactly the outcome of rescaling the slots `els`
    /// against its length: the slot sizes and the buffer fill.
    pub open spec fn rescaled(self, els: Seq<RingElement>) -> bool {
        &&& self.elements@ == spec_rescale(els, self.size as int).0
    &&& self.buffer.spec_size(self.size as int) == spec_rescale(els, self.size as int).1
    }

    /// An empty ring of the given length.
    pub fn new_with_size(size: i64) -> (r: Ring)
        requires
            0 <= size <= COORD_LIMIT,
        ensures
            r.wf(),
            r.size == size,
            r.elements@ =~= Seq::<RingElement>::empty(),
    {
        Ring { size, elements: Vec::new(), buffer: RingElement::new() }
    }

    /// An empty ring of length one.
    pub fn new() -> (r: Ring)
        ensures
            r.wf(),
            r.size == 1,
            r.elements@ =~= Seq::<RingElement>::empty(),
    {
        Ring::new_with_size(1)
    }

    /// Shrink every slot to its minimum, then hand the leftover out round
    /// by round under the per-slot maximums, the deterministic remainder
    /// going to the leftmost growable slots; whatever no slot may take
    /// fills the buffer. Safe to call redundantly: a second run leaves
    /// every size unchanged.
    #[verifier::loop_isolation(false)]
    pub fn rescale_elements(&mut self)
        requires
            old(self).wf(),
        ensures
            final(self).wf(),
            final(self).size == old(self).size,
            final(self).buffer.min == old(self).buffer.min,
            final(self).rescaled(old(self).elements@),
            sizes_bounded(final(self).elements@, old(self).size as int),
    {
        let cmp = self.size;
        let ghost els0 = self.elements@;
        proof {
            lemma_rescale_props(els0, cmp as int);
        }
        self.buffer.shrink_to_min(cmp);
        proof {
            lemma_spec_value_bounds(old(self).buffer.max, cmp as int);
        }
        let n = self.elements.len();

        // Shrink every slot to its resolved minimum.
        let mut k: usize = 0;
        while k < n
            invariant
                n == self.elements@.len(),
                k <= n,
                0 <= cmp <= COORD_LIMIT,
                els0.len() == n,
                slots_wf(els0),
                self.size == old(self).size,
                self.buffer == old(self).buffer.spec_shrunk(cmp as int),
                cmp == old(self).size,
                forall|j: int|
                    0 <= j < k ==> self.elements@[j] == (#[trigger] els0[j]).spec_shrunk(
                        cmp as int,
                    ),
                forall|j: int| k <= j < n ==> #[trigger] self.elements@[j] == els0[j],
            decreases n - k,
        {
            let mut el = self.elements[k];
            el.shrink_to_min(cmp);
            self.elements.set(k, el);
            k = k + 1;
        }
        let ghost shr0 = Seq::new(els0.len(), |j: int| els0[j].spec_shrunk(cmp as int));
        let ghost checked0 = Seq::new(els0.len(), |j: int| false);
        proof {
            assert(self.elements@ =~= shr0);
            assert forall|j: int| 0 <= j < n implies (#[trigger] shr0[j]).wf()
                && shr0[j].spec_min(cmp as int) <= shr0[j].spec_size(cmp as int) <= shr0[
            j].spec_max(cmp as int) by {
                lemma_element_bounds(els0[j], cmp as int);
            }
        }

        // The leftover after every slot sits at its minimum.
        let total = sum_sizes_exec(&self.elements, cmp);
        let mut rem = cmp - total;
        let ghost rem0 = rem as int;

        // No slot has been marked as unable to grow yet.
        let mut checked: Vec<bool> = Vec::new();
        let mut k: usize = 0;
        while k < n
            invariant
                checked@.len() == k <= n,
                forall|j: int| 0 <= j < k ==> !(#[trigger] checked@[j]),
            decreases n - k,
        {
            checked.push(false);
            k = k + 1;
        }
        proof {
            assert(checked@ =~= checked0);
            assert(iter_inv(self.elements@, checked@, rem as int, cmp as int));
            assert(self.elements@ == shr0);
            assert(checked@ == checked0);
            assert(iterate(self.elements@, checked@, rem as int, cmp as int) == iterate(
                shr0,
                checked0,
                rem0,
                cmp as int,
            ));
        }

        while rem > 0
            invariant
                n == self.elements@.len() == checked@.len() <= SLOTS_LIMIT,
                0 <= cmp <= COORD_LIMIT,
                self.size == old(self).size,
                cmp == old(self).size,
                self.buffer == old(self).buffer.spec_shrunk(cmp as int),
                iter_inv(self.elements@, checked@, rem as int, cmp as int),
                iterate(self.elements@, checked@, rem as int, cmp as int) == iterate(
                    shr0,
                    checked0,
                    rem0,
                    cmp as int,
                ),
            decreases rem, count_unchecked_from(checked@, 0),
        {
            let ghost els1 = self.elements@;
            let ghost checked1 = checked@;
            let ghost rem1 = rem as int;
            proof {
                lemma_sum_sizes_nonneg(self.elements@, cmp as int);
            }
            let cnt = count_growable(&checked);
            if cnt == 0 {
                self.buffer.size = RingElementSize::Absolute(rem);
                proof {
                    assert(iterate(els1, checked1, rem1, cmp as int) == (els1, rem1));
                }
                return;
            }
            let q = rem / cnt;
            proof {
                vstd::arithmetic::div_mod::lemma_fundamental_div_mod(rem1, cnt as int);
                assert(q == rem1 / (cnt as int));
                assert(0 <= q <= rem1 && 0 <= q * (cnt as int) <= rem1) by (nonlinear_arith)
                    requires
                        rem1 > 0,
                        cnt > 0,
                        q == rem1 / (cnt as int),
                        rem1 == (cnt as int) * (rem1 / (cnt as int)) + rem1 % (cnt as int),
                        0 <= rem1 % (cnt as int),
                ;
            }
            let bonus = rem - q * cnt;
            proof {
                assert(bonus == rem1 % (cnt as int) && 0 <= bonus < cnt) by (nonlinear_arith)
                    requires
                        rem1 > 0,
                        cnt > 0,
                        q == rem1 / (cnt as int),
                        bonus == rem1 - q * (cnt as int),
                        rem1 == (cnt as int) * (rem1 / (cnt as int)) + rem1 % (cnt as int),
                        0 <= rem1 % (cnt as int) < cnt,
                ;
                lemma_iterate_step(els1, checked1, rem1, cmp as int);
            }
            distribute(&mut self.elements, &checked, cmp, q, bonus);
            let total2 = sum_sizes_exec(&self.elements, cmp);
            let rem2 = cmp - total2;
            update_checked(&mut checked, &self.elements, cmp);
            let cnt2 = count_growable(&checked);
            if cnt2 == 0 {
                self.buffer.size = RingElementSize::Absolute(rem2);
                proof {
                    assert(iterate(els1, checked1, rem1, cmp as int) == (
                        self.elements@,
                        rem2 as int,
                    ));
                }
                return;
            }
            rem = rem2;
            proof {
                if rem2 <= 0 {
                    assert(iterate(els1, checked1, rem1, cmp as int) == (self.elements@, 0int));
                    assert(iterate(self.elements@, checked@, rem as int, cmp as int) == (
                        self.elements@,
                        0int,
                    ));
                } else {
                    assert(iterate(els1, checked1, rem1, cmp as int) == iterate(
                        self.elements@,
                        checked@,
                        rem as int,
                        cmp as int,
                    ));
                }
            }
        }
        proof {
            assert(iterate(self.elements@, checked@, rem as int, cmp as int) == (
                self.elements@,
                0int,
            ));
            lemma_spec_value_bounds(self.buffer.max, cmp as int);
            assert(self.buffer.spec_size(cmp as int) == 0);
        }
    }
    /// The resolved size of slot `index`; the buffer position (one past the
    /// last slot) reports zero.
    pub fn get(&self, index: usize) -> (r: i64)
        requires
            self.wf(),
            index <= self.elements@.len(),
        ensures
            r == if index < self.elements@.len() {
                self.elements@[index as int].spec_size(self.size as int)
            } else {
                0
            },
            0 <= r <= COORD_LIMIT,
    {
        if index == self.elements.len() {
            0
        } else {
            self.elements[index].get_size(self.size)
        }
    }

    /// The cumulative offset of slot `index` from the ring origin: the
    /// total of the resolved sizes of every slot before it. An index past
    /// the end is clamped to the slot count, so the offset of the slot
    /// count itself is the total of all slot sizes.
    pub fn get_sum(&self, index: usize) -> (r: i64)
        requires
            self.wf(),
        ensures
            r == sum_sizes(
                self.elements@.take(
                    if index < self.elements@.len() {
                        index as int
                    } else {
                        self.elements@.len() as int
                    },
                ),
                self.size as int,
            ),
            0 <= r,
    {
        let n = self.elements.len();
        let idx = if index > n {
            n
        } else {
            index
        };
        let mut res: i64 = 0;
        let mut i: usize = 0;
        while i < idx
            invariant
                idx <= n == self.elements@.len() <= SLOTS_LIMIT,
                i <= idx,
                self.wf(),
                res == sum_sizes(self.elements@.take(i as int), self.size as int),
                0 <= res <= (i as int) * COORD_LIMIT,
            decreases idx - i,
        {
            let s = self.elements[i].get_size(self.size);
            proof {
                lemma_sum_sizes_take_step(self.elements@, self.size as int, i as int);
            }
            res = res + s;
            i = i + 1;
        }
        proof {
            if index >= self.elements@.len() {
                assert(self.elements@.take(idx as int) =~= self.elements@.take(
                    self.elements@.len() as int,
                ));
            }
        }
        res
    }

    /// Append a slot at the end and rescale.
    pub fn push(&mut self, element: RingElement)
        requires
            old(self).wf(),
            element.wf(),
            old(self).elements@.len() < SLOTS_LIMIT,
        ensures
            final(self).wf(),
            final(self).size == old(self).size,
            final(self).rescaled(old(self).elements@.push(element)),
    {
        let n = self.elements.len();
        self.insert(n, element);
        proof {
            assert(old(self).elements@.insert(old(self).elements@.len() as int, element)
                =~= old(self).elements@.push(element));
        }
    }

    /// Insert a slot (an index past the end appends) and rescale.
    pub fn insert(&mut self, index: usize, element: RingElement)
        requires
            old(self).wf(),
            element.wf(),
            old(self).elements@.len() < SLOTS_LIMIT,
        ensures
            final(self).wf(),
            final(self).size == old(self).size,
            final(self).rescaled(
                old(self).elements@.insert(
                    if index < old(self).elements@.len() {
                        index as int
                    } else {
                        old(self).elements@.len() as int
                    },
                    element,
                ),
            ),
    {
        if index >= self.elements.len() {
            self.elements.push(element);
            proof {
                assert(self.elements@ =~= old(self).elements@.insert(
                    old(self).elements@.len() as int,
                    element,
                ));
            }
        } else {
            self.elements.insert(index, element);
        }
        proof {
            assert forall|j: int| 0 <= j < self.elements@.len() implies (#[trigger] self.elements@[
            j]).wf() by {
                let prev = old(self).elements@;
                let i = if index < prev.len() {
                    index as int
                } else {
                    prev.len() as int
                };
                assert(self.elements@ == prev.insert(i, element));
                if j < i {
                    assert(self.elements@[j] == prev[j]);
                } else if j == i {
                    assert(self.elements@[j] == element);
                } else {
                    assert(self.elements@[j] == prev[j - 1]);
                }
            }
        }
        self.rescale_elements();
    }

    /// Remove the last slot, if any, and rescale.
    pub fn pop(&mut self) -> (el: Option<RingElement>)
        requires
            old(self).wf(),
        ensures
            final(self).wf(),
            final(self).size == old(self).size,
            el == if old(self).elements@.len() > 0 {
                Some(old(self).elements@.last())
            } else {
                None::<RingElement>
            },
            final(self).rescaled(
                if old(self).elements@.len() > 0 {
                    old(self).elements@.drop_last()
                } else {
                    old(self).elements@
                },
            ),
    {
        let el = self.elements.pop();
        proof {
            assert forall|j: int| 0 <= j < self.elements@.len() implies (#[trigger] self.elements@[
            j]).wf() by {
                assert(self.elements@[j] == old(self).elements@[j]);
            }
        }
        self.rescale_elements();
        el
    }

    /// Remove the slot at `index` and rescale.
    pub fn remove(&mut self, index: usize) -> (el: RingElement)
        requires
            old(self).wf(),
            index < old(self).elements@.len(),
        ensures
            final(self).wf(),
            final(self).size == old(self).size,
            el == old(self).elements@[index as int],
            final(self).rescaled(old(self).elements@.remove(index as int)),
    {
        let el = self.elements.remove(index);
        proof {
            assert forall|j: int| 0 <= j < self.elements@.len() implies (#[trigger] self.elements@[
            j]).wf() by {
                let prev = old(self).elements@;
                if j < index {
                    assert(self.elements@[j] == prev[j]);
                } else {
                    assert(self.elements@[j] == prev[j + 1]);
                }
            }
        }
        self.rescale_elements();
        el
    }

    /// Change the ring length and rescale.
    pub fn resize(&mut self, size: i64)
        requires
            old(self).wf(),
            0 <= size <= COORD_LIMIT,
        ensures
            final(self).wf(),
            final(self).size == size,
            final(self).rescaled(old(self).elements@),
    {
        self.size = size;
        self.rescale_elements();
    }

}

/// Cumulative offsets: the offset of the first slot is zero, and the offset
/// one past the last slot (the total of every slot size) is the ring length
/// minus the buffer fill, whenever the length covers the resolved minimums.
pub proof fn lemma_cumulative_offsets(r: Ring, els: Seq<RingElement>)
    requires
        r.wf(),
        slots_wf(els),
        r.rescaled(els),
        sum_mins(els, r.size as int) <= r.size,
    ensures
        sum_sizes(r.elements@.take(0), r.size as int) == 0,
        sum_sizes(r.elements@, r.size as int) == r.size - r.buffer.spec_size(r.size as int),
{
    lemma_rescale_props(els, r.size as int);
    assert(r.elements@.take(0) =~= Seq::<RingElement>::empty());
}

/// Prefix totals of the slot sizes never decrease.
pub proof fn lemma_prefix_sums_monotone(els: Seq<RingElement>, cmp: int, i: int, j: int)
    requires
        slots_wf(els),
        0 <= cmp <= COORD_LIMIT,
        0 <= i <= j <= els.len(),
    ensures
        0 <= sum_sizes(els.take(i), cmp) <= sum_sizes(els.take(j), cmp),
    decreases j - i,
{
    assert(slots_wf(els.take(i))) by {
        assert(forall|q: int| 0 <= q < i ==> els.take(i)[q] == (#[trigger] els[q]));
    }
    lemma_sum_sizes_nonneg(els.take(i), cmp);
    if i < j {
        lemma_prefix_sums_monotone(els, cmp, i + 1, j);
        lemma_sum_sizes_take_step(els, cmp, i);
        lemma_element_bounds(els[i], cmp);
    }
}

} // verus!
