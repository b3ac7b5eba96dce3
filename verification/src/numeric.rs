//! Uncertain numbers, and the rules by which several of them become one.
//!
//! A field's numeric value is a point, a normal or uniform distribution, a
//! renormalised product of such distributions, or a marker that no coherent
//! value exists. This module holds the values and every decision that merging
//! them takes. It does no arithmetic: where a merge comes down to integrating
//! a product of densities, `merge` hands the factors back, the caller
//! integrates, and `combination` builds the result from the integrals.

use crate::duplicate::{views, Duplicate};
use crate::scalar::{
    lemma_eq_value_is_partial_equivalence, Float64, NAN_BITS, ONE_BITS, ZERO_BITS,
};
use vstd::prelude::*;

verus! {

/// An uncertain real number.
#[derive(Debug, PartialEq)]
pub enum NumericFieldValue {
    /// A normal distribution.
    Normal { sigma: Float64, mean: Float64 },
    /// A point value.
    Exact(Float64),
    /// A uniform distribution on `[min, max]`.
    Uniform { min: Float64, max: Float64 },
    /// The product of the components' densities, scaled to integrate to one.
    /// `mean` and `sigma` are the moments of the product, not of a component.
    Combination {
        components: Vec<NumericFieldValue>,
        scaling_factor: Float64,
        mean: Float64,
        sigma: Float64,
    },
    /// No coherent value.
    Error,
}

/// The mathematical value of a [`NumericFieldValue`].
pub enum NumericView {
    Normal { sigma: Float64, mean: Float64 },
    Exact(Float64),
    Uniform { min: Float64, max: Float64 },
    Combination {
        components: Seq<NumericView>,
        scaling_factor: Float64,
        mean: Float64,
        sigma: Float64,
    },
    Error,
}

/// The view of a value, component by component.
pub open spec fn numeric_view(value: NumericFieldValue) -> NumericView
    decreases value,
{
    match value {
        NumericFieldValue::Normal { sigma, mean } => NumericView::Normal { sigma, mean },
        NumericFieldValue::Exact(point) => NumericView::Exact(point),
        NumericFieldValue::Uniform { min, max } => NumericView::Uniform { min, max },
        NumericFieldValue::Combination { components, scaling_factor, mean, sigma } => {
            NumericView::Combination {
                components: Seq::new(
                    components@.len(),
                    |i: int|
                        if 0 <= i < components@.len() {
                            numeric_view(components@[i])
                        } else {
                            NumericView::Error
                        },
                ),
                scaling_factor,
                mean,
                sigma,
            }
        },
        NumericFieldValue::Error => NumericView::Error,
    }
}

impl View for NumericFieldValue {
    type V = NumericView;

    open spec fn view(&self) -> NumericView {
        numeric_view(*self)
    }
}

/// What the rules decide of a merge before any integral is taken.
#[derive(Debug, PartialEq)]
pub enum NumericMerge {
    /// The rules alone fix the result.
    Resolved(NumericFieldValue),
    /// The result is the renormalised product of these distributions, none of
    /// which is a point or an error.
    Combine(Vec<NumericFieldValue>),
}

/// The mathematical value of a [`NumericMerge`].
pub enum NumericMergeView {
    Resolved(NumericView),
    Combine(Seq<NumericView>),
}

impl View for NumericMerge {
    type V = NumericMergeView;

    open spec fn view(&self) -> NumericMergeView {
        match *self {
            NumericMerge::Resolved(value) => NumericMergeView::Resolved(value@),
            NumericMerge::Combine(components) => NumericMergeView::Combine(views(components@)),
        }
    }
}

/// Whether some value of the list is the error marker.
pub open spec fn has_error(values: Seq<NumericView>) -> bool {
    exists|i: int| 0 <= i < values.len() && #[trigger] values[i] is Error
}

/// Whether some value of the list is a point.
pub open spec fn has_exact(values: Seq<NumericView>) -> bool {
    exists|i: int| 0 <= i < values.len() && #[trigger] values[i] is Exact
}

/// Whether the first point of the list stands at `i`.
pub open spec fn is_first_exact(values: Seq<NumericView>, i: int) -> bool {
    &&& 0 <= i < values.len()
    &&& values[i] is Exact
    &&& forall|j: int| 0 <= j < i ==> !(#[trigger] values[j] is Exact)
}

/// The place of the first point of the list.
pub open spec fn first_exact(values: Seq<NumericView>) -> int {
    choose|i: int| is_first_exact(values, i)
}

/// Whether every point after place `i` equals, as a number, the point at `i`.
pub open spec fn later_exacts_agree(values: Seq<NumericView>, i: int) -> bool {
    forall|j: int|
        i < j < values.len() && #[trigger] values[j] is Exact ==> values[j]->Exact_0.spec_eq_value(
            values[i]->Exact_0,
        )
}

/// The decision that merging a list of values comes to.
///
/// An error among the values makes the result an error. Otherwise, where
/// points are among them, the first point is the result if every later point
/// equals it, and the result is an error if one differs. Otherwise the
/// values are to be combined.
pub open spec fn merge_outcome(values: Seq<NumericView>) -> NumericMergeView {
    if has_error(values) {
        NumericMergeView::Resolved(NumericView::Error)
    } else if has_exact(values) {
        if later_exacts_agree(values, first_exact(values)) {
            NumericMergeView::Resolved(values[first_exact(values)])
        } else {
            NumericMergeView::Resolved(NumericView::Error)
        }
    } else {
        NumericMergeView::Combine(values)
    }
}

/// The combination that the integrals of a product describe: an error where
/// the product's area is zero, since nothing can then scale it to integrate to
/// one.
pub open spec fn combination_outcome(
    components: Seq<NumericView>,
    area: Float64,
    scaling_factor: Float64,
    mean: Float64,
    sigma: Float64,
) -> NumericView {
    if area.spec_is_zero() {
        NumericView::Error
    } else {
        NumericView::Combination { components, scaling_factor, mean, sigma }
    }
}

/// The mean that a value states without arithmetic: every mean but that of a
/// uniform distribution, which is the midpoint of its bounds.
pub open spec fn stated_mean(value: NumericView) -> Option<Float64> {
    match value {
        NumericView::Normal { sigma, mean } => Some(mean),
        NumericView::Exact(point) => Some(point),
        NumericView::Uniform { min, max } => None,
        NumericView::Combination { components, scaling_factor, mean, sigma } => Some(mean),
        NumericView::Error => Some(Float64 { bits: NAN_BITS }),
    }
}

/// The standard deviation that a value states without arithmetic: every one
/// but that of a uniform distribution, which is its width over the square root
/// of twelve.
pub open spec fn stated_sigma(value: NumericView) -> Option<Float64> {
    match value {
        NumericView::Normal { sigma, mean } => Some(sigma),
        NumericView::Exact(point) => Some(Float64 { bits: ZERO_BITS }),
        NumericView::Uniform { min, max } => None,
        NumericView::Combination { components, scaling_factor, mean, sigma } => Some(sigma),
        NumericView::Error => Some(Float64 { bits: NAN_BITS }),
    }
}

/// The density at `x` where the rules fix it without arithmetic: one or zero
/// for a point, zero outside the bounds of a uniform distribution, and NaN for
/// an error.
pub open spec fn stated_density(value: NumericView, x: Float64) -> Option<Float64> {
    match value {
        NumericView::Normal { sigma, mean } => None,
        NumericView::Exact(point) => if point.spec_eq_value(x) {
            Some(Float64 { bits: ONE_BITS })
        } else {
            Some(Float64 { bits: ZERO_BITS })
        },
        NumericView::Uniform { min, max } => if min.spec_le_value(x) && x.spec_le_value(max) {
            None
        } else {
            Some(Float64 { bits: ZERO_BITS })
        },
        NumericView::Combination { components, scaling_factor, mean, sigma } => None,
        NumericView::Error => Some(Float64 { bits: NAN_BITS }),
    }
}

impl Duplicate for NumericFieldValue {
    fn duplicate(&self) -> (r: NumericFieldValue)
        decreases self,
    {
        match self {
            NumericFieldValue::Normal { sigma, mean } => NumericFieldValue::Normal {
                sigma: *sigma,
                mean: *mean,
            },
            NumericFieldValue::Exact(point) => NumericFieldValue::Exact(*point),
            NumericFieldValue::Uniform { min, max } => NumericFieldValue::Uniform {
                min: *min,
                max: *max,
            },
            NumericFieldValue::Combination { components, scaling_factor, mean, sigma } => {
                let mut copies: Vec<NumericFieldValue> = Vec::new();
                let mut i: usize = 0;
                while i < components.len()
                    invariant
                        i <= components.len(),
                        copies.len() == i,
                        *self matches NumericFieldValue::Combination { components: c, .. } && c
                            == components,
                        forall|j: int| 0 <= j < i ==> copies@[j]@ == components@[j]@,
                    decreases components.len() - i,
                {
                    copies.push(components[i].duplicate());
                    i += 1;
                }
                let copy = NumericFieldValue::Combination {
                    components: copies,
                    scaling_factor: *scaling_factor,
                    mean: *mean,
                    sigma: *sigma,
                };
                assert(copy@->components =~= self@->components);
                copy
            },
            NumericFieldValue::Error => NumericFieldValue::Error,
        }
    }
}

impl Clone for NumericFieldValue {
    fn clone(&self) -> (r: NumericFieldValue)
        ensures
            r@ == self@,
    {
        self.duplicate()
    }
}

impl NumericFieldValue {
    /// Decides the merge of `v`, as [`merge_outcome`] states it.
    pub fn merge(v: Vec<Self>) -> (r: NumericMerge)
        ensures
            r@ == merge_outcome(views(v@)),
    {
        let ghost values = views(v@);
        let mut i: usize = 0;
        while i < v.len()
            invariant
                i <= v.len(),
                values == views(v@),
                forall|j: int| 0 <= j < i ==> !(#[trigger] values[j] is Error),
            decreases v.len() - i,
        {
            if let NumericFieldValue::Error = v[i] {
                assert(values[i as int] is Error);
                return NumericMerge::Resolved(NumericFieldValue::Error);
            }
            i += 1;
        }
        let mut first: usize = 0;
        while first < v.len()
            invariant
                first <= v.len(),
                values == views(v@),
                !has_error(values),
                forall|j: int| 0 <= j < first ==> !(#[trigger] values[j] is Exact),
            decreases v.len() - first,
        {
            if let NumericFieldValue::Exact(point) = v[first] {
                assert(is_first_exact(values, first as int));
                assert(first_exact(values) == first) by {
                    let other = first_exact(values);
                    assert(is_first_exact(values, other));
                    if other < first {
                        assert(values[other] is Exact);
                    }
                    if first < other {
                        assert(values[first as int] is Exact);
                    }
                }
                let mut j: usize = first + 1;
                while j < v.len()
                    invariant
                        first < j <= v.len(),
                        values == views(v@),
                        !has_error(values),
                        is_first_exact(values, first as int),
                        first_exact(values) == first,
                        values[first as int] == NumericView::Exact(point),
                        forall|k: int|
                            first < k < j && #[trigger] values[k] is Exact
                                ==> values[k]->Exact_0.spec_eq_value(point),
                    decreases v.len() - j,
                {
                    if let NumericFieldValue::Exact(other) = v[j] {
                        if !other.eq_value(point) {
                            assert(values[j as int] == NumericView::Exact(other));
                            assert(!later_exacts_agree(values, first as int));
                            return NumericMerge::Resolved(NumericFieldValue::Error);
                        }
                    }
                    j += 1;
                }
                return NumericMerge::Resolved(NumericFieldValue::Exact(point));
            }
            first += 1;
        }
        NumericMerge::Combine(v)
    }

    /// Builds the combination of `components` from the integrals of their
    /// product: `area` is the integral of the product itself,
    /// `scaling_factor` its reciprocal, `mean` and `sigma` the moments of the
    /// scaled product. The result is an error where `area` is zero.
    pub fn combination(
        components: Vec<Self>,
        area: Float64,
        scaling_factor: Float64,
        mean: Float64,
        sigma: Float64,
    ) -> (r: Self)
        ensures
            r@ == combination_outcome(views(components@), area, scaling_factor, mean, sigma),
    {
        if area.is_zero() {
            NumericFieldValue::Error
        } else {
            let value = NumericFieldValue::Combination { components, scaling_factor, mean, sigma };
            assert(value@->components =~= views(components@));
            value
        }
    }

    /// The mean, where the value states it: see [`stated_mean`].
    pub fn mean(&self) -> (r: Option<Float64>)
        ensures
            r == stated_mean(self@),
    {
        match self {
            NumericFieldValue::Normal { sigma: _, mean } => Some(*mean),
            NumericFieldValue::Exact(point) => Some(*point),
            NumericFieldValue::Uniform { .. } => None,
            NumericFieldValue::Combination { mean, .. } => Some(*mean),
            NumericFieldValue::Error => Some(Float64::nan()),
        }
    }

    /// The standard deviation, where the value states it: see
    /// [`stated_sigma`].
    pub fn sigma(&self) -> (r: Option<Float64>)
        ensures
            r == stated_sigma(self@),
    {
        match self {
            NumericFieldValue::Normal { sigma, mean: _ } => Some(*sigma),
            NumericFieldValue::Exact(_) => Some(Float64::zero()),
            NumericFieldValue::Uniform { .. } => None,
            NumericFieldValue::Combination { sigma, .. } => Some(*sigma),
            NumericFieldValue::Error => Some(Float64::nan()),
        }
    }

    /// The probability density at `x`, where the rules fix it without
    /// arithmetic: see [`stated_density`].
    pub fn get_value(&self, x: Float64) -> (r: Option<Float64>)
        ensures
            r == stated_density(self@, x),
    {
        match self {
            NumericFieldValue::Normal { .. } => None,
            NumericFieldValue::Exact(point) => {
                if point.eq_value(x) {
                    Some(Float64::one())
                } else {
                    Some(Float64::zero())
                }
            },
            NumericFieldValue::Uniform { min, max } => {
                if min.le_value(x) && x.le_value(*max) {
                    None
                } else {
                    Some(Float64::zero())
                }
            },
            NumericFieldValue::Combination { .. } => None,
            NumericFieldValue::Error => Some(Float64::nan()),
        }
    }
}

impl NumericFieldValue {
    /// The point, where the value is a point.
    pub fn exact(&self) -> (r: Option<Float64>)
        ensures
            r == (match self@ {
                NumericView::Exact(point) => Some(point),
                _ => None,
            }),
    {
        match self {
            NumericFieldValue::Exact(point) => Some(*point),
            _ => None,
        }
    }

    /// The mean of the normal distribution, where the value is one.
    pub fn normal_mean(&self) -> (r: Option<Float64>)
        ensures
            r == (match self@ {
                NumericView::Normal { sigma, mean } => Some(mean),
                _ => None,
            }),
    {
        match self {
            NumericFieldValue::Normal { sigma: _, mean } => Some(*mean),
            _ => None,
        }
    }

    /// The standard deviation of the normal distribution, where the value is
    /// one.
    pub fn normal_sigma(&self) -> (r: Option<Float64>)
        ensures
            r == (match self@ {
                NumericView::Normal { sigma, mean } => Some(sigma),
                _ => None,
            }),
    {
        match self {
            NumericFieldValue::Normal { sigma, mean: _ } => Some(*sigma),
            _ => None,
        }
    }

    /// The lower bound of the uniform distribution, where the value is one.
    pub fn uniform_min(&self) -> (r: Option<Float64>)
        ensures
            r == (match self@ {
                NumericView::Uniform { min, max } => Some(min),
                _ => None,
            }),
    {
        match self {
            NumericFieldValue::Uniform { min, max: _ } => Some(*min),
            _ => None,
        }
    }

    /// The upper bound of the uniform distribution, where the value is one.
    pub fn uniform_max(&self) -> (r: Option<Float64>)
        ensures
            r == (match self@ {
                NumericView::Uniform { min, max } => Some(max),
                _ => None,
            }),
    {
        match self {
            NumericFieldValue::Uniform { min: _, max } => Some(*max),
            _ => None,
        }
    }

    /// The components of the combination, where the value is one.
    pub fn combination_components(&self) -> (r: Option<&Vec<NumericFieldValue>>)
        ensures
            match r {
                Some(components) => self@ is Combination && views(components@)
                    == self@->components,
                None => !(self@ is Combination),
            },
    {
        match self {
            NumericFieldValue::Combination { components, .. } => {
                assert(views(components@) =~= self@->components);
                Some(components)
            },
            _ => None,
        }
    }

    /// The scaling factor of the combination, where the value is one.
    pub fn combination_scaling_factor(&self) -> (r: Option<Float64>)
        ensures
            r == (match self@ {
                NumericView::Combination { components, scaling_factor, mean, sigma } => Some(
                    scaling_factor,
                ),
                _ => None,
            }),
    {
        match self {
            NumericFieldValue::Combination { scaling_factor, .. } => Some(*scaling_factor),
            _ => None,
        }
    }
}

/// Whether two decisions come to the same: both are an error; or both are a
/// point, the same one or two that are equal as numbers; or both ask for a
/// combination, of the same distributions in whatever order.
pub open spec fn same_outcome(left: NumericMergeView, right: NumericMergeView) -> bool {
    match (left, right) {
        (
            NumericMergeView::Resolved(NumericView::Error),
            NumericMergeView::Resolved(NumericView::Error),
        ) => true,
        (
            NumericMergeView::Resolved(NumericView::Exact(p)),
            NumericMergeView::Resolved(NumericView::Exact(q)),
        ) => p == q || p.spec_eq_value(q),
        (NumericMergeView::Combine(p), NumericMergeView::Combine(q)) => p.to_multiset()
            == q.to_multiset(),
        _ => false,
    }
}

/// What a pass over a list has seen of points: none; one; several that are
/// numbers of one rank; or several of which two differ.
enum Points {
    Missing,
    One(Float64),
    Alike(int),
    Differ,
}

/// What a pass over a list has seen of errors and of points.
struct Tally {
    error: bool,
    points: Points,
}

spec fn tally_step(seen: Tally, value: NumericView) -> Tally {
    match value {
        NumericView::Error => Tally { error: true, points: seen.points },
        NumericView::Exact(point) => Tally {
            error: seen.error,
            points: match seen.points {
                Points::Missing => Points::One(point),
                Points::One(other) => if point.spec_eq_value(other) {
                    Points::Alike(other.rank())
                } else {
                    Points::Differ
                },
                Points::Alike(rank) => if !point.spec_is_nan() && point.rank() == rank {
                    Points::Alike(rank)
                } else {
                    Points::Differ
                },
                Points::Differ => Points::Differ,
            },
        },
        _ => seen,
    }
}

spec fn tally(values: Seq<NumericView>) -> Tally {
    values.fold_left(
        Tally { error: false, points: Points::Missing },
        |seen: Tally, value: NumericView| tally_step(seen, value),
    )
}

/// What the tally of a list says of the list.
spec fn tally_describes(values: Seq<NumericView>, seen: Tally) -> bool {
    &&& seen.error <==> has_error(values)
    &&& match seen.points {
        Points::Missing => !has_exact(values),
        Points::One(point) => exists|i: int|
            0 <= i < values.len() && #[trigger] values[i] == NumericView::Exact(point) && forall|
                j: int,
            |
                0 <= j < values.len() && j != i ==> !(#[trigger] values[j] is Exact),
        Points::Alike(rank) => {
            &&& exists|i: int, j: int|
                0 <= i < j < values.len() && #[trigger] values[i] is Exact
                    && #[trigger] values[j] is Exact
            &&& forall|i: int|
                0 <= i < values.len() && #[trigger] values[i] is Exact
                    ==> !values[i]->Exact_0.spec_is_nan() && values[i]->Exact_0.rank() == rank
        },
        Points::Differ => exists|i: int, j: int|
            0 <= i < j < values.len() && #[trigger] values[i] is Exact
                && #[trigger] values[j] is Exact && !values[i]->Exact_0.spec_eq_value(
                values[j]->Exact_0,
            ),
    }
}

proof fn lemma_tally_describes(values: Seq<NumericView>)
    ensures
        tally_describes(values, tally(values)),
    decreases values.len(),
{
    if values.len() > 0 {
        let front = values.drop_last();
        let last = values.last();
        let n = values.len() - 1;
        lemma_tally_describes(front);
        let before = tally(front);
        let after = tally(values);
        assert(after == tally_step(before, last));
        assert forall|i: int| 0 <= i < n implies front[i] == values[i] by {}
        assert(has_error(values) <==> (has_error(front) || last is Error)) by {
            if has_error(front) {
                let i = choose|i: int| 0 <= i < front.len() && #[trigger] front[i] is Error;
                assert(values[i] is Error);
            }
            if last is Error {
                assert(values[n] is Error);
            }
            if has_error(values) {
                let i = choose|i: int| 0 <= i < values.len() && #[trigger] values[i] is Error;
                if i < n {
                    assert(front[i] is Error);
                }
            }
        }
        assert(has_exact(values) <==> (has_exact(front) || last is Exact)) by {
            if has_exact(front) {
                let i = choose|i: int| 0 <= i < front.len() && #[trigger] front[i] is Exact;
                assert(values[i] is Exact);
            }
            if last is Exact {
                assert(values[n] is Exact);
            }
            if has_exact(values) {
                let i = choose|i: int| 0 <= i < values.len() && #[trigger] values[i] is Exact;
                if i < n {
                    assert(front[i] is Exact);
                }
            }
        }
        match before.points {
            Points::Missing => {
                if last is Exact {
                    assert(values[n] == NumericView::Exact(last->Exact_0));
                    assert forall|j: int| 0 <= j < values.len() && j != n implies !(
                    #[trigger] values[j] is Exact) by {
                        assert(front[j] == values[j]);
                    }
                }
            },
            Points::One(point) => {
                let i = choose|i: int|
                    0 <= i < front.len() && #[trigger] front[i] == NumericView::Exact(point)
                        && forall|j: int|
                        0 <= j < front.len() && j != i ==> !(#[trigger] front[j] is Exact);
                assert(values[i] == NumericView::Exact(point));
                if last is Exact {
                    assert(values[i] is Exact && values[n] is Exact);
                    if last->Exact_0.spec_eq_value(point) {
                        assert forall|k: int|
                            0 <= k < values.len() && #[trigger] values[k] is Exact implies {
                            &&& !values[k]->Exact_0.spec_is_nan()
                            &&& values[k]->Exact_0.rank() == point.rank()
                        } by {
                            if k < n && k != i {
                                assert(front[k] == values[k]);
                            }
                        }
                    }
                } else {
                    assert forall|j: int| 0 <= j < values.len() && j != i implies !(
                    #[trigger] values[j] is Exact) by {
                        if j < n {
                            assert(front[j] == values[j]);
                        }
                    }
                }
            },
            Points::Alike(rank) => {
                let (i, j) = choose|i: int, j: int|
                    0 <= i < j < front.len() && #[trigger] front[i] is Exact
                        && #[trigger] front[j] is Exact;
                assert(values[i] is Exact && values[j] is Exact);
                let fits = !last->Exact_0.spec_is_nan() && last->Exact_0.rank() == rank;
                if last is Exact && !fits {
                    assert(values[i] is Exact && values[n] is Exact);
                    assert(front[i] is Exact);
                } else {
                    assert forall|k: int|
                        0 <= k < values.len() && #[trigger] values[k] is Exact implies {
                        &&& !values[k]->Exact_0.spec_is_nan()
                        &&& values[k]->Exact_0.rank() == rank
                    } by {
                        if k < n {
                            assert(front[k] is Exact);
                        }
                    }
                }
            },
            Points::Differ => {
                let (i, j) = choose|i: int, j: int|
                    0 <= i < j < front.len() && #[trigger] front[i] is Exact
                        && #[trigger] front[j] is Exact && !front[i]->Exact_0.spec_eq_value(
                        front[j]->Exact_0,
                    );
                assert(values[i] is Exact && values[j] is Exact);
            },
        }
    }
}

/// Distributions alone are always to be combined: a list without a point and
/// without an error comes to the combination of the list as it stands. Made
/// from the integrals of the product, that combination is an error if the
/// area is zero, and in no other case.
pub proof fn lemma_distributions_are_combined(
    values: Seq<NumericView>,
    area: Float64,
    scaling_factor: Float64,
    mean: Float64,
    sigma: Float64,
)
    requires
        forall|i: int|
            0 <= i < values.len() ==> !(#[trigger] values[i] is Exact) && !(values[i] is Error),
    ensures
        merge_outcome(values) == NumericMergeView::Combine(values),
        combination_outcome(values, area, scaling_factor, mean, sigma) is Error
            <==> area.spec_is_zero(),
        !area.spec_is_zero() ==> combination_outcome(values, area, scaling_factor, mean, sigma)
            == (NumericView::Combination { components: values, scaling_factor, mean, sigma }),
{
}

/// Two points merge to the first of them if they are equal as numbers, and
/// to an error if they are not.
pub proof fn lemma_two_points(first: Float64, second: Float64)
    ensures
        first.spec_eq_value(second) ==> merge_outcome(
            seq![NumericView::Exact(first), NumericView::Exact(second)],
        ) == NumericMergeView::Resolved(NumericView::Exact(first)),
        !first.spec_eq_value(second) ==> merge_outcome(
            seq![NumericView::Exact(first), NumericView::Exact(second)],
        ) == NumericMergeView::Resolved(NumericView::Error),
{
    let values = seq![NumericView::Exact(first), NumericView::Exact(second)];
    assert(values[0] is Exact);
    assert(values[1] == NumericView::Exact(second));
    assert(is_first_exact(values, 0));
    lemma_first_exact(values);
    lemma_eq_value_is_partial_equivalence(first, second, first);
    if !first.spec_eq_value(second) {
        assert(!later_exacts_agree(values, 0));
    }
}

/// Where a list has a point, it has a first one.
pub proof fn lemma_first_exact(values: Seq<NumericView>)
    requires
        has_exact(values),
    ensures
        is_first_exact(values, first_exact(values)),
    decreases values.len(),
{
    let front = values.drop_last();
    let n = values.len() - 1;
    if has_exact(front) {
        lemma_first_exact(front);
        let i = first_exact(front);
        assert(values[i] == front[i]);
        assert forall|j: int| 0 <= j < i implies !(#[trigger] values[j] is Exact) by {
            assert(values[j] == front[j]);
        }
        assert(is_first_exact(values, i));
    } else {
        let i = choose|i: int| 0 <= i < values.len() && #[trigger] values[i] is Exact;
        if i < n {
            assert(front[i] is Exact);
        }
        assert forall|j: int| 0 <= j < n implies !(#[trigger] values[j] is Exact) by {
            assert(values[j] == front[j]);
        }
        assert(is_first_exact(values, n));
    }
}

/// The decision of a merge does not depend on the order of the values.
///
/// For two lists that hold the same values the same number of times, the
/// decisions come to the same: see [`same_outcome`]. The one thing that the
/// order can change is which of several equal points is the result, and two
/// such points differ at most as positive and negative zero do.
pub proof fn lemma_merge_ignores_order(left: Seq<NumericView>, right: Seq<NumericView>)
    requires
        left.to_multiset() == right.to_multiset(),
    ensures
        same_outcome(merge_outcome(left), merge_outcome(right)),
{
    let step = |seen: Tally, value: NumericView| tally_step(seen, value);
    assert(vstd::seq_lib::commutative_foldl(step)) by {
        assert forall|x: NumericView, y: NumericView, seen: Tally| #[trigger]
            step(step(seen, x), y) == step(step(seen, y), x) by {
            if x is Exact && y is Exact {
                lemma_eq_value_is_partial_equivalence(x->Exact_0, y->Exact_0, x->Exact_0);
                lemma_eq_value_is_partial_equivalence(y->Exact_0, x->Exact_0, y->Exact_0);
            }
        }
    }
    vstd::seq_lib::lemma_fold_left_permutation(
        left,
        right,
        step,
        Tally { error: false, points: Points::Missing },
    );
    assert(tally(left) == tally(right));
    lemma_tally_describes(left);
    lemma_tally_describes(right);
    let seen = tally(left);
    if !seen.error && !(seen.points is Missing) {
        lemma_first_exact(left);
        lemma_first_exact(right);
        let a = first_exact(left);
        let b = first_exact(right);
        match seen.points {
            Points::One(point) => {
                assert(later_exacts_agree(left, a));
                assert(later_exacts_agree(right, b));
                assert(left[a] == NumericView::Exact(point));
                assert(right[b] == NumericView::Exact(point));
            },
            Points::Alike(rank) => {
                assert(later_exacts_agree(left, a));
                assert(later_exacts_agree(right, b));
            },
            Points::Differ => {
                lemma_differing_points_disagree(left);
                lemma_differing_points_disagree(right);
            },
            Points::Missing => {},
        }
    }
}

proof fn lemma_differing_points_disagree(values: Seq<NumericView>)
    requires
        tally_describes(values, tally(values)),
        tally(values).points is Differ,
        has_exact(values),
    ensures
        !later_exacts_agree(values, first_exact(values)),
{
    lemma_first_exact(values);
    let first = first_exact(values);
    let (i, j) = choose|i: int, j: int|
        0 <= i < j < values.len() && #[trigger] values[i] is Exact && #[trigger] values[j] is Exact
            && !values[i]->Exact_0.spec_eq_value(values[j]->Exact_0);
    if later_exacts_agree(values, first) {
        assert(first <= i);
        assert(values[j]->Exact_0.spec_eq_value(values[first]->Exact_0));
        if first < i {
            assert(values[i]->Exact_0.spec_eq_value(values[first]->Exact_0));
        }
    }
}

} // verus!
