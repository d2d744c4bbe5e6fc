//! The decisions of a downhill simplex search.
//!
//! The search keeps one more vertex than the objective has dimensions. In each
//! round it orders the vertices by their objective values, reflects the worst
//! through the centroid of the others, and by the value at the reflected point
//! decides what replaces the worst. The caller holds the vertices and
//! evaluates the objective; what is decided from the values is decided here.

use vstd::prelude::*;
use crate::scalar::Scalar;

verus! {

/// The number of rounds after which the search for model parameters stops.
pub const MAX_ITERATIONS: usize = 800;

/// The gap between the best and the worst value below which a search stops:
/// the pattern of 1e-7.
pub const TOLERANCE_BITS: u64 = 0x3E7A_D7F2_9ABC_AF48;

/// The magnitude up to which a coordinate counts as near zero: the pattern of
/// 1e-6.
pub const NEAR_ZERO_BITS: u64 = 0x3EB0_C6F7_A0B5_ED8D;

/// How a coordinate of the starting point is moved to make a further vertex.
#[derive(Clone, Copy, Debug, PartialEq, Eq, Structural)]
pub enum Perturbation {
    /// Multiply the coordinate by 1.05.
    Scale,
    /// Set the coordinate to 0.001.
    Nudge,
}

/// What follows the evaluation of the reflected point.
#[derive(Clone, Copy, Debug, PartialEq, Eq, Structural)]
pub enum Move {
    /// Better than the best vertex: try the point twice as far out.
    Expand,
    /// Better than the second worst vertex: it replaces the worst.
    AcceptReflection,
    /// Better than the worst vertex only: contract towards the reflected point.
    ContractOutside,
    /// No better than the worst vertex: contract towards the worst vertex.
    ContractInside,
}

/// Which point replaces the worst vertex after an expansion.
#[derive(Clone, Copy, Debug, PartialEq, Eq, Structural)]
pub enum Expansion {
    /// The expanded point, which is better than the reflected one.
    KeepExpanded,
    /// The reflected point.
    KeepReflected,
}

/// What follows the evaluation of the contracted point.
#[derive(Clone, Copy, Debug, PartialEq, Eq, Structural)]
pub enum Contraction {
    /// Better than the worst vertex: it replaces the worst.
    Accept,
    /// Else every vertex but the best moves halfway towards the best.
    Shrink,
}

/// Vertex `a` comes before vertex `b`: its value is lower, or the values are
/// equal and it came first.
pub open spec fn comes_before(values: Seq<Scalar>, a: int, b: int) -> bool {
    values[a].code() < values[b].code() || (values[a].code() == values[b].code() && a < b)
}

/// `order` lists the vertices from best to worst, vertices of equal value in
/// the order in which they stood. Being strictly ascending, it names each
/// vertex once.
pub open spec fn is_stable_order(values: Seq<Scalar>, order: Seq<usize>) -> bool {
    &&& order.len() == values.len()
    &&& forall|k: int| 0 <= k < order.len() ==> #[trigger] order[k] < values.len()
    &&& forall|k1: int, k2: int|
        0 <= k1 < k2 < order.len() ==> comes_before(
            values,
            #[trigger] order[k1] as int,
            #[trigger] order[k2] as int,
        )
}

/// No value is NaN.
pub open spec fn all_ordered(values: Seq<Scalar>) -> bool {
    forall|i: int| 0 <= i < values.len() ==> !(#[trigger] values[i]).nan()
}

/// The move that follows a reflected value `fr`, against the values of the
/// best, the second worst and the worst vertex.
pub open spec fn reflection_move(
    fr: Scalar,
    best: Scalar,
    second_worst: Scalar,
    worst: Scalar,
) -> Move {
    if fr.less(best) {
        Move::Expand
    } else if fr.less(second_worst) {
        Move::AcceptReflection
    } else if fr.less(worst) {
        Move::ContractOutside
    } else {
        Move::ContractInside
    }
}

/// A stable order lists every vertex.
pub proof fn lemma_order_lists_all(values: Seq<Scalar>, order: Seq<usize>, v: int)
    requires
        is_stable_order(values, order),
        0 <= v < values.len(),
    ensures
        exists|k: int| 0 <= k < order.len() && order[k] == v,
{
    let n = values.len() as int;
    lemma_prefix_image(values, order, n);
    let image = prefix_image(order, n);
    vstd::set_lib::lemma_int_range(0, n);
    vstd::set_lib::lemma_subset_equality(image, vstd::set_lib::set_int_range(0, n));
    assert(image.contains(v));
}

/// The vertices named at the first `k` places of an order.
pub open spec fn prefix_image(order: Seq<usize>, k: int) -> Set<int> {
    Set::new(|x: int| exists|j: int| 0 <= j < k && order[j] == x)
}

proof fn lemma_prefix_image(values: Seq<Scalar>, order: Seq<usize>, k: int)
    requires
        is_stable_order(values, order),
        0 <= k <= order.len(),
    ensures
        prefix_image(order, k).finite(),
        prefix_image(order, k).len() == k,
        prefix_image(order, k).subset_of(vstd::set_lib::set_int_range(0, values.len() as int)),
    decreases k,
{
    if k == 0 {
        assert(prefix_image(order, 0) =~= Set::<int>::empty());
    } else {
        lemma_prefix_image(values, order, k - 1);
        let prev = prefix_image(order, k - 1);
        let x = order[k - 1] as int;
        assert(!prev.contains(x)) by {
            if prev.contains(x) {
                let j = choose|j: int| 0 <= j < k - 1 && order[j] == x;
                assert(comes_before(values, order[j] as int, order[k - 1] as int));
            }
        }
        assert(prefix_image(order, k) =~= prev.insert(x)) by {
            assert forall|y: int| prefix_image(order, k).contains(y) implies prev.insert(
                x,
            ).contains(y) by {
                let j = choose|j: int| 0 <= j < k && order[j] == y;
                if j < k - 1 {
                    assert(prev.contains(y));
                }
            }
            assert forall|y: int| prev.insert(x).contains(y) implies prefix_image(
                order,
                k,
            ).contains(y) by {
                if y == x {
                    assert(order[k - 1] == y);
                } else {
                    let j = choose|j: int| 0 <= j < k - 1 && order[j] == y;
                    assert(0 <= j < k && order[j] == y);
                }
            }
        }
    }
}

/// The stable order of a series of values is unique.
pub proof fn lemma_stable_order_unique(values: Seq<Scalar>, o1: Seq<usize>, o2: Seq<usize>)
    requires
        is_stable_order(values, o1),
        is_stable_order(values, o2),
    ensures
        o1 == o2,
{
    assert forall|k: int| 0 <= k < o1.len() implies o1[k] == o2[k] by {
        lemma_same_place(values, o1, o2, k);
    }
    assert(o1 =~= o2);
}

/// How many vertices come before vertex `v` among the first `upto` vertices.
pub open spec fn rank_below(values: Seq<Scalar>, v: int, upto: int) -> int
    decreases upto,
{
    if upto <= 0 {
        0
    } else {
        rank_below(values, v, upto - 1) + if comes_before(values, upto - 1, v) {
            1int
        } else {
            0int
        }
    }
}

/// Among the vertices named at the first `k` places of a stable order, how
/// many come before `v` and stand below `upto`.
spec fn listed_before(values: Seq<Scalar>, order: Seq<usize>, v: int, k: int, upto: int) -> int
    decreases upto,
{
    if upto <= 0 {
        0
    } else {
        listed_before(values, order, v, k, upto - 1) + if comes_before(values, upto - 1, v)
            && prefix_image(order, k).contains(upto - 1) {
            1int
        } else {
            0int
        }
    }
}

proof fn lemma_listed_before_step(
    values: Seq<Scalar>,
    order: Seq<usize>,
    v: int,
    k: int,
    upto: int,
)
    requires
        is_stable_order(values, order),
        0 <= k < order.len(),
        0 <= upto <= values.len(),
        0 <= v < values.len(),
    ensures
        listed_before(values, order, v, k + 1, upto) == listed_before(values, order, v, k, upto)
            + if order[k] < upto && comes_before(values, order[k] as int, v) {
            1int
        } else {
            0int
        },
    decreases upto,
{
    if upto > 0 {
        lemma_listed_before_step(values, order, v, k, upto - 1);
        let x = upto - 1;
        if prefix_image(order, k).contains(x) {
            let j = choose|j: int| 0 <= j < k && order[j] == x;
            assert(0 <= j < k + 1 && order[j] == x);
            assert(comes_before(values, order[j] as int, order[k] as int));
        } else if order[k] == x {
            assert(0 <= k < k + 1 && order[k] == x);
        } else {
            if prefix_image(order, k + 1).contains(x) {
                let j = choose|j: int| 0 <= j < k + 1 && order[j] == x;
                assert(j < k);
                assert(prefix_image(order, k).contains(x));
            }
        }
    }
}

proof fn lemma_listed_before_none(values: Seq<Scalar>, order: Seq<usize>, v: int, upto: int)
    ensures
        listed_before(values, order, v, 0, upto) == 0,
    decreases upto,
{
    if upto > 0 {
        lemma_listed_before_none(values, order, v, upto - 1);
    }
}

proof fn lemma_listed_before_all(values: Seq<Scalar>, order: Seq<usize>, v: int, upto: int)
    requires
        is_stable_order(values, order),
        0 <= upto <= values.len(),
    ensures
        listed_before(values, order, v, order.len() as int, upto) == rank_below(values, v, upto),
    decreases upto,
{
    if upto > 0 {
        lemma_listed_before_all(values, order, v, upto - 1);
        lemma_order_lists_all(values, order, upto - 1);
    }
}

/// The vertex at place `k` of a stable order has exactly `k` vertices before it.
proof fn lemma_place_is_rank(values: Seq<Scalar>, order: Seq<usize>, k: int)
    requires
        is_stable_order(values, order),
        0 <= k < order.len(),
    ensures
        rank_below(values, order[k] as int, values.len() as int) == k,
{
    let v = order[k] as int;
    let n = values.len() as int;
    lemma_listed_before_all(values, order, v, n);
    lemma_listed_prefix(values, order, v, k, order.len() as int);
}

proof fn lemma_listed_prefix(values: Seq<Scalar>, order: Seq<usize>, v: int, at: int, k: int)
    requires
        is_stable_order(values, order),
        0 <= at < order.len(),
        v == order[at],
        0 <= k <= order.len(),
    ensures
        listed_before(values, order, v, k, values.len() as int) == if k <= at {
            k
        } else {
            at
        },
    decreases k,
{
    let n = values.len() as int;
    if k == 0 {
        lemma_listed_before_none(values, order, v, n);
    } else {
        lemma_listed_prefix(values, order, v, at, k - 1);
        lemma_listed_before_step(values, order, v, k - 1, n);
        if k - 1 < at {
            assert(comes_before(values, order[k - 1] as int, order[at] as int));
        } else if k - 1 > at {
            assert(comes_before(values, order[at] as int, order[k - 1] as int));
        }
    }
}

proof fn lemma_same_place(values: Seq<Scalar>, o1: Seq<usize>, o2: Seq<usize>, k: int)
    requires
        is_stable_order(values, o1),
        is_stable_order(values, o2),
        0 <= k < o1.len(),
    ensures
        o1[k] == o2[k],
{
    let a = o1[k] as int;
    let b = o2[k] as int;
    lemma_place_is_rank(values, o1, k);
    lemma_place_is_rank(values, o2, k);
    if a != b {
        lemma_order_lists_all(values, o2, a);
        let j = choose|j: int| 0 <= j < o2.len() && o2[j] == a;
        lemma_place_is_rank(values, o2, j);
    }
}

/// How the coordinate `x` of a starting point is moved to make a further
/// vertex: scaled where its magnitude is above 1e-6, else set to a small value.
pub fn perturbation(x: Scalar) -> (how: Perturbation)
    ensures
        how == if (Scalar { bits: NEAR_ZERO_BITS }).less(x.magnitude_scalar()) {
            Perturbation::Scale
        } else {
            Perturbation::Nudge
        },
{
    let near_zero = Scalar::from_bits(NEAR_ZERO_BITS);
    if x.abs().gt(&near_zero) {
        Perturbation::Scale
    } else {
        Perturbation::Nudge
    }
}

/// The order of the vertices from best to worst by their objective values,
/// vertices of equal value staying in the order in which they stand.
pub fn sort_order(values: &[Scalar]) -> (order: Vec<usize>)
    requires
        all_ordered(values@),
    ensures
        is_stable_order(values@, order@),
{
    let n = values.len();
    let mut order: Vec<usize> = Vec::with_capacity(n);
    let mut i: usize = 0;
    while i < n
        invariant
            i <= n,
            n == values.len(),
            all_ordered(values@),
            order@.len() == i,
            forall|k: int| 0 <= k < i ==> #[trigger] order@[k] < i,
            forall|k1: int, k2: int|
                0 <= k1 < k2 < i ==> comes_before(
                    values@,
                    #[trigger] order@[k1] as int,
                    #[trigger] order@[k2] as int,
                ),
        decreases n - i,
    {
        order.push(i);
        let mut j: usize = i;
        while j > 0 && values[i].lt(&values[order[j - 1]])
            invariant
                j <= i < n,
                n == values.len(),
                all_ordered(values@),
                order@.len() == i + 1,
                order@[j as int] == i,
                forall|k: int| 0 <= k <= i && k != j ==> #[trigger] order@[k] < i,
                forall|k1: int, k2: int|
                    0 <= k1 < k2 <= i && k1 != j && k2 != j ==> comes_before(
                        values@,
                        #[trigger] order@[k1] as int,
                        #[trigger] order@[k2] as int,
                    ),
                forall|k: int|
                    j < k <= i ==> comes_before(values@, i as int, #[trigger] order@[k] as int),
            decreases j,
        {
            let ghost before = order@;
            let prev = order[j - 1];
            order.set(j, prev);
            order.set(j - 1, i);
            proof {
                assert forall|k1: int, k2: int|
                    0 <= k1 < k2 <= i && k1 != j - 1 && k2 != j - 1 implies comes_before(
                    values@,
                    #[trigger] order@[k1] as int,
                    #[trigger] order@[k2] as int,
                ) by {
                    if k1 == j {
                        assert(order@[k1] == before[j - 1]);
                        assert(order@[k2] == before[k2]);
                        assert(comes_before(values@, before[j - 1] as int, before[k2] as int));
                    } else if k2 == j {
                        assert(order@[k2] == before[j - 1]);
                        assert(order@[k1] == before[k1]);
                        assert(comes_before(values@, before[k1] as int, before[j - 1] as int));
                    } else {
                        assert(order@[k1] == before[k1]);
                        assert(order@[k2] == before[k2]);
                        assert(comes_before(values@, before[k1] as int, before[k2] as int));
                    }
                }
                assert forall|k: int| j - 1 < k <= i implies comes_before(
                    values@,
                    i as int,
                    #[trigger] order@[k] as int,
                ) by {
                    if k == j {
                        assert(order@[k] == prev);
                    } else {
                        assert(order@[k] == before[k]);
                    }
                }
                assert forall|k: int| 0 <= k <= i && k != j - 1 implies #[trigger] order@[k]
                    < i by {
                    if k == j {
                        assert(order@[k] == before[j - 1]);
                    } else {
                        assert(order@[k] == before[k]);
                    }
                }
            }
            j = j - 1;
        }
        proof {
            assert forall|k1: int, k2: int| 0 <= k1 < k2 < i + 1 implies comes_before(
                values@,
                #[trigger] order@[k1] as int,
                #[trigger] order@[k2] as int,
            ) by {
                if k2 == j {
                    let last = order@[j - 1];
                    assert(!values@[i as int].less(values@[last as int]));
                    assert(comes_before(values@, last as int, i as int));
                    if k1 < j - 1 {
                        assert(comes_before(values@, order@[k1] as int, order@[j - 1] as int));
                    }
                } else if k1 == j {
                    assert(comes_before(values@, i as int, order@[k2] as int));
                }
            }
            assert forall|k: int| 0 <= k < i + 1 implies #[trigger] order@[k] < i + 1 by {
                if k != j {
                    assert(order@[k] < i);
                }
            }
        }
        i = i + 1;
    }
    order
}

/// What follows a reflected value `fr`, given the values of the vertices from
/// best to worst.
pub fn after_reflection(sorted: &[Scalar], fr: Scalar) -> (m: Move)
    requires
        sorted.len() >= 2,
    ensures
        m == reflection_move(
            fr,
            sorted@[0],
            sorted@[sorted.len() - 2],
            sorted@[sorted.len() - 1],
        ),
{
    let n = sorted.len() - 1;
    if fr.lt(&sorted[0]) {
        Move::Expand
    } else if fr.lt(&sorted[n - 1]) {
        Move::AcceptReflection
    } else if fr.lt(&sorted[n]) {
        Move::ContractOutside
    } else {
        Move::ContractInside
    }
}

/// Which point replaces the worst vertex after an expansion: the expanded one
/// where its value `fe` is below the reflected value `fr`.
pub fn after_expansion(fe: Scalar, fr: Scalar) -> (e: Expansion)
    ensures
        e == if fe.less(fr) {
            Expansion::KeepExpanded
        } else {
            Expansion::KeepReflected
        },
{
    if fe.lt(&fr) {
        Expansion::KeepExpanded
    } else {
        Expansion::KeepReflected
    }
}

/// What follows a contracted value `fc`: the point replaces the worst vertex
/// where it is better, else the simplex shrinks.
pub fn after_contraction(fc: Scalar, worst: Scalar) -> (c: Contraction)
    ensures
        c == if fc.less(worst) {
            Contraction::Accept
        } else {
            Contraction::Shrink
        },
{
    if fc.lt(&worst) {
        Contraction::Accept
    } else {
        Contraction::Shrink
    }
}

} // verus!
