//! Scoring guards and the search over a grid of model orders.

use vstd::prelude::*;
use vstd::arithmetic::div_mod::lemma_fundamental_div_mod_converse;
use crate::order::ModelOrder;
use crate::scalar::{Scalar, INFINITY_MAGNITUDE};

verus! {

/// A series of `n` points can carry a fit of orders `p` and `q`: it has at
/// least two points, and more points than the two orders together.
pub open spec fn fit_defined(n: int, p: int, q: int) -> bool {
    n >= 2 && n > p + q
}

/// The number of parameters of a model of orders `p` and `q`: the intercept
/// and one coefficient for each term.
pub open spec fn parameter_count(p: int, q: int) -> int {
    1 + p + q
}

/// An information criterion is not computed from this fit, and is reported as
/// positive infinity: there are no points, or the sum of squared residuals is
/// not positive.
pub open spec fn degenerate(n: int, sse: Scalar) -> bool {
    n == 0 || sse.at_most(Scalar { bits: 0 })
}

/// Positive infinity, the score that every search starts from.
pub open spec fn worst_score() -> Scalar {
    Scalar { bits: INFINITY_MAGNITUDE }
}

/// The number of orders in the grid up to `max_p` and `max_q`: every pair but
/// (0, 0).
pub open spec fn grid_len(max_p: int, max_q: int) -> int {
    (max_p + 1) * (max_q + 1) - 1
}

/// The place of the orders `(p, q)` in the grid, which runs through `q` for
/// each `p` in turn and leaves out (0, 0).
pub open spec fn grid_index(max_q: int, p: int, q: int) -> int {
    p * (max_q + 1) + q - 1
}

/// The orders at place `i` of the grid.
pub open spec fn grid_order(max_q: int, i: int) -> ModelOrder {
    ModelOrder { p: ((i + 1) / (max_q + 1)) as usize, q: ((i + 1) % (max_q + 1)) as usize }
}

/// The grid of orders up to `max_p` and `max_q`.
pub open spec fn grid(max_p: int, max_q: int) -> Seq<ModelOrder> {
    Seq::new(grid_len(max_p, max_q) as nat, |i: int| grid_order(max_q, i))
}

/// The score at place `j` beats `than`: there is one, and it is strictly less.
pub open spec fn beats(scores: Seq<Option<Scalar>>, j: int, than: Scalar) -> bool {
    scores[j] matches Some(s) && s.less(than)
}

/// `winner` is what a search over `scores` retains: the first place whose
/// score is below positive infinity and which no other score beats, and
/// nothing where no score is below positive infinity. A missing score and a
/// NaN never win.
pub open spec fn is_winner(scores: Seq<Option<Scalar>>, winner: Option<int>) -> bool {
    match winner {
        None => forall|j: int| 0 <= j < scores.len() ==> !beats(scores, j, worst_score()),
        Some(i) => {
            &&& 0 <= i < scores.len()
            &&& beats(scores, i, worst_score())
            &&& forall|j: int|
                0 <= j < scores.len() ==> !beats(scores, j, #[trigger] scores[i].unwrap())
            &&& forall|j: int| 0 <= j < i ==> !beats(scores, j, worst_score()) || scores[i].unwrap().less(scores[j].unwrap())
        },
    }
}

/// What a search retains is unique.
pub proof fn lemma_winner_unique(scores: Seq<Option<Scalar>>, w1: Option<int>, w2: Option<int>)
    requires
        is_winner(scores, w1),
        is_winner(scores, w2),
    ensures
        w1 == w2,
{
    match (w1, w2) {
        (Some(i1), Some(i2)) => {
            if i1 < i2 {
                assert(!beats(scores, i2, scores[i1].unwrap()));
                assert(!beats(scores, i1, worst_score()) || scores[i2].unwrap().less(
                    scores[i1].unwrap(),
                ));
            } else if i2 < i1 {
                assert(!beats(scores, i1, scores[i2].unwrap()));
                assert(!beats(scores, i2, worst_score()) || scores[i1].unwrap().less(
                    scores[i2].unwrap(),
                ));
            }
        },
        (Some(i1), None) => {
            assert(!beats(scores, i1, worst_score()));
        },
        (None, Some(i2)) => {
            assert(!beats(scores, i2, worst_score()));
        },
        (None, None) => {},
    }
}

/// Every pair of orders within the bounds, but (0, 0), stands in the grid at
/// its place, and the grid holds nothing else.
pub proof fn lemma_grid_holds(max_p: int, max_q: int, p: int, q: int)
    requires
        0 <= p <= max_p,
        0 <= q <= max_q,
        p > 0 || q > 0,
        max_p <= usize::MAX,
        max_q <= usize::MAX,
    ensures
        0 <= grid_index(max_q, p, q) < grid_len(max_p, max_q),
        grid(max_p, max_q)[grid_index(max_q, p, q)] == (ModelOrder { p: p as usize, q: q as usize }),
{
    let w = max_q + 1;
    assert(p * w + q >= 1) by (nonlinear_arith)
        requires
            p >= 0,
            q >= 0,
            w >= 1,
            p > 0 || q > 0,
    ;
    assert(p * w + q < (max_p + 1) * w) by (nonlinear_arith)
        requires
            0 <= p <= max_p,
            0 <= q < w,
    ;
    lemma_fundamental_div_mod_converse(p * w + q, w, p, q);
}

/// Whether a series of `n` points can carry a fit of orders `p` and `q`. Where
/// it cannot, the fit yields no model.
pub fn can_fit(n: usize, p: usize, q: usize) -> (b: bool)
    ensures
        b == fit_defined(n as int, p as int, q as int),
{
    n >= 2 && p < n && q < n - p
}

/// The number of parameters of a model of orders `p` and `q`.
pub fn param_count(p: usize, q: usize) -> (k: usize)
    requires
        parameter_count(p as int, q as int) <= usize::MAX,
    ensures
        k == parameter_count(p as int, q as int),
{
    1 + p + q
}

/// Whether the information criteria of a fit with `n` points and sum of
/// squared residuals `sse` are reported as positive infinity.
pub fn degenerate_fit(n: usize, sse: Scalar) -> (b: bool)
    ensures
        b == degenerate(n as int, sse),
{
    let zero = Scalar::zero();
    n == 0 || sse.le(&zero)
}

/// The grid of orders up to `max_p` and `max_q`, in the order in which a search
/// visits them: for each `p` in turn every `q`, (0, 0) left out.
pub fn grid_orders(max_p: usize, max_q: usize) -> (orders: Vec<ModelOrder>)
    requires
        (max_p + 1) * (max_q + 1) <= usize::MAX,
    ensures
        orders@ == grid(max_p as int, max_q as int),
{
    let ghost want = grid(max_p as int, max_q as int);
    let ghost w = max_q + 1;
    proof {
        assert(max_p + 1 <= (max_p + 1) * (max_q + 1)) by (nonlinear_arith);
        assert(max_q + 1 <= (max_p + 1) * (max_q + 1)) by (nonlinear_arith);
    }
    let mut out: Vec<ModelOrder> = Vec::new();
    let mut p: usize = 0;
    assert(want.take(0) =~= Seq::<ModelOrder>::empty());
    while p <= max_p
        invariant
            p <= max_p + 1,
            max_p < usize::MAX,
            max_q < usize::MAX,
            w == max_q + 1,
            want == grid(max_p as int, max_q as int),
            p == 0 ==> out@.len() == 0,
            p > 0 ==> out@.len() == p * w - 1,
            out@.len() <= want.len(),
            out@ == want.take(out@.len() as int),
        decreases max_p + 1 - p,
    {
        let mut q: usize = 0;
        while q <= max_q
            invariant
                p <= max_p,
                q <= max_q + 1,
                max_p < usize::MAX,
                max_q < usize::MAX,
                w == max_q + 1,
                want == grid(max_p as int, max_q as int),
                (p == 0 && q == 0) ==> out@.len() == 0,
                (p > 0 || q > 0) ==> out@.len() == p * w + q - 1,
                out@.len() <= want.len(),
                out@ == want.take(out@.len() as int),
            decreases max_q + 1 - q,
        {
            proof {
                if p == 0 {
                    assert(p * w == 0) by (nonlinear_arith)
                        requires
                            p == 0,
                    ;
                }
            }
            if !(p == 0 && q == 0) {
                proof {
                    lemma_grid_holds(max_p as int, max_q as int, p as int, q as int);
                    assert(out@.len() == grid_index(max_q as int, p as int, q as int));
                }
                let ghost before = out@;
                out.push(ModelOrder { p, q });
                assert(out@ =~= want.take(before.len() as int + 1));
            }
            q = q + 1;
        }
        proof {
            assert((p + 1) * w - 1 == p * w + (max_q + 1) - 1) by (nonlinear_arith)
                requires
                    w == max_q + 1,
            ;
        }
        p = p + 1;
    }
    proof {
        assert(want.take(want.len() as int) =~= want);
    }
    out
}

/// What a search over `scores` retains: the place of the first score that is
/// strictly lower than positive infinity and than every score before it, and
/// that no later score beats.
pub fn select_best(scores: &[Option<Scalar>]) -> (winner: Option<usize>)
    ensures
        is_winner(
            scores@,
            match winner {
                Some(i) => Some(i as int),
                None => None,
            },
        ),
{
    let mut best: Option<usize> = None;
    let mut best_score = Scalar::infinity();
    let mut i: usize = 0;
    while i < scores.len()
        invariant
            i <= scores.len(),
            !best_score.nan(),
            best is None ==> best_score == worst_score(),
            best matches Some(b) ==> b < i && scores@[b as int] == Some(best_score),
            is_winner(
                scores@.take(i as int),
                match best {
                    Some(b) => Some(b as int),
                    None => None,
                },
            ),
        decreases scores.len() - i,
    {
        let ghost seen = scores@.take(i as int);
        let ghost next = scores@.take(i + 1);
        let ghost old_best = best;
        let ghost old_score = best_score;
        let mut improved = false;
        match scores[i] {
            Some(s) => {
                if s.lt(&best_score) {
                    best_score = s;
                    best = Some(i);
                    improved = true;
                }
            },
            None => {},
        }
        proof {
            assert(next[i as int] == scores@[i as int]);
            if improved {
                let s = scores@[i as int].unwrap();
                assert forall|j: int| 0 <= j < next.len() implies !beats(next, j, s) by {
                    if j < i {
                        match old_best {
                            Some(b) => {
                                assert(!beats(seen, j, seen[b as int].unwrap()));
                            },
                            None => {
                                assert(!beats(seen, j, worst_score()));
                            },
                        }
                    }
                }
                assert forall|j: int| 0 <= j < i implies !beats(next, j, worst_score()) || s.less(
                    next[j].unwrap(),
                ) by {
                    match old_best {
                        Some(b) => {
                            assert(!beats(seen, j, seen[b as int].unwrap()));
                        },
                        None => {
                            assert(!beats(seen, j, worst_score()));
                        },
                    }
                }
            } else {
                match old_best {
                    Some(b) => {
                        assert forall|j: int| 0 <= j < next.len() implies !beats(
                            next,
                            j,
                            next[b as int].unwrap(),
                        ) by {
                            if j < i {
                                assert(!beats(seen, j, seen[b as int].unwrap()));
                            }
                        }
                        assert forall|j: int| 0 <= j < b implies !beats(next, j, worst_score())
                            || next[b as int].unwrap().less(next[j].unwrap()) by {
                            assert(!beats(seen, j, worst_score()) || seen[b as int].unwrap().less(
                                seen[j].unwrap(),
                            ));
                        }
                    },
                    None => {
                        assert forall|j: int| 0 <= j < next.len() implies !beats(
                            next,
                            j,
                            worst_score(),
                        ) by {
                            if j < i {
                                assert(!beats(seen, j, worst_score()));
                            }
                        }
                    },
                }
            }
        }
        i = i + 1;
    }
    assert(scores@.take(scores.len() as int) =~= scores@);
    best
}

/// The orders that a grid search retains, from the BIC of the fit at each
/// place of the grid, a place without a model having none: the first orders
/// with a BIC strictly lower than positive infinity and than every BIC before.
pub fn auto_arma(max_p: usize, max_q: usize, bics: &[Option<Scalar>]) -> (best: Option<ModelOrder>)
    requires
        (max_p + 1) * (max_q + 1) <= usize::MAX,
        bics.len() == grid_len(max_p as int, max_q as int),
    ensures
        best is None ==> is_winner(bics@, None),
        best matches Some(o) ==> {
            &&& o.p <= max_p
            &&& o.q <= max_q
            &&& o.p > 0 || o.q > 0
            &&& is_winner(bics@, Some(grid_index(max_q as int, o.p as int, o.q as int)))
        },
{
    let orders = grid_orders(max_p, max_q);
    match select_best(bics) {
        None => None,
        Some(i) => {
            let o = orders[i];
            proof {
                lemma_grid_place(max_p as int, max_q as int, i as int);
            }
            Some(o)
        },
    }
}

/// The orders at a place of the grid lie within the bounds, are not (0, 0),
/// and have that place.
pub proof fn lemma_grid_place(max_p: int, max_q: int, i: int)
    requires
        0 <= max_p,
        0 <= max_q,
        (max_p + 1) * (max_q + 1) <= usize::MAX,
        0 <= i < grid_len(max_p, max_q),
    ensures
        grid_order(max_q, i).p <= max_p,
        grid_order(max_q, i).q <= max_q,
        grid_order(max_q, i).p > 0 || grid_order(max_q, i).q > 0,
        grid_index(max_q, grid_order(max_q, i).p as int, grid_order(max_q, i).q as int) == i,
{
    let w = max_q + 1;
    let x = i + 1;
    let p = x / w;
    let q = x % w;
    assert(x == w * p + q && 0 <= q < w) by {
        vstd::arithmetic::div_mod::lemma_fundamental_div_mod(x, w);
    }
    assert(p >= 0) by (nonlinear_arith)
        requires
            x == w * p + q,
            0 <= q < w,
            x >= 1,
            w >= 1,
    ;
    assert(p <= max_p) by (nonlinear_arith)
        requires
            x == w * p + q,
            0 <= q < w,
            x < (max_p + 1) * w,
            w >= 1,
    ;
    if p == 0 {
        assert(w * p == 0) by (nonlinear_arith)
            requires
                p == 0,
        ;
    }
    assert(p * w + q - 1 == i) by (nonlinear_arith)
        requires
            x == w * p + q,
            x == i + 1,
    ;
}

} // verus!
