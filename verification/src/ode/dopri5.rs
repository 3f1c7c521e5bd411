//! Verified core of the Dormand-Prince 5(4) integrator.

use vstd::prelude::*;

use super::Error;
use super::InputError;

verus! {

// ---------------------------------------------------------------------------
// Butcher tableau
// ---------------------------------------------------------------------------
//
// Every Dormand-Prince 5(4) coefficient is an exact rational, so the tableau
// is kept here as integer numerator/denominator pairs and its defining
// identities are proved with exact arithmetic.  Callers that need machine
// scalars divide numerator by denominator themselves; both components of
// every pair are exactly representable there, so that quotient is the
// correctly rounded value of the true coefficient.

/// Stage-coupling coefficient `A[i][j]` (row `i` builds the evaluation point
/// of stage `i + 2`), as a numerator/denominator pair.  Entries on or above
/// the diagonal are zero: each stage depends only on earlier stages.
pub open spec fn a_coef(i: int, j: int) -> (int, int) {
    if !(0 <= i < 6 && 0 <= j <= i) {
        (0, 1)
    } else if i == 0 {
        (1, 5)
    } else if i == 1 {
        if j == 0 {
            (3, 40)
        } else {
            (9, 40)
        }
    } else if i == 2 {
        if j == 0 {
            (44, 45)
        } else if j == 1 {
            (-56, 15)
        } else {
            (32, 9)
        }
    } else if i == 3 {
        if j == 0 {
            (19372, 6561)
        } else if j == 1 {
            (-25360, 2187)
        } else if j == 2 {
            (64448, 6561)
        } else {
            (-212, 729)
        }
    } else if i == 4 {
        if j == 0 {
            (9017, 3168)
        } else if j == 1 {
            (-355, 33)
        } else if j == 2 {
            (46732, 5247)
        } else if j == 3 {
            (49, 176)
        } else {
            (-5103, 18656)
        }
    } else {
        if j == 0 {
            (35, 384)
        } else if j == 1 {
            (0, 1)
        } else if j == 2 {
            (500, 1113)
        } else if j == 3 {
            (125, 192)
        } else if j == 4 {
            (-2187, 6784)
        } else {
            (11, 84)
        }
    }
}

/// Node fraction `c[i]`: stage `i + 1` is evaluated at `t + c[i] * h`.
pub open spec fn c_coef(i: int) -> (int, int) {
    if i == 1 {
        (1, 5)
    } else if i == 2 {
        (3, 10)
    } else if i == 3 {
        (4, 5)
    } else if i == 4 {
        (8, 9)
    } else if i == 5 || i == 6 {
        (1, 1)
    } else {
        (0, 1)
    }
}

/// Weight `B[row][j]` of stage derivative `j + 1`.  Row 0 forms the
/// fifth-order solution, row 1 the embedded fourth-order solution whose only
/// use is the error estimate.
pub open spec fn b_coef(row: int, j: int) -> (int, int) {
    if row == 0 {
        if j == 0 {
            (35, 384)
        } else if j == 1 {
            (0, 1)
        } else if j == 2 {
            (500, 1113)
        } else if j == 3 {
            (125, 192)
        } else if j == 4 {
            (-2187, 6784)
        } else if j == 5 {
            (11, 84)
        } else {
            (0, 1)
        }
    } else {
        if j == 0 {
            (5179, 57600)
        } else if j == 1 {
            (0, 1)
        } else if j == 2 {
            (7571, 16695)
        } else if j == 3 {
            (393, 640)
        } else if j == 4 {
            (-92097, 339200)
        } else if j == 5 {
            (187, 2100)
        } else if j == 6 {
            (1, 40)
        } else {
            (0, 1)
        }
    }
}

/// Stage-coupling coefficient `A[i][j]` for machine use.
pub fn coupling_coef(i: usize, j: usize) -> (r: (i64, i64))
    requires
        i < 6,
        j < 6,
    ensures
        r.0 == a_coef(i as int, j as int).0,
        r.1 == a_coef(i as int, j as int).1,
        r.1 > 0,
{
    if j > i {
        (0, 1)
    } else if i == 0 {
        (1, 5)
    } else if i == 1 {
        if j == 0 {
            (3, 40)
        } else {
            (9, 40)
        }
    } else if i == 2 {
        if j == 0 {
            (44, 45)
        } else if j == 1 {
            (-56, 15)
        } else {
            (32, 9)
        }
    } else if i == 3 {
        if j == 0 {
            (19372, 6561)
        } else if j == 1 {
            (-25360, 2187)
        } else if j == 2 {
            (64448, 6561)
        } else {
            (-212, 729)
        }
    } else if i == 4 {
        if j == 0 {
            (9017, 3168)
        } else if j == 1 {
            (-355, 33)
        } else if j == 2 {
            (46732, 5247)
        } else if j == 3 {
            (49, 176)
        } else {
            (-5103, 18656)
        }
    } else {
        if j == 0 {
            (35, 384)
        } else if j == 1 {
            (0, 1)
        } else if j == 2 {
            (500, 1113)
        } else if j == 3 {
            (125, 192)
        } else if j == 4 {
            (-2187, 6784)
        } else {
            (11, 84)
        }
    }
}

/// Node fraction `c[i]` for machine use.
pub fn node_coef(i: usize) -> (r: (i64, i64))
    requires
        i < 7,
    ensures
        r.0 == c_coef(i as int).0,
        r.1 == c_coef(i as int).1,
        r.1 > 0,
{
    if i == 1 {
        (1, 5)
    } else if i == 2 {
        (3, 10)
    } else if i == 3 {
        (4, 5)
    } else if i == 4 {
        (8, 9)
    } else if i == 5 || i == 6 {
        (1, 1)
    } else {
        (0, 1)
    }
}

/// Weight `B[row][j]` for machine use.
pub fn weight_coef(row: usize, j: usize) -> (r: (i64, i64))
    requires
        row < 2,
        j < 7,
    ensures
        r.0 == b_coef(row as int, j as int).0,
        r.1 == b_coef(row as int, j as int).1,
        r.1 > 0,
{
    if row == 0 {
        if j == 0 {
            (35, 384)
        } else if j == 1 {
            (0, 1)
        } else if j == 2 {
            (500, 1113)
        } else if j == 3 {
            (125, 192)
        } else if j == 4 {
            (-2187, 6784)
        } else if j == 5 {
            (11, 84)
        } else {
            (0, 1)
        }
    } else {
        if j == 0 {
            (5179, 57600)
        } else if j == 1 {
            (0, 1)
        } else if j == 2 {
            (7571, 16695)
        } else if j == 3 {
            (393, 640)
        } else if j == 4 {
            (-92097, 339200)
        } else if j == 5 {
            (187, 2100)
        } else {
            (1, 40)
        }
    }
}

// ---------------------------------------------------------------------------
// Tableau identities
// ---------------------------------------------------------------------------

/// Exact equality of two rationals given as numerator/denominator pairs.
pub open spec fn frac_eq(x: (int, int), y: (int, int)) -> bool {
    x.0 * y.1 == y.0 * x.1
}

/// Exact sum of two rationals.
pub open spec fn frac_plus(x: (int, int), y: (int, int)) -> (int, int) {
    (x.0 * y.1 + y.0 * x.1, x.1 * y.1)
}

/// Exact product of two rationals.
pub open spec fn frac_times(x: (int, int), y: (int, int)) -> (int, int) {
    (x.0 * y.0, x.1 * y.1)
}

/// Exact sum of the first `n` coupling coefficients of row `i`.
pub open spec fn a_row_sum(i: int, n: int) -> (int, int)
    decreases n,
{
    if n <= 0 {
        (0, 1)
    } else {
        frac_plus(a_row_sum(i, n - 1), a_coef(i, n - 1))
    }
}

/// Exact sum of the first `n` weights of row `row`.
pub open spec fn b_row_sum(row: int, n: int) -> (int, int)
    decreases n,
{
    if n <= 0 {
        (0, 1)
    } else {
        frac_plus(b_row_sum(row, n - 1), b_coef(row, n - 1))
    }
}

/// Exact weighted sum of the first `n` node fractions under weight row `row`.
pub open spec fn b_dot_c(row: int, n: int) -> (int, int)
    decreases n,
{
    if n <= 0 {
        (0, 1)
    } else {
        frac_plus(b_dot_c(row, n - 1), frac_times(b_coef(row, n - 1), c_coef(n - 1)))
    }
}

/// Every tableau denominator is positive, so each pair denotes a rational.
pub proof fn lemma_denominators_positive()
    ensures
        forall|i: int, j: int| #[trigger] a_coef(i, j).1 > 0,
        forall|i: int| #[trigger] c_coef(i).1 > 0,
        forall|row: int, j: int| #[trigger] b_coef(row, j).1 > 0,
{
}

/// The coupling matrix is strictly lower triangular: the evaluation point of
/// each stage is built from derivatives of strictly earlier stages only.
/// Moreover the weight of the second stage derivative is exactly zero in the
/// last coupling row and in both embedded weight rows, which is why the
/// candidate states are combined without a second-stage term.
pub proof fn lemma_lower_triangular()
    ensures
        forall|i: int, j: int| j > i ==> #[trigger] a_coef(i, j).0 == 0,
        a_coef(5, 1).0 == 0,
        b_coef(0, 1).0 == 0,
        b_coef(1, 1).0 == 0,
{
}

/// First-same-as-last: the fifth-order weights coincide with the last
/// coupling row extended by a zero weight, and the last two node fractions
/// both equal one.  Hence the seventh stage derivative of an accepted step is
/// evaluated exactly where the first stage derivative of the next step is
/// needed, and may be reused there.
pub proof fn lemma_first_same_as_last()
    ensures
        forall|j: int| 0 <= j < 6 ==> #[trigger] b_coef(0, j) == a_coef(5, j),
        b_coef(0, 6) == (0int, 1int),
        c_coef(6) == (1int, 1int),
        c_coef(5) == c_coef(6),
{
}

#[verifier::spinoff_prover]
proof fn lemma_a_row_0()
    ensures
        frac_eq(a_row_sum(0, 6), c_coef(1)),
{
    reveal_with_fuel(a_row_sum, 2);
    assert(a_row_sum(0, 1) == (1int, 5int)) by {
        assert(a_row_sum(0, 1) == frac_plus((0int, 1int), (1int, 5int)));
        assert(frac_plus((0int, 1int), (1int, 5int)) == (1int, 5int)) by (nonlinear_arith);
    }
    assert(a_row_sum(0, 2) == (1int, 5int)) by {
        assert(a_row_sum(0, 2) == frac_plus((1int, 5int), (0int, 1int)));
        assert(frac_plus((1int, 5int), (0int, 1int)) == (1int, 5int)) by (nonlinear_arith);
    }
    assert(a_row_sum(0, 3) == (1int, 5int)) by {
        assert(a_row_sum(0, 3) == frac_plus((1int, 5int), (0int, 1int)));
        assert(frac_plus((1int, 5int), (0int, 1int)) == (1int, 5int)) by (nonlinear_arith);
    }
    assert(a_row_sum(0, 4) == (1int, 5int)) by {
        assert(a_row_sum(0, 4) == frac_plus((1int, 5int), (0int, 1int)));
        assert(frac_plus((1int, 5int), (0int, 1int)) == (1int, 5int)) by (nonlinear_arith);
    }
    assert(a_row_sum(0, 5) == (1int, 5int)) by {
        assert(a_row_sum(0, 5) == frac_plus((1int, 5int), (0int, 1int)));
        assert(frac_plus((1int, 5int), (0int, 1int)) == (1int, 5int)) by (nonlinear_arith);
    }
    assert(a_row_sum(0, 6) == (1int, 5int)) by {
        assert(a_row_sum(0, 6) == frac_plus((1int, 5int), (0int, 1int)));
        assert(frac_plus((1int, 5int), (0int, 1int)) == (1int, 5int)) by (nonlinear_arith);
    }
    assert(frac_eq((1int, 5int), (1int, 5int))) by (nonlinear_arith);
}

#[verifier::spinoff_prover]
proof fn lemma_a_row_1()
    ensures
        frac_eq(a_row_sum(1, 6), c_coef(2)),
{
    reveal_with_fuel(a_row_sum, 2);
    assert(a_row_sum(1, 1) == (3int, 40int)) by {
        assert(a_row_sum(1, 1) == frac_plus((0int, 1int), (3int, 40int)));
        assert(frac_plus((0int, 1int), (3int, 40int)) == (3int, 40int)) by (nonlinear_arith);
    }
    assert(a_row_sum(1, 2) == (480int, 1600int)) by {
        assert(a_row_sum(1, 2) == frac_plus((3int, 40int), (9int, 40int)));
        assert(frac_plus((3int, 40int), (9int, 40int)) == (480int, 1600int)) by (nonlinear_arith);
    }
    assert(a_row_sum(1, 3) == (480int, 1600int)) by {
        assert(a_row_sum(1, 3) == frac_plus((480int, 1600int), (0int, 1int)));
        assert(frac_plus((480int, 1600int), (0int, 1int)) == (480int, 1600int)) by (nonlinear_arith);
    }
    assert(a_row_sum(1, 4) == (480int, 1600int)) by {
        assert(a_row_sum(1, 4) == frac_plus((480int, 1600int), (0int, 1int)));
        assert(frac_plus((480int, 1600int), (0int, 1int)) == (480int, 1600int)) by (nonlinear_arith);
    }
    assert(a_row_sum(1, 5) == (480int, 1600int)) by {
        assert(a_row_sum(1, 5) == frac_plus((480int, 1600int), (0int, 1int)));
        assert(frac_plus((480int, 1600int), (0int, 1int)) == (480int, 1600int)) by (nonlinear_arith);
    }
    assert(a_row_sum(1, 6) == (480int, 1600int)) by {
        assert(a_row_sum(1, 6) == frac_plus((480int, 1600int), (0int, 1int)));
        assert(frac_plus((480int, 1600int), (0int, 1int)) == (480int, 1600int)) by (nonlinear_arith);
    }
    assert(frac_eq((480int, 1600int), (3int, 10int))) by (nonlinear_arith);
}

#[verifier::spinoff_prover]
proof fn lemma_a_row_2()
    ensures
        frac_eq(a_row_sum(2, 6), c_coef(3)),
{
    reveal_with_fuel(a_row_sum, 2);
    assert(a_row_sum(2, 1) == (44int, 45int)) by {
        assert(a_row_sum(2, 1) == frac_plus((0int, 1int), (44int, 45int)));
        assert(frac_plus((0int, 1int), (44int, 45int)) == (44int, 45int)) by (nonlinear_arith);
    }
    assert(a_row_sum(2, 2) == (-1860int, 675int)) by {
        assert(a_row_sum(2, 2) == frac_plus((44int, 45int), (-56int, 15int)));
        assert(frac_plus((44int, 45int), (-56int, 15int)) == (-1860int, 675int)) by (nonlinear_arith);
    }
    assert(a_row_sum(2, 3) == (4860int, 6075int)) by {
        assert(a_row_sum(2, 3) == frac_plus((-1860int, 675int), (32int, 9int)));
        assert(frac_plus((-1860int, 675int), (32int, 9int)) == (4860int, 6075int)) by (nonlinear_arith);
    }
    assert(a_row_sum(2, 4) == (4860int, 6075int)) by {
        assert(a_row_sum(2, 4) == frac_plus((4860int, 6075int), (0int, 1int)));
        assert(frac_plus((4860int, 6075int), (0int, 1int)) == (4860int, 6075int)) by (nonlinear_arith);
    }
    assert(a_row_sum(2, 5) == (4860int, 6075int)) by {
        assert(a_row_sum(2, 5) == frac_plus((4860int, 6075int), (0int, 1int)));
        assert(frac_plus((4860int, 6075int), (0int, 1int)) == (4860int, 6075int)) by (nonlinear_arith);
    }
    assert(a_row_sum(2, 6) == (4860int, 6075int)) by {
        assert(a_row_sum(2, 6) == frac_plus((4860int, 6075int), (0int, 1int)));
        assert(frac_plus((4860int, 6075int), (0int, 1int)) == (4860int, 6075int)) by (nonlinear_arith);
    }
    assert(frac_eq((4860int, 6075int), (4int, 5int))) by (nonlinear_arith);
}

#[verifier::spinoff_prover]
proof fn lemma_a_row_3()
    ensures
        frac_eq(a_row_sum(3, 6), c_coef(4)),
{
    reveal_with_fuel(a_row_sum, 2);
    assert(a_row_sum(3, 1) == (19372int, 6561int)) by {
        assert(a_row_sum(3, 1) == frac_plus((0int, 1int), (19372int, 6561int)));
        assert(frac_plus((0int, 1int), (19372int, 6561int)) == (19372int, 6561int)) by (nonlinear_arith);
    }
    assert(a_row_sum(3, 2) == (-124020396int, 14348907int)) by {
        assert(a_row_sum(3, 2) == frac_plus((19372int, 6561int), (-25360int, 2187int)));
        assert(frac_plus((19372int, 6561int), (-25360int, 2187int)) == (-124020396int, 14348907int)) by (nonlinear_arith);
    }
    assert(a_row_sum(3, 3) == (111060540180int, 94143178827int)) by {
        assert(a_row_sum(3, 3) == frac_plus((-124020396int, 14348907int), (64448int, 6561int)));
        assert(frac_plus((-124020396int, 14348907int), (64448int, 6561int)) == (111060540180int, 94143178827int)) by (nonlinear_arith);
    }
    assert(a_row_sum(3, 4) == (61004779879896int, 68630377364883int)) by {
        assert(a_row_sum(3, 4) == frac_plus((111060540180int, 94143178827int), (-212int, 729int)));
        assert(frac_plus((111060540180int, 94143178827int), (-212int, 729int)) == (61004779879896int, 68630377364883int)) by (nonlinear_arith);
    }
    assert(a_row_sum(3, 5) == (61004779879896int, 68630377364883int)) by {
        assert(a_row_sum(3, 5) == frac_plus((61004779879896int, 68630377364883int), (0int, 1int)));
        assert(frac_plus((61004779879896int, 68630377364883int), (0int, 1int)) == (61004779879896int, 68630377364883int)) by (nonlinear_arith);
    }
    assert(a_row_sum(3, 6) == (61004779879896int, 68630377364883int)) by {
        assert(a_row_sum(3, 6) == frac_plus((61004779879896int, 68630377364883int), (0int, 1int)));
        assert(frac_plus((61004779879896int, 68630377364883int), (0int, 1int)) == (61004779879896int, 68630377364883int)) by (nonlinear_arith);
    }
    assert(frac_eq((61004779879896int, 68630377364883int), (8int, 9int))) by (nonlinear_arith);
}

#[verifier::spinoff_prover]
proof fn lemma_a_row_4()
    ensures
        frac_eq(a_row_sum(4, 6), c_coef(5)),
{
    reveal_with_fuel(a_row_sum, 2);
    assert(a_row_sum(4, 1) == (9017int, 3168int)) by {
        assert(a_row_sum(4, 1) == frac_plus((0int, 1int), (9017int, 3168int)));
        assert(frac_plus((0int, 1int), (9017int, 3168int)) == (9017int, 3168int)) by (nonlinear_arith);
    }
    assert(a_row_sum(4, 2) == (-827079int, 104544int)) by {
        assert(a_row_sum(4, 2) == frac_plus((9017int, 3168int), (-355int, 33int)));
        assert(frac_plus((9017int, 3168int), (-355int, 33int)) == (-827079int, 104544int)) by (nonlinear_arith);
    }
    assert(a_row_sum(4, 3) == (545866695int, 548542368int)) by {
        assert(a_row_sum(4, 3) == frac_plus((-827079int, 104544int), (46732int, 5247int)));
        assert(frac_plus((-827079int, 104544int), (46732int, 5247int)) == (545866695int, 548542368int)) by (nonlinear_arith);
    }
    assert(a_row_sum(4, 4) == (122951114352int, 96543456768int)) by {
        assert(a_row_sum(4, 4) == frac_plus((545866695int, 548542368int), (49int, 176int)));
        assert(frac_plus((545866695int, 548542368int), (49int, 176int)) == (122951114352int, 96543456768int)) by (nonlinear_arith);
    }
    assert(a_row_sum(4, 5) == (1801114729463808int, 1801114729463808int)) by {
        assert(a_row_sum(4, 5) == frac_plus((122951114352int, 96543456768int), (-5103int, 18656int)));
        assert(frac_plus((122951114352int, 96543456768int), (-5103int, 18656int)) == (1801114729463808int, 1801114729463808int)) by (nonlinear_arith);
    }
    assert(a_row_sum(4, 6) == (1801114729463808int, 1801114729463808int)) by {
        assert(a_row_sum(4, 6) == frac_plus((1801114729463808int, 1801114729463808int), (0int, 1int)));
        assert(frac_plus((1801114729463808int, 1801114729463808int), (0int, 1int)) == (1801114729463808int, 1801114729463808int)) by (nonlinear_arith);
    }
    assert(frac_eq((1801114729463808int, 1801114729463808int), (1int, 1int))) by (nonlinear_arith);
}

#[verifier::spinoff_prover]
proof fn lemma_a_row_5()
    ensures
        frac_eq(a_row_sum(5, 6), c_coef(6)),
{
    reveal_with_fuel(a_row_sum, 2);
    assert(a_row_sum(5, 1) == (35int, 384int)) by {
        assert(a_row_sum(5, 1) == frac_plus((0int, 1int), (35int, 384int)));
        assert(frac_plus((0int, 1int), (35int, 384int)) == (35int, 384int)) by (nonlinear_arith);
    }
    assert(a_row_sum(5, 2) == (35int, 384int)) by {
        assert(a_row_sum(5, 2) == frac_plus((35int, 384int), (0int, 1int)));
        assert(frac_plus((35int, 384int), (0int, 1int)) == (35int, 384int)) by (nonlinear_arith);
    }
    assert(a_row_sum(5, 3) == (230955int, 427392int)) by {
        assert(a_row_sum(5, 3) == frac_plus((35int, 384int), (500int, 1113int)));
        assert(frac_plus((35int, 384int), (500int, 1113int)) == (230955int, 427392int)) by (nonlinear_arith);
    }
    assert(a_row_sum(5, 4) == (97767360int, 82059264int)) by {
        assert(a_row_sum(5, 4) == frac_plus((230955int, 427392int), (125int, 192int)));
        assert(frac_plus((230955int, 427392int), (125int, 192int)) == (97767360int, 82059264int)) by (nonlinear_arith);
    }
    assert(a_row_sum(5, 5) == (483790159872int, 556690046976int)) by {
        assert(a_row_sum(5, 5) == frac_plus((97767360int, 82059264int), (-2187int, 6784int)));
        assert(frac_plus((97767360int, 82059264int), (-2187int, 6784int)) == (483790159872int, 556690046976int)) by (nonlinear_arith);
    }
    assert(a_row_sum(5, 6) == (46761963945984int, 46761963945984int)) by {
        assert(a_row_sum(5, 6) == frac_plus((483790159872int, 556690046976int), (11int, 84int)));
        assert(frac_plus((483790159872int, 556690046976int), (11int, 84int)) == (46761963945984int, 46761963945984int)) by (nonlinear_arith);
    }
    assert(frac_eq((46761963945984int, 46761963945984int), (1int, 1int))) by (nonlinear_arith);
}

#[verifier::spinoff_prover]
proof fn lemma_b_row_0()
    ensures
        frac_eq(b_row_sum(0, 7), (1int, 1int)),
{
    reveal_with_fuel(b_row_sum, 2);
    assert(b_row_sum(0, 1) == (35int, 384int)) by {
        assert(b_row_sum(0, 1) == frac_plus((0int, 1int), (35int, 384int)));
        assert(frac_plus((0int, 1int), (35int, 384int)) == (35int, 384int)) by (nonlinear_arith);
    }
    assert(b_row_sum(0, 2) == (35int, 384int)) by {
        assert(b_row_sum(0, 2) == frac_plus((35int, 384int), (0int, 1int)));
        assert(frac_plus((35int, 384int), (0int, 1int)) == (35int, 384int)) by (nonlinear_arith);
    }
    assert(b_row_sum(0, 3) == (230955int, 427392int)) by {
        assert(b_row_sum(0, 3) == frac_plus((35int, 384int), (500int, 1113int)));
        assert(frac_plus((35int, 384int), (500int, 1113int)) == (230955int, 427392int)) by (nonlinear_arith);
    }
    assert(b_row_sum(0, 4) == (97767360int, 82059264int)) by {
        assert(b_row_sum(0, 4) == frac_plus((230955int, 427392int), (125int, 192int)));
        assert(frac_plus((230955int, 427392int), (125int, 192int)) == (97767360int, 82059264int)) by (nonlinear_arith);
    }
    assert(b_row_sum(0, 5) == (483790159872int, 556690046976int)) by {
        assert(b_row_sum(0, 5) == frac_plus((97767360int, 82059264int), (-2187int, 6784int)));
        assert(frac_plus((97767360int, 82059264int), (-2187int, 6784int)) == (483790159872int, 556690046976int)) by (nonlinear_arith);
    }
    assert(b_row_sum(0, 6) == (46761963945984int, 46761963945984int)) by {
        assert(b_row_sum(0, 6) == frac_plus((483790159872int, 556690046976int), (11int, 84int)));
        assert(frac_plus((483790159872int, 556690046976int), (11int, 84int)) == (46761963945984int, 46761963945984int)) by (nonlinear_arith);
    }
    assert(b_row_sum(0, 7) == (46761963945984int, 46761963945984int)) by {
        assert(b_row_sum(0, 7) == frac_plus((46761963945984int, 46761963945984int), (0int, 1int)));
        assert(frac_plus((46761963945984int, 46761963945984int), (0int, 1int)) == (46761963945984int, 46761963945984int)) by (nonlinear_arith);
    }
    assert(frac_eq((46761963945984int, 46761963945984int), (1int, 1int))) by (nonlinear_arith);
}

#[verifier::spinoff_prover]
proof fn lemma_b_row_1()
    ensures
        frac_eq(b_row_sum(1, 7), (1int, 1int)),
{
    reveal_with_fuel(b_row_sum, 2);
    assert(b_row_sum(1, 1) == (5179int, 57600int)) by {
        assert(b_row_sum(1, 1) == frac_plus((0int, 1int), (5179int, 57600int)));
        assert(frac_plus((0int, 1int), (5179int, 57600int)) == (5179int, 57600int)) by (nonlinear_arith);
    }
    assert(b_row_sum(1, 2) == (5179int, 57600int)) by {
        assert(b_row_sum(1, 2) == frac_plus((5179int, 57600int), (0int, 1int)));
        assert(frac_plus((5179int, 57600int), (0int, 1int)) == (5179int, 57600int)) by (nonlinear_arith);
    }
    assert(b_row_sum(1, 3) == (522553005int, 961632000int)) by {
        assert(b_row_sum(1, 3) == frac_plus((5179int, 57600int), (7571int, 16695int)));
        assert(frac_plus((5179int, 57600int), (7571int, 16695int)) == (522553005int, 961632000int)) by (nonlinear_arith);
    }
    assert(b_row_sum(1, 4) == (712355299200int, 615444480000int)) by {
        assert(b_row_sum(1, 4) == frac_plus((522553005int, 961632000int), (393int, 640int)));
        assert(frac_plus((522553005int, 961632000int), (393int, 640int)) == (712355299200int, 615444480000int)) by (nonlinear_arith);
    }
    assert(b_row_sum(1, 5) == (184950327214080000int, 208758767616000000int)) by {
        assert(b_row_sum(1, 5) == frac_plus((712355299200int, 615444480000int), (-92097int, 339200int)));
        assert(frac_plus((712355299200int, 615444480000int), (-92097int, 339200int)) == (184950327214080000int, 208758767616000000int)) by (nonlinear_arith);
    }
    assert(b_row_sum(1, 6) == (427433576693760000000int, 438393411993600000000int)) by {
        assert(b_row_sum(1, 6) == frac_plus((184950327214080000int, 208758767616000000int), (187int, 2100int)));
        assert(frac_plus((184950327214080000int, 208758767616000000int), (187int, 2100int)) == (427433576693760000000int, 438393411993600000000int)) by (nonlinear_arith);
    }
    assert(b_row_sum(1, 7) == (17535736479744000000000int, 17535736479744000000000int)) by {
        assert(b_row_sum(1, 7) == frac_plus((427433576693760000000int, 438393411993600000000int), (1int, 40int)));
        assert(frac_plus((427433576693760000000int, 438393411993600000000int), (1int, 40int)) == (17535736479744000000000int, 17535736479744000000000int)) by (nonlinear_arith);
    }
    assert(frac_eq((17535736479744000000000int, 17535736479744000000000int), (1int, 1int))) by (nonlinear_arith);
}

#[verifier::spinoff_prover]
proof fn lemma_b_dot_c_row_0()
    ensures
        frac_eq(b_dot_c(0, 7), (1int, 2int)),
{
    reveal_with_fuel(b_dot_c, 2);
    assert(frac_times(b_coef(0, 0), c_coef(0)) == (0int, 384int)) by {
        assert(frac_times((35int, 384int), (0int, 1int)) == (0int, 384int)) by (nonlinear_arith);
    }
    assert(b_dot_c(0, 1) == (0int, 384int)) by {
        assert(b_dot_c(0, 1) == frac_plus((0int, 1int), (0int, 384int)));
        assert(frac_plus((0int, 1int), (0int, 384int)) == (0int, 384int)) by (nonlinear_arith);
    }
    assert(frac_times(b_coef(0, 1), c_coef(1)) == (0int, 5int)) by {
        assert(frac_times((0int, 1int), (1int, 5int)) == (0int, 5int)) by (nonlinear_arith);
    }
    assert(b_dot_c(0, 2) == (0int, 1920int)) by {
        assert(b_dot_c(0, 2) == frac_plus((0int, 384int), (0int, 5int)));
        assert(frac_plus((0int, 384int), (0int, 5int)) == (0int, 1920int)) by (nonlinear_arith);
    }
    assert(frac_times(b_coef(0, 2), c_coef(2)) == (1500int, 11130int)) by {
        assert(frac_times((500int, 1113int), (3int, 10int)) == (1500int, 11130int)) by (nonlinear_arith);
    }
    assert(b_dot_c(0, 3) == (2880000int, 21369600int)) by {
        assert(b_dot_c(0, 3) == frac_plus((0int, 1920int), (1500int, 11130int)));
        assert(frac_plus((0int, 1920int), (1500int, 11130int)) == (2880000int, 21369600int)) by (nonlinear_arith);
    }
    assert(frac_times(b_coef(0, 3), c_coef(3)) == (500int, 960int)) by {
        assert(frac_times((125int, 192int), (4int, 5int)) == (500int, 960int)) by (nonlinear_arith);
    }
    assert(b_dot_c(0, 4) == (13449600000int, 20514816000int)) by {
        assert(b_dot_c(0, 4) == frac_plus((2880000int, 21369600int), (500int, 960int)));
        assert(frac_plus((2880000int, 21369600int), (500int, 960int)) == (13449600000int, 20514816000int)) by (nonlinear_arith);
    }
    assert(frac_times(b_coef(0, 4), c_coef(4)) == (-17496int, 61056int)) by {
        assert(frac_times((-2187int, 6784int), (8int, 9int)) == (-17496int, 61056int)) by (nonlinear_arith);
    }
    assert(b_dot_c(0, 5) == (462251556864000int, 1252552605696000int)) by {
        assert(b_dot_c(0, 5) == frac_plus((13449600000int, 20514816000int), (-17496int, 61056int)));
        assert(frac_plus((13449600000int, 20514816000int), (-17496int, 61056int)) == (462251556864000int, 1252552605696000int)) by (nonlinear_arith);
    }
    assert(frac_times(b_coef(0, 5), c_coef(5)) == (11int, 84int)) by {
        assert(frac_times((11int, 84int), (1int, 1int)) == (11int, 84int)) by (nonlinear_arith);
    }
    assert(b_dot_c(0, 6) == (52607209439232000int, 105214418878464000int)) by {
        assert(b_dot_c(0, 6) == frac_plus((462251556864000int, 1252552605696000int), (11int, 84int)));
        assert(frac_plus((462251556864000int, 1252552605696000int), (11int, 84int)) == (52607209439232000int, 105214418878464000int)) by (nonlinear_arith);
    }
    assert(frac_times(b_coef(0, 6), c_coef(6)) == (0int, 1int)) by {
        assert(frac_times((0int, 1int), (1int, 1int)) == (0int, 1int)) by (nonlinear_arith);
    }
    assert(b_dot_c(0, 7) == (52607209439232000int, 105214418878464000int)) by {
        assert(b_dot_c(0, 7) == frac_plus((52607209439232000int, 105214418878464000int), (0int, 1int)));
        assert(frac_plus((52607209439232000int, 105214418878464000int), (0int, 1int)) == (52607209439232000int, 105214418878464000int)) by (nonlinear_arith);
    }
    assert(frac_eq((52607209439232000int, 105214418878464000int), (1int, 2int))) by (nonlinear_arith);
}

#[verifier::spinoff_prover]
proof fn lemma_b_dot_c_row_1()
    ensures
        frac_eq(b_dot_c(1, 7), (1int, 2int)),
{
    reveal_with_fuel(b_dot_c, 2);
    assert(frac_times(b_coef(1, 0), c_coef(0)) == (0int, 57600int)) by {
        assert(frac_times((5179int, 57600int), (0int, 1int)) == (0int, 57600int)) by (nonlinear_arith);
    }
    assert(b_dot_c(1, 1) == (0int, 57600int)) by {
        assert(b_dot_c(1, 1) == frac_plus((0int, 1int), (0int, 57600int)));
        assert(frac_plus((0int, 1int), (0int, 57600int)) == (0int, 57600int)) by (nonlinear_arith);
    }
    assert(frac_times(b_coef(1, 1), c_coef(1)) == (0int, 5int)) by {
        assert(frac_times((0int, 1int), (1int, 5int)) == (0int, 5int)) by (nonlinear_arith);
    }
    assert(b_dot_c(1, 2) == (0int, 288000int)) by {
        assert(b_dot_c(1, 2) == frac_plus((0int, 57600int), (0int, 5int)));
        assert(frac_plus((0int, 57600int), (0int, 5int)) == (0int, 288000int)) by (nonlinear_arith);
    }
    assert(frac_times(b_coef(1, 2), c_coef(2)) == (22713int, 166950int)) by {
        assert(frac_times((7571int, 16695int), (3int, 10int)) == (22713int, 166950int)) by (nonlinear_arith);
    }
    assert(b_dot_c(1, 3) == (6541344000int, 48081600000int)) by {
        assert(b_dot_c(1, 3) == frac_plus((0int, 288000int), (22713int, 166950int)));
        assert(frac_plus((0int, 288000int), (22713int, 166950int)) == (6541344000int, 48081600000int)) by (nonlinear_arith);
    }
    assert(frac_times(b_coef(1, 3), c_coef(3)) == (1572int, 3200int)) by {
        assert(frac_times((393int, 640int), (4int, 5int)) == (1572int, 3200int)) by (nonlinear_arith);
    }
    assert(b_dot_c(1, 4) == (96516576000000int, 153861120000000int)) by {
        assert(b_dot_c(1, 4) == frac_plus((6541344000int, 48081600000int), (1572int, 3200int)));
        assert(frac_plus((6541344000int, 48081600000int), (1572int, 3200int)) == (96516576000000int, 153861120000000int)) by (nonlinear_arith);
    }
    assert(frac_times(b_coef(1, 4), c_coef(4)) == (-736776int, 3052800int)) by {
        assert(frac_times((-92097int, 339200int), (8int, 9int)) == (-736776int, 3052800int)) by (nonlinear_arith);
    }
    assert(b_dot_c(1, 5) == (181284622663680000000int, 469707227136000000000int)) by {
        assert(b_dot_c(1, 5) == frac_plus((96516576000000int, 153861120000000int), (-736776int, 3052800int)));
        assert(frac_plus((96516576000000int, 153861120000000int), (-736776int, 3052800int)) == (181284622663680000000int, 469707227136000000000int)) by (nonlinear_arith);
    }
    assert(frac_times(b_coef(1, 5), c_coef(5)) == (187int, 2100int)) by {
        assert(frac_times((187int, 2100int), (1int, 1int)) == (187int, 2100int)) by (nonlinear_arith);
    }
    assert(b_dot_c(1, 6) == (468532959068160000000000int, 986385176985600000000000int)) by {
        assert(b_dot_c(1, 6) == frac_plus((181284622663680000000int, 469707227136000000000int), (187int, 2100int)));
        assert(frac_plus((181284622663680000000int, 469707227136000000000int), (187int, 2100int)) == (468532959068160000000000int, 986385176985600000000000int)) by (nonlinear_arith);
    }
    assert(frac_times(b_coef(1, 6), c_coef(6)) == (1int, 40int)) by {
        assert(frac_times((1int, 40int), (1int, 1int)) == (1int, 40int)) by (nonlinear_arith);
    }
    assert(b_dot_c(1, 7) == (19727703539712000000000000int, 39455407079424000000000000int)) by {
        assert(b_dot_c(1, 7) == frac_plus((468532959068160000000000int, 986385176985600000000000int), (1int, 40int)));
        assert(frac_plus((468532959068160000000000int, 986385176985600000000000int), (1int, 40int)) == (19727703539712000000000000int, 39455407079424000000000000int)) by (nonlinear_arith);
    }
    assert(frac_eq((19727703539712000000000000int, 39455407079424000000000000int), (1int, 2int))) by (nonlinear_arith);
}

/// Row `i` of the coupling matrix sums exactly to node fraction `c[i + 1]`:
/// each intermediate evaluation point is a consistent state for its node.
pub proof fn lemma_row_sum_matches_node(i: int)
    requires
        0 <= i < 6,
    ensures
        frac_eq(a_row_sum(i, 6), c_coef(i + 1)),
{
    if i == 0 {
        lemma_a_row_0();
    } else if i == 1 {
        lemma_a_row_1();
    } else if i == 2 {
        lemma_a_row_2();
    } else if i == 3 {
        lemma_a_row_3();
    } else if i == 4 {
        lemma_a_row_4();
    } else {
        lemma_a_row_5();
    }
}

/// Both embedded weight rows sum exactly to one: each candidate state is a
/// consistent (first-order) combination of the stage derivatives.
pub proof fn lemma_weights_sum_to_one(row: int)
    requires
        0 <= row < 2,
    ensures
        frac_eq(b_row_sum(row, 7), (1int, 1int)),
{
    if row == 0 {
        lemma_b_row_0();
    } else {
        lemma_b_row_1();
    }
}

/// Both embedded weight rows satisfy the second-order condition: the
/// weighted sum of the node fractions equals one half.
pub proof fn lemma_second_order_condition(row: int)
    requires
        0 <= row < 2,
    ensures
        frac_eq(b_dot_c(row, 7), (1int, 2int)),
{
    if row == 0 {
        lemma_b_dot_c_row_0();
    } else {
        lemma_b_dot_c_row_1();
    }
}


// ---------------------------------------------------------------------------
// Input validation
// ---------------------------------------------------------------------------

/// Checks the caller-supplied problem description, mirroring the two
/// documented validation rules: the interval must not be reversed, and the
/// initial step-size guess must be positive.  The caller evaluates the two
/// comparisons on its own scalar type and passes the outcomes in.
pub fn validate_input(t_start_exceeds_t_end: bool, h0_not_positive: bool) -> (r: Result<
    (),
    InputError,
>)
    ensures
        t_start_exceeds_t_end ==> r == Err::<(), InputError>(InputError::TimeSpan),
        !t_start_exceeds_t_end && h0_not_positive ==> r == Err::<(), InputError>(
            InputError::StepSize,
        ),
        !t_start_exceeds_t_end && !h0_not_positive ==> r is Ok,
{
    if t_start_exceeds_t_end {
        return Err(InputError::TimeSpan);
    }
    if h0_not_positive {
        return Err(InputError::StepSize);
    }
    Ok(())
}

// ---------------------------------------------------------------------------
// Adaptive-stepping driver bookkeeping
// ---------------------------------------------------------------------------

/// How many consecutive rejected attempts the driver tolerates before giving
/// up with a convergence failure.
pub const MAX_CONSECUTIVE_FAILURES: u8 = 10;

/// Derivative evaluations spent on one step attempt: six stages plus the
/// seventh-stage derivative when the first stage can be reused from the
/// first-same-as-last cache, one more when it must be evaluated afresh.
pub open spec fn attempt_cost(warm: bool) -> nat {
    if warm {
        6
    } else {
        7
    }
}

/// Total derivative evaluations over a run of step attempts, where `run[k]`
/// records whether attempt `k` was accepted.  An attempt can reuse a cached
/// first-stage derivative exactly when some earlier attempt was accepted:
/// acceptance stores the step's last stage derivative, and a rejection leaves
/// both the current point and that cache untouched, so the cache stays valid
/// across rejected retries.
pub open spec fn calls_of_run(run: Seq<bool>) -> nat
    decreases run.len(),
{
    if run.len() == 0 {
        0
    } else {
        calls_of_run(run.drop_last()) + attempt_cost(run.drop_last().contains(true))
    }
}

/// Number of attempts in the run that were made while no attempt had been
/// accepted yet, i.e. without a cached first-stage derivative.
pub open spec fn cold_attempts(run: Seq<bool>) -> nat
    decreases run.len(),
{
    if run.len() == 0 {
        0
    } else {
        cold_attempts(run.drop_last()) + if run.drop_last().contains(true) {
            0nat
        } else {
            1nat
        }
    }
}

/// Number of rejected attempts at the end of the run, since the most recent
/// accepted attempt or since the start.
pub open spec fn rejects_since_accept(run: Seq<bool>) -> nat
    decreases run.len(),
{
    if run.len() == 0 {
        0
    } else if run.last() {
        0
    } else {
        rejects_since_accept(run.drop_last()) + 1
    }
}

/// How appending one verdict changes the run statistics.
pub proof fn lemma_run_push(run: Seq<bool>, accepted: bool)
    ensures
        calls_of_run(run.push(accepted)) == calls_of_run(run) + attempt_cost(
            run.contains(true),
        ),
        run.push(accepted).contains(true) == (run.contains(true) || accepted),
        rejects_since_accept(run.push(accepted)) == if accepted {
            0int
        } else {
            rejects_since_accept(run) as int + 1
        },
{
    let pushed = run.push(accepted);
    assert(pushed.drop_last() =~= run);
    assert(pushed.last() == accepted);
    if accepted {
        assert(pushed[run.len() as int] == true);
        assert(pushed.contains(true));
    }
    if run.contains(true) {
        let i = choose|i: int| 0 <= i < run.len() && run[i] == true;
        assert(pushed[i] == true);
        assert(pushed.contains(true));
    }
    if !run.contains(true) && !accepted {
        assert forall|i: int| 0 <= i < pushed.len() implies pushed[i] != true by {
            if i < run.len() {
                assert(run[i] != true);
            }
        }
        assert(!pushed.contains(true));
    }
}

/// Bookkeeping for one integration: which step attempts were accepted, how
/// many derivative evaluations they cost, whether a first-stage derivative is
/// cached, and how close the run is to the consecutive-rejection budget.  The
/// caller performs the floating-point work of each attempt and reports only
/// the verdict; this type owns every counting and give-up decision.
pub struct Driver {
    num_calls: usize,
    num_failures: u8,
    warm: bool,
    run: Ghost<Seq<bool>>,
}

impl Driver {
    /// The verdicts of the attempts recorded so far, in order.
    pub closed spec fn run(self) -> Seq<bool> {
        self.run@
    }

    /// The counters agree with the recorded run, and the run never gets past
    /// the point where the driver has given up.
    pub closed spec fn wf(self) -> bool {
        &&& self.num_calls == calls_of_run(self.run@)
        &&& self.warm == self.run@.contains(true)
        &&& self.num_failures == rejects_since_accept(self.run@)
        &&& rejects_since_accept(self.run@) <= MAX_CONSECUTIVE_FAILURES + 1
    }

    /// Fresh bookkeeping: no attempts, no evaluations, no cached derivative.
    /// In particular, an integration over a degenerate interval that never
    /// attempts a step reports zero derivative evaluations.
    pub fn new() -> (d: Driver)
        ensures
            d.wf(),
            d.run() == Seq::<bool>::empty(),
    {
        Driver { num_calls: 0, num_failures: 0, warm: false, run: Ghost(Seq::empty()) }
    }

    /// Total derivative evaluations across all recorded attempts.
    pub fn num_calls(&self) -> (n: usize)
        requires
            self.wf(),
        ensures
            n == calls_of_run(self.run()),
    {
        self.num_calls
    }

    /// Whether the first stage derivative of the next attempt can be reused
    /// from the cache, i.e. whether any attempt has been accepted.
    pub fn fsal_cached(&self) -> (warm: bool)
        requires
            self.wf(),
        ensures
            warm == self.run().contains(true),
    {
        self.warm
    }

    /// Number of rejected attempts since the most recent accepted one.
    pub fn num_failures(&self) -> (n: u8)
        requires
            self.wf(),
        ensures
            n == rejects_since_accept(self.run()),
    {
        self.num_failures
    }

    /// Records the verdict of one step attempt and charges its evaluation
    /// cost.  Returns the convergence failure exactly when the attempt is the
    /// eleventh consecutive rejection, after which the caller must stop; an
    /// accepted attempt resets that budget and marks the cache warm.
    pub fn record_attempt(&mut self, accepted: bool) -> (r: Result<(), Error>)
        requires
            old(self).wf(),
            rejects_since_accept(old(self).run()) <= MAX_CONSECUTIVE_FAILURES,
            calls_of_run(old(self).run()) + 7 <= usize::MAX,
        ensures
            final(self).wf(),
            final(self).run() == old(self).run().push(accepted),
            r is Err <==> (!accepted && rejects_since_accept(old(self).run())
                == MAX_CONSECUTIVE_FAILURES),
            r is Err ==> r == Err::<(), Error>(Error::Convergence),
    {
        proof {
            lemma_run_push(self.run@, accepted);
        }
        self.num_calls = self.num_calls + if self.warm {
            6
        } else {
            7
        };
        self.run = Ghost(self.run@.push(accepted));
        if accepted {
            self.num_failures = 0;
            self.warm = true;
            Ok(())
        } else {
            self.num_failures = self.num_failures + 1;
            if self.num_failures > MAX_CONSECUTIVE_FAILURES {
                Err(Error::Convergence)
            } else {
                Ok(())
            }
        }
    }
}

// ---------------------------------------------------------------------------
// Evaluation-count laws
// ---------------------------------------------------------------------------

/// Each attempt costs seven evaluations while no attempt has been accepted
/// yet and six thereafter, so the total factors exactly over the cold prefix.
pub proof fn lemma_call_count(run: Seq<bool>)
    ensures
        cold_attempts(run) <= run.len(),
        calls_of_run(run) == 7 * cold_attempts(run) + 6 * (run.len() - cold_attempts(run)),
    decreases run.len(),
{
    if run.len() > 0 {
        lemma_call_count(run.drop_last());
    }
}

/// Evaluation counting for the common case of a run whose first attempt is
/// accepted: the first attempt evaluates all seven stage derivatives, and
/// every later attempt, accepted or rejected, reuses the cached first stage
/// and evaluates six.
pub proof fn lemma_call_count_cold_start(run: Seq<bool>)
    requires
        run.len() > 0,
        run[0] == true,
    ensures
        calls_of_run(run) == 7 + 6 * (run.len() - 1),
    decreases run.len(),
{
    if run.len() == 1 {
        reveal_with_fuel(calls_of_run, 2);
        assert(run.drop_last().len() == 0);
        assert(!run.drop_last().contains(true));
    } else {
        assert(run.drop_last()[0] == true);
        lemma_call_count_cold_start(run.drop_last());
        assert(run.drop_last().contains(true));
    }
}

} // verus!
