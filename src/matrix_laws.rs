//! Algebraic laws of the matrix model that the arithmetic of `Matrix` is
//! specified by.

use crate::matrix::{
    column, identity, mat_add, mat_dot, mat_mul, mat_prod, mat_sub, ncols, nrows, same_shape,
    shaped, zeros, frob_prefix,
};
use crate::scalar::{dot_prefix, dot_seq, lemma_dot_prefix_commutes, seq_add, seq_mul, seq_sub};
use vstd::prelude::*;

verus! {

/// `f(0) + f(1) + ... + f(n - 1)`, accumulated from the left.
pub open spec fn sum_to(f: spec_fn(int) -> int, n: nat) -> int
    decreases n,
{
    if n == 0 {
        0
    } else {
        sum_to(f, (n - 1) as nat) + f(n - 1)
    }
}

/// Sums of pointwise equal terms are equal.
pub proof fn lemma_sum_ext(f: spec_fn(int) -> int, g: spec_fn(int) -> int, n: nat)
    requires
        forall|k: int| 0 <= k < n ==> #[trigger] f(k) == g(k),
    ensures
        sum_to(f, n) == sum_to(g, n),
    decreases n,
{
    if n > 0 {
        lemma_sum_ext(f, g, (n - 1) as nat);
    }
}

/// A sum of zeros is zero.
pub proof fn lemma_sum_zero(f: spec_fn(int) -> int, n: nat)
    requires
        forall|k: int| 0 <= k < n ==> #[trigger] f(k) == 0,
    ensures
        sum_to(f, n) == 0,
    decreases n,
{
    if n > 0 {
        lemma_sum_zero(f, (n - 1) as nat);
    }
}

/// A prefix dot product is the sum of the pairwise products.
pub proof fn lemma_dot_as_sum(u: Seq<int>, v: Seq<int>, n: nat)
    ensures
        dot_prefix(u, v, n) == sum_to(|k: int| u[k] * v[k], n),
    decreases n,
{
    if n > 0 {
        lemma_dot_as_sum(u, v, (n - 1) as nat);
    }
}

/// Against a unit sequence (one at `j`, zero elsewhere), a prefix dot product
/// picks out `u[j]` once the prefix covers `j`.
pub proof fn lemma_dot_unit(u: Seq<int>, e: Seq<int>, j: int, n: nat)
    requires
        forall|k: int| 0 <= k < n ==> #[trigger] e[k] == if k == j { 1int } else { 0int },
    ensures
        dot_prefix(u, e, n) == if 0 <= j < n { u[j] } else { 0 },
    decreases n,
{
    if n > 0 {
        lemma_dot_unit(u, e, j, (n - 1) as nat);
        let k = n - 1;
        if k == j {
            assert(u[k] * e[k] == u[k]) by (nonlinear_arith)
                requires
                    e[k] == 1,
            ;
        } else {
            assert(u[k] * e[k] == 0) by (nonlinear_arith)
                requires
                    e[k] == 0,
            ;
        }
    }
}

/// Adding the zero matrix leaves a matrix unchanged, and a matrix minus
/// itself is the zero matrix of its shape.
pub proof fn lemma_add_zero_sub_self(a: Seq<Seq<int>>)
    requires
        shaped(a),
    ensures
        mat_add(a, zeros(nrows(a) as nat, ncols(a) as nat)) == a,
        mat_sub(a, a) == zeros(nrows(a) as nat, ncols(a) as nat),
{
    let z = zeros(nrows(a) as nat, ncols(a) as nat);
    assert forall|i: int| 0 <= i < a.len() implies #[trigger] mat_add(a, z)[i] == a[i] by {
        assert(seq_add(a[i], z[i]) =~= a[i]);
    }
    assert(mat_add(a, z) =~= a);
    assert forall|i: int| 0 <= i < a.len() implies #[trigger] mat_sub(a, a)[i] == z[i] by {
        assert(seq_sub(a[i], a[i]) =~= z[i]);
    }
    assert(mat_sub(a, a) =~= z);
}

/// The Hadamard product and the Frobenius inner product do not depend on the
/// order of their operands.
pub proof fn lemma_prod_dot_commute(a: Seq<Seq<int>>, b: Seq<Seq<int>>)
    requires
        shaped(a),
        shaped(b),
        same_shape(a, b),
    ensures
        mat_prod(a, b) == mat_prod(b, a),
        mat_dot(a, b) == mat_dot(b, a),
{
    assert forall|i: int| 0 <= i < a.len() implies #[trigger] mat_prod(a, b)[i] == mat_prod(b, a)[i] by {
        assert forall|j: int| 0 <= j < a[i].len() implies #[trigger] seq_mul(a[i], b[i])[j] == seq_mul(
            b[i],
            a[i],
        )[j] by {
            assert(a[i][j] * b[i][j] == b[i][j] * a[i][j]) by (nonlinear_arith);
        }
        assert(seq_mul(a[i], b[i]) =~= seq_mul(b[i], a[i]));
    }
    assert(mat_prod(a, b) =~= mat_prod(b, a));
    lemma_frob_commutes(a, b, a.len());
}

/// The row-by-row Frobenius prefix does not depend on the order of its operands.
pub proof fn lemma_frob_commutes(a: Seq<Seq<int>>, b: Seq<Seq<int>>, n: nat)
    requires
        n <= a.len(),
        shaped(a),
        shaped(b),
        same_shape(a, b),
    ensures
        frob_prefix(a, b, n) == frob_prefix(b, a, n),
    decreases n,
{
    if n > 0 {
        lemma_frob_commutes(a, b, (n - 1) as nat);
        let r = n - 1;
        assert(a[r].len() == b[r].len());
        lemma_dot_prefix_commutes(a[r], b[r], a[r].len());
    }
}

/// The product of conformable matrices has the rows of the first and the
/// columns of the second.
pub proof fn lemma_mult_shape(a: Seq<Seq<int>>, b: Seq<Seq<int>>)
    requires
        shaped(a),
        shaped(b),
        ncols(a) == nrows(b),
    ensures
        shaped(mat_mul(a, b)),
        nrows(mat_mul(a, b)) == nrows(a),
        ncols(mat_mul(a, b)) == ncols(b),
{
}

/// Multiplying by the identity, on either side, leaves a matrix unchanged.
pub proof fn lemma_mult_identity(a: Seq<Seq<int>>)
    requires
        shaped(a),
    ensures
        mat_mul(a, identity(ncols(a) as nat)) == a,
        mat_mul(identity(nrows(a) as nat), a) == a,
{
    let n = ncols(a) as nat;
    let m = nrows(a) as nat;
    let right = mat_mul(a, identity(n));
    assert forall|i: int| 0 <= i < a.len() implies #[trigger] right[i] == a[i] by {
        assert forall|j: int| 0 <= j < n implies #[trigger] right[i][j] == a[i][j] by {
            lemma_dot_unit(a[i], column(identity(n), j), j, n);
        }
        assert(right[i] =~= a[i]);
    }
    assert(right =~= a);
    let left = mat_mul(identity(m), a);
    assert forall|i: int| 0 <= i < m implies #[trigger] left[i] == a[i] by {
        assert forall|j: int| 0 <= j < n implies #[trigger] left[i][j] == a[i][j] by {
            let col = column(a, j);
            lemma_dot_prefix_commutes(identity(m)[i], col, m);
            lemma_dot_unit(col, identity(m)[i], i, m);
        }
        assert(left[i] =~= a[i]);
    }
    assert(left =~= a);
}

/// A constant factor on the left can be taken out of a sum.
pub proof fn lemma_sum_scale_left(c: int, f: spec_fn(int) -> int, n: nat)
    ensures
        sum_to(|k: int| c * f(k), n) == c * sum_to(f, n),
    decreases n,
{
    if n > 0 {
        lemma_sum_scale_left(c, f, (n - 1) as nat);
        let s = sum_to(f, (n - 1) as nat);
        let x = f(n - 1);
        assert(c * s + c * x == c * (s + x)) by (nonlinear_arith);
    }
}

/// A constant factor on the right can be taken out of a sum.
pub proof fn lemma_sum_scale_right(f: spec_fn(int) -> int, c: int, n: nat)
    ensures
        sum_to(|k: int| f(k) * c, n) == sum_to(f, n) * c,
    decreases n,
{
    if n > 0 {
        lemma_sum_scale_right(f, c, (n - 1) as nat);
        let s = sum_to(f, (n - 1) as nat);
        let x = f(n - 1);
        assert(s * c + x * c == (s + x) * c) by (nonlinear_arith);
    }
}

/// The sum of pointwise sums is the sum of the two sums.
pub proof fn lemma_sum_add(f: spec_fn(int) -> int, g: spec_fn(int) -> int, n: nat)
    ensures
        sum_to(|k: int| f(k) + g(k), n) == sum_to(f, n) + sum_to(g, n),
    decreases n,
{
    if n > 0 {
        lemma_sum_add(f, g, (n - 1) as nat);
    }
}

/// A finite double sum may be taken in either order.
pub proof fn lemma_sum_swap(f: spec_fn(int, int) -> int, n: nat, m: nat)
    ensures
        sum_to(|i: int| sum_to(|j: int| f(i, j), m), n) == sum_to(
            |j: int| sum_to(|i: int| f(i, j), n),
            m,
        ),
    decreases n,
{
    if n > 0 {
        let p = (n - 1) as nat;
        lemma_sum_swap(f, p, m);
        let inner = |j: int| sum_to(|i: int| f(i, j), p);
        let last = |j: int| f(p as int, j);
        let both = |j: int| inner(j) + last(j);
        let whole = |j: int| sum_to(|i: int| f(i, j), n);
        let rows = |i: int| sum_to(|j: int| f(i, j), m);
        assert(sum_to(rows, n) == sum_to(rows, p) + sum_to(last, m));
        lemma_sum_add(inner, last, m);
        assert forall|j: int| 0 <= j < m implies #[trigger] both(j) == whole(j) by {
            assert(sum_to(|i: int| f(i, j), n) == sum_to(|i: int| f(i, j), p) + f(p as int, j));
        }
        lemma_sum_ext(both, whole, m);
    } else {
        let none = |j: int| sum_to(|i: int| f(i, j), 0);
        assert forall|j: int| 0 <= j < m implies #[trigger] none(j) == 0 by {}
        lemma_sum_zero(none, m);
    }
}

/// Entry `(i, j)` of `(a b) c` equals that of `a (b c)`.
proof fn lemma_mult_assoc_entry(
    a: Seq<Seq<int>>,
    b: Seq<Seq<int>>,
    c: Seq<Seq<int>>,
    i: int,
    j: int,
)
    requires
        shaped(a),
        shaped(b),
        shaped(c),
        ncols(a) == nrows(b),
        ncols(b) == nrows(c),
        0 <= i < nrows(a),
        0 <= j < ncols(c),
    ensures
        mat_mul(mat_mul(a, b), c)[i][j] == mat_mul(a, mat_mul(b, c))[i][j],
{
    let q = ncols(a) as nat;
    let p = ncols(b) as nat;
    let ab = mat_mul(a, b);
    let bc = mat_mul(b, c);
    let f = |k: int, l: int| a[i][l] * b[l][k] * c[k][j];
    // Left side: sum over k of (sum over l of a[i][l] b[l][k]) c[k][j].
    let lhs_terms = |k: int| ab[i][k] * column(c, j)[k];
    let by_rows = |k: int| sum_to(|l: int| f(k, l), q);
    lemma_dot_as_sum(ab[i], column(c, j), p);
    assert forall|k: int| 0 <= k < p implies #[trigger] lhs_terms(k) == by_rows(k) by {
        let g = |l: int| a[i][l] * b[l][k];
        let gc = |l: int| g(l) * c[k][j];
        let fk = |l: int| f(k, l);
        lemma_dot_as_sum(a[i], column(b, k), q);
        lemma_sum_ext(|l: int| a[i][l] * column(b, k)[l], g, q);
        lemma_sum_scale_right(g, c[k][j], q);
        assert forall|l: int| 0 <= l < q implies #[trigger] gc(l) == fk(l) by {}
        lemma_sum_ext(gc, fk, q);
    }
    lemma_sum_ext(lhs_terms, by_rows, p);
    // Right side: sum over l of a[i][l] (sum over k of b[l][k] c[k][j]).
    let rhs_terms = |l: int| a[i][l] * column(bc, j)[l];
    let by_cols = |l: int| sum_to(|k: int| f(k, l), p);
    lemma_dot_as_sum(a[i], column(bc, j), q);
    assert forall|l: int| 0 <= l < q implies #[trigger] rhs_terms(l) == by_cols(l) by {
        let h = |k: int| b[l][k] * c[k][j];
        let ah = |k: int| a[i][l] * h(k);
        let fl = |k: int| f(k, l);
        lemma_dot_as_sum(b[l], column(c, j), p);
        lemma_sum_ext(|k: int| b[l][k] * column(c, j)[k], h, p);
        lemma_sum_scale_left(a[i][l], h, p);
        assert forall|k: int| 0 <= k < p implies #[trigger] ah(k) == fl(k) by {
            assert(a[i][l] * (b[l][k] * c[k][j]) == a[i][l] * b[l][k] * c[k][j]) by (nonlinear_arith);
        }
        lemma_sum_ext(ah, fl, p);
    }
    lemma_sum_ext(rhs_terms, by_cols, q);
    lemma_sum_swap(f, p, q);
}

/// Matrix multiplication is associative.
pub proof fn lemma_mult_assoc(a: Seq<Seq<int>>, b: Seq<Seq<int>>, c: Seq<Seq<int>>)
    requires
        shaped(a),
        shaped(b),
        shaped(c),
        ncols(a) == nrows(b),
        ncols(b) == nrows(c),
    ensures
        mat_mul(mat_mul(a, b), c) == mat_mul(a, mat_mul(b, c)),
{
    let lhs = mat_mul(mat_mul(a, b), c);
    let rhs = mat_mul(a, mat_mul(b, c));
    assert forall|i: int| 0 <= i < lhs.len() implies #[trigger] lhs[i] == rhs[i] by {
        assert forall|j: int| 0 <= j < ncols(c) implies #[trigger] lhs[i][j] == rhs[i][j] by {
            lemma_mult_assoc_entry(a, b, c, i, j);
        }
        assert(lhs[i] =~= rhs[i]);
    }
    assert(lhs =~= rhs);
}

} // verus!
