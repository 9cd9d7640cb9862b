//! The scalar model: arithmetic on `i64` values is specified over `int`, and
//! every operation that could leave the range of `i64` is excluded by a
//! precondition stated with `fits`.

use vstd::prelude::*;

verus! {

/// Whether an exact integer result can be stored in an `i64`.
pub open spec fn fits(x: int) -> bool {
    i64::MIN <= x <= i64::MAX
}

/// Relies on num_traits's `FromPrimitive::from_u8` for `i64`, which always
/// succeeds with the same numeric value.
#[verifier::external_body]
fn i64_from_u8(n: u8) -> (r: Option<i64>)
    ensures
        r == Some(n as i64),
{
    <i64 as num_traits::FromPrimitive>::from_u8(n)
}

/// The exact values of a sequence of `i64`.
pub open spec fn ints(s: Seq<i64>) -> Seq<int> {
    s.map_values(|x: i64| x as int)
}

/// Pairwise sum of two sequences, over the length of the first.
pub open spec fn seq_add(u: Seq<int>, v: Seq<int>) -> Seq<int> {
    Seq::new(u.len(), |i: int| u[i] + v[i])
}

/// Pairwise difference of two sequences, over the length of the first.
pub open spec fn seq_sub(u: Seq<int>, v: Seq<int>) -> Seq<int> {
    Seq::new(u.len(), |i: int| u[i] - v[i])
}

/// Pairwise (Hadamard) product of two sequences, over the length of the first.
pub open spec fn seq_mul(u: Seq<int>, v: Seq<int>) -> Seq<int> {
    Seq::new(u.len(), |i: int| u[i] * v[i])
}

/// Every element multiplied by `k`.
pub open spec fn seq_scale(u: Seq<int>, k: int) -> Seq<int> {
    Seq::new(u.len(), |i: int| u[i] * k)
}

/// Sum of `u[k] * v[k]` for `k < n`, accumulated from the left.
pub open spec fn dot_prefix(u: Seq<int>, v: Seq<int>, n: nat) -> int
    decreases n,
{
    if n == 0 {
        0
    } else {
        dot_prefix(u, v, (n - 1) as nat) + u[n - 1] * v[n - 1]
    }
}

/// The dot product of two sequences, over the length of the first.
pub open spec fn dot_seq(u: Seq<int>, v: Seq<int>) -> int {
    dot_prefix(u, v, u.len())
}

/// Every pairwise sum fits in an `i64`.
pub open spec fn add_fits(u: Seq<int>, v: Seq<int>) -> bool {
    forall|i: int| 0 <= i < u.len() ==> fits(#[trigger] seq_add(u, v)[i])
}

/// Every pairwise difference fits in an `i64`.
pub open spec fn sub_fits(u: Seq<int>, v: Seq<int>) -> bool {
    forall|i: int| 0 <= i < u.len() ==> fits(#[trigger] seq_sub(u, v)[i])
}

/// Every pairwise product fits in an `i64`.
pub open spec fn mul_fits(u: Seq<int>, v: Seq<int>) -> bool {
    forall|i: int| 0 <= i < u.len() ==> fits(#[trigger] seq_mul(u, v)[i])
}

/// Every scaled element fits in an `i64`.
pub open spec fn scale_fits(u: Seq<int>, k: int) -> bool {
    forall|i: int| 0 <= i < u.len() ==> fits(#[trigger] seq_scale(u, k)[i])
}

/// Accumulating the dot product of `u` and `v` onto `acc`, from the left,
/// keeps every product and every running total within `i64`.
pub open spec fn acc_fits(acc: int, u: Seq<int>, v: Seq<int>) -> bool {
    forall|k: int|
        #![trigger seq_mul(u, v)[k]]
        0 <= k < u.len() ==> fits(seq_mul(u, v)[k]) && fits(acc + dot_prefix(u, v, (k + 1) as nat))
}

/// The dot product of `u` and `v` can be accumulated from zero within `i64`.
pub open spec fn dot_fits(u: Seq<int>, v: Seq<int>) -> bool {
    acc_fits(0, u, v)
}

/// The dot product does not depend on the order of its operands.
pub proof fn lemma_dot_prefix_commutes(u: Seq<int>, v: Seq<int>, n: nat)
    ensures
        dot_prefix(u, v, n) == dot_prefix(v, u, n),
    decreases n,
{
    if n > 0 {
        lemma_dot_prefix_commutes(u, v, (n - 1) as nat);
        assert(u[n - 1] * v[n - 1] == v[n - 1] * u[n - 1]) by (nonlinear_arith);
    }
}

/// Adds the dot product of `u` and `v` to `acc`, left to right.
pub fn dot_onto(acc: i64, u: &[i64], v: &[i64]) -> (r: i64)
    requires
        u@.len() == v@.len(),
        acc_fits(acc as int, ints(u@), ints(v@)),
    ensures
        r == acc + dot_seq(ints(u@), ints(v@)),
{
    let ghost uu = ints(u@);
    let ghost vv = ints(v@);
    let mut total: i64 = acc;
    let mut k: usize = 0;
    while k < u.len()
        invariant
            k <= u@.len() == v@.len(),
            uu == ints(u@),
            vv == ints(v@),
            acc_fits(acc as int, uu, vv),
            total == acc + dot_prefix(uu, vv, k as nat),
        decreases u@.len() - k,
    {
        assert(fits(seq_mul(uu, vv)[k as int]));
        let p: i64 = u[k] * v[k];
        total = total + p;
        k = k + 1;
    }
    total
}

/// An entrywise binary operation.
#[derive(Debug, Clone, Copy, PartialEq, Eq, Structural)]
pub enum Pairwise {
    Add,
    Sub,
    Mul,
}

/// The exact result of `op` on two values.
pub open spec fn op_int(op: Pairwise, x: int, y: int) -> int {
    match op {
        Pairwise::Add => x + y,
        Pairwise::Sub => x - y,
        Pairwise::Mul => x * y,
    }
}

/// `op` applied pairwise, over the length of the first sequence.
pub open spec fn pairwise_seq(op: Pairwise, u: Seq<int>, v: Seq<int>) -> Seq<int> {
    Seq::new(u.len(), |i: int| op_int(op, u[i], v[i]))
}

/// Every pairwise result of `op` fits in an `i64`.
pub open spec fn pairwise_fits(op: Pairwise, u: Seq<int>, v: Seq<int>) -> bool {
    forall|i: int| 0 <= i < u.len() ==> fits(#[trigger] pairwise_seq(op, u, v)[i])
}

/// The named entrywise operations are the pairwise forms of `+`, `-` and `*`.
pub proof fn lemma_pairwise_named(u: Seq<int>, v: Seq<int>)
    ensures
        pairwise_seq(Pairwise::Add, u, v) == seq_add(u, v),
        pairwise_seq(Pairwise::Sub, u, v) == seq_sub(u, v),
        pairwise_seq(Pairwise::Mul, u, v) == seq_mul(u, v),
        pairwise_fits(Pairwise::Add, u, v) == add_fits(u, v),
        pairwise_fits(Pairwise::Sub, u, v) == sub_fits(u, v),
        pairwise_fits(Pairwise::Mul, u, v) == mul_fits(u, v),
{
    assert(pairwise_seq(Pairwise::Add, u, v) =~= seq_add(u, v));
    assert(pairwise_seq(Pairwise::Sub, u, v) =~= seq_sub(u, v));
    assert(pairwise_seq(Pairwise::Mul, u, v) =~= seq_mul(u, v));
}

/// `op` on two `i64` values whose exact result fits.
pub fn apply(op: Pairwise, x: i64, y: i64) -> (r: i64)
    requires
        fits(op_int(op, x as int, y as int)),
    ensures
        r == op_int(op, x as int, y as int),
{
    match op {
        Pairwise::Add => x + y,
        Pairwise::Sub => x - y,
        Pairwise::Mul => x * y,
    }
}

/// A new sequence holding `op` applied to the elements of `u` and `v` pairwise.
pub fn pairwise(op: Pairwise, u: &[i64], v: &[i64]) -> (r: Vec<i64>)
    requires
        u@.len() == v@.len(),
        pairwise_fits(op, ints(u@), ints(v@)),
    ensures
        ints(r@) == pairwise_seq(op, ints(u@), ints(v@)),
{
    let ghost want = pairwise_seq(op, ints(u@), ints(v@));
    let mut out: Vec<i64> = Vec::with_capacity(u.len());
    let mut i: usize = 0;
    while i < u.len()
        invariant
            i <= u@.len() == v@.len(),
            want == pairwise_seq(op, ints(u@), ints(v@)),
            pairwise_fits(op, ints(u@), ints(v@)),
            out@.len() == i,
            forall|k: int| 0 <= k < i ==> (#[trigger] out@[k]) == want[k],
        decreases u@.len() - i,
    {
        assert(fits(want[i as int]));
        out.push(apply(op, u[i], v[i]));
        i = i + 1;
    }
    assert(ints(out@) =~= want);
    out
}

/// The additive identity that every accumulation starts from.
pub fn zero() -> (r: i64)
    ensures
        r == 0,
{
    match i64_from_u8(0) {
        Some(z) => z,
        None => 0,
    }
}

} // verus!
