//! Vectors of `i64` with a length `N` fixed by their type: one stored inline
//! in an array, one stored on the heap. Both offer the same arithmetic
//! through `MathVector`.

use crate::error::ShapeError;
use crate::scalar::{
    add_fits, apply, dot_fits, dot_onto, dot_seq, fits, ints, lemma_pairwise_named, mul_fits,
    pairwise_fits, pairwise_seq, scale_fits, seq_add, seq_mul, seq_scale, seq_sub, sub_fits, zero,
    Pairwise,
};
use vstd::prelude::*;

verus! {

/// Elementwise arithmetic shared by the vector types. Binary operations take
/// operands of equal length; every result is specified over the exact values
/// of the elements, and each operation requires that its exact results fit
/// in `i64`.
pub trait MathVector: Sized {
    /// The exact values of the elements, in index order.
    spec fn elems(&self) -> Seq<int>;

    /// The stored elements agree with the type's length.
    spec fn wf(&self) -> bool;

    /// Pairwise sum.
    fn add_vector(self, rhs: Self) -> (r: Self)
        requires
            self.wf(),
            rhs.wf(),
            self.elems().len() == rhs.elems().len(),
            add_fits(self.elems(), rhs.elems()),
        ensures
            r.wf(),
            r.elems() == seq_add(self.elems(), rhs.elems()),
    ;

    /// Pairwise difference.
    fn sub_vector(self, rhs: Self) -> (r: Self)
        requires
            self.wf(),
            rhs.wf(),
            self.elems().len() == rhs.elems().len(),
            sub_fits(self.elems(), rhs.elems()),
        ensures
            r.wf(),
            r.elems() == seq_sub(self.elems(), rhs.elems()),
    ;

    /// Pairwise (Hadamard) product.
    fn entrywise(self, rhs: Self) -> (r: Self)
        requires
            self.wf(),
            rhs.wf(),
            self.elems().len() == rhs.elems().len(),
            mul_fits(self.elems(), rhs.elems()),
        ensures
            r.wf(),
            r.elems() == seq_mul(self.elems(), rhs.elems()),
    ;

    /// Every element multiplied by `k`.
    fn scalar_mul(self, k: i64) -> (r: Self)
        requires
            self.wf(),
            scale_fits(self.elems(), k as int),
        ensures
            r.wf(),
            r.elems() == seq_scale(self.elems(), k as int),
    ;

    /// Dot product, accumulated from zero in index order.
    fn dot(&self, rhs: &Self) -> (r: i64)
        requires
            self.wf(),
            rhs.wf(),
            self.elems().len() == rhs.elems().len(),
            dot_fits(self.elems(), rhs.elems()),
        ensures
            r == dot_seq(self.elems(), rhs.elems()),
    ;

    /// Pairwise sum, in place.
    fn add_vector_mut(&mut self, rhs: Self)
        requires
            old(self).wf(),
            rhs.wf(),
            old(self).elems().len() == rhs.elems().len(),
            add_fits(old(self).elems(), rhs.elems()),
        ensures
            final(self).wf(),
            final(self).elems() == seq_add(old(self).elems(), rhs.elems()),
    ;

    /// Pairwise difference, in place.
    fn sub_vector_mut(&mut self, rhs: Self)
        requires
            old(self).wf(),
            rhs.wf(),
            old(self).elems().len() == rhs.elems().len(),
            sub_fits(old(self).elems(), rhs.elems()),
        ensures
            final(self).wf(),
            final(self).elems() == seq_sub(old(self).elems(), rhs.elems()),
    ;

    /// Pairwise (Hadamard) product, in place.
    fn entrywise_mut(&mut self, rhs: Self)
        requires
            old(self).wf(),
            rhs.wf(),
            old(self).elems().len() == rhs.elems().len(),
            mul_fits(old(self).elems(), rhs.elems()),
        ensures
            final(self).wf(),
            final(self).elems() == seq_mul(old(self).elems(), rhs.elems()),
    ;

    /// Every element multiplied by `k`, in place.
    fn scalar_mul_mut(&mut self, k: i64)
        requires
            old(self).wf(),
            scale_fits(old(self).elems(), k as int),
        ensures
            final(self).wf(),
            final(self).elems() == seq_scale(old(self).elems(), k as int),
    ;
}

/// `N` values of `i64` stored inline.
#[derive(Debug, Clone, Copy)]
pub struct InlineVector<const N: usize> {
    data: [i64; N],
}

impl<const N: usize> View for InlineVector<N> {
    type V = Seq<i64>;

    closed spec fn view(&self) -> Seq<i64> {
        self.data@
    }
}

impl<const N: usize> InlineVector<N> {
    /// The exact values of the elements.
    pub open spec fn values(&self) -> Seq<int> {
        ints(self@)
    }

    /// The vector whose every element is `v`.
    pub fn new_with(v: i64) -> (r: Self)
        ensures
            r.values() == Seq::new(N as nat, |i: int| v as int),
    {
        let r = InlineVector { data: [v; N] };
        assert(r.values() =~= Seq::new(N as nat, |i: int| v as int));
        r
    }

    /// The vector of `N` zeros.
    pub fn new_zero() -> (r: Self)
        ensures
            r.values() == Seq::new(N as nat, |i: int| 0int),
    {
        InlineVector::new_with(zero())
    }

    /// The vector holding the elements of `src`.
    pub fn from(src: [i64; N]) -> (r: Self)
        ensures
            r.values() == ints(src@),
    {
        InlineVector { data: src }
    }

    /// The length, `N`.
    pub fn len(&self) -> (r: usize)
        ensures
            r == N,
            r == self.values().len(),
    {
        N
    }

    /// The element at `i`.
    pub fn get(&self, i: usize) -> (r: i64)
        requires
            i < N,
        ensures
            r == self.values()[i as int],
    {
        self.data[i]
    }

    /// Replaces the element at `i` by `v`.
    pub fn set(&mut self, i: usize, v: i64)
        requires
            i < N,
        ensures
            final(self).values() == old(self).values().update(i as int, v as int),
    {
        self.data[i] = v;
        assert(self.values() =~= old(self).values().update(i as int, v as int));
    }

    /// The elements in index order.
    pub fn to_vec(&self) -> (r: Vec<i64>)
        ensures
            ints(r@) == self.values(),
    {
        let mut out: Vec<i64> = Vec::with_capacity(N);
        let mut i: usize = 0;
        while i < N
            invariant
                i <= N,
                out@ == self.data@.subrange(0, i as int),
            decreases N - i,
        {
            out.push(self.data[i]);
            i = i + 1;
            assert(out@ =~= self.data@.subrange(0, i as int));
        }
        assert(out@ =~= self.data@);
        out
    }

    /// `op` applied pairwise with `rhs`, in place.
    fn zip_in_place(&mut self, rhs: &Self, op: Pairwise)
        requires
            pairwise_fits(op, old(self).values(), rhs.values()),
        ensures
            final(self).values() == pairwise_seq(op, old(self).values(), rhs.values()),
    {
        let ghost want = pairwise_seq(op, self.values(), rhs.values());
        let mut i: usize = 0;
        while i < N
            invariant
                i <= N,
                want == pairwise_seq(op, old(self).values(), rhs.values()),
                pairwise_fits(op, old(self).values(), rhs.values()),
                forall|k: int| 0 <= k < i ==> #[trigger] self.data@[k] == want[k],
                forall|k: int| i <= k < N ==> #[trigger] self.data@[k] == old(self).data@[k],
            decreases N - i,
        {
            assert(fits(want[i as int]));
            let x = apply(op, self.data[i], rhs.data[i]);
            self.data[i] = x;
            i = i + 1;
        }
        assert(self.values() =~= want);
    }

    /// Every element multiplied by `k`, in place.
    fn scale_in_place(&mut self, k: i64)
        requires
            scale_fits(old(self).values(), k as int),
        ensures
            final(self).values() == seq_scale(old(self).values(), k as int),
    {
        let ghost want = seq_scale(self.values(), k as int);
        let mut i: usize = 0;
        while i < N
            invariant
                i <= N,
                want == seq_scale(old(self).values(), k as int),
                scale_fits(old(self).values(), k as int),
                forall|j: int| 0 <= j < i ==> #[trigger] self.data@[j] == want[j],
                forall|j: int| i <= j < N ==> #[trigger] self.data@[j] == old(self).data@[j],
            decreases N - i,
        {
            assert(fits(want[i as int]));
            let x = self.data[i] * k;
            self.data[i] = x;
            i = i + 1;
        }
        assert(self.values() =~= want);
    }
}

impl<const N: usize> MathVector for InlineVector<N> {
    open spec fn elems(&self) -> Seq<int> {
        self.values()
    }

    open spec fn wf(&self) -> bool {
        true
    }

    fn add_vector(self, rhs: Self) -> (r: Self) {
        let mut out = self;
        out.add_vector_mut(rhs);
        out
    }

    fn sub_vector(self, rhs: Self) -> (r: Self) {
        let mut out = self;
        out.sub_vector_mut(rhs);
        out
    }

    fn entrywise(self, rhs: Self) -> (r: Self) {
        let mut out = self;
        out.entrywise_mut(rhs);
        out
    }

    fn scalar_mul(self, k: i64) -> (r: Self) {
        let mut out = self;
        out.scalar_mul_mut(k);
        out
    }

    fn dot(&self, rhs: &Self) -> (r: i64) {
        dot_onto(zero(), self.data.as_slice(), rhs.data.as_slice())
    }

    fn add_vector_mut(&mut self, rhs: Self) {
        proof {
            lemma_pairwise_named(self.values(), rhs.values());
        }
        self.zip_in_place(&rhs, Pairwise::Add);
    }

    fn sub_vector_mut(&mut self, rhs: Self) {
        proof {
            lemma_pairwise_named(self.values(), rhs.values());
        }
        self.zip_in_place(&rhs, Pairwise::Sub);
    }

    fn entrywise_mut(&mut self, rhs: Self) {
        proof {
            lemma_pairwise_named(self.values(), rhs.values());
        }
        self.zip_in_place(&rhs, Pairwise::Mul);
    }

    fn scalar_mul_mut(&mut self, k: i64) {
        self.scale_in_place(k);
    }
}

/// `N` values of `i64` stored on the heap.
#[derive(Debug, Clone)]
pub struct HeapVector<const N: usize> {
    data: Vec<i64>,
}

impl<const N: usize> View for HeapVector<N> {
    type V = Seq<i64>;

    closed spec fn view(&self) -> Seq<i64> {
        self.data@
    }
}

impl<const N: usize> HeapVector<N> {
    /// The exact values of the elements.
    pub open spec fn values(&self) -> Seq<int> {
        ints(self@)
    }

    /// The vector holds exactly `N` elements.
    pub open spec fn has_len(&self) -> bool {
        self@.len() == N
    }

    /// The vector whose every element is `v`.
    pub fn new_with(v: i64) -> (r: Self)
        ensures
            r.has_len(),
            r.values() == Seq::new(N as nat, |i: int| v as int),
    {
        let mut data: Vec<i64> = Vec::with_capacity(N);
        let mut i: usize = 0;
        while i < N
            invariant
                i <= N,
                data@ == Seq::new(i as nat, |k: int| v),
            decreases N - i,
        {
            data.push(v);
            i = i + 1;
            assert(data@ =~= Seq::new(i as nat, |k: int| v));
        }
        let r = HeapVector { data };
        assert(r.values() =~= Seq::new(N as nat, |k: int| v as int));
        r
    }

    /// The vector of `N` zeros.
    pub fn new_zero() -> (r: Self)
        ensures
            r.has_len(),
            r.values() == Seq::new(N as nat, |i: int| 0int),
    {
        HeapVector::new_with(zero())
    }

    /// The vector holding the elements of `src`; fails when `src` does not
    /// hold exactly `N` elements.
    pub fn from(src: Vec<i64>) -> (r: Result<Self, ShapeError>)
        ensures
            r is Ok <==> src@.len() == N,
            r matches Ok(v) ==> v.has_len() && v.values() == ints(src@),
            r is Err ==> r == Err::<Self, ShapeError>(
                ShapeError::LengthMismatch { expected: N, found: src@.len() as usize },
            ),
    {
        if src.len() != N {
            return Err(ShapeError::LengthMismatch { expected: N, found: src.len() });
        }
        Ok(HeapVector { data: src })
    }

    /// A heap copy of an inline vector.
    pub fn from_inline(iv: &InlineVector<N>) -> (r: Self)
        ensures
            r.has_len(),
            r.values() == iv.values(),
    {
        let data = iv.to_vec();
        assert(data@.len() == iv.values().len());
        HeapVector { data }
    }

    /// An inline copy; fails when the vector does not hold exactly `N`
    /// elements.
    pub fn to_inline(&self) -> (r: Result<InlineVector<N>, ShapeError>)
        ensures
            r is Ok <==> self.values().len() == N,
            r matches Ok(v) ==> v.values() == self.values(),
            r is Err ==> r == Err::<InlineVector<N>, ShapeError>(
                ShapeError::LengthMismatch { expected: N, found: self.values().len() as usize },
            ),
    {
        if self.data.len() != N {
            return Err(ShapeError::LengthMismatch { expected: N, found: self.data.len() });
        }
        let mut out = InlineVector::<N>::new_zero();
        let mut i: usize = 0;
        while i < N
            invariant
                i <= N,
                self.data@.len() == N,
                out.values().len() == N,
                forall|k: int| 0 <= k < i ==> #[trigger] out.values()[k] == self.values()[k],
            decreases N - i,
        {
            out.set(i, self.data[i]);
            i = i + 1;
        }
        assert(out.values() =~= self.values());
        Ok(out)
    }

    /// The length, `N`.
    pub fn len(&self) -> (r: usize)
        requires
            self.has_len(),
        ensures
            r == N,
            r == self.values().len(),
    {
        self.data.len()
    }

    /// The element at `i`.
    pub fn get(&self, i: usize) -> (r: i64)
        requires
            self.has_len(),
            i < N,
        ensures
            r == self.values()[i as int],
    {
        self.data[i]
    }

    /// Replaces the element at `i` by `v`.
    pub fn set(&mut self, i: usize, v: i64)
        requires
            old(self).has_len(),
            i < N,
        ensures
            final(self).has_len(),
            final(self).values() == old(self).values().update(i as int, v as int),
    {
        self.data.set(i, v);
        assert(self.values() =~= old(self).values().update(i as int, v as int));
    }

    /// The elements in index order.
    pub fn to_vec(&self) -> (r: Vec<i64>)
        ensures
            ints(r@) == self.values(),
    {
        let mut out: Vec<i64> = Vec::with_capacity(self.data.len());
        let mut i: usize = 0;
        while i < self.data.len()
            invariant
                i <= self.data@.len(),
                out@ == self.data@.subrange(0, i as int),
            decreases self.data@.len() - i,
        {
            out.push(self.data[i]);
            i = i + 1;
            assert(out@ =~= self.data@.subrange(0, i as int));
        }
        assert(out@ =~= self.data@);
        out
    }

    /// `op` applied pairwise with `rhs`, in place.
    fn zip_in_place(&mut self, rhs: &Self, op: Pairwise)
        requires
            old(self).has_len(),
            rhs.has_len(),
            pairwise_fits(op, old(self).values(), rhs.values()),
        ensures
            final(self).has_len(),
            final(self).values() == pairwise_seq(op, old(self).values(), rhs.values()),
    {
        let ghost want = pairwise_seq(op, self.values(), rhs.values());
        let mut i: usize = 0;
        while i < N
            invariant
                i <= N,
                self.data@.len() == N,
                old(self).data@.len() == N,
                rhs.data@.len() == N,
                want == pairwise_seq(op, old(self).values(), rhs.values()),
                pairwise_fits(op, old(self).values(), rhs.values()),
                forall|k: int| 0 <= k < i ==> #[trigger] self.data@[k] == want[k],
                forall|k: int| i <= k < N ==> #[trigger] self.data@[k] == old(self).data@[k],
            decreases N - i,
        {
            assert(fits(want[i as int]));
            let x = apply(op, self.data[i], rhs.data[i]);
            self.data.set(i, x);
            i = i + 1;
        }
        assert(self.values() =~= want);
    }

    /// Every element multiplied by `k`, in place.
    fn scale_in_place(&mut self, k: i64)
        requires
            old(self).has_len(),
            scale_fits(old(self).values(), k as int),
        ensures
            final(self).has_len(),
            final(self).values() == seq_scale(old(self).values(), k as int),
    {
        let ghost want = seq_scale(self.values(), k as int);
        let mut i: usize = 0;
        while i < N
            invariant
                i <= N,
                self.data@.len() == N,
                old(self).data@.len() == N,
                want == seq_scale(old(self).values(), k as int),
                scale_fits(old(self).values(), k as int),
                forall|j: int| 0 <= j < i ==> #[trigger] self.data@[j] == want[j],
                forall|j: int| i <= j < N ==> #[trigger] self.data@[j] == old(self).data@[j],
            decreases N - i,
        {
            assert(fits(want[i as int]));
            let x = self.data[i] * k;
            self.data.set(i, x);
            i = i + 1;
        }
        assert(self.values() =~= want);
    }
}

impl<const N: usize> MathVector for HeapVector<N> {
    open spec fn elems(&self) -> Seq<int> {
        self.values()
    }

    open spec fn wf(&self) -> bool {
        self.has_len()
    }

    fn add_vector(self, rhs: Self) -> (r: Self) {
        let mut out = self;
        out.add_vector_mut(rhs);
        out
    }

    fn sub_vector(self, rhs: Self) -> (r: Self) {
        let mut out = self;
        out.sub_vector_mut(rhs);
        out
    }

    fn entrywise(self, rhs: Self) -> (r: Self) {
        let mut out = self;
        out.entrywise_mut(rhs);
        out
    }

    fn scalar_mul(self, k: i64) -> (r: Self) {
        let mut out = self;
        out.scalar_mul_mut(k);
        out
    }

    fn dot(&self, rhs: &Self) -> (r: i64) {
        dot_onto(zero(), self.data.as_slice(), rhs.data.as_slice())
    }

    fn add_vector_mut(&mut self, rhs: Self) {
        proof {
            lemma_pairwise_named(self.values(), rhs.values());
        }
        self.zip_in_place(&rhs, Pairwise::Add);
    }

    fn sub_vector_mut(&mut self, rhs: Self) {
        proof {
            lemma_pairwise_named(self.values(), rhs.values());
        }
        self.zip_in_place(&rhs, Pairwise::Sub);
    }

    fn entrywise_mut(&mut self, rhs: Self) {
        proof {
            lemma_pairwise_named(self.values(), rhs.values());
        }
        self.zip_in_place(&rhs, Pairwise::Mul);
    }

    fn scalar_mul_mut(&mut self, k: i64) {
        self.scale_in_place(k);
    }
}

/// Conversion of a sequence of `N` elements into a `Vec`, keeping their order.
pub trait IntoVec<T, const N: usize>: Sized {
    /// The elements, in order.
    spec fn items(&self) -> Seq<T>;

    /// The elements as a `Vec`.
    fn into_vec(self) -> (r: Vec<T>)
        ensures
            r@ == self.items(),
    ;
}

impl<T, const N: usize> IntoVec<T, N> for Vec<T> {
    open spec fn items(&self) -> Seq<T> {
        self@
    }

    fn into_vec(self) -> (r: Vec<T>) {
        self
    }
}

impl<T: Copy, const N: usize> IntoVec<T, N> for [T; N] {
    open spec fn items(&self) -> Seq<T> {
        self@
    }

    fn into_vec(self) -> (r: Vec<T>) {
        let mut converted: Vec<T> = Vec::with_capacity(N);
        let mut i: usize = 0;
        while i < N
            invariant
                i <= N,
                converted@ == self@.subrange(0, i as int),
            decreases N - i,
        {
            converted.push(self[i]);
            i = i + 1;
            assert(converted@ =~= self@.subrange(0, i as int));
        }
        assert(converted@ =~= self@);
        converted
    }
}

impl<const N: usize> IntoVec<i64, N> for InlineVector<N> {
    open spec fn items(&self) -> Seq<i64> {
        self@
    }

    fn into_vec(self) -> (r: Vec<i64>) {
        <[i64; N] as IntoVec<i64, N>>::into_vec(self.data)
    }
}

/// The dot product is symmetric, and the pairwise sum is commutative and
/// associative, for sequences of equal length.
pub proof fn lemma_vector_laws(u: Seq<int>, v: Seq<int>, w: Seq<int>)
    requires
        u.len() == v.len(),
        v.len() == w.len(),
    ensures
        dot_seq(u, v) == dot_seq(v, u),
        seq_add(u, v) == seq_add(v, u),
        seq_add(seq_add(u, v), w) == seq_add(u, seq_add(v, w)),
{
    crate::scalar::lemma_dot_prefix_commutes(u, v, u.len());
    assert(seq_add(u, v) =~= seq_add(v, u));
    assert(seq_add(seq_add(u, v), w) =~= seq_add(u, seq_add(v, w)));
}

/// On empty sequences the dot product is zero and the pairwise sum and
/// difference give the left operand back.
pub proof fn lemma_empty_vectors(u: Seq<int>, v: Seq<int>)
    requires
        u.len() == 0,
        v.len() == 0,
    ensures
        dot_seq(u, v) == 0,
        seq_add(u, v) == u,
        seq_sub(u, v) == u,
{
    assert(seq_add(u, v) =~= u);
    assert(seq_sub(u, v) =~= u);
}

/// Copying an inline vector to the heap and back gives its elements back:
/// the heap copy holds `N` elements, so the copy back succeeds, and it holds
/// the values it started from.
pub proof fn lemma_inline_round_trip<const N: usize>(
    iv: InlineVector<N>,
    hv: HeapVector<N>,
    back: InlineVector<N>,
)
    requires
        hv.values() == iv.values(),
        back.values() == hv.values(),
    ensures
        hv.values().len() == N,
        back.values() == iv.values(),
{
}

} // verus!
