use linalg::error::ShapeError;
use linalg::scalar::zero;
use linalg::vector::{HeapVector, InlineVector, IntoVec, MathVector};

#[test]
fn inline_dot_add_entrywise() {
    let u = InlineVector::<3>::from([1, 2, 3]);
    let v = InlineVector::<3>::from([4, 5, 6]);
    assert_eq!(u.dot(&v), 32);
    assert_eq!(u.add_vector(v).to_vec(), vec![5, 7, 9]);
    assert_eq!(u.entrywise(v).to_vec(), vec![4, 10, 18]);
}

#[test]
fn heap_dot_add_entrywise() {
    let u = HeapVector::<3>::from(vec![1, 2, 3]).unwrap();
    let v = HeapVector::<3>::from(vec![4, 5, 6]).unwrap();
    assert_eq!(u.dot(&v), 32);
    assert_eq!(u.clone().add_vector(v.clone()).to_vec(), vec![5, 7, 9]);
    assert_eq!(u.entrywise(v).to_vec(), vec![4, 10, 18]);
}

#[test]
fn sub_and_scalar_mul() {
    let u = InlineVector::<3>::from([10, 20, 30]);
    let v = InlineVector::<3>::from([1, 2, 3]);
    assert_eq!(u.sub_vector(v).to_vec(), vec![9, 18, 27]);
    assert_eq!(v.scalar_mul(-2).to_vec(), vec![-2, -4, -6]);
    let h = HeapVector::<3>::from(vec![10, 20, 30]).unwrap();
    let g = HeapVector::<3>::from(vec![1, 2, 3]).unwrap();
    assert_eq!(h.sub_vector(g.clone()).to_vec(), vec![9, 18, 27]);
    assert_eq!(g.scalar_mul(3).to_vec(), vec![3, 6, 9]);
}

#[test]
fn in_place_variants() {
    let mut u = InlineVector::<2>::from([1, 2]);
    u.add_vector_mut(InlineVector::from([10, 20]));
    assert_eq!(u.to_vec(), vec![11, 22]);
    u.sub_vector_mut(InlineVector::from([1, 1]));
    assert_eq!(u.to_vec(), vec![10, 21]);
    u.entrywise_mut(InlineVector::from([2, 3]));
    assert_eq!(u.to_vec(), vec![20, 63]);
    u.scalar_mul_mut(-1);
    assert_eq!(u.to_vec(), vec![-20, -63]);

    let mut h = HeapVector::<2>::from(vec![1, 2]).unwrap();
    h.add_vector_mut(HeapVector::from(vec![10, 20]).unwrap());
    assert_eq!(h.to_vec(), vec![11, 22]);
    h.sub_vector_mut(HeapVector::from(vec![1, 1]).unwrap());
    assert_eq!(h.to_vec(), vec![10, 21]);
    h.entrywise_mut(HeapVector::from(vec![2, 3]).unwrap());
    assert_eq!(h.to_vec(), vec![20, 63]);
    h.scalar_mul_mut(2);
    assert_eq!(h.to_vec(), vec![40, 126]);
}

#[test]
fn dot_and_add_commute_and_add_associates() {
    let u = InlineVector::<4>::from([1, -2, 3, 7]);
    let v = InlineVector::<4>::from([4, 5, -6, 0]);
    let w = InlineVector::<4>::from([9, 9, 1, -3]);
    assert_eq!(u.dot(&v), v.dot(&u));
    assert_eq!(u.add_vector(v).to_vec(), v.add_vector(u).to_vec());
    assert_eq!(
        u.add_vector(v).add_vector(w).to_vec(),
        u.add_vector(v.add_vector(w)).to_vec()
    );
}

#[test]
fn inline_heap_inline_round_trip() {
    let iv = InlineVector::<4>::from([3, -1, 4, 1]);
    let hv = HeapVector::from_inline(&iv);
    assert_eq!(hv.to_vec(), vec![3, -1, 4, 1]);
    let back = hv.to_inline().unwrap();
    assert_eq!(back.to_vec(), iv.to_vec());
}

#[test]
fn empty_inline_vector() {
    let u = InlineVector::<0>::new_zero();
    let v = InlineVector::<0>::from([]);
    assert_eq!(u.len(), 0);
    assert_eq!(u.dot(&v), 0);
    assert_eq!(u.add_vector(v).to_vec(), Vec::<i64>::new());
    assert_eq!(u.sub_vector(v).to_vec(), Vec::<i64>::new());
}

#[test]
fn heap_length_mismatch() {
    let err = HeapVector::<3>::from(vec![1, 2]).unwrap_err();
    assert_eq!(err, ShapeError::LengthMismatch { expected: 3, found: 2 });
}

#[test]
fn constructors_and_indexing() {
    assert_eq!(InlineVector::<3>::new_zero().to_vec(), vec![0, 0, 0]);
    assert_eq!(InlineVector::<2>::new_with(7).to_vec(), vec![7, 7]);
    assert_eq!(HeapVector::<3>::new_zero().to_vec(), vec![0, 0, 0]);
    assert_eq!(HeapVector::<2>::new_with(-7).to_vec(), vec![-7, -7]);
    let mut iv = InlineVector::<3>::from([1, 2, 3]);
    iv.set(1, 20);
    assert_eq!(iv.get(1), 20);
    assert_eq!(iv.len(), 3);
    let mut hv = HeapVector::<3>::from(vec![1, 2, 3]).unwrap();
    hv.set(2, 30);
    assert_eq!(hv.get(2), 30);
    assert_eq!(hv.len(), 3);
}

#[test]
fn into_vec_keeps_order() {
    assert_eq!(<Vec<i64> as IntoVec<i64, 2>>::into_vec(vec![5, 6]), vec![5, 6]);
    assert_eq!(<[i64; 3] as IntoVec<i64, 3>>::into_vec([7, 8, 9]), vec![7, 8, 9]);
    let iv = InlineVector::<2>::from([1, 2]);
    assert_eq!(IntoVec::<i64, 2>::into_vec(iv), vec![1, 2]);
}

#[test]
fn zero_is_additive_identity() {
    assert_eq!(zero(), 0);
    assert_eq!(zero() + 5, 5);
}
