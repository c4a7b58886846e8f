use vstd::prelude::*;

use crate::error::MatrixError;
use crate::numeric::Numeric;

verus! {

/// An owned, ordered sequence of numbers.
pub struct Vector<T> {
    data: Vec<T>,
}

impl<T> View for Vector<T> {
    type V = Seq<T>;

    closed spec fn view(&self) -> Seq<T> {
        self.data@
    }
}

impl<T> Vector<T> {
    pub fn new(data: Vec<T>) -> (r: Self)
        ensures
            r@ == data@,
    {
        Self { data }
    }

    pub fn len(&self) -> (r: usize)
        ensures
            r == self@.len(),
    {
        self.data.len()
    }

    pub fn as_vec(&self) -> (r: &Vec<T>)
        ensures
            r@ == self@,
    {
        &self.data
    }
}

/// The sum of `a[i] * b[i]` over the first `n` positions, accumulated from
/// the left starting at zero, in `T`'s own arithmetic.
pub open spec fn dot_prefix<T: Numeric>(a: Seq<T>, b: Seq<T>, n: nat) -> T
    decreases n,
{
    if n == 0 {
        T::spec_zero()
    } else {
        dot_prefix(a, b, (n - 1) as nat).spec_add(a[n - 1].spec_mul(b[n - 1]))
    }
}

/// The dot product of two sequences of equal length.
pub open spec fn dot<T: Numeric>(a: Seq<T>, b: Seq<T>) -> T {
    dot_prefix(a, b, a.len())
}

/// Computes the dot product of `a` and `b`, or reports that their lengths
/// differ.
pub fn dot_product<T: Numeric>(a: Vector<T>, b: Vector<T>) -> (r: Result<T, MatrixError>)
    ensures
        a@.len() == b@.len() ==> r == Ok::<T, MatrixError>(dot(a@, b@)),
        a@.len() != b@.len() ==> r == Err::<T, MatrixError>(
            MatrixError::DimensionMismatch { left: a@.len() as usize, right: b@.len() as usize },
        ),
{
    let n = a.len();
    if n != b.len() {
        return Err(MatrixError::DimensionMismatch { left: n, right: b.len() });
    }
    let mut sum = T::zero();
    let mut i: usize = 0;
    while i < n
        invariant
            n == a@.len(),
            n == b@.len(),
            i <= n,
            sum == dot_prefix(a@, b@, i as nat),
        decreases n - i,
    {
        let x = a.data[i];
        let y = b.data[i];
        sum = sum.num_add(x.num_mul(y));
        i = i + 1;
    }
    Ok(sum)
}

} // verus!
