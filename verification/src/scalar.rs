use vstd::prelude::*;

// Unverified code that implements `Scalar` must write out the trait's
// specification-level members too (with unreachable bodies); these aliases
// let it name their parameter types without depending on the verifier's
// libraries itself.
pub use vstd::prelude::int as SpecInt;
pub use vstd::prelude::Seq as SpecSeq;

verus! {

/// A complex value, stored as its real and imaginary parts.
///
/// The calibration gains consumed by the engines are complex; the engines
/// themselves only ever need the magnitude and the phase angle of each value,
/// both of which are computed from the two parts through `Scalar`.
#[derive(Clone, Copy)]
pub struct Complex<T> {
    pub re: T,
    pub im: T,
}

/// The numeric capability the metrics engines are written against.
///
/// The engines are generic over the scalar type so that the verified code
/// never depends on a particular machine representation of real numbers:
/// every arithmetic step of every metric is pinned, in the contracts, to the
/// abstract operations below. A runtime instantiates the trait with its
/// floating-point type; the spec-level functions (`add_s`, `mul_s`, ...) then
/// stand for whatever that arithmetic computes, and each contract states the
/// exact expression a result is built from.
///
/// `dft_s`/`dft` stand for the discrete Fourier transform of a sequence,
/// which an implementation typically delegates to an FFT routine.
///
/// No type in this crate implements the trait: implementations live with
/// the unverified callers, outside the verifier's reach, so everything
/// proved here holds of an implementation exactly to the extent that its
/// methods honour the contracts below.
pub trait Scalar: Sized + Copy {
    /// Whether this value is the missing-data marker (NaN for floats).
    spec fn is_nan_s(self) -> bool;

    /// The implementation's `<=` relation. Not assumed to be total:
    /// comparisons against missing values may hold in neither direction.
    spec fn le_s(self, other: Self) -> bool;

    spec fn add_s(self, other: Self) -> Self;

    spec fn sub_s(self, other: Self) -> Self;

    spec fn mul_s(self, other: Self) -> Self;

    spec fn div_s(self, other: Self) -> Self;

    spec fn sqrt_s(self) -> Self;

    spec fn abs_s(self) -> Self;

    /// The angle of the point `(x, y)` where `self` is `y` and `other` is `x`.
    spec fn atan2_s(self, other: Self) -> Self;

    /// The scalar representing the exact non-negative integer `n`.
    spec fn from_count_s(n: int) -> Self;

    /// The missing-data marker itself.
    spec fn nan_s() -> Self;

    /// The discrete Fourier transform of `input`, one complex value per bin.
    spec fn dft_s(input: Seq<Self>) -> Seq<Complex<Self>>;

    fn is_nan(self) -> (r: bool)
        ensures
            r == self.is_nan_s(),
    ;

    fn le(self, other: Self) -> (r: bool)
        ensures
            r == self.le_s(other),
    ;

    fn add(self, other: Self) -> (r: Self)
        ensures
            r == self.add_s(other),
    ;

    fn sub(self, other: Self) -> (r: Self)
        ensures
            r == self.sub_s(other),
    ;

    fn mul(self, other: Self) -> (r: Self)
        ensures
            r == self.mul_s(other),
    ;

    fn div(self, other: Self) -> (r: Self)
        ensures
            r == self.div_s(other),
    ;

    fn sqrt(self) -> (r: Self)
        ensures
            r == self.sqrt_s(),
    ;

    fn abs(self) -> (r: Self)
        ensures
            r == self.abs_s(),
    ;

    fn atan2(self, other: Self) -> (r: Self)
        ensures
            r == self.atan2_s(other),
    ;

    fn from_count(n: usize) -> (r: Self)
        ensures
            r == Self::from_count_s(n as int),
    ;

    fn nan() -> (r: Self)
        ensures
            r == Self::nan_s(),
            r.is_nan_s(),
    ;

    fn dft(input: &Vec<Self>) -> (r: Vec<Complex<Self>>)
        ensures
            r@ == Self::dft_s(input@),
            r@.len() == input@.len(),
    ;
}

/// A complex value is missing when either of its parts is.
pub open spec fn complex_is_nan<T: Scalar>(c: Complex<T>) -> bool {
    c.re.is_nan_s() || c.im.is_nan_s()
}

/// The magnitude of a complex value: `sqrt(re*re + im*im)`.
pub open spec fn magnitude_s<T: Scalar>(c: Complex<T>) -> T {
    (c.re.mul_s(c.re).add_s(c.im.mul_s(c.im))).sqrt_s()
}

/// The phase angle of a complex value: `atan2(im, re)`.
pub open spec fn phase_s<T: Scalar>(c: Complex<T>) -> T {
    c.im.atan2_s(c.re)
}

/// The scalar zero.
pub open spec fn zero_s<T: Scalar>() -> T {
    T::from_count_s(0)
}

/// Whether a scalar compares equal to zero in both directions; for floats
/// this holds exactly of the two signed zeros, and never of NaN.
pub open spec fn is_zero_s<T: Scalar>(t: T) -> bool {
    t.le_s(zero_s()) && zero_s::<T>().le_s(t)
}

/// Tests a computed scalar against zero; the degenerate-denominator guards
/// of the engines are built on this.
pub fn is_zero<T: Scalar>(t: T) -> (r: bool)
    ensures
        r == is_zero_s(t),
{
    let z: T = T::from_count(0);
    t.le(z) && z.le(t)
}

/// The magnitude of a complex value, computed through `Scalar`.
pub fn magnitude<T: Scalar>(c: Complex<T>) -> (r: T)
    ensures
        r == magnitude_s(c),
{
    (c.re.mul(c.re).add(c.im.mul(c.im))).sqrt()
}

/// The phase angle of a complex value, computed through `Scalar`.
pub fn phase<T: Scalar>(c: Complex<T>) -> (r: T)
    ensures
        r == phase_s(c),
{
    c.im.atan2(c.re)
}

/// Copies a vector of scalars.
pub fn copy_vec<T: Scalar>(v: &Vec<T>) -> (r: Vec<T>)
    ensures
        r@ =~= v@,
{
    let mut r: Vec<T> = Vec::new();
    let mut i: usize = 0;
    while i < v.len()
        invariant
            0 <= i <= v@.len(),
            r@.len() == i,
            forall|k: int| 0 <= k < i ==> r@[k] == v@[k],
        decreases v@.len() - i,
    {
        r.push(v[i]);
        i += 1;
    }
    r
}

/// Left-to-right sum of a sequence, starting from zero; the engines'
/// contracts state every sum in this order.
pub open spec fn sum_s<T: Scalar>(s: Seq<T>) -> T
    decreases s.len(),
{
    if s.len() == 0 {
        zero_s()
    } else {
        sum_s(s.drop_last()).add_s(s.last())
    }
}

} // verus!
