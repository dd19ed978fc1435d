use vstd::prelude::*;

use crate::scalar::Scalar;

verus! {

/// Whether every entry of the sequence is missing.
pub open spec fn all_nan<T: Scalar>(s: Seq<T>) -> bool {
    forall|i: int| 0 <= i < s.len() ==> s[i].is_nan_s()
}

/// Whether some entry of the sequence is missing.
pub open spec fn has_nan<T: Scalar>(s: Seq<T>) -> bool {
    exists|i: int| 0 <= i < s.len() && s[i].is_nan_s()
}

/// The largest valid (non-missing) index strictly below `i`, if any.
pub open spec fn prev_valid<T: Scalar>(s: Seq<T>, i: int) -> Option<int>
    decreases i,
{
    if i <= 0 || i > s.len() {
        None
    } else if !s[i - 1].is_nan_s() {
        Some(i - 1)
    } else {
        prev_valid(s, i - 1)
    }
}

/// The smallest valid (non-missing) index at or above `j`, if any.
pub open spec fn next_valid_from<T: Scalar>(s: Seq<T>, j: int) -> Option<int>
    decreases s.len() - j,
{
    if !(0 <= j < s.len()) {
        None
    } else if !s[j].is_nan_s() {
        Some(j)
    } else {
        next_valid_from(s, j + 1)
    }
}

/// The interpolated value for step `step` of `gap` between `y0` and `y1`:
/// `y0 + (y1 - y0) * (step / gap)`.
pub open spec fn lerp_s<T: Scalar>(y0: T, y1: T, step: int, gap: int) -> T {
    y0.add_s((y1.sub_s(y0)).mul_s(T::from_count_s(step).div_s(T::from_count_s(gap))))
}

/// The value the interpolator leaves at index `i`.
///
/// A valid entry stays. A missing entry inside a gap is interpolated between
/// the nearest valid values on either side; a leading gap takes the first
/// valid value of the sequence on both sides of the formula (a flat fill),
/// a trailing gap likewise takes the last valid value before it; in an
/// all-missing sequence the entry stays as it was.
pub open spec fn interp_val<T: Scalar>(s: Seq<T>, i: int) -> T {
    if !s[i].is_nan_s() {
        s[i]
    } else {
        match (prev_valid(s, i), next_valid_from(s, i + 1)) {
            (Some(l), Some(r)) => lerp_s(s[l], s[r], i - l, r - l),
            (Some(l), None) => lerp_s(s[l], s[l], i - l, s.len() - l),
            (None, Some(r)) => lerp_s(s[r], s[r], i + 1, r + 1),
            (None, None) => s[i],
        }
    }
}

/// The whole interpolated sequence.
pub open spec fn interp_seq<T: Scalar>(s: Seq<T>) -> Seq<T> {
    Seq::new(s.len(), |i: int| interp_val(s, i))
}

/// A sequence without missing entries is left exactly as it is.
pub proof fn lemma_interp_noop<T: Scalar>(s: Seq<T>)
    requires
        !has_nan(s),
    ensures
        interp_seq(s) =~= s,
{
    assert forall|i: int| 0 <= i < s.len() implies interp_seq(s)[i] == s[i] by {
        assert(!s[i].is_nan_s());
    }
}

/// An all-missing sequence is left exactly as it is: the interpolator is a
/// documented no-op there, and flagging policy keeps such rows away from the
/// engines in the first place.
pub proof fn lemma_interp_all_nan<T: Scalar>(s: Seq<T>)
    requires
        all_nan(s),
    ensures
        interp_seq(s) =~= s,
{
    assert forall|i: int| 0 <= i < s.len() implies interp_seq(s)[i] == s[i] by {
        lemma_prev_valid_none(s, i);
        lemma_next_valid_none(s, i + 1);
    }
}

proof fn lemma_prev_valid_none<T: Scalar>(s: Seq<T>, i: int)
    requires
        forall|k: int| 0 <= k < i ==> s[k].is_nan_s(),
    ensures
        prev_valid(s, i) is None,
    decreases i,
{
    if 0 < i <= s.len() {
        lemma_prev_valid_none(s, i - 1);
    }
}

proof fn lemma_next_valid_none<T: Scalar>(s: Seq<T>, j: int)
    requires
        forall|k: int| j <= k < s.len() ==> s[k].is_nan_s(),
    ensures
        next_valid_from(s, j) is None,
    decreases s.len() - j,
{
    if 0 <= j < s.len() {
        lemma_next_valid_none(s, j + 1);
    }
}

proof fn lemma_prev_valid_some<T: Scalar>(s: Seq<T>, l: int, i: int)
    requires
        0 <= l < i <= s.len(),
        !s[l].is_nan_s(),
        forall|k: int| l < k < i ==> s[k].is_nan_s(),
    ensures
        prev_valid(s, i) == Some(l),
    decreases i,
{
    if i - 1 > l {
        lemma_prev_valid_some(s, l, i - 1);
    }
}

proof fn lemma_next_valid_some<T: Scalar>(s: Seq<T>, j: int, r: int)
    requires
        0 <= j <= r < s.len(),
        !s[r].is_nan_s(),
        forall|k: int| j <= k < r ==> s[k].is_nan_s(),
    ensures
        next_valid_from(s, j) == Some(r),
    decreases s.len() - j,
{
    if j < r {
        lemma_next_valid_some(s, j + 1, r);
    }
}

/// In-place gap filling for a sequence-like container of scalars.
pub trait InterpolateNans<T: Scalar> {
    /// The container's contents as a sequence.
    spec fn contents(&self) -> Seq<T>;

    /// Linearly interpolates over missing values in place, as `interp_seq`
    /// describes.
    fn interp_nans_inplace(&mut self)
        ensures
            final(self).contents() =~= interp_seq(old(self).contents()),
    ;
}

impl<T: Scalar> InterpolateNans<T> for Vec<T> {
    open spec fn contents(&self) -> Seq<T> {
        self@
    }

    fn interp_nans_inplace(&mut self) {
        interp_nans_inplace(self)
    }
}

/// Fills every missing run of `v` in place, as `interp_seq` describes:
/// internal runs are linearly interpolated between their flanking valid
/// values, a leading run is flat-filled with the first valid value, a
/// trailing run is flat-filled with the last valid value before it, and an
/// all-missing sequence is left untouched.
#[verifier::rlimit(100)]
pub fn interp_nans_inplace<T: Scalar>(v: &mut Vec<T>)
    ensures
        final(v)@ =~= interp_seq(old(v)@),
{
    let ghost s = old(v)@;
    let n: usize = v.len();
    let mut i: usize = 0;
    while i < n
        invariant
            s == old(v)@,
            n == s.len(),
            v@.len() == n,
            0 <= i <= n,
            forall|k: int| 0 <= k < i ==> v@[k] == interp_val(s, k),
            forall|k: int| i <= k < n ==> v@[k] == s[k],
            0 < i < n && s[i as int].is_nan_s() ==> !s[i - 1].is_nan_s(),
        decreases n - i,
    {
        if v[i].is_nan() {
            let gap_start: usize = i;
            proof {
                assert(s[gap_start as int].is_nan_s());
                if gap_start > 0 {
                    assert(!s[gap_start - 1].is_nan_s());
                    assert(interp_val(s, gap_start - 1) == s[gap_start - 1]);
                }
            }
            let mut gap_end: usize = i + 1;
            while gap_end < n && v[gap_end].is_nan()
                invariant
                    gap_start < gap_end <= n,
                    n == s.len(),
                    v@.len() == n,
                    forall|k: int| gap_start <= k < n ==> v@[k] == s[k],
                    forall|k: int| gap_start <= k < gap_end ==> s[k].is_nan_s(),
                decreases n - gap_end,
            {
                gap_end += 1;
            }
            proof {
                assert(gap_end < n ==> !s[gap_end as int].is_nan_s());
            }

            let y0: T;
            let y1: T;
            let gap_len: usize;
            if gap_start == 0 {
                if gap_end < n {
                    y0 = v[gap_end];
                    y1 = y0;
                    gap_len = gap_end + 1;
                } else {
                    // Every entry is missing: leave the sequence untouched.
                    proof {
                        lemma_interp_all_nan(s);
                        assert(v@ =~= s);
                    }
                    return;
                }
            } else {
                y0 = v[gap_start - 1];
                if gap_end < n {
                    y1 = v[gap_end];
                } else {
                    y1 = y0;
                }
                gap_len = gap_end - (gap_start - 1);
            }
            let mut j: usize = gap_start;
            while j < gap_end
                invariant
                    gap_start <= j <= gap_end <= n,
                    gap_start < gap_end,
                    n == s.len(),
                    v@.len() == n,
                    gap_len == gap_end - gap_start + 1,
                    forall|k: int| 0 <= k < gap_start ==> v@[k] == interp_val(s, k),
                    forall|k: int| gap_end <= k < n ==> v@[k] == s[k],
                    forall|k: int| gap_start <= k < gap_end ==> s[k].is_nan_s(),
                    gap_start > 0 ==> !s[gap_start - 1].is_nan_s(),
                    gap_end < n ==> !s[gap_end as int].is_nan_s(),
                    gap_start == 0 ==> gap_end < n && y0 == s[gap_end as int] && y1 == y0,
                    gap_start > 0 ==> y0 == s[gap_start - 1],
                    gap_start > 0 && gap_end < n ==> y1 == s[gap_end as int],
                    gap_start > 0 && gap_end == n ==> y1 == y0,
                    forall|k: int|
                        gap_start <= k < j ==> v@[k] == lerp_s(
                            y0,
                            y1,
                            k - gap_start + 1,
                            gap_len as int,
                        ),
                decreases gap_end - j,
            {
                let step: usize = j - gap_start + 1;
                let frac: T = T::from_count(step).div(T::from_count(gap_len));
                let val: T = y0.add((y1.sub(y0)).mul(frac));
                v.set(j, val);
                j += 1;
            }

            proof {
                assert forall|k: int| gap_start <= k < gap_end implies v@[k] == interp_val(
                    s,
                    k,
                ) by {
                    if gap_start > 0 {
                        lemma_prev_valid_some(s, gap_start - 1, k);
                        if gap_end < n {
                            lemma_next_valid_some(s, k + 1, gap_end as int);
                            assert(interp_val(s, k) == lerp_s(
                                s[gap_start - 1],
                                s[gap_end as int],
                                k - (gap_start - 1),
                                gap_end - (gap_start - 1),
                            ));
                        } else {
                            lemma_next_valid_none(s, k + 1);
                            assert(interp_val(s, k) == lerp_s(
                                s[gap_start - 1],
                                s[gap_start - 1],
                                k - (gap_start - 1),
                                s.len() - (gap_start - 1),
                            ));
                        }
                    } else {
                        lemma_prev_valid_none(s, k);
                        lemma_next_valid_some(s, k + 1, gap_end as int);
                        assert(interp_val(s, k) == lerp_s(
                            s[gap_end as int],
                            s[gap_end as int],
                            k + 1,
                            gap_end + 1,
                        ));
                    }
                }
            }
            i = gap_end;
        } else {
            proof {
                assert(interp_val(s, i as int) == s[i as int]);
            }
            i += 1;
        }
    }
}

} // verus!
