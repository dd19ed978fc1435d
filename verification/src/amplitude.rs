use vstd::prelude::*;

use crate::interp::{interp_nans_inplace, interp_seq};
use crate::scalar::{
    copy_vec, is_zero, is_zero_s, magnitude, magnitude_s, sum_s, Complex, Scalar,
};
use crate::solutions::{Pol, SolutionSet};

verus! {

/// An observation-level failure of the amplitude engine.
#[derive(Clone, Copy, Debug, PartialEq, Eq, Structural)]
pub enum MetricsError {
    /// Some channel had no valid magnitude in any tile, so its reference
    /// median is undefined and no tile's curve can be normalized.
    MedianUndefined,
}

/// The entries of `s` that are not missing, in their original order.
pub open spec fn keep_valid<T: Scalar>(s: Seq<T>) -> Seq<T>
    decreases s.len(),
{
    if s.len() == 0 {
        Seq::empty()
    } else if s.last().is_nan_s() {
        keep_valid(s.drop_last())
    } else {
        keep_valid(s.drop_last()).push(s.last())
    }
}

/// Inserts `x` into `s` before the first entry that `x` compares
/// less-or-equal to.
pub open spec fn insert_sorted<T: Scalar>(s: Seq<T>, x: T) -> Seq<T>
    decreases s.len(),
{
    if s.len() == 0 {
        seq![x]
    } else if x.le_s(s[0]) {
        seq![x] + s
    } else {
        seq![s[0]] + insert_sorted(s.drop_first(), x)
    }
}

/// Insertion sort under the scalar `le` relation, taking the entries in
/// their original order. This fixes one definite arrangement even where the
/// relation leaves ties.
pub open spec fn sort_by_le<T: Scalar>(s: Seq<T>) -> Seq<T>
    decreases s.len(),
{
    if s.len() == 0 {
        Seq::empty()
    } else {
        insert_sorted(sort_by_le(s.drop_last()), s.last())
    }
}

proof fn lemma_insert_sorted_len<T: Scalar>(s: Seq<T>, x: T)
    ensures
        insert_sorted(s, x).len() == s.len() + 1,
    decreases s.len(),
{
    if s.len() > 0 && !x.le_s(s[0]) {
        lemma_insert_sorted_len(s.drop_first(), x);
    }
}

proof fn lemma_sort_len<T: Scalar>(s: Seq<T>)
    ensures
        sort_by_le(s).len() == s.len(),
    decreases s.len(),
{
    if s.len() > 0 {
        lemma_sort_len(s.drop_last());
        lemma_insert_sorted_len(sort_by_le(s.drop_last()), s.last());
    }
}

/// Inserting before position `p` — the first position whose entry `x`
/// compares less-or-equal to — is exactly what `insert_sorted` does.
proof fn lemma_insert_sorted_at<T: Scalar>(s: Seq<T>, x: T, p: int)
    requires
        0 <= p <= s.len(),
        forall|k: int| 0 <= k < p ==> !x.le_s(s[k]),
        p < s.len() ==> x.le_s(s[p]),
    ensures
        insert_sorted(s, x) =~= s.insert(p, x),
    decreases s.len(),
{
    if s.len() == 0 {
    } else if x.le_s(s[0]) {
        assert(p == 0);
    } else {
        assert(p >= 1);
        lemma_insert_sorted_at(s.drop_first(), x, p - 1);
        assert(insert_sorted(s, x) == seq![s[0]] + insert_sorted(s.drop_first(), x));
        assert(seq![s[0]] + s.drop_first().insert(p - 1, x) =~= s.insert(p, x));
    }
}

/// The reference median of a sequence of magnitudes: the missing entries
/// are dropped, the rest sorted under `le`; an odd count takes the middle
/// entry, an even count the midpoint `a + (b - a) * (1/2)` of the two middle
/// entries. `None` when no entry is valid.
pub open spec fn median_of<T: Scalar>(v: Seq<T>) -> Option<T> {
    let valid = keep_valid(v);
    let k = valid.len() as int;
    if k == 0 {
        None
    } else {
        let sorted = sort_by_le(valid);
        if k % 2 == 1 {
            Some(sorted[(k - 1) / 2])
        } else {
            let a = sorted[k / 2 - 1];
            let b = sorted[k / 2];
            Some(a.add_s((b.sub_s(a)).mul_s(T::from_count_s(1).div_s(T::from_count_s(2)))))
        }
    }
}

/// One tile's gain-magnitude curve across channels.
pub open spec fn mag_seq<T: Scalar>(s: SolutionSet<T>, t: int, pol: Pol) -> Seq<T> {
    Seq::new(s.num_chans as nat, |c: int| magnitude_s(s.gain(t, c, pol)))
}

/// One channel's gain magnitudes across all tiles.
pub open spec fn chan_col<T: Scalar>(s: SolutionSet<T>, c: int, pol: Pol) -> Seq<T> {
    Seq::new(s.num_tiles as nat, |t: int| magnitude_s(s.gain(t, c, pol)))
}

/// Whether every channel of a polarization has a defined reference median.
pub open spec fn medians_ok<T: Scalar>(s: SolutionSet<T>, pol: Pol) -> bool {
    forall|c: int| 0 <= c < s.num_chans ==> median_of(chan_col(s, c, pol)) is Some
}

/// One tile's magnitude curve divided element-wise by the per-channel
/// reference medians: the bandpass shape shared by all tiles is removed, so
/// what is left measures deviation from the norm.
pub open spec fn norm_curve<T: Scalar>(s: SolutionSet<T>, t: int, pol: Pol) -> Seq<T> {
    Seq::new(
        s.num_chans as nat,
        |c: int| magnitude_s(s.gain(t, c, pol)).div_s(median_of(chan_col(s, c, pol)).unwrap()),
    )
}

/// The non-DC half-spectrum magnitudes of the interpolated curve, each
/// normalized by the DC-bin magnitude: bins `1 .. len/2 - 1` inclusive.
pub open spec fn bin_seq<T: Scalar>(curve: Seq<T>) -> Seq<T> {
    let spect = T::dft_s(interp_seq(curve));
    let dc = magnitude_s(spect[0]);
    Seq::new((curve.len() as int / 2 - 1) as nat, |k: int| magnitude_s(spect[k + 1]).div_s(dc))
}

/// The smoothness score of one normalized gain curve: the mean of the
/// DC-normalized non-DC half-spectrum magnitudes of the interpolated curve.
/// Low means a slowly varying curve, high means high-frequency ripple.
/// `None` when there are no such bins (fewer than four channels) or when
/// the DC-bin magnitude compares equal to zero, which would make the
/// normalization undefined: a per-tile numeric failure, not a crash.
pub open spec fn smoothness_of<T: Scalar>(curve: Seq<T>) -> Option<T> {
    let spect = T::dft_s(interp_seq(curve));
    let dc = magnitude_s(spect[0]);
    let nbins = curve.len() as int / 2 - 1;
    if nbins <= 0 {
        None
    } else if is_zero_s(dc) {
        None
    } else {
        Some(sum_s(bin_seq(curve)).div_s(T::from_count_s(nbins)))
    }
}

/// The smoothness score of one kept tile.
pub open spec fn tile_smoothness<T: Scalar>(s: SolutionSet<T>, t: int, pol: Pol) -> Option<T> {
    smoothness_of(norm_curve(s, t, pol))
}

/// One observation's amplitude-smoothness metrics: per kept tile, the XX
/// and YY smoothness scores, both vectors in the same kept-tile order.
pub struct AmpMetrics<T> {
    pub id: usize,
    pub xx_smoothness: Vec<Option<T>>,
    pub yy_smoothness: Vec<Option<T>>,
}

/// The tile indices the amplitude engine reports, in order.
pub open spec fn amp_tiles<T: Scalar>(s: SolutionSet<T>) -> Seq<int> {
    s.kept_tiles()
}

/// Whether the amplitude engine succeeds on an observation.
pub open spec fn amp_ok<T: Scalar>(s: SolutionSet<T>) -> bool {
    medians_ok(s, Pol::Xx) && medians_ok(s, Pol::Yy)
}

/// Exactly what a successful amplitude result holds: the observation's id,
/// and per reported tile, in order, the XX and YY smoothness scores.
pub open spec fn amp_metrics_spec<T: Scalar>(s: SolutionSet<T>, m: AmpMetrics<T>) -> bool {
    &&& m.id == s.id
    &&& m.xx_smoothness@.len() == amp_tiles(s).len()
    &&& m.yy_smoothness@.len() == amp_tiles(s).len()
    &&& forall|i: int|
        0 <= i < amp_tiles(s).len() ==> m.xx_smoothness@[i] == tile_smoothness(
            s,
            amp_tiles(s)[i],
            Pol::Xx,
        )
    &&& forall|i: int|
        0 <= i < amp_tiles(s).len() ==> m.yy_smoothness@[i] == tile_smoothness(
            s,
            amp_tiles(s)[i],
            Pol::Yy,
        )
}

/// Drops the missing entries of a vector, keeping the order.
fn filter_valid<T: Scalar>(v: &Vec<T>) -> (r: Vec<T>)
    ensures
        r@ =~= keep_valid(v@),
{
    let mut r: Vec<T> = Vec::new();
    let mut i: usize = 0;
    while i < v.len()
        invariant
            0 <= i <= v@.len(),
            r@ == keep_valid(v@.take(i as int)),
        decreases v@.len() - i,
    {
        proof {
            assert(v@.take(i + 1).drop_last() =~= v@.take(i as int));
        }
        if !v[i].is_nan() {
            r.push(v[i]);
        }
        i += 1;
    }
    proof {
        assert(v@.take(v@.len() as int) =~= v@);
    }
    r
}

/// Inserts `x` into the sorted vector before the first entry `x` compares
/// less-or-equal to.
fn insert_in_sorted<T: Scalar>(v: &mut Vec<T>, x: T)
    ensures
        final(v)@ =~= insert_sorted(old(v)@, x),
{
    let mut p: usize = 0;
    while p < v.len() && !x.le(v[p])
        invariant
            v@ == old(v)@,
            0 <= p <= v@.len(),
            forall|k: int| 0 <= k < p ==> !x.le_s(v@[k]),
        decreases v@.len() - p,
    {
        p += 1;
    }
    proof {
        lemma_insert_sorted_at(v@, x, p as int);
    }
    v.insert(p, x);
}

/// Insertion sort under the scalar `le` relation.
fn sort_vec<T: Scalar>(v: &Vec<T>) -> (r: Vec<T>)
    ensures
        r@ =~= sort_by_le(v@),
{
    let mut r: Vec<T> = Vec::new();
    let mut i: usize = 0;
    while i < v.len()
        invariant
            0 <= i <= v@.len(),
            r@ == sort_by_le(v@.take(i as int)),
        decreases v@.len() - i,
    {
        proof {
            assert(v@.take(i + 1).drop_last() =~= v@.take(i as int));
        }
        insert_in_sorted(&mut r, v[i]);
        i += 1;
    }
    proof {
        assert(v@.take(v@.len() as int) =~= v@);
    }
    r
}

/// The median of the valid entries of `values`, as `median_of` describes;
/// `None` when every entry is missing.
pub fn calc_median<T: Scalar>(values: &Vec<T>) -> (r: Option<T>)
    ensures
        r == median_of(values@),
{
    let valid = filter_valid(values);
    let k: usize = valid.len();
    if k == 0 {
        return None;
    }
    let sorted = sort_vec(&valid);
    proof {
        lemma_sort_len(valid@);
    }
    if k % 2 == 1 {
        Some(sorted[(k - 1) / 2])
    } else {
        let a: T = sorted[k / 2 - 1];
        let b: T = sorted[k / 2];
        Some(a.add((b.sub(a)).mul(T::from_count(1).div(T::from_count(2)))))
    }
}

/// One tile's gain-magnitude curve across channels.
fn magnitude_row<T: Scalar>(s: &SolutionSet<T>, t: usize, pol: Pol) -> (r: Vec<T>)
    requires
        s.well_formed(),
        t < s.num_tiles,
    ensures
        r@ =~= mag_seq(*s, t as int, pol),
{
    let mut r: Vec<T> = Vec::new();
    let mut c: usize = 0;
    while c < s.num_chans
        invariant
            s.well_formed(),
            t < s.num_tiles,
            0 <= c <= s.num_chans,
            r@.len() == c,
            forall|i: int| 0 <= i < c ==> r@[i] == magnitude_s(s.gain(t as int, i, pol)),
        decreases s.num_chans - c,
    {
        let g = match pol {
            Pol::Xx => s.complex_gains[t][c].xx,
            Pol::Yy => s.complex_gains[t][c].yy,
        };
        r.push(magnitude(g));
        c += 1;
    }
    r
}

/// One channel's gain magnitudes across all tiles.
fn channel_column<T: Scalar>(s: &SolutionSet<T>, c: usize, pol: Pol) -> (r: Vec<T>)
    requires
        s.well_formed(),
        c < s.num_chans,
    ensures
        r@ =~= chan_col(*s, c as int, pol),
{
    let mut r: Vec<T> = Vec::new();
    let mut t: usize = 0;
    while t < s.num_tiles
        invariant
            s.well_formed(),
            c < s.num_chans,
            0 <= t <= s.num_tiles,
            r@.len() == t,
            forall|i: int| 0 <= i < t ==> r@[i] == magnitude_s(s.gain(i, c as int, pol)),
        decreases s.num_tiles - t,
    {
        let g = match pol {
            Pol::Xx => s.complex_gains[t][c].xx,
            Pol::Yy => s.complex_gains[t][c].yy,
        };
        r.push(magnitude(g));
        t += 1;
    }
    r
}

/// The per-channel reference medians for one polarization, or `None` as
/// soon as one channel has no valid magnitude in any tile.
fn median_reference<T: Scalar>(s: &SolutionSet<T>, pol: Pol) -> (r: Option<Vec<T>>)
    requires
        s.well_formed(),
    ensures
        r is Some <==> medians_ok(*s, pol),
        r is Some ==> {
            &&& r.unwrap()@.len() == s.num_chans
            &&& forall|c: int|
                0 <= c < s.num_chans ==> r.unwrap()@[c] == median_of(
                    chan_col(*s, c, pol),
                ).unwrap()
        },
{
    let mut r: Vec<T> = Vec::new();
    let mut c: usize = 0;
    while c < s.num_chans
        invariant
            s.well_formed(),
            0 <= c <= s.num_chans,
            r@.len() == c,
            forall|k: int| 0 <= k < c ==> median_of(chan_col(*s, k, pol)) is Some,
            forall|k: int| 0 <= k < c ==> r@[k] == median_of(chan_col(*s, k, pol)).unwrap(),
        decreases s.num_chans - c,
    {
        let col = channel_column(s, c, pol);
        match calc_median(&col) {
            Some(m) => {
                r.push(m);
            },
            None => {
                return None;
            },
        }
        c += 1;
    }
    Some(r)
}

/// Divides one magnitude curve element-wise by the reference medians.
fn normalize_row<T: Scalar>(row: &Vec<T>, reference: &Vec<T>) -> (r: Vec<T>)
    requires
        row@.len() == reference@.len(),
    ensures
        r@.len() == row@.len(),
        forall|i: int| 0 <= i < r@.len() ==> r@[i] == row@[i].div_s(reference@[i]),
{
    let mut r: Vec<T> = Vec::new();
    let mut i: usize = 0;
    while i < row.len()
        invariant
            row@.len() == reference@.len(),
            0 <= i <= row@.len(),
            r@.len() == i,
            forall|k: int| 0 <= k < i ==> r@[k] == row@[k].div_s(reference@[k]),
        decreases row@.len() - i,
    {
        r.push(row[i].div(reference[i]));
        i += 1;
    }
    r
}

/// Computes one curve's smoothness score, as `smoothness_of` describes:
/// interpolates the missing values, transforms, and averages the
/// DC-normalized non-DC half-spectrum magnitudes; `None` for a degenerate
/// spectrum.
pub fn calculate_smoothness<T: Scalar>(gains: &Vec<T>) -> (r: Option<T>)
    ensures
        r == smoothness_of(gains@),
{
    let mut g = copy_vec(gains);
    interp_nans_inplace(&mut g);
    proof {
        assert(g@ =~= interp_seq(gains@));
    }
    let spect: Vec<Complex<T>> = T::dft(&g);
    let n: usize = gains.len();
    if n / 2 < 2 {
        return None;
    }
    let nbins: usize = n / 2 - 1;
    let dc: T = magnitude(spect[0]);
    if is_zero(dc) {
        return None;
    }
    let ghost bins = bin_seq(gains@);
    let mut acc: T = T::from_count(0);
    let mut k: usize = 1;
    while k < n / 2
        invariant
            g@ == interp_seq(gains@),
            spect@ == T::dft_s(interp_seq(gains@)),
            spect@.len() == gains@.len(),
            n == gains@.len(),
            nbins == n / 2 - 1,
            n / 2 >= 2,
            dc == magnitude_s(T::dft_s(interp_seq(gains@))[0]),
            bins == bin_seq(gains@),
            1 <= k <= n / 2,
            acc == sum_s(bins.take(k - 1)),
        decreases n / 2 - k,
    {
        proof {
            assert(bins.take(k as int).drop_last() =~= bins.take(k - 1));
            assert(bins[k - 1] == magnitude_s(T::dft_s(interp_seq(gains@))[k as int]).div_s(dc));
        }
        acc = acc.add(magnitude(spect[k]).div(dc));
        k += 1;
    }
    proof {
        assert(bins.take(nbins as int) =~= bins);
    }
    Some(acc.div(T::from_count(nbins)))
}

/// Computes the amplitude-smoothness metrics of one observation: for every
/// kept (unflagged) tile, in ascending tile order, the smoothness score of
/// the bandpass-normalized XX and YY gain-magnitude curves. Fails for the
/// whole observation exactly when some channel of either polarization has
/// no valid magnitude in any tile, so no reference median exists there.
pub fn run_smoothness_calc<T: Scalar>(s: &SolutionSet<T>) -> (r: Result<
    AmpMetrics<T>,
    MetricsError,
>)
    requires
        s.well_formed(),
    ensures
        r is Ok <==> amp_ok(*s),
        r is Err ==> r == Result::<AmpMetrics<T>, MetricsError>::Err(MetricsError::MedianUndefined),
        r is Ok ==> amp_metrics_spec(*s, r.unwrap()),
{
    let ref_xx: Vec<T> = match median_reference(s, Pol::Xx) {
        Some(v) => v,
        None => {
            return Err(MetricsError::MedianUndefined);
        },
    };
    let ref_yy: Vec<T> = match median_reference(s, Pol::Yy) {
        Some(v) => v,
        None => {
            return Err(MetricsError::MedianUndefined);
        },
    };
    let kept = s.kept_tile_indices();
    let mut xx_smoothness: Vec<Option<T>> = Vec::new();
    let mut yy_smoothness: Vec<Option<T>> = Vec::new();
    let mut i: usize = 0;
    while i < kept.len()
        invariant
            s.well_formed(),
            ref_xx@.len() == s.num_chans,
            forall|c: int|
                0 <= c < s.num_chans ==> ref_xx@[c] == median_of(chan_col(*s, c, Pol::Xx)).unwrap(),
            ref_yy@.len() == s.num_chans,
            forall|c: int|
                0 <= c < s.num_chans ==> ref_yy@[c] == median_of(chan_col(*s, c, Pol::Yy)).unwrap(),
            kept@.len() == s.kept_tiles().len(),
            forall|k: int| 0 <= k < kept@.len() ==> kept@[k] as int == s.kept_tiles()[k],
            forall|k: int| 0 <= k < kept@.len() ==> kept@[k] < s.num_tiles,
            0 <= i <= kept@.len(),
            xx_smoothness@.len() == i,
            yy_smoothness@.len() == i,
            forall|k: int|
                0 <= k < i ==> xx_smoothness@[k] == tile_smoothness(*s, s.kept_tiles()[k], Pol::Xx),
            forall|k: int|
                0 <= k < i ==> yy_smoothness@[k] == tile_smoothness(*s, s.kept_tiles()[k], Pol::Yy),
        decreases kept@.len() - i,
    {
        let t: usize = kept[i];
        let xx_row = magnitude_row(s, t, Pol::Xx);
        let yy_row = magnitude_row(s, t, Pol::Yy);
        let xx_norm = normalize_row(&xx_row, &ref_xx);
        let yy_norm = normalize_row(&yy_row, &ref_yy);
        proof {
            assert(xx_norm@ =~= norm_curve(*s, t as int, Pol::Xx));
            assert(yy_norm@ =~= norm_curve(*s, t as int, Pol::Yy));
        }
        xx_smoothness.push(calculate_smoothness(&xx_norm));
        yy_smoothness.push(calculate_smoothness(&yy_norm));
        i += 1;
    }
    Ok(AmpMetrics { id: s.id, xx_smoothness, yy_smoothness })
}

} // verus!
