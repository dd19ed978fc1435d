use vstd::prelude::*;

use crate::interp::{interp_nans_inplace, interp_seq};
use crate::scalar::{copy_vec, is_zero, is_zero_s, phase, phase_s, sum_s, Scalar};
use crate::solutions::{Pol, SolutionSet};

verus! {

/// The result of an ordinary least-squares line fit, computed in one call:
/// both coefficients are always present.
#[derive(Clone, Copy)]
pub struct LinearFit<T> {
    pub gradient: T,
    pub intercept: T,
}

/// The regression's independent variable: the channel indices `0, 1, ...`
/// as scalars.
pub open spec fn chan_x_seq<T: Scalar>(n: int) -> Seq<T> {
    Seq::new(n as nat, |c: int| T::from_count_s(c))
}

/// The element-wise products of two sequences, `x[i] * y[i]`.
pub open spec fn prod_seq<T: Scalar>(x: Seq<T>, y: Seq<T>) -> Seq<T> {
    Seq::new(x.len(), |i: int| x[i].mul_s(y[i]))
}

/// The least-squares gradient and intercept for `y` against `x`, from the
/// standard normal-equation sums; `y` has its missing values interpolated
/// first. `None` exactly when the denominator `n*Σx² - (Σx)²` compares equal
/// to zero (a degenerate regression, reported rather than divided through).
pub open spec fn fit_spec<T: Scalar>(x: Seq<T>, y: Seq<T>) -> Option<LinearFit<T>> {
    let yi = interp_seq(y);
    let n = T::from_count_s(x.len() as int);
    let sx = sum_s(x);
    let sy = sum_s(yi);
    let sxx = sum_s(prod_seq(x, x));
    let sxy = sum_s(prod_seq(x, yi));
    let denom = n.mul_s(sxx).sub_s(sx.mul_s(sx));
    if is_zero_s(denom) {
        None
    } else {
        let grad = (n.mul_s(sxy).sub_s(sx.mul_s(sy))).div_s(denom);
        let icept = (sy.sub_s(grad.mul_s(sx))).div_s(n);
        Some(LinearFit { gradient: grad, intercept: icept })
    }
}

/// The squared residuals of the interpolated `y` against the fitted line
/// `x*gradient + intercept`.
pub open spec fn resid_sq_seq<T: Scalar>(x: Seq<T>, y: Seq<T>, fit: LinearFit<T>) -> Seq<T> {
    let yi = interp_seq(y);
    Seq::new(
        x.len(),
        |i: int|
            {
                let d = yi[i].sub_s(x[i].mul_s(fit.gradient).add_s(fit.intercept));
                d.mul_s(d)
            },
    )
}

/// Root-mean-square error of the interpolated `y` against the fitted line:
/// `sqrt(mean((y - (x*gradient + intercept))²))`.
pub open spec fn rmse_with_spec<T: Scalar>(x: Seq<T>, y: Seq<T>, fit: LinearFit<T>) -> T {
    sum_s(resid_sq_seq(x, y, fit)).div_s(T::from_count_s(x.len() as int)).sqrt_s()
}

/// The residuals of the first curve, shifted so its first sample equals the
/// second curve's first sample, against the second curve.
pub open spec fn shifted_resid_seq<T: Scalar>(pol1: Seq<T>, pol2: Seq<T>) -> Seq<T> {
    let shift = pol1[0].sub_s(pol2[0]);
    Seq::new(pol1.len(), |i: int| (pol1[i].sub_s(shift)).sub_s(pol2[i]))
}

/// Cross-polarization phase distance: the mean absolute residual between
/// the shifted first curve and the second curve. Anchored solely on the
/// curves' first samples.
pub open spec fn dist_spec<T: Scalar>(pol1: Seq<T>, pol2: Seq<T>) -> T {
    sum_s(Seq::new(pol1.len(), |i: int| shifted_resid_seq(pol1, pol2)[i].abs_s())).div_s(
        T::from_count_s(pol1.len() as int),
    )
}

/// The phase-versus-channel curve of one tile and polarization.
pub open spec fn phase_seq<T: Scalar>(s: SolutionSet<T>, t: int, pol: Pol) -> Seq<T> {
    Seq::new(s.num_chans as nat, |c: int| phase_s(s.gain(t, c, pol)))
}

/// The per-tile RMSE of the phase curve against its least-squares line;
/// `None` exactly for a degenerate regression.
pub open spec fn tile_rmse<T: Scalar>(s: SolutionSet<T>, t: int, pol: Pol) -> Option<T> {
    match fit_spec(chan_x_seq::<T>(s.num_chans as int), phase_seq(s, t, pol)) {
        Some(fit) => Some(rmse_with_spec(chan_x_seq::<T>(s.num_chans as int), phase_seq(s, t, pol), fit)),
        None => None,
    }
}

/// The per-tile cross-polarization phase distance, over the raw
/// (uninterpolated) phase curves.
pub open spec fn tile_dist<T: Scalar>(s: SolutionSet<T>, t: int) -> T {
    dist_spec(phase_seq(s, t, Pol::Xx), phase_seq(s, t, Pol::Yy))
}

/// One observation's phase-linearity metrics: per kept tile, the XX and YY
/// regression RMSE and the XX/YY phase distance, all three vectors in the
/// same kept-tile order.
pub struct PhaseMetrics<T> {
    pub id: usize,
    pub xx_rmse: Vec<Option<T>>,
    pub yy_rmse: Vec<Option<T>>,
    pub dist: Vec<T>,
}

/// The tile indices the phase engine reports, in order.
pub open spec fn phase_tiles<T: Scalar>(s: SolutionSet<T>) -> Seq<int> {
    s.kept_tiles()
}

/// Exactly what a phase result holds: the observation's id, and per
/// reported tile, in order, the XX and YY regression RMSE and the XX/YY
/// phase distance.
pub open spec fn phase_metrics_spec<T: Scalar>(s: SolutionSet<T>, m: PhaseMetrics<T>) -> bool {
    &&& m.id == s.id
    &&& m.xx_rmse@.len() == phase_tiles(s).len()
    &&& m.yy_rmse@.len() == phase_tiles(s).len()
    &&& m.dist@.len() == phase_tiles(s).len()
    &&& forall|i: int|
        0 <= i < phase_tiles(s).len() ==> m.xx_rmse@[i] == tile_rmse(s, phase_tiles(s)[i], Pol::Xx)
    &&& forall|i: int|
        0 <= i < phase_tiles(s).len() ==> m.yy_rmse@[i] == tile_rmse(s, phase_tiles(s)[i], Pol::Yy)
    &&& forall|i: int|
        0 <= i < phase_tiles(s).len() ==> m.dist@[i] == tile_dist(s, phase_tiles(s)[i])
}

/// Builds the channel-index sequence `0, 1, ..., n-1` as scalars.
pub fn build_chan_x<T: Scalar>(n: usize) -> (r: Vec<T>)
    ensures
        r@ =~= chan_x_seq::<T>(n as int),
{
    let mut r: Vec<T> = Vec::new();
    let mut c: usize = 0;
    while c < n
        invariant
            0 <= c <= n,
            r@.len() == c,
            forall|i: int| 0 <= i < c ==> r@[i] == T::from_count_s(i),
        decreases n - c,
    {
        r.push(T::from_count(c));
        c += 1;
    }
    r
}

/// Extracts one tile's phase-versus-channel curve.
pub fn build_phase_curve<T: Scalar>(s: &SolutionSet<T>, t: usize, pol: Pol) -> (r: Vec<T>)
    requires
        s.well_formed(),
        t < s.num_tiles,
    ensures
        r@ =~= phase_seq(*s, t as int, pol),
{
    let mut r: Vec<T> = Vec::new();
    let mut c: usize = 0;
    while c < s.num_chans
        invariant
            s.well_formed(),
            t < s.num_tiles,
            0 <= c <= s.num_chans,
            r@.len() == c,
            forall|i: int| 0 <= i < c ==> r@[i] == phase_s(s.gain(t as int, i, pol)),
        decreases s.num_chans - c,
    {
        let g = match pol {
            Pol::Xx => s.complex_gains[t][c].xx,
            Pol::Yy => s.complex_gains[t][c].yy,
        };
        r.push(phase(g));
        c += 1;
    }
    r
}

/// Fits `y` against `x` by ordinary least squares in one call, after
/// interpolating missing values of `y`; reports a degenerate denominator as
/// `None` instead of dividing by it.
pub fn linear_fit<T: Scalar>(x: &Vec<T>, y: &Vec<T>) -> (r: Option<LinearFit<T>>)
    requires
        x@.len() == y@.len(),
    ensures
        r == fit_spec(x@, y@),
{
    let mut yi = copy_vec(y);
    interp_nans_inplace(&mut yi);
    proof {
        assert(yi@ =~= interp_seq(y@));
    }
    let len: usize = x.len();
    let mut sx: T = T::from_count(0);
    let mut sy: T = T::from_count(0);
    let mut sxx: T = T::from_count(0);
    let mut sxy: T = T::from_count(0);
    let mut i: usize = 0;
    while i < len
        invariant
            len == x@.len(),
            yi@ == interp_seq(y@),
            yi@.len() == len,
            0 <= i <= len,
            sx == sum_s(x@.take(i as int)),
            sy == sum_s(yi@.take(i as int)),
            sxx == sum_s(prod_seq(x@, x@).take(i as int)),
            sxy == sum_s(prod_seq(x@, yi@).take(i as int)),
        decreases len - i,
    {
        proof {
            assert(x@.take(i + 1).drop_last() =~= x@.take(i as int));
            assert(yi@.take(i + 1).drop_last() =~= yi@.take(i as int));
            assert(prod_seq(x@, x@).take(i + 1).drop_last() =~= prod_seq(x@, x@).take(i as int));
            assert(prod_seq(x@, yi@).take(i + 1).drop_last() =~= prod_seq(x@, yi@).take(
                i as int,
            ));
        }
        sx = sx.add(x[i]);
        sy = sy.add(yi[i]);
        sxx = sxx.add(x[i].mul(x[i]));
        sxy = sxy.add(x[i].mul(yi[i]));
        i += 1;
    }
    proof {
        assert(x@.take(len as int) =~= x@);
        assert(yi@.take(len as int) =~= interp_seq(y@));
        assert(prod_seq(x@, x@).take(len as int) =~= prod_seq(x@, x@));
        assert(prod_seq(x@, yi@).take(len as int) =~= prod_seq(x@, interp_seq(y@)));
    }
    let n: T = T::from_count(len);
    let denom: T = n.mul(sxx).sub(sx.mul(sx));
    if is_zero(denom) {
        None
    } else {
        let grad: T = (n.mul(sxy).sub(sx.mul(sy))).div(denom);
        let icept: T = (sy.sub(grad.mul(sx))).div(n);
        Some(LinearFit { gradient: grad, intercept: icept })
    }
}

/// Root-mean-square error of the interpolated `y` against the fitted line.
pub fn calc_rmse<T: Scalar>(x: &Vec<T>, y: &Vec<T>, fit: &LinearFit<T>) -> (r: T)
    requires
        x@.len() == y@.len(),
        x@.len() > 0,
    ensures
        r == rmse_with_spec(x@, y@, *fit),
{
    let mut yi = copy_vec(y);
    interp_nans_inplace(&mut yi);
    proof {
        assert(yi@ =~= interp_seq(y@));
    }
    let len: usize = x.len();
    let mut ssq: T = T::from_count(0);
    let mut i: usize = 0;
    while i < len
        invariant
            len == x@.len(),
            yi@ == interp_seq(y@),
            yi@.len() == len,
            0 <= i <= len,
            ssq == sum_s(resid_sq_seq(x@, y@, *fit).take(i as int)),
        decreases len - i,
    {
        proof {
            assert(resid_sq_seq(x@, y@, *fit).take(i + 1).drop_last() =~= resid_sq_seq(
                x@,
                y@,
                *fit,
            ).take(i as int));
        }
        let d: T = yi[i].sub(x[i].mul(fit.gradient).add(fit.intercept));
        ssq = ssq.add(d.mul(d));
        i += 1;
    }
    proof {
        assert(resid_sq_seq(x@, y@, *fit).take(len as int) =~= resid_sq_seq(x@, y@, *fit));
    }
    ssq.div(T::from_count(len)).sqrt()
}

/// Cross-polarization phase distance between two curves: shifts the first
/// so its first sample equals the second's, then takes the mean absolute
/// residual.
pub fn calc_dist<T: Scalar>(pol1: &Vec<T>, pol2: &Vec<T>) -> (r: T)
    requires
        pol1@.len() == pol2@.len(),
        pol1@.len() > 0,
    ensures
        r == dist_spec(pol1@, pol2@),
{
    let ghost absr = Seq::new(pol1@.len(), |i: int| shifted_resid_seq(pol1@, pol2@)[i].abs_s());
    let len: usize = pol1.len();
    let shift: T = pol1[0].sub(pol2[0]);
    let mut sabs: T = T::from_count(0);
    let mut i: usize = 0;
    while i < len
        invariant
            len == pol1@.len(),
            pol2@.len() == len,
            len > 0,
            shift == pol1@[0].sub_s(pol2@[0]),
            absr == Seq::new(
                pol1@.len(),
                |k: int| shifted_resid_seq(pol1@, pol2@)[k].abs_s(),
            ),
            0 <= i <= len,
            sabs == sum_s(absr.take(i as int)),
        decreases len - i,
    {
        proof {
            assert(absr.take(i + 1).drop_last() =~= absr.take(i as int));
        }
        let d: T = (pol1[i].sub(shift)).sub(pol2[i]);
        sabs = sabs.add(d.abs());
        i += 1;
    }
    proof {
        assert(absr.take(len as int) =~= absr);
    }
    sabs.div(T::from_count(len))
}

/// Computes the phase-linearity metrics of one observation: for every kept
/// (unflagged) tile, in ascending tile order, the XX and YY phase-regression
/// RMSE and the XX/YY phase distance. The kept-tile order is the data
/// model's single flagging decision, shared with the amplitude engine.
pub fn run_phase_calcs<T: Scalar>(s: &SolutionSet<T>) -> (r: PhaseMetrics<T>)
    requires
        s.well_formed(),
    ensures
        phase_metrics_spec(*s, r),
{
    let kept = s.kept_tile_indices();
    let x: Vec<T> = build_chan_x(s.num_chans);
    let mut xx_rmse: Vec<Option<T>> = Vec::new();
    let mut yy_rmse: Vec<Option<T>> = Vec::new();
    let mut dist: Vec<T> = Vec::new();
    let mut i: usize = 0;
    while i < kept.len()
        invariant
            s.well_formed(),
            x@ == chan_x_seq::<T>(s.num_chans as int),
            kept@.len() == s.kept_tiles().len(),
            forall|k: int| 0 <= k < kept@.len() ==> kept@[k] as int == s.kept_tiles()[k],
            forall|k: int| 0 <= k < kept@.len() ==> kept@[k] < s.num_tiles,
            0 <= i <= kept@.len(),
            xx_rmse@.len() == i,
            yy_rmse@.len() == i,
            dist@.len() == i,
            forall|k: int|
                0 <= k < i ==> xx_rmse@[k] == tile_rmse(*s, s.kept_tiles()[k], Pol::Xx),
            forall|k: int|
                0 <= k < i ==> yy_rmse@[k] == tile_rmse(*s, s.kept_tiles()[k], Pol::Yy),
            forall|k: int| 0 <= k < i ==> dist@[k] == tile_dist(*s, s.kept_tiles()[k]),
        decreases kept@.len() - i,
    {
        let t: usize = kept[i];
        let xx_curve = build_phase_curve(s, t, Pol::Xx);
        let yy_curve = build_phase_curve(s, t, Pol::Yy);
        let xxr: Option<T> = match linear_fit(&x, &xx_curve) {
            Some(fit) => Some(calc_rmse(&x, &xx_curve, &fit)),
            None => None,
        };
        let yyr: Option<T> = match linear_fit(&x, &yy_curve) {
            Some(fit) => Some(calc_rmse(&x, &yy_curve, &fit)),
            None => None,
        };
        let d: T = calc_dist(&xx_curve, &yy_curve);
        xx_rmse.push(xxr);
        yy_rmse.push(yyr);
        dist.push(d);
        i += 1;
    }
    PhaseMetrics { id: s.id, xx_rmse, yy_rmse, dist }
}

} // verus!
