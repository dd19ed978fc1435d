use calmet::interp::{interp_nans_inplace, InterpolateNans};
use calmet::scalar::{Complex, Scalar};
use vstd::prelude::*;

/// The runtime scalar: an IEEE double.
#[derive(Clone, Copy, Debug, PartialEq)]
struct F(f64);

fn fft_rec(x: &[(f64, f64)]) -> Vec<(f64, f64)> {
    let n = x.len();
    if n == 1 {
        return vec![x[0]];
    }
    let even: Vec<(f64, f64)> = x.iter().step_by(2).cloned().collect();
    let odd: Vec<(f64, f64)> = x.iter().skip(1).step_by(2).cloned().collect();
    let fe = fft_rec(&even);
    let fo = fft_rec(&odd);
    let mut out = vec![(0.0f64, 0.0f64); n];
    for k in 0..n / 2 {
        let ang = -2.0 * std::f64::consts::PI * (k as f64) / (n as f64);
        let (wr, wi) = (ang.cos(), ang.sin());
        let (or_, oi) = fo[k];
        let tr = wr * or_ - wi * oi;
        let ti = wr * oi + wi * or_;
        let (er, ei) = fe[k];
        out[k] = (er + tr, ei + ti);
        out[k + n / 2] = (er - tr, ei - ti);
    }
    out
}

fn dft_f64(input: &[f64]) -> Vec<(f64, f64)> {
    let n = input.len();
    if n > 0 && n & (n - 1) == 0 {
        let x: Vec<(f64, f64)> = input.iter().map(|&v| (v, 0.0)).collect();
        fft_rec(&x)
    } else {
        let mut out = Vec::with_capacity(n);
        for k in 0..n {
            let mut re = 0.0f64;
            let mut im = 0.0f64;
            for (j, &v) in input.iter().enumerate() {
                let ang = -2.0 * std::f64::consts::PI * (k as f64) * (j as f64) / (n as f64);
                re += v * ang.cos();
                im += v * ang.sin();
            }
            out.push((re, im));
        }
        out
    }
}

impl Scalar for F {
    // The specification-level members exist only for the verifier; nothing
    // executable ever calls them.
    fn is_nan_s(self) -> bool {
        unreachable!()
    }
    fn le_s(self, _other: Self) -> bool {
        unreachable!()
    }
    fn add_s(self, _other: Self) -> Self {
        unreachable!()
    }
    fn sub_s(self, _other: Self) -> Self {
        unreachable!()
    }
    fn mul_s(self, _other: Self) -> Self {
        unreachable!()
    }
    fn div_s(self, _other: Self) -> Self {
        unreachable!()
    }
    fn sqrt_s(self) -> Self {
        unreachable!()
    }
    fn abs_s(self) -> Self {
        unreachable!()
    }
    fn atan2_s(self, _other: Self) -> Self {
        unreachable!()
    }
    fn from_count_s(_n: int) -> Self {
        unreachable!()
    }
    fn nan_s() -> Self {
        unreachable!()
    }
    fn dft_s(_input: Seq<Self>) -> Seq<Complex<Self>> {
        unreachable!()
    }
    fn is_nan(self) -> bool {
        self.0.is_nan()
    }
    fn le(self, other: Self) -> bool {
        self.0 <= other.0
    }
    fn add(self, other: Self) -> Self {
        F(self.0 + other.0)
    }
    fn sub(self, other: Self) -> Self {
        F(self.0 - other.0)
    }
    fn mul(self, other: Self) -> Self {
        F(self.0 * other.0)
    }
    fn div(self, other: Self) -> Self {
        F(self.0 / other.0)
    }
    fn sqrt(self) -> Self {
        F(self.0.sqrt())
    }
    fn abs(self) -> Self {
        F(self.0.abs())
    }
    fn atan2(self, other: Self) -> Self {
        F(self.0.atan2(other.0))
    }
    fn from_count(n: usize) -> Self {
        F(n as f64)
    }
    fn nan() -> Self {
        F(f64::NAN)
    }
    fn dft(input: &Vec<F>) -> Vec<Complex<F>> {
        let raw: Vec<f64> = input.iter().map(|v| v.0).collect();
        dft_f64(&raw)
            .into_iter()
            .map(|(re, im)| Complex { re: F(re), im: F(im) })
            .collect()
    }
}

fn fv(vals: &[f64]) -> Vec<F> {
    vals.iter().map(|&v| F(v)).collect()
}

fn raw(vals: &Vec<F>) -> Vec<f64> {
    vals.iter().map(|v| v.0).collect()
}

#[test]
fn interp_no_op_without_nans() {
    let mut v = fv(&[1.0, 2.5, -3.0, 0.0]);
    interp_nans_inplace(&mut v);
    assert_eq!(raw(&v), vec![1.0, 2.5, -3.0, 0.0]);
}

#[test]
fn interp_fills_leading_middle_trailing() {
    let mut v = fv(&[f64::NAN, f64::NAN, 4.0, f64::NAN, 8.0, f64::NAN, f64::NAN]);
    interp_nans_inplace(&mut v);
    assert_eq!(raw(&v), vec![4.0, 4.0, 4.0, 6.0, 8.0, 8.0, 8.0]);
}

#[test]
fn interp_all_nan_is_unchanged() {
    let mut v = fv(&[f64::NAN, f64::NAN, f64::NAN]);
    interp_nans_inplace(&mut v);
    assert!(v.iter().all(|x| x.0.is_nan()));
    assert_eq!(v.len(), 3);
}

use calmet::aggregate::{fill_unavailable, pad_results};
use calmet::amplitude::{calc_median, calculate_smoothness, run_smoothness_calc, MetricsError};
use calmet::commands::Commands;
use calmet::image::{calc_max, calc_rms, run_image_calc, Image};
use calmet::phase::{calc_dist, calc_rmse, linear_fit, run_phase_calcs};
use calmet::solutions::{Jones, SolutionSet};

/// A solution set where every tile's gains follow a simple deterministic
/// pattern, except that the tiles named in `dead` are entirely missing.
fn make_solutions(id: usize, num_tiles: usize, num_chans: usize, dead: &[usize]) -> SolutionSet<F> {
    let mut gains: Vec<Vec<Jones<F>>> = Vec::new();
    for t in 0..num_tiles {
        let mut row: Vec<Jones<F>> = Vec::new();
        for c in 0..num_chans {
            let cell = if dead.contains(&t) {
                f64::NAN
            } else {
                1.0 + 0.1 * (t as f64 + 1.0) + 0.01 * ((c % 4) as f64)
            };
            let z = Complex { re: F(cell), im: F(0.2 * cell) };
            row.push(Jones { xx: z, xy: z, yx: z, yy: Complex { re: F(cell + 0.05), im: F(0.1) } });
        }
        gains.push(row);
    }
    SolutionSet { complex_gains: gains, id, num_tiles, num_chans }
}

#[test]
fn smoothness_of_constant_curve_is_zero() {
    let curve = fv(&[1.0; 16]);
    let score = calculate_smoothness(&curve);
    assert_eq!(score, Some(F(0.0)));
}

#[test]
fn smoothness_unavailable_for_zero_dc() {
    let curve = fv(&[0.0; 16]);
    assert_eq!(calculate_smoothness(&curve), None);
}

#[test]
fn regression_recovers_exact_line() {
    let x = fv(&[0.0, 1.0, 2.0, 3.0, 4.0, 5.0, 6.0, 7.0]);
    let y = fv(&[2.0, 5.0, 8.0, 11.0, 14.0, 17.0, 20.0, 23.0]);
    let fit = linear_fit(&x, &y).unwrap();
    assert!((fit.gradient.0 - 3.0).abs() < 1e-12);
    assert!((fit.intercept.0 - 2.0).abs() < 1e-12);
    let rmse = calc_rmse(&x, &y, &fit);
    assert!(rmse.0.abs() < 1e-12);
}

#[test]
fn regression_interpolates_missing_samples() {
    let x = fv(&[0.0, 1.0, 2.0]);
    let y = fv(&[2.0, f64::NAN, 8.0]);
    let fit = linear_fit(&x, &y).unwrap();
    assert!((fit.gradient.0 - 3.0).abs() < 1e-12);
    assert!((fit.intercept.0 - 2.0).abs() < 1e-12);
    assert!(calc_rmse(&x, &y, &fit).0.abs() < 1e-12);
}

#[test]
fn regression_degenerate_axis_is_none() {
    let x = fv(&[0.0, 0.0, 0.0]);
    let y = fv(&[1.0, 2.0, 3.0]);
    assert!(linear_fit(&x, &y).is_none());
}

#[test]
fn distance_zero_under_constant_shift() {
    let xx = fv(&[0.1, 0.4, -0.2, 0.3, 0.0]);
    let yy: Vec<F> = xx.iter().map(|v| F(v.0 + 0.7)).collect();
    let d = calc_dist(&xx, &yy);
    assert!(d.0.abs() < 1e-12);
}

#[test]
fn distance_exact_value() {
    let xx = fv(&[1.0, 2.0, 4.0]);
    let yy = fv(&[0.0, 0.0, 0.0]);
    let d = calc_dist(&xx, &yy);
    assert!((d.0 - 4.0 / 3.0).abs() < 1e-12);
}

#[test]
fn median_odd_even_and_skipnan() {
    assert_eq!(calc_median(&fv(&[5.0, 1.0, 3.0])), Some(F(3.0)));
    assert_eq!(calc_median(&fv(&[4.0, 1.0, 3.0, 2.0])), Some(F(2.5)));
    assert_eq!(calc_median(&fv(&[f64::NAN, 2.0, 4.0])), Some(F(3.0)));
    assert_eq!(calc_median(&fv(&[f64::NAN, f64::NAN])), None);
}

#[test]
fn flagging_parity_between_engines() {
    let s = make_solutions(42, 4, 16, &[2]);
    assert_eq!(s.kept_tile_indices(), vec![0usize, 1, 3]);
    let amp = run_smoothness_calc(&s).unwrap();
    let ph = run_phase_calcs(&s);
    assert_eq!(amp.xx_smoothness.len(), 3);
    assert_eq!(amp.yy_smoothness.len(), 3);
    assert_eq!(ph.xx_rmse.len(), 3);
    assert_eq!(ph.yy_rmse.len(), 3);
    assert_eq!(ph.dist.len(), 3);
    assert_eq!(amp.id, 42);
    assert_eq!(ph.id, 42);
}

#[test]
fn end_to_end_flagged_tile_omitted() {
    let s = make_solutions(1065880128, 4, 16, &[1]);
    let cmd = Commands::CalMetrics;
    let report = cmd.run(&vec![s], &Vec::new());
    assert_eq!(report.amp.len(), 1);
    assert_eq!(report.phase.len(), 1);
    assert_eq!(report.image.len(), 0);
    let amp = &report.amp[0];
    let ph = &report.phase[0];
    assert_eq!(amp.id, 1065880128);
    assert_eq!(amp.xx_smoothness.len(), 3);
    assert_eq!(amp.yy_smoothness.len(), 3);
    assert_eq!(ph.xx_rmse.len(), 3);
    assert_eq!(ph.dist.len(), 3);
    // The kept tiles are the unflagged ones in ascending original order.
    let kept = make_solutions(1065880128, 4, 16, &[1]).kept_tile_indices();
    assert_eq!(kept, vec![0usize, 2, 3]);
    // Every reported score is available for this healthy synthetic data.
    assert!(amp.xx_smoothness.iter().all(|o| o.is_some()));
    assert!(ph.xx_rmse.iter().all(|o| o.is_some()));
}

#[test]
fn median_undefined_channel_fails_observation() {
    let mut s = make_solutions(7, 2, 4, &[]);
    // Channel 1 has no valid XX magnitude in any tile, but neither tile is
    // flagged: the whole observation's amplitude metrics fail.
    for t in 0..2 {
        s.complex_gains[t][1].xx = Complex { re: F(f64::NAN), im: F(0.0) };
    }
    let r = run_smoothness_calc(&s);
    assert!(matches!(r, Err(MetricsError::MedianUndefined)));
}

#[test]
fn image_metrics_exact() {
    let img = Image { data: fv(&[3.0, 4.0]), id: 9, num_pixels_x: 2, num_pixels_y: 1 };
    let m = run_image_calc(&img);
    assert_eq!(m.id, 9);
    let expect_rms = (12.5f64).sqrt();
    assert_eq!(m.rms.0, expect_rms);
    assert_eq!(m.dr.0, 4.0 / expect_rms);
}

#[test]
fn image_max_ignores_order() {
    assert_eq!(calc_max(&fv(&[1.0, 7.0, 3.0])).0, 7.0);
    assert_eq!(calc_max(&fv(&[7.0, 1.0, 3.0])).0, 7.0);
}

#[test]
fn partitioned_rms_matches_sequential_within_tolerance() {
    let n = 1_100_000usize;
    let vals: Vec<f64> = (0..n).map(|i| ((i % 10) as f64) * 0.5).collect();
    let big = fv(&vals);
    let rms = calc_rms(&big).0;
    let naive: f64 = vals.iter().map(|v| v * v).sum::<f64>();
    let expect = (naive / n as f64).sqrt();
    assert!((rms - expect).abs() < 1e-9);
}

#[test]
fn img_metrics_command_runs_per_image() {
    let imgs = vec![
        Image { data: fv(&[1.0, 1.0]), id: 3, num_pixels_x: 2, num_pixels_y: 1 },
        Image { data: fv(&[2.0, 2.0, 2.0, 2.0]), id: 4, num_pixels_x: 2, num_pixels_y: 2 },
    ];
    let report = Commands::ImgMetrics.run(&Vec::new(), &imgs);
    assert_eq!(report.image.len(), 2);
    assert_eq!(report.image[0].id, 3);
    assert_eq!(report.image[0].rms.0, 1.0);
    assert_eq!(report.image[1].rms.0, 2.0);
    assert_eq!(report.image[1].dr.0, 1.0);
    assert_eq!(report.amp.len(), 0);
    assert_eq!(report.phase.len(), 0);
}

#[test]
fn fill_unavailable_uses_nan_sentinel() {
    let scores = vec![Some(F(1.5)), None, Some(F(-2.0))];
    let filled = fill_unavailable(&scores);
    assert_eq!(filled[0].0, 1.5);
    assert!(filled[1].0.is_nan());
    assert_eq!(filled[2].0, -2.0);
}

#[test]
fn padding_round_trip() {
    let rows = vec![fv(&[1.0, 2.0, 3.0]), fv(&[4.0, 5.0, 6.0, 7.0, 8.0])];
    let obsids = [11usize, 12usize];
    let padded = pad_results(&rows);
    assert_eq!(padded.len(), 2);
    assert!(padded.iter().all(|r| r.len() == 5));

    // Write one line per observation with fixed 10-digit precision, then
    // parse the lines back.
    let mut lines: Vec<String> = Vec::new();
    for (obsid, row) in obsids.iter().zip(padded.iter()) {
        let vals: Vec<String> = row.iter().map(|v| format!("{:.10}", v.0)).collect();
        lines.push(format!("{} {}", obsid, vals.join(" ")));
    }
    let mut parsed: Vec<(usize, Vec<f64>)> = Vec::new();
    for line in &lines {
        let mut parts = line.split(' ');
        let id: usize = parts.next().unwrap().parse().unwrap();
        let vals: Vec<f64> = parts.map(|p| p.parse().unwrap()).collect();
        parsed.push((id, vals));
    }
    assert_eq!(parsed[0].0, 11);
    assert_eq!(parsed[1].0, 12);
    assert_eq!(parsed[0].1.len(), 5);
    assert_eq!(parsed[1].1.len(), 5);
    assert_eq!(&parsed[0].1[..3], &[1.0, 2.0, 3.0]);
    assert!(parsed[0].1[3].is_nan());
    assert!(parsed[0].1[4].is_nan());
    assert_eq!(&parsed[1].1[..], &[4.0, 5.0, 6.0, 7.0, 8.0]);
}

#[test]
fn phase_metrics_command_runs_per_observation() {
    let s0 = make_solutions(20, 3, 8, &[]);
    let s1 = make_solutions(21, 3, 8, &[0]);
    let report = Commands::PhaseMetrics.run(&vec![s0, s1], &Vec::new());
    assert_eq!(report.phase.len(), 2);
    assert_eq!(report.phase[0].id, 20);
    assert_eq!(report.phase[0].dist.len(), 3);
    assert_eq!(report.phase[1].id, 21);
    assert_eq!(report.phase[1].dist.len(), 2);
    assert_eq!(report.amp.len(), 0);
}

#[test]
fn amp_metrics_command_skips_failed_observation() {
    let good = make_solutions(30, 2, 8, &[]);
    let mut bad = make_solutions(31, 2, 4, &[]);
    for t in 0..2 {
        bad.complex_gains[t][2].yy = Complex { re: F(f64::NAN), im: F(0.0) };
    }
    let report = Commands::AmpMetrics.run(&vec![bad, good], &Vec::new());
    assert_eq!(report.amp.len(), 1);
    assert_eq!(report.amp[0].id, 30);
}

#[test]
fn rmse_unavailable_for_single_channel() {
    // One channel makes the regression's x axis zero-variance: the fit is
    // degenerate and the per-tile RMSE is unavailable, while the distance
    // is still defined.
    let s = make_solutions(50, 2, 1, &[]);
    let ph = run_phase_calcs(&s);
    assert_eq!(ph.xx_rmse, vec![None, None]);
    assert_eq!(ph.yy_rmse, vec![None, None]);
    assert_eq!(ph.dist.len(), 2);
}

#[test]
fn smoothness_unavailable_for_few_channels() {
    // Fewer than four channels leave no non-DC bins below the Nyquist bin.
    let s = make_solutions(51, 2, 3, &[]);
    let amp = run_smoothness_calc(&s).unwrap();
    assert_eq!(amp.xx_smoothness, vec![None, None]);
    assert_eq!(amp.yy_smoothness, vec![None, None]);
}

#[test]
fn interp_trait_method_on_vec() {
    let mut v = fv(&[1.0, f64::NAN, 3.0]);
    v.interp_nans_inplace();
    assert_eq!(raw(&v), vec![1.0, 2.0, 3.0]);
}
