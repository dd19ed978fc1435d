use vstd::prelude::*;

use crate::scalar::{complex_is_nan, Complex, Scalar};

verus! {

/// The four cross-correlation products of one (tile, channel) cell, in
/// XX, XY, YX, YY order. The engines read only `xx` and `yy`.
#[derive(Clone, Copy)]
pub struct Jones<T> {
    pub xx: Complex<T>,
    pub xy: Complex<T>,
    pub yx: Complex<T>,
    pub yy: Complex<T>,
}

/// The two polarizations the engines compute metrics for.
#[derive(Clone, Copy, PartialEq, Eq, Structural)]
pub enum Pol {
    Xx,
    Yy,
}

/// One observation's calibration solutions: a tile-by-channel grid of
/// complex gains, and the observation identifier.
///
/// Loaded once per input file by an external reader, consumed read-only by
/// the engines.
pub struct SolutionSet<T> {
    /// Complex gains indexed `[tile][channel]`.
    pub complex_gains: Vec<Vec<Jones<T>>>,
    /// Non-negative observation identifier.
    pub id: usize,
    /// Number of tiles; positive.
    pub num_tiles: usize,
    /// Number of frequency channels; positive.
    pub num_chans: usize,
}

impl<T: Scalar> SolutionSet<T> {
    /// Shape invariant: the gain grid is `num_tiles` by `num_chans`, both
    /// positive.
    pub open spec fn well_formed(self) -> bool {
        &&& self.num_tiles > 0
        &&& self.num_chans > 0
        &&& self.complex_gains@.len() == self.num_tiles
        &&& forall|t: int|
            0 <= t < self.num_tiles ==> self.complex_gains@[t]@.len() == self.num_chans
    }

    /// The gain of one (tile, channel, polarization) cell.
    pub open spec fn gain(self, t: int, c: int, pol: Pol) -> Complex<T> {
        match pol {
            Pol::Xx => self.complex_gains@[t]@[c].xx,
            Pol::Yy => self.complex_gains@[t]@[c].yy,
        }
    }

    /// A tile is flagged for a polarization when every channel value for
    /// that (tile, polarization) is missing: its magnitude and phase are
    /// undefined there.
    pub open spec fn pol_flagged(self, t: int, pol: Pol) -> bool {
        forall|c: int| 0 <= c < self.num_chans ==> complex_is_nan(self.gain(t, c, pol))
    }

    /// The single flagging decision both engines share: a tile is excluded
    /// when either polarization they read is entirely missing, so that no
    /// all-missing sequence ever reaches the interpolator and the engines'
    /// output vectors line up position by position.
    pub open spec fn tile_flagged(self, t: int) -> bool {
        self.pol_flagged(t, Pol::Xx) || self.pol_flagged(t, Pol::Yy)
    }

    /// The unflagged tile indices below `n`, in ascending order.
    pub open spec fn kept_tiles_below(self, n: int) -> Seq<int>
        decreases n,
    {
        if n <= 0 {
            Seq::empty()
        } else if self.tile_flagged(n - 1) {
            self.kept_tiles_below(n - 1)
        } else {
            self.kept_tiles_below(n - 1).push(n - 1)
        }
    }

    /// The unflagged tile indices, in ascending order: the per-antenna
    /// output vectors of every engine follow exactly this sequence.
    pub open spec fn kept_tiles(self) -> Seq<int> {
        self.kept_tiles_below(self.num_tiles as int)
    }

    /// Every index listed by `kept_tiles_below(n)` is an unflagged tile
    /// below `n`, and the listing is strictly ascending.
    pub proof fn lemma_kept_tiles_below(self, n: int)
        ensures
            forall|i: int|
                0 <= i < self.kept_tiles_below(n).len() ==> {
                    &&& 0 <= #[trigger] self.kept_tiles_below(n)[i] < n
                    &&& !self.tile_flagged(self.kept_tiles_below(n)[i])
                },
            forall|i: int, j: int|
                0 <= i < j < self.kept_tiles_below(n).len() ==> self.kept_tiles_below(n)[i]
                    < self.kept_tiles_below(n)[j],
        decreases n,
    {
        if n > 0 {
            self.lemma_kept_tiles_below(n - 1);
            let prev = self.kept_tiles_below(n - 1);
            let cur = self.kept_tiles_below(n);
            if !self.tile_flagged(n - 1) {
                assert(cur == prev.push(n - 1));
                assert(forall|i: int| 0 <= i < prev.len() ==> cur[i] == prev[i]);
                assert(cur[cur.len() - 1] == n - 1);
            } else {
                assert(cur == prev);
            }
        }
    }

    /// Every unflagged tile below `n` appears in `kept_tiles_below(n)`.
    pub proof fn lemma_kept_tiles_complete(self, n: int)
        ensures
            forall|t: int|
                0 <= t < n && !self.tile_flagged(t) ==> self.kept_tiles_below(n).contains(t),
        decreases n,
    {
        if n > 0 {
            self.lemma_kept_tiles_complete(n - 1);
            let prev = self.kept_tiles_below(n - 1);
            let cur = self.kept_tiles_below(n);
            assert forall|t: int| 0 <= t < n && !self.tile_flagged(t) implies cur.contains(t) by {
                if t == n - 1 {
                    assert(cur == prev.push(t));
                    assert(cur[cur.len() - 1] == t);
                } else {
                    assert(prev.contains(t));
                    let i = choose|i: int| 0 <= i < prev.len() && prev[i] == t;
                    assert(cur[i] == t);
                }
            }
        }
    }

    /// Tests whether one channel value is missing.
    fn gain_is_nan(&self, t: usize, c: usize, pol: Pol) -> (r: bool)
        requires
            self.well_formed(),
            t < self.num_tiles,
            c < self.num_chans,
        ensures
            r == complex_is_nan(self.gain(t as int, c as int, pol)),
    {
        let g = match pol {
            Pol::Xx => self.complex_gains[t][c].xx,
            Pol::Yy => self.complex_gains[t][c].yy,
        };
        g.re.is_nan() || g.im.is_nan()
    }

    /// Tests whether a tile is entirely missing for one polarization.
    fn pol_is_flagged(&self, t: usize, pol: Pol) -> (r: bool)
        requires
            self.well_formed(),
            t < self.num_tiles,
        ensures
            r == self.pol_flagged(t as int, pol),
    {
        let mut c: usize = 0;
        while c < self.num_chans
            invariant
                self.well_formed(),
                t < self.num_tiles,
                0 <= c <= self.num_chans,
                forall|k: int| 0 <= k < c ==> complex_is_nan(self.gain(t as int, k, pol)),
            decreases self.num_chans - c,
        {
            if !self.gain_is_nan(t, c, pol) {
                return false;
            }
            c += 1;
        }
        true
    }

    /// Computes the shared flagging decision for one tile.
    pub fn is_tile_flagged(&self, t: usize) -> (r: bool)
        requires
            self.well_formed(),
            t < self.num_tiles,
        ensures
            r == self.tile_flagged(t as int),
    {
        self.pol_is_flagged(t, Pol::Xx) || self.pol_is_flagged(t, Pol::Yy)
    }

    /// Lists the unflagged tiles in ascending order. Both engines build
    /// their per-antenna vectors by walking exactly this list, which is what
    /// keeps their outputs joinable by position downstream.
    pub fn kept_tile_indices(&self) -> (r: Vec<usize>)
        requires
            self.well_formed(),
        ensures
            r@.len() == self.kept_tiles().len(),
            forall|i: int| 0 <= i < r@.len() ==> r@[i] as int == self.kept_tiles()[i],
            forall|i: int| 0 <= i < r@.len() ==> r@[i] < self.num_tiles,
    {
        let mut r: Vec<usize> = Vec::new();
        let mut t: usize = 0;
        while t < self.num_tiles
            invariant
                self.well_formed(),
                0 <= t <= self.num_tiles,
                r@.len() == self.kept_tiles_below(t as int).len(),
                forall|i: int|
                    0 <= i < r@.len() ==> r@[i] as int == self.kept_tiles_below(t as int)[i],
                forall|i: int| 0 <= i < r@.len() ==> r@[i] < self.num_tiles,
            decreases self.num_tiles - t,
        {
            if !self.is_tile_flagged(t) {
                r.push(t);
            }
            t += 1;
        }
        r
    }
}

} // verus!
