use vstd::prelude::*;

use crate::scalar::{sum_s, Scalar};

verus! {

/// Pixel counts at or above this use the partitioned sum-of-squares
/// reduction instead of the single fold.
pub const PARTITION_THRESHOLD: usize = 1000000;

/// The fixed partition width of the partitioned reduction.
pub const CHUNK_LEN: usize = 65536;

/// One observation's calibrated image: its pixel intensities in row-major
/// order, the observation identifier, and the two dimensions. Images carry
/// no flagging concept.
pub struct Image<T> {
    pub data: Vec<T>,
    pub id: usize,
    pub num_pixels_x: usize,
    pub num_pixels_y: usize,
}

impl<T: Scalar> Image<T> {
    /// Shape invariant: the pixel vector matches the dimensions and is not
    /// empty.
    pub open spec fn well_formed(self) -> bool {
        &&& self.data@.len() == self.num_pixels_x * self.num_pixels_y
        &&& self.data@.len() > 0
    }
}

/// The element-wise squares of a sequence.
pub open spec fn sq_seq<T: Scalar>(s: Seq<T>) -> Seq<T> {
    Seq::new(s.len(), |i: int| s[i].mul_s(s[i]))
}

/// Left-to-right sum of squares.
pub open spec fn sum_sq_s<T: Scalar>(s: Seq<T>) -> T {
    sum_s(sq_seq(s))
}

/// How many `c`-wide chunks cover a sequence of length `len`.
pub open spec fn chunk_count(len: int, c: int) -> int {
    len / c + if len % c == 0 {
        0int
    } else {
        1int
    }
}

/// The per-chunk sums of squares: chunk `i` covers `[i*c, min((i+1)*c, len))`.
pub open spec fn chunk_sums_s<T: Scalar>(s: Seq<T>, c: int) -> Seq<T> {
    Seq::new(
        chunk_count(s.len() as int, c) as nat,
        |i: int|
            sum_sq_s(
                s.subrange(
                    i * c,
                    if (i + 1) * c < s.len() {
                        (i + 1) * c
                    } else {
                        s.len() as int
                    },
                ),
            ),
    )
}

/// The sum of squares as `calc_rms` computes it: one left-to-right fold for
/// small images, and for large ones a fixed partition-then-combine
/// reduction — per-chunk folds combined left to right.
pub open spec fn sum_sq_combined<T: Scalar>(s: Seq<T>) -> T {
    if s.len() < PARTITION_THRESHOLD {
        sum_sq_s(s)
    } else {
        sum_s(chunk_sums_s(s, CHUNK_LEN as int))
    }
}

/// Root-mean-square of the pixels: `sqrt(sum(pixel²) / count)`.
pub open spec fn rms_spec<T: Scalar>(s: Seq<T>) -> T {
    sum_sq_combined(s).div_s(T::from_count_s(s.len() as int)).sqrt_s()
}

/// The running maximum under the scalar `le` relation, taking the pixels
/// left to right: each later pixel replaces the running value exactly when
/// the running value compares less-or-equal to it.
pub open spec fn max_spec<T: Scalar>(s: Seq<T>) -> T
    decreases s.len(),
{
    if s.len() <= 1 {
        s[0]
    } else {
        let m = max_spec(s.drop_last());
        if m.le_s(s.last()) {
            s.last()
        } else {
            m
        }
    }
}

/// One observation's image-quality metrics.
pub struct ImageMetrics<T> {
    pub id: usize,
    pub rms: T,
    pub dr: T,
}

/// Exactly what an image result holds: the observation's id, the pixel
/// RMS, and the dynamic range (peak over RMS).
pub open spec fn image_metrics_spec<T: Scalar>(img: Image<T>, m: ImageMetrics<T>) -> bool {
    &&& m.id == img.id
    &&& m.rms == rms_spec(img.data@)
    &&& m.dr == max_spec(img.data@).div_s(rms_spec(img.data@))
}

/// Root-mean-square of the pixel values. Small images use one fold; large
/// ones a fixed partition-then-combine reduction over `CHUNK_LEN`-wide
/// chunks, combined in ascending chunk order.
pub fn calc_rms<T: Scalar>(data: &Vec<T>) -> (r: T)
    requires
        data@.len() > 0,
    ensures
        r == rms_spec(data@),
{
    let len: usize = data.len();
    let mut acc: T = T::from_count(0);
    if len < PARTITION_THRESHOLD {
        let mut i: usize = 0;
        while i < len
            invariant
                len == data@.len(),
                0 <= i <= len,
                acc == sum_s(sq_seq(data@).take(i as int)),
            decreases len - i,
        {
            proof {
                assert(sq_seq(data@).take(i + 1).drop_last() =~= sq_seq(data@).take(i as int));
            }
            acc = acc.add(data[i].mul(data[i]));
            i += 1;
        }
        proof {
            assert(sq_seq(data@).take(len as int) =~= sq_seq(data@));
        }
    } else {
        let ghost chunks = chunk_sums_s(data@, CHUNK_LEN as int);
        let mut start: usize = 0;
        let ghost mut nchunk: int = 0;
        while start < len
            invariant
                len == data@.len(),
                chunks == chunk_sums_s(data@, CHUNK_LEN as int),
                nchunk >= 0,
                start == if nchunk * CHUNK_LEN < len {
                    nchunk * CHUNK_LEN
                } else {
                    len as int
                },
                nchunk > 0 ==> (nchunk - 1) * CHUNK_LEN < len,
                start < len ==> nchunk < chunk_count(len as int, CHUNK_LEN as int),
                acc == sum_s(chunks.take(nchunk)),
            decreases len - start,
        {
            proof {
                assert(start == nchunk * CHUNK_LEN);
            }
            let end: usize = if len - start < CHUNK_LEN {
                len
            } else {
                start + CHUNK_LEN
            };
            let ghost sub = data@.subrange(start as int, end as int);
            let mut csum: T = T::from_count(0);
            let mut j: usize = start;
            while j < end
                invariant
                    len == data@.len(),
                    start <= j <= end <= len,
                    sub == data@.subrange(start as int, end as int),
                    csum == sum_s(sq_seq(sub).take(j - start)),
                decreases end - j,
            {
                proof {
                    assert(sq_seq(sub).take(j - start + 1).drop_last() =~= sq_seq(sub).take(
                        j - start,
                    ));
                    assert(sub[j - start] == data@[j as int]);
                }
                csum = csum.add(data[j].mul(data[j]));
                j += 1;
            }
            proof {
                assert(sq_seq(sub).take(end - start) =~= sq_seq(sub));
                assert(chunks.take(nchunk + 1).drop_last() =~= chunks.take(nchunk));
                assert(chunks[nchunk] == sum_sq_s(
                    data@.subrange(
                        nchunk * CHUNK_LEN,
                        if (nchunk + 1) * CHUNK_LEN < len {
                            (nchunk + 1) * CHUNK_LEN
                        } else {
                            len as int
                        },
                    ),
                ));
                assert(end == if (nchunk + 1) * CHUNK_LEN < len {
                    (nchunk + 1) * CHUNK_LEN
                } else {
                    len as int
                });
            }
            acc = acc.add(csum);
            proof {
                nchunk = nchunk + 1;
            }
            start = end;
        }
        proof {
            assert(nchunk == chunk_count(len as int, CHUNK_LEN as int));
            assert(chunks.take(nchunk) =~= chunks);
        }
    }
    acc.div(T::from_count(len)).sqrt()
}

/// The maximum pixel value, as `max_spec` describes.
pub fn calc_max<T: Scalar>(data: &Vec<T>) -> (r: T)
    requires
        data@.len() > 0,
    ensures
        r == max_spec(data@),
{
    let mut m: T = data[0];
    let mut i: usize = 1;
    while i < data.len()
        invariant
            data@.len() > 0,
            1 <= i <= data@.len(),
            m == max_spec(data@.take(i as int)),
        decreases data@.len() - i,
    {
        proof {
            assert(data@.take(i + 1).drop_last() =~= data@.take(i as int));
            assert(data@.take(i + 1).last() == data@[i as int]);
        }
        if m.le(data[i]) {
            m = data[i];
        }
        i += 1;
    }
    proof {
        assert(data@.take(data@.len() as int) =~= data@);
    }
    m
}

/// Dynamic range: the peak pixel value over the RMS noise level.
pub fn calc_dr<T: Scalar>(max: T, rms: T) -> (r: T)
    ensures
        r == max.div_s(rms),
{
    max.div(rms)
}

/// Computes one image's quality metrics: the RMS of its pixels, and the
/// dynamic range, the maximum pixel over the RMS.
pub fn run_image_calc<T: Scalar>(img: &Image<T>) -> (r: ImageMetrics<T>)
    requires
        img.well_formed(),
    ensures
        image_metrics_spec(*img, r),
{
    let rms = calc_rms(&img.data);
    let max = calc_max(&img.data);
    let dr = calc_dr(max, rms);
    ImageMetrics { id: img.id, rms, dr }
}

} // verus!
