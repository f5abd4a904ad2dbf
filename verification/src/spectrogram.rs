//! Grid geometry of the STFT spectrogram: how many columns a file gets and
//! which frequency bins a screen row covers.

use vstd::prelude::*;

verus! {

/// FFT size of each spectrogram column.
pub const FFT_SIZE: usize = 1024;

/// Frequency bins per column (half the FFT size).
pub const BINS: usize = 512;

/// Cap on stored columns; the hop grows to keep long files bounded.
pub const MAX_COLUMNS: usize = 16384;

/// The hop (in frames) and the column count of the spectrogram of a file of
/// `frames` frames: the hop is a multiple of half the FFT size, grown so
/// that the column count stays within `MAX_COLUMNS`; an empty file still
/// gets one column.
pub open spec fn grid_for(frames: nat) -> (nat, nat) {
    let base_hop: nat = 512;
    let blocks: nat = frames / base_hop;
    let scale: nat = (blocks + 16383) / 16384;
    let hop: nat = base_hop * if scale >= 1 {
        scale
    } else {
        1
    };
    let columns: nat = if frames == 0 {
        1
    } else {
        let raw: nat = 1 + (if frames >= 1024 {
            (frames - 1024) as nat
        } else {
            0
        }) / hop;
        if raw > 16384 {
            16384
        } else {
            raw
        }
    };
    (hop, columns)
}

/// The grid a file gets: the hop is the least multiple of half the FFT
/// size (512 frames) whose column blocks cover the file within
/// `MAX_COLUMNS`; from one FFT of frames on, there is one column per hop
/// that starts inside the file, capped at `MAX_COLUMNS`, and every column
/// starts early enough for a whole FFT window; shorter files get one
/// column.
pub proof fn lemma_grid_fits_file(frames: nat)
    ensures
        ({
            let hop = grid_for(frames).0;
            let columns = grid_for(frames).1;
            let blocks = frames / 512;
            &&& hop >= 512 && hop % 512 == 0
            &&& blocks <= 16384 * (hop / 512)
            &&& (hop == 512 || blocks > 16384 * (hop / 512 - 1))
            &&& 1 <= columns <= 16384
            &&& frames >= 1024 ==> columns == if 1 + (frames - 1024) / (hop as int) < 16384 {
                1 + (frames - 1024) / (hop as int)
            } else {
                16384
            }
            &&& frames >= 1024 ==> (columns - 1) * hop <= frames - 1024
            &&& frames < 1024 ==> columns == 1
        }),
{
    let blocks = frames / 512;
    let scale: nat = (blocks + 16383) / 16384;
    let sc: nat = if scale >= 1 {
        scale
    } else {
        1
    };
    let hop = grid_for(frames).0;
    assert(hop == 512 * sc);
    assert(hop / 512 == sc && hop % 512 == 0) by (nonlinear_arith)
        requires
            hop == 512 * sc,
    ;
    assert(blocks <= 16384 * scale) by (nonlinear_arith)
        requires
            scale == (blocks + 16383) / 16384,
    ;
    assert(scale > 1 ==> blocks > 16384 * (scale - 1)) by (nonlinear_arith)
        requires
            scale == (blocks + 16383) / 16384,
    ;
    assert(blocks <= 16384 * sc) by (nonlinear_arith)
        requires
            blocks <= 16384 * scale,
            sc >= scale,
    ;
    if frames >= 1024 {
        let t: nat = (frames - 1024) as nat;
        let q = t / hop;
        assert(q * hop <= t) by (nonlinear_arith)
            requires
                q == t / hop,
                hop > 0,
        ;
        let columns = grid_for(frames).1;
        assert(columns - 1 <= q);
        assert((columns - 1) * hop <= q * hop) by (nonlinear_arith)
            requires
                columns - 1 <= q,
                columns >= 1,
                hop > 0,
        ;
    }
}

/// The hop and column count of the spectrogram of `frames` frames.
pub fn stft_grid(frames: usize) -> (r: (usize, usize))
    ensures
        r.0 == grid_for(frames as nat).0,
        r.1 == grid_for(frames as nat).1,
        r.0 >= 512,
        1 <= r.1 <= MAX_COLUMNS,
        r.0 % 512 == 0,
        frames >= 1024 ==> r.1 == if 1 + (frames - 1024) / (r.0 as int) < 16384 {
            1 + (frames - 1024) / (r.0 as int)
        } else {
            16384
        },
        frames >= 1024 ==> (r.1 - 1) * r.0 <= frames - 1024,
        frames < 1024 ==> r.1 == 1,
{
    proof {
        lemma_grid_fits_file(frames as nat);
    }
    let base_hop: usize = FFT_SIZE / 2;
    let blocks = frames / base_hop;
    let scale = blocks / MAX_COLUMNS + if blocks % MAX_COLUMNS == 0 {
        0
    } else {
        1
    };
    proof {
        let b = blocks as int;
        assert((b + 16383) / 16384 == b / 16384 + if b % 16384 == 0 {
            0int
        } else {
            1int
        });
    }
    let scale = if scale >= 1 {
        scale
    } else {
        1
    };
    let hop = base_hop * scale;
    let columns = if frames == 0 {
        1
    } else {
        let tail = if frames >= FFT_SIZE {
            frames - FFT_SIZE
        } else {
            0
        };
        let raw = 1 + tail / hop;
        if raw > MAX_COLUMNS {
            MAX_COLUMNS
        } else {
            raw
        }
    };
    (hop, columns)
}

/// The half-open bin range `[lo, hi)` shown on screen row `y` of `height`
/// rows, the top row holding the highest frequencies; a row covers at least
/// one bin unless there are more rows than bins.
pub fn row_bins(y: u16, height: u16) -> (r: (usize, usize))
    requires
        y < height,
    ensures
        r.0 == BINS - (BINS * (y + 1)) / (height as int),
        r.1 == ({
            let hi = BINS - (BINS * y) / (height as int);
            let lo1 = r.0 + 1;
            let m = if hi > lo1 {
                hi
            } else {
                lo1
            };
            if m < BINS {
                m
            } else {
                BINS as int
            }
        }),
        r.0 <= r.1 <= BINS,
{
    proof {
        let yy = y as int;
        let h = height as int;
        assert(512 * yy / h <= 512 * (yy + 1) / h) by (nonlinear_arith)
            requires
                0 <= yy < h,
        ;
        assert(512 * (yy + 1) / h <= 512) by (nonlinear_arith)
            requires
                0 <= yy < h,
        ;
        assert(512 * (yy + 1) <= 512 * h) by (nonlinear_arith)
            requires
                0 <= yy < h,
        ;
    }
    let yu = y as usize;
    let h = height as usize;
    let hi = BINS - (BINS * yu) / h;
    let lo = BINS - (BINS * (yu + 1)) / h;
    let lo1 = lo + 1;
    let m = if hi > lo1 {
        hi
    } else {
        lo1
    };
    let top = if m < BINS {
        m
    } else {
        BINS
    };
    (lo, top)
}

} // verus!
