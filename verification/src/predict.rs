use vstd::prelude::*;
use vstd::arithmetic::mul::lemma_mul_inequality;

verus! {

/// The absolute value of element `k` after reversing horizontal differencing
/// over 8-bit samples: elements in the first pixel of each row are stored
/// absolute; every other element adds, wrapping modulo 256, the reconstructed
/// element one pixel earlier in its row. `re` is the element count of one row.
pub open spec fn unpred8(s: Seq<u8>, re: int, samples: int, k: int) -> u8
    decreases k,
{
    if samples <= 0 || re <= 0 || k < samples || k % re < samples {
        s[k]
    } else {
        (((unpred8(s, re, samples, k - samples) as int) + (s[k] as int)) % 256) as u8
    }
}

/// The 16-bit counterpart of `unpred8`: addition wraps modulo 65536.
pub open spec fn unpred16(s: Seq<u16>, re: int, samples: int, k: int) -> u16
    decreases k,
{
    if samples <= 0 || re <= 0 || k < samples || k % re < samples {
        s[k]
    } else {
        (((unpred16(s, re, samples, k - samples) as int) + (s[k] as int)) % 0x1_0000) as u16
    }
}

/// Reverses horizontal differencing across a row-major 8-bit sample buffer of
/// `size.0 * size.1` pixels with `samples` elements each, wrapping on
/// overflow.
pub fn rev_hpredict_nsamp8(image: Vec<u8>, size: (u32, u32), samples: usize) -> (r: Vec<u8>)
    requires
        1 <= samples,
        (size.0 as int) * (size.1 as int) * (samples as int) == image@.len(),
    ensures
        r@.len() == image@.len(),
        forall|k: int|
            0 <= k < r@.len() ==> r@[k] == unpred8(
                image@,
                (size.0 as int) * (samples as int),
                samples as int,
                k,
            ),
{
    let mut image = image;
    let ghost orig = image@;
    let n: usize = image.len();
    let width = size.0 as usize;
    let height = size.1 as usize;
    if width == 0 || height == 0 {
        proof {
            assert(orig.len() == 0) by (nonlinear_arith)
                requires
                    (size.0 as int) * (size.1 as int) * (samples as int) == orig.len(),
                    size.0 == width,
                    size.1 == height,
                    width == 0 || height == 0,
            ;
        }
        return image;
    }
    proof {
        assert((width as int) * (samples as int) <= orig.len()) by (nonlinear_arith)
            requires
                (width as int) * (height as int) * (samples as int) == orig.len(),
                1 <= height,
                0 <= width,
                0 <= samples,
        ;
    }
    let re: usize = width * samples;
    let ghost g_re = re as int;
    let ghost g_s = samples as int;
    proof {
        lemma_mul_inequality(1, width as int, samples as int);
        assert(g_s <= g_re);
    }
    let mut row: usize = 0;
    while row < height
        invariant
            row <= height,
            1 <= samples,
            samples <= re,
            g_re == re as int,
            g_s == samples as int,
            width as int * samples as int == g_re,
            orig.len() == (width as int) * (height as int) * (samples as int),
            image@.len() == orig.len(),
            orig.len() == n,
            forall|j: int| 0 <= j < row * g_re ==> image@[j] == unpred8(orig, g_re, g_s, j),
            forall|j: int| row * g_re <= j < orig.len() ==> image@[j] == orig[j],
        decreases height - row,
    {
        proof {
            assert(row * g_re + g_re <= orig.len()) by (nonlinear_arith)
                requires
                    orig.len() == (width as int) * (height as int) * (samples as int),
                    g_re == (width as int) * (samples as int),
                    0 <= row < height,
            ;
        }
        let base: usize = row * re;
        let mut col: usize = samples;
        proof {
            assert(0 < g_re);
            assert forall|j: int| base <= j < base + col implies image@[j] == unpred8(
                orig,
                g_re,
                g_s,
                j,
            ) by {
                assert(image@[j] == orig[j]);
                assert(j % g_re == j - base) by (nonlinear_arith)
                    requires
                        base == row * g_re,
                        base <= j,
                        j < base + g_re,
                        0 < g_re,
                        0 <= row,
                ;
            }
        }
        while col < re
            invariant
                1 <= samples,
                samples <= col,
                col <= re,
                g_re == re as int,
                g_s == samples as int,
                base == row * g_re,
                0 <= row,
                base + re <= orig.len(),
                orig.len() == n,
                image@.len() == orig.len(),
                forall|j: int| 0 <= j < base + col ==> image@[j] == unpred8(orig, g_re, g_s, j),
                forall|j: int| base + col <= j < orig.len() ==> image@[j] == orig[j],
            decreases re - col,
        {
            let prev = image[base + col - samples];
            let cur = image[base + col];
            let ghost k = base + col;
            image[base + col] = prev.wrapping_add(cur);
            proof {
                assert(k % g_re == col) by (nonlinear_arith)
                    requires
                        k == base + col,
                        base == row * g_re,
                        0 <= col < g_re,
                        0 < g_re,
                        0 <= row,
                ;
                assert(image@[k] == unpred8(orig, g_re, g_s, k));
            }
            col = col + 1;
        }
        row = row + 1;
        proof {
            assert(row * g_re == base + g_re) by (nonlinear_arith)
                requires
                    base == (row - 1) * g_re,
            ;
        }
    }
    proof {
        assert(height * g_re == orig.len()) by (nonlinear_arith)
            requires
                orig.len() == (width as int) * (height as int) * (samples as int),
                g_re == (width as int) * (samples as int),
        ;
    }
    image
}

/// Reverses horizontal differencing across a row-major 16-bit sample buffer,
/// wrapping on overflow.
pub fn rev_hpredict_nsamp16(image: Vec<u16>, size: (u32, u32), samples: usize) -> (r: Vec<u16>)
    requires
        1 <= samples,
        (size.0 as int) * (size.1 as int) * (samples as int) == image@.len(),
    ensures
        r@.len() == image@.len(),
        forall|k: int|
            0 <= k < r@.len() ==> r@[k] == unpred16(
                image@,
                (size.0 as int) * (samples as int),
                samples as int,
                k,
            ),
{
    let mut image = image;
    let ghost orig = image@;
    let n: usize = image.len();
    let width = size.0 as usize;
    let height = size.1 as usize;
    if width == 0 || height == 0 {
        proof {
            assert(orig.len() == 0) by (nonlinear_arith)
                requires
                    (size.0 as int) * (size.1 as int) * (samples as int) == orig.len(),
                    size.0 == width,
                    size.1 == height,
                    width == 0 || height == 0,
            ;
        }
        return image;
    }
    proof {
        assert((width as int) * (samples as int) <= orig.len()) by (nonlinear_arith)
            requires
                (width as int) * (height as int) * (samples as int) == orig.len(),
                1 <= height,
                0 <= width,
                0 <= samples,
        ;
    }
    let re: usize = width * samples;
    let ghost g_re = re as int;
    let ghost g_s = samples as int;
    proof {
        lemma_mul_inequality(1, width as int, samples as int);
        assert(g_s <= g_re);
    }
    let mut row: usize = 0;
    while row < height
        invariant
            row <= height,
            1 <= samples,
            samples <= re,
            g_re == re as int,
            g_s == samples as int,
            width as int * samples as int == g_re,
            orig.len() == (width as int) * (height as int) * (samples as int),
            image@.len() == orig.len(),
            orig.len() == n,
            forall|j: int| 0 <= j < row * g_re ==> image@[j] == unpred16(orig, g_re, g_s, j),
            forall|j: int| row * g_re <= j < orig.len() ==> image@[j] == orig[j],
        decreases height - row,
    {
        proof {
            assert(row * g_re + g_re <= orig.len()) by (nonlinear_arith)
                requires
                    orig.len() == (width as int) * (height as int) * (samples as int),
                    g_re == (width as int) * (samples as int),
                    0 <= row < height,
            ;
        }
        let base: usize = row * re;
        let mut col: usize = samples;
        proof {
            assert(0 < g_re);
            assert forall|j: int| base <= j < base + col implies image@[j] == unpred16(
                orig,
                g_re,
                g_s,
                j,
            ) by {
                assert(image@[j] == orig[j]);
                assert(j % g_re == j - base) by (nonlinear_arith)
                    requires
                        base == row * g_re,
                        base <= j,
                        j < base + g_re,
                        0 < g_re,
                        0 <= row,
                ;
            }
        }
        while col < re
            invariant
                1 <= samples,
                samples <= col,
                col <= re,
                g_re == re as int,
                g_s == samples as int,
                base == row * g_re,
                0 <= row,
                base + re <= orig.len(),
                orig.len() == n,
                image@.len() == orig.len(),
                forall|j: int| 0 <= j < base + col ==> image@[j] == unpred16(orig, g_re, g_s, j),
                forall|j: int| base + col <= j < orig.len() ==> image@[j] == orig[j],
            decreases re - col,
        {
            let prev = image[base + col - samples];
            let cur = image[base + col];
            let ghost k = base + col;
            image[base + col] = prev.wrapping_add(cur);
            proof {
                assert(k % g_re == col) by (nonlinear_arith)
                    requires
                        k == base + col,
                        base == row * g_re,
                        0 <= col < g_re,
                        0 < g_re,
                        0 <= row,
                ;
                assert(image@[k] == unpred16(orig, g_re, g_s, k));
            }
            col = col + 1;
        }
        row = row + 1;
        proof {
            assert(row * g_re == base + g_re) by (nonlinear_arith)
                requires
                    base == (row - 1) * g_re,
            ;
        }
    }
    proof {
        assert(height * g_re == orig.len()) by (nonlinear_arith)
            requires
                orig.len() == (width as int) * (height as int) * (samples as int),
                g_re == (width as int) * (samples as int),
        ;
    }
    image
}

} // verus!
