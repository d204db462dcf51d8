//! Conversion of captured BGRA frames (rows padded to a stride) into tightly
//! packed RGBA texture data.

use vstd::prelude::*;

verus! {

/// The BGRA channel that RGBA channel `c` is read from: red and blue trade
/// places, green and alpha stay.
pub open spec fn bgra_channel(c: int) -> int {
    if c == 0 {
        2
    } else if c == 2 {
        0
    } else {
        c
    }
}

/// Position of channel `c` of pixel `(x, y)` in tightly packed RGBA data of
/// width `width`.
pub open spec fn rgba_index(width: int, y: int, x: int, c: int) -> int {
    (y * width + x) * 4 + c
}

/// Position of the BGRA byte that supplies RGBA channel `c` of pixel `(x, y)`
/// in a BGRA buffer whose rows are `bytes_per_row` bytes apart.
pub open spec fn bgra_index(bytes_per_row: int, y: int, x: int, c: int) -> int {
    y * bytes_per_row + x * 4 + bgra_channel(c)
}

/// `rgba` is the packed RGBA form of the `width` x `height` BGRA frame held in
/// `bgra` with row stride `bytes_per_row`.
pub open spec fn is_rgba_of(
    rgba: Seq<u8>,
    bgra: Seq<u8>,
    width: int,
    height: int,
    bytes_per_row: int,
) -> bool {
    &&& rgba.len() == width * height * 4
    &&& forall|y: int, x: int, c: int|
        0 <= y < height && 0 <= x < width && 0 <= c < 4 ==> rgba[#[trigger] rgba_index(
            width,
            y,
            x,
            c,
        )] == bgra[bgra_index(bytes_per_row, y, x, c)]
}

/// A frame of `height` rows of `bytes_per_row` bytes fits in `len` bytes, and
/// each row holds its `width` pixels of 4 bytes.
pub open spec fn frame_fits(len: int, width: int, height: int, bytes_per_row: int) -> bool {
    &&& 0 <= width
    &&& 0 <= height
    &&& 0 <= bytes_per_row
    &&& height * bytes_per_row <= len
    &&& (width == 0 || height == 0 || 4 * width <= bytes_per_row)
}

proof fn lemma_row_major_before(w: int, y1: int, x1: int, y2: int, x2: int)
    requires
        0 <= x1 < w,
        0 <= x2,
        0 <= y1 < y2,
    ensures
        y1 * w + x1 < y2 * w + x2,
{
    assert((y1 + 1) * w <= y2 * w) by (nonlinear_arith)
        requires
            y1 + 1 <= y2,
            w >= 0,
    ;
    assert((y1 + 1) * w == y1 * w + w) by (nonlinear_arith);
}

proof fn lemma_row_in_frame(bpr: int, y: int, h: int)
    requires
        0 <= y < h,
        0 <= bpr,
    ensures
        y * bpr + bpr <= h * bpr,
        0 <= y * bpr,
{
    assert((y + 1) * bpr <= h * bpr) by (nonlinear_arith)
        requires
            y + 1 <= h,
            bpr >= 0,
    ;
    assert((y + 1) * bpr == y * bpr + bpr) by (nonlinear_arith);
    assert(0 <= y * bpr) by (nonlinear_arith)
        requires
            0 <= y,
            0 <= bpr,
    ;
}

/// Every byte position below `width * height * 4` is channel `c` of some pixel
/// `(x, y)` of the frame.
proof fn lemma_rgba_position(k: int, width: int, height: int) -> (p: (int, int, int))
    requires
        0 <= k < width * height * 4,
        0 < width,
    ensures
        0 <= p.0 < height,
        0 <= p.1 < width,
        0 <= p.2 < 4,
        k == rgba_index(width, p.0, p.1, p.2),
{
    let c = k % 4;
    let pix = k / 4;
    let y = pix / width;
    let x = pix % width;
    assert(k == pix * 4 + c && 0 <= c < 4) by (nonlinear_arith)
        requires
            c == k % 4,
            pix == k / 4,
    ;
    assert(pix == y * width + x && 0 <= x < width) by (nonlinear_arith)
        requires
            y == pix / width,
            x == pix % width,
            width > 0,
    ;
    assert(0 <= pix < width * height) by (nonlinear_arith)
        requires
            pix == k / 4,
            0 <= k < width * height * 4,
    ;
    assert(0 <= y < height) by (nonlinear_arith)
        requires
            pix == y * width + x,
            0 <= x < width,
            0 <= pix < width * height,
            width > 0,
    ;
    (y, x, c)
}

/// Convert a BGRA frame whose rows are `bytes_per_row` bytes apart into packed
/// RGBA data, `width * height * 4` bytes long.
pub fn bgra_to_rgba(pixels: &[u8], width: usize, height: usize, bytes_per_row: usize) -> (rgba:
    Vec<u8>)
    requires
        frame_fits(pixels@.len() as int, width as int, height as int, bytes_per_row as int),
        width * height * 4 <= usize::MAX,
    ensures
        is_rgba_of(rgba@, pixels@, width as int, height as int, bytes_per_row as int),
{
    let ghost w = width as int;
    let ghost h = height as int;
    let ghost bpr = bytes_per_row as int;
    let plen = pixels.len();
    let mut rgba: Vec<u8> = Vec::with_capacity(width * height * 4);
    let mut y: usize = 0;
    while y < height
        invariant
            frame_fits(pixels@.len() as int, w, h, bpr),
            plen == pixels@.len(),
            w == width,
            h == height,
            bpr == bytes_per_row,
            y <= height,
            rgba@.len() == (y * w + 0) * 4,
            forall|y1: int, x1: int, c: int|
                0 <= y1 < y && 0 <= x1 < w && 0 <= c < 4 ==> rgba@[#[trigger] rgba_index(
                    w,
                    y1,
                    x1,
                    c,
                )] == pixels@[bgra_index(bpr, y1, x1, c)],
        decreases height - y,
    {
        proof {
            lemma_row_in_frame(bpr, y as int, h);
        }
        let mut x: usize = 0;
        while x < width
            invariant
                frame_fits(pixels@.len() as int, w, h, bpr),
                plen == pixels@.len(),
                w == width,
                h == height,
                bpr == bytes_per_row,
                y < height,
                x <= width,
                y * bpr + bpr <= h * bpr,
                0 <= y * bpr,
                rgba@.len() == (y * w + x) * 4,
                forall|y1: int, x1: int, c: int|
                    0 <= y1 && 0 <= x1 < w && 0 <= c < 4 && (y1 < y || (y1 == y && x1 < x))
                        ==> rgba@[#[trigger] rgba_index(w, y1, x1, c)] == pixels@[bgra_index(
                        bpr,
                        y1,
                        x1,
                        c,
                    )],
            decreases width - x,
        {
            assert(y * bpr + x * 4 + 3 < pixels@.len());
            assert(pixels@.len() == plen);
            assert(y * bytes_per_row == y * bpr);
            assert(y * bytes_per_row + x * 4 <= usize::MAX);
            let src_idx = y * bytes_per_row + x * 4;
            let b = pixels[src_idx];
            let g = pixels[src_idx + 1];
            let r = pixels[src_idx + 2];
            let a = pixels[src_idx + 3];
            let ghost before = rgba@;
            rgba.push(r);
            rgba.push(g);
            rgba.push(b);
            rgba.push(a);
            proof {
                assert forall|y1: int, x1: int, c: int|
                    0 <= y1 && 0 <= x1 < w && 0 <= c < 4 && (y1 < y || (y1 == y && x1 < x + 1))
                        implies rgba@[#[trigger] rgba_index(w, y1, x1, c)] == pixels@[bgra_index(
                    bpr,
                    y1,
                    x1,
                    c,
                )] by {
                    if y1 == y && x1 == x {
                        assert(rgba_index(w, y1, x1, c) == before.len() + c);
                    } else {
                        if y1 < y {
                            lemma_row_major_before(w, y1, x1, y as int, x as int);
                        }
                        assert(rgba_index(w, y1, x1, c) < before.len());
                        assert(rgba@[rgba_index(w, y1, x1, c)] == before[rgba_index(
                            w,
                            y1,
                            x1,
                            c,
                        )]);
                    }
                }
            }
            x = x + 1;
        }
        proof {
            assert((y * w + w) * 4 == ((y + 1) * w + 0) * 4) by (nonlinear_arith);
        }
        y = y + 1;
    }
    proof {
        assert((h * w + 0) * 4 == w * h * 4) by (nonlinear_arith);
    }
    rgba
}

/// First byte of pixel `(x, y)` in packed RGBA data of width `width`.
pub open spec fn packed_pixel(width: int, y: int, x: int) -> int {
    (y * width + x) * 4
}

/// First byte of pixel `(x, y)` in a frame with row stride `bytes_per_row`.
pub open spec fn strided_pixel(bytes_per_row: int, y: int, x: int) -> int {
    y * bytes_per_row + x * 4
}

/// Each converted pixel takes its red from BGRA byte 2, green from byte 1,
/// blue from byte 0 and alpha from byte 3 of the same pixel of the frame.
pub proof fn lemma_rgba_channels(
    rgba: Seq<u8>,
    bgra: Seq<u8>,
    width: int,
    height: int,
    bytes_per_row: int,
)
    requires
        is_rgba_of(rgba, bgra, width, height, bytes_per_row),
    ensures
        forall|y: int, x: int|
            0 <= y < height && 0 <= x < width ==> {
                let o = #[trigger] packed_pixel(width, y, x);
                let i = strided_pixel(bytes_per_row, y, x);
                &&& rgba[o] == bgra[i + 2]
                &&& rgba[o + 1] == bgra[i + 1]
                &&& rgba[o + 2] == bgra[i]
                &&& rgba[o + 3] == bgra[i + 3]
            },
{
    assert forall|y: int, x: int| 0 <= y < height && 0 <= x < width implies {
        let o = #[trigger] packed_pixel(width, y, x);
        let i = strided_pixel(bytes_per_row, y, x);
        &&& rgba[o] == bgra[i + 2]
        &&& rgba[o + 1] == bgra[i + 1]
        &&& rgba[o + 2] == bgra[i]
        &&& rgba[o + 3] == bgra[i + 3]
    } by {
        assert(rgba[rgba_index(width, y, x, 0)] == bgra[bgra_index(bytes_per_row, y, x, 0)]);
        assert(rgba[rgba_index(width, y, x, 1)] == bgra[bgra_index(bytes_per_row, y, x, 1)]);
        assert(rgba[rgba_index(width, y, x, 2)] == bgra[bgra_index(bytes_per_row, y, x, 2)]);
        assert(rgba[rgba_index(width, y, x, 3)] == bgra[bgra_index(bytes_per_row, y, x, 3)]);
    }
}

/// The packed RGBA data of a frame is determined by the frame: two outputs
/// that both satisfy the conversion's contract are equal.
pub proof fn lemma_rgba_of_unique(
    a: Seq<u8>,
    b: Seq<u8>,
    bgra: Seq<u8>,
    width: int,
    height: int,
    bytes_per_row: int,
)
    requires
        0 <= width,
        0 <= height,
        is_rgba_of(a, bgra, width, height, bytes_per_row),
        is_rgba_of(b, bgra, width, height, bytes_per_row),
    ensures
        a == b,
{
    assert forall|k: int| 0 <= k < a.len() implies a[k] == b[k] by {
        if width > 0 {
            let p = lemma_rgba_position(k, width, height);
            assert(a[rgba_index(width, p.0, p.1, p.2)] == b[rgba_index(width, p.0, p.1, p.2)]);
        } else {
            assert(width * height * 4 == 0) by (nonlinear_arith)
                requires
                    width == 0,
            ;
        }
    }
    assert(a =~= b);
}

/// Swapping the red and blue channels twice gives back the original: on a
/// tightly packed frame (stride of exactly four bytes per pixel), converting
/// the converted data again restores the input.
pub proof fn lemma_bgra_rgba_involution(
    bgra: Seq<u8>,
    once: Seq<u8>,
    twice: Seq<u8>,
    width: int,
    height: int,
)
    requires
        0 <= width,
        0 <= height,
        bgra.len() == width * height * 4,
        is_rgba_of(once, bgra, width, height, width * 4),
        is_rgba_of(twice, once, width, height, width * 4),
    ensures
        twice == bgra,
{
    assert forall|k: int| 0 <= k < bgra.len() implies twice[k] == bgra[k] by {
        if width > 0 {
            let p = lemma_rgba_position(k, width, height);
            let (y, x, c) = p;
            assert(bgra_index(width * 4, y, x, c) == rgba_index(width, y, x, bgra_channel(c)))
                by (nonlinear_arith);
            assert(bgra_index(width * 4, y, x, bgra_channel(c)) == rgba_index(width, y, x, c))
                by (nonlinear_arith);
            assert(twice[rgba_index(width, y, x, c)] == once[rgba_index(
                width,
                y,
                x,
                bgra_channel(c),
            )]);
        } else {
            assert(width * height * 4 == 0) by (nonlinear_arith)
                requires
                    width == 0,
            ;
        }
    }
    assert(twice =~= bgra);
}

} // verus!
