//! Pixel statistics of a mapped BGRA8 texture, used by the debug telemetry
//! to tell a blank frame from one that carries content.
use vstd::prelude::*;

verus! {

/// Whether the pixel at byte offset `o` has a nonzero blue, green or red byte.
pub open spec fn has_color(data: Seq<u8>, o: int) -> bool {
    data[o] != 0 || data[o + 1] != 0 || data[o + 2] != 0
}

/// Alpha byte of the pixel at byte offset `o`.
pub open spec fn alpha_at(data: Seq<u8>, o: int) -> u8 {
    data[o + 3]
}

/// Number of pixels with some color among the first `n` pixels of the row
/// that starts at byte `start`.
pub open spec fn row_color_count(data: Seq<u8>, start: int, n: int) -> int
    decreases n,
{
    if n <= 0 {
        0
    } else {
        row_color_count(data, start, n - 1) + if has_color(data, start + 4 * (n - 1)) {
            1int
        } else {
            0int
        }
    }
}

/// Number of pixels with nonzero alpha among the first `n` pixels of the row
/// that starts at byte `start`.
pub open spec fn row_alpha_count(data: Seq<u8>, start: int, n: int) -> int
    decreases n,
{
    if n <= 0 {
        0
    } else {
        row_alpha_count(data, start, n - 1) + if alpha_at(data, start + 4 * (n - 1)) != 0 {
            1int
        } else {
            0int
        }
    }
}

/// Smallest of `acc` and the alphas of the first `n` pixels of a row.
pub open spec fn row_min_alpha(data: Seq<u8>, start: int, n: int, acc: u8) -> u8
    decreases n,
{
    if n <= 0 {
        acc
    } else {
        let m = row_min_alpha(data, start, n - 1, acc);
        let a = alpha_at(data, start + 4 * (n - 1));
        if a < m {
            a
        } else {
            m
        }
    }
}

/// Largest of `acc` and the alphas of the first `n` pixels of a row.
pub open spec fn row_max_alpha(data: Seq<u8>, start: int, n: int, acc: u8) -> u8
    decreases n,
{
    if n <= 0 {
        acc
    } else {
        let m = row_max_alpha(data, start, n - 1, acc);
        let a = alpha_at(data, start + 4 * (n - 1));
        if a > m {
            a
        } else {
            m
        }
    }
}

/// Pixels with some color in the first `rows` rows of `width` pixels, rows
/// `pitch` bytes apart.
pub open spec fn color_count(data: Seq<u8>, pitch: int, width: int, rows: int) -> int
    decreases rows,
{
    if rows <= 0 {
        0
    } else {
        color_count(data, pitch, width, rows - 1) + row_color_count(
            data,
            (rows - 1) * pitch,
            width,
        )
    }
}

/// Pixels with nonzero alpha in the first `rows` rows.
pub open spec fn alpha_count(data: Seq<u8>, pitch: int, width: int, rows: int) -> int
    decreases rows,
{
    if rows <= 0 {
        0
    } else {
        alpha_count(data, pitch, width, rows - 1) + row_alpha_count(
            data,
            (rows - 1) * pitch,
            width,
        )
    }
}

/// Smallest alpha in the first `rows` rows; 255 when there is no pixel.
pub open spec fn min_alpha(data: Seq<u8>, pitch: int, width: int, rows: int) -> u8
    decreases rows,
{
    if rows <= 0 {
        255
    } else {
        row_min_alpha(data, (rows - 1) * pitch, width, min_alpha(data, pitch, width, rows - 1))
    }
}

/// Largest alpha in the first `rows` rows; 0 when there is no pixel.
pub open spec fn max_alpha(data: Seq<u8>, pitch: int, width: int, rows: int) -> u8
    decreases rows,
{
    if rows <= 0 {
        0
    } else {
        row_max_alpha(data, (rows - 1) * pitch, width, max_alpha(data, pitch, width, rows - 1))
    }
}

/// The rows of the image lie inside the mapped bytes.
pub open spec fn covers_image(len: int, pitch: int, width: int, height: int) -> bool {
    height > 0 ==> (height - 1) * pitch + 4 * width <= len
}

proof fn lemma_row_counts_bounded(data: Seq<u8>, start: int, n: int)
    requires
        n >= 0,
    ensures
        0 <= row_color_count(data, start, n) <= n,
        0 <= row_alpha_count(data, start, n) <= n,
    decreases n,
{
    if n > 0 {
        lemma_row_counts_bounded(data, start, n - 1);
    }
}

proof fn lemma_counts_bounded(data: Seq<u8>, pitch: int, width: int, rows: int)
    requires
        rows >= 0,
        width >= 0,
    ensures
        0 <= color_count(data, pitch, width, rows) <= rows * width,
        0 <= alpha_count(data, pitch, width, rows) <= rows * width,
    decreases rows,
{
    if rows > 0 {
        lemma_counts_bounded(data, pitch, width, rows - 1);
        lemma_row_counts_bounded(data, (rows - 1) * pitch, width);
        assert((rows - 1) * width + width == rows * width) by (nonlinear_arith);
    }
}

proof fn lemma_offsets(y: int, x: int, pitch: int, width: int, height: int, len: int)
    requires
        0 <= y < height,
        0 <= x < width,
        pitch >= 0,
        covers_image(len, pitch, width, height),
    ensures
        0 <= y * pitch,
        y * pitch + 4 * x + 3 < len,
        y * pitch + 4 * width <= len,
{
    assert(0 <= y * pitch) by (nonlinear_arith)
        requires
            y >= 0,
            pitch >= 0,
    ;
    assert(y * pitch <= (height - 1) * pitch) by (nonlinear_arith)
        requires
            y <= height - 1,
            pitch >= 0,
    ;
}

proof fn lemma_pixel_budget(y: int, x: int, width: int, height: int)
    requires
        0 <= y < height,
        0 <= x < width,
        height <= u32::MAX,
        width <= u32::MAX,
    ensures
        y * width + x + 1 <= height * width,
        height * width < u64::MAX,
        y * width + x + 1 == y * width + (x + 1),
{
    assert(y * width + width <= height * width) by (nonlinear_arith)
        requires
            y + 1 <= height,
            width >= 0,
    ;
    assert(height * width <= 0xffff_ffff * 0xffff_ffff) by (nonlinear_arith)
        requires
            0 <= height <= 0xffff_ffff,
            0 <= width <= 0xffff_ffff,
    ;
}

/// Statistics of a mapped BGRA8 image of `width` x `height` pixels whose rows
/// start `row_pitch` bytes apart: the number of pixels with some color, the
/// number with nonzero alpha, and the smallest and largest alpha (255 and 0
/// when the image has no pixel).
pub fn texture_pixel_stats(data: &[u8], row_pitch: u32, width: u32, height: u32) -> (stats: (
    u64,
    u64,
    u8,
    u8,
))
    requires
        covers_image(data@.len() as int, row_pitch as int, width as int, height as int),
    ensures
        stats.0 == color_count(data@, row_pitch as int, width as int, height as int),
        stats.1 == alpha_count(data@, row_pitch as int, width as int, height as int),
        stats.2 == min_alpha(data@, row_pitch as int, width as int, height as int),
        stats.3 == max_alpha(data@, row_pitch as int, width as int, height as int),
{
    let ghost pitch = row_pitch as int;
    let ghost w = width as int;
    let ghost h = height as int;
    let mut nonzero_color: u64 = 0;
    let mut nonzero_alpha: u64 = 0;
    let mut min_a: u8 = u8::MAX;
    let mut max_a: u8 = u8::MIN;
    let data_len = data.len();
    let rows = height as usize;
    let columns = width as usize;
    let mut y: usize = 0;
    while y < rows
        invariant
            rows == h,
            columns == w,
            pitch == row_pitch as int,
            data_len == data@.len(),
            w == width as int,
            h == height as int,
            0 <= y <= rows,
            covers_image(data@.len() as int, pitch, w, h),
            nonzero_color == color_count(data@, pitch, w, y as int),
            nonzero_alpha == alpha_count(data@, pitch, w, y as int),
            min_a == min_alpha(data@, pitch, w, y as int),
            max_a == max_alpha(data@, pitch, w, y as int),
            0 <= nonzero_color <= y * w,
            0 <= nonzero_alpha <= y * w,
        decreases rows - y,
    {
        proof {
            if columns > 0 {
                lemma_offsets(y as int, 0, pitch, w, h, data@.len() as int);
            } else {
                assert(0 <= (y as int) * pitch) by (nonlinear_arith)
                    requires
                        y >= 0,
                        pitch >= 0,
                ;
                assert((y as int) * pitch <= (h - 1) * pitch) by (nonlinear_arith)
                    requires
                        y <= h - 1,
                        pitch >= 0,
                ;
            }
        }
        assert((y as int) * pitch <= data@.len());
        let start: usize = y * (row_pitch as usize);
        let ghost row_start = start as int;
        let ghost color_before = nonzero_color as int;
        let ghost alpha_before = nonzero_alpha as int;
        let ghost min_before = min_a;
        let ghost max_before = max_a;
        let mut x: usize = 0;
        while x < columns
            invariant
                rows == h,
                columns == w,
                pitch == row_pitch as int,
                data_len == data@.len(),
                w == width as int,
                h == height as int,
                0 <= y < rows,
                0 <= x <= columns,
                row_start == (y as int) * pitch,
                start == row_start,
                covers_image(data@.len() as int, pitch, w, h),
                nonzero_color == color_before + row_color_count(data@, row_start, x as int),
                nonzero_alpha == alpha_before + row_alpha_count(data@, row_start, x as int),
                min_a == row_min_alpha(data@, row_start, x as int, min_before),
                max_a == row_max_alpha(data@, row_start, x as int, max_before),
                0 <= nonzero_color <= y * w + x,
                0 <= nonzero_alpha <= y * w + x,
            decreases columns - x,
        {
            proof {
                lemma_offsets(y as int, x as int, pitch, w, h, data@.len() as int);
                lemma_pixel_budget(y as int, x as int, w, h);
            }
            let offset = start + 4 * x;
            if data[offset] != 0 || data[offset + 1] != 0 || data[offset + 2] != 0 {
                nonzero_color = nonzero_color + 1;
            }
            let alpha = data[offset + 3];
            if alpha != 0 {
                nonzero_alpha = nonzero_alpha + 1;
            }
            if alpha < min_a {
                min_a = alpha;
            }
            if alpha > max_a {
                max_a = alpha;
            }
            x = x + 1;
        }
        proof {
            assert((y as int) * w + w == (y as int + 1) * w) by (nonlinear_arith);
        }
        y = y + 1;
    }
    (nonzero_color, nonzero_alpha, min_a, max_a)
}

/// Whether pixel `i` of the row that starts at byte `start` has blue, green
/// and red bytes all zero.
pub open spec fn pixel_is_black(data: Seq<u8>, start: int, i: int) -> bool {
    data[start + 4 * i] == 0 && data[start + 4 * i + 1] == 0 && data[start + 4 * i + 2] == 0
}

/// Each pixel adds one to the color count exactly when at least one of its
/// blue, green and red bytes is nonzero, and one to the alpha count exactly
/// when its alpha byte is nonzero; so a row whose pixels all have a nonzero
/// blue, green or red byte (white and gray ones too) counts every pixel, and
/// one whose color bytes are all zero counts none.
pub proof fn lemma_color_count_counts_nonblack_pixels(data: Seq<u8>, start: int, n: int)
    requires
        n > 0,
    ensures
        ({
            let o = start + 4 * (n - 1);
            &&& row_color_count(data, start, n) == row_color_count(data, start, n - 1) + if data[o]
                == 0 && data[o + 1] == 0 && data[o + 2] == 0 {
                0int
            } else {
                1int
            }
            &&& row_alpha_count(data, start, n) == row_alpha_count(data, start, n - 1) + if data[o
                + 3] == 0 {
                0int
            } else {
                1int
            }
        }),
        (forall|i: int| 0 <= i < n ==> !#[trigger] pixel_is_black(data, start, i))
            ==> row_color_count(data, start, n) == n,
        (forall|i: int| 0 <= i < n ==> #[trigger] pixel_is_black(data, start, i))
            ==> row_color_count(data, start, n) == 0,
    decreases n,
{
    if n > 1 {
        lemma_color_count_counts_nonblack_pixels(data, start, n - 1);
    } else {
        assert(row_color_count(data, start, 0) == 0);
        assert(row_alpha_count(data, start, 0) == 0);
    }
    assert(pixel_is_black(data, start, n - 1) == (data[start + 4 * (n - 1)] == 0 && data[start + 4
        * (n - 1) + 1] == 0 && data[start + 4 * (n - 1) + 2] == 0));
    if forall|i: int| 0 <= i < n ==> !#[trigger] pixel_is_black(data, start, i) {
        assert(!pixel_is_black(data, start, n - 1));
        if n > 1 {
            assert forall|i: int| 0 <= i < n - 1 implies !#[trigger] pixel_is_black(data, start, i) by {
                assert(0 <= i < n);
            }
        }
    }
    if forall|i: int| 0 <= i < n ==> #[trigger] pixel_is_black(data, start, i) {
        assert(pixel_is_black(data, start, n - 1));
        if n > 1 {
            assert forall|i: int| 0 <= i < n - 1 implies #[trigger] pixel_is_black(data, start, i) by {
                assert(0 <= i < n);
            }
        }
    }
}

proof fn lemma_row_max_zero(data: Seq<u8>, start: int, n: int, acc: u8)
    requires
        n >= 0,
    ensures
        (row_max_alpha(data, start, n, acc) == 0) == (acc == 0 && row_alpha_count(data, start, n)
            == 0),
    decreases n,
{
    if n > 0 {
        lemma_row_max_zero(data, start, n - 1, acc);
        lemma_row_counts_bounded(data, start, n - 1);
    }
}

proof fn lemma_row_min_positive(data: Seq<u8>, start: int, n: int, acc: u8)
    requires
        n >= 0,
    ensures
        (row_min_alpha(data, start, n, acc) > 0) == (acc > 0 && row_alpha_count(data, start, n)
            == n),
    decreases n,
{
    if n > 0 {
        lemma_row_min_positive(data, start, n - 1, acc);
        lemma_row_counts_bounded(data, start, n - 1);
    }
}

proof fn lemma_row_min_le_max(data: Seq<u8>, start: int, n: int, low: u8, high: u8)
    requires
        n > 0,
    ensures
        row_min_alpha(data, start, n, low) <= alpha_at(data, start + 4 * (n - 1)),
        alpha_at(data, start + 4 * (n - 1)) <= row_max_alpha(data, start, n, high),
        row_min_alpha(data, start, n, low) <= row_max_alpha(data, start, n, high),
    decreases n,
{
    if n > 1 {
        lemma_row_min_le_max(data, start, n - 1, low, high);
    }
}

/// What the statistics say about transparency: no pixel has nonzero alpha
/// exactly when the largest alpha is 0; every pixel has nonzero alpha exactly
/// when the smallest alpha is nonzero; both counts are at most the number of
/// pixels; and an image with at least one pixel has its smallest alpha at
/// most its largest.
pub proof fn lemma_alpha_stats_agree(data: Seq<u8>, pitch: int, width: int, height: int)
    requires
        width >= 0,
        height >= 0,
    ensures
        (max_alpha(data, pitch, width, height) == 0) == (alpha_count(data, pitch, width, height)
            == 0),
        (min_alpha(data, pitch, width, height) > 0) == (alpha_count(data, pitch, width, height)
            == width * height),
        color_count(data, pitch, width, height) <= width * height,
        alpha_count(data, pitch, width, height) <= width * height,
        width > 0 && height > 0 ==> min_alpha(data, pitch, width, height) <= max_alpha(
            data,
            pitch,
            width,
            height,
        ),
    decreases height,
{
    lemma_counts_bounded(data, pitch, width, height);
    assert(height * width == width * height) by (nonlinear_arith);
    if height > 0 {
        let start = (height - 1) * pitch;
        lemma_alpha_stats_agree(data, pitch, width, height - 1);
        lemma_counts_bounded(data, pitch, width, height - 1);
        lemma_row_counts_bounded(data, start, width);
        lemma_row_max_zero(data, start, width, max_alpha(data, pitch, width, height - 1));
        lemma_row_min_positive(data, start, width, min_alpha(data, pitch, width, height - 1));
        assert((height - 1) * width + width == width * height) by (nonlinear_arith);
        assert((height - 1) * width == width * (height - 1)) by (nonlinear_arith);
        assert(alpha_count(data, pitch, width, height) == alpha_count(data, pitch, width, height - 1)
            + row_alpha_count(data, start, width));
        assert(min_alpha(data, pitch, width, height) == row_min_alpha(
            data,
            start,
            width,
            min_alpha(data, pitch, width, height - 1),
        ));
        if width > 0 {
            lemma_row_min_le_max(
                data,
                start,
                width,
                min_alpha(data, pitch, width, height - 1),
                max_alpha(data, pitch, width, height - 1),
            );
        }
    } else {
        assert(width * height == 0) by (nonlinear_arith)
            requires
                height == 0,
        ;
    }
}

} // verus!
