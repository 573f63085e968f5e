//! The display surface as a sequence of bytes, and what a frame looks like on it.
//!
//! A surface is a run of bytes in rows of `pitch` bytes. Row `y` of a frame of
//! `width` by `height` pixels takes the first `4 * width` bytes of row `y` of
//! the surface, four bytes per pixel; what a row has beyond them, and what the
//! surface has beyond its last row, is padding and is left as it was.

use vstd::prelude::*;
use crate::format::{surface_byte, SurfaceFormat};

verus! {

/// Whether byte `i` of a surface belongs to a pixel of the frame.
pub open spec fn in_frame(i: int, pitch: int, width: int, height: int) -> bool {
    pitch > 0 && 0 <= i && i / pitch < height && i % pitch < 4 * width
}

/// The surface after the first `height` rows of a frame have been written to it.
pub open spec fn painted(
    before: Seq<u8>,
    pitch: int,
    pixels: Seq<i32>,
    width: int,
    height: int,
    format: SurfaceFormat,
) -> Seq<u8> {
    Seq::new(
        before.len(),
        |i: int|
            if in_frame(i, pitch, width, height) {
                surface_byte(pixels[(i / pitch) * width + (i % pitch) / 4], format, (i % pitch) % 4)
            } else {
                before[i]
            },
    )
}

/// One row of a surface after row `y` of a frame has been written to it.
pub open spec fn row_painted(
    before: Seq<u8>,
    pixels: Seq<i32>,
    width: int,
    y: int,
    format: SurfaceFormat,
) -> Seq<u8> {
    Seq::new(
        before.len(),
        |j: int|
            if j < 4 * width {
                surface_byte(pixels[y * width + j / 4], format, j % 4)
            } else {
                before[j]
            },
    )
}

/// The surface after rows `lo` to `hi - 1` of a frame have been written to it
/// and no others.
pub open spec fn painted_rows(
    before: Seq<u8>,
    pitch: int,
    pixels: Seq<i32>,
    width: int,
    lo: int,
    hi: int,
    format: SurfaceFormat,
) -> Seq<u8> {
    Seq::new(
        before.len(),
        |i: int|
            if in_frame(i, pitch, width, hi) && lo <= i / pitch {
                surface_byte(pixels[(i / pitch) * width + (i % pitch) / 4], format, (i % pitch) % 4)
            } else {
                before[i]
            },
    )
}

/// Row `y` of a surface in rows of `pitch` bytes.
pub open spec fn surface_row(surface: Seq<u8>, pitch: int, y: int) -> Seq<u8> {
    surface.subrange(y * pitch, (y + 1) * pitch)
}

/// Whether a surface of `surface_len` bytes in rows of `pitch` bytes can take a
/// frame of `width` by `height` pixels held in `pixels_len` words: the frame
/// has one word per pixel, a row of the surface holds a row of the frame, and
/// the surface reaches to the end of the frame's last row.
pub open spec fn fits(surface_len: int, pitch: int, pixels_len: int, width: int, height: int) -> bool {
    &&& pixels_len == width * height
    &&& 4 * width <= pitch
    &&& (width == 0 || height == 0 || (height - 1) * pitch + 4 * width <= surface_len)
}

/// The offsets of the bytes of a surface that belong to a pixel of the frame.
pub open spec fn frame_offsets(pitch: int, width: int, height: int) -> Set<int> {
    Set::new(|i: int| in_frame(i, pitch, width, height))
}

/// The first row of worker `k` when `height` rows are shared among `workers`
/// workers: each takes `height / workers` rows, and the last takes the rows
/// that are left over as well.
pub open spec fn band_start(height: int, workers: int, k: int) -> int {
    if k >= workers {
        height
    } else {
        k * (height / workers)
    }
}

/// The surface after the first `k` of `workers` workers have each written
/// their own rows of a frame to it.
pub open spec fn painted_in_bands(
    before: Seq<u8>,
    pitch: int,
    pixels: Seq<i32>,
    width: int,
    height: int,
    format: SurfaceFormat,
    workers: int,
    k: nat,
) -> Seq<u8>
    decreases k,
{
    if k == 0 {
        before
    } else {
        painted_rows(
            painted_in_bands(before, pitch, pixels, width, height, format, workers, (k - 1) as nat),
            pitch,
            pixels,
            width,
            band_start(height, workers, k - 1),
            band_start(height, workers, k as int),
            format,
        )
    }
}

/// An offset between the start of row `y` and the start of the next row lies
/// in row `y`.
proof fn lemma_row_of(i: int, pitch: int, y: int)
    requires
        pitch > 0,
        y * pitch <= i < (y + 1) * pitch,
    ensures
        i / pitch == y,
        i % pitch == i - y * pitch,
{
    assert((y + 1) * pitch == y * pitch + pitch) by (nonlinear_arith);
    vstd::arithmetic::div_mod::lemma_fundamental_div_mod_converse(i, pitch, y, i - y * pitch);
}

/// An offset lies in a row before row `y` if and only if it comes before the
/// start of row `y`.
pub(crate) proof fn lemma_row_below(i: int, pitch: int, y: int)
    requires
        pitch > 0,
        0 <= i,
        0 <= y,
    ensures
        i / pitch < y <==> i < y * pitch,
        0 <= i / pitch,
        0 <= i % pitch < pitch,
        i == (i / pitch) * pitch + i % pitch,
{
    vstd::arithmetic::div_mod::lemma_fundamental_div_mod(i, pitch);
    let q = i / pitch;
    let r = i % pitch;
    assert(0 <= r < pitch);
    assert(i == pitch * q + r);
    assert(q >= 0) by (nonlinear_arith)
        requires
            i == pitch * q + r,
            0 <= r < pitch,
            pitch > 0,
            i >= 0,
    ;
    assert(q < y <==> i < y * pitch) by (nonlinear_arith)
        requires
            i == pitch * q + r,
            0 <= r < pitch,
            pitch > 0,
    ;
    assert(pitch * q == q * pitch) by (nonlinear_arith);
}

/// Pixel `x` of row `y` has its word in the frame, at index `y * width + x`.
pub(crate) proof fn lemma_pixel_index(y: int, x: int, width: int, height: int)
    requires
        0 <= y < height,
        0 <= x < width,
    ensures
        0 <= y * width + x < width * height,
        0 <= y * width,
        (y + 1) * width <= width * height,
{
    assert(0 <= y * width && (y + 1) * width <= width * height && (y + 1) * width == y * width
        + width) by (nonlinear_arith)
        requires
            0 <= y < height,
            0 < width,
    ;
}

/// A surface on which rows `0` to `y - 1` of a frame are written becomes, when
/// row `y` is written to its place, the surface on which rows `0` to `y` are.
pub(crate) proof fn lemma_painted_next_row(
    before: Seq<u8>,
    pitch: int,
    pixels: Seq<i32>,
    width: int,
    y: int,
    format: SurfaceFormat,
)
    requires
        0 <= y,
        0 < width,
        4 * width <= pitch,
        y * pitch + 4 * width <= before.len(),
    ensures
        ({
            let s = painted(before, pitch, pixels, width, y, format);
            let start = y * pitch;
            let end = start + 4 * width;
            s.subrange(0, start) + (row_painted(s.subrange(start, end), pixels, width, y, format)
                + s.subrange(end, s.len() as int)) == painted(
                before,
                pitch,
                pixels,
                width,
                y + 1,
                format,
            )
        }),
{
    let s = painted(before, pitch, pixels, width, y, format);
    let start = y * pitch;
    let end = start + 4 * width;
    assert(start >= 0) by (nonlinear_arith)
        requires
            start == y * pitch,
            y >= 0,
            pitch > 0,
    ;
    assert((y + 1) * pitch == start + pitch) by (nonlinear_arith)
        requires
            start == y * pitch,
    ;
    let left = s.subrange(0, start) + (row_painted(s.subrange(start, end), pixels, width, y, format)
        + s.subrange(end, s.len() as int));
    let right = painted(before, pitch, pixels, width, y + 1, format);
    assert(left.len() == right.len());
    assert forall|i: int| 0 <= i < left.len() implies left[i] == right[i] by {
        lemma_row_below(i, pitch, y);
        lemma_row_below(i, pitch, y + 1);
        if i < start {
        } else if i < end {
            lemma_row_of(i, pitch, y);
        } else if i < start + pitch {
            lemma_row_of(i, pitch, y);
        } else {
        }
    }
    assert(left =~= right);
}

/// A frame without rows leaves a surface as it was, and a surface of one row
/// or less takes a frame of one row as that row is written.
pub(crate) proof fn lemma_painted_single_row(
    before: Seq<u8>,
    pitch: int,
    pixels: Seq<i32>,
    width: int,
    format: SurfaceFormat,
)
    requires
        0 <= width,
        4 * width <= pitch,
    ensures
        painted(before, pitch, pixels, width, 0, format) == before,
        before.len() <= pitch ==> painted(before, pitch, pixels, width, 1, format) == row_painted(
            before,
            pixels,
            width,
            0,
            format,
        ),
{
    assert(painted(before, pitch, pixels, width, 0, format) =~= before) by {
        assert forall|i: int| 0 <= i < before.len() implies !in_frame(i, pitch, width, 0) by {
            if pitch > 0 {
                lemma_row_below(i, pitch, 0);
            }
        }
    }
    if before.len() <= pitch {
        let a = painted(before, pitch, pixels, width, 1, format);
        let b = row_painted(before, pixels, width, 0, format);
        assert forall|i: int| 0 <= i < before.len() implies a[i] == b[i] by {
            lemma_row_of(i, pitch, 0);
        }
        assert(a =~= b);
    }
}

/// A surface of whole rows, each of which holds its row of the frame, holds
/// the frame.
pub(crate) proof fn lemma_rows_make_frame(
    before: Seq<u8>,
    after: Seq<u8>,
    pitch: int,
    pixels: Seq<i32>,
    width: int,
    rows: int,
    format: SurfaceFormat,
)
    requires
        pitch > 0,
        0 <= rows,
        0 <= width,
        4 * width <= pitch,
        before.len() == rows * pitch,
        after.len() == before.len(),
        forall|y: int|
            0 <= y < rows ==> #[trigger] surface_row(after, pitch, y) == row_painted(
                surface_row(before, pitch, y),
                pixels,
                width,
                y,
                format,
            ),
    ensures
        after == painted(before, pitch, pixels, width, rows, format),
{
    let goal = painted(before, pitch, pixels, width, rows, format);
    assert forall|i: int| 0 <= i < before.len() implies after[i] == goal[i] by {
        lemma_row_below(i, pitch, rows);
        let y = i / pitch;
        let j = i % pitch;
        assert((y + 1) * pitch == y * pitch + pitch) by (nonlinear_arith);
        assert((y + 1) * pitch <= rows * pitch) by (nonlinear_arith)
            requires
                y + 1 <= rows,
                pitch > 0,
        ;
        assert(surface_row(after, pitch, y)[j] == after[i]);
        assert(surface_row(before, pitch, y)[j] == before[i]);
    }
    assert(after =~= goal);
}

/// What a frame looks like on a surface depends on the words of the frame
/// only, not on what the array of words holds beyond them.
pub proof fn lemma_painted_reads_frame_only(
    before: Seq<u8>,
    pitch: int,
    pixels: Seq<i32>,
    others: Seq<i32>,
    width: int,
    height: int,
    format: SurfaceFormat,
)
    requires
        0 <= width,
        0 <= height,
        forall|p: int| 0 <= p < width * height ==> pixels[p] == others[p],
    ensures
        painted(before, pitch, pixels, width, height, format) == painted(
            before,
            pitch,
            others,
            width,
            height,
            format,
        ),
{
    let a = painted(before, pitch, pixels, width, height, format);
    let b = painted(before, pitch, others, width, height, format);
    assert forall|i: int| 0 <= i < before.len() implies a[i] == b[i] by {
        if in_frame(i, pitch, width, height) {
            lemma_row_below(i, pitch, height);
            lemma_pixel_index(i / pitch, (i % pitch) / 4, width, height);
        }
    }
    assert(a =~= b);
}

/// Byte `k` of pixel `x` in row `y` of a frame stands on the surface at offset
/// `y * pitch + 4 * x + k`.
pub proof fn lemma_painted_pixel(
    before: Seq<u8>,
    pitch: int,
    pixels: Seq<i32>,
    width: int,
    height: int,
    format: SurfaceFormat,
    x: int,
    y: int,
    k: int,
)
    requires
        fits(before.len() as int, pitch, pixels.len() as int, width, height),
        0 <= x < width,
        0 <= y < height,
        0 <= k < 4,
    ensures
        0 <= y * pitch + 4 * x + k < before.len(),
        0 <= y * width + x < pixels.len(),
        painted(before, pitch, pixels, width, height, format)[y * pitch + 4 * x + k] == surface_byte(
            pixels[y * width + x],
            format,
            k,
        ),
{
    let i = y * pitch + 4 * x + k;
    assert(0 <= y * pitch <= (height - 1) * pitch && (y + 1) * pitch == y * pitch + pitch)
        by (nonlinear_arith)
        requires
            0 <= y <= height - 1,
            0 < pitch,
    ;
    lemma_row_of(i, pitch, y);
    lemma_pixel_index(y, x, width, height);
}

/// What a frame writes to a byte of the surface does not depend on what the
/// surface held, there or anywhere else.
pub proof fn lemma_painted_ignores_surface(
    one: Seq<u8>,
    other: Seq<u8>,
    pitch: int,
    pixels: Seq<i32>,
    width: int,
    height: int,
    format: SurfaceFormat,
    i: int,
)
    requires
        0 <= i < one.len(),
        i < other.len(),
        in_frame(i, pitch, width, height),
    ensures
        painted(one, pitch, pixels, width, height, format)[i] == painted(
            other,
            pitch,
            pixels,
            width,
            height,
            format,
        )[i],
{
}

/// Rows are independent: two bands of rows, written one after the other, give
/// the same surface in either order.
pub proof fn lemma_rows_in_any_order(
    before: Seq<u8>,
    pitch: int,
    pixels: Seq<i32>,
    width: int,
    format: SurfaceFormat,
    lo: int,
    hi: int,
    other_lo: int,
    other_hi: int,
)
    ensures
        painted_rows(
            painted_rows(before, pitch, pixels, width, lo, hi, format),
            pitch,
            pixels,
            width,
            other_lo,
            other_hi,
            format,
        ) == painted_rows(
            painted_rows(before, pitch, pixels, width, other_lo, other_hi, format),
            pitch,
            pixels,
            width,
            lo,
            hi,
            format,
        ),
{
    let first = painted_rows(
        painted_rows(before, pitch, pixels, width, lo, hi, format),
        pitch,
        pixels,
        width,
        other_lo,
        other_hi,
        format,
    );
    let second = painted_rows(
        painted_rows(before, pitch, pixels, width, other_lo, other_hi, format),
        pitch,
        pixels,
        width,
        lo,
        hi,
        format,
    );
    assert(first =~= second);
}

/// A frame can be written in two parts that share nothing: its first `m` rows
/// to the first `m` rows of the surface, and its other rows to the rest.
pub proof fn lemma_painted_split(
    before: Seq<u8>,
    pitch: int,
    pixels: Seq<i32>,
    width: int,
    height: int,
    format: SurfaceFormat,
    m: int,
)
    requires
        0 <= m <= height,
        0 <= width,
        4 * width <= pitch,
        0 <= m * pitch <= before.len(),
        width * height <= pixels.len(),
    ensures
        painted(before, pitch, pixels, width, height, format) == painted(
            before.subrange(0, m * pitch),
            pitch,
            pixels.subrange(0, m * width),
            width,
            m,
            format,
        ) + painted(
            before.subrange(m * pitch, before.len() as int),
            pitch,
            pixels.subrange(m * width, pixels.len() as int),
            width,
            height - m,
            format,
        ),
{
    let cut = m * pitch;
    let whole = painted(before, pitch, pixels, width, height, format);
    let upper = painted(before.subrange(0, cut), pitch, pixels.subrange(0, m * width), width, m, format);
    let lower = painted(
        before.subrange(cut, before.len() as int),
        pitch,
        pixels.subrange(m * width, pixels.len() as int),
        width,
        height - m,
        format,
    );
    assert(0 <= m * width <= width * height) by (nonlinear_arith)
        requires
            0 <= m <= height,
            0 <= width,
    ;
    assert((upper + lower).len() == whole.len());
    assert forall|i: int| 0 <= i < whole.len() implies whole[i] == (upper + lower)[i] by {
        if pitch > 0 {
            lemma_row_below(i, pitch, m);
            lemma_row_below(i, pitch, height);
            let y = i / pitch;
            let x = (i % pitch) / 4;
            if i < cut {
                assert((upper + lower)[i] == upper[i]);
                assert(in_frame(i, pitch, width, m) == in_frame(i, pitch, width, height));
                if in_frame(i, pitch, width, m) {
                    lemma_pixel_index(y, x, width, m);
                    assert(m * width == width * m) by (nonlinear_arith);
                    assert(pixels.subrange(0, m * width)[y * width + x] == pixels[y * width + x]);
                }
                assert(whole[i] == upper[i]);
            } else {
                let j = i - cut;
                assert((upper + lower)[i] == lower[j]);
                assert(i == (y - m) * pitch + i % pitch + cut) by (nonlinear_arith)
                    requires
                        i == y * pitch + i % pitch,
                        cut == m * pitch,
                ;
                vstd::arithmetic::div_mod::lemma_fundamental_div_mod_converse(
                    j,
                    pitch,
                    y - m,
                    i % pitch,
                );
                assert(j / pitch == y - m && j % pitch == i % pitch);
                assert((y - m) * width + x + m * width == y * width + x) by (nonlinear_arith);
                assert(in_frame(j, pitch, width, height - m) == in_frame(i, pitch, width, height));
                if in_frame(j, pitch, width, height - m) {
                    lemma_pixel_index(y, x, width, height);
                    assert(0 <= (y - m) * width) by (nonlinear_arith)
                        requires
                            0 <= y - m,
                            0 <= width,
                    ;
                    assert(pixels.subrange(m * width, pixels.len() as int)[(y - m) * width + x]
                        == pixels[y * width + x]);
                }
                assert(whole[i] == lower[j]);
            }
        } else {
            assert(cut == 0) by (nonlinear_arith)
                requires
                    cut == m * pitch,
                    pitch == 0,
            ;
            assert((upper + lower)[i] == lower[i]);
        }
    }
    assert(whole =~= upper + lower);
}

/// The bands follow one another from row 0 up to the last row.
pub(crate) proof fn lemma_band_starts(height: int, workers: int, k: int)
    requires
        0 <= height,
        1 <= workers,
        0 <= k < workers,
    ensures
        0 <= band_start(height, workers, k) <= band_start(height, workers, k + 1) <= height,
        band_start(height, workers, 0) == 0,
{
    let per = height / workers;
    vstd::arithmetic::div_mod::lemma_fundamental_div_mod(height, workers);
    assert(0 <= per && 0 <= k * per <= (k + 1) * per && (k + 1) * per <= height) by (nonlinear_arith)
        requires
            height == workers * per + height % workers,
            0 <= height % workers,
            0 <= height,
            1 <= workers,
            0 <= k < workers,
    ;
}

/// After the first `k` workers the rows before the next worker's first row are
/// written, and no others.
proof fn lemma_bands_reach(
    before: Seq<u8>,
    pitch: int,
    pixels: Seq<i32>,
    width: int,
    height: int,
    format: SurfaceFormat,
    workers: int,
    k: nat,
)
    requires
        0 <= height,
        1 <= workers,
        k <= workers,
    ensures
        painted_in_bands(before, pitch, pixels, width, height, format, workers, k) == painted(
            before,
            pitch,
            pixels,
            width,
            band_start(height, workers, k as int),
            format,
        ),
    decreases k,
{
    let here = painted_in_bands(before, pitch, pixels, width, height, format, workers, k);
    let hi = band_start(height, workers, k as int);
    let goal = painted(before, pitch, pixels, width, hi, format);
    if k == 0 {
        assert forall|i: int| 0 <= i < before.len() implies goal[i] == before[i] by {
            if pitch > 0 {
                lemma_row_below(i, pitch, 0);
            }
        }
        assert(goal =~= here);
    } else {
        lemma_bands_reach(before, pitch, pixels, width, height, format, workers, (k - 1) as nat);
        lemma_band_starts(height, workers, k - 1);
        assert(here =~= goal);
    }
}

/// Whether a frame is written by one worker or by any number of workers, each
/// with its own rows, the surface is the same in every byte.
pub proof fn lemma_bands_agree(
    before: Seq<u8>,
    pitch: int,
    pixels: Seq<i32>,
    width: int,
    height: int,
    format: SurfaceFormat,
    workers: int,
)
    requires
        0 <= height,
        1 <= workers,
    ensures
        painted_in_bands(before, pitch, pixels, width, height, format, workers, workers as nat)
            == painted(before, pitch, pixels, width, height, format),
        painted_in_bands(before, pitch, pixels, width, height, format, workers, workers as nat)
            == painted_in_bands(before, pitch, pixels, width, height, format, 1, 1),
{
    lemma_bands_reach(before, pitch, pixels, width, height, format, workers, workers as nat);
    lemma_bands_reach(before, pitch, pixels, width, height, format, 1, 1);
}

/// A frame of `width` by `height` pixels takes exactly `4 * width * height`
/// bytes of a surface.
pub proof fn lemma_frame_offsets_count(pitch: int, width: int, height: int)
    requires
        0 <= width,
        0 <= height,
        4 * width <= pitch,
    ensures
        frame_offsets(pitch, width, height).finite(),
        frame_offsets(pitch, width, height).len() == 4 * width * height,
    decreases height,
{
    let all = frame_offsets(pitch, width, height);
    if height == 0 || pitch == 0 {
        assert forall|i: int| !all.contains(i) by {
            if pitch > 0 && 0 <= i {
                lemma_row_below(i, pitch, 0);
            }
        }
        assert(all =~= Set::<int>::empty());
        assert(4 * width * height == 0) by (nonlinear_arith)
            requires
                height == 0 || width == 0,
        ;
    } else {
        let above = frame_offsets(pitch, width, height - 1);
        let start = (height - 1) * pitch;
        let row = vstd::set_lib::set_int_range(start, start + 4 * width);
        lemma_frame_offsets_count(pitch, width, height - 1);
        vstd::set_lib::lemma_int_range(start, start + 4 * width);
        assert(0 <= start && height * pitch == start + pitch) by (nonlinear_arith)
            requires
                start == (height - 1) * pitch,
                height >= 1,
                pitch > 0,
        ;
        assert forall|i: int| all.contains(i) == (above + row).contains(i) by {
            if 0 <= i {
                lemma_row_below(i, pitch, height - 1);
                lemma_row_below(i, pitch, height);
                if start <= i < start + pitch {
                    lemma_row_of(i, pitch, height - 1);
                }
            }
        }
        assert(all =~= above + row);
        assert(above.disjoint(row)) by {
            assert forall|i: int| !(above.contains(i) && row.contains(i)) by {
                if 0 <= i {
                    lemma_row_below(i, pitch, height - 1);
                }
            }
        }
        vstd::set_lib::lemma_set_disjoint_lens(above, row);
        assert(4 * width * (height - 1) + 4 * width == 4 * width * height) by (nonlinear_arith);
    }
}

/// A frame that is written to a surface that can take it writes the bytes at
/// the `4 * width * height` offsets of its pixels, all of which the surface
/// has, and leaves the byte at every other offset as it was.
pub proof fn lemma_painted_writes_frame_only(
    before: Seq<u8>,
    pitch: int,
    pixels: Seq<i32>,
    width: int,
    height: int,
    format: SurfaceFormat,
)
    requires
        0 <= width,
        0 <= height,
        fits(before.len() as int, pitch, pixels.len() as int, width, height),
    ensures
        painted(before, pitch, pixels, width, height, format).len() == before.len(),
        frame_offsets(pitch, width, height).finite(),
        frame_offsets(pitch, width, height).len() == 4 * width * height,
        forall|i: int| #[trigger]
            frame_offsets(pitch, width, height).contains(i) ==> 0 <= i < before.len(),
        forall|i: int|
            0 <= i < before.len() && !frame_offsets(pitch, width, height).contains(i) ==> #[trigger] painted(
                before,
                pitch,
                pixels,
                width,
                height,
                format,
            )[i] == before[i],
        forall|i: int|
            frame_offsets(pitch, width, height).contains(i) ==> #[trigger] painted(
                before,
                pitch,
                pixels,
                width,
                height,
                format,
            )[i] == surface_byte(pixels[(i / pitch) * width + (i % pitch) / 4], format, (i % pitch) % 4),
{
    lemma_frame_offsets_count(pitch, width, height);
    assert forall|i: int| #[trigger]
        frame_offsets(pitch, width, height).contains(i) implies 0 <= i < before.len() by {
        lemma_row_below(i, pitch, height);
        let y = i / pitch;
        assert(y * pitch <= (height - 1) * pitch) by (nonlinear_arith)
            requires
                y <= height - 1,
                pitch > 0,
        ;
    }
}

} // verus!
