//! The presenter: writes a frame of pixel words to a display surface.
//!
//! The rows of a frame are independent, so they may be written one after the
//! other, band by band, or by worker threads; the surface is the same in every
//! byte.

use vstd::prelude::*;
use rayon::iter::{IndexedParallelIterator, ParallelIterator};
use rayon::slice::ParallelSliceMut;
use crate::error::PipelineError;
use crate::format::{encode, surface_byte, SurfaceFormat};
use crate::surface::{
    fits, in_frame, lemma_band_starts, lemma_bands_agree, lemma_painted_next_row,
    lemma_painted_reads_frame_only, lemma_painted_single_row, lemma_painted_split, lemma_pixel_index,
    lemma_row_below, lemma_rows_make_frame, band_start, painted, painted_in_bands, painted_rows,
    row_painted, surface_row,
};

verus! {

/// Whether a surface of `surface_len` bytes in rows of `pitch` bytes can take a
/// frame of `width` by `height` pixels held in `pixels_len` words.
pub fn frame_fits(surface_len: usize, pitch: usize, pixels_len: usize, width: usize, height: usize) -> (ok: bool)
    ensures
        ok == fits(surface_len as int, pitch as int, pixels_len as int, width as int, height as int),
{
    let words: usize = match width.checked_mul(height) {
        Some(n) => n,
        None => {
            return false;
        },
    };
    if words != pixels_len {
        return false;
    }
    let row_bytes: usize = match width.checked_mul(4) {
        Some(n) => n,
        None => {
            return false;
        },
    };
    if row_bytes > pitch {
        return false;
    }
    if width == 0 || height == 0 {
        return true;
    }
    let above: usize = match (height - 1).checked_mul(pitch) {
        Some(n) => n,
        None => {
            return false;
        },
    };
    match above.checked_add(row_bytes) {
        Some(end) => end <= surface_len,
        None => false,
    }
}

/// Writes row `y` of a frame to one row of a surface: byte `k` of pixel `x`
/// goes to offset `4 * x + k`, and the bytes of the row from `4 * width` on
/// are left as they were.
pub fn write_row(row: &mut [u8], pixels: &[i32], width: usize, y: usize, format: SurfaceFormat)
    requires
        4 * width <= old(row)@.len(),
        (y + 1) * width <= pixels@.len(),
    ensures
        final(row)@ == row_painted(old(row)@, pixels@, width as int, y as int, format),
{
    let ghost before = row@;
    assert(pixels@.len() == pixels.len() && row@.len() == row.len());
    assert(0 <= y * width && y * width + width == (y + 1) * width) by (nonlinear_arith)
        requires
            0 <= y,
            0 <= width,
    ;
    let base: usize = y * width;
    let mut x: usize = 0;
    while x < width
        invariant
            x <= width,
            base == y * width,
            base + width <= pixels@.len() <= usize::MAX,
            row@.len() == before.len() <= usize::MAX,
            4 * width <= row@.len(),
            forall|j: int| 0 <= j < 4 * x ==> row@[j] == surface_byte(pixels@[base + j / 4], format, j % 4),
            forall|j: int| 4 * x <= j < row@.len() ==> row@[j] == before[j],
        decreases width - x,
    {
        let bytes = encode(pixels[base + x], format);
        let offset: usize = 4 * x;
        row[offset] = bytes[0];
        row[offset + 1] = bytes[1];
        row[offset + 2] = bytes[2];
        row[offset + 3] = bytes[3];
        x += 1;
    }
    assert(row@ =~= row_painted(before, pixels@, width as int, y as int, format));
}

/// Writes a frame to a surface row by row, in one thread.
pub fn paint_rows(
    surface: &mut [u8],
    pitch: usize,
    pixels: &[i32],
    width: usize,
    height: usize,
    format: SurfaceFormat,
)
    requires
        fits(old(surface)@.len() as int, pitch as int, pixels@.len() as int, width as int, height as int),
    ensures
        final(surface)@ == painted(old(surface)@, pitch as int, pixels@, width as int, height as int, format),
{
    let ghost before = surface@;
    assert(before.len() == surface.len());
    if width == 0 {
        assert(surface@ =~= painted(before, pitch as int, pixels@, width as int, height as int, format));
        return ;
    }
    let mut y: usize = 0;
    assert(surface@ =~= painted(before, pitch as int, pixels@, width as int, 0, format)) by {
        assert forall|i: int| 0 <= i < before.len() implies !in_frame(i, pitch as int, width as int, 0) by {
            lemma_row_below(i, pitch as int, 0);
        }
    }
    while y < height
        invariant
            y <= height,
            0 < width,
            before.len() == surface@.len() <= usize::MAX,
            fits(before.len() as int, pitch as int, pixels@.len() as int, width as int, height as int),
            surface@ == painted(before, pitch as int, pixels@, width as int, y as int, format),
        decreases height - y,
    {
        proof {
            lemma_pixel_index(y as int, 0, width as int, height as int);
            assert(0 <= y * pitch <= (height - 1) * pitch) by (nonlinear_arith)
                requires
                    0 <= y <= height - 1,
                    pitch >= 0,
            ;
            lemma_painted_next_row(before, pitch as int, pixels@, width as int, y as int, format);
        }
        let start: usize = y * pitch;
        let (_, tail) = surface.split_at_mut(start);
        let (row, _) = tail.split_at_mut(4 * width);
        write_row(row, pixels, width, y, format);
        y += 1;
    }
}

/// Writes rows `lo` to `hi - 1` of a frame to a surface, as one worker does
/// with its band: it is given the bytes of those rows of the surface and the
/// words of those rows of the frame, and nothing else of either.
pub fn paint_band(
    surface: &mut [u8],
    pitch: usize,
    pixels: &[i32],
    width: usize,
    lo: usize,
    hi: usize,
    format: SurfaceFormat,
)
    requires
        lo <= hi,
        4 * width <= pitch,
        hi * width <= pixels@.len(),
        lo == hi || width == 0 || (hi - 1) * pitch + 4 * width <= old(surface)@.len(),
    ensures
        final(surface)@ == painted_rows(
            old(surface)@,
            pitch as int,
            pixels@,
            width as int,
            lo as int,
            hi as int,
            format,
        ),
{
    let ghost before = surface@;
    let ghost goal = painted_rows(before, pitch as int, pixels@, width as int, lo as int, hi as int, format);
    assert(before.len() == surface.len() && pixels@.len() == pixels.len());
    if lo == hi || width == 0 {
        assert forall|i: int| 0 <= i < before.len() implies goal[i] == before[i] by {
            if pitch > 0 {
                lemma_row_below(i, pitch as int, hi as int);
                lemma_row_below(i, pitch as int, lo as int);
            }
        }
        assert(goal =~= before);
        return ;
    }
    let rows: usize = hi - lo;
    proof {
        assert(0 <= lo * pitch <= (hi - 1) * pitch && hi * pitch == (hi - 1) * pitch + pitch && rows
            * pitch == hi * pitch - lo * pitch) by (nonlinear_arith)
            requires
                0 <= lo <= hi - 1,
                0 <= pitch,
                rows == hi - lo,
        ;
        assert(0 <= lo * width <= hi * width && rows * width == hi * width - lo * width && rows
            * width == width * rows) by (nonlinear_arith)
            requires
                0 <= lo <= hi,
                0 <= width,
                rows == hi - lo,
        ;
    }
    let start: usize = lo * pitch;
    let band_pixels = &pixels[lo * width..hi * width];
    let (_, tail) = surface.split_at_mut(start);
    let ghost tail_before = tail@;
    let room: usize = tail.len();
    proof {
        lemma_row_below(room as int, pitch as int, rows as int);
        assert((rows - 1) * pitch == (hi - 1) * pitch - lo * pitch && rows * pitch == (rows - 1)
            * pitch + pitch) by (nonlinear_arith)
            requires
                rows == hi - lo,
        ;
    }
    let band_len: usize = if room / pitch >= rows {
        rows * pitch
    } else {
        room
    };
    let (band, _) = tail.split_at_mut(band_len);
    let ghost band_before = band@;
    paint_rows(band, pitch, band_pixels, width, rows, format);
    proof {
        let after = before.subrange(0, start as int) + (painted(
            band_before,
            pitch as int,
            band_pixels@,
            width as int,
            rows as int,
            format,
        ) + tail_before.subrange(band_len as int, room as int));
        assert(after.len() == goal.len());
        assert forall|i: int| 0 <= i < before.len() implies after[i] == goal[i] by {
            lemma_row_below(i, pitch as int, lo as int);
            lemma_row_below(i, pitch as int, hi as int);
            let y = i / (pitch as int);
            if i < start {
            } else if i < start + band_len {
                let j = i - start;
                assert(i == (y - lo) * pitch + i % (pitch as int) + start) by (nonlinear_arith)
                    requires
                        i == y * pitch + i % (pitch as int),
                        start == lo * pitch,
                ;
                vstd::arithmetic::div_mod::lemma_fundamental_div_mod_converse(
                    j,
                    pitch as int,
                    y - lo,
                    i % (pitch as int),
                );
                lemma_row_below(j, pitch as int, rows as int);
                let x = (i % (pitch as int)) / 4;
                assert((y - lo) * width + x + lo * width == y * width + x) by (nonlinear_arith);
                if in_frame(i, pitch as int, width as int, hi as int) {
                    lemma_pixel_index(y - lo, x, width as int, rows as int);
                    assert(band_pixels@[(y - lo) * width + x] == pixels@[y * width + x]);
                }
                assert(after[i] == painted(
                    band_before,
                    pitch as int,
                    band_pixels@,
                    width as int,
                    rows as int,
                    format,
                )[j]);
            } else {
                assert(after[i] == before[i]);
            }
        }
        assert(after =~= goal);
    }
}

/// Hands the rows of a surface to rayon's worker threads, which write one row
/// of the frame to each: `par_chunks_mut(pitch)` cuts the surface into its
/// rows, `enumerate()` numbers them from 0, and `for_each(..)` calls
/// [`write_row`] once on each numbered row.
///
/// Not proved: that every row of the surface is handed out exactly once,
/// together with its own number, and that nothing else of the surface changes.
/// The surface has to be a whole number of rows, so that each row handed out
/// has `pitch` bytes, and the frame has to hold a row of pixels for each.
#[verifier::external_body]
fn write_rows_in_parallel(
    surface: &mut [u8],
    pitch: usize,
    pixels: &[i32],
    width: usize,
    format: SurfaceFormat,
)
    requires
        pitch > 0,
        4 * width <= pitch,
        old(surface)@.len() % (pitch as nat) == 0,
        (old(surface)@.len() / (pitch as nat)) * width <= pixels@.len(),
    ensures
        final(surface)@.len() == old(surface)@.len(),
        forall|y: int|
            0 <= y < old(surface)@.len() / (pitch as nat) ==> #[trigger] surface_row(
                final(surface)@,
                pitch as int,
                y,
            ) == row_painted(
                surface_row(old(surface)@, pitch as int, y),
                pixels@,
                width as int,
                y,
                format,
            ),
{
    surface.par_chunks_mut(pitch).enumerate().for_each(
        |(y, row)| write_row(row, pixels, width, y, format),
    );
}

/// Writes a frame to a surface, the rows handed out to worker threads.
///
/// The frame is written if and only if the surface can take it; otherwise the
/// surface is left as it was.
pub fn present(
    surface: &mut [u8],
    pitch: usize,
    pixels: &[i32],
    width: usize,
    height: usize,
    format: SurfaceFormat,
) -> (r: Result<(), PipelineError>)
    ensures
        r is Ok <==> fits(
            old(surface)@.len() as int,
            pitch as int,
            pixels@.len() as int,
            width as int,
            height as int,
        ),
        r is Ok ==> final(surface)@ == painted(
            old(surface)@,
            pitch as int,
            pixels@,
            width as int,
            height as int,
            format,
        ),
        r is Err ==> r == Err::<(), PipelineError>(PipelineError::Present) && final(surface)@ == old(
            surface,
        )@,
{
    let ghost before = surface@;
    if !frame_fits(surface.len(), pitch, pixels.len(), width, height) {
        return Err(PipelineError::Present);
    }
    if width == 0 || height == 0 {
        proof {
            lemma_painted_reads_frame_only(
                before,
                pitch as int,
                pixels@,
                Seq::empty(),
                width as int,
                height as int,
                format,
            );
            assert(painted(before, pitch as int, Seq::<i32>::empty(), width as int, height as int, format)
                =~= before) by {
                assert forall|i: int| 0 <= i < before.len() implies !in_frame(
                    i,
                    pitch as int,
                    width as int,
                    height as int,
                ) by {
                    if pitch > 0 {
                        lemma_row_below(i, pitch as int, height as int);
                    }
                }
            }
        }
        return Ok(());
    }
    let whole_rows: usize = surface.len() / pitch;
    let rows: usize = if whole_rows < height {
        whole_rows
    } else {
        height
    };
    proof {
        lemma_row_below(before.len() as int, pitch as int, rows as int);
        lemma_row_below(before.len() as int, pitch as int, height as int - 1);
        lemma_row_below(before.len() as int, pitch as int, rows as int + 1);
        assert(0 <= rows * pitch <= before.len()) by (nonlinear_arith)
            requires
                0 <= rows <= before.len() / (pitch as nat),
                before.len() == (before.len() / (pitch as nat)) * pitch + before.len() % (pitch as nat),
                0 <= before.len() % (pitch as nat),
                pitch > 0,
        ;
        assert(rows == height || rows == height - 1);
        assert(0 <= rows * width <= width * height && rows * width == width * rows) by (nonlinear_arith)
            requires
                0 <= rows <= height,
                0 <= width,
        ;
        assert(rows < height ==> (rows + 1) * width <= width * height) by (nonlinear_arith)
            requires
                0 <= rows,
                0 <= width,
        ;
        lemma_painted_split(before, pitch as int, pixels@, width as int, height as int, format, rows as int);
        lemma_painted_reads_frame_only(
            before.subrange(0, rows * pitch),
            pitch as int,
            pixels@,
            pixels@.subrange(0, rows * width),
            width as int,
            rows as int,
            format,
        );
        let rest = before.subrange(rows * pitch, before.len() as int);
        let later = pixels@.subrange(rows * width, pixels@.len() as int);
        lemma_painted_single_row(rest, pitch as int, later, width as int, format);
        vstd::arithmetic::div_mod::lemma_fundamental_div_mod_converse(
            rows * pitch,
            pitch as int,
            rows as int,
            0,
        );
        if rows < height {
            assert(rest.len() < pitch);
            let a = row_painted(rest, later, width as int, 0, format);
            let b = row_painted(rest, pixels@, width as int, rows as int, format);
            assert forall|j: int| 0 <= j < rest.len() implies a[j] == b[j] by {
                if j < 4 * width {
                    lemma_pixel_index(rows as int, j / 4, width as int, height as int);
                    assert(later[j / 4] == pixels@[rows * width + j / 4]);
                }
            }
            assert(a =~= b);
        }
    }
    let (frame, rest) = surface.split_at_mut(rows * pitch);
    let ghost frame_before = frame@;
    write_rows_in_parallel(frame, pitch, pixels, width, format);
    proof {
        lemma_rows_make_frame(frame_before, frame@, pitch as int, pixels@, width as int, rows as int, format);
    }
    if rows < height {
        write_row(rest, pixels, width, rows, format);
    }
    Ok(())
}

/// Writes a frame to a surface row by row, in the caller's thread.
///
/// The frame is written if and only if the surface can take it; otherwise the
/// surface is left as it was.
pub fn present_sequential(
    surface: &mut [u8],
    pitch: usize,
    pixels: &[i32],
    width: usize,
    height: usize,
    format: SurfaceFormat,
) -> (r: Result<(), PipelineError>)
    ensures
        r is Ok <==> fits(
            old(surface)@.len() as int,
            pitch as int,
            pixels@.len() as int,
            width as int,
            height as int,
        ),
        r is Ok ==> final(surface)@ == painted(
            old(surface)@,
            pitch as int,
            pixels@,
            width as int,
            height as int,
            format,
        ),
        r is Err ==> r == Err::<(), PipelineError>(PipelineError::Present) && final(surface)@ == old(
            surface,
        )@,
{
    if !frame_fits(surface.len(), pitch, pixels.len(), width, height) {
        return Err(PipelineError::Present);
    }
    paint_rows(surface, pitch, pixels, width, height, format);
    Ok(())
}

/// Writes a frame to a surface band by band: the rows are shared among
/// `workers` workers, each of which writes its own rows and no others.
///
/// The frame is written if and only if there is a worker and the surface can
/// take the frame; otherwise the surface is left as it was.
pub fn present_in_bands(
    surface: &mut [u8],
    pitch: usize,
    pixels: &[i32],
    width: usize,
    height: usize,
    format: SurfaceFormat,
    workers: usize,
) -> (r: Result<(), PipelineError>)
    ensures
        r is Ok <==> workers > 0 && fits(
            old(surface)@.len() as int,
            pitch as int,
            pixels@.len() as int,
            width as int,
            height as int,
        ),
        r is Ok ==> final(surface)@ == painted_in_bands(
            old(surface)@,
            pitch as int,
            pixels@,
            width as int,
            height as int,
            format,
            workers as int,
            workers as nat,
        ),
        r is Ok ==> final(surface)@ == painted(
            old(surface)@,
            pitch as int,
            pixels@,
            width as int,
            height as int,
            format,
        ),
        r is Err ==> r == Err::<(), PipelineError>(PipelineError::Present) && final(surface)@ == old(
            surface,
        )@,
{
    let ghost before = surface@;
    if workers == 0 || !frame_fits(surface.len(), pitch, pixels.len(), width, height) {
        return Err(PipelineError::Present);
    }
    let per: usize = height / workers;
    if per == 0 {
        // More workers than rows: all rows are left over for the last worker.
        paint_band(surface, pitch, pixels, width, 0, height, format);
        proof {
            lemma_bands_agree(before, pitch as int, pixels@, width as int, height as int, format, workers as int);
            let whole = painted(before, pitch as int, pixels@, width as int, height as int, format);
            assert forall|i: int| 0 <= i < before.len() implies surface@[i] == whole[i] by {
                if pitch > 0 {
                    lemma_row_below(i, pitch as int, 0);
                }
            }
            assert(surface@ =~= whole);
        }
        return Ok(());
    }
    let mut k: usize = 0;
    while k < workers
        invariant
            k <= workers,
            1 <= workers,
            per == height / workers,
            surface@.len() == before.len(),
            fits(before.len() as int, pitch as int, pixels@.len() as int, width as int, height as int),
            surface@ == painted_in_bands(
                before,
                pitch as int,
                pixels@,
                width as int,
                height as int,
                format,
                workers as int,
                k as nat,
            ),
        decreases workers - k,
    {
        proof {
            lemma_band_starts(height as int, workers as int, k as int);
            assert((k + 1) * per == k * per + per) by (nonlinear_arith);
        }
        let lo: usize = k * per;
        let hi: usize = if k + 1 == workers {
            height
        } else {
            lo + per
        };
        proof {
            assert(hi == band_start(height as int, workers as int, k + 1));
            assert(hi * width <= width * height && (lo < hi ==> (hi - 1) * pitch <= (height - 1) * pitch))
                by (nonlinear_arith)
                requires
                    0 <= lo <= hi <= height,
                    0 <= width,
                    0 <= pitch,
            ;
        }
        paint_band(surface, pitch, pixels, width, lo, hi, format);
        k += 1;
    }
    proof {
        lemma_bands_agree(before, pitch as int, pixels@, width as int, height as int, format, workers as int);
    }
    Ok(())
}

} // verus!
