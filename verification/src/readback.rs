//! Sizes of what the renderer allocates, and turning a frame that was copied
//! off the device into the pixels of a picture.
use crate::file::aligned;
use vstd::prelude::*;

verus! {

/// A copy from a texture to a buffer needs each row aligned to this many bytes.
pub const COPY_ALIGN: u32 = 256;

/// The largest buffer to ask a device for, in bytes: the full bake wants more
/// than the default allows.
pub const BUFFER_CEILING: u64 = 0x2000_0000;

/// The smallest buffer that is ever allocated, in bytes.
pub const BUFFER_FLOOR: usize = 4;

/// The two passes of a frame.
#[derive(Debug, Clone, Copy, PartialEq, Eq, Structural)]
pub enum PassKind {
    Solid,
    Ghosted,
}

impl PassKind {
    /// Whether the pass writes depth. The ghost pass must not occlude itself, or
    /// the near face of every room would hide the far one and the x-ray would
    /// only be one layer deep.
    #[must_use]
    pub fn writes_depth(self) -> (r: bool)
        ensures
            r == (self == PassKind::Solid),
    {
        match self {
            PassKind::Solid => true,
            PassKind::Ghosted => false,
        }
    }

    /// Whether the pass adds to what is there instead of replacing it. Adding is
    /// commutative, so the ghost pass never needs sorting and cannot flicker as
    /// the camera moves.
    #[must_use]
    pub fn is_additive(self) -> (r: bool)
        ensures
            r == (self == PassKind::Ghosted),
    {
        match self {
            PassKind::Solid => false,
            PassKind::Ghosted => true,
        }
    }
}

/// What came of asking a surface for the next frame.
#[derive(Debug, Clone, Copy, PartialEq, Eq, Structural)]
pub enum Acquired {
    Success,
    Suboptimal,
    Outdated,
    Lost,
    Timeout,
    Occluded,
    Validation,
}

/// What to do about it.
#[derive(Debug, Clone, Copy, PartialEq, Eq, Structural)]
pub enum FrameStep {
    /// Draw into the frame.
    Draw,
    /// Configure the surface anew, and draw the next frame instead.
    Reconfigure,
    /// Leave this frame out.
    Skip,
    /// Give up.
    Fail,
}

/// What to do about a frame. Occluded means that the window is hidden: nothing
/// to draw, and nothing wrong. A timeout is the compositor being slow.
#[must_use]
pub fn on_acquired(acquired: Acquired) -> (r: FrameStep)
    ensures
        r == FrameStep::Draw <==> acquired == Acquired::Success || acquired == Acquired::Suboptimal,
        r == FrameStep::Reconfigure <==> acquired == Acquired::Outdated || acquired == Acquired::Lost,
        r == FrameStep::Skip <==> acquired == Acquired::Timeout || acquired == Acquired::Occluded,
        r == FrameStep::Fail <==> acquired == Acquired::Validation,
{
    match acquired {
        Acquired::Success | Acquired::Suboptimal => FrameStep::Draw,
        Acquired::Outdated | Acquired::Lost => FrameStep::Reconfigure,
        Acquired::Timeout | Acquired::Occluded => FrameStep::Skip,
        Acquired::Validation => FrameStep::Fail,
    }
}

/// The buffer size to require of a device: headroom over the default, but never
/// more than the adapter has, because asking for more is refused outright.
#[must_use]
pub fn buffer_limit(available: u64) -> (r: u64)
    ensures
        r == if available <= BUFFER_CEILING {
            available
        } else {
            BUFFER_CEILING
        },
        r <= available && r <= 0x2000_0000,
        r == available || r == 0x2000_0000,
{
    if available <= BUFFER_CEILING {
        available
    } else {
        BUFFER_CEILING
    }
}

/// How large a buffer for this much data is.
#[must_use]
pub fn buffer_size(len: usize) -> (r: usize)
    ensures
        r == if len >= BUFFER_FLOOR {
            len
        } else {
            BUFFER_FLOOR
        },
        r >= len && r >= 4,
        r == len || r == 4,
{
    if len >= BUFFER_FLOOR {
        len
    } else {
        BUFFER_FLOOR
    }
}

/// The size to give a target; none for a window without an area, which keeps
/// the size it had.
#[must_use]
pub fn target_size(width: u32, height: u32) -> (r: Option<(u32, u32)>)
    ensures
        r == if width == 0 || height == 0 {
            None
        } else {
            Some((width, height))
        },
{
    if width == 0 || height == 0 {
        None
    } else {
        Some((width, height))
    }
}

/// How many bytes a row of a frame takes in a copy, padding included; none when
/// that cannot be counted in 32 bits.
#[must_use]
pub fn padded_row(width: u32) -> (r: Option<u32>)
    ensures
        match r {
            Some(padded) => padded == aligned(4 * width, COPY_ALIGN as int),
            None => aligned(4 * width, COPY_ALIGN as int) > u32::MAX,
        },
{
    let row: u64 = 4 * width as u64;
    let over: u64 = row % COPY_ALIGN as u64;
    let padded: u64 = if over == 0 {
        row
    } else {
        row + (COPY_ALIGN as u64 - over)
    };
    if padded <= u32::MAX as u64 {
        Some(padded as u32)
    } else {
        None
    }
}

/// The first `n` rows of a copied frame, without the padding.
pub open spec fn rows(mapped: Seq<u8>, row: int, padded: int, n: int) -> Seq<u8>
    decreases n,
{
    if n <= 0 {
        Seq::empty()
    } else {
        rows(mapped, row, padded, n - 1) + mapped.subrange(
            (n - 1) * padded,
            (n - 1) * padded + row,
        )
    }
}

/// Pixels of four bytes with the first and the third byte of each changed over.
pub open spec fn swapped(pixels: Seq<u8>) -> Seq<u8> {
    Seq::new(
        pixels.len(),
        |i: int|
            if i - i % 4 + 4 > pixels.len() {
                pixels[i]
            } else if i % 4 == 0 {
                pixels[i + 2]
            } else if i % 4 == 2 {
                pixels[i - 2]
            } else {
                pixels[i]
            },
    )
}

/// The pixels of a frame, from its copy: strip the row padding, and put red
/// first where the copy has blue first.
#[must_use]
pub fn pixels_of(mapped: &[u8], width: u32, height: u32, padded: u32, blue_first: bool) -> (r: Vec<u8>)
    requires
        4 * width <= padded,
        padded * height <= mapped@.len(),
    ensures
        r@ == if blue_first {
            swapped(rows(mapped@, 4 * width, padded as int, height as int))
        } else {
            rows(mapped@, 4 * width, padded as int, height as int)
        },
{
    let total: usize = mapped.len();
    let row: usize = 4 * width as usize;
    let mut pixels: Vec<u8> = Vec::new();
    let mut n: u32 = 0;
    let mut start: usize = 0;
    while n < height
        invariant
            n <= height,
            row == 4 * width,
            row <= padded,
            total == mapped@.len(),
            padded * height <= total,
            start == n * padded,
            start <= total,
            pixels@ == rows(mapped@, row as int, padded as int, n as int),
        decreases height - n,
    {
        assert((n + 1) * padded <= padded * height && (n + 1) * padded == n * padded + padded)
            by (nonlinear_arith)
            requires
                n + 1 <= height,
        ;
        pixels.extend_from_slice(vstd::slice::slice_subrange(mapped, start, start + row));
        start = start + padded as usize;
        n += 1;
        assert(pixels@ =~= rows(mapped@, row as int, padded as int, n as int));
    }
    if blue_first {
        swap_red_and_blue(&mut pixels);
    }
    pixels
}

/// Change over the first and the third byte of every pixel.
pub fn swap_red_and_blue(pixels: &mut Vec<u8>)
    ensures
        final(pixels)@ == swapped(old(pixels)@),
{
    let mut at: usize = 0;
    while pixels.len() - at >= 4
        invariant
            at <= pixels@.len(),
            at % 4 == 0,
            pixels@.len() == old(pixels)@.len(),
            forall|i: int| 0 <= i < at ==> (#[trigger] pixels@[i]) == swapped(old(pixels)@)[i],
            forall|i: int| at <= i < pixels@.len() ==> (#[trigger] pixels@[i]) == old(pixels)@[i],
        decreases pixels@.len() - at,
    {
        let first: u8 = pixels[at];
        let third: u8 = pixels[at + 2];
        pixels.set(at, third);
        pixels.set(at + 2, first);
        at += 4;
    }
    assert(pixels@ =~= swapped(old(pixels)@));
}

/// Changing over the bytes twice changes nothing.
pub proof fn law_swapping_twice_changes_nothing(pixels: Seq<u8>)
    ensures
        swapped(swapped(pixels)) == pixels,
{
    assert(swapped(swapped(pixels)) =~= pixels);
}

/// A picture has four bytes for each pixel of the frame.
pub proof fn law_a_picture_has_all_its_pixels(mapped: Seq<u8>, row: int, padded: int, n: int)
    requires
        0 <= row <= padded,
        0 <= n,
        n * padded <= mapped.len(),
    ensures
        rows(mapped, row, padded, n).len() == n * row,
    decreases n,
{
    if n > 0 {
        assert((n - 1) * padded == n * padded - padded && (n - 1) * row == n * row - row)
            by (nonlinear_arith);
        assert((n - 1) * padded >= 0) by (nonlinear_arith)
            requires
                n >= 1,
                padded >= 0,
        ;
        law_a_picture_has_all_its_pixels(mapped, row, padded, n - 1);
    } else {
        assert(n * row == 0) by (nonlinear_arith)
            requires
                n == 0,
        ;
    }
}

/// A picture shows the frame pixel by pixel: byte `x` of row `y` is byte `x` of
/// row `y` of the copy, where the rows are further apart.
pub proof fn law_a_picture_shows_the_frame(mapped: Seq<u8>, row: int, padded: int, n: int, y: int, x: int)
    requires
        0 <= x < row <= padded,
        0 <= y < n,
        n * padded <= mapped.len(),
    ensures
        rows(mapped, row, padded, n).len() == n * row,
        0 <= y * row + x < n * row,
        rows(mapped, row, padded, n)[y * row + x] == mapped[y * padded + x],
    decreases n,
{
    law_a_picture_has_all_its_pixels(mapped, row, padded, n);
    assert((n - 1) * padded == n * padded - padded && (n - 1) * row == n * row - row) by (nonlinear_arith);
    assert((n - 1) * padded >= 0 && (n - 1) * row >= 0 && y * row >= 0) by (nonlinear_arith)
        requires
            n >= 1,
            y >= 0,
            padded >= 0,
            row >= 0,
    ;
    law_a_picture_has_all_its_pixels(mapped, row, padded, n - 1);
    if y < n - 1 {
        law_a_picture_shows_the_frame(mapped, row, padded, n - 1, y, x);
    }
}

/// Changing over red and blue gives every pixel its first byte from the third,
/// its third from the first, and leaves the second and the fourth.
pub proof fn law_red_and_blue_change_over(pixels: Seq<u8>, p: int)
    requires
        0 <= p,
        4 * p + 4 <= pixels.len(),
    ensures
        swapped(pixels).len() == pixels.len(),
        swapped(pixels)[4 * p] == pixels[4 * p + 2],
        swapped(pixels)[4 * p + 1] == pixels[4 * p + 1],
        swapped(pixels)[4 * p + 2] == pixels[4 * p],
        swapped(pixels)[4 * p + 3] == pixels[4 * p + 3],
{
}

/// A row of a copy is the least multiple of 256 bytes that holds four bytes for
/// each pixel.
pub proof fn law_rows_are_padded_to_the_copy_alignment(width: u32)
    ensures
        ({
            let padded = aligned(4 * width, COPY_ALIGN as int);
            padded % 256 == 0 && 4 * width <= padded < 4 * width + 256
        }),
{
    crate::file::law_aligned(4 * width, 256);
}

} // verus!
