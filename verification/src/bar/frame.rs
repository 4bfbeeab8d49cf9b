//! The buffers that bars and popups are drawn into.

use vstd::prelude::*;

verus! {

/// A pixel format of shared memory.
#[derive(Clone, Copy, Debug, PartialEq, Eq, Structural)]
pub enum ShmFormat {
    /// Blue, green, red and alpha, byte by byte.
    Argb8888,
    /// Red, green, blue and alpha, byte by byte.
    Abgr8888,
    Other(u32),
}

/// The format to draw in: the one that needs no conversion, if the compositor
/// has it, or else the one that every compositor has.
pub fn preferred_shm_format(formats: &Vec<ShmFormat>) -> (result: ShmFormat)
    ensures
        result == (if formats@.contains(ShmFormat::Abgr8888) {
            ShmFormat::Abgr8888
        } else {
            ShmFormat::Argb8888
        }),
{
    let mut i: usize = 0;
    while i < formats.len()
        invariant
            i <= formats@.len(),
            forall|k: int| 0 <= k < i ==> #[trigger] formats@[k] != ShmFormat::Abgr8888,
        decreases formats@.len() - i,
    {
        if formats[i] == ShmFormat::Abgr8888 {
            return ShmFormat::Abgr8888;
        }
        i += 1;
    }
    ShmFormat::Argb8888
}

/// Pixels with their red and blue exchanged.
pub open spec fn exchanged(pixels: Seq<u8>) -> Seq<u8> {
    Seq::new(
        pixels.len(),
        |i: int|
            if i / 4 * 4 + 4 > pixels.len() {
                pixels[i]
            } else if i % 4 == 0 {
                pixels[i + 2]
            } else if i % 4 == 2 {
                pixels[i - 2]
            } else {
                pixels[i]
            },
    )
}

/// Brings pixels from red, green, blue and alpha into the order of a format.
pub fn convert_canvas_for_wayland(pixels: &mut Vec<u8>, format: ShmFormat)
    ensures
        final(pixels)@ == (if format == ShmFormat::Argb8888 {
            exchanged(old(pixels)@)
        } else {
            old(pixels)@
        }),
{
    if format != ShmFormat::Argb8888 {
        return;
    }
    let total: usize = pixels.len();
    let ghost before = pixels@;
    let mut i: usize = 0;
    while i < total && total - i >= 4
        invariant
            i <= total,
            i % 4 == 0,
            pixels@.len() == total,
            before.len() == total,
            before == old(pixels)@,
            forall|k: int| 0 <= k < i ==> #[trigger] pixels@[k] == exchanged(before)[k],
            forall|k: int| i <= k < total ==> #[trigger] pixels@[k] == before[k],
        decreases total - i,
    {
        let first: u8 = pixels[i];
        let third: u8 = pixels[i + 2];
        pixels.set(i, third);
        pixels.set(i + 2, first);
        assert(exchanged(before)[i as int] == before[i + 2]);
        assert(exchanged(before)[i + 1] == before[i + 1]);
        assert(exchanged(before)[i + 2] == before[i as int]);
        assert(exchanged(before)[i + 3] == before[i + 3]);
        i += 4;
    }
    assert forall|k: int| i <= k < total implies exchanged(before)[k] == before[k] by {
        assert(k / 4 * 4 + 4 > total);
    }
    assert(pixels@ =~= exchanged(before));
}

/// Exchanging red and blue twice changes nothing.
pub proof fn law_exchange_undoes_itself(pixels: Seq<u8>)
    ensures
        exchanged(exchanged(pixels)) == pixels,
{
    let once = exchanged(pixels);
    assert forall|i: int| 0 <= i < pixels.len() implies exchanged(once)[i] == pixels[i] by {
        if i / 4 * 4 + 4 <= pixels.len() {
            if i % 4 == 0 {
                assert((i + 2) / 4 * 4 + 4 <= pixels.len());
                assert(once[i + 2] == pixels[i]);
            } else if i % 4 == 2 {
                assert((i - 2) / 4 * 4 + 4 <= pixels.len());
                assert(once[i - 2] == pixels[i]);
            }
        }
    }
    assert(exchanged(once) =~= pixels);
}

/// A buffer's size in physical pixels, and the bytes of one of its rows.
#[derive(Clone, Copy, Debug, PartialEq, Eq, Structural)]
pub struct FrameSize {
    pub width: u32,
    pub height: u32,
    pub stride: u32,
}

/// Which length of a buffer is too large.
#[derive(Clone, Copy, Debug, PartialEq, Eq, Structural)]
pub enum FrameError {
    Width,
    Height,
    Stride,
}

/// The size of the buffer of a surface; nothing where it is empty.
pub open spec fn size_of_frame(width: int, height: int, scale: int) -> Result<
    Option<FrameSize>,
    FrameError,
> {
    if width * scale > u32::MAX {
        Err(FrameError::Width)
    } else if height * scale > u32::MAX {
        Err(FrameError::Height)
    } else if width * scale == 0 || height * scale == 0 {
        Ok(None)
    } else if width * scale * 4 > u32::MAX {
        Err(FrameError::Stride)
    } else {
        Ok(
            Some(
                FrameSize {
                    width: (width * scale) as u32,
                    height: (height * scale) as u32,
                    stride: (width * scale * 4) as u32,
                },
            ),
        )
    }
}

pub fn frame_size(logical_width: u32, logical_height: u32, scale: u32) -> (result: Result<
    Option<FrameSize>,
    FrameError,
>)
    ensures
        result == size_of_frame(logical_width as int, logical_height as int, scale as int),
{
    assert(0 <= logical_width * scale && 0 <= logical_height * scale) by (nonlinear_arith)
        requires
            0 <= logical_width,
            0 <= logical_height,
            0 <= scale,
    ;
    let width = match logical_width.checked_mul(scale) {
        Some(width) => width,
        None => return Err(FrameError::Width),
    };
    let height = match logical_height.checked_mul(scale) {
        Some(height) => height,
        None => return Err(FrameError::Height),
    };
    if width == 0 || height == 0 {
        return Ok(None);
    }
    match width.checked_mul(4) {
        Some(stride) => Ok(Some(FrameSize { width, height, stride })),
        None => Err(FrameError::Stride),
    }
}

/// A buffer that there is, and whether the compositor has released it.
#[derive(Clone, Copy, Debug, PartialEq, Eq, Structural)]
pub struct BufferState {
    pub height: u32,
    pub stride: u32,
    pub free: bool,
}

/// Whether a buffer can be drawn into again.
pub open spec fn fits(buffer: BufferState, size: FrameSize) -> bool {
    buffer.height == size.height && buffer.stride == size.stride && buffer.free
}

/// The first buffer that can be drawn into again.
pub fn reusable_buffer(buffers: &Vec<BufferState>, size: FrameSize) -> (result: Option<usize>)
    ensures
        match result {
            Some(index) => {
                &&& index < buffers@.len()
                &&& fits(buffers@[index as int], size)
                &&& forall|i: int| 0 <= i < index ==> !fits(#[trigger] buffers@[i], size)
            },
            None => forall|i: int| 0 <= i < buffers@.len() ==> !fits(#[trigger] buffers@[i], size),
        },
{
    let mut i: usize = 0;
    while i < buffers.len()
        invariant
            i <= buffers@.len(),
            forall|k: int| 0 <= k < i ==> !fits(#[trigger] buffers@[k], size),
        decreases buffers@.len() - i,
    {
        let buffer = buffers[i];
        if buffer.height == size.height && buffer.stride == size.stride && buffer.free {
            return Some(i);
        }
        i += 1;
    }
    None
}

} // verus!
