//! The flat pixel view of a mapped buffer: one 32-bit value per pixel,
//! row-major, as many as the mode has pixels.
use vstd::prelude::*;

verus! {

/// Relies on `bytemuck::try_cast_slice_mut` (u8 to u32): it fails when the
/// byte length is not a multiple of four or the memory is not aligned for
/// u32, and otherwise views the same memory as one value per four bytes.
#[verifier::external_body]
fn cast_to_pixels(bytes: &mut [u8]) -> (r: Option<&mut [u32]>)
    ensures
        r matches Some(p) ==> p@.len() * 4 == old(bytes)@.len(),
        old(bytes)@.len() % 4 != 0 ==> r is None,
{
    bytemuck::try_cast_slice_mut(bytes).ok()
}

/// Relies on `bytemuck::try_cast_slice` (u8 to u32): it fails when the byte
/// length is not a multiple of four or the memory is not aligned for u32,
/// and otherwise views the same memory as one value per four bytes.
#[verifier::external_body]
fn cast_to_pixels_ref(bytes: &[u8]) -> (r: Option<&[u32]>)
    ensures
        r matches Some(p) ==> p@.len() * 4 == bytes@.len(),
        bytes@.len() % 4 != 0 ==> r is None,
{
    bytemuck::try_cast_slice(bytes).ok()
}

/// Read-only form of [`frame_pixels`].
pub fn frame_pixels_ref(pixels: &[u32], width: u16, height: u16) -> (r: Option<&[u32]>)
    ensures
        match r {
            Some(p) => p@.len() == width * height && p@ == pixels@.subrange(0, width * height),
            None => pixels@.len() < width * height,
        },
        r is Some <==> pixels@.len() >= width * height,
{
    assert((width as int) * (height as int) <= 0xffff * 0xffff) by (nonlinear_arith)
        requires
            width <= 0xffff,
            height <= 0xffff,
    ;
    let count: usize = (width as usize) * (height as usize);
    if count <= pixels.len() {
        let (head, _tail) = pixels.split_at(count);
        Some(head)
    } else {
        None
    }
}

/// Read-only form of [`pixels_mut`].
pub fn pixels(bytes: &[u8], width: u16, height: u16) -> (r: Option<&[u32]>)
    ensures
        r matches Some(p) ==> p@.len() == width * height,
        bytes@.len() % 4 != 0 ==> r is None,
        bytes@.len() < 4 * (width * height) ==> r is None,
{
    match cast_to_pixels_ref(bytes) {
        Some(p) => frame_pixels_ref(p, width, height),
        None => None,
    }
}

/// The first `width * height` pixels, or `None` when there are fewer.
pub fn frame_pixels(pixels: &mut [u32], width: u16, height: u16) -> (r: Option<&mut [u32]>)
    ensures
        match r {
            Some(p) => p@.len() == width * height && p@ == old(pixels)@.subrange(
                0,
                width * height,
            ),
            None => old(pixels)@.len() < width * height,
        },
        r is Some <==> old(pixels)@.len() >= width * height,
{
    assert((width as int) * (height as int) <= 0xffff * 0xffff) by (nonlinear_arith)
        requires
            width <= 0xffff,
            height <= 0xffff,
    ;
    let count: usize = (width as usize) * (height as usize);
    if count <= pixels.len() {
        let (head, _tail) = pixels.split_at_mut(count);
        Some(head)
    } else {
        None
    }
}

/// The pixel array of a mapped buffer of a `width` x `height` mode: exactly
/// `width * height` values when the mapping can be read as 32-bit pixels and
/// holds that many.
pub fn pixels_mut(bytes: &mut [u8], width: u16, height: u16) -> (r: Option<&mut [u32]>)
    ensures
        r matches Some(p) ==> p@.len() == width * height,
        old(bytes)@.len() % 4 != 0 ==> r is None,
        old(bytes)@.len() < 4 * (width * height) ==> r is None,
{
    match cast_to_pixels(bytes) {
        Some(p) => {
            let r = frame_pixels(p, width, height);
            r
        },
        None => None,
    }
}

} // verus!
