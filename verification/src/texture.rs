//! The picture that is drawn into every window: a plain rectangle of one
//! colour, four bytes to the pixel, handed over with its rows bottom-up.

use vstd::prelude::*;

verus! {

/// Pixels in a row of the picture.
pub const FRAME_WIDTH: u32 = 800;

/// Rows of the picture.
pub const FRAME_HEIGHT: u32 = 600;

/// The byte that fills the picture.
pub const FRAME_FILL: u8 = 0xaa;

/// Bytes of the picture: four to the pixel.
pub const FRAME_BYTES: usize = 1_920_000;

/// Whether `pixels` holds `height` rows of `width` pixels, four bytes each,
/// with at least one pixel to the row.
pub open spec fn is_image(pixels: Seq<u8>, width: u32, height: u32) -> bool {
    &&& width > 0
    &&& width * 4 <= usize::MAX
    &&& pixels.len() == width * 4 * height
}

/// The rows of `pixels`, each `row` bytes long, in reverse order: the byte at
/// place `c` of row `r` comes from place `c` of the row that is `r` rows from
/// the end.
pub open spec fn rows_reversed(pixels: Seq<u8>, row: int) -> Seq<u8> {
    Seq::new(pixels.len(), |i: int| pixels[pixels.len() - (i / row + 1) * row + i % row])
}

/// Calls `glium::texture::RawImage2d::from_raw_rgba_reversed` and hands out the
/// bytes of the image it builds. That function cuts the input into rows of
/// `width * 4` bytes and puts them together again from the last to the first;
/// this is what the contract claims, for an input made of whole rows.
#[verifier::external_body]
fn reversed(pixels: &[u8], width: u32, height: u32) -> (flipped: Vec<u8>)
    requires
        is_image(pixels@, width, height),
    ensures
        flipped@ == rows_reversed(pixels@, width * 4),
{
    glium::texture::RawImage2d::from_raw_rgba_reversed(pixels, (width, height)).data.into_owned()
}

/// The image upside down, or `None` where `pixels` is not an image of
/// `width` by `height` pixels.
pub fn flip_rows(pixels: &[u8], width: u32, height: u32) -> (flipped: Option<Vec<u8>>)
    ensures
        flipped is Some == is_image(pixels@, width, height),
        flipped is Some ==> flipped->0@ == rows_reversed(pixels@, width * 4),
{
    let row: u128 = width as u128 * 4;
    assert(row * height <= 0x4_0000_0000 * 0x1_0000_0000) by (nonlinear_arith)
        requires
            0 <= row <= 0x4_0000_0000,
            0 <= height <= 0x1_0000_0000,
    ;
    let all: u128 = row * height as u128;
    if width > 0 && row <= usize::MAX as u128 && pixels.len() as u128 == all {
        Some(reversed(pixels, width, height))
    } else {
        None
    }
}

/// The picture as it is handed to the graphics card: `FRAME_HEIGHT` rows of
/// `FRAME_WIDTH` pixels, every byte `FRAME_FILL`.
pub fn frame_pixels() -> (pixels: Vec<u8>)
    ensures
        pixels@ == Seq::new(FRAME_BYTES as nat, |i: int| FRAME_FILL),
{
    let mut plain: Vec<u8> = Vec::new();
    let mut i: usize = 0;
    while i < FRAME_BYTES
        invariant
            i <= FRAME_BYTES,
            plain@ == Seq::new(i as nat, |k: int| FRAME_FILL),
        decreases FRAME_BYTES - i,
    {
        plain.push(FRAME_FILL);
        i += 1;
        assert(plain@ =~= Seq::new(i as nat, |k: int| FRAME_FILL));
    }
    let flipped = reversed(plain.as_slice(), FRAME_WIDTH, FRAME_HEIGHT);
    assert forall|i: int| 0 <= i < FRAME_BYTES implies flipped@[i] == FRAME_FILL by {
        let from = FRAME_BYTES - (i / 3200 + 1) * 3200 + i % 3200;
        assert(0 <= from < FRAME_BYTES);
        assert(flipped@[i] == plain@[from]);
    }
    assert(flipped@ =~= Seq::new(FRAME_BYTES as nat, |i: int| FRAME_FILL));
    flipped
}

} // verus!
