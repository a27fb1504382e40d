//! Pictures as pixels: window icons and textures.

use vstd::prelude::*;

verus! {

/// The pixels of a picture, row by row, four bytes each: red, green, blue and
/// opacity.
#[derive(Debug)]
pub struct IconPixels {
    pub rgba: Vec<u8>,
    pub width: u32,
    pub height: u32,
}

impl IconPixels {
    /// There are four bytes for each pixel, and no others.
    pub open spec fn wf(&self) -> bool {
        self.rgba@.len() == 4 * self.width * self.height
    }
}

/// The bytes, width and height that data decode to with the decoders of a
/// process; none if they are no picture to them. A program can register decoders
/// for its whole process, and they are asked before those of the crate.
pub uninterp spec fn decoded(data: Seq<u8>, decoders: int) -> Option<(Seq<u8>, u32, u32)>;

/// `image::load_from_memory`, then `DynamicImage::to_rgba8`: what the data decode
/// to with the decoders of the process at hand. There are at least four bytes for
/// each pixel, as `ImageBuffer::from_raw` checks. It is left unsaid which decoders
/// there are, which data are pictures to them, and what the pixels are.
#[verifier::external_body]
fn decode_rgba(data: &[u8]) -> (r: Option<(Vec<u8>, u32, u32)>)
    ensures
        exists|decoders: int| #[trigger]
            decoded(data@, decoders) == (match r {
                Some((pixels, width, height)) => Some((pixels@, width, height)),
                None => None,
            }),
        r matches Some((pixels, width, height)) ==> 4 * width * height <= pixels@.len(),
{
    let rgba = image::load_from_memory(data).ok()?.to_rgba8();
    let (width, height) = rgba.dimensions();
    Some((rgba.into_raw(), width, height))
}

/// Whether `r` is the picture that was decoded: its bytes, width and height, if
/// there are four bytes for each pixel and no others, else none.
pub open spec fn shown(r: Option<IconPixels>, picture: Option<(Seq<u8>, u32, u32)>) -> bool {
    match picture {
        Some((rgba, width, height)) => if rgba.len() == 4 * width * height {
            r matches Some(icon) && icon.rgba@ == rgba && icon.width == width && icon.height
                == height
        } else {
            r is None
        },
        None => r is None,
    }
}

/// Bytes as pixels: only if there are four for each pixel, and no others.
pub fn pixels_of(rgba: Vec<u8>, width: u32, height: u32) -> (r: Option<IconPixels>)
    ensures
        r is Some <==> rgba@.len() == 4 * width * height,
        r matches Some(icon) ==> {
            &&& icon.rgba@ == rgba@
            &&& icon.width == width
            &&& icon.height == height
            &&& icon.wf()
        },
{
    proof {
        let w = width as int;
        let h = height as int;
        assert(0 <= 4 * w * h <= 4 * 0xffff_ffff * 0xffff_ffff) by (nonlinear_arith)
            requires
                0 <= w <= 0xffff_ffff,
                0 <= h <= 0xffff_ffff,
        ;
    }
    let count: u128 = 4 * width as u128 * height as u128;
    if rgba.len() as u128 == count {
        Some(IconPixels { rgba, width, height })
    } else {
        None
    }
}

/// The pixels of the picture in a file's bytes, if there is one.
pub fn icon_pixels(data: &[u8]) -> (r: Option<IconPixels>)
    ensures
        exists|decoders: int| shown(r, #[trigger] decoded(data@, decoders)),
        r matches Some(icon) ==> icon.wf(),
{
    match decode_rgba(data) {
        Some((rgba, width, height)) => {
            let ghost decoders = choose|decoders: int| #[trigger]
                decoded(data@, decoders) == Some((rgba@, width, height));
            let r = pixels_of(rgba, width, height);
            assert(shown(r, decoded(data@, decoders)));
            r
        },
        None => {
            let ghost decoders = choose|decoders: int| #[trigger]
                decoded(data@, decoders) == None::<(Seq<u8>, u32, u32)>;
            assert(shown(None, decoded(data@, decoders)));
            None
        },
    }
}

} // verus!
