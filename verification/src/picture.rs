//! Images shown in the output: decoding a picture file, whether it must shrink
//! to fit the window, and resampling its pixels to a new size.
use vstd::prelude::*;

verus! {

/// An RGBA image with one byte per channel, stored row by row.
pub struct Pixels {
    pub width: u32,
    pub height: u32,
    pub data: Vec<u8>,
}

impl Pixels {
    /// The data holds exactly the image's pixels.
    pub open spec fn wf(&self) -> bool {
        self.data.len() == 4 * self.width * self.height
    }
}

/// Whether an image of `image_width` x `image_height` pixels is wider or
/// taller than a window of `window_width` x `window_height`, and so must shrink.
pub fn needs_downscale(image_width: u32, image_height: u32, window_width: u32, window_height: u32) -> (r:
    bool)
    ensures
        r == (image_width > window_width || image_height > window_height),
{
    image_width > window_width || image_height > window_height
}

/// The extension of the file name `name` names an image format, as
/// `image::ImageFormat::from_path` judges it.
pub uninterp spec fn has_image_extension(name: Seq<char>) -> bool;

/// `image` decodes `bytes` without error in the format that the extension of
/// `name` names. This depends on the bytes and the name alone; only the
/// decoded pixel values may vary with the machine.
pub uninterp spec fn decodes(bytes: Seq<u8>, name: Seq<char>) -> bool;

/// `pixels` (`width` x `height`, 8-bit RGBA) is a decoding of `bytes` in the
/// format that the extension of `name` names, as `image` decodes it. A
/// relation, not a function: some decoders (JPEG) choose at run time between
/// code paths that need not agree bit for bit.
pub uninterp spec fn decodes_to(
    bytes: Seq<u8>,
    name: Seq<char>,
    width: u32,
    height: u32,
    pixels: Seq<u8>,
) -> bool;

/// `image::ImageFormat::from_path`, `image::load_from_memory_with_format`,
/// `DynamicImage::to_rgba8` and `ImageBuffer::into_raw`: decodes `bytes` in
/// the format that the extension of `name` names, as 8-bit RGBA. The contract
/// claims that a name without a known image extension gives `None`, that a
/// picture comes back exactly when the decoder succeeds (the name `decodes`),
/// and that a decoded picture is a decoding of the arguments (the relation
/// `decodes_to`) holding exactly its `4 * width * height` bytes (`to_rgba8`
/// allocates that many). Which bytes each format's decoder accepts is left to
/// the name `decodes`.
#[verifier::external_body]
fn decode_rgba8(bytes: &[u8], name: &str) -> (r: Option<Pixels>)
    ensures
        !has_image_extension(name@) ==> r is None,
        r is Some <==> decodes(bytes@, name@),
        r matches Some(p) ==> p.wf() && decodes_to(bytes@, name@, p.width, p.height, p.data@),
{
    let format = image::ImageFormat::from_path(name).ok()?;
    let decoded = image::load_from_memory_with_format(bytes, format).ok()?;
    let rgba = decoded.to_rgba8();
    Some(Pixels { width: rgba.width(), height: rgba.height(), data: rgba.into_raw() })
}

/// Reads a picture from the contents of the file `name`, the format chosen by
/// the file name's extension; `None` exactly when the contents do not decode
/// (in particular, when the extension names no image format).
pub fn load_picture(bytes: &[u8], name: &str) -> (r: Option<Pixels>)
    ensures
        !has_image_extension(name@) ==> r is None,
        r is Some <==> decodes(bytes@, name@),
        r matches Some(p) ==> p.wf() && decodes_to(bytes@, name@, p.width, p.height, p.data@),
{
    decode_rgba8(bytes, name)
}

/// `out` is a resampling, with the Catmull-Rom filter, of the `width` x
/// `height` RGBA image held in the first `4 * width * height` bytes of `data`
/// to `new_width` x `new_height`, as `image::imageops::resize` computes it.
/// A relation, not a function: the filter weights come from floating-point
/// operations whose precision the platform may vary.
pub uninterp spec fn resampled(
    data: Seq<u8>,
    width: u32,
    height: u32,
    new_width: u32,
    new_height: u32,
    out: Seq<u8>,
) -> bool;

/// Resampling is possible: an empty source side can only become empty (or
/// the other target side is empty), and the buffers that `resize` allocates
/// (`width` x `new_height` in 32-bit floats, then the result) fit in a `Vec`.
pub open spec fn can_resample(width: u32, height: u32, new_width: u32, new_height: u32) -> bool {
    &&& height > 0 || new_height == 0 || width == 0
    &&& width > 0 || new_width == 0 || new_height == 0
    &&& (new_width == width && new_height == height) || 16 * width * new_height <= isize::MAX
    &&& 4 * new_width * new_height <= isize::MAX
}

/// Whether an image of `width` x `height` can be resampled to `new_width` x
/// `new_height` (see `can_resample`).
pub fn can_resample_sizes(width: u32, height: u32, new_width: u32, new_height: u32) -> (r: bool)
    ensures
        r == can_resample(width, height, new_width, new_height),
{
    let limit: u128 = isize::MAX as u128;
    let w: u128 = width as u128;
    let nw: u128 = new_width as u128;
    let nh: u128 = new_height as u128;
    assert(16 * w * nh <= 16 * 0xffff_ffffu128 * 0xffff_ffffu128) by (nonlinear_arith)
        requires
            w <= 0xffff_ffff,
            nh <= 0xffff_ffff,
    ;
    assert(4 * nw * nh <= 4 * 0xffff_ffffu128 * 0xffff_ffffu128) by (nonlinear_arith)
        requires
            nw <= 0xffff_ffff,
            nh <= 0xffff_ffff,
    ;
    (height > 0 || new_height == 0 || width == 0) && (width > 0 || new_width == 0 || new_height
        == 0) && ((new_width == width && new_height == height) || 16 * w * nh <= limit) && 4 * nw
        * nh <= limit
}

/// `image::RgbaImage::from_raw`, `image::imageops::resize` with
/// `FilterType::CatmullRom`, and `ImageBuffer::into_raw`. The contract claims
/// that the result is a resampling of the arguments (the relation
/// `resampled`), that it holds `4 * new_width * new_height` bytes, and that
/// resampling to the same size copies the pixels. It does not claim that two
/// calls on equal arguments give equal bytes. `from_raw` succeeds because
/// `data` holds at least `4 * width * height` bytes; `can_resample` leaves out
/// the sizes on which `resize` would read pixels that do not exist or
/// allocate more than a `Vec` can hold.
#[verifier::external_body]
fn resize_rgba8(data: Vec<u8>, width: u32, height: u32, new_width: u32, new_height: u32) -> (r: Vec<
    u8,
>)
    requires
        data.len() >= 4 * width * height,
        can_resample(width, height, new_width, new_height),
    ensures
        resampled(data@, width, height, new_width, new_height, r@),
        r.len() == 4 * new_width * new_height,
        new_width == width && new_height == height ==> r@ == data@.subrange(
            0,
            4 * width * height,
        ),
{
    let source = image::RgbaImage::from_raw(width, height, data).unwrap();
    let filter = image::imageops::FilterType::CatmullRom;
    image::imageops::resize(&source, new_width, new_height, filter).into_raw()
}

/// Resamples an image to `new_width` x `new_height` pixels with the Catmull-Rom
/// filter; resampling to the same size keeps the pixels.
pub fn resize_image(image: Pixels, new_width: u32, new_height: u32) -> (r: Pixels)
    requires
        image.wf(),
        can_resample(image.width, image.height, new_width, new_height),
    ensures
        r.wf(),
        r.width == new_width,
        r.height == new_height,
        resampled(image.data@, image.width, image.height, new_width, new_height, r.data@),
        new_width == image.width && new_height == image.height ==> r.data@ == image.data@,
{
    let Pixels { width, height, data } = image;
    let ghost old_data = data@;
    let resized = resize_rgba8(data, width, height, new_width, new_height);
    proof {
        if new_width == width && new_height == height {
            assert(old_data.subrange(0, 4 * width * height) =~= old_data);
        }
    }
    Pixels { width: new_width, height: new_height, data: resized }
}

} // verus!
