//! Logo files of the store package.
use crate::platform::icons;
use vstd::prelude::*;

verus! {

/// A logo file: its name and size in pixels.
#[derive(Debug, Clone, Copy)]
pub struct LogoFile {
    pub name: &'static str,
    pub width: u32,
    pub height: u32,
}

/// Whether a logo is this one.
pub open spec fn is_logo(f: LogoFile, name: Seq<char>, width: u32, height: u32) -> bool {
    f.name@ == name && f.width == width && f.height == height
}

/// The logos that a package needs: four squares, and a wide one.
pub fn logo_files() -> (r: Vec<LogoFile>)
    ensures
        r@.len() == 5,
        is_logo(r@[0], "StoreLogo.png"@, 50, 50),
        is_logo(r@[1], "Square44x44Logo.png"@, 44, 44),
        is_logo(r@[2], "Square150x150Logo.png"@, 150, 150),
        is_logo(r@[3], "Square310x310Logo.png"@, 310, 310),
        is_logo(r@[4], "Wide310x150Logo.png"@, 310, 150),
{
    let mut out: Vec<LogoFile> = Vec::new();
    out.push(LogoFile { name: "StoreLogo.png", width: 50, height: 50 });
    out.push(LogoFile { name: "Square44x44Logo.png", width: 44, height: 44 });
    out.push(LogoFile { name: "Square150x150Logo.png", width: 150, height: 150 });
    out.push(LogoFile { name: "Square310x310Logo.png", width: 310, height: 310 });
    out.push(LogoFile { name: "Wide310x150Logo.png", width: 310, height: 150 });
    out
}

/// Contents of a PNG file of these pixels, four bytes each: what `png::Encoder` writes, or
/// nothing where it refuses.
pub uninterp spec fn png_bytes(width: u32, height: u32, rgba: Seq<u8>) -> Option<Seq<u8>>;

/// Whether pixels fill a picture.
pub open spec fn fills(width: u32, height: u32, rgba: Seq<u8>) -> bool {
    width > 0 && height > 0 && rgba.len() == 4 * width * height
}

/// Calls `png::Encoder` (`write_header`, `write_image_data`, `finish`) for eight-bit RGBA,
/// writing to memory. The contract claims that the bytes depend on the size and the pixels
/// alone, and that the encoder refuses exactly an empty picture and pixels that do not fill it.
/// The bound keeps the encoder's own count of bytes from overflowing.
/// How the bytes encode the pixels is not stated.
#[verifier::external_body]
fn png_of(width: u32, height: u32, rgba: &[u8]) -> (r: Option<Vec<u8>>)
    requires
        4 * width * height <= u32::MAX,
    ensures
        (match r {
            Some(v) => Some(v@),
            None => None,
        }) == png_bytes(width, height, rgba@),
        r is Some <==> fills(width, height, rgba@),
{
    let mut out: Vec<u8> = Vec::new();
    let mut encoder = png::Encoder::new(&mut out, width, height);
    encoder.set_color(png::ColorType::Rgba);
    encoder.set_depth(png::BitDepth::Eight);
    let mut writer = encoder.write_header().ok()?;
    writer.write_image_data(rgba).ok()?;
    writer.finish().ok()?;
    Some(out)
}

/// File of a square logo, from the icon at its size. Nothing where the pixels do not fill it.
pub fn square_logo(rgba: &[u8], size: u32) -> (r: Option<Vec<u8>>)
    requires
        4 * size * size <= u32::MAX,
    ensures
        (match r {
            Some(v) => Some(v@),
            None => None,
        }) == png_bytes(size, size, rgba@),
        r is Some <==> fills(size, size, rgba@),
{
    png_of(size, size, rgba)
}

/// Pixels of a wide logo: the square icon in the middle of an empty canvas of its height.
pub open spec fn wide_pixels(rgba: Seq<u8>, icon: u32, width: u32) -> Seq<u8> {
    Seq::new(
        (4 * icon * width) as nat,
        |i: int| icons::wide_byte(rgba, icon as int, width as int, i),
    )
}

/// File of a wide logo, from the icon at its height. Nothing where the pixels do not fill the
/// icon, or the icon does not fit.
pub fn wide_logo(rgba: &[u8], icon: u32, width: u32) -> (r: Option<Vec<u8>>)
    requires
        4 * icon * width <= u32::MAX,
    ensures
        (match r {
            Some(v) => Some(v@),
            None => None,
        }) == (if icon <= width && fills(icon, icon, rgba@) {
            png_bytes(width, icon, wide_pixels(rgba@, icon, width))
        } else {
            None
        }),
        r is Some <==> icon <= width && fills(icon, icon, rgba@),
{
    if icon == 0 || icon > width {
        return None;
    }
    assert(4 * icon <= 4 * icon * icon <= 4 * icon * width) by (nonlinear_arith)
        requires
            0 < icon <= width,
    ;
    let edge: usize = icon as usize;
    if rgba.len() != 4 * edge * edge {
        return None;
    }
    let canvas = icons::wide_canvas(rgba, icon, width);
    assert(canvas@ =~= wide_pixels(rgba@, icon, width));
    assert(4 * icon * width == 4 * width * icon) by (nonlinear_arith);
    png_of(width, icon, canvas.as_slice())
}

} // verus!
