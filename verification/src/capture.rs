use vstd::prelude::*;

use base64::Engine;

verus! {

broadcast use vstd::string::group_string_axioms;

/// A captured screen, as the monitor hands it over.
pub struct Capture {
    /// Full-resolution RGB (nx*ny*3 bytes), fed to the model.
    pub rgb: Vec<u8>,
    pub nx: u32,
    pub ny: u32,
    /// Small PNG thumbnail, base64-encoded, for the chat feed.
    pub thumb_base64: String,
}

/// An RGBA image: `width * height` pixels of four bytes each, row by row, at
/// the front of `rgba` (which may run longer).
pub struct Frame {
    pub width: u32,
    pub height: u32,
    pub rgba: Vec<u8>,
}

/// Width of the thumbnail shown in the chat feed, in pixels.
pub const THUMB_WIDTH: u32 = 360;

/// The side length, in samples, of the grid that blank-frame detection reads.
pub const GRID: u32 = 8;

/// The bytes an RGBA image of `width` by `height` needs.
pub open spec fn rgba_len(width: u32, height: u32) -> int {
    4 * width * height
}

impl Frame {
    /// The buffer holds every pixel.
    pub open spec fn wf(&self) -> bool {
        rgba_len(self.width, self.height) <= self.rgba.len()
    }

    /// A frame over `rgba` when the buffer holds all `width * height` pixels
    /// (as `ImageBuffer::from_raw` accepts it).
    pub fn from_raw(width: u32, height: u32, rgba: Vec<u8>) -> (r: Option<Frame>)
        ensures
            r is Some <==> rgba_len(width, height) <= rgba@.len(),
            r matches Some(f) ==> f.width == width && f.height == height && f.rgba@ == rgba@
                && f.wf(),
    {
        assert(4 * (width as u128) * (height as u128) <= 4 * 0xffff_ffffu128 * 0xffff_ffffu128)
            by (nonlinear_arith);
        let need: u128 = 4 * (width as u128) * (height as u128);
        if need <= rgba.len() as u128 {
            Some(Frame { width, height, rgba })
        } else {
            None
        }
    }
}

// ---------------------------------------------------------------------------
// Blank-frame detection
// ---------------------------------------------------------------------------

/// The coordinate of grid line `g` (of `GRID`) across an extent of `n > 0`.
pub open spec fn grid_coord(g: int, n: int) -> int {
    let v = g * n / ((GRID - 1) as int);
    if v < n - 1 {
        v
    } else {
        n - 1
    }
}

/// Where the pixel at `(x, y)` starts in the buffer.
pub open spec fn pixel_offset(width: u32, x: int, y: int) -> int {
    (y * width + x) * 4
}

/// The pixel at `(x, y)` of an image `width` wide is near-black: red, green
/// and blue all below 8.
pub open spec fn is_dark_at(rgba: Seq<u8>, width: u32, x: int, y: int) -> bool {
    let o = pixel_offset(width, x, y);
    rgba[o] < 8 && rgba[o + 1] < 8 && rgba[o + 2] < 8
}

/// The grid sample `(gx, gy)` of the image is near-black.
pub open spec fn sample_dark(rgba: Seq<u8>, width: u32, height: u32, gx: int, gy: int) -> bool {
    is_dark_at(rgba, width, grid_coord(gx, width as int), grid_coord(gy, height as int))
}

/// An image is blank when it has no pixels, or when every pixel of an 8×8
/// grid spread over it (corners included) is near-black — the macOS signature
/// of a missing Screen Recording permission.
pub open spec fn frame_is_blank(rgba: Seq<u8>, width: u32, height: u32) -> bool {
    width == 0 || height == 0 || forall|gx: int, gy: int|
        0 <= gx < GRID && 0 <= gy < GRID ==> #[trigger] sample_dark(rgba, width, height, gx, gy)
}

/// The grid coordinate stays inside the extent.
proof fn lemma_grid_coord(g: int, n: int)
    requires
        0 <= g < GRID,
        0 < n,
    ensures
        0 <= grid_coord(g, n) < n,
        g * n / ((GRID - 1) as int) <= n,
{
    assert(0 <= g * n <= 7 * n) by (nonlinear_arith)
        requires
            0 <= g <= 7,
            0 < n,
    ;
    assert(g * n / 7 <= n) by (nonlinear_arith)
        requires
            0 <= g * n <= 7 * n,
    ;
}

/// The pixel offset of an in-range pixel leaves room for its four bytes.
proof fn lemma_pixel_in_buffer(width: u32, height: u32, x: int, y: int)
    requires
        0 <= x < width,
        0 <= y < height,
    ensures
        0 <= pixel_offset(width, x, y),
        pixel_offset(width, x, y) + 4 <= rgba_len(width, height),
{
    assert(0 <= (y * width + x) * 4 && (y * width + x) * 4 + 4 <= 4 * width * height)
        by (nonlinear_arith)
        requires
            0 <= x < width,
            0 <= y < height,
    ;
}

/// The grid coordinate of `g` across `n`, computed as the capture does.
fn grid_coord_exec(g: u32, n: u32) -> (r: u32)
    requires
        g < GRID,
        n > 0,
    ensures
        r == grid_coord(g as int, n as int),
{
    proof {
        lemma_grid_coord(g as int, n as int);
    }
    let v64: u64 = (g as u64) * (n as u64) / ((GRID - 1) as u64);
    let v = v64 as u32;
    if v < n - 1 {
        v
    } else {
        n - 1
    }
}

/// Heuristic: sample an 8×8 grid; if essentially every sampled pixel is
/// near-black, treat the frame as blank (the macOS no-permission signature).
/// A genuinely all-black screen is reported blank too.
pub fn is_blank_frame(frame: &Frame) -> (r: bool)
    requires
        frame.wf(),
    ensures
        r == frame_is_blank(frame.rgba@, frame.width, frame.height),
{
    let w = frame.width;
    let h = frame.height;
    if w == 0 || h == 0 {
        return true;
    }
    let mut sampled: u32 = 0;
    let mut dark: u32 = 0;
    let mut gy: u32 = 0;
    while gy < GRID
        invariant
            w == frame.width,
            h == frame.height,
            w > 0 && h > 0,
            frame.wf(),
            gy <= GRID,
            sampled == gy * GRID,
            dark <= sampled,
            (dark == sampled) <==> forall|i: int, j: int|
                0 <= i < GRID && 0 <= j < gy ==> #[trigger] sample_dark(frame.rgba@, w, h, i, j),
        decreases GRID - gy,
    {
        let mut gx: u32 = 0;
        while gx < GRID
            invariant
                w == frame.width,
                h == frame.height,
                w > 0 && h > 0,
                frame.wf(),
                gy < GRID,
                gx <= GRID,
                sampled == gy * GRID + gx,
                dark <= sampled,
                (dark == sampled) <==> (forall|i: int, j: int|
                    0 <= i < GRID && 0 <= j < gy ==> #[trigger] sample_dark(frame.rgba@, w, h, i, j)) && (
                forall|i: int| 0 <= i < gx ==> #[trigger] sample_dark(frame.rgba@, w, h, i, gy as int)),
            decreases GRID - gx,
        {
            let x = grid_coord_exec(gx, w);
            let y = grid_coord_exec(gy, h);
            proof {
                lemma_grid_coord(gx as int, w as int);
                lemma_grid_coord(gy as int, h as int);
                lemma_pixel_in_buffer(w, h, x as int, y as int);
            }
            let o: usize = ((y as u64 * w as u64 + x as u64) * 4) as usize;
            assert(o == pixel_offset(w, x as int, y as int));
            let is_dark = frame.rgba[o] < 8 && frame.rgba[o + 1] < 8 && frame.rgba[o + 2] < 8;
            assert(is_dark == sample_dark(frame.rgba@, w, h, gx as int, gy as int));
            sampled += 1;
            if is_dark {
                dark += 1;
            }
            gx += 1;
        }
        gy += 1;
    }
    sampled > 0 && dark * 100 >= sampled * 99
}

// ---------------------------------------------------------------------------
// Pixel layout and thumbnail size
// ---------------------------------------------------------------------------

/// The RGB bytes of an RGBA buffer: the first three bytes of every group of
/// four, a short last group included.
pub open spec fn rgb_of(rgba: Seq<u8>) -> Seq<u8> {
    Seq::new(
        (3 * ((rgba.len() + 3) / 4)) as nat,
        |i: int| rgba[4 * (i / 3) + i % 3],
    )
}

/// A buffer whose length leaves no group of one or two bytes at the end.
pub open spec fn rgba_groups_whole(len: int) -> bool {
    len % 4 == 0 || len % 4 == 3
}

/// Drop the alpha byte of every pixel.
pub fn rgba_to_rgb(rgba: &Vec<u8>) -> (r: Vec<u8>)
    requires
        rgba_groups_whole(rgba.len() as int),
    ensures
        r@ == rgb_of(rgba@),
{
    let n = rgba.len();
    let groups: usize = n / 4 + if n % 4 == 3 {
        1
    } else {
        0
    };
    let mut out: Vec<u8> = Vec::new();
    let mut g: usize = 0;
    while g < groups
        invariant
            n == rgba.len(),
            rgba_groups_whole(n as int),
            groups == (n + 3) / 4,
            g <= groups,
            out@.len() == 3 * g,
            forall|k: int| 0 <= k < out@.len() ==> out@[k] == rgba@[4 * (k / 3) + k % 3],
        decreases groups - g,
    {
        let i = 4 * g;
        let ghost before = out@;
        out.push(rgba[i]);
        out.push(rgba[i + 1]);
        out.push(rgba[i + 2]);
        proof {
            assert forall|k: int| 0 <= k < out@.len() implies out@[k] == rgba@[4 * (k / 3) + k
                % 3] by {
                if k >= before.len() {
                    assert(k / 3 == g);
                }
            }
        }
        g += 1;
    }
    assert(out@ =~= rgb_of(rgba@));
    out
}

/// The thumbnail's height: the capture's aspect ratio scaled to the
/// thumbnail's width, truncated to 32 bits, and at least one pixel.
pub open spec fn thumb_height(nx: u32, ny: u32) -> int {
    let d = if nx < 1 {
        1
    } else {
        nx as int
    };
    let v = (ny * THUMB_WIDTH / d) % 0x1_0000_0000;
    if v < 1 {
        1
    } else {
        v
    }
}

/// The thumbnail's height for a capture of `nx` by `ny`.
pub fn thumbnail_height(nx: u32, ny: u32) -> (r: u32)
    ensures
        r == thumb_height(nx, ny),
        r >= 1,
{
    let d: u64 = if nx < 1 {
        1
    } else {
        nx as u64
    };
    let scaled: u64 = ny as u64 * THUMB_WIDTH as u64;
    let v = ((scaled / d) % 0x1_0000_0000) as u32;
    if v < 1 {
        1
    } else {
        v
    }
}

// ---------------------------------------------------------------------------
// Image work done by the `image` and `base64` crates
// ---------------------------------------------------------------------------

/// The error type of the `image` crate.
#[verifier::external_type_specification]
#[verifier::external_body]
pub struct ExImageError(image::ImageError);

/// The RGBA bytes that `image::imageops::resize` with `FilterType::Triangle`
/// produces from an image of `width` by `height` scaled to `nw` by `nh`.
pub uninterp spec fn triangle_resized(
    rgba: Seq<u8>,
    width: u32,
    height: u32,
    nw: u32,
    nh: u32,
) -> Seq<u8>;

/// The bytes that `DynamicImage::write_to` produces for an RGBA image in
/// `ImageFormat::Png`, or `None` when the encoder reports an error.
pub uninterp spec fn png_encoded(rgba: Seq<u8>, width: u32, height: u32) -> Option<Seq<u8>>;

/// The standard (padded) base64 encoding of `bytes`, as
/// `base64::engine::general_purpose::STANDARD` writes it.
pub uninterp spec fn base64_standard(bytes: Seq<u8>) -> Seq<char>;

/// `image::imageops::resize` with the triangle filter. The result is a fresh
/// `nw` by `nh` RGBA image (`ImageBuffer::new` sizes it), whose bytes are named
/// by `triangle_resized`. The intermediate and final buffers must fit in
/// memory: a vector never holds more than `isize::MAX` bytes, and
/// `ImageBuffer::new` panics past that.
#[verifier::external_body]
fn resize_triangle(frame: &Frame, nw: u32, nh: u32) -> (r: Frame)
    requires
        frame.wf(),
        frame.width > 0,
        frame.height > 0,
        16 * frame.width * nh <= isize::MAX,
        4 * nw * nh <= isize::MAX,
    ensures
        r.width == nw,
        r.height == nh,
        r.rgba@.len() == rgba_len(nw, nh),
        r.rgba@ == triangle_resized(frame.rgba@, frame.width, frame.height, nw, nh),
{
    let img = image::RgbaImage::from_raw(frame.width, frame.height, frame.rgba.clone()).unwrap();
    let small = image::imageops::resize(&img, nw, nh, image::imageops::FilterType::Triangle);
    Frame { width: nw, height: nh, rgba: small.into_raw() }
}

/// `DynamicImage::write_to` in PNG format, into an in-memory buffer. The PNG
/// encoder takes the whole buffer and panics unless it holds exactly the
/// image's bytes, so the buffer must not run longer. What it returns is named
/// by `png_encoded`; which images the encoder refuses is not stated.
#[verifier::external_body]
fn encode_png(frame: &Frame) -> (r: Result<Vec<u8>, image::ImageError>)
    requires
        frame.rgba@.len() == rgba_len(frame.width, frame.height),
    ensures
        r is Ok <==> png_encoded(frame.rgba@, frame.width, frame.height) is Some,
        r matches Ok(b) ==> png_encoded(frame.rgba@, frame.width, frame.height) == Some(b@),
{
    let img = image::RgbaImage::from_raw(frame.width, frame.height, frame.rgba.clone()).unwrap();
    let mut png: Vec<u8> = Vec::new();
    let written = image::DynamicImage::ImageRgba8(img).write_to(
        &mut std::io::Cursor::new(&mut png),
        image::ImageFormat::Png,
    );
    match written {
        Ok(()) => Ok(png),
        Err(e) => Err(e),
    }
}

/// The message of an `image` error, as its `Display` writes it. Nothing is
/// stated of the text.
#[verifier::external_body]
fn image_error_text(e: &image::ImageError) -> String {
    format!("{e}")
}

/// `Engine::encode` of `base64::engine::general_purpose::STANDARD`. It
/// allocates four bytes for every three of input (rounded up) and panics when
/// that overflows; the bound on the input keeps the output within
/// `isize::MAX` bytes.
#[verifier::external_body]
fn base64_encode(bytes: &Vec<u8>) -> (r: String)
    requires
        bytes@.len() <= max_encodable_len(),
    ensures
        r@ == base64_standard(bytes@),
{
    base64::engine::general_purpose::STANDARD.encode(bytes)
}

// ---------------------------------------------------------------------------
// From captured pixels to a feed entry
// ---------------------------------------------------------------------------

/// What the capture reports when the buffer cannot hold the claimed image.
pub open spec fn bad_buffer_message() -> Seq<char> {
    "capture produced an image whose buffer did not match its dimensions"@
}

/// What the capture reports when the frame is blank.
pub open spec fn permission_message() -> Seq<char> {
    "Screen Recording permission not granted. Open System Settings → Privacy & Security → Screen Recording, enable Project Commentator, then restart the app."@
}

/// The longest input whose base64 encoding fits in a vector.
pub open spec fn max_encodable_len() -> int {
    3 * (isize::MAX / 4)
}

/// What the capture reports when the thumbnail is too large to encode.
pub open spec fn oversized_thumbnail_message() -> Seq<char> {
    "encode thumbnail: thumbnail too large to encode"@
}

/// The PNG thumbnail of a capture, when the encoder accepts it.
pub open spec fn thumbnail_png(rgba: Seq<u8>, nx: u32, ny: u32) -> Option<Seq<u8>> {
    let th = thumb_height(nx, ny) as u32;
    png_encoded(triangle_resized(rgba, nx, ny, THUMB_WIDTH, th), THUMB_WIDTH, th)
}

/// The capture of an `nx` by `ny` screen, from its RGB bytes and its PNG
/// thumbnail, which goes to the feed base64-encoded.
pub fn finish_capture(rgb: Vec<u8>, nx: u32, ny: u32, png: &Vec<u8>) -> (r: Capture)
    requires
        png@.len() <= max_encodable_len(),
    ensures
        r.rgb@ == rgb@,
        r.nx == nx,
        r.ny == ny,
        r.thumb_base64@ == base64_standard(png@),
{
    let thumb_base64 = base64_encode(png);
    Capture { rgb, nx, ny, thumb_base64 }
}

/// Turn the raw RGBA bytes of a captured `nx` by `ny` monitor image into a
/// capture: the buffer must hold the image and the frame must not be blank;
/// the full-resolution RGB goes to the model and a 360-pixel-wide PNG
/// thumbnail, base64-encoded, to the feed.
pub fn process_capture(nx: u32, ny: u32, raw: Vec<u8>) -> (r: Result<Capture, String>)
    requires
        rgba_len(nx, ny) <= raw@.len() && !frame_is_blank(raw@, nx, ny) ==> rgba_groups_whole(
            raw@.len() as int,
        ),
        16 * nx * thumb_height(nx, ny) <= isize::MAX,
        4 * THUMB_WIDTH * thumb_height(nx, ny) <= isize::MAX,
    ensures
        !(rgba_len(nx, ny) <= raw@.len()) ==> (r matches Err(e) && e@ == bad_buffer_message()),
        rgba_len(nx, ny) <= raw@.len() && frame_is_blank(raw@, nx, ny)
            ==> (r matches Err(e) && e@ == permission_message()),
        rgba_len(nx, ny) <= raw@.len() && !frame_is_blank(raw@, nx, ny)
            ==> {
            &&& r is Ok <==> (thumbnail_png(raw@, nx, ny) matches Some(p) && p.len()
                <= max_encodable_len())
            &&& (thumbnail_png(raw@, nx, ny) matches Some(p) && p.len() > max_encodable_len())
                ==> (r matches Err(e) && e@ == oversized_thumbnail_message())
            &&& r matches Ok(c) ==> {
                &&& c.rgb@ == rgb_of(raw@)
                &&& c.nx == nx
                &&& c.ny == ny
                &&& c.thumb_base64@ == base64_standard(thumbnail_png(raw@, nx, ny)->0)
            }
            &&& r matches Err(e) ==> "encode thumbnail: "@.is_prefix_of(e@)
        },
{
    let ghost raw_view = raw@;
    let frame = match Frame::from_raw(nx, ny, raw) {
        Some(f) => f,
        None => {
            return Err(
                String::from_str(
                    "capture produced an image whose buffer did not match its dimensions",
                ),
            );
        },
    };
    if is_blank_frame(&frame) {
        return Err(
            String::from_str(
                "Screen Recording permission not granted. Open System Settings → Privacy & Security → Screen Recording, enable Project Commentator, then restart the app.",
            ),
        );
    }
    let rgb = rgba_to_rgb(&frame.rgba);
    let th = thumbnail_height(nx, ny);
    let small = resize_triangle(&frame, THUMB_WIDTH, th);
    let png = match encode_png(&small) {
        Ok(p) => p,
        Err(e) => {
            let mut msg = String::from_str("encode thumbnail: ");
            let detail = image_error_text(&e);
            msg.append(detail.as_str());
            proof {
                reveal_strlit("encode thumbnail: ");
                assert(msg@.subrange(0, "encode thumbnail: "@.len() as int) =~= "encode thumbnail: "@);
            }
            return Err(msg);
        },
    };
    if png.len() > 3 * (isize::MAX as usize / 4) {
        let msg = String::from_str("encode thumbnail: thumbnail too large to encode");
        proof {
            reveal_strlit("encode thumbnail: ");
            reveal_strlit("encode thumbnail: thumbnail too large to encode");
            assert(msg@.subrange(0, "encode thumbnail: "@.len() as int) =~= "encode thumbnail: "@);
        }
        return Err(msg);
    }
    Ok(finish_capture(rgb, nx, ny, &png))
}

// ---------------------------------------------------------------------------
// Laws
// ---------------------------------------------------------------------------

/// The grid spreads over the whole frame: sample `(gx, gy)` reads the pixel at
/// `x = min(gx * width / 7, width - 1)`, `y = min(gy * height / 7, height - 1)`,
/// so a frame whose pixel there is not near-black is not blank.
pub proof fn law_bright_grid_pixel_means_not_blank(
    rgba: Seq<u8>,
    width: u32,
    height: u32,
    gx: int,
    gy: int,
)
    requires
        width > 0,
        height > 0,
        0 <= gx < 8,
        0 <= gy < 8,
        ({
            let x = if gx * width / 7 < width - 1 {
                gx * width / 7
            } else {
                width - 1
            };
            let y = if gy * height / 7 < height - 1 {
                gy * height / 7
            } else {
                height - 1
            };
            let o = (y * width + x) * 4;
            !(rgba[o] < 8 && rgba[o + 1] < 8 && rgba[o + 2] < 8)
        }),
    ensures
        !frame_is_blank(rgba, width, height),
{
    assert(!sample_dark(rgba, width, height, gx, gy));
}

/// A frame whose top-right pixel is not near-black is not blank.
pub proof fn law_bright_top_right_means_not_blank(rgba: Seq<u8>, width: u32, height: u32)
    requires
        width > 0,
        height > 0,
        ({
            let o = (width - 1) * 4;
            !(rgba[o] < 8 && rgba[o + 1] < 8 && rgba[o + 2] < 8)
        }),
    ensures
        !frame_is_blank(rgba, width, height),
{
    assert(7 * (width as int) / 7 == width as int) by (nonlinear_arith);
    assert(0 * (height as int) / 7 == 0) by (nonlinear_arith);
    assert((0 * (width as int) + (width - 1)) * 4 == (width - 1) * 4) by (nonlinear_arith);
    law_bright_grid_pixel_means_not_blank(rgba, width, height, 7, 0);
}

/// A frame whose bottom-left pixel is not near-black is not blank.
pub proof fn law_bright_bottom_left_means_not_blank(rgba: Seq<u8>, width: u32, height: u32)
    requires
        width > 0,
        height > 0,
        ({
            let o = ((height - 1) * width) * 4;
            !(rgba[o] < 8 && rgba[o + 1] < 8 && rgba[o + 2] < 8)
        }),
    ensures
        !frame_is_blank(rgba, width, height),
{
    assert(7 * (height as int) / 7 == height as int) by (nonlinear_arith);
    assert(0 * (width as int) / 7 == 0) by (nonlinear_arith);
    law_bright_grid_pixel_means_not_blank(rgba, width, height, 0, 7);
}

} // verus!
