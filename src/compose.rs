//! Compositing a rendered matrix with other pictures: a logo in its middle,
//! a background it is fitted onto, and a generated artwork.
use vstd::prelude::*;
use crate::matrix::{ImageConfig, LogoConfig, QrError, QrMatrix};
use crate::raster::{
    center_offset, center_offset_of, is_blended_composite, is_composite, overlay, overlay_blended,
    raster_side, raster_view, render_to_image, RasterImage, RasterView, RgbaImage, RgbaView,
};

verus! {

/// What the image decoder makes of a byte string: the picture as RGB pixels,
/// or the text of its failure.
pub uninterp spec fn decoded_image(bytes: Seq<u8>) -> Result<RasterView, Seq<char>>;

/// What the image decoder makes of a byte string when the opacity of each
/// pixel is kept, or the text of its failure.
pub uninterp spec fn decoded_logo(bytes: Seq<u8>) -> Result<RgbaView, Seq<char>>;

/// What the Lanczos resampler makes of a picture asked to fit an `edge` by
/// `edge` square.
pub uninterp spec fn fitted_image(image: RgbaView, edge: nat) -> RgbaView;

/// What the standard base64 decoder makes of a text, or the text of its
/// failure.
pub uninterp spec fn base64_decoded(text: Seq<char>) -> Result<Seq<u8>, Seq<char>>;

/// Relies on `image::load_from_memory`, which guesses the format from the
/// bytes, and on `DynamicImage::to_rgb8`, whose buffer holds `width * height`
/// pixels row by row.
#[verifier::external_body]
fn decode_image(bytes: &[u8]) -> (r: Result<RasterImage, String>)
    ensures
        match r {
            Ok(img) => decoded_image(bytes@) == Ok::<RasterView, Seq<char>>(img@) && img@.wf(),
            Err(e) => decoded_image(bytes@) == Err::<RasterView, Seq<char>>(e@),
        },
{
    match image::load_from_memory(bytes) {
        Ok(img) => {
            let rgb = img.to_rgb8();
            let (width, height) = rgb.dimensions();
            Ok(RasterImage { width, height, pixels: rgb.pixels().map(|p| p.0).collect() })
        },
        Err(e) => Err(e.to_string()),
    }
}

/// Relies on `image::load_from_memory`, which guesses the format from the
/// bytes, and on `DynamicImage::to_rgba8`, whose buffer holds
/// `width * height` pixels row by row.
#[verifier::external_body]
fn decode_logo(bytes: &[u8]) -> (r: Result<RgbaImage, String>)
    ensures
        match r {
            Ok(img) => decoded_logo(bytes@) == Ok::<RgbaView, Seq<char>>(img@) && img@.wf(),
            Err(e) => decoded_logo(bytes@) == Err::<RgbaView, Seq<char>>(e@),
        },
{
    match image::load_from_memory(bytes) {
        Ok(img) => {
            let rgba = img.to_rgba8();
            let (width, height) = rgba.dimensions();
            Ok(RgbaImage { width, height, pixels: rgba.pixels().map(|p| p.0).collect() })
        },
        Err(e) => Err(e.to_string()),
    }
}

/// Relies on `DynamicImage::resize` with the Lanczos3 filter, which keeps the
/// aspect ratio: the result fits an `edge` by `edge` square, each side at
/// least one pixel (one pixel where `edge` is 0), and the side that limits
/// the ratio comes out at `edge` exactly.
#[verifier::external_body]
fn resize_to_fit(img: &RgbaImage, edge: u32) -> (r: RgbaImage)
    requires
        img@.wf(),
        img.width >= 1,
        img.height >= 1,
    ensures
        r@ == fitted_image(img@, edge as nat),
        r@.wf(),
        1 <= r.width <= if edge == 0 { 1 } else { edge },
        1 <= r.height <= if edge == 0 { 1 } else { edge },
        edge >= 1 ==> r.width == edge || r.height == edge,
{
    let raw: Vec<u8> = img.pixels.iter().flat_map(|p| *p).collect();
    let buf = image::RgbaImage::from_raw(img.width, img.height, raw).unwrap();
    let out = image::DynamicImage::ImageRgba8(buf)
        .resize(edge, edge, image::imageops::FilterType::Lanczos3)
        .to_rgba8();
    let (width, height) = out.dimensions();
    RgbaImage { width, height, pixels: out.pixels().map(|p| p.0).collect() }
}

/// Relies on base64's `STANDARD` engine `decode`.
#[verifier::external_body]
fn decode_base64(text: &str) -> (r: Result<Vec<u8>, String>)
    ensures
        match r {
            Ok(b) => base64_decoded(text@) == Ok::<Seq<u8>, Seq<char>>(b@),
            Err(e) => base64_decoded(text@) == Err::<Seq<u8>, Seq<char>>(e@),
        },
{
    base64::Engine::decode(&base64::engine::general_purpose::STANDARD, text).map_err(
        |e| e.to_string(),
    )
}

/// Smallest and largest logo size, in percent of the raster's width.
pub const MIN_LOGO_PERCENT: u8 = 5;
pub const MAX_LOGO_PERCENT: u8 = 30;

/// Pixels kept free on each side of a matrix fitted onto a background.
pub const BACKGROUND_MARGIN: u32 = 20;

/// Pixels taken off the shorter side of a generated artwork before the
/// matrix's scale is worked out.
pub const ART_MARGIN: u32 = 40;

/// Fewest pixels per module for a matrix fitted onto a background.
pub const MIN_BACKGROUND_SCALE: u32 = 2;

/// Whether a logo size is within the allowed percentages.
pub open spec fn logo_size_ok(percent: u8) -> bool {
    MIN_LOGO_PERCENT <= percent <= MAX_LOGO_PERCENT
}

/// The edge of the square a logo is fitted into: `percent` of the width,
/// rounded down.
pub open spec fn logo_edge(width: int, percent: int) -> int {
    width * percent / 100
}

/// The size of a logo fitted into a square of side `edge`: within the square
/// (at least one pixel a side), and as wide or as high as the square.
pub open spec fn fits_square(fitted: RgbaView, edge: int) -> bool {
    &&& 1 <= fitted.width <= if edge == 0 { 1 } else { edge }
    &&& 1 <= fitted.height <= if edge == 0 { 1 } else { edge }
    &&& edge >= 1 ==> fitted.width == edge || fitted.height == edge
}

/// `result` is `image` with `logo` fitted into the square of `percent` of the
/// width and laid over its centre, blended by its opacity. An empty logo
/// leaves the image as it is.
pub open spec fn logo_composite(result: RasterView, image: RasterView, logo: RgbaView, percent: u8) -> bool {
    if logo.width == 0 || logo.height == 0 {
        result == image
    } else {
        let fitted = fitted_image(logo, logo_edge(image.width as int, percent as int) as nat);
        fits_square(fitted, logo_edge(image.width as int, percent as int)) && is_blended_composite(
            result,
            image,
            fitted,
            center_offset(image.width as int, fitted.width as int),
            center_offset(image.height as int, fitted.height as int),
        )
    }
}

/// The text `path: cause`.
pub open spec fn path_message(path: Seq<char>, cause: Seq<char>) -> Seq<char> {
    path + seq![':', ' '] + cause
}

fn join_message(head: &str, cause: &str) -> (r: String)
    ensures
        r@ == path_message(head@, cause@),
{
    proof {
        reveal_strlit(": ");
    }
    let mut s = head.to_string();
    s.append(": ");
    s.append(cause);
    assert(": "@ =~= seq![':', ' ']);
    s
}

/// Checks a logo size before any file is read: outside 5 to 30 percent it
/// fails with `LogoTooLarge`.
pub fn check_logo_size(logo_config: &LogoConfig) -> (r: Result<(), QrError>)
    ensures
        logo_size_ok(logo_config.size_percent) <==> r is Ok,
        r is Err ==> r->Err_0 is LogoTooLarge,
{
    if logo_config.size_percent < MIN_LOGO_PERCENT || logo_config.size_percent > MAX_LOGO_PERCENT {
        Err(QrError::LogoTooLarge)
    } else {
        Ok(())
    }
}

/// Lays the logo held in `logo_bytes` over the centre of `qr_image`, fitted
/// into a square of `size_percent` of its width and blended by its opacity,
/// so that clear parts of the logo leave the code visible. The size is checked
/// first (`LogoTooLarge`); bytes that do not decode fail with
/// `InvalidLogoPath` naming the path and the cause. On failure the image is
/// left as it was.
pub fn overlay_logo(qr_image: &mut RasterImage, logo_config: &LogoConfig, logo_bytes: &[u8]) -> (r:
    Result<(), QrError>)
    requires
        old(qr_image)@.wf(),
    ensures
        !logo_size_ok(logo_config.size_percent) ==> r is Err && r->Err_0 is LogoTooLarge,
        logo_size_ok(logo_config.size_percent) ==> match decoded_logo(logo_bytes@) {
            Ok(logo) => r is Ok && logo_composite(
                final(qr_image)@,
                old(qr_image)@,
                logo,
                logo_config.size_percent,
            ),
            Err(cause) => r is Err && r->Err_0 is InvalidLogoPath && r->Err_0->InvalidLogoPath_0@
                == path_message(logo_config.path@, cause),
        },
        r is Err ==> final(qr_image)@ == old(qr_image)@,
{
    if let Err(e) = check_logo_size(logo_config) {
        return Err(e);
    }
    let logo = match decode_logo(logo_bytes) {
        Ok(img) => img,
        Err(cause) => {
            return Err(
                QrError::InvalidLogoPath(join_message(logo_config.path.as_str(), cause.as_str())),
            );
        },
    };
    if logo.width == 0 || logo.height == 0 {
        return Ok(());
    }
    proof {
        let w = qr_image.width as int;
        let p = logo_config.size_percent as int;
        assert(0 <= w * p <= w * 30 && w * p / 100 <= w) by (nonlinear_arith)
            requires
                0 <= w <= u32::MAX,
                0 <= p <= 30,
        ;
    }
    let edge = (qr_image.width as u64 * logo_config.size_percent as u64 / 100) as u32;
    let fitted = resize_to_fit(&logo, edge);
    let x = center_offset_of(qr_image.width, fitted.width);
    let y = center_offset_of(qr_image.height, fitted.height);
    overlay_blended(qr_image, &fitted, x, y);
    Ok(())
}

/// The shorter of two sides.
pub open spec fn shorter(a: int, b: int) -> int {
    if a <= b {
        a
    } else {
        b
    }
}

/// Pixels per module for a matrix of `modules` modules on a picture whose
/// shorter side is `short`, once `reserved` pixels are taken off that side
/// (none are left where it is shorter than that).
pub open spec fn fit_scale(short: int, reserved: int, modules: int) -> int {
    let avail = if short >= reserved {
        short - reserved
    } else {
        0
    };
    avail / modules
}

/// A square raster of side `side` can be addressed: its side fits a `u32`
/// and its pixel count a `usize`.
pub open spec fn raster_fits(side: int) -> bool {
    side <= u32::MAX && side * side <= usize::MAX
}

/// `result` is `background` with the raster of `qr` at `scale` drawn over its
/// centre. At scale 0 that raster is empty.
pub open spec fn centered_composite(
    result: RasterView,
    background: RasterView,
    qr: QrMatrix,
    scale: int,
    dark: [u8; 3],
    light: [u8; 3],
) -> bool {
    let top = raster_view(qr, scale, dark, light);
    is_composite(
        result,
        background,
        top,
        center_offset(background.width as int, top.width as int),
        center_offset(background.height as int, top.height as int),
    )
}

/// Whether the raster of a matrix of `modules` modules at `scale` pixels
/// per module can be addressed.
pub fn raster_addressable(modules: usize, scale: u32) -> (r: bool)
    ensures
        r == raster_fits(raster_side(modules as int, scale as int)),
{
    if scale == 0 {
        assert(raster_side(modules as int, 0) == 0) by (nonlinear_arith);
        return true;
    }
    if modules > u32::MAX as usize {
        proof {
            assert(raster_side(modules as int, scale as int) >= modules) by (nonlinear_arith)
                requires
                    scale >= 1,
            ;
        }
        return false;
    }
    proof {
        let w = modules as int;
        let sc = scale as int;
        assert((w + 2) * sc <= u64::MAX) by (nonlinear_arith)
            requires
                0 <= w <= u32::MAX,
                0 <= sc <= u32::MAX,
        ;
    }
    let side: u64 = (modules as u64 + 2) * scale as u64;
    if side > u32::MAX as u64 {
        return false;
    }
    proof {
        assert(side * side <= u64::MAX) by (nonlinear_arith)
            requires
                side <= u32::MAX,
        ;
    }
    side * side <= usize::MAX as u64
}

fn too_large() -> (e: QrError)
    ensures
        e is ImageProcessingFailed,
{
    QrError::ImageProcessingFailed("rendered image too large".to_string())
}

/// Renders `qr` at `scale` and draws it over the centre of `background`.
/// A raster too large to address fails with `ImageProcessingFailed`.
fn place_centered(
    qr: &QrMatrix,
    background: RasterImage,
    scale: u32,
    dark: [u8; 3],
    light: [u8; 3],
) -> (r: Result<RasterImage, QrError>)
    requires
        qr.wf(),
        background@.wf(),
    ensures
        raster_fits(raster_side(qr.width as int, scale as int)) <==> r is Ok,
        r is Ok ==> centered_composite(r->Ok_0@, background@, *qr, scale as int, dark, light),
        r is Err ==> r->Err_0 is ImageProcessingFailed,
{
    let mut background = background;
    if scale == 0 {
        let ghost top = raster_view(*qr, 0, dark, light);
        assert(raster_side(qr.width as int, 0) == 0) by (nonlinear_arith);
        assert(top.width == 0);
        assert(is_composite(background@, background@, top, 0, 0));
        return Ok(background);
    }
    if !raster_addressable(qr.width, scale) {
        return Err(too_large());
    }
    proof {
        assert(raster_side(qr.width as int, scale as int) * raster_side(qr.width as int, scale as int)
            <= usize::MAX);
    }
    let config = ImageConfig { scale, dark_color: dark, light_color: light };
    let raster = render_to_image(qr, &config);
    let x = center_offset_of(background.width, raster.width);
    let y = center_offset_of(background.height, raster.height);
    overlay(&mut background, &raster, x, y);
    Ok(background)
}

/// Fits the raster of `qr` onto `background`: 20 pixels are kept free on
/// each side of the shorter one, the scale is the most whole pixels per
/// module that fit, and the raster is drawn over the centre. A scale below 2
/// fails with `BackgroundTooSmall`.
pub fn fit_on_background(qr: &QrMatrix, background: RasterImage, image_config: &ImageConfig) -> (r:
    Result<RasterImage, QrError>)
    requires
        qr.wf(),
        qr.width >= 1,
        background@.wf(),
    ensures
        ({
            let scale = fit_scale(
                shorter(background.width as int, background.height as int),
                2 * BACKGROUND_MARGIN,
                qr.width as int,
            );
            &&& scale < MIN_BACKGROUND_SCALE ==> r is Err && r->Err_0 is BackgroundTooSmall
            &&& scale >= MIN_BACKGROUND_SCALE && raster_fits(raster_side(qr.width as int, scale))
                ==> r is Ok && centered_composite(
                r->Ok_0@,
                background@,
                *qr,
                scale,
                image_config.dark_color,
                image_config.light_color,
            )
            &&& scale >= MIN_BACKGROUND_SCALE && !raster_fits(raster_side(qr.width as int, scale))
                ==> r is Err && r->Err_0 is ImageProcessingFailed
        }),
        shorter(background.width as int, background.height as int) < 2 * BACKGROUND_MARGIN + 2
            * qr.width ==> r is Err && r->Err_0 is BackgroundTooSmall,
{
    let short = if background.width <= background.height {
        background.width
    } else {
        background.height
    };
    let avail = short.saturating_sub(2 * BACKGROUND_MARGIN);
    let scale = (avail as usize / qr.width) as u32;
    proof {
        let m = qr.width as int;
        let a = avail as int;
        if a < 2 * m {
            assert(a / m < 2) by (nonlinear_arith)
                requires
                    m >= 1,
                    0 <= a < 2 * m,
            ;
        }
        assert(a / m <= a) by (nonlinear_arith)
            requires
                m >= 1,
                a >= 0,
        ;
    }
    if scale < MIN_BACKGROUND_SCALE {
        return Err(QrError::BackgroundTooSmall);
    }
    place_centered(qr, background, scale, image_config.dark_color, image_config.light_color)
}

/// Decodes the background held in `background_bytes` and fits `qr` onto it
/// as `fit_on_background` does. Bytes that do not decode fail with
/// `InvalidLogoPath` naming the path and the cause.
pub fn overlay_on_background(
    qr: &QrMatrix,
    background_path: &str,
    background_bytes: &[u8],
    image_config: &ImageConfig,
) -> (r: Result<RasterImage, QrError>)
    requires
        qr.wf(),
        qr.width >= 1,
    ensures
        match decoded_image(background_bytes@) {
            Ok(bg) => {
                let scale = fit_scale(shorter(bg.width as int, bg.height as int), 2 * BACKGROUND_MARGIN, qr.width as int);
                &&& scale < MIN_BACKGROUND_SCALE ==> r is Err && r->Err_0 is BackgroundTooSmall
                &&& scale >= MIN_BACKGROUND_SCALE && raster_fits(raster_side(qr.width as int, scale))
                    ==> r is Ok && centered_composite(
                    r->Ok_0@,
                    bg,
                    *qr,
                    scale,
                    image_config.dark_color,
                    image_config.light_color,
                )
                &&& scale >= MIN_BACKGROUND_SCALE && !raster_fits(raster_side(qr.width as int, scale))
                    ==> r is Err && r->Err_0 is ImageProcessingFailed
            },
            Err(cause) => r is Err && r->Err_0 is InvalidLogoPath && r->Err_0->InvalidLogoPath_0@
                == path_message(background_path@, cause),
        },
{
    match decode_image(background_bytes) {
        Ok(bg) => fit_on_background(qr, bg, image_config),
        Err(cause) => Err(QrError::InvalidLogoPath(join_message(background_path, cause.as_str()))),
    }
}

/// Opening of the request sent to the artwork generator.
pub const ART_PROMPT_HEAD: &'static str = "A QR code with artistic styling: ";

/// Close of the request sent to the artwork generator.
pub const ART_PROMPT_TAIL: &'static str = ". The QR code pattern should remain scannable.";

/// The request for an artwork: the user's prompt, framed by a reminder to
/// keep the code scannable.
pub fn ai_prompt(prompt: &str) -> (r: String)
    ensures
        r@ == ART_PROMPT_HEAD@ + prompt@ + ART_PROMPT_TAIL@,
{
    let mut s = ART_PROMPT_HEAD.to_string();
    s.append(prompt);
    s.append(ART_PROMPT_TAIL);
    s
}

/// Opening of the failure text for an artwork payload that is not base64.
pub const DECODE_FAILURE: &'static str = "Failed to decode image: ";

/// Opening of the failure text for an artwork that is not a picture.
pub const LOAD_FAILURE: &'static str = "Failed to load image: ";

fn failure(head: &str, cause: &str) -> (e: QrError)
    ensures
        e is ImageProcessingFailed && e->ImageProcessingFailed_0@ == head@ + cause@,
{
    let mut s = head.to_string();
    s.append(cause);
    QrError::ImageProcessingFailed(s)
}

/// Places `qr`, in the configured colours, over the centre of a generated artwork. The
/// scale is the most whole pixels per module that fit once 40 pixels are
/// taken off the shorter side, with no lower bound: at scale 0 the artwork is
/// returned as it came.
pub fn place_on_art(qr: &QrMatrix, art: RasterImage, image_config: &ImageConfig) -> (r: Result<
    RasterImage,
    QrError,
>)
    requires
        qr.wf(),
        qr.width >= 1,
        art@.wf(),
    ensures
        ({
            let scale = fit_scale(
                shorter(art.width as int, art.height as int),
                ART_MARGIN as int,
                qr.width as int,
            );
            &&& raster_fits(raster_side(qr.width as int, scale)) ==> r is Ok && centered_composite(
                r->Ok_0@,
                art@,
                *qr,
                scale,
                image_config.dark_color,
                image_config.light_color,
            )
            &&& !raster_fits(raster_side(qr.width as int, scale)) ==> r is Err
                && r->Err_0 is ImageProcessingFailed
        }),
{
    let short = if art.width <= art.height {
        art.width
    } else {
        art.height
    };
    let avail = short.saturating_sub(ART_MARGIN);
    proof {
        let m = qr.width as int;
        let a = avail as int;
        assert(a / m <= a) by (nonlinear_arith)
            requires
                m >= 1,
                a >= 0,
        ;
    }
    let scale = (avail as usize / qr.width) as u32;
    place_centered(qr, art, scale, image_config.dark_color, image_config.light_color)
}

/// Places `qr`, in the configured colours, over the centre of a generated artwork that
/// arrives as base64 text, as `place_on_art` does. A payload that is
/// not base64, or not a picture, fails with `ImageProcessingFailed`.
pub fn generate_ai_qr(qr: &QrMatrix, image_base64: &str, image_config: &ImageConfig) -> (r: Result<
    RasterImage,
    QrError,
>)
    requires
        qr.wf(),
        qr.width >= 1,
    ensures
        match base64_decoded(image_base64@) {
            Err(cause) => r is Err && r->Err_0 is ImageProcessingFailed
                && r->Err_0->ImageProcessingFailed_0@ == DECODE_FAILURE@ + cause,
            Ok(bytes) => match decoded_image(bytes) {
                Err(cause) => r is Err && r->Err_0 is ImageProcessingFailed
                    && r->Err_0->ImageProcessingFailed_0@ == LOAD_FAILURE@ + cause,
                Ok(art) => {
                    let scale = fit_scale(shorter(art.width as int, art.height as int), ART_MARGIN as int, qr.width as int);
                    &&& raster_fits(raster_side(qr.width as int, scale)) ==> r is Ok && centered_composite(
                        r->Ok_0@,
                        art,
                        *qr,
                        scale,
                        image_config.dark_color,
                        image_config.light_color,
                    )
                    &&& !raster_fits(raster_side(qr.width as int, scale)) ==> r is Err
                        && r->Err_0 is ImageProcessingFailed
                },
            },
        },
{
    let bytes = match decode_base64(image_base64) {
        Ok(b) => b,
        Err(cause) => {
            return Err(failure(DECODE_FAILURE, cause.as_str()));
        },
    };
    let art = match decode_image(bytes.as_slice()) {
        Ok(img) => img,
        Err(cause) => {
            return Err(failure(LOAD_FAILURE, cause.as_str()));
        },
    };
    place_on_art(qr, art, image_config)
}

} // verus!
