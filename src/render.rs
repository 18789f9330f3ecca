//! Text renderings of a matrix: Unicode block glyphs for terminals, and
//! vector markup.
use vstd::prelude::*;
use crate::matrix::{ImageConfig, QrConfig, QrMatrix};
use crate::text::{hex_digit, hex_digit_of, push_char};
use qrcode::render::svg::Color as SvgColor;
use qrcode::render::unicode::Dense1x2;

verus! {

/// Width, in modules, of the light border that the glyph and markup
/// renderings put around a standard matrix.
pub const QUIET_ZONE_MODULES: u32 = 4;

/// What the glyph renderer draws for a matrix with or without its quiet zone,
/// with dark and light swapped or not.
pub uninterp spec fn terminal_text(
    modules: Seq<bool>,
    width: nat,
    quiet_zone: bool,
    invert: bool,
) -> Seq<char>;

/// What the markup renderer draws for a matrix, with a quiet zone, given the
/// dark and light colours as markup colour strings.
pub uninterp spec fn svg_markup(
    modules: Seq<bool>,
    width: nat,
    dark: Seq<char>,
    light: Seq<char>,
) -> Seq<char>;

/// Relies on qrcode's `Renderer` with the `unicode::Dense1x2` pixel: one
/// character for two module rows, a border of `quiet` modules when
/// `quiet_zone` holds. Its canvas counts `(width + 2 * quiet)` squared cells
/// in a `u32`, and a canvas of width 0 cannot be cut into lines. The first
/// line is never empty, and its first character is the glyph of the top-left
/// two cells, coded `2 * top + bottom` (or `2 * top` for a single row). With
/// `invert` every cell takes the other value, so that code, and with it the
/// first character, differs between the two polarities.
#[verifier::external_body]
fn draw_glyphs(qr: &QrMatrix, quiet: u32, quiet_zone: bool, invert: bool) -> (r: String)
    requires
        qr.wf(),
        qr.width >= 1,
        quiet == QUIET_ZONE_MODULES,
        (qr.width + 8) * (qr.width + 8) <= u32::MAX,
    ensures
        r@ == terminal_text(qr.modules@, qr.width as nat, quiet_zone, invert),
        r@ != terminal_text(qr.modules@, qr.width as nat, quiet_zone, !invert),
{
    let colors: Vec<qrcode::Color> =
        qr.modules.iter().map(|&d| if d { qrcode::Color::Dark } else { qrcode::Color::Light }).collect();
    let (dark, light) = if invert { (Dense1x2::Light, Dense1x2::Dark) } else { (Dense1x2::Dark, Dense1x2::Light) };
    qrcode::render::Renderer::<Dense1x2>::new(&colors, qr.width, quiet)
        .quiet_zone(quiet_zone)
        .dark_color(dark)
        .light_color(light)
        .build()
}

/// Relies on qrcode's `Renderer` with the `svg::Color` pixel: eight units per
/// module, a border of `quiet` modules, the two colours written as given. Its
/// canvas side, `(width + 2 * quiet) * 8`, is counted in a `u32`.
#[verifier::external_body]
fn draw_markup(qr: &QrMatrix, quiet: u32, dark: &str, light: &str) -> (r: String)
    requires
        qr.wf(),
        quiet == QUIET_ZONE_MODULES,
        (qr.width + 8) * 8 <= u32::MAX,
    ensures
        r@ == svg_markup(qr.modules@, qr.width as nat, dark@, light@),
{
    let colors: Vec<qrcode::Color> =
        qr.modules.iter().map(|&d| if d { qrcode::Color::Dark } else { qrcode::Color::Light }).collect();
    qrcode::render::Renderer::<SvgColor>::new(&colors, qr.width, quiet)
        .quiet_zone(true)
        .dark_color(SvgColor(dark))
        .light_color(SvgColor(light))
        .build()
}

/// Renders a matrix as Unicode block glyphs, two module rows per line. The
/// quiet zone and the polarity follow the configuration; the rendering with
/// the other polarity is always a different text.
pub fn render_to_terminal(qr: &QrMatrix, config: &QrConfig) -> (r: String)
    requires
        qr.wf(),
        qr.width >= 1,
        (qr.width + 8) * (qr.width + 8) <= u32::MAX,
    ensures
        r@ == terminal_text(qr.modules@, qr.width as nat, config.quiet_zone, config.invert),
        r@ != terminal_text(qr.modules@, qr.width as nat, config.quiet_zone, !config.invert),
{
    draw_glyphs(qr, QUIET_ZONE_MODULES, config.quiet_zone, config.invert)
}

/// A colour as markup writes it: `#` and two lower-case hex digits for each
/// of red, green and blue.
pub open spec fn color_hex(c: [u8; 3]) -> Seq<char> {
    seq![
        '#',
        hex_digit(c[0] / 16),
        hex_digit(c[0] % 16),
        hex_digit(c[1] / 16),
        hex_digit(c[1] % 16),
        hex_digit(c[2] / 16),
        hex_digit(c[2] % 16),
    ]
}

/// Writes a colour as `#rrggbb`.
pub fn color_to_hex(c: [u8; 3]) -> (r: String)
    ensures
        r@ == color_hex(c),
{
    let mut s = String::new();
    push_char(&mut s, '#');
    let mut i: usize = 0;
    while i < 3
        invariant
            i <= 3,
            s@.len() == 1 + 2 * i,
            s@[0] == '#',
            forall|k: int|
                0 <= k < i ==> s@[1 + 2 * k] == #[trigger] hex_digit(c[k] / 16) && s@[2 + 2 * k]
                    == hex_digit(c[k] % 16),
        decreases 3 - i,
    {
        push_char(&mut s, hex_digit_of(c[i] / 16));
        push_char(&mut s, hex_digit_of(c[i] % 16));
        i += 1;
    }
    assert(s@ =~= color_hex(c));
    s
}

/// Renders a matrix as vector markup in the configured colours, quiet zone
/// included.
pub fn render_to_svg(qr: &QrMatrix, config: &ImageConfig) -> (r: String)
    requires
        qr.wf(),
        (qr.width + 8) * 8 <= u32::MAX,
    ensures
        r@ == svg_markup(
            qr.modules@,
            qr.width as nat,
            color_hex(config.dark_color),
            color_hex(config.light_color),
        ),
{
    let dark = color_to_hex(config.dark_color);
    let light = color_to_hex(config.light_color);
    draw_markup(qr, QUIET_ZONE_MODULES, dark.as_str(), light.as_str())
}

} // verus!
