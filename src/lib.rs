//! A developer toolkit library: matrix codes generated from text and
//! rendered as terminal glyphs, vector markup or raster images (with a logo,
//! on a background, or on a generated artwork); random passwords; and the
//! layout of a PDF's text as a DOCX document.
pub mod color;
pub mod compose;
pub mod convert;
pub mod matrix;
pub mod password;
pub mod raster;
pub mod render;
pub mod text;

pub use color::parse_color;
pub use compose::{
    ai_prompt, check_logo_size, fit_on_background, generate_ai_qr, overlay_logo,
    overlay_on_background,
};
pub use convert::{check_conversion, convert, ConvertConfig, ConvertError, ConvertResult, Format};
pub use matrix::{
    generate_qr, ErrorCorrectionLevel, ImageConfig, LogoConfig, OutputFormat, QrConfig, QrError,
    QrMatrix,
};
pub use password::{generate_password, PasswordConfig, PasswordError};
pub use raster::{overlay, overlay_blended, render_to_image, RasterImage, RgbaImage};
pub use render::{render_to_svg, render_to_terminal};
