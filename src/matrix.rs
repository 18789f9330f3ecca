//! Matrix codes: generation from text content, and the settings and error
//! kinds of the pipeline.
use vstd::prelude::*;
use crate::text::{contains_seq, str_contains};

verus! {

/// Redundancy tier of the encoded data, from least to most.
#[derive(Debug, Clone, Copy, PartialEq, Eq, Structural)]
pub enum ErrorCorrectionLevel {
    Low,
    Medium,
    Quartile,
    High,
}

impl Default for ErrorCorrectionLevel {
    fn default() -> (r: Self)
        ensures
            r == ErrorCorrectionLevel::Medium,
    {
        ErrorCorrectionLevel::Medium
    }
}

/// The artifact a matrix is rendered to.
#[derive(Debug, Clone, Copy, PartialEq, Eq, Structural)]
pub enum OutputFormat {
    Terminal,
    Png,
    Svg,
}

impl Default for OutputFormat {
    fn default() -> (r: Self)
        ensures
            r == OutputFormat::Terminal,
    {
        OutputFormat::Terminal
    }
}

/// What to encode, and how a terminal rendering looks.
#[derive(Debug, Clone)]
pub struct QrConfig {
    pub content: String,
    pub error_correction: ErrorCorrectionLevel,
    pub quiet_zone: bool,
    pub invert: bool,
}

impl Default for QrConfig {
    fn default() -> (r: Self)
        ensures
            r.content@.len() == 0,
            r.error_correction == ErrorCorrectionLevel::Medium,
            r.quiet_zone,
            !r.invert,
    {
        QrConfig {
            content: String::new(),
            error_correction: ErrorCorrectionLevel::Medium,
            quiet_zone: true,
            invert: false,
        }
    }
}

/// Pixels per module and the two colours of a raster or vector rendering.
#[derive(Debug, Clone)]
pub struct ImageConfig {
    pub scale: u32,
    pub dark_color: [u8; 3],
    pub light_color: [u8; 3],
}

impl Default for ImageConfig {
    fn default() -> (r: Self)
        ensures
            r.scale == 8,
            r.dark_color == [0u8, 0u8, 0u8],
            r.light_color == [255u8, 255u8, 255u8],
    {
        ImageConfig { scale: 8, dark_color: [0, 0, 0], light_color: [255, 255, 255] }
    }
}

/// A logo to place in the middle of a raster, and its edge as a percentage
/// of the raster's width.
#[derive(Debug, Clone)]
pub struct LogoConfig {
    pub path: String,
    pub size_percent: u8,
}

impl Default for LogoConfig {
    fn default() -> (r: Self)
        ensures
            r.path@.len() == 0,
            r.size_percent == 20,
    {
        LogoConfig { path: String::new(), size_percent: 20 }
    }
}

/// The failures of the matrix-code pipeline.
#[derive(Debug)]
pub enum QrError {
    ContentTooLarge,
    EmptyContent,
    EncodingFailed(String),
    InvalidLogoPath(String),
    LogoTooLarge,
    ImageProcessingFailed(String),
    IoError(String),
    InvalidColor(String),
    BackgroundTooSmall,
}

/// `head` followed by `tail`.
fn joined(head: &str, tail: &str) -> (r: String)
    ensures
        r@ == head@ + tail@,
{
    let mut s = head.to_string();
    s.append(tail);
    s
}

impl QrError {
    /// The text shown for the error.
    pub open spec fn text(&self) -> Seq<char> {
        match self {
            QrError::ContentTooLarge => "Content is too large for QR code encoding"@,
            QrError::EmptyContent => "Content cannot be empty"@,
            QrError::EncodingFailed(msg) => "QR code encoding failed: "@ + msg@,
            QrError::InvalidLogoPath(path) => "Failed to load logo image: "@ + path@,
            QrError::LogoTooLarge => "Logo size must be between 5% and 30% of QR code"@,
            QrError::ImageProcessingFailed(msg) => "Image processing failed: "@ + msg@,
            QrError::IoError(msg) => "I/O error: "@ + msg@,
            QrError::InvalidColor(color) => "Invalid color format: "@ + color@,
            QrError::BackgroundTooSmall => "Background image is too small for QR code"@,
        }
    }

    /// The text shown for the error.
    pub fn message(&self) -> (r: String)
        ensures
            r@ == self.text(),
    {
        match self {
            QrError::ContentTooLarge => "Content is too large for QR code encoding".to_string(),
            QrError::EmptyContent => "Content cannot be empty".to_string(),
            QrError::EncodingFailed(msg) => joined("QR code encoding failed: ", msg.as_str()),
            QrError::InvalidLogoPath(path) => joined("Failed to load logo image: ", path.as_str()),
            QrError::LogoTooLarge => "Logo size must be between 5% and 30% of QR code".to_string(),
            QrError::ImageProcessingFailed(msg) => joined("Image processing failed: ", msg.as_str()),
            QrError::IoError(msg) => joined("I/O error: ", msg.as_str()),
            QrError::InvalidColor(color) => joined("Invalid color format: ", color.as_str()),
            QrError::BackgroundTooSmall => "Background image is too small for QR code".to_string(),
        }
    }
}

/// A square grid of modules, `true` for dark, row by row.
#[derive(Debug, Clone)]
pub struct QrMatrix {
    pub width: usize,
    pub modules: Vec<bool>,
}

impl QrMatrix {
    /// The grid holds exactly `width * width` modules.
    pub open spec fn wf(&self) -> bool {
        self.modules@.len() == self.width * self.width
    }

    /// The module in column `x` of row `y`.
    pub open spec fn module(&self, x: int, y: int) -> bool {
        self.modules@[y * self.width + x]
    }

    /// Number of modules along each side.
    pub fn width(&self) -> (r: usize)
        ensures
            r == self.width,
    {
        self.width
    }

    /// Whether the module in column `x` of row `y` is dark.
    pub fn is_dark(&self, x: usize, y: usize) -> (r: bool)
        requires
            self.wf(),
            x < self.width,
            y < self.width,
        ensures
            r == self.module(x as int, y as int),
    {
        let n = self.modules.len();
        proof {
            assert(y * self.width + x < self.width * self.width) by (nonlinear_arith)
                requires
                    x < self.width,
                    y < self.width,
            ;
        }
        self.modules[y * self.width + x]
    }
}

/// A side length of a standard matrix code: 21, 25, ..., 177.
pub open spec fn standard_width(w: int) -> bool {
    21 <= w <= 177 && (w - 17) % 4 == 0
}

/// What the outside encoder makes of a content at a level: the side length
/// and the modules of the code, or the text of its failure.
pub uninterp spec fn qr_encoding(content: Seq<char>, level: ErrorCorrectionLevel) -> Result<
    (nat, Seq<bool>),
    Seq<char>,
>;

/// Relies on `qrcode::QrCode::with_error_correction_level`, which picks the
/// smallest standard version that holds the data (side `4 * v + 17`,
/// `1 <= v <= 40`), and on `QrCode::into_colors`, which lists its
/// `width * width` modules row by row.
#[verifier::external_body]
fn encode_content(content: &str, level: ErrorCorrectionLevel) -> (r: Result<QrMatrix, String>)
    ensures
        match r {
            Ok(m) => qr_encoding(content@, level) == Ok::<(nat, Seq<bool>), Seq<char>>(
                (m.width as nat, m.modules@),
            ) && m.wf() && standard_width(m.width as int),
            Err(e) => qr_encoding(content@, level) == Err::<(nat, Seq<bool>), Seq<char>>(e@),
        },
{
    let ec = match level {
        ErrorCorrectionLevel::Low => qrcode::EcLevel::L,
        ErrorCorrectionLevel::Medium => qrcode::EcLevel::M,
        ErrorCorrectionLevel::Quartile => qrcode::EcLevel::Q,
        ErrorCorrectionLevel::High => qrcode::EcLevel::H,
    };
    match qrcode::QrCode::with_error_correction_level(content, ec) {
        Ok(code) => Ok(QrMatrix {
            width: code.width(),
            modules: code.into_colors().into_iter().map(|c| c.select(true, false)).collect(),
        }),
        Err(e) => Err(e.to_string()),
    }
}

/// The message by which the encoder reports content beyond capacity.
pub open spec fn too_long_message() -> Seq<char> {
    seq!['d', 'a', 't', 'a', ' ', 't', 'o', 'o', ' ', 'l', 'o', 'n', 'g']
}

/// The error kind for an encoder failure: `ContentTooLarge` where its message
/// tells of data too long, else `EncodingFailed` with the message kept.
pub open spec fn encoding_error(msg: Seq<char>, e: QrError) -> bool {
    if contains_seq(msg, too_long_message()) {
        e is ContentTooLarge
    } else {
        e is EncodingFailed && e->EncodingFailed_0@ == msg
    }
}

/// Classifies an encoder failure by its message.
pub fn classify_encoding_error(msg: String) -> (e: QrError)
    ensures
        encoding_error(msg@, e),
{
    proof {
        reveal_strlit("data too long");
    }
    assert("data too long"@ =~= too_long_message());
    if str_contains(msg.as_str(), "data too long") {
        QrError::ContentTooLarge
    } else {
        QrError::EncodingFailed(msg)
    }
}

/// Encodes the configured content at the configured level. Empty content
/// fails with `EmptyContent` before the encoder is asked; an encoder failure
/// is classified by `classify_encoding_error`.
pub fn generate_qr(config: &QrConfig) -> (r: Result<QrMatrix, QrError>)
    ensures
        config.content@.len() == 0 ==> r is Err && r->Err_0 is EmptyContent,
        config.content@.len() > 0 ==> match qr_encoding(config.content@, config.error_correction) {
            Ok((w, m)) => r is Ok && r->Ok_0.width == w && r->Ok_0.modules@ == m,
            Err(msg) => r is Err && encoding_error(msg, r->Err_0),
        },
        r is Ok ==> r->Ok_0.wf() && standard_width(r->Ok_0.width as int),
{
    if config.content.as_str().is_empty() {
        return Err(QrError::EmptyContent);
    }
    match encode_content(config.content.as_str(), config.error_correction) {
        Ok(m) => Ok(m),
        Err(msg) => Err(classify_encoding_error(msg)),
    }
}

} // verus!
