//! Conversion of PDF documents into DOCX documents: the checks made before
//! any work, the text taken from the PDF, and its layout into paragraphs.
use vstd::prelude::*;
use crate::text::{chars_of, string_of, trim_of, trim_str};
use docx_rs::{BreakType, Docx, Paragraph, Run};

verus! {

/// Document formats.
#[derive(Debug, Clone, Copy, PartialEq, Eq, Structural)]
pub enum Format {
    Pdf,
    Docx,
}

impl Format {
    /// The name of the format, in capitals.
    pub open spec fn name(&self) -> Seq<char> {
        match self {
            Format::Pdf => seq!['P', 'D', 'F'],
            Format::Docx => seq!['D', 'O', 'C', 'X'],
        }
    }

    /// The name of the format, in capitals.
    pub fn label(&self) -> (r: &'static str)
        ensures
            r@ == self.name(),
    {
        proof {
            reveal_strlit("PDF");
            reveal_strlit("DOCX");
        }
        match self {
            Format::Pdf => {
                assert("PDF"@ =~= seq!['P', 'D', 'F']);
                "PDF"
            },
            Format::Docx => {
                assert("DOCX"@ =~= seq!['D', 'O', 'C', 'X']);
                "DOCX"
            },
        }
    }
}

/// Why a conversion did not happen.
#[derive(Debug)]
pub enum ConvertError {
    UnsupportedConversion { from: Format, to: Format },
    InputNotFound(String),
    OutputExists(String),
    PdfReadError(String),
    DocxWriteError(String),
    IoError(String),
}

fn joined(parts: &[&str]) -> (r: String)
    ensures
        r@ == parts@.map_values(|p: &str| p@).fold_left(Seq::<char>::empty(), |acc: Seq<char>, t: Seq<char>| acc + t),
{
    let mut s = String::new();
    let mut i: usize = 0;
    while i < parts.len()
        invariant
            i <= parts@.len(),
            s@ == parts@.subrange(0, i as int).map_values(|p: &str| p@).fold_left(
                Seq::<char>::empty(),
                |acc: Seq<char>, t: Seq<char>| acc + t,
            ),
        decreases parts@.len() - i,
    {
        let ghost prev = parts@.subrange(0, i as int).map_values(|p: &str| p@);
        s.append(parts[i]);
        proof {
            let next = parts@.subrange(0, i + 1).map_values(|p: &str| p@);
            assert(next.drop_last() =~= prev);
        }
        i += 1;
    }
    assert(parts@.subrange(0, parts@.len() as int) =~= parts@);
    s
}

impl ConvertError {
    /// The text shown for the error.
    pub open spec fn text(&self) -> Seq<char> {
        match self {
            ConvertError::UnsupportedConversion { from, to } => "Unsupported conversion: "@
                + from.name() + " to "@ + to.name(),
            ConvertError::InputNotFound(path) => "Input file not found: "@ + path@,
            ConvertError::OutputExists(path) => "Output file already exists: "@ + path@
                + " (use --force to overwrite)"@,
            ConvertError::PdfReadError(msg) => "Failed to read PDF: "@ + msg@,
            ConvertError::DocxWriteError(msg) => "Failed to write DOCX: "@ + msg@,
            ConvertError::IoError(msg) => "IO error: "@ + msg@,
        }
    }

    /// The text shown for the error.
    pub fn message(&self) -> (r: String)
        ensures
            r@ == self.text(),
    {
        let r = match self {
            ConvertError::UnsupportedConversion { from, to } => joined(
                &["Unsupported conversion: ", from.label(), " to ", to.label()],
            ),
            ConvertError::InputNotFound(path) => joined(&["Input file not found: ", path.as_str()]),
            ConvertError::OutputExists(path) => joined(
                &["Output file already exists: ", path.as_str(), " (use --force to overwrite)"],
            ),
            ConvertError::PdfReadError(msg) => joined(&["Failed to read PDF: ", msg.as_str()]),
            ConvertError::DocxWriteError(msg) => joined(&["Failed to write DOCX: ", msg.as_str()]),
            ConvertError::IoError(msg) => joined(&["IO error: ", msg.as_str()]),
        };
        proof {
            reveal_with_fuel(Seq::fold_left, 5);
        }
        r
    }
}

/// What to convert, into what, and where to.
#[derive(Debug, Clone)]
pub struct ConvertConfig {
    pub input_path: String,
    pub output_path: String,
    pub from_format: Format,
    pub to_format: Format,
    pub force: bool,
    pub verbose: bool,
}

/// What a conversion did.
#[derive(Debug)]
pub struct ConvertResult {
    pub pages_processed: usize,
    pub warnings: Vec<String>,
}

/// The checks made before a conversion, in order: only PDF to DOCX is
/// supported; the input must exist; the output must not, unless forced.
pub open spec fn conversion_check(
    config: ConvertConfig,
    input_exists: bool,
    output_exists: bool,
    e: Option<ConvertError>,
) -> bool {
    if config.from_format != Format::Pdf || config.to_format != Format::Docx {
        e matches Some(ConvertError::UnsupportedConversion { from, to }) && from
            == config.from_format && to == config.to_format
    } else if !input_exists {
        e matches Some(ConvertError::InputNotFound(p)) && p@ == config.input_path@
    } else if output_exists && !config.force {
        e matches Some(ConvertError::OutputExists(p)) && p@ == config.output_path@
    } else {
        e is None
    }
}

/// Makes the checks of a conversion, given whether its input and output
/// files exist.
pub fn check_conversion(config: &ConvertConfig, input_exists: bool, output_exists: bool) -> (r:
    Result<(), ConvertError>)
    ensures
        conversion_check(
            *config,
            input_exists,
            output_exists,
            match r {
                Ok(_) => None,
                Err(e) => Some(e),
            },
        ),
{
    if config.from_format != Format::Pdf || config.to_format != Format::Docx {
        return Err(
            ConvertError::UnsupportedConversion { from: config.from_format, to: config.to_format },
        );
    }
    if !input_exists {
        return Err(ConvertError::InputNotFound(config.input_path.clone()));
    }
    if output_exists && !config.force {
        return Err(ConvertError::OutputExists(config.output_path.clone()));
    }
    Ok(())
}

/// The pieces of `s` between the occurrences of `sep`; a text without `sep`
/// is one piece.
pub open spec fn split_on(s: Seq<char>, sep: char) -> Seq<Seq<char>>
    decreases s.len(),
{
    if s.len() == 0 {
        seq![Seq::empty()]
    } else {
        let prev = split_on(s.drop_last(), sep);
        if s.last() == sep {
            prev.push(Seq::empty())
        } else {
            prev.update(prev.len() - 1, prev.last().push(s.last()))
        }
    }
}

proof fn lemma_split_nonempty(s: Seq<char>, sep: char)
    ensures
        split_on(s, sep).len() >= 1,
    decreases s.len(),
{
    if s.len() > 0 {
        lemma_split_nonempty(s.drop_last(), sep);
    }
}

/// The views of a list of strings.
pub open spec fn views(v: Seq<String>) -> Seq<Seq<char>> {
    v.map_values(|t: String| t@)
}

/// Splits a text into the pieces between the occurrences of `sep`.
pub fn split_text(chars: &Vec<char>, sep: char) -> (r: Vec<String>)
    ensures
        views(r@) == split_on(chars@, sep),
{
    let mut pieces: Vec<String> = Vec::new();
    let mut current: Vec<char> = Vec::new();
    let mut i: usize = 0;
    while i < chars.len()
        invariant
            i <= chars@.len(),
            views(pieces@).push(current@) == split_on(chars@.subrange(0, i as int), sep),
        decreases chars@.len() - i,
    {
        let c = chars[i];
        proof {
            let s = chars@.subrange(0, i + 1);
            assert(s.drop_last() =~= chars@.subrange(0, i as int));
            lemma_split_nonempty(s.drop_last(), sep);
        }
        if c == sep {
            let piece = string_of(current.as_slice());
            pieces.push(piece);
            current = Vec::new();
            assert(views(pieces@).push(current@) =~= split_on(chars@.subrange(0, i + 1), sep));
        } else {
            let ghost before = current@;
            current.push(c);
            assert(views(pieces@).push(current@) =~= split_on(chars@.subrange(0, i + 1), sep));
        }
        i += 1;
    }
    let last = string_of(current.as_slice());
    pieces.push(last);
    assert(chars@.subrange(0, chars@.len() as int) =~= chars@);
    assert(views(pieces@) =~= split_on(chars@, sep));
    pieces
}

/// The lines of a page that hold more than white space, trimmed.
pub open spec fn kept_lines(lines: Seq<Seq<char>>) -> Seq<Seq<char>>
    decreases lines.len(),
{
    if lines.len() == 0 {
        Seq::empty()
    } else {
        let prev = kept_lines(lines.drop_last());
        let t = trim_of(lines.last());
        if t.len() > 0 {
            prev.push(t)
        } else {
            prev
        }
    }
}

/// The blocks of the document made of `pages`: the kept lines of each page
/// as paragraphs (`Some`), with a page break (`None`) between two pages.
pub open spec fn document_blocks(pages: Seq<Seq<char>>) -> Seq<Option<Seq<char>>>
    decreases pages.len(),
{
    if pages.len() == 0 {
        Seq::empty()
    } else {
        let prev = document_blocks(pages.drop_last());
        let sep: Seq<Option<Seq<char>>> = if pages.len() > 1 {
            seq![None]
        } else {
            Seq::empty()
        };
        prev + sep + kept_lines(split_on(pages.last(), '\n')).map_values(
            |t: Seq<char>| Some(t),
        )
    }
}

/// The view of a block.
pub open spec fn block_view(b: Option<String>) -> Option<Seq<char>> {
    match b {
        Some(t) => Some(t@),
        None => None,
    }
}

/// The pages of a text: the pieces between form feeds.
pub open spec fn pages_of(text: Seq<char>) -> Seq<Seq<char>> {
    split_on(text, '\x0C')
}

/// Appends the kept lines of `page` to `blocks` as paragraphs.
fn push_paragraphs(blocks: &mut Vec<Option<String>>, page: &String)
    ensures
        final(blocks)@.map_values(|b: Option<String>| block_view(b)) == old(blocks)@.map_values(
            |b: Option<String>| block_view(b),
        ) + kept_lines(split_on(page@, '\n')).map_values(|t: Seq<char>| Some(t)),
{
    let chars = chars_of(page.as_str());
    let lines = split_text(&chars, '\n');
    let ghost start = old(blocks)@.map_values(|b: Option<String>| block_view(b));
    let ghost all = views(lines@);
    let mut i: usize = 0;
    while i < lines.len()
        invariant
            i <= lines@.len(),
            all == views(lines@),
            all == split_on(page@, '\n'),
            blocks@.map_values(|b: Option<String>| block_view(b)) == start + kept_lines(
                all.subrange(0, i as int),
            ).map_values(|t: Seq<char>| Some(t)),
        decreases lines@.len() - i,
    {
        let t = trim_str(lines[i].as_str());
        proof {
            let s = all.subrange(0, i + 1);
            assert(s.drop_last() =~= all.subrange(0, i as int));
            assert(s.last() == lines@[i as int]@);
        }
        if t.unicode_len() > 0 {
            let para = t.to_string();
            assert(para@ == t@);
            assert(kept_lines(all.subrange(0, i + 1)) == kept_lines(all.subrange(0, i as int)).push(
                t@,
            ));
            let ghost prev = blocks@.map_values(|b: Option<String>| block_view(b));
            blocks.push(Some(para));
            assert(blocks@.map_values(|b: Option<String>| block_view(b)) =~= prev.push(Some(t@)));
            assert(blocks@.map_values(|b: Option<String>| block_view(b)) =~= start + kept_lines(
                all.subrange(0, i + 1),
            ).map_values(|t: Seq<char>| Some(t)));
        } else {
            assert(kept_lines(all.subrange(0, i + 1)) == kept_lines(all.subrange(0, i as int)));
        }
        i += 1;
    }
    assert(all.subrange(0, lines@.len() as int) =~= all);
}

/// Lays out the pages of a text as document blocks.
pub fn layout_pages(pages: &Vec<String>) -> (r: Vec<Option<String>>)
    ensures
        r@.map_values(|b: Option<String>| block_view(b)) == document_blocks(views(pages@)),
{
    let ghost all = views(pages@);
    let mut blocks: Vec<Option<String>> = Vec::new();
    let mut i: usize = 0;
    while i < pages.len()
        invariant
            i <= pages@.len(),
            all == views(pages@),
            blocks@.map_values(|b: Option<String>| block_view(b)) == document_blocks(
                all.subrange(0, i as int),
            ),
        decreases pages@.len() - i,
    {
        proof {
            let s = all.subrange(0, i + 1);
            assert(s.drop_last() =~= all.subrange(0, i as int));
            assert(s.last() == pages@[i as int]@);
        }
        if i > 0 {
            blocks.push(None);
        }
        let ghost mid = blocks@.map_values(|b: Option<String>| block_view(b));
        assert(mid =~= document_blocks(all.subrange(0, i as int)) + (if i + 1 > 1 {
            seq![None]
        } else {
            Seq::<Option<Seq<char>>>::empty()
        }));
        push_paragraphs(&mut blocks, &pages[i]);
        i += 1;
    }
    assert(all.subrange(0, pages@.len() as int) =~= all);
    blocks
}

/// Relies on `docx_rs`: one paragraph of one run per block, holding the text
/// of a `Some` block or a page break for a `None` one, packed as a DOCX
/// file. Paragraph ids come from a per-thread counter, so nothing is said of
/// the bytes.
#[verifier::external_body]
fn pack_docx(blocks: &Vec<Option<String>>) -> (r: Result<Vec<u8>, String>) {
    let docx = blocks.iter().fold(Docx::new(), |d, b| match b {
        Some(t) => d.add_paragraph(Paragraph::new().add_run(Run::new().add_text(t))),
        None => d.add_paragraph(Paragraph::new().add_run(Run::new().add_break(BreakType::Page))),
    });
    let mut out = std::io::Cursor::new(Vec::new());
    docx.build().pack(&mut out).map_err(|e| e.to_string())?;
    Ok(out.into_inner())
}

/// The warning given for a document whose one page holds only white space.
pub const NO_TEXT_WARNING: &'static str = "PDF appears to contain no extractable text (may be image-based)";

/// Whether a document of these pages gets the no-text warning.
pub open spec fn lacks_text(pages: Seq<Seq<char>>) -> bool {
    pages.len() == 1 && trim_of(pages[0]).len() == 0
}

/// What a conversion of extracted text yields: a failed extraction gives
/// `PdfReadError` with its cause; otherwise the pages are counted and a
/// document whose one page is blank gets the no-text warning, unless packing
/// the document fails with `DocxWriteError`.
pub open spec fn text_outcome(
    extracted: Result<String, String>,
    r: Result<(ConvertResult, Vec<u8>), ConvertError>,
) -> bool {
    match extracted {
        Err(cause) => r is Err && r->Err_0 is PdfReadError && r->Err_0->PdfReadError_0@ == cause@,
        Ok(text) => match r {
            Ok((res, _)) => res.pages_processed == pages_of(text@).len() && (if lacks_text(
                pages_of(text@),
            ) {
                res.warnings@.len() == 1 && res.warnings@[0]@ == NO_TEXT_WARNING@
            } else {
                res.warnings@.len() == 0
            }),
            Err(e) => e is DocxWriteError,
        },
    }
}

/// Converts the text extracted from a PDF (or the failure to extract it)
/// into a DOCX file's bytes, after the checks of `check_conversion`.
pub fn convert(
    config: &ConvertConfig,
    input_exists: bool,
    output_exists: bool,
    extracted: Result<String, String>,
) -> (r: Result<(ConvertResult, Vec<u8>), ConvertError>)
    ensures
        !conversion_check(*config, input_exists, output_exists, None) ==> r is Err
            && conversion_check(*config, input_exists, output_exists, Some(r->Err_0)),
        conversion_check(*config, input_exists, output_exists, None) ==> text_outcome(extracted, r),
{
    if let Err(e) = check_conversion(config, input_exists, output_exists) {
        return Err(e);
    }
    convert_pdf_text(extracted)
}

/// Lays out the text extracted from a PDF as a DOCX file: each page's
/// non-blank lines become trimmed paragraphs (see `layout_pages`), with a
/// page break between two pages.
pub fn convert_pdf_text(extracted: Result<String, String>) -> (r: Result<
    (ConvertResult, Vec<u8>),
    ConvertError,
>)
    ensures
        text_outcome(extracted, r),
{
    let text = match extracted {
        Ok(t) => t,
        Err(cause) => {
            return Err(ConvertError::PdfReadError(cause));
        },
    };
    let chars = chars_of(text.as_str());
    let pages = split_text(&chars, '\x0C');
    proof {
        assert(views(pages@).len() == pages@.len());
    }
    let mut warnings: Vec<String> = Vec::new();
    if pages.len() == 1 && trim_str(pages[0].as_str()).unicode_len() == 0 {
        assert(views(pages@)[0] == pages@[0]@);
        warnings.push(NO_TEXT_WARNING.to_string());
    }
    let blocks = layout_pages(&pages);
    match pack_docx(&blocks) {
        Ok(bytes) => Ok((ConvertResult { pages_processed: pages.len(), warnings }, bytes)),
        Err(cause) => Err(ConvertError::DocxWriteError(cause)),
    }
}

} // verus!
