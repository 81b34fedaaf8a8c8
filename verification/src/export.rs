//! The export pipeline's decisions: which artifact a run produces, what
//! the output file is called, and the assembly of each artifact from the
//! rendered code.
//!
//! The pipeline itself writes no files; it computes names, bytes and lines,
//! and the application layer carries them to disk or to the terminal.

use vstd::prelude::*;

verus! {

use crate::model::RenderError;
use crate::render::Bitmap;
use crate::render::QrMatrix;
use crate::render::center_line;
use crate::render::console_render;
use crate::render::console_render_width;
use crate::render::create_qr_image;
use crate::render::encode_qr_matrix;
use crate::render::qr_matrix_of;
use crate::render::spec_center_line;
use crate::render::spec_console_lines;
use crate::strutil::ends_with_ic;
use crate::strutil::eq_ignore_ascii;
use crate::strutil::str_to_chars;
use crate::strutil::chars_to_string;

// ---------------------------------------------------------------------------
// Formats
// ---------------------------------------------------------------------------
/// The artifact a run produces.
#[derive(Clone, Copy, Debug, PartialEq, Eq, Structural)]
pub enum ExportFormat {
    /// Block characters on standard output; no file.
    Console,
    /// A raster image file.
    Png,
    /// A raster image file.
    Jpg,
    /// A vector image file.
    Svg,
    /// A typeset certificate document.
    Pdf,
}

/// The format the run's flags select, one flag at most set by the
/// argument layer: the console display first, then the image formats,
/// and the document as the default.
pub fn select_format(show: bool, png: bool, jpg: bool, svg: bool) -> (r: ExportFormat)
    ensures
        r == (if show {
            ExportFormat::Console
        } else if png {
            ExportFormat::Png
        } else if jpg {
            ExportFormat::Jpg
        } else if svg {
            ExportFormat::Svg
        } else {
            ExportFormat::Pdf
        }),
{
    if show {
        ExportFormat::Console
    } else if png {
        ExportFormat::Png
    } else if jpg {
        ExportFormat::Jpg
    } else if svg {
        ExportFormat::Svg
    } else {
        ExportFormat::Pdf
    }
}

/// The file extension of a file-producing format; the console render
/// produces none.
pub fn extension_of(format: ExportFormat) -> (r: Option<&'static str>)
    ensures
        format == ExportFormat::Png ==> (r matches Some(e) && e@ == "png"@),
        format == ExportFormat::Jpg ==> (r matches Some(e) && e@ == "jpg"@),
        format == ExportFormat::Svg ==> (r matches Some(e) && e@ == "svg"@),
        format == ExportFormat::Pdf ==> (r matches Some(e) && e@ == "pdf"@),
        format == ExportFormat::Console ==> r is None,
{
    match format {
        ExportFormat::Console => None,
        ExportFormat::Png => Some("png"),
        ExportFormat::Jpg => Some("jpg"),
        ExportFormat::Svg => Some("svg"),
        ExportFormat::Pdf => Some("pdf"),
    }
}

// ---------------------------------------------------------------------------
// Output names
// ---------------------------------------------------------------------------
/// What the snake-case conversion yields for a name.
pub uninterp spec fn snake_of(s: Seq<char>) -> Seq<char>;

/// Relies on heck's to_snake_case: the result depends on the characters
/// alone.
#[verifier::external_body]
fn snake_case(s: &str) -> (r: String)
    ensures
        r@ == snake_of(s@),
{
    heck::ToSnakeCase::to_snake_case(s)
}

/// The default base name of an output file: the SSID in snake case with a
/// `_qrcode` suffix.
pub fn default_base_name(ssid: &str) -> (r: String)
    ensures
        r@ == snake_of(ssid@) + "_qrcode"@,
{
    let mut out = snake_case(ssid);
    out.append("_qrcode");
    out
}

/// A name with one of the known output extensions (in any ASCII case)
/// stripped, and any other name unchanged.
pub open spec fn spec_strip_known_extension(name: Seq<char>) -> Seq<char> {
    if name.len() >= 4 && (eq_ignore_ascii(name.skip(name.len() - 4), ".pdf"@) || eq_ignore_ascii(
        name.skip(name.len() - 4),
        ".png"@,
    ) || eq_ignore_ascii(name.skip(name.len() - 4), ".jpg"@) || eq_ignore_ascii(
        name.skip(name.len() - 4),
        ".svg"@,
    )) {
        name.take(name.len() - 4)
    } else {
        name
    }
}

/// Strips a known output extension from a chosen file name, so the run's
/// own extension can be appended.
pub fn strip_known_extension(name: &str) -> (r: String)
    ensures
        r@ == spec_strip_known_extension(name@),
{
    let chars = str_to_chars(name);
    let v = chars.as_slice();
    if ends_with_ic(v, ".pdf") || ends_with_ic(v, ".png") || ends_with_ic(v, ".jpg")
        || ends_with_ic(v, ".svg") {
        proof {
            reveal_strlit(".pdf");
            reveal_strlit(".png");
            reveal_strlit(".jpg");
            reveal_strlit(".svg");
            assert(v@.subrange(v@.len() - 4, v@.len() as int) =~= v@.skip(v@.len() - 4));
        }
        let kept = vstd::slice::slice_subrange(v, 0, chars.len() - 4);
        proof {
            assert(kept@ =~= name@.take(name@.len() - 4));
        }
        chars_to_string(kept)
    } else {
        proof {
            reveal_strlit(".pdf");
            reveal_strlit(".png");
            reveal_strlit(".jpg");
            reveal_strlit(".svg");
            if name@.len() >= 4 {
                assert(v@.subrange(v@.len() - 4, v@.len() as int) =~= v@.skip(v@.len() - 4));
            }
        }
        String::from_str(name)
    }
}

/// A name with the given extension (dot included, in any ASCII case)
/// stripped, provided something is left of it; any other name unchanged.
pub open spec fn spec_strip_extension_for(name: Seq<char>, ext: Seq<char>) -> Seq<char> {
    if name.len() > ext.len() && eq_ignore_ascii(name.skip(name.len() - ext.len() - 1), seq![
        '.',
    ] + ext) {
        name.take(name.len() - ext.len() - 1)
    } else {
        name
    }
}

/// The base name of a chosen image file name: the run's own dotted
/// extension is stripped when the name ends with it.
pub fn strip_extension_for(name: &str, ext: &str) -> (r: String)
    ensures
        r@ == spec_strip_extension_for(name@, ext@),
{
    let chars = str_to_chars(name);
    let v = chars.as_slice();
    let elen = ext.unicode_len();
    if chars.len() > elen {
        let mut dotted: Vec<char> = Vec::new();
        dotted.push('.');
        let echars = str_to_chars(ext);
        let mut i: usize = 0;
        while i < echars.len()
            invariant
                i <= echars@.len(),
                echars@ == ext@,
                dotted@ == seq!['.'] + ext@.take(i as int),
            decreases echars@.len() - i,
        {
            dotted.push(echars[i]);
            proof {
                assert(seq!['.'] + ext@.take(i as int + 1) =~= (seq!['.'] + ext@.take(
                    i as int,
                )).push(ext@[i as int]));
            }
            i += 1;
        }
        proof {
            assert(ext@.take(ext@.len() as int) =~= ext@);
        }
        let tail = vstd::slice::slice_subrange(v, chars.len() - (elen + 1), chars.len());
        proof {
            assert(tail@ =~= name@.skip(name@.len() - ext@.len() - 1));
        }
        if crate::strutil::chars_eq_ic(tail, dotted.as_slice()) {
            let kept = vstd::slice::slice_subrange(v, 0, chars.len() - (elen + 1));
            proof {
                assert(kept@ =~= name@.take(name@.len() - ext@.len() - 1));
            }
            chars_to_string(kept)
        } else {
            String::from_str(name)
        }
    } else {
        String::from_str(name)
    }
}

/// The output file name for a base name and an extension.
pub fn qr_file_name(base: &str, ext: &str) -> (r: String)
    ensures
        r@ == base@ + "."@ + ext@,
{
    let mut out = String::from_str(base);
    out.append(".");
    out.append(ext);
    out
}

// ---------------------------------------------------------------------------
// Artifact assembly
// ---------------------------------------------------------------------------
/// Renders the payload as a capped bitmap, or the render failure the
/// pipeline reports when the payload exceeds the symbol capacity.
pub fn render_qr_or_error(data: &[u8]) -> (r: Result<Bitmap, RenderError>)
    ensures
        (r is Ok) == (qr_matrix_of(data@) is Some),
        r matches Ok(b) ==> crate::render::spec_capped_bitmap(data@, &b),
        r matches Err(e) ==> e.message@ == "QR code image creation failed"@,
{
    match create_qr_image(data) {
        Some(b) => Ok(b),
        None => Err(RenderError { message: String::from_str("QR code image creation failed") }),
    }
}

/// The bytes of a raster artifact in the requested codec. Nothing only
/// when the codec refuses the dimensions: never for PNG of a nonzero
/// image, and for JPEG only beyond the format's 65535-pixel side limit.
pub fn image_export_bytes(format: ExportFormat, b: &Bitmap) -> (r: Option<Vec<u8>>)
    requires
        b.wf(),
        b.width <= 0xffff_ffff,
        b.height <= 0xffff_ffff,
        format == ExportFormat::Png || format == ExportFormat::Jpg,
    ensures
        r matches Some(v) ==> v@ == (if format == ExportFormat::Png {
            crate::render::png_bytes_of(b.width as int, b.height as int, b.pixels@)
        } else {
            crate::render::jpeg_bytes_of(b.width as int, b.height as int, b.pixels@)
        }),
        format == ExportFormat::Png && 1 <= b.width && 1 <= b.height ==> r is Some,
        format == ExportFormat::Jpg && 1 <= b.width <= 65535 && 1 <= b.height <= 65535
            ==> r is Some,
{
    match format {
        ExportFormat::Png => crate::render::encode_png(b),
        _ => crate::render::encode_jpeg(b),
    }
}

/// The console artifact: the block-character lines of the code and the
/// SSID line centered under them.
pub struct ConsoleQr {
    pub lines: Vec<String>,
    pub ssid_line: String,
}

/// Assembles the console artifact for a payload: the bordered matrix as
/// double-density block lines, and the SSID centered against their width
/// by floor division, left-aligned once it is as wide as the render.
pub fn console_export(data: &[u8], ssid: &str) -> (r: Result<ConsoleQr, RenderError>)
    ensures
        (r is Ok) == (qr_matrix_of(data@) is Some),
        r matches Err(e) ==> e.message@ == "QR code image creation failed"@,
        r matches Ok(c) ==> exists|m: &QrMatrix|
            {
                &&& m.wf()
                &&& #[trigger] m.rows() == qr_matrix_of(data@).unwrap()
                &&& c.lines.deep_view() == spec_console_lines(m, 4)
                &&& c.ssid_line@ == spec_center_line(m.size + 8, ssid@)
            },
{
    match encode_qr_matrix(data) {
        Some(m) => {
            let lines = console_render(&m, 4);
            let width = console_render_width(&m, 4);
            let ssid_line = center_line(width, ssid);
            proof {
                let mref = &m;
                assert(mref.wf() && mref.rows() == qr_matrix_of(data@).unwrap());
            }
            Ok(ConsoleQr { lines, ssid_line })
        },
        None => Err(RenderError { message: String::from_str("QR code image creation failed") }),
    }
}

} // verus!
