//! PDF pages to images: request checks and output names.

use vstd::prelude::*;
use crate::application::folder_batch::{all_files_taken, first_free_file, names_exhausted};
use crate::application::job_service::next_available_output;
use crate::application::engine_run::{asked, discarded, headed, published, reported};
use crate::domain::job::{ExecutionOutcome, PdfImageFormat, pdf_image_extension};
use crate::paths::{PathKind, ext_is, extension_of, file_stem, has_ext, is_absolute, is_absolute_path, join, joined, last_component, stem_of};
use crate::text::{ascii_lower, check_view, concat2, decimal, views};

verus! {

pub open spec fn pdf_image_request_check(
    input: Seq<char>,
    output_directory: Seq<char>,
    dpi: u16,
    input_kind: PathKind,
    directory_kind: PathKind,
) -> Result<(), Seq<char>> {
    if !is_absolute_path(input) || input_kind != PathKind::File {
        Err("PDF input does not exist: "@ + input)
    } else if !ext_is(input, "pdf"@) {
        Err("The input file must use the .pdf extension"@)
    } else if !is_absolute_path(output_directory) || directory_kind != PathKind::Directory {
        Err("The output directory does not exist"@)
    } else if dpi != 150 && dpi != 300 {
        Err("PDF rendering DPI must be 150 or 300"@)
    } else {
        Ok(())
    }
}

/// Checks a PDF-to-images request. Any image format is accepted.
pub fn validate_request(
    input_path: &str,
    output_directory: &str,
    format: PdfImageFormat,
    dpi: u16,
    input_kind: PathKind,
    directory_kind: PathKind,
) -> (r: Result<(), String>)
    ensures
        check_view(r) == pdf_image_request_check(input_path@, output_directory@, dpi, input_kind, directory_kind),
{
    if !is_absolute(input_path) || input_kind != PathKind::File {
        return Err(concat2("PDF input does not exist: ", input_path));
    }
    if !has_ext(input_path, "pdf") {
        return Err("The input file must use the .pdf extension".to_owned());
    }
    if !is_absolute(output_directory) || directory_kind != PathKind::Directory {
        return Err("The output directory does not exist".to_owned());
    }
    if dpi != 150 && dpi != 300 {
        return Err("PDF rendering DPI must be 150 or 300".to_owned());
    }
    Ok(())
}

} // verus!

verus! {

/// The format an image's bytes or file name point to.
#[derive(Clone, Copy, Debug, PartialEq, Eq, Structural)]
pub enum SniffedFormat {
    Png,
    Jpeg,
    Other,
}

/// The PNG signature opens the bytes.
pub open spec fn png_signature(b: Seq<u8>) -> bool {
    b.len() >= 8 && b[0] == 0x89u8 && b[1] == 0x50u8 && b[2] == 0x4eu8 && b[3] == 0x47u8
        && b[4] == 0x0du8 && b[5] == 0x0au8 && b[6] == 0x1au8 && b[7] == 0x0au8
}

/// The JPEG signature opens the bytes.
pub open spec fn jpeg_signature(b: Seq<u8>) -> bool {
    b.len() >= 3 && b[0] == 0xffu8 && b[1] == 0xd8u8 && b[2] == 0xffu8
}

/// What `image::guess_format` makes of the bytes.
pub uninterp spec fn guessed_format(bytes: Seq<u8>) -> Option<SniffedFormat>;

/// Guesses an image's format from the signature its bytes open with.
/// Calls `image::guess_format`, whose signature table puts PNG first and JPEG
/// second; the contract states those two and names the rest.
#[verifier::external_body]
fn sniff_format(bytes: &[u8]) -> (r: Option<SniffedFormat>)
    ensures
        r == guessed_format(bytes@),
        png_signature(bytes@) ==> r == Some(SniffedFormat::Png),
        !png_signature(bytes@) && jpeg_signature(bytes@) ==> r == Some(SniffedFormat::Jpeg),
        !png_signature(bytes@) && !jpeg_signature(bytes@) ==> r != Some(SniffedFormat::Png) && r != Some(SniffedFormat::Jpeg),
{
    match image::guess_format(bytes) {
        Ok(image::ImageFormat::Png) => Some(SniffedFormat::Png),
        Ok(image::ImageFormat::Jpeg) => Some(SniffedFormat::Jpeg),
        Ok(_) => Some(SniffedFormat::Other),
        Err(_) => None,
    }
}

/// The format `image::ImageFormat::from_extension` gives an extension.
pub open spec fn extension_format(path: Seq<char>) -> Option<SniffedFormat> {
    match extension_of(path) {
        None => None,
        Some(e) => {
            let l = ascii_lower(e);
            if l == "png"@ || l == "apng"@ {
                Some(SniffedFormat::Png)
            } else if l == "jpg"@ || l == "jpeg"@ || l == "jfif"@ {
                Some(SniffedFormat::Jpeg)
            } else if l == "avif"@ || l == "gif"@ || l == "webp"@ || l == "tif"@ || l == "tiff"@ || l == "tga"@
                || l == "dds"@ || l == "bmp"@ || l == "ico"@ || l == "hdr"@ || l == "exr"@ || l == "pbm"@
                || l == "pam"@ || l == "ppm"@ || l == "pgm"@ || l == "pnm"@ || l == "ff"@ || l == "qoi"@ {
                Some(SniffedFormat::Other)
            } else {
                None
            }
        },
    }
}

/// A path whose extension std's `Path::extension` reads the same way on every
/// platform as `extension_of` does: it has no backslash, does not start with
/// two slashes, does not end with a slash, and its last component is neither
/// `.` nor `..` and holds no colon.
pub open spec fn plain_file_path(p: Seq<char>) -> bool {
    &&& p.len() > 0
    &&& p.last() != '/'
    &&& forall|i: int| 0 <= i < p.len() ==> p[i] != '\\'
    &&& !(p.len() >= 2 && p[0] == '/' && p[1] == '/')
    &&& last_component(p) != seq!['.']
    &&& last_component(p) != seq!['.', '.']
    &&& forall|i: int| 0 <= i < last_component(p).len() ==> last_component(p)[i] != ':'
}

/// The image format named by a path's extension. Calls
/// `image::ImageFormat::from_path`, which reads the extension with std's
/// `Path::extension` and maps it, lower-cased, through a fixed table. The
/// contract restates that table for the paths on which std and `extension_of`
/// agree on every platform (`plain_file_path`); what std reads from other paths
/// (a trailing `.` component, backslashes, a Windows prefix) is left unsaid.
#[verifier::external_body]
fn format_from_path(path: &str) -> (r: Option<SniffedFormat>)
    ensures
        plain_file_path(path@) ==> r == extension_format(path@),
{
    match image::ImageFormat::from_path(path) {
        Ok(image::ImageFormat::Png) => Some(SniffedFormat::Png),
        Ok(image::ImageFormat::Jpeg) => Some(SniffedFormat::Jpeg),
        Ok(_) => Some(SniffedFormat::Other),
        Err(_) => None,
    }
}

/// What decoding the bytes as the given format gives: the image's width and
/// height, or the decoder's error.
pub uninterp spec fn decode_outcome(bytes: Seq<u8>, format: PdfImageFormat) -> Result<(u32, u32), Seq<char>>;

/// Decodes the bytes as a PNG or JPEG image and gives its dimensions. Calls
/// `image::load_from_memory_with_format`; the outcome is named, not stated.
#[verifier::external_body]
fn decoded_dimensions(bytes: &[u8], format: PdfImageFormat) -> (r: Result<(u32, u32), String>)
    ensures
        match r {
            Ok(d) => decode_outcome(bytes@, format) == Ok::<(u32, u32), Seq<char>>(d),
            Err(e) => decode_outcome(bytes@, format) == Err::<(u32, u32), Seq<char>>(e@),
        },
{
    let kind = match format {
        PdfImageFormat::Png => image::ImageFormat::Png,
        PdfImageFormat::Jpeg => image::ImageFormat::Jpeg,
    };
    match image::load_from_memory_with_format(bytes, kind) {
        Ok(image) => Ok((image.width(), image.height())),
        Err(error) => Err(error.to_string()),
    }
}

pub open spec fn expected_kind(format: PdfImageFormat) -> SniffedFormat {
    match format {
        PdfImageFormat::Png => SniffedFormat::Png,
        PdfImageFormat::Jpeg => SniffedFormat::Jpeg,
    }
}

/// `d` is a format that may have been detected for a rendered image: the one
/// its bytes show, or else the one its file name shows, which is known for a
/// plain path.
pub open spec fn detected_as(path: Seq<char>, bytes: Seq<u8>, d: Option<SniffedFormat>) -> bool {
    match guessed_format(bytes) {
        Some(f) => d == Some(f),
        None => plain_file_path(path) ==> d == extension_format(path),
    }
}

/// The check of a rendered image read back from `path` as `bytes` came to `v`.
pub open spec fn image_verdict(path: Seq<char>, bytes: Seq<u8>, expected: PdfImageFormat, v: Result<(), Seq<char>>) -> bool {
    exists|d: Option<SniffedFormat>| #[trigger] detected_as(path, bytes, d)
        && image_check(d, expected, decode_outcome(bytes, expected)) == v
}

/// The verdict on a rendered image, given the outcome of decoding it.
pub open spec fn image_check(
    detected: Option<SniffedFormat>,
    expected: PdfImageFormat,
    decoded: Result<(u32, u32), Seq<char>>,
) -> Result<(), Seq<char>> {
    if detected != Some(expected_kind(expected)) {
        Err("Rendered image has an unexpected format"@)
    } else {
        match decoded {
            Err(e) => Err("Rendered image validation failed: "@ + e),
            Ok(d) => if d.0 == 0 || d.1 == 0 { Err("Rendered image has invalid dimensions"@) } else { Ok(()) },
        }
    }
}

fn is_expected(detected: Option<SniffedFormat>, expected: PdfImageFormat) -> (r: bool)
    ensures
        r == (detected == Some(expected_kind(expected))),
{
    let want = match expected {
        PdfImageFormat::Png => SniffedFormat::Png,
        PdfImageFormat::Jpeg => SniffedFormat::Jpeg,
    };
    match detected {
        Some(f) => f == want,
        None => false,
    }
}

/// Checks the decision on a rendered image once it is decoded; public so that
/// the rules can be exercised on given outcomes.
pub fn judge_rendered_image(
    detected: Option<SniffedFormat>,
    expected: PdfImageFormat,
    decoded: Result<(u32, u32), String>,
) -> (r: Result<(), String>)
    ensures
        check_view(r) == image_check(detected, expected, match decoded {
            Ok(d) => Ok(d),
            Err(e) => Err(e@),
        }),
{
    if !is_expected(detected, expected) {
        return Err("Rendered image has an unexpected format".to_owned());
    }
    match decoded {
        Err(e) => Err(concat2("Rendered image validation failed: ", e.as_str())),
        Ok(d) => if d.0 == 0 || d.1 == 0 {
            Err("Rendered image has invalid dimensions".to_owned())
        } else {
            Ok(())
        },
    }
}

/// Checks a rendered page: `bytes` is what was read back from `path`. Its
/// format must be the expected one and it must decode to a non-empty image.
pub fn validate_image(path: &str, bytes: &[u8], expected: PdfImageFormat) -> (r: Result<(), String>)
    ensures
        image_verdict(path@, bytes@, expected, check_view(r)),
{
    let detected = match sniff_format(bytes) {
        Some(f) => Some(f),
        None => format_from_path(path),
    };
    assert(detected_as(path@, bytes@, detected));
    if !is_expected(detected, expected) {
        return Err("Rendered image has an unexpected format".to_owned());
    }
    let decoded = decoded_dimensions(bytes, expected);
    judge_rendered_image(detected, expected, decoded)
}

} // verus!

verus! {

/// The decimal notation of `n`, padded with leading zeros to `width` digits.
pub open spec fn zero_padded(n: nat, width: nat) -> Seq<char> {
    if decimal(n).len() >= width {
        decimal(n)
    } else {
        Seq::new((width - decimal(n).len()) as nat, |i: int| '0') + decimal(n)
    }
}

/// Page numbers have at least two digits, and as many as the page count has.
pub open spec fn page_digits(page_count: nat) -> nat {
    if decimal(page_count).len() > 2 { decimal(page_count).len() } else { 2 }
}

pub open spec fn format_label(format: PdfImageFormat) -> Seq<char> {
    match format {
        PdfImageFormat::Png => "png"@,
        PdfImageFormat::Jpeg => "jpeg"@,
    }
}

pub open spec fn quality_label(dpi: u16) -> Seq<char> {
    if dpi == 150 { "normal"@ } else { "high"@ }
}

/// The stem of the image of page `page`: `{stem}-page-{page}-{format}-{quality}`.
pub open spec fn page_stem(stem: Seq<char>, page: nat, page_count: nat, format: PdfImageFormat, dpi: u16) -> Seq<char> {
    stem + "-page-"@ + zero_padded(page, page_digits(page_count)) + "-"@ + format_label(format) + "-"@ + quality_label(dpi)
}

/// The hidden file a page is rendered to before it is renamed.
pub open spec fn page_staged_path(dir: Seq<char>, stem: Seq<char>, job_id: Seq<char>, page: nat, format: PdfImageFormat) -> Seq<char> {
    joined(dir, "."@ + stem + "."@ + job_id + ".page-"@ + decimal(page) + ".part."@ + pdf_image_extension(format))
}

/// The outputs planned for the pages, in order: each page's staged path and a
/// final name that was free when probed.
pub open spec fn pages_planned<F: Fn(&str) -> bool>(
    probe: F,
    dir: Seq<char>,
    stem: Seq<char>,
    job_id: Seq<char>,
    page_count: nat,
    format: PdfImageFormat,
    dpi: u16,
    outs: Seq<(String, String)>,
) -> bool {
    forall|i: int| 0 <= i < outs.len() ==> {
        &&& #[trigger] outs[i].0@ == page_staged_path(dir, stem, job_id, (i + 1) as nat, format)
        &&& first_free_file(probe, dir, page_stem(stem, (i + 1) as nat, page_count, format, dpi),
            pdf_image_extension(format), Seq::empty(), outs[i].1@)
    }
}

fn zero_padded_text(n: u64, width: usize) -> (r: String)
    ensures
        r@ == zero_padded(n as nat, width as nat),
{
    let digits = crate::text::decimal_string(n);
    let d = crate::text::chars_of(digits.as_str());
    if d.len() >= width {
        return digits;
    }
    let pad: usize = width - d.len();
    let mut v: Vec<char> = Vec::new();
    let mut i: usize = 0;
    while i < pad
        invariant
            i <= pad,
            v@ == Seq::new(i as nat, |k: int| '0'),
        decreases pad - i,
    {
        v.push('0');
        assert(v@ =~= Seq::new((i + 1) as nat, |k: int| '0'));
        i = i + 1;
    }
    let ghost zeros = v@;
    let mut k: usize = 0;
    while k < d.len()
        invariant
            k <= d.len(),
            v@ == zeros + d@.take(k as int),
        decreases d.len() - k,
    {
        v.push(d[k]);
        assert(v@ =~= zeros + d@.take(k + 1));
        k = k + 1;
    }
    assert(d@.take(d.len() as int) =~= d@);
    crate::text::string_of(&v)
}

/// The first free name `stem.ext`, `stem-2.ext`, ... in `directory`, by the
/// probe alone. `None` only when every suffix a `u32` can hold is taken.
pub fn next_available_path<F: Fn(&str) -> bool>(directory: &str, stem: &str, extension: &str, probe: &F) -> (r: Option<String>)
    requires
        forall|s: &str| probe.requires((s,)),
    ensures
        match r {
            Some(p) => first_free_file(*probe, directory@, stem@, extension@, Seq::empty(), p@),
            None => all_files_taken(*probe, directory@, stem@, extension@, Seq::empty()),
        },
{
    let mut reserved: Vec<String> = Vec::new();
    assert(views(reserved@) =~= Seq::<Seq<char>>::empty());
    next_available_output(directory, stem, extension, &mut reserved, probe)
}

/// Plans the output of every page of a PDF of `page_count` pages: the staged
/// path it is rendered to and the final name, the first free one from
/// `{stem}-page-{NN}-{format}-{quality}`.
pub fn output_paths<F: Fn(&str) -> bool>(
    input_path: &str,
    output_directory: &str,
    page_count: usize,
    format: PdfImageFormat,
    dpi: u16,
    job_id: &str,
    probe: &F,
) -> (r: Result<Vec<(String, String)>, String>)
    requires
        forall|s: &str| probe.requires((s,)),
    ensures
        stem_of(input_path@) is None ==> r is Err && r->Err_0@ == "PDF input filename is invalid"@,
        stem_of(input_path@) is Some && dpi != 150 && dpi != 300 ==> r is Err
            && r->Err_0@ == "PDF rendering DPI must be 150 or 300"@,
        stem_of(input_path@) is Some && (dpi == 150 || dpi == 300) ==> match r {
            Ok(outs) => outs.len() == page_count && pages_planned(*probe, output_directory@, stem_of(input_path@)->0,
                job_id@, page_count as nat, format, dpi, outs@),
            Err(e) => e@ == names_exhausted() && exists|i: int| 0 <= i < page_count && #[trigger] all_files_taken(*probe,
                output_directory@, page_stem(stem_of(input_path@)->0, (i + 1) as nat, page_count as nat, format, dpi),
                pdf_image_extension(format), Seq::empty()),
        },
{
    let stem = match file_stem(input_path) {
        Some(s) => s,
        None => return Err("PDF input filename is invalid".to_owned()),
    };
    let count_text = crate::text::decimal_string(page_count as u64);
    let count_len = crate::text::chars_of(count_text.as_str()).len();
    let digits: usize = if count_len > 2 { count_len } else { 2 };
    let format_name = match format {
        PdfImageFormat::Png => "png",
        PdfImageFormat::Jpeg => "jpeg",
    };
    let quality_name = if dpi == 150 {
        "normal"
    } else if dpi == 300 {
        "high"
    } else {
        return Err("PDF rendering DPI must be 150 or 300".to_owned());
    };
    proof {
        reveal_strlit("png");
        reveal_strlit("jpeg");
        reveal_strlit("normal");
        reveal_strlit("high");
    }
    assert(digits == page_digits(page_count as nat));
    let extension = format.extension();
    let mut outs: Vec<(String, String)> = Vec::new();
    let mut index: usize = 0;
    while index < page_count
        invariant
            index <= page_count,
            stem_of(input_path@) is Some,
            dpi == 150 || dpi == 300,
            stem@ == stem_of(input_path@)->0,
            digits == page_digits(page_count as nat),
            format_name@ == format_label(format),
            quality_name@ == quality_label(dpi),
            extension@ == pdf_image_extension(format),
            forall|s: &str| probe.requires((s,)),
            outs.len() == index,
            pages_planned(*probe, output_directory@, stem@, job_id@, page_count as nat, format, dpi, outs@),
        decreases page_count - index,
    {
        let page: u64 = index as u64 + 1;
        let padded = zero_padded_text(page, digits);
        let mut output_stem = stem.clone();
        output_stem.append("-page-");
        output_stem.append(padded.as_str());
        output_stem.append("-");
        output_stem.append(format_name);
        output_stem.append("-");
        output_stem.append(quality_name);
        assert(output_stem@ == page_stem(stem@, page as nat, page_count as nat, format, dpi));
        let final_path = match next_available_path(output_directory, output_stem.as_str(), extension, probe) {
            Some(p) => p,
            None => {
                assert(all_files_taken(*probe, output_directory@, page_stem(stem@, (index + 1) as nat,
                    page_count as nat, format, dpi), pdf_image_extension(format), Seq::empty()));
                return Err(names_exhausted_text());
            },
        };
        let mut name = ".".to_owned();
        name.append(stem.as_str());
        name.append(".");
        name.append(job_id);
        name.append(".page-");
        let page_text = crate::text::decimal_string(page);
        name.append(page_text.as_str());
        name.append(".part.");
        name.append(extension);
        let staged = join(output_directory, name.as_str());
        assert(staged@ == page_staged_path(output_directory@, stem@, job_id@, page as nat, format));
        let ghost before = outs@;
        outs.push((staged, final_path));
        proof {
            assert forall|i: int| 0 <= i < outs@.len() implies {
                &&& #[trigger] outs@[i].0@ == page_staged_path(output_directory@, stem@, job_id@, (i + 1) as nat, format)
                &&& first_free_file(*probe, output_directory@, page_stem(stem@, (i + 1) as nat, page_count as nat, format, dpi),
                    pdf_image_extension(format), Seq::empty(), outs@[i].1@)
            } by {
                if i < index {
                    assert(outs@[i] == before[i]);
                }
            }
        }
        index = index + 1;
    }
    Ok(outs)
}

fn names_exhausted_text() -> (r: String)
    ensures
        r@ == names_exhausted(),
{
    "No free output name is left in the output folder".to_owned()
}

/// The progress reported once `done` of `total` pages are rendered: up to 95.
pub fn render_progress(done: usize, total: usize) -> (p: u8)
    requires
        0 < total,
        done <= total,
    ensures
        p as int == (done as int * 95) / (total as int),
{
    let d = done as u128;
    let t = total as u128;
    assert(d * 95 <= t * 95) by (nonlinear_arith)
        requires
            d <= t,
    ;
    let q: u128 = (d * 95) / t;
    assert(q <= 95) by (nonlinear_arith)
        requires
            d <= t,
            t > 0,
            q == (d * 95) / (t as int),
    ;
    q as u8
}

} // verus!

verus! {

/// How rendering a page into its staged file failed.
pub enum RenderFailure {
    /// PDFium could not render the page.
    Render(String),
    /// The rendered bitmap could not be made into an image.
    Bitmap(String),
    /// The image could not be written.
    Save(String),
}

/// `open` gave `r` when asked to open the PDF: its page count, or why it
/// could not be opened.
pub open spec fn opened<O: Fn() -> Result<usize, String>>(open: O, r: Result<usize, String>) -> bool {
    open.ensures((), r)
}

/// `render` gave `r` when asked to render the page at `index` into `staged`.
pub open spec fn rendered<R: Fn(usize, &str) -> Result<(), RenderFailure>>(
    render: R,
    index: usize,
    staged: Seq<char>,
    r: Result<(), RenderFailure>,
) -> bool {
    exists|p: &str| p@ == staged && #[trigger] render.ensures((index, p), r)
}

/// The error reported when page `page` (counted from one) could not be rendered.
pub open spec fn render_failure_message(page: nat, f: RenderFailure) -> Seq<char> {
    match f {
        RenderFailure::Render(m) => "PDF page "@ + decimal(page) + " could not be rendered: "@ + m@,
        RenderFailure::Bitmap(m) => "PDF page "@ + decimal(page) + " bitmap is invalid: "@ + m@,
        RenderFailure::Save(m) => "PDF page "@ + decimal(page) + " could not be saved: "@ + m@,
    }
}


/// The page at `index` was rendered into its staged file, and what was read
/// back passed the checks.
pub open spec fn page_rendered<
    R: Fn(usize, &str) -> Result<(), RenderFailure>,
    H: Fn(&str) -> Result<Vec<u8>, String>,
>(render: R, read: H, outs: Seq<(String, String)>, format: PdfImageFormat, index: int) -> bool {
    &&& rendered(render, index as usize, outs[index].0@, Ok(()))
    &&& exists|b: Vec<u8>| #[trigger] headed(read, outs[index].0@, Ok(b))
        && image_verdict(outs[index].0@, b@, format, Ok(()))
}

/// The page at `index` went through: no cancellation was seen before it, and
/// it was rendered and checked.
pub open spec fn page_done<
    C: Fn() -> bool,
    R: Fn(usize, &str) -> Result<(), RenderFailure>,
    H: Fn(&str) -> Result<Vec<u8>, String>,
>(cancelled: C, render: R, read: H, outs: Seq<(String, String)>, format: PdfImageFormat, index: int) -> bool {
    asked(cancelled, false) && page_rendered(render, read, outs, format, index)
}

/// The first `k` pages went through.
pub open spec fn pages_done<
    C: Fn() -> bool,
    R: Fn(usize, &str) -> Result<(), RenderFailure>,
    H: Fn(&str) -> Result<Vec<u8>, String>,
>(cancelled: C, render: R, read: H, outs: Seq<(String, String)>, format: PdfImageFormat, k: int) -> bool {
    forall|i: int| 0 <= i < k ==> #[trigger] page_done(cancelled, render, read, outs, format, i)
}

/// Rendering the page at `index` gave the error `e`: rendering it failed, it
/// could not be read back, or what was read back failed the checks.
pub open spec fn page_render_failed<
    R: Fn(usize, &str) -> Result<(), RenderFailure>,
    H: Fn(&str) -> Result<Vec<u8>, String>,
>(render: R, read: H, outs: Seq<(String, String)>, format: PdfImageFormat, index: int, e: Seq<char>) -> bool {
    exists|f: Result<(), RenderFailure>| #[trigger] rendered(render, index as usize, outs[index].0@, f) && match f {
        Err(x) => e == render_failure_message((index + 1) as nat, x),
        Ok(()) => exists|b: Result<Vec<u8>, String>| #[trigger] headed(read, outs[index].0@, b) && match b {
            Err(m) => e == "Rendered image could not be reopened: "@ + m@,
            Ok(bytes) => image_verdict(outs[index].0@, bytes@, format, Err(e)),
        },
    }
}

/// The page at `index` stopped the conversion with the error `e`, after no
/// cancellation was seen.
pub open spec fn page_failed<
    C: Fn() -> bool,
    R: Fn(usize, &str) -> Result<(), RenderFailure>,
    H: Fn(&str) -> Result<Vec<u8>, String>,
>(cancelled: C, render: R, read: H, outs: Seq<(String, String)>, format: PdfImageFormat, index: int, e: Seq<char>) -> bool {
    asked(cancelled, false) && page_render_failed(render, read, outs, format, index, e)
}

/// Page `k` failed with the error `e` after the pages before it went through.
pub open spec fn failed_at<
    C: Fn() -> bool,
    R: Fn(usize, &str) -> Result<(), RenderFailure>,
    H: Fn(&str) -> Result<Vec<u8>, String>,
>(cancelled: C, render: R, read: H, outs: Seq<(String, String)>, format: PdfImageFormat, e: Seq<char>) -> bool {
    exists|k: int| 0 <= k < outs.len() && #[trigger] page_failed(cancelled, render, read, outs, format, k, e)
        && pages_done(cancelled, render, read, outs, format, k)
}

/// A cancellation was seen before page `k`, after the pages before it went
/// through.
pub open spec fn cancelled_at<
    C: Fn() -> bool,
    R: Fn(usize, &str) -> Result<(), RenderFailure>,
    H: Fn(&str) -> Result<Vec<u8>, String>,
>(cancelled: C, render: R, read: H, outs: Seq<(String, String)>, format: PdfImageFormat) -> bool {
    asked(cancelled, true) && exists|k: int| 0 <= k < outs.len()
        && #[trigger] pages_done(cancelled, render, read, outs, format, k)
}

/// The outcome of rendering the pages in turn: all of them went through, or
/// a cancellation was seen, or a page failed, each time after the pages
/// before went through.
pub open spec fn render_outcome<
    C: Fn() -> bool,
    R: Fn(usize, &str) -> Result<(), RenderFailure>,
    H: Fn(&str) -> Result<Vec<u8>, String>,
>(
    cancelled: C,
    render: R,
    read: H,
    outs: Seq<(String, String)>,
    format: PdfImageFormat,
    r: Result<ExecutionOutcome, String>,
) -> bool {
    match r {
        Ok(ExecutionOutcome::Completed) => pages_done(cancelled, render, read, outs, format, outs.len() as int),
        Ok(ExecutionOutcome::Cancelled) => cancelled_at(cancelled, render, read, outs, format),
        Err(e) => failed_at(cancelled, render, read, outs, format, e@),
    }
}

/// Every staged page file was discarded.
pub open spec fn staged_discarded<X: Fn(&str)>(discard: X, outs: Seq<(String, String)>) -> bool {
    forall|i: int| 0 <= i < outs.len() ==> #[trigger] discarded(discard, outs[i].0@)
}

/// A conversion that did not complete has discarded every staged page; one
/// that completed has reported the progress after each page and 100.
pub open spec fn pages_cleanup<X: Fn(&str), G: Fn(u8)>(
    discard: X,
    report: G,
    outs: Seq<(String, String)>,
    r: Result<ExecutionOutcome, String>,
) -> bool {
    &&& r != Ok::<ExecutionOutcome, String>(ExecutionOutcome::Completed) ==> staged_discarded(discard, outs)
    &&& r == Ok::<ExecutionOutcome, String>(ExecutionOutcome::Completed) ==> reported(report, 100)
        && forall|i: int| 0 <= i < outs.len() ==> #[trigger] reported(report, (((i + 1) * 95) / outs.len() as int) as u8)
}

fn discard_staged<X: Fn(&str)>(outs: &Vec<(String, String)>, discard: &X)
    requires
        forall|p: &str| discard.requires((p,)),
    ensures
        staged_discarded(*discard, outs@),
{
    let mut i: usize = 0;
    while i < outs.len()
        invariant
            i <= outs.len(),
            forall|p: &str| discard.requires((p,)),
            forall|j: int| 0 <= j < i ==> #[trigger] discarded(*discard, outs@[j].0@),
        decreases outs.len() - i,
    {
        discard(outs[i].0.as_str());
        assert(discarded(*discard, outs@[i as int].0@));
        i = i + 1;
    }
}

fn page_message(page: usize, middle: &str, detail: &str) -> (r: String)
    ensures
        r@ == "PDF page "@ + decimal(page as nat) + middle@ + detail@,
{
    let number = crate::text::decimal_string(page as u64);
    let mut s = concat2("PDF page ", number.as_str());
    s.append(middle);
    s.append(detail);
    s
}

/// Renders the page at `index` into its staged file, reads it back and checks
/// it. A failed save and a failed check discard the staged files.
fn render_page<
    R: Fn(usize, &str) -> Result<(), RenderFailure>,
    H: Fn(&str) -> Result<Vec<u8>, String>,
    X: Fn(&str),
>(
    outs: &Vec<(String, String)>,
    index: usize,
    format: PdfImageFormat,
    render: &R,
    read: &H,
    discard: &X,
) -> (r: Result<(), String>)
    requires
        index < outs.len(),
        forall|i: usize, p: &str| render.requires((i, p)),
        forall|p: &str| read.requires((p,)),
        forall|p: &str| discard.requires((p,)),
    ensures
        match r {
            Ok(()) => page_rendered(*render, *read, outs@, format, index as int),
            Err(e) => page_render_failed(*render, *read, outs@, format, index as int, e@)
                && staged_discarded(*discard, outs@),
        },
{
    let staged = outs[index].0.as_str();
    let f = render(index, staged);
    assert(rendered(*render, (index as int) as usize, outs@[index as int].0@, f));
    match &f {
        Err(x) => {
            discard_staged(outs, discard);
            let e = match x {
                RenderFailure::Render(m) => page_message(index + 1, " could not be rendered: ", m.as_str()),
                RenderFailure::Bitmap(m) => page_message(index + 1, " bitmap is invalid: ", m.as_str()),
                RenderFailure::Save(m) => page_message(index + 1, " could not be saved: ", m.as_str()),
            };
            assert(e@ == render_failure_message((index + 1) as nat, *x));
            return Err(e);
        },
        Ok(u) => {
            assert(f == Ok::<(), RenderFailure>(*u));
        },
    }
    assert(rendered(*render, (index as int) as usize, outs@[index as int].0@, Ok(())));
    let h = read(staged);
    assert(headed(*read, outs@[index as int].0@, h));
    let ghost read_back = h;
    let bytes = match h {
        Err(m) => {
            discard_staged(outs, discard);
            return Err(concat2("Rendered image could not be reopened: ", m.as_str()));
        },
        Ok(b) => b,
    };
    if let Err(e) = validate_image(staged, bytes.as_slice(), format) {
        discard_staged(outs, discard);
        return Err(e);
    }
    assert(read_back == Ok::<Vec<u8>, String>(bytes));
    assert(headed(*read, outs@[index as int].0@, Ok(bytes)));
    Ok(())
}

/// Renders each page into its staged file in turn, reads it back and checks
/// it, reporting progress up to 95; stops at a cancellation or at the first
/// failure. A cancellation, a failed save and a failed check discard the
/// staged files.
pub fn render_pages<
    C: Fn() -> bool,
    R: Fn(usize, &str) -> Result<(), RenderFailure>,
    H: Fn(&str) -> Result<Vec<u8>, String>,
    X: Fn(&str),
    G: Fn(u8),
>(
    outs: &Vec<(String, String)>,
    format: PdfImageFormat,
    cancelled: &C,
    render: &R,
    read: &H,
    discard: &X,
    report: &G,
) -> (r: Result<ExecutionOutcome, String>)
    requires
        cancelled.requires(()),
        forall|i: usize, p: &str| render.requires((i, p)),
        forall|p: &str| read.requires((p,)),
        forall|p: &str| discard.requires((p,)),
        forall|n: u8| report.requires((n,)),
    ensures
        render_outcome(*cancelled, *render, *read, outs@, format, r),
        r != Ok::<ExecutionOutcome, String>(ExecutionOutcome::Completed) ==> staged_discarded(*discard, outs@),
        r == Ok::<ExecutionOutcome, String>(ExecutionOutcome::Completed) ==> forall|i: int| 0 <= i < outs@.len()
            ==> #[trigger] reported(*report, (((i + 1) * 95) / outs@.len() as int) as u8),
{
    let n = outs.len();
    let mut index: usize = 0;
    while index < n
        invariant
            index <= n,
            n == outs.len(),
            cancelled.requires(()),
            forall|i: usize, p: &str| render.requires((i, p)),
            forall|p: &str| read.requires((p,)),
            forall|p: &str| discard.requires((p,)),
            forall|k: u8| report.requires((k,)),
            pages_done(*cancelled, *render, *read, outs@, format, index as int),
            forall|j: int| 0 <= j < index ==> #[trigger] reported(*report, (((j + 1) * 95) / n as int) as u8),
        decreases n - index,
    {
        let k = cancelled();
        if k {
            discard_staged(outs, discard);
            assert(pages_done(*cancelled, *render, *read, outs@, format, index as int));
            assert(cancelled_at(*cancelled, *render, *read, outs@, format));
            return Ok(ExecutionOutcome::Cancelled);
        }
        let step = render_page(outs, index, format, render, read, discard);
        if let Err(e) = step {
            assert(page_failed(*cancelled, *render, *read, outs@, format, index as int, e@));
            assert(pages_done(*cancelled, *render, *read, outs@, format, index as int));
            assert(failed_at(*cancelled, *render, *read, outs@, format, e@));
            return Err(e);
        }
        assert(page_done(*cancelled, *render, *read, outs@, format, index as int));
        let progress = render_progress(index + 1, n);
        report(progress);
        assert(reported(*report, progress));
        assert forall|j: int| 0 <= j < index + 1 implies #[trigger] reported(*report, (((j + 1) * 95) / n as int) as u8)
            by {
            if j == index {
                assert(progress == (((j + 1) * 95) / n as int) as u8);
            }
        }
        assert(pages_done(*cancelled, *render, *read, outs@, format, index + 1)) by {
            assert forall|i: int| 0 <= i < index + 1 implies #[trigger] page_done(*cancelled, *render, *read, outs@,
                format, i) by {
                if i < index {
                    assert(page_done(*cancelled, *render, *read, outs@, format, i));
                }
            }
        }
        index = index + 1;
    }
    Ok(ExecutionOutcome::Completed)
}

/// The page at `index` was moved from its staged file to its final name.
pub open spec fn page_moved<P: Fn(&str, &str) -> Result<(), String>>(publish: P, outs: Seq<(String, String)>, index: int) -> bool {
    published(publish, outs[index].0@, outs[index].1@, Ok(()))
}

/// The first `k` pages were moved to their final names.
pub open spec fn pages_moved<P: Fn(&str, &str) -> Result<(), String>>(publish: P, outs: Seq<(String, String)>, k: int) -> bool {
    forall|i: int| 0 <= i < k ==> #[trigger] page_moved(publish, outs, i)
}

/// The error reported when moving a page to its final name failed with `m`.
pub open spec fn finalize_failure(m: Seq<char>) -> Seq<char> {
    "Rendered images could not be finalized: "@ + m
        + ". Existing files were preserved; retry to create an incremented filename, choose another output folder, or cancel the job."@
}

/// The outcome of moving the pages to their final names in turn: all moved,
/// or moving page `k` failed after the pages before it moved.
pub open spec fn finalize_outcome<P: Fn(&str, &str) -> Result<(), String>, X: Fn(&str)>(
    publish: P,
    discard: X,
    outs: Seq<(String, String)>,
    r: Result<(), String>,
) -> bool {
    match r {
        Ok(()) => pages_moved(publish, outs, outs.len() as int),
        Err(e) => exists|k: int, m: String| 0 <= k < outs.len()
            && #[trigger] published(publish, outs[k].0@, outs[k].1@, Err(m)) && pages_moved(publish, outs, k)
            && pages_removed(discard, outs, k) && e@ == finalize_failure(m@),
    }
}

/// The pages `outs[0..k]`, already moved to their final names, were removed
/// again.
pub open spec fn pages_removed<X: Fn(&str)>(discard: X, outs: Seq<(String, String)>, k: int) -> bool {
    forall|i: int| 0 <= i < k ==> #[trigger] discarded(discard, outs[i].1@)
}

fn finalize_message(m: &str) -> (r: String)
    ensures
        r@ == finalize_failure(m@),
{
    let mut s = concat2("Rendered images could not be finalized: ", m);
    s.append(
        ". Existing files were preserved; retry to create an incremented filename, choose another output folder, or cancel the job.",
    );
    s
}

/// Moves each staged page to its final name in turn. When a move fails, the
/// pages already moved are removed again and the staged files discarded.
pub fn finalize_pages<P: Fn(&str, &str) -> Result<(), String>, X: Fn(&str)>(
    outs: &Vec<(String, String)>,
    publish: &P,
    discard: &X,
) -> (r: Result<(), String>)
    requires
        forall|a: &str, b: &str| publish.requires((a, b)),
        forall|p: &str| discard.requires((p,)),
    ensures
        finalize_outcome(*publish, *discard, outs@, r),
        r is Err ==> staged_discarded(*discard, outs@),
{
    let n = outs.len();
    let mut index: usize = 0;
    while index < n
        invariant
            index <= n,
            n == outs.len(),
            forall|a: &str, b: &str| publish.requires((a, b)),
            forall|p: &str| discard.requires((p,)),
            pages_moved(*publish, outs@, index as int),
        decreases n - index,
    {
        let p = publish(outs[index].0.as_str(), outs[index].1.as_str());
        assert(published(*publish, outs@[index as int].0@, outs@[index as int].1@, p));
        let ghost moved = p;
        match p {
            Err(m) => {
                let mut j: usize = 0;
                while j < index
                    invariant
                        j <= index,
                        index < outs.len(),
                        forall|q: &str| discard.requires((q,)),
                        pages_removed(*discard, outs@, j as int),
                    decreases index - j,
                {
                    discard(outs[j].1.as_str());
                    assert(discarded(*discard, outs@[j as int].1@));
                    j = j + 1;
                }
                discard_staged(outs, discard);
                let e = finalize_message(m.as_str());
                assert(moved == Err::<(), String>(m));
                assert(published(*publish, outs@[index as int].0@, outs@[index as int].1@, Err(m)));
                return Err(e);
            },
            Ok(u) => {
                assert(moved == Ok::<(), String>(u));
            },
        }
        assert(page_moved(*publish, outs@, index as int));
        assert(pages_moved(*publish, outs@, index + 1)) by {
            assert forall|i: int| 0 <= i < index + 1 implies #[trigger] page_moved(*publish, outs@, i) by {
                if i < index {
                    assert(page_moved(*publish, outs@, i));
                }
            }
        }
        index = index + 1;
    }
    Ok(())
}

/// The outcome once `outs` are planned for the pages: they are rendered and
/// checked; unless a cancellation is seen then, they are moved to their final
/// names.
pub open spec fn pages_outcome<
    C: Fn() -> bool,
    R: Fn(usize, &str) -> Result<(), RenderFailure>,
    H: Fn(&str) -> Result<Vec<u8>, String>,
    P: Fn(&str, &str) -> Result<(), String>,
    X: Fn(&str),
    G: Fn(u8),
>(
    cancelled: C,
    render: R,
    read: H,
    publish: P,
    discard: X,
    report: G,
    outs: Seq<(String, String)>,
    format: PdfImageFormat,
    r: Result<ExecutionOutcome, String>,
) -> bool {
    &&& pages_cleanup(discard, report, outs, r)
    &&& exists|q: Result<ExecutionOutcome, String>| #[trigger] render_outcome(cancelled, render, read, outs, format, q)
        && if q == Ok::<ExecutionOutcome, String>(ExecutionOutcome::Completed) {
        exists|k: bool| #[trigger] asked(cancelled, k) && if k {
            r == Ok::<ExecutionOutcome, String>(ExecutionOutcome::Cancelled)
        } else {
            exists|f: Result<(), String>| #[trigger] finalize_outcome(publish, discard, outs, f) && match f {
                Ok(()) => r == Ok::<ExecutionOutcome, String>(ExecutionOutcome::Completed),
                Err(e) => r is Err && r->Err_0@ == e@,
            }
        }
    } else {
        r == q
    }
}

fn run_planned<
    C: Fn() -> bool,
    R: Fn(usize, &str) -> Result<(), RenderFailure>,
    H: Fn(&str) -> Result<Vec<u8>, String>,
    P: Fn(&str, &str) -> Result<(), String>,
    X: Fn(&str),
    G: Fn(u8),
>(
    outs: &Vec<(String, String)>,
    format: PdfImageFormat,
    cancelled: &C,
    render: &R,
    read: &H,
    publish: &P,
    discard: &X,
    report: &G,
) -> (r: Result<ExecutionOutcome, String>)
    requires
        cancelled.requires(()),
        forall|i: usize, p: &str| render.requires((i, p)),
        forall|p: &str| read.requires((p,)),
        forall|a: &str, b: &str| publish.requires((a, b)),
        forall|p: &str| discard.requires((p,)),
        forall|n: u8| report.requires((n,)),
    ensures
        pages_outcome(*cancelled, *render, *read, *publish, *discard, *report, outs@, format, r),
{
    let q = render_pages(outs, format, cancelled, render, read, discard, report);
    assert(render_outcome(*cancelled, *render, *read, outs@, format, q));
    match q {
        Ok(ExecutionOutcome::Completed) => {},
        _ => return q,
    }
    let k = cancelled();
    assert(asked(*cancelled, k));
    if k {
        discard_staged(outs, discard);
        return Ok(ExecutionOutcome::Cancelled);
    }
    let f = finalize_pages(outs, publish, discard);
    assert(finalize_outcome(*publish, *discard, outs@, f));
    match f {
        Err(e) => Err(e),
        Ok(()) => {
            report(100);
            assert(reported(*report, 100));
            Ok(ExecutionOutcome::Completed)
        },
    }
}

/// The outcome once the PDF is open with `page_count` pages: the outputs are
/// planned (or no free name is left for some page), then the pages rendered,
/// checked and moved.
pub open spec fn planned_outcome<
    E: Fn(&str) -> bool,
    C: Fn() -> bool,
    R: Fn(usize, &str) -> Result<(), RenderFailure>,
    H: Fn(&str) -> Result<Vec<u8>, String>,
    P: Fn(&str, &str) -> Result<(), String>,
    X: Fn(&str),
    G: Fn(u8),
>(
    probe: E,
    cancelled: C,
    render: R,
    read: H,
    publish: P,
    discard: X,
    report: G,
    input: Seq<char>,
    output_directory: Seq<char>,
    page_count: nat,
    format: PdfImageFormat,
    dpi: u16,
    job_id: Seq<char>,
    r: Result<ExecutionOutcome, String>,
) -> bool {
    match stem_of(input) {
        None => r is Err && r->Err_0@ == "PDF input filename is invalid"@,
        Some(stem) => {
            ||| r is Err && r->Err_0@ == names_exhausted() && exists|i: int| 0 <= i < page_count && #[trigger] all_files_taken(
                probe, output_directory, page_stem(stem, (i + 1) as nat, page_count, format, dpi),
                pdf_image_extension(format), Seq::empty())
            ||| exists|outs: Seq<(String, String)>| outs.len() == page_count
                && pages_planned(probe, output_directory, stem, job_id, page_count, format, dpi, outs)
                && #[trigger] pages_outcome(cancelled, render, read, publish, discard, report, outs, format, r)
        },
    }
}

/// Renders every page of a PDF to an image file. The request is checked
/// again against what is on disk now, and `pdfium_is_file` tells whether the
/// PDFium library is there. `open` opens the PDF and gives its page count;
/// each page is rendered by `render` into a hidden staged file beside the
/// outputs, read back by `read` and checked; then the staged files are moved
/// by `publish` to the first free names. `exists` tells whether a path is
/// taken, `cancelled` whether the job was cancelled, `discard` removes a file
/// and `report` reports progress.
/// None of the closures is needed, and so none is called, before the request
/// has passed its checks (and the engine is there).
pub fn convert<
    O: Fn() -> Result<usize, String>,
    E: Fn(&str) -> bool,
    C: Fn() -> bool,
    R: Fn(usize, &str) -> Result<(), RenderFailure>,
    H: Fn(&str) -> Result<Vec<u8>, String>,
    P: Fn(&str, &str) -> Result<(), String>,
    X: Fn(&str),
    G: Fn(u8),
>(
    input_path: &str,
    output_directory: &str,
    format: PdfImageFormat,
    dpi: u16,
    job_id: &str,
    input_kind: PathKind,
    directory_kind: PathKind,
    pdfium_is_file: bool,
    open: &O,
    exists: &E,
    cancelled: &C,
    render: &R,
    read: &H,
    publish: &P,
    discard: &X,
    report: &G,
) -> (r: Result<ExecutionOutcome, String>)
    requires
        pdf_image_request_check(input_path@, output_directory@, dpi, input_kind, directory_kind) is Ok
            && pdfium_is_file ==> {
            &&& open.requires(())
            &&& forall|p: &str| exists.requires((p,))
            &&& cancelled.requires(())
            &&& forall|i: usize, p: &str| render.requires((i, p))
            &&& forall|p: &str| read.requires((p,))
            &&& forall|a: &str, b: &str| publish.requires((a, b))
            &&& forall|p: &str| discard.requires((p,))
            &&& forall|n: u8| report.requires((n,))
        },
    ensures
        match pdf_image_request_check(input_path@, output_directory@, dpi, input_kind, directory_kind) {
            Err(e) => r is Err && r->Err_0@ == e,
            Ok(()) => if !pdfium_is_file {
                r is Err && r->Err_0@ == "The bundled PDFium library could not be found"@
            } else {
                exists|o: Result<usize, String>| #[trigger] opened(*open, o) && match o {
                    Err(m) => r is Err && r->Err_0@ == m@,
                    Ok(n) => if n == 0 {
                        r is Err && r->Err_0@ == "The PDF contains no pages"@
                    } else {
                        planned_outcome(*exists, *cancelled, *render, *read, *publish, *discard, *report, input_path@, output_directory@,
                            n as nat, format, dpi, job_id@, r)
                    },
                }
            },
        },
{
    validate_request(input_path, output_directory, format, dpi, input_kind, directory_kind)?;
    if !pdfium_is_file {
        return Err("The bundled PDFium library could not be found".to_owned());
    }
    let o = open();
    assert(opened(*open, o));
    let n = match o {
        Err(m) => return Err(m),
        Ok(n) => n,
    };
    if n == 0 {
        return Err("The PDF contains no pages".to_owned());
    }
    let outs = match output_paths(input_path, output_directory, n, format, dpi, job_id, exists) {
        Err(e) => return Err(e),
        Ok(outs) => outs,
    };
    let r = run_planned(&outs, format, cancelled, render, read, publish, discard, report);
    assert(pages_outcome(*cancelled, *render, *read, *publish, *discard, *report, outs@, format, r));
    r
}


/// A conversion that completed rendered and checked every page before it
/// moved any, and then moved every page to its final name: the output set is
/// published only whole.
pub proof fn law_page_images_published_only_when_all_checked<
    C: Fn() -> bool,
    R: Fn(usize, &str) -> Result<(), RenderFailure>,
    H: Fn(&str) -> Result<Vec<u8>, String>,
    P: Fn(&str, &str) -> Result<(), String>,
    X: Fn(&str),
    G: Fn(u8),
>(
    cancelled: C,
    render: R,
    read: H,
    publish: P,
    discard: X,
    report: G,
    outs: Seq<(String, String)>,
    format: PdfImageFormat,
)
    requires
        pages_outcome(cancelled, render, read, publish, discard, report, outs, format,
            Ok::<ExecutionOutcome, String>(ExecutionOutcome::Completed)),
    ensures
        pages_done(cancelled, render, read, outs, format, outs.len() as int),
        pages_moved(publish, outs, outs.len() as int),
{
}

} // verus!
