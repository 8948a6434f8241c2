//! Images to PDF: request checks and staging names.

use vstd::prelude::*;
use crate::application::engine_run::{asked, discarded, headed, paged, published, reported};
use crate::domain::job::ExecutionOutcome;
use crate::paths::{
    PathKind, ext_is, has_ext, is_absolute, is_absolute_path, kind_exists, parent,
    parent_dir_ok, staged_beside, staged_path_beside,
};
use crate::text::{check_view, concat2, text_result_view};

verus! {

/// JPG, PNG, WebP and TIFF images are accepted.
pub open spec fn image_supported(path: Seq<char>) -> bool {
    ||| ext_is(path, "jpg"@)
    ||| ext_is(path, "jpeg"@)
    ||| ext_is(path, "png"@)
    ||| ext_is(path, "webp"@)
    ||| ext_is(path, "tif"@)
    ||| ext_is(path, "tiff"@)
}

pub fn is_supported_input(path: &str) -> (r: bool)
    ensures
        r == image_supported(path@),
{
    has_ext(path, "jpg") || has_ext(path, "jpeg") || has_ext(path, "png") || has_ext(path, "webp")
        || has_ext(path, "tif") || has_ext(path, "tiff")
}

/// What was found at the `i`-th input; inputs beyond the probed ones count as missing.
pub open spec fn kind_at(kinds: Seq<PathKind>, i: int) -> PathKind {
    if 0 <= i < kinds.len() { kinds[i] } else { PathKind::Missing }
}

/// The first problem among the inputs from the `i`-th on.
pub open spec fn image_inputs_check(paths: Seq<Seq<char>>, kinds: Seq<PathKind>, i: int) -> Result<(), Seq<char>>
    decreases paths.len() - i,
{
    if i < 0 || i >= paths.len() {
        Ok(())
    } else if !is_absolute_path(paths[i]) || kind_at(kinds, i) != PathKind::File {
        Err("Image input does not exist: "@ + paths[i])
    } else if !image_supported(paths[i]) {
        Err("Unsupported image format: "@ + paths[i])
    } else {
        image_inputs_check(paths, kinds, i + 1)
    }
}

/// The verdict on a request to combine images into one PDF.
pub open spec fn image_request_check(
    inputs: Seq<Seq<char>>,
    input_kinds: Seq<PathKind>,
    output: Seq<char>,
    output_kind: PathKind,
    parent_kind: PathKind,
) -> Result<(), Seq<char>> {
    if inputs.len() == 0 {
        Err("At least one image is required"@)
    } else if image_inputs_check(inputs, input_kinds, 0) is Err {
        image_inputs_check(inputs, input_kinds, 0)
    } else if !is_absolute_path(output) {
        Err("PDF output path must be absolute"@)
    } else if kind_exists(output_kind) {
        Err("The PDF output file already exists"@)
    } else if !ext_is(output, "pdf"@) {
        Err("The output file must use the .pdf extension"@)
    } else if !parent_dir_ok(output, parent_kind) {
        Err("The PDF output directory does not exist"@)
    } else {
        Ok(())
    }
}

/// Checks an images-to-PDF request. `input_kinds[i]` describes `input_paths[i]`
/// and `parent_kind` the parent of the output.
pub fn validate_request(
    input_paths: &Vec<String>,
    input_kinds: &Vec<PathKind>,
    output_path: &str,
    output_kind: PathKind,
    parent_kind: PathKind,
) -> (r: Result<(), String>)
    ensures
        check_view(r) == image_request_check(
            crate::text::views(input_paths@),
            input_kinds@,
            output_path@,
            output_kind,
            parent_kind,
        ),
{
    let ghost paths = crate::text::views(input_paths@);
    if input_paths.len() == 0 {
        return Err("At least one image is required".to_owned());
    }
    let mut i: usize = 0;
    while i < input_paths.len()
        invariant
            i <= input_paths.len(),
            paths == crate::text::views(input_paths@),
            image_inputs_check(paths, input_kinds@, 0) == image_inputs_check(paths, input_kinds@, i as int),
        decreases input_paths.len() - i,
    {
        let path = input_paths[i].as_str();
        let kind = if i < input_kinds.len() { input_kinds[i] } else { PathKind::Missing };
        assert(paths[i as int] == path@);
        if !is_absolute(path) || kind != PathKind::File {
            return Err(concat2("Image input does not exist: ", path));
        }
        if !is_supported_input(path) {
            return Err(concat2("Unsupported image format: ", path));
        }
        i = i + 1;
    }
    if !is_absolute(output_path) {
        return Err("PDF output path must be absolute".to_owned());
    }
    if output_kind != PathKind::Missing {
        return Err("The PDF output file already exists".to_owned());
    }
    if !has_ext(output_path, "pdf") {
        return Err("The output file must use the .pdf extension".to_owned());
    }
    if parent(output_path).is_none() || parent_kind != PathKind::Directory {
        return Err("The PDF output directory does not exist".to_owned());
    }
    Ok(())
}

/// The staging path of the PDF being assembled.
pub fn staged_output_path(output: &str, job_id: &str) -> (r: Result<String, String>)
    ensures
        text_result_view(r) == staged_beside(
            output@,
            job_id@,
            "pdf"@,
            "PDF output directory is unavailable"@,
            "PDF output filename is invalid"@,
        ),
{
    staged_path_beside(output, job_id, "pdf", "PDF output directory is unavailable", "PDF output filename is invalid")
}

/// The outcome reported when a cancellation request has or has not been seen.
pub fn cancellation_outcome(cancelled: bool) -> (r: ExecutionOutcome)
    ensures
        r == (if cancelled { ExecutionOutcome::Cancelled } else { ExecutionOutcome::Completed }),
{
    if cancelled {
        ExecutionOutcome::Cancelled
    } else {
        ExecutionOutcome::Completed
    }
}

} // verus!

verus! {

/// The verdict on the assembled PDF, given its page count as qpdf reported it:
/// one page per image.
pub open spec fn assembled_pages_check(count: Result<u32, Seq<char>>, images: nat) -> Result<(), Seq<char>> {
    match count {
        Err(e) => Err("Generated PDF validation failed: "@ + e),
        Ok(c) => if c as nat != images { Err("Generated PDF contains an unexpected number of pages"@) } else { Ok(()) },
    }
}

pub fn check_generated_pages(count: Result<u32, String>, images: usize) -> (r: Result<(), String>)
    ensures
        check_view(r) == assembled_pages_check(match count {
            Ok(c) => Ok(c),
            Err(e) => Err(e@),
        }, images as nat),
{
    match count {
        Err(e) => Err(concat2("Generated PDF validation failed: ", e.as_str())),
        Ok(c) => if c as usize != images {
            Err("Generated PDF contains an unexpected number of pages".to_owned())
        } else {
            Ok(())
        },
    }
}

/// The progress reported once `done` of `total` images are placed: up to 85.
pub fn placement_progress(done: usize, total: usize) -> (p: u8)
    requires
        0 < total,
        done <= total,
    ensures
        p as int == (done as int * 85) / (total as int),
{
    let d = done as u128;
    let t = total as u128;
    assert(d * 85 <= t * 85) by (nonlinear_arith)
        requires
            d <= t,
    ;
    let q: u128 = (d * 85) / t;
    assert(q <= 85) by (nonlinear_arith)
        requires
            d <= t,
            t > 0,
            q == (d * 85) / (t as int),
    ;
    q as u8
}

} // verus!

verus! {

/// printpdf's decoded image, carried opaque from the decoder to the page.
#[verifier::external_type_specification]
#[verifier::external_body]
pub struct ExRawImage(printpdf::RawImage);

/// What printpdf's decoder makes of `bytes`: the width and height of the
/// image in pixels, or its error.
pub uninterp spec fn printpdf_decoded(bytes: Seq<u8>) -> Result<(usize, usize), Seq<char>>;

/// Decodes an image with `printpdf::RawImage::decode_from_bytes`, which
/// detects the format from the bytes. The contract ties the decoded width and
/// height, or the error, to `printpdf_decoded` of the bytes; the decoder's
/// warnings are dropped.
#[verifier::external_body]
fn decode_raw_image(bytes: &[u8]) -> (r: Result<(printpdf::RawImage, usize, usize), String>)
    ensures
        printpdf_decoded(bytes@) == match r {
            Ok(t) => Ok((t.1, t.2)),
            Err(e) => Err(e@),
        },
{
    let mut warnings = Vec::new();
    match printpdf::RawImage::decode_from_bytes(bytes, &mut warnings) {
        Ok(image) => {
            let (width, height) = (image.width, image.height);
            Ok((image, width, height))
        },
        Err(error) => Err(error),
    }
}

/// `save` gave `r` when asked to write the assembled PDF to `path`.
pub open spec fn stored<S: Fn(&str) -> Result<(), String>>(save: S, path: Seq<char>, r: Result<(), String>) -> bool {
    exists|p: &str| p@ == path && #[trigger] save.ensures((p,), r)
}

/// The image at `index` was placed: no cancellation was seen before it, it was
/// read and decoded, and it has pixels.
pub open spec fn image_placed<C: Fn() -> bool, H: Fn(&str) -> Result<Vec<u8>, String>>(
    cancelled: C,
    read: H,
    paths: Seq<String>,
    index: int,
) -> bool {
    &&& asked(cancelled, false)
    &&& exists|b: Vec<u8>| #[trigger] headed(read, paths[index]@, Ok(b)) && match printpdf_decoded(b@) {
        Ok(d) => d.0 > 0 && d.1 > 0,
        Err(_) => false,
    }
}

/// The first `k` images were placed.
pub open spec fn images_placed<C: Fn() -> bool, H: Fn(&str) -> Result<Vec<u8>, String>>(
    cancelled: C,
    read: H,
    paths: Seq<String>,
    k: int,
) -> bool {
    forall|i: int| 0 <= i < k ==> #[trigger] image_placed(cancelled, read, paths, i)
}

/// The image at `path` read as `b` could not be placed, with the error `e`.
pub open spec fn image_rejected(path: Seq<char>, b: Result<Vec<u8>, String>, e: Seq<char>) -> bool {
    match b {
        Err(m) => e == "Image could not be read ("@ + path + "): "@ + m@,
        Ok(bytes) => match printpdf_decoded(bytes@) {
            Err(m) => e == "Image could not be decoded ("@ + path + "): "@ + m,
            Ok(d) => (d.0 == 0 || d.1 == 0) && e == "Image has invalid dimensions: "@ + path,
        },
    }
}

/// The image at `index` stopped the assembly with the error `e`, after no
/// cancellation was seen.
pub open spec fn image_failed<C: Fn() -> bool, H: Fn(&str) -> Result<Vec<u8>, String>>(
    cancelled: C,
    read: H,
    paths: Seq<String>,
    index: int,
    e: Seq<char>,
) -> bool {
    &&& asked(cancelled, false)
    &&& exists|b: Result<Vec<u8>, String>| #[trigger] headed(read, paths[index]@, b) && image_rejected(paths[index]@, b, e)
}

/// Image `k` failed with the error `e` after the images before it were placed.
pub open spec fn image_failed_at<C: Fn() -> bool, H: Fn(&str) -> Result<Vec<u8>, String>>(
    cancelled: C,
    read: H,
    paths: Seq<String>,
    e: Seq<char>,
) -> bool {
    exists|k: int| 0 <= k < paths.len() && #[trigger] image_failed(cancelled, read, paths, k, e)
        && images_placed(cancelled, read, paths, k)
}

/// A cancellation was seen after the first `k` images were placed.
pub open spec fn assembly_cancelled<C: Fn() -> bool, H: Fn(&str) -> Result<Vec<u8>, String>>(
    cancelled: C,
    read: H,
    paths: Seq<String>,
) -> bool {
    asked(cancelled, true) && exists|k: int| 0 <= k <= paths.len() && #[trigger] images_placed(cancelled, read, paths, k)
}

/// The image decoded from `bytes` has pixels, and `place` was called for
/// the page at `index` with it and its width and height.
pub open spec fn decoded_and_placed<L: Fn(usize, &printpdf::RawImage, usize, usize)>(
    place: L,
    index: int,
    bytes: Seq<u8>,
) -> bool {
    match printpdf_decoded(bytes) {
        Ok(d) => d.0 > 0 && d.1 > 0 && exists|m: &printpdf::RawImage, u: ()| #[trigger] place.ensures(
            (index as usize, m, d.0, d.1),
            u,
        ),
        Err(_) => false,
    }
}

/// `place` was called for the page at `index` with the image decoded from what
/// was read of the input at that index, and its width and height.
pub open spec fn placed<H: Fn(&str) -> Result<Vec<u8>, String>, L: Fn(usize, &printpdf::RawImage, usize, usize)>(
    read: H,
    place: L,
    paths: Seq<String>,
    index: int,
) -> bool {
    exists|b: Vec<u8>| #[trigger] headed(read, paths[index]@, Ok(b)) && decoded_and_placed(place, index, b@)
}

/// The image at `index` of `total` was laid out on a page of its own and the
/// progress of the placements so far, up to 85, was reported.
pub open spec fn image_laid_out<
    H: Fn(&str) -> Result<Vec<u8>, String>,
    L: Fn(usize, &printpdf::RawImage, usize, usize),
    G: Fn(u8),
>(read: H, place: L, report: G, paths: Seq<String>, index: int) -> bool {
    placed(read, place, paths, index) && reported(report, (((index + 1) * 85) / paths.len() as int) as u8)
}

/// The error reported when the assembled PDF could not be written.
pub open spec fn staging_failure(m: Seq<char>) -> Seq<char> {
    "PDF output could not be staged: "@ + m
}

/// The outcome of assembling one page per image and writing the PDF to
/// `staged`: every image placed and the PDF written, or a cancellation seen,
/// or an image that could not be placed, or a failed write.
pub open spec fn assembly_outcome<
    C: Fn() -> bool,
    H: Fn(&str) -> Result<Vec<u8>, String>,
    L: Fn(usize, &printpdf::RawImage, usize, usize),
    S: Fn(&str) -> Result<(), String>,
    G: Fn(u8),
>(
    cancelled: C,
    read: H,
    place: L,
    save: S,
    report: G,
    paths: Seq<String>,
    staged: Seq<char>,
    r: Result<ExecutionOutcome, String>,
) -> bool {
    match r {
        Ok(ExecutionOutcome::Completed) => images_placed(cancelled, read, paths, paths.len() as int)
            && (forall|i: int| 0 <= i < paths.len() ==> #[trigger] image_laid_out(read, place, report, paths, i))
            && asked(cancelled, false) && stored(save, staged, Ok(())) && reported(report, 90),
        Ok(ExecutionOutcome::Cancelled) => assembly_cancelled(cancelled, read, paths),
        Err(e) => image_failed_at(cancelled, read, paths, e@) || (images_placed(cancelled, read, paths,
            paths.len() as int) && asked(cancelled, false) && exists|m: String| #[trigger] stored(save, staged, Err(m))
            && e@ == staging_failure(m@)),
    }
}

fn image_message(prefix: &str, path: &str, suffix: &str, detail: &str) -> (r: String)
    ensures
        r@ == prefix@ + path@ + suffix@ + detail@,
{
    let mut s = concat2(prefix, path);
    s.append(suffix);
    s.append(detail);
    s
}

/// Reads and decodes the image at `path` and places it on a page of its own.
fn place_image<H: Fn(&str) -> Result<Vec<u8>, String>, L: Fn(usize, &printpdf::RawImage, usize, usize)>(
    path: &str,
    index: usize,
    read: &H,
    place: &L,
) -> (r: Result<(), String>)
    requires
        forall|p: &str| read.requires((p,)),
        forall|i: usize, m: &printpdf::RawImage, w: usize, h: usize| place.requires((i, m, w, h)),
    ensures
        match r {
            Ok(()) => exists|b: Vec<u8>| #[trigger] headed(*read, path@, Ok(b)) && decoded_and_placed(*place,
                index as int, b@),
            Err(e) => exists|b: Result<Vec<u8>, String>| #[trigger] headed(*read, path@, b) && image_rejected(path@, b, e@),
        },
{
    let h = read(path);
    assert(headed(*read, path@, h));
    let ghost read_back = h;
    let bytes = match h {
        Err(m) => {
            let e = image_message("Image could not be read (", path, "): ", m.as_str());
            assert(image_rejected(path@, read_back, e@));
            return Err(e);
        },
        Ok(b) => b,
    };
    assert(read_back == Ok::<Vec<u8>, String>(bytes));
    let decoded = decode_raw_image(bytes.as_slice());
    let (image, width, height) = match decoded {
        Err(m) => {
            let e = image_message("Image could not be decoded (", path, "): ", m.as_str());
            assert(image_rejected(path@, read_back, e@));
            return Err(e);
        },
        Ok(t) => t,
    };
    if width == 0 || height == 0 {
        let e = concat2("Image has invalid dimensions: ", path);
        assert(image_rejected(path@, read_back, e@));
        return Err(e);
    }
    let u: () = place(index, &image, width, height);
    assert(place.ensures(((index as int) as usize, &image, width, height), u));
    assert(decoded_and_placed(*place, index as int, bytes@));
    Ok(())
}

/// Assembles one page per image, in order, and writes the PDF to `staged`:
/// before each image and before writing, a cancellation stops the assembly.
/// `read` reads an image, `place` lays it out on a page of its own, `save`
/// writes the document and `report` reports progress up to 90.
pub fn assemble_pdf<
    C: Fn() -> bool,
    H: Fn(&str) -> Result<Vec<u8>, String>,
    L: Fn(usize, &printpdf::RawImage, usize, usize),
    S: Fn(&str) -> Result<(), String>,
    G: Fn(u8),
>(
    input_paths: &Vec<String>,
    staged: &str,
    cancelled: &C,
    read: &H,
    place: &L,
    save: &S,
    report: &G,
) -> (r: Result<ExecutionOutcome, String>)
    requires
        cancelled.requires(()),
        forall|p: &str| read.requires((p,)),
        forall|i: usize, m: &printpdf::RawImage, w: usize, h: usize| place.requires((i, m, w, h)),
        forall|p: &str| save.requires((p,)),
        forall|n: u8| report.requires((n,)),
    ensures
        assembly_outcome(*cancelled, *read, *place, *save, *report, input_paths@, staged@, r),
{
    let n = input_paths.len();
    let mut index: usize = 0;
    while index < n
        invariant
            index <= n,
            n == input_paths.len(),
            cancelled.requires(()),
            forall|p: &str| read.requires((p,)),
            forall|i: usize, m: &printpdf::RawImage, w: usize, h: usize| place.requires((i, m, w, h)),
            forall|k: u8| report.requires((k,)),
            images_placed(*cancelled, *read, input_paths@, index as int),
            forall|i: int| 0 <= i < index ==> #[trigger] image_laid_out(*read, *place, *report, input_paths@, i),
        decreases n - index,
    {
        let k = cancelled();
        if k {
            assert(images_placed(*cancelled, *read, input_paths@, index as int));
            assert(assembly_cancelled(*cancelled, *read, input_paths@));
            return Ok(ExecutionOutcome::Cancelled);
        }
        let step = place_image(input_paths[index].as_str(), index, read, place);
        if let Err(e) = step {
            assert(image_failed(*cancelled, *read, input_paths@, index as int, e@));
            assert(image_failed_at(*cancelled, *read, input_paths@, e@));
            return Err(e);
        }
        assert(image_placed(*cancelled, *read, input_paths@, index as int));
        let progress = placement_progress(index + 1, n);
        report(progress);
        assert(reported(*report, progress));
        assert(input_paths@[index as int]@ == input_paths[index as int]@);
        assert(placed(*read, *place, input_paths@, index as int));
        assert(image_laid_out(*read, *place, *report, input_paths@, index as int));
        assert(images_placed(*cancelled, *read, input_paths@, index + 1)) by {
            assert forall|i: int| 0 <= i < index + 1 implies #[trigger] image_placed(*cancelled, *read, input_paths@, i) by {
                if i < index {
                    assert(image_placed(*cancelled, *read, input_paths@, i));
                }
            }
        }
        index = index + 1;
    }
    let k = cancelled();
    if cancellation_outcome(k) == ExecutionOutcome::Cancelled {
        assert(images_placed(*cancelled, *read, input_paths@, n as int));
        assert(assembly_cancelled(*cancelled, *read, input_paths@));
        return Ok(ExecutionOutcome::Cancelled);
    }
    let s = save(staged);
    assert(stored(*save, staged@, s));
    let ghost written = s;
    match s {
        Err(m) => {
            let e = concat2("PDF output could not be staged: ", m.as_str());
            assert(written == Err::<(), String>(m));
            assert(stored(*save, staged@, Err(m)));
            Err(e)
        },
        Ok(u) => {
            assert(written == Ok::<(), String>(u));
            report(90);
            assert(reported(*report, 90));
            Ok(ExecutionOutcome::Completed)
        },
    }
}

/// The outcome once the assembled PDF at `staged` is written: unless a
/// cancellation is seen, its pages are counted with qpdf, one per image, and
/// unless a cancellation is seen again, it is published as `output`.
pub open spec fn assembled_outcome<
    C: Fn() -> bool,
    Q: Fn(&str, &str) -> Result<u32, String>,
    P: Fn(&str, &str) -> Result<(), String>,
>(
    cancelled: C,
    count: Q,
    publish: P,
    qpdf: Seq<char>,
    staged: Seq<char>,
    output: Seq<char>,
    images: nat,
    r: Result<ExecutionOutcome, String>,
) -> bool {
    exists|k: bool| #[trigger] asked(cancelled, k) && if k {
        r == Ok::<ExecutionOutcome, String>(ExecutionOutcome::Cancelled)
    } else {
        exists|c: Result<u32, String>| #[trigger] paged(count, qpdf, staged, c) && match assembled_pages_check(match c {
            Ok(v) => Ok(v),
            Err(m) => Err(m@),
        }, images) {
            Err(e) => r is Err && r->Err_0@ == e,
            Ok(()) => exists|j: bool| #[trigger] asked(cancelled, j) && if j {
                r == Ok::<ExecutionOutcome, String>(ExecutionOutcome::Cancelled)
            } else {
                exists|p: Result<(), String>| #[trigger] published(publish, staged, output, p) && match p {
                    Err(m) => r is Err && r->Err_0@ == "PDF output could not be finalized: "@ + m@,
                    Ok(()) => r == Ok::<ExecutionOutcome, String>(ExecutionOutcome::Completed),
                }
            },
        }
    }
}

/// The outcome once the staging path `staged` is chosen: the PDF is
/// assembled there, then checked and published. A conversion that does not
/// complete has discarded the staged file; one that completes has reported
/// 100.
pub open spec fn images_outcome<
    C: Fn() -> bool,
    H: Fn(&str) -> Result<Vec<u8>, String>,
    L: Fn(usize, &printpdf::RawImage, usize, usize),
    S: Fn(&str) -> Result<(), String>,
    G: Fn(u8),
    Q: Fn(&str, &str) -> Result<u32, String>,
    P: Fn(&str, &str) -> Result<(), String>,
    X: Fn(&str),
>(
    cancelled: C,
    read: H,
    place: L,
    save: S,
    report: G,
    count: Q,
    publish: P,
    discard: X,
    qpdf: Seq<char>,
    paths: Seq<String>,
    staged: Seq<char>,
    output: Seq<char>,
    r: Result<ExecutionOutcome, String>,
) -> bool {
    &&& exists|a: Result<ExecutionOutcome, String>| #[trigger] assembly_outcome(cancelled, read, place, save, report,
        paths, staged, a) && if a == Ok::<ExecutionOutcome, String>(ExecutionOutcome::Completed) {
        assembled_outcome(cancelled, count, publish, qpdf, staged, output, paths.len(), r)
    } else {
        r == a
    }
    &&& r != Ok::<ExecutionOutcome, String>(ExecutionOutcome::Completed) ==> discarded(discard, staged)
    &&& r == Ok::<ExecutionOutcome, String>(ExecutionOutcome::Completed) ==> reported(report, 100)
}

fn check_and_publish<
    C: Fn() -> bool,
    Q: Fn(&str, &str) -> Result<u32, String>,
    P: Fn(&str, &str) -> Result<(), String>,
    X: Fn(&str),
    G: Fn(u8),
>(
    qpdf: &str,
    staged: &str,
    output: &str,
    images: usize,
    cancelled: &C,
    count: &Q,
    publish: &P,
    discard: &X,
    report: &G,
) -> (r: Result<ExecutionOutcome, String>)
    requires
        cancelled.requires(()),
        forall|q: &str, p: &str| count.requires((q, p)),
        forall|a: &str, b: &str| publish.requires((a, b)),
        forall|p: &str| discard.requires((p,)),
        forall|n: u8| report.requires((n,)),
    ensures
        assembled_outcome(*cancelled, *count, *publish, qpdf@, staged@, output@, images as nat, r),
        r == Ok::<ExecutionOutcome, String>(ExecutionOutcome::Completed) ==> reported(*report, 100),
{
    let k = cancelled();
    assert(asked(*cancelled, k));
    if k {
        discard(staged);
        return Ok(ExecutionOutcome::Cancelled);
    }
    let c = count(qpdf, staged);
    assert(paged(*count, qpdf@, staged@, c));
    if let Err(e) = check_generated_pages(c, images) {
        discard(staged);
        return Err(e);
    }
    let j = cancelled();
    assert(asked(*cancelled, j));
    if j {
        discard(staged);
        return Ok(ExecutionOutcome::Cancelled);
    }
    let p = publish(staged, output);
    assert(published(*publish, staged@, output@, p));
    if let Err(m) = p {
        discard(staged);
        return Err(concat2("PDF output could not be finalized: ", m.as_str()));
    }
    report(100);
    assert(reported(*report, 100));
    Ok(ExecutionOutcome::Completed)
}

/// Combines images into one PDF with a page per image. The request is checked
/// again against what is on disk now (`input_kinds[i]` describes
/// `input_paths[i]`). The PDF is assembled in a hidden staging file beside the
/// output, which qpdf must find to have one page per image before it is
/// published. `discard` removes a file, `cancelled` tells whether the job was
/// cancelled, `read` reads an image, `place` lays a decoded image out on a
/// page of its own (given its index, width and height), `save` writes the
/// assembled PDF, `count` reads its page
/// count, `publish` moves it and `report` reports progress.
/// None of the closures is needed, and so none is called, before the request
/// has passed its checks (and the engine is there).
pub fn convert<
    X: Fn(&str),
    C: Fn() -> bool,
    H: Fn(&str) -> Result<Vec<u8>, String>,
    L: Fn(usize, &printpdf::RawImage, usize, usize),
    S: Fn(&str) -> Result<(), String>,
    Q: Fn(&str, &str) -> Result<u32, String>,
    P: Fn(&str, &str) -> Result<(), String>,
    G: Fn(u8),
>(
    qpdf: &str,
    input_paths: &Vec<String>,
    input_kinds: &Vec<PathKind>,
    output_path: &str,
    output_kind: PathKind,
    parent_kind: PathKind,
    job_id: &str,
    discard: &X,
    cancelled: &C,
    read: &H,
    place: &L,
    save: &S,
    count: &Q,
    publish: &P,
    report: &G,
) -> (r: Result<ExecutionOutcome, String>)
    requires
        image_request_check(crate::text::views(input_paths@), input_kinds@, output_path@, output_kind,
            parent_kind) is Ok ==> {
            &&& forall|p: &str| discard.requires((p,))
            &&& cancelled.requires(())
            &&& forall|p: &str| read.requires((p,))
            &&& forall|i: usize, m: &printpdf::RawImage, w: usize, h: usize| place.requires((i, m, w, h))
            &&& forall|p: &str| save.requires((p,))
            &&& forall|q: &str, p: &str| count.requires((q, p))
            &&& forall|a: &str, b: &str| publish.requires((a, b))
            &&& forall|n: u8| report.requires((n,))
        },
    ensures
        match image_request_check(crate::text::views(input_paths@), input_kinds@, output_path@, output_kind, parent_kind) {
            Err(e) => r is Err && r->Err_0@ == e,
            Ok(()) => match staged_beside(output_path@, job_id@, "pdf"@, "PDF output directory is unavailable"@,
                "PDF output filename is invalid"@) {
                Err(e) => r is Err && r->Err_0@ == e,
                Ok(staged) => images_outcome(*cancelled, *read, *place, *save, *report, *count, *publish, *discard,
                    qpdf@, input_paths@, staged, output_path@, r),
            },
        },
{
    validate_request(input_paths, input_kinds, output_path, output_kind, parent_kind)?;
    let staged = staged_output_path(output_path, job_id)?;
    discard(staged.as_str());
    assert(discarded(*discard, staged@));
    let a = assemble_pdf(input_paths, staged.as_str(), cancelled, read, place, save, report);
    assert(assembly_outcome(*cancelled, *read, *place, *save, *report, input_paths@, staged@, a));
    match a {
        Ok(ExecutionOutcome::Completed) => {},
        _ => {
            discard(staged.as_str());
            return a;
        },
    }
    check_and_publish(qpdf, staged.as_str(), output_path, input_paths.len(), cancelled, count, publish, discard, report)
}


/// A conversion that completed placed every image, wrote the PDF, found with
/// qpdf that it has one page per image, and moved it to the output: nothing
/// unchecked is published.
pub proof fn law_images_publish_only_a_checked_pdf<
    C: Fn() -> bool,
    H: Fn(&str) -> Result<Vec<u8>, String>,
    L: Fn(usize, &printpdf::RawImage, usize, usize),
    S: Fn(&str) -> Result<(), String>,
    G: Fn(u8),
    Q: Fn(&str, &str) -> Result<u32, String>,
    P: Fn(&str, &str) -> Result<(), String>,
    X: Fn(&str),
>(
    cancelled: C,
    read: H,
    place: L,
    save: S,
    report: G,
    count: Q,
    publish: P,
    discard: X,
    qpdf: Seq<char>,
    paths: Seq<String>,
    staged: Seq<char>,
    output: Seq<char>,
)
    requires
        images_outcome(cancelled, read, place, save, report, count, publish, discard, qpdf, paths, staged, output,
            Ok::<ExecutionOutcome, String>(ExecutionOutcome::Completed)),
    ensures
        images_placed(cancelled, read, paths, paths.len() as int),
        forall|i: int| 0 <= i < paths.len() ==> #[trigger] placed(read, place, paths, i),
        stored(save, staged, Ok(())),
        exists|n: u32| #[trigger] paged(count, qpdf, staged, Ok(n)) && n == paths.len(),
        exists|p: Result<(), String>| #[trigger] published(publish, staged, output, p) && p is Ok,
{
    let a = choose|a: Result<ExecutionOutcome, String>| #[trigger] assembly_outcome(cancelled, read, place, save, report,
        paths, staged, a) && if a == Ok::<ExecutionOutcome, String>(ExecutionOutcome::Completed) {
        assembled_outcome(cancelled, count, publish, qpdf, staged, output, paths.len(),
            Ok::<ExecutionOutcome, String>(ExecutionOutcome::Completed))
    } else {
        Ok::<ExecutionOutcome, String>(ExecutionOutcome::Completed) == a
    };
    assert forall|i: int| 0 <= i < paths.len() implies #[trigger] placed(read, place, paths, i) by {
        assert(image_laid_out(read, place, report, paths, i));
    }
}

/// The A4 page an image is placed on, as width and height in millimetres:
/// landscape when the image is wider than it is tall, portrait otherwise.
pub fn a4_page_mm(width: usize, height: usize) -> (r: (u32, u32))
    ensures
        r == (if width > height { (297u32, 210u32) } else { (210u32, 297u32) }),
{
    if width > height {
        (297, 210)
    } else {
        (210, 297)
    }
}


/// An image input is supported exactly when its extension, in any ASCII case,
/// is one of jpg, jpeg, png, webp, tif and tiff.
pub proof fn law_supported_images_are_the_listed_formats(path: Seq<char>)
    ensures
        image_supported(path) <==> (crate::paths::extension_of(path) is Some && {
            let x = crate::text::ascii_lower(crate::paths::extension_of(path)->0);
            ||| x == seq!['j', 'p', 'g']
            ||| x == seq!['j', 'p', 'e', 'g']
            ||| x == seq!['p', 'n', 'g']
            ||| x == seq!['w', 'e', 'b', 'p']
            ||| x == seq!['t', 'i', 'f']
            ||| x == seq!['t', 'i', 'f', 'f']
        }),
{
    reveal_strlit("jpg");
    reveal_strlit("jpeg");
    reveal_strlit("png");
    reveal_strlit("webp");
    reveal_strlit("tif");
    reveal_strlit("tiff");
    assert("jpg"@ =~= seq!['j', 'p', 'g']);
    assert("jpeg"@ =~= seq!['j', 'p', 'e', 'g']);
    assert("png"@ =~= seq!['p', 'n', 'g']);
    assert("webp"@ =~= seq!['w', 'e', 'b', 'p']);
    assert("tif"@ =~= seq!['t', 'i', 'f']);
    assert("tiff"@ =~= seq!['t', 'i', 'f', 'f']);
}

} // verus!
