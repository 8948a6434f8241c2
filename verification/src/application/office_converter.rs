//! Office documents to PDF through LibreOffice: request checks, staging names
//! and the LibreOffice command line.

use vstd::prelude::*;
use crate::application::engine_run::{EngineExit, asked, discarded, paged, prepared, published, ran, reported};
use crate::domain::job::ExecutionOutcome;
use crate::paths::{
    PathKind, ext_is, has_ext, is_absolute, is_absolute_path, join, joined, kind_exists, parent,
    parent_dir_ok, parent_of, probed, stem_of, file_stem, with_extension, with_extension_of,
};
use crate::text::{check_view, concat2, text_result_view, views};
use vstd::string::*;

verus! {

/// DOCX, XLSX and PPTX files are converted.
pub open spec fn office_supported(path: Seq<char>) -> bool {
    ext_is(path, "docx"@) || ext_is(path, "xlsx"@) || ext_is(path, "pptx"@)
}

pub fn is_supported_input(path: &str) -> (r: bool)
    ensures
        r == office_supported(path@),
{
    has_ext(path, "docx") || has_ext(path, "xlsx") || has_ext(path, "pptx")
}

pub open spec fn office_request_check(
    input: Seq<char>,
    output: Seq<char>,
    input_kind: PathKind,
    output_kind: PathKind,
    parent_kind: PathKind,
) -> Result<(), Seq<char>> {
    if !is_absolute_path(input) || input_kind != PathKind::File {
        Err("Office input does not exist: "@ + input)
    } else if !office_supported(input) {
        Err("Office input must be a DOCX, XLSX, or PPTX file"@)
    } else if !is_absolute_path(output) {
        Err("PDF output path must be absolute"@)
    } else if kind_exists(output_kind) {
        Err("The PDF output file already exists"@)
    } else if !ext_is(output, "pdf"@) {
        Err("The output file must use the .pdf extension"@)
    } else if !parent_dir_ok(output, parent_kind) {
        Err("The PDF output directory does not exist"@)
    } else {
        Ok(())
    }
}

/// Checks an Office-to-PDF request; `parent_kind` describes the parent of the output.
pub fn validate_request(
    input_path: &str,
    output_path: &str,
    input_kind: PathKind,
    output_kind: PathKind,
    parent_kind: PathKind,
) -> (r: Result<(), String>)
    ensures
        check_view(r) == office_request_check(input_path@, output_path@, input_kind, output_kind, parent_kind),
{
    if !is_absolute(input_path) || input_kind != PathKind::File {
        return Err(concat2("Office input does not exist: ", input_path));
    }
    if !is_supported_input(input_path) {
        return Err("Office input must be a DOCX, XLSX, or PPTX file".to_owned());
    }
    if !is_absolute(output_path) {
        return Err("PDF output path must be absolute".to_owned());
    }
    if output_kind != PathKind::Missing {
        return Err("The PDF output file already exists".to_owned());
    }
    if !has_ext(output_path, "pdf") {
        return Err("The output file must use the .pdf extension".to_owned());
    }
    if parent(output_path).is_none() || parent_kind != PathKind::Directory {
        return Err("The PDF output directory does not exist".to_owned());
    }
    Ok(())
}

pub open spec fn office_staging(output: Seq<char>, job_id: Seq<char>) -> Result<Seq<char>, Seq<char>> {
    match parent_of(output) {
        None => Err("PDF output directory is unavailable"@),
        Some(p) => Ok(joined(p, ".just-convert-office-"@ + job_id)),
    }
}

/// The private staging directory of a conversion, beside the output.
pub fn staging_directory(output_path: &str, job_id: &str) -> (r: Result<String, String>)
    ensures
        text_result_view(r) == office_staging(output_path@, job_id@),
{
    match parent(output_path) {
        None => Err("PDF output directory is unavailable".to_owned()),
        Some(p) => {
            let name = concat2(".just-convert-office-", job_id);
            Ok(join(p.as_str(), name.as_str()))
        },
    }
}

pub open spec fn office_generated(input: Seq<char>, output_directory: Seq<char>) -> Result<Seq<char>, Seq<char>> {
    match stem_of(input) {
        None => Err("Office input filename is invalid"@),
        Some(s) => Ok(with_extension_of(joined(output_directory, s), "pdf"@)),
    }
}

/// Where LibreOffice writes the PDF for `input` inside `output_directory`.
pub fn generated_output_path(input_path: &str, output_directory: &str) -> (r: Result<String, String>)
    ensures
        text_result_view(r) == office_generated(input_path@, output_directory@),
{
    match file_stem(input_path) {
        None => Err("Office input filename is invalid".to_owned()),
        Some(s) => {
            let p = join(output_directory, s.as_str());
            Ok(with_extension(p.as_str(), "pdf"))
        },
    }
}

/// The first non-empty diagnostic of a failed LibreOffice run.
pub open spec fn office_process_error(stdout: Seq<char>, stderr: Seq<char>) -> Seq<char> {
    let detail = if crate::text::trimmed(stderr).len() > 0 {
        crate::text::trimmed(stderr)
    } else if crate::text::trimmed(stdout).len() > 0 {
        crate::text::trimmed(stdout)
    } else {
        "No diagnostic output was provided"@
    };
    "LibreOffice conversion failed: "@ + detail
}

pub fn process_error(stdout: &str, stderr: &str) -> (r: String)
    ensures
        r@ == office_process_error(stdout@, stderr@),
{
    let e = crate::text::trim(stderr);
    let o = crate::text::trim(stdout);
    if e.as_str().unicode_len() > 0 {
        concat2("LibreOffice conversion failed: ", e.as_str())
    } else if o.as_str().unicode_len() > 0 {
        concat2("LibreOffice conversion failed: ", o.as_str())
    } else {
        concat2("LibreOffice conversion failed: ", "No diagnostic output was provided")
    }
}

} // verus!

verus! {

/// The text after the last `/` of a path (all of it when it has none).
pub open spec fn after_last_slash(p: Seq<char>) -> Seq<char>
    decreases p.len(),
{
    if p.len() == 0 {
        p
    } else if p.last() == '/' {
        Seq::empty()
    } else {
        after_last_slash(p.drop_last()).push(p.last())
    }
}

/// A character the url crate never percent-encodes in a path segment.
pub open spec fn url_plain_char(c: char) -> bool {
    ('a' <= c <= 'z') || ('A' <= c <= 'Z') || ('0' <= c <= '9') || c == '-' || c == '_' || c == '.' || c == '~'
}

/// A directory name that a `file:` URL holds as it is, on every platform.
pub open spec fn url_plain_name(n: Seq<char>) -> bool {
    &&& n.len() > 0
    &&& n != seq!['.']
    &&& n != seq!['.', '.']
    &&& forall|i: int| 0 <= i < n.len() ==> url_plain_char(n[i])
}

pub open spec fn ends_with(s: Seq<char>, t: Seq<char>) -> bool {
    s.len() >= t.len() && s.subrange(s.len() - t.len(), s.len() as int) == t
}

/// The path starts with two separators (a UNC or device path on Windows),
/// where the url crate may take a name as the URL's host.
pub open spec fn starts_with_two_separators(path: Seq<char>) -> bool {
    path.len() >= 2 && crate::paths::is_sep(path[0]) && crate::paths::is_sep(path[1])
}

/// `u` is a `file:` URL of the directory `path`, as the url crate writes it: it
/// ends with `/`, and when the path does not start with two separators and its
/// last name is plain, with that name between slashes.
pub open spec fn directory_url_of(u: Seq<char>, path: Seq<char>) -> bool {
    &&& u.len() >= 8
    &&& u.take(7) == "file://"@
    &&& u.last() == '/'
    &&& !starts_with_two_separators(path) && url_plain_name(after_last_slash(path))
        ==> ends_with(u, "/"@ + after_last_slash(path) + "/"@)
}

/// `url::Url::from_directory_path`, serialized. The url crate gives `Err` for a
/// path that is not absolute (on Windows also for one without a disk or UNC
/// prefix) and otherwise `file://`, then `/` and the percent-encoded text of
/// each component after the root, then `/`; on Windows the server of a UNC
/// path becomes the URL's host instead. Stated here: a path that has neither a
/// leading separator nor a drive prefix gets no URL; a URL has that shape and,
/// for a path that does not start with two separators, ends with the path's
/// last name between slashes when that name holds only characters that are
/// never encoded (its last component on Unix and on Windows alike). Which
/// paths get a URL differs between Unix and Windows (a path is absolute by
/// different rules), so the result is not a function of the path alone and
/// gets no name; when a URL comes back, and the encoding of other names, is
/// left unsaid.
#[verifier::external_body]
fn directory_url(path: &str) -> (r: Option<String>)
    ensures
        !crate::paths::is_absolute_path(path@) ==> r is None,
        r matches Some(u) ==> directory_url_of(u@, path@),
{
    url::Url::from_directory_path(path).ok().map(|u| u.to_string())
}

/// The LibreOffice command line for a given profile URL.
pub open spec fn office_arguments(profile_url: Seq<char>, output_directory: Seq<char>, input: Seq<char>) -> Seq<Seq<char>> {
    seq![
        "--headless"@, "--nologo"@, "--nodefault"@, "--nolockcheck"@, "--nofirststartwizard"@,
        "-env:UserInstallation="@ + profile_url, "--convert-to"@, "pdf"@, "--outdir"@,
        output_directory, input,
    ]
}

/// The LibreOffice arguments once the profile directory has been turned into a
/// URL (`None` when it could not be).
pub fn libreoffice_arguments_with_url(
    profile_url: Option<String>,
    output_directory: &str,
    input_path: &str,
) -> (r: Result<Vec<String>, String>)
    ensures
        match profile_url {
            Some(u) => r is Ok && views(r->Ok_0@) == office_arguments(u@, output_directory@, input_path@),
            None => r is Err && r->Err_0@ == "LibreOffice profile path could not be encoded"@,
        },
{
    let url = match profile_url {
        Some(u) => u,
        None => return Err("LibreOffice profile path could not be encoded".to_owned()),
    };
    let mut a: Vec<String> = Vec::new();
    a.push("--headless".to_owned());
    a.push("--nologo".to_owned());
    a.push("--nodefault".to_owned());
    a.push("--nolockcheck".to_owned());
    a.push("--nofirststartwizard".to_owned());
    a.push(concat2("-env:UserInstallation=", url.as_str()));
    a.push("--convert-to".to_owned());
    a.push("pdf".to_owned());
    a.push("--outdir".to_owned());
    a.push(output_directory.to_owned());
    a.push(input_path.to_owned());
    assert(views(a@) =~= office_arguments(url@, output_directory@, input_path@));
    Ok(a)
}

/// The LibreOffice command line: headless, with an isolated profile inside the
/// staging directory, converting `input_path` to PDF into `output_directory`.
/// No shell is involved.
pub fn libreoffice_arguments(
    profile_directory: &str,
    output_directory: &str,
    input_path: &str,
) -> (r: Result<Vec<String>, String>)
    ensures
        r matches Ok(a) ==> exists|u: Seq<char>| directory_url_of(u, profile_directory@)
            && #[trigger] office_arguments(u, output_directory@, input_path@) == views(a@),
        r matches Err(e) ==> e@ == "LibreOffice profile path could not be encoded"@,
        !crate::paths::is_absolute_path(profile_directory@) ==> r is Err,
{
    let url = directory_url(profile_directory);
    let ghost u = crate::paths::opt_view(url).unwrap_or(Seq::empty());
    let r = libreoffice_arguments_with_url(url, output_directory, input_path);
    proof {
        if r is Ok {
            assert(office_arguments(u, output_directory@, input_path@) == views(r->Ok_0@));
        }
    }
    r
}

} // verus!

verus! {

/// The error when LibreOffice ended well but wrote no PDF.
pub fn missing_pdf_error(stdout: &str, stderr: &str) -> (r: String)
    ensures
        r@ == "LibreOffice did not produce a PDF. "@ + office_process_error(stdout@, stderr@),
{
    let detail = process_error(stdout, stderr);
    concat2("LibreOffice did not produce a PDF. ", detail.as_str())
}

/// The verdict on the PDF LibreOffice wrote, given its page count as qpdf
/// reported it.
pub open spec fn office_pages_check(count: Result<u32, Seq<char>>) -> Result<(), Seq<char>> {
    match count {
        Ok(c) => if c > 0 { Ok(()) } else { Err("LibreOffice produced a PDF with no pages"@) },
        Err(e) => Err("LibreOffice PDF validation failed: "@ + e),
    }
}

pub fn check_generated_pages(count: Result<u32, String>) -> (r: Result<(), String>)
    ensures
        check_view(r) == office_pages_check(match count {
            Ok(c) => Ok(c),
            Err(e) => Err(e@),
        }),
{
    match count {
        Ok(c) => if c > 0 { Ok(()) } else { Err("LibreOffice produced a PDF with no pages".to_owned()) },
        Err(e) => Err(concat2("LibreOffice PDF validation failed: ", e.as_str())),
    }
}

} // verus!

verus! {

/// The outcome once the PDF at `generated` passed its checks: a late
/// cancellation, or publishing it as `output`.
pub open spec fn office_publish_outcome<C: Fn() -> bool, P: Fn(&str, &str) -> Result<(), String>>(
    cancelled: C,
    publish: P,
    generated: Seq<char>,
    output: Seq<char>,
    r: Result<ExecutionOutcome, String>,
) -> bool {
    exists|k: bool| #[trigger] asked(cancelled, k) && if k {
        r == Ok::<ExecutionOutcome, String>(ExecutionOutcome::Cancelled)
    } else {
        exists|p: Result<(), String>| #[trigger] published(publish, generated, output, p) && match p {
            Err(m) => r is Err && r->Err_0@ == "Office PDF could not be finalized: "@ + m@,
            Ok(()) => r == Ok::<ExecutionOutcome, String>(ExecutionOutcome::Completed),
        }
    }
}

/// The outcome once the PDF at `generated` is known to be there: its pages are
/// counted with qpdf, and it is published when it has some.
pub open spec fn office_count_outcome<
    Q: Fn(&str, &str) -> Result<u32, String>,
    C: Fn() -> bool,
    P: Fn(&str, &str) -> Result<(), String>,
>(
    count: Q,
    cancelled: C,
    publish: P,
    qpdf: Seq<char>,
    generated: Seq<char>,
    output: Seq<char>,
    r: Result<ExecutionOutcome, String>,
) -> bool {
    exists|c: Result<u32, String>| #[trigger] paged(count, qpdf, generated, c) && match office_pages_check(match c {
        Ok(n) => Ok(n),
        Err(m) => Err(m@),
    }) {
        Err(e) => r is Err && r->Err_0@ == e,
        Ok(()) => office_publish_outcome(cancelled, publish, generated, output, r),
    }
}

/// What follows a LibreOffice run that ended well with `exit`: the PDF it wrote
/// at `generated` must be there and have pages, and is then published as
/// `output` unless the job was cancelled meanwhile.
pub open spec fn office_found_outcome<
    F: Fn(&str) -> bool,
    Q: Fn(&str, &str) -> Result<u32, String>,
    C: Fn() -> bool,
    P: Fn(&str, &str) -> Result<(), String>,
>(
    is_file: F,
    count: Q,
    cancelled: C,
    publish: P,
    qpdf: Seq<char>,
    generated: Seq<char>,
    output: Seq<char>,
    exit: EngineExit,
    r: Result<ExecutionOutcome, String>,
) -> bool {
    exists|b: bool| #[trigger] probed(is_file, generated, b) && if !b {
        r is Err && r->Err_0@ == "LibreOffice did not produce a PDF. "@ + office_process_error(exit.stdout@, exit.stderr@)
    } else {
        office_count_outcome(count, cancelled, publish, qpdf, generated, output, r)
    }
}

/// What follows a LibreOffice run that ended well: the PDF is looked for in
/// `output_directory` under the input's name.
pub open spec fn office_tail<
    F: Fn(&str) -> bool,
    Q: Fn(&str, &str) -> Result<u32, String>,
    C: Fn() -> bool,
    P: Fn(&str, &str) -> Result<(), String>,
>(
    is_file: F,
    count: Q,
    cancelled: C,
    publish: P,
    qpdf: Seq<char>,
    input: Seq<char>,
    output_directory: Seq<char>,
    output: Seq<char>,
    exit: EngineExit,
    r: Result<ExecutionOutcome, String>,
) -> bool {
    match office_generated(input, output_directory) {
        Err(e) => r is Err && r->Err_0@ == e,
        Ok(g) => office_found_outcome(is_file, count, cancelled, publish, qpdf, g, output, exit, r),
    }
}

/// The outcome of running LibreOffice with `args`, and what follows.
pub open spec fn office_run_outcome<
    R: Fn(&str, &Vec<String>) -> Result<Option<EngineExit>, String>,
    F: Fn(&str) -> bool,
    Q: Fn(&str, &str) -> Result<u32, String>,
    C: Fn() -> bool,
    P: Fn(&str, &str) -> Result<(), String>,
>(
    run: R,
    is_file: F,
    count: Q,
    cancelled: C,
    publish: P,
    libreoffice: Seq<char>,
    qpdf: Seq<char>,
    args: Seq<Seq<char>>,
    input: Seq<char>,
    output_directory: Seq<char>,
    output: Seq<char>,
    r: Result<ExecutionOutcome, String>,
) -> bool {
    exists|o: Result<Option<EngineExit>, String>| #[trigger] ran(run, libreoffice, args, o) && match o {
        Err(m) => r is Err && r->Err_0@ == m@,
        Ok(None) => r == Ok::<ExecutionOutcome, String>(ExecutionOutcome::Cancelled),
        Ok(Some(x)) => if !x.success {
            r is Err && r->Err_0@ == office_process_error(x.stdout@, x.stderr@)
        } else {
            office_tail(is_file, count, cancelled, publish, qpdf, input, output_directory, output, x, r)
        },
    }
}

/// `u` may be what the url crate gives for the directory `profile`: nothing
/// for a path that is not absolute, and otherwise a URL of that directory.
pub open spec fn profile_url_for(u: Option<String>, profile: Seq<char>) -> bool {
    &&& !crate::paths::is_absolute_path(profile) ==> u is None
    &&& u matches Some(x) ==> directory_url_of(x@, profile)
}

/// The outcome once the staging directory `staging` is made and the URL of
/// its profile directory is `profile_url`: without a URL the conversion stops
/// with an error; with one, LibreOffice runs with that profile and writes into
/// the staging output directory, and what follows is checked and published.
/// Either way the staging directory is removed again, and a conversion that
/// completes has reported 5, 75, 90 and 100.
pub open spec fn staging_outcome<
    R: Fn(&str, &Vec<String>) -> Result<Option<EngineExit>, String>,
    F: Fn(&str) -> bool,
    Q: Fn(&str, &str) -> Result<u32, String>,
    C: Fn() -> bool,
    P: Fn(&str, &str) -> Result<(), String>,
    X: Fn(&str),
    G: Fn(u8),
>(
    run: R,
    is_file: F,
    count: Q,
    cancelled: C,
    publish: P,
    clear: X,
    report: G,
    libreoffice: Seq<char>,
    qpdf: Seq<char>,
    input: Seq<char>,
    staging: Seq<char>,
    profile_url: Option<String>,
    output: Seq<char>,
    r: Result<ExecutionOutcome, String>,
) -> bool {
    &&& match profile_url {
        None => r is Err && r->Err_0@ == "LibreOffice profile path could not be encoded"@,
        Some(u) => office_run_outcome(run, is_file, count, cancelled, publish, libreoffice, qpdf,
            office_arguments(u@, joined(staging, "output"@), input), input, joined(staging, "output"@), output, r),
    }
    &&& discarded(clear, staging)
    &&& r == Ok::<ExecutionOutcome, String>(ExecutionOutcome::Completed) ==> reported(report, 5)
        && reported(report, 75) && reported(report, 90) && reported(report, 100)
}

/// Carries an Office conversion on inside the made staging directory
/// `staging`, once the URL of its profile directory is known (`profile_url`,
/// as the url crate gave it). The closures are those of [`convert`].
pub fn convert_in_staging<
    R: Fn(&str, &Vec<String>) -> Result<Option<EngineExit>, String>,
    F: Fn(&str) -> bool,
    Q: Fn(&str, &str) -> Result<u32, String>,
    C: Fn() -> bool,
    P: Fn(&str, &str) -> Result<(), String>,
    X: Fn(&str),
    G: Fn(u8),
>(
    libreoffice: &str,
    qpdf: &str,
    input_path: &str,
    output_path: &str,
    staging: &str,
    profile_url: Option<String>,
    run: &R,
    is_file: &F,
    count: &Q,
    cancelled: &C,
    publish: &P,
    clear: &X,
    report: &G,
) -> (r: Result<ExecutionOutcome, String>)
    requires
        forall|p: &str, a: &Vec<String>| run.requires((p, a)),
        forall|p: &str| is_file.requires((p,)),
        forall|q: &str, p: &str| count.requires((q, p)),
        cancelled.requires(()),
        forall|a: &str, b: &str| publish.requires((a, b)),
        forall|p: &str| clear.requires((p,)),
        forall|n: u8| report.requires((n,)),
    ensures
        staging_outcome(*run, *is_file, *count, *cancelled, *publish, *clear, *report, libreoffice@, qpdf@, input_path@,
            staging@, profile_url, output_path@, r),
{
    let ghost url = profile_url;
    let output_directory = join(staging, "output");
    proof {
        reveal_strlit("output");
    }
    let args = match libreoffice_arguments_with_url(profile_url, output_directory.as_str(), input_path) {
        Err(e) => {
            clear_staging(staging, clear);
            return Err(e);
        },
        Ok(a) => a,
    };
    report(5);
    assert(reported(*report, 5));
    let r = run_office(libreoffice, qpdf, input_path, output_path, staging, output_directory.as_str(), &args,
        run, is_file, count, cancelled, publish, clear, report);
    assert(views(args@) == office_arguments(url->Some_0@, output_directory@, input_path@));
    r
}

/// The outcome once the staging directory `staging` is chosen: it must not
/// exist yet; its output and profile directories are made, and LibreOffice runs
/// with a profile URL of the kind the url crate writes.
pub open spec fn office_staged_outcome<
    T: Fn(&str) -> bool,
    M: Fn(&str, &str) -> Result<(), String>,
    R: Fn(&str, &Vec<String>) -> Result<Option<EngineExit>, String>,
    F: Fn(&str) -> bool,
    Q: Fn(&str, &str) -> Result<u32, String>,
    C: Fn() -> bool,
    P: Fn(&str, &str) -> Result<(), String>,
    X: Fn(&str),
    G: Fn(u8),
>(
    taken: T,
    prepare: M,
    run: R,
    is_file: F,
    count: Q,
    cancelled: C,
    publish: P,
    clear: X,
    report: G,
    libreoffice: Seq<char>,
    qpdf: Seq<char>,
    input: Seq<char>,
    staging: Seq<char>,
    output: Seq<char>,
    r: Result<ExecutionOutcome, String>,
) -> bool {
    exists|t: bool| #[trigger] probed(taken, staging, t) && if t {
        r is Err && r->Err_0@ == "Office conversion staging directory already exists"@
    } else {
        exists|m: Result<(), String>| #[trigger] prepared(prepare, joined(staging, "output"@), joined(staging, "profile"@), m)
            && match m {
            Err(e) => r is Err && r->Err_0@ == "Office conversion staging could not be created: "@ + e@,
            Ok(()) => exists|u: Option<String>| #[trigger] profile_url_for(u, joined(staging, "profile"@))
                && staging_outcome(run, is_file, count, cancelled, publish, clear, report, libreoffice, qpdf, input,
                staging, u, output, r),
        }
    }
}

/// Converts an Office document to PDF with LibreOffice. The request is checked
/// again against what is on disk now and `libreoffice_is_file` tells whether
/// LibreOffice is there. The conversion happens in a fresh hidden staging
/// directory beside the output, with its own LibreOffice profile; the PDF is
/// checked with qpdf before it is published. `taken` tells whether a path
/// exists, `prepare` makes the output and profile directories, `run` runs
/// LibreOffice, `is_file` tells whether the PDF was written, `count` reads its
/// page count, `cancelled` tells whether the job was cancelled, `publish` moves
/// the PDF, `clear` removes the staging directory and `report` reports progress.
/// None of the closures is needed, and so none is called, before the request
/// has passed its checks (and the engine is there).
pub fn convert<
    T: Fn(&str) -> bool,
    M: Fn(&str, &str) -> Result<(), String>,
    R: Fn(&str, &Vec<String>) -> Result<Option<EngineExit>, String>,
    F: Fn(&str) -> bool,
    Q: Fn(&str, &str) -> Result<u32, String>,
    C: Fn() -> bool,
    P: Fn(&str, &str) -> Result<(), String>,
    X: Fn(&str),
    G: Fn(u8),
>(
    libreoffice: &str,
    qpdf: &str,
    input_path: &str,
    output_path: &str,
    job_id: &str,
    input_kind: PathKind,
    output_kind: PathKind,
    parent_kind: PathKind,
    libreoffice_is_file: bool,
    taken: &T,
    prepare: &M,
    run: &R,
    is_file: &F,
    count: &Q,
    cancelled: &C,
    publish: &P,
    clear: &X,
    report: &G,
) -> (r: Result<ExecutionOutcome, String>)
    requires
        office_request_check(input_path@, output_path@, input_kind, output_kind, parent_kind) is Ok
            && libreoffice_is_file ==> {
            &&& forall|p: &str| taken.requires((p,))
            &&& forall|a: &str, b: &str| prepare.requires((a, b))
            &&& forall|p: &str, a: &Vec<String>| run.requires((p, a))
            &&& forall|p: &str| is_file.requires((p,))
            &&& forall|q: &str, p: &str| count.requires((q, p))
            &&& cancelled.requires(())
            &&& forall|a: &str, b: &str| publish.requires((a, b))
            &&& forall|p: &str| clear.requires((p,))
            &&& forall|n: u8| report.requires((n,))
        },
    ensures
        match office_request_check(input_path@, output_path@, input_kind, output_kind, parent_kind) {
            Err(e) => r is Err && r->Err_0@ == e,
            Ok(()) => if !libreoffice_is_file {
                r is Err && r->Err_0@ == "LibreOffice could not be found"@
            } else {
                match office_staging(output_path@, job_id@) {
                    Err(e) => r is Err && r->Err_0@ == e,
                    Ok(staging) => office_staged_outcome(*taken, *prepare, *run, *is_file, *count, *cancelled, *publish,
                        *clear, *report, libreoffice@, qpdf@, input_path@, staging, output_path@, r),
                }
            },
        },
{
    validate_request(input_path, output_path, input_kind, output_kind, parent_kind)?;
    if !libreoffice_is_file {
        return Err("LibreOffice could not be found".to_owned());
    }
    let staging = staging_directory(output_path, job_id)?;
    let t = taken(staging.as_str());
    assert(probed(*taken, staging@, t));
    if t {
        return Err("Office conversion staging directory already exists".to_owned());
    }
    let output_directory = join(staging.as_str(), "output");
    let profile = join(staging.as_str(), "profile");
    proof {
        reveal_strlit("output");
        reveal_strlit("profile");
    }
    let m = prepare(output_directory.as_str(), profile.as_str());
    assert(prepared(*prepare, output_directory@, profile@, m));
    if let Err(e) = m {
        return Err(concat2("Office conversion staging could not be created: ", e.as_str()));
    }
    let url = directory_url(profile.as_str());
    assert(profile_url_for(url, profile@));
    convert_in_staging(libreoffice, qpdf, input_path, output_path, staging.as_str(), url, run, is_file, count,
        cancelled, publish, clear, report)
}

/// Removes the staging directory.
fn clear_staging<X: Fn(&str)>(staging: &str, clear: &X)
    requires
        forall|p: &str| clear.requires((p,)),
    ensures
        discarded(*clear, staging@),
{
    clear(staging);
}

/// Runs LibreOffice with `args` and carries the conversion on from its result.
fn run_office<
    R: Fn(&str, &Vec<String>) -> Result<Option<EngineExit>, String>,
    F: Fn(&str) -> bool,
    Q: Fn(&str, &str) -> Result<u32, String>,
    C: Fn() -> bool,
    P: Fn(&str, &str) -> Result<(), String>,
    X: Fn(&str),
    G: Fn(u8),
>(
    libreoffice: &str,
    qpdf: &str,
    input_path: &str,
    output_path: &str,
    staging: &str,
    output_directory: &str,
    args: &Vec<String>,
    run: &R,
    is_file: &F,
    count: &Q,
    cancelled: &C,
    publish: &P,
    clear: &X,
    report: &G,
) -> (r: Result<ExecutionOutcome, String>)
    requires
        forall|p: &str, a: &Vec<String>| run.requires((p, a)),
        forall|p: &str| is_file.requires((p,)),
        forall|q: &str, p: &str| count.requires((q, p)),
        cancelled.requires(()),
        forall|a: &str, b: &str| publish.requires((a, b)),
        forall|p: &str| clear.requires((p,)),
        forall|n: u8| report.requires((n,)),
    ensures
        office_run_outcome(*run, *is_file, *count, *cancelled, *publish, libreoffice@, qpdf@, views(args@), input_path@,
            output_directory@, output_path@, r),
        discarded(*clear, staging@),
        r == Ok::<ExecutionOutcome, String>(ExecutionOutcome::Completed) ==> reported(*report, 75)
            && reported(*report, 90) && reported(*report, 100),
{
    let o = run(libreoffice, args);
    assert(ran(*run, libreoffice@, views(args@), o));
    let exit = match o {
        Err(e) => {
            clear_staging(staging, clear);
            return Err(e);
        },
        Ok(None) => {
            clear_staging(staging, clear);
            return Ok(ExecutionOutcome::Cancelled);
        },
        Ok(Some(x)) => x,
    };
    if !exit.success {
        let e = process_error(exit.stdout.as_str(), exit.stderr.as_str());
        clear_staging(staging, clear);
        return Err(e);
    }
    report(75);
    assert(reported(*report, 75));
    let generated = match generated_output_path(input_path, output_directory) {
        Err(e) => {
            clear_staging(staging, clear);
            return Err(e);
        },
        Ok(g) => g,
    };
    finish_office(qpdf, generated.as_str(), output_path, staging, &exit, is_file, count, cancelled, publish, clear, report)
}

/// Checks the PDF LibreOffice wrote at `generated` and publishes it as `output_path`.
fn finish_office<
    F: Fn(&str) -> bool,
    Q: Fn(&str, &str) -> Result<u32, String>,
    C: Fn() -> bool,
    P: Fn(&str, &str) -> Result<(), String>,
    X: Fn(&str),
    G: Fn(u8),
>(
    qpdf: &str,
    generated: &str,
    output_path: &str,
    staging: &str,
    exit: &EngineExit,
    is_file: &F,
    count: &Q,
    cancelled: &C,
    publish: &P,
    clear: &X,
    report: &G,
) -> (r: Result<ExecutionOutcome, String>)
    requires
        forall|p: &str| is_file.requires((p,)),
        forall|q: &str, p: &str| count.requires((q, p)),
        cancelled.requires(()),
        forall|a: &str, b: &str| publish.requires((a, b)),
        forall|p: &str| clear.requires((p,)),
        forall|n: u8| report.requires((n,)),
    ensures
        office_found_outcome(*is_file, *count, *cancelled, *publish, qpdf@, generated@, output_path@, *exit, r),
        discarded(*clear, staging@),
        r == Ok::<ExecutionOutcome, String>(ExecutionOutcome::Completed) ==> reported(*report, 90)
            && reported(*report, 100),
{
    let b = is_file(generated);
    assert(probed(*is_file, generated@, b));
    if !b {
        clear_staging(staging, clear);
        return Err(missing_pdf_error(exit.stdout.as_str(), exit.stderr.as_str()));
    }
    let c = count(qpdf, generated);
    assert(paged(*count, qpdf@, generated@, c));
    if let Err(e) = check_generated_pages(c) {
        clear_staging(staging, clear);
        return Err(e);
    }
    report(90);
    let k = cancelled();
    assert(asked(*cancelled, k));
    if k {
        clear_staging(staging, clear);
        return Ok(ExecutionOutcome::Cancelled);
    }
    let p = publish(generated, output_path);
    assert(published(*publish, generated@, output_path@, p));
    if let Err(e) = p {
        clear_staging(staging, clear);
        return Err(concat2("Office PDF could not be finalized: ", e.as_str()));
    }
    clear_staging(staging, clear);
    assert(discarded(*clear, staging@));
    report(100);
    assert(reported(*report, 90) && reported(*report, 100));
    Ok(ExecutionOutcome::Completed)
}


/// A conversion that completed had LibreOffice succeed and write the PDF,
/// which qpdf found to have pages, and moved that PDF to the output: nothing
/// unchecked is published.
pub proof fn law_office_publishes_only_a_pdf_with_pages<
    R: Fn(&str, &Vec<String>) -> Result<Option<EngineExit>, String>,
    F: Fn(&str) -> bool,
    Q: Fn(&str, &str) -> Result<u32, String>,
    C: Fn() -> bool,
    P: Fn(&str, &str) -> Result<(), String>,
>(
    run: R,
    is_file: F,
    count: Q,
    cancelled: C,
    publish: P,
    libreoffice: Seq<char>,
    qpdf: Seq<char>,
    args: Seq<Seq<char>>,
    input: Seq<char>,
    output_directory: Seq<char>,
    output: Seq<char>,
)
    requires
        office_run_outcome(run, is_file, count, cancelled, publish, libreoffice, qpdf, args, input, output_directory,
            output, Ok::<ExecutionOutcome, String>(ExecutionOutcome::Completed)),
    ensures
        exists|x: EngineExit| #[trigger] ran(run, libreoffice, args, Ok(Some(x))) && x.success,
        office_generated(input, output_directory) is Ok,
        probed(is_file, office_generated(input, output_directory)->Ok_0, true),
        exists|n: u32| #[trigger] paged(count, qpdf, office_generated(input, output_directory)->Ok_0, Ok(n)) && n > 0,
        exists|p: Result<(), String>| #[trigger] published(publish, office_generated(input, output_directory)->Ok_0,
            output, p) && p is Ok,
{
}


/// The PDF LibreOffice wrote passes the page check exactly when qpdf counted
/// at least one page in it; a count of zero and a failed count are refused.
pub proof fn law_a_pdf_with_pages_passes(count: Result<u32, Seq<char>>)
    ensures
        office_pages_check(count) is Ok <==> (count matches Ok(c) && c >= 1),
{
}

} // verus!
