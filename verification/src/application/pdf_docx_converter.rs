//! PDF to Word through the Python worker: request checks, staging names, the
//! worker's progress lines and the check of the produced archive.

use vstd::prelude::*;
use crate::application::engine_run::{EngineExit, reported, asked, discarded, headed, published, ran};
use crate::domain::job::ExecutionOutcome;
use crate::paths::{
    PathKind, ext_is, has_ext, is_absolute, is_absolute_path, kind_exists, parent,
    parent_dir_ok, staged_beside, staged_path_beside,
};
use crate::text::{check_view, concat2, same_text, text_result_view, views};

verus! {

pub open spec fn docx_request_check(
    input: Seq<char>,
    output: Seq<char>,
    input_kind: PathKind,
    output_kind: PathKind,
    parent_kind: PathKind,
) -> Result<(), Seq<char>> {
    if !is_absolute_path(input) || input_kind != PathKind::File {
        Err("PDF input does not exist: "@ + input)
    } else if !ext_is(input, "pdf"@) {
        Err("PDF-to-Word input must use the .pdf extension"@)
    } else if !is_absolute_path(output) {
        Err("DOCX output path must be absolute"@)
    } else if kind_exists(output_kind) {
        Err("The DOCX output file already exists"@)
    } else if !ext_is(output, "docx"@) {
        Err("The output file must use the .docx extension"@)
    } else if !parent_dir_ok(output, parent_kind) {
        Err("The DOCX output directory does not exist"@)
    } else if input == output {
        Err("Input and output paths must be different"@)
    } else {
        Ok(())
    }
}

/// Checks a PDF-to-Word request; `parent_kind` describes the parent of the output.
pub fn validate_request(
    input_path: &str,
    output_path: &str,
    input_kind: PathKind,
    output_kind: PathKind,
    parent_kind: PathKind,
) -> (r: Result<(), String>)
    ensures
        check_view(r) == docx_request_check(input_path@, output_path@, input_kind, output_kind, parent_kind),
{
    if !is_absolute(input_path) || input_kind != PathKind::File {
        return Err(concat2("PDF input does not exist: ", input_path));
    }
    if !has_ext(input_path, "pdf") {
        return Err("PDF-to-Word input must use the .pdf extension".to_owned());
    }
    if !is_absolute(output_path) {
        return Err("DOCX output path must be absolute".to_owned());
    }
    if output_kind != PathKind::Missing {
        return Err("The DOCX output file already exists".to_owned());
    }
    if !has_ext(output_path, "docx") {
        return Err("The output file must use the .docx extension".to_owned());
    }
    if parent(output_path).is_none() || parent_kind != PathKind::Directory {
        return Err("The DOCX output directory does not exist".to_owned());
    }
    if same_text(input_path, output_path) {
        return Err("Input and output paths must be different".to_owned());
    }
    Ok(())
}

/// The staging path of the DOCX being written, which keeps the `.docx` extension.
pub fn staged_output_path(output_path: &str, job_id: &str) -> (r: Result<String, String>)
    ensures
        text_result_view(r) == staged_beside(
            output_path@,
            job_id@,
            "docx"@,
            "DOCX output directory is unavailable"@,
            "DOCX output filename is invalid"@,
        ),
{
    staged_path_beside(
        output_path,
        job_id,
        "docx",
        "DOCX output directory is unavailable",
        "DOCX output filename is invalid",
    )
}

/// The worker's command line after the interpreter: no bytecode files, the
/// worker script, the input and the staging output.
pub fn worker_arguments(worker_path: &str, input_path: &str, staged_path: &str) -> (r: Vec<String>)
    ensures
        views(r@) == seq!["-B"@, worker_path@, input_path@, staged_path@],
{
    let mut r: Vec<String> = Vec::new();
    r.push("-B".to_owned());
    r.push(worker_path.to_owned());
    r.push(input_path.to_owned());
    r.push(staged_path.to_owned());
    assert(views(r@) =~= seq!["-B"@, worker_path@, input_path@, staged_path@]);
    r
}

/// A DOCX file is a ZIP archive: at least four bytes starting `PK\x03\x04`.
pub open spec fn docx_bytes_check(bytes: Seq<u8>) -> Result<(), Seq<char>> {
    if bytes.len() < 4 {
        Err("The Python worker did not produce a valid DOCX file"@)
    } else if bytes.take(4) != seq![0x50u8, 0x4bu8, 0x03u8, 0x04u8] {
        Err("The Python worker produced an invalid DOCX archive"@)
    } else {
        Ok(())
    }
}

/// Checks the bytes that the worker produced.
pub fn validate_generated_docx(bytes: &[u8]) -> (r: Result<(), String>)
    ensures
        check_view(r) == docx_bytes_check(bytes@),
{
    if bytes.len() < 4 {
        return Err("The Python worker did not produce a valid DOCX file".to_owned());
    }
    if !(bytes[0] == 0x50u8 && bytes[1] == 0x4bu8 && bytes[2] == 0x03u8 && bytes[3] == 0x04u8) {
        proof {
            if bytes@.take(4) == seq![0x50u8, 0x4bu8, 0x03u8, 0x04u8] {
                assert(bytes@[0] == bytes@.take(4)[0]);
                assert(bytes@[1] == bytes@.take(4)[1]);
                assert(bytes@[2] == bytes@.take(4)[2]);
                assert(bytes@[3] == bytes@.take(4)[3]);
            }
        }
        return Err("The Python worker produced an invalid DOCX archive".to_owned());
    }
    assert(bytes@.take(4) =~= seq![0x50u8, 0x4bu8, 0x03u8, 0x04u8]);
    Ok(())
}

} // verus!

verus! {

/// The progress a worker output line reports: the number after
/// `FILE_CONVERTER_PROGRESS:`, read as a byte and capped at 100.
pub open spec fn line_progress(line: Seq<char>) -> Option<u8> {
    match crate::text::after_prefix(line, "FILE_CONVERTER_PROGRESS:"@) {
        Some(rest) => match crate::text::parse_unsigned_spec(rest, 255) {
            Some(v) => Some(if v > 100 { 100u8 } else { v as u8 }),
            None => None,
        },
        None => None,
    }
}

pub fn progress_from_line(line: &str) -> (r: Option<u8>)
    ensures
        r == line_progress(line@),
{
    let rest = match crate::text::strip_prefix(line, "FILE_CONVERTER_PROGRESS:") {
        Some(r) => r,
        None => return None,
    };
    match crate::text::parse_unsigned(rest.as_str(), 255) {
        Some(v) => Some(if v > 100 { 100u8 } else { v as u8 }),
        None => None,
    }
}

/// The error of a failed worker run: its trimmed diagnostics, or its exit
/// status when it printed none.
pub open spec fn worker_failure(stderr: Seq<char>, status: Seq<char>) -> Seq<char> {
    if crate::text::trimmed(stderr).len() == 0 {
        "Python PDF-to-Word worker exited with status "@ + status
    } else {
        crate::text::trimmed(stderr)
    }
}

pub fn failure_message(stderr: &str, status: &str) -> (r: String)
    ensures
        r@ == worker_failure(stderr@, status@),
{
    let detail = crate::text::trim(stderr);
    if detail.as_str().is_empty() {
        crate::text::concat2("Python PDF-to-Word worker exited with status ", status)
    } else {
        detail
    }
}

} // verus!

verus! {

/// The outcome once the staged document passed or failed its checks: a late
/// cancellation, or publishing it as `output`.
pub open spec fn docx_publish_outcome<C: Fn() -> bool, P: Fn(&str, &str) -> Result<(), String>>(
    cancelled: C,
    publish: P,
    staged: Seq<char>,
    output: Seq<char>,
    r: Result<ExecutionOutcome, String>,
) -> bool {
    exists|c: bool| #[trigger] asked(cancelled, c) && if c {
        r == Ok::<ExecutionOutcome, String>(ExecutionOutcome::Cancelled)
    } else {
        exists|p: Result<(), String>| #[trigger] published(publish, staged, output, p) && match p {
            Err(m) => r is Err && r->Err_0@ == "Converted DOCX could not be finalized: "@ + m@,
            Ok(()) => r == Ok::<ExecutionOutcome, String>(ExecutionOutcome::Completed),
        }
    }
}

/// The outcome of the worker run that writes `staged`, of checking what it
/// wrote, and of publishing it as `output`.
pub open spec fn docx_run_outcome<
    R: Fn(&str, &Vec<String>) -> Result<Option<EngineExit>, String>,
    H: Fn(&str) -> Result<Vec<u8>, String>,
    C: Fn() -> bool,
    P: Fn(&str, &str) -> Result<(), String>,
>(
    run: R,
    head: H,
    cancelled: C,
    publish: P,
    python: Seq<char>,
    args: Seq<Seq<char>>,
    staged: Seq<char>,
    output: Seq<char>,
    r: Result<ExecutionOutcome, String>,
) -> bool {
    exists|o: Result<Option<EngineExit>, String>| #[trigger] ran(run, python, args, o) && match o {
        Err(m) => r is Err && r->Err_0@ == m@,
        Ok(None) => r == Ok::<ExecutionOutcome, String>(ExecutionOutcome::Cancelled),
        Ok(Some(x)) => if !x.success {
            r is Err && r->Err_0@ == worker_failure(x.stderr@, x.status@)
        } else {
            exists|h: Result<Vec<u8>, String>| #[trigger] headed(head, staged, h) && match h {
                Err(m) => r is Err && r->Err_0@ == "Generated DOCX could not be validated: "@ + m@,
                Ok(bytes) => match docx_bytes_check(bytes@) {
                    Err(e) => r is Err && r->Err_0@ == e,
                    Ok(()) => docx_publish_outcome(cancelled, publish, staged, output, r),
                },
            }
        },
    }
}

/// Converts a PDF to a Word document with the Python worker. The request is
/// checked again against what is on disk now; the flags tell whether the
/// interpreter and the worker script are there. The worker writes a hidden
/// staging file beside the output, which must open with the ZIP signature of a
/// DOCX before it is published. `run` runs the worker (and reports its
/// progress), `head` reads the first bytes of the staging file, `cancelled`
/// tells whether the job was cancelled meanwhile, `publish` renames the file
/// and `discard` removes it when the conversion does not complete; `report`
/// reports 100 at the end.
/// None of the closures is needed, and so none is called, before the request
/// has passed its checks (and the engine is there).
pub fn convert<
    R: Fn(&str, &Vec<String>) -> Result<Option<EngineExit>, String>,
    H: Fn(&str) -> Result<Vec<u8>, String>,
    C: Fn() -> bool,
    P: Fn(&str, &str) -> Result<(), String>,
    X: Fn(&str),
    G: Fn(u8),
>(
    python_path: &str,
    worker_path: &str,
    input_path: &str,
    output_path: &str,
    job_id: &str,
    input_kind: PathKind,
    output_kind: PathKind,
    parent_kind: PathKind,
    python_is_file: bool,
    worker_is_file: bool,
    run: &R,
    head: &H,
    cancelled: &C,
    publish: &P,
    discard: &X,
    report: &G,
) -> (r: Result<ExecutionOutcome, String>)
    requires
        docx_request_check(input_path@, output_path@, input_kind, output_kind, parent_kind) is Ok && python_is_file
            && worker_is_file ==> {
            &&& forall|p: &str, a: &Vec<String>| run.requires((p, a))
            &&& forall|p: &str| head.requires((p,))
            &&& cancelled.requires(())
            &&& forall|a: &str, b: &str| publish.requires((a, b))
            &&& forall|p: &str| discard.requires((p,))
            &&& forall|n: u8| report.requires((n,))
        },
    ensures
        r == Ok::<ExecutionOutcome, String>(ExecutionOutcome::Completed) ==> reported(*report, 100),
        match docx_request_check(input_path@, output_path@, input_kind, output_kind, parent_kind) {
            Err(e) => r is Err && r->Err_0@ == e,
            Ok(()) => if !python_is_file {
                r is Err && r->Err_0@ == "Python 3.10 or newer could not be found"@
            } else if !worker_is_file {
                r is Err && r->Err_0@ == "The PDF-to-Word worker script could not be found"@
            } else {
                match staged_beside(output_path@, job_id@, "docx"@, "DOCX output directory is unavailable"@,
                    "DOCX output filename is invalid"@) {
                    Err(e) => r is Err && r->Err_0@ == e,
                    Ok(staged) => docx_run_outcome(*run, *head, *cancelled, *publish, python_path@,
                        seq!["-B"@, worker_path@, input_path@, staged], staged, output_path@, r)
                        && (r != Ok::<ExecutionOutcome, String>(ExecutionOutcome::Completed) ==> discarded(*discard,
                        staged)),
                }
            },
        },
{
    validate_request(input_path, output_path, input_kind, output_kind, parent_kind)?;
    if !python_is_file {
        return Err("Python 3.10 or newer could not be found".to_owned());
    }
    if !worker_is_file {
        return Err("The PDF-to-Word worker script could not be found".to_owned());
    }
    let staged = staged_output_path(output_path, job_id)?;
    discard(staged.as_str());
    assert(discarded(*discard, staged@));
    let args = worker_arguments(worker_path, input_path, staged.as_str());
    let o = run(python_path, &args);
    assert(ran(*run, python_path@, views(args@), o));
    let exit = match o {
        Err(m) => {
            discard(staged.as_str());
            return Err(m);
        },
        Ok(None) => {
            discard(staged.as_str());
            return Ok(ExecutionOutcome::Cancelled);
        },
        Ok(Some(x)) => x,
    };
    if !exit.success {
        discard(staged.as_str());
        return Err(failure_message(exit.stderr.as_str(), exit.status.as_str()));
    }
    let h = head(staged.as_str());
    assert(headed(*head, staged@, h));
    let bytes = match h {
        Err(m) => {
            discard(staged.as_str());
            return Err(concat2("Generated DOCX could not be validated: ", m.as_str()));
        },
        Ok(b) => b,
    };
    if let Err(e) = validate_generated_docx(bytes.as_slice()) {
        discard(staged.as_str());
        return Err(e);
    }
    let c = cancelled();
    assert(asked(*cancelled, c));
    if c {
        discard(staged.as_str());
        return Ok(ExecutionOutcome::Cancelled);
    }
    let p = publish(staged.as_str(), output_path);
    assert(published(*publish, staged@, output_path@, p));
    match p {
        Err(m) => {
            discard(staged.as_str());
            Err(concat2("Converted DOCX could not be finalized: ", m.as_str()))
        },
        Ok(()) => {
            report(100);
            assert(reported(*report, 100));
            Ok(ExecutionOutcome::Completed)
        },
    }
}


/// A conversion that completed had the worker succeed and leave a staged file
/// that opens with the ZIP signature of a DOCX, and moved that file to the
/// output: nothing unchecked is published.
pub proof fn law_docx_publishes_only_a_zip_archive<
    R: Fn(&str, &Vec<String>) -> Result<Option<EngineExit>, String>,
    H: Fn(&str) -> Result<Vec<u8>, String>,
    C: Fn() -> bool,
    P: Fn(&str, &str) -> Result<(), String>,
>(run: R, head: H, cancelled: C, publish: P, python: Seq<char>, args: Seq<Seq<char>>, staged: Seq<char>, output: Seq<char>)
    requires
        docx_run_outcome(run, head, cancelled, publish, python, args, staged, output,
            Ok::<ExecutionOutcome, String>(ExecutionOutcome::Completed)),
    ensures
        exists|x: EngineExit| #[trigger] ran(run, python, args, Ok(Some(x))) && x.success,
        exists|b: Vec<u8>| #[trigger] headed(head, staged, Ok(b)) && docx_bytes_check(b@) is Ok,
        asked(cancelled, false),
        exists|p: Result<(), String>| #[trigger] published(publish, staged, output, p) && p is Ok,
{
}

} // verus!
