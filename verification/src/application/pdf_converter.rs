//! PDF page operations through qpdf: request checks, the command lines of each
//! operation, the split plan, and the reading of qpdf's answers.

use vstd::prelude::*;
use vstd::string::*;
use crate::paths::probed;
use crate::application::engine_run::{EngineExit, discarded, empty_file, published, ran, reported, sized};
use crate::domain::job::{ExecutionOutcome, PdfOperation, PdfOperationModel};
use crate::paths::{
    PathKind, ext_is, file_stem, has_ext, is_absolute, is_absolute_path, join, joined, kind_exists,
    parent, parent_dir_ok, staged_beside, staged_path_beside, stem_of,
};
use crate::text::{
    check_view, comma_list, comma_separated, concat2, decimal, decimal_string, parse_unsigned,
    parse_unsigned_spec, text_result_view, trim, trimmed, views,
};

verus! {

/// What was found on disk for an operation: one kind per input path (a single
/// input for split, reorder and rotate), the output (the output directory for
/// a split) and the output's parent directory.
#[derive(Debug)]
pub struct OperationFacts {
    pub input_kinds: Vec<PathKind>,
    pub output_kind: PathKind,
    pub output_parent_kind: PathKind,
}

pub open spec fn kind_at(kinds: Seq<PathKind>, i: int) -> PathKind {
    if 0 <= i < kinds.len() { kinds[i] } else { PathKind::Missing }
}

pub open spec fn pdf_input_check(path: Seq<char>, kind: PathKind) -> Result<(), Seq<char>> {
    if !is_absolute_path(path) || kind != PathKind::File {
        Err("PDF input does not exist: "@ + path)
    } else if !ext_is(path, "pdf"@) {
        Err("Input must be a PDF file: "@ + path)
    } else {
        Ok(())
    }
}

pub open spec fn pdf_output_check(path: Seq<char>, kind: PathKind, parent_kind: PathKind) -> Result<(), Seq<char>> {
    if !is_absolute_path(path) {
        Err("PDF output path must be absolute"@)
    } else if kind_exists(kind) {
        Err("The PDF output file already exists"@)
    } else if !ext_is(path, "pdf"@) {
        Err("The PDF output file must use the .pdf extension"@)
    } else if !parent_dir_ok(path, parent_kind) {
        Err("The PDF output directory does not exist"@)
    } else {
        Ok(())
    }
}

pub open spec fn no_repeats(pages: Seq<u32>) -> bool {
    forall|i: int, j: int| 0 <= i < j < pages.len() ==> pages[i] != pages[j]
}

pub open spec fn page_list_check(pages: Seq<u32>, allow_empty: bool) -> Result<(), Seq<char>> {
    if pages.len() == 0 {
        if allow_empty { Ok(()) } else { Err("A page order is required"@) }
    } else if pages.contains(0) {
        Err("Page numbers start at 1"@)
    } else if !no_repeats(pages) {
        Err("Page numbers may not be repeated"@)
    } else {
        Ok(())
    }
}

pub open spec fn merge_inputs_check(paths: Seq<Seq<char>>, kinds: Seq<PathKind>, i: int) -> Result<(), Seq<char>>
    decreases paths.len() - i,
{
    if i < 0 || i >= paths.len() {
        Ok(())
    } else if pdf_input_check(paths[i], kind_at(kinds, i)) is Err {
        pdf_input_check(paths[i], kind_at(kinds, i))
    } else {
        merge_inputs_check(paths, kinds, i + 1)
    }
}

/// The verdict on a PDF operation request.
pub open spec fn pdf_request_check(
    op: PdfOperationModel,
    kinds: Seq<PathKind>,
    output_kind: PathKind,
    parent_kind: PathKind,
) -> Result<(), Seq<char>> {
    match op {
        PdfOperationModel::Merge { input_paths, output_path } => {
            if input_paths.len() < 2 {
                Err("PDF merge requires at least two input files"@)
            } else if merge_inputs_check(input_paths, kinds, 0) is Err {
                merge_inputs_check(input_paths, kinds, 0)
            } else {
                pdf_output_check(output_path, output_kind, parent_kind)
            }
        },
        PdfOperationModel::Split { input_path, output_directory, pages_per_file } => {
            if pdf_input_check(input_path, kind_at(kinds, 0)) is Err {
                pdf_input_check(input_path, kind_at(kinds, 0))
            } else if !is_absolute_path(output_directory) || output_kind != PathKind::Directory {
                Err("The split output directory does not exist"@)
            } else if !(1 <= pages_per_file <= 1000) {
                Err("Pages per file must be between 1 and 1000"@)
            } else {
                Ok(())
            }
        },
        PdfOperationModel::Reorder { input_path, output_path, page_order } => {
            if pdf_input_check(input_path, kind_at(kinds, 0)) is Err {
                pdf_input_check(input_path, kind_at(kinds, 0))
            } else if pdf_output_check(output_path, output_kind, parent_kind) is Err {
                pdf_output_check(output_path, output_kind, parent_kind)
            } else {
                page_list_check(page_order, false)
            }
        },
        PdfOperationModel::Rotate { input_path, output_path, angle, pages } => {
            if pdf_input_check(input_path, kind_at(kinds, 0)) is Err {
                pdf_input_check(input_path, kind_at(kinds, 0))
            } else if pdf_output_check(output_path, output_kind, parent_kind) is Err {
                pdf_output_check(output_path, output_kind, parent_kind)
            } else if angle != 90 && angle != 180 && angle != 270 {
                Err("Rotation angle must be 90, 180, or 270 degrees"@)
            } else {
                page_list_check(pages, true)
            }
        },
    }
}

/// Checks that a path names an existing PDF.
pub fn validate_pdf(path: &str, kind: PathKind) -> (r: Result<(), String>)
    ensures
        check_view(r) == pdf_input_check(path@, kind),
{
    if !is_absolute(path) || kind != PathKind::File {
        return Err(concat2("PDF input does not exist: ", path));
    }
    if !has_ext(path, "pdf") {
        return Err(concat2("Input must be a PDF file: ", path));
    }
    Ok(())
}

/// Checks that a PDF may be written at `path` without overwriting anything.
pub fn validate_output(path: &str, kind: PathKind, parent_kind: PathKind) -> (r: Result<(), String>)
    ensures
        check_view(r) == pdf_output_check(path@, kind, parent_kind),
{
    if !is_absolute(path) {
        return Err("PDF output path must be absolute".to_owned());
    }
    if kind != PathKind::Missing {
        return Err("The PDF output file already exists".to_owned());
    }
    if !has_ext(path, "pdf") {
        return Err("The PDF output file must use the .pdf extension".to_owned());
    }
    if parent(path).is_none() || parent_kind != PathKind::Directory {
        return Err("The PDF output directory does not exist".to_owned());
    }
    Ok(())
}

/// Checks a list of page numbers: counted from 1 and never repeated.
pub fn validate_page_list(pages: &Vec<u32>, allow_empty: bool) -> (r: Result<(), String>)
    ensures
        check_view(r) == page_list_check(pages@, allow_empty),
{
    if pages.len() == 0 {
        return if allow_empty { Ok(()) } else { Err("A page order is required".to_owned()) };
    }
    let mut i: usize = 0;
    while i < pages.len()
        invariant
            i <= pages.len(),
            forall|k: int| 0 <= k < i ==> pages@[k] != 0,
        decreases pages.len() - i,
    {
        if pages[i] == 0 {
            assert(pages@.contains(0));
            return Err("Page numbers start at 1".to_owned());
        }
        i = i + 1;
    }
    assert(!pages@.contains(0));
    let mut a: usize = 0;
    while a < pages.len()
        invariant
            a <= pages.len(),
            pages@.len() > 0,
            !pages@.contains(0),
            forall|x: int, y: int| 0 <= x < a && x < y < pages.len() ==> pages@[x] != pages@[y],
        decreases pages.len() - a,
    {
        let mut b: usize = a + 1;
        while b < pages.len()
            invariant
                a < pages.len(),
                a + 1 <= b <= pages.len(),
                pages@.len() > 0,
                !pages@.contains(0),
                forall|x: int, y: int| 0 <= x < a && x < y < pages.len() ==> pages@[x] != pages@[y],
                forall|y: int| a < y < b ==> pages@[a as int] != pages@[y],
            decreases pages.len() - b,
        {
            if pages[a] == pages[b] {
                assert(!no_repeats(pages@));
                return Err("Page numbers may not be repeated".to_owned());
            }
            b = b + 1;
        }
        a = a + 1;
    }
    Ok(())
}

fn merge_inputs(paths: &Vec<String>, kinds: &Vec<PathKind>) -> (r: Result<(), String>)
    ensures
        check_view(r) == merge_inputs_check(views(paths@), kinds@, 0),
{
    let ghost all = views(paths@);
    let mut i: usize = 0;
    while i < paths.len()
        invariant
            i <= paths.len(),
            all == views(paths@),
            merge_inputs_check(all, kinds@, 0) == merge_inputs_check(all, kinds@, i as int),
        decreases paths.len() - i,
    {
        let kind = if i < kinds.len() { kinds[i] } else { PathKind::Missing };
        assert(all[i as int] == paths@[i as int]@);
        let r = validate_pdf(paths[i].as_str(), kind);
        if r.is_err() {
            return r;
        }
        i = i + 1;
    }
    Ok(())
}

/// Checks a PDF operation request against what was found on disk.
pub fn validate_request(operation: &PdfOperation, facts: &OperationFacts) -> (r: Result<(), String>)
    ensures
        check_view(r) == pdf_request_check(operation@, facts.input_kinds@, facts.output_kind, facts.output_parent_kind),
{
    let first = if facts.input_kinds.len() > 0 { facts.input_kinds[0] } else { PathKind::Missing };
    match operation {
        PdfOperation::Merge { input_paths, output_path } => {
            if input_paths.len() < 2 {
                return Err("PDF merge requires at least two input files".to_owned());
            }
            let r = merge_inputs(input_paths, &facts.input_kinds);
            if r.is_err() {
                return r;
            }
            validate_output(output_path.as_str(), facts.output_kind, facts.output_parent_kind)
        },
        PdfOperation::Split { input_path, output_directory, pages_per_file } => {
            let r = validate_pdf(input_path.as_str(), first);
            if r.is_err() {
                return r;
            }
            if !is_absolute(output_directory.as_str()) || facts.output_kind != PathKind::Directory {
                return Err("The split output directory does not exist".to_owned());
            }
            if !(1 <= *pages_per_file && *pages_per_file <= 1000) {
                return Err("Pages per file must be between 1 and 1000".to_owned());
            }
            Ok(())
        },
        PdfOperation::Reorder { input_path, output_path, page_order } => {
            let r = validate_pdf(input_path.as_str(), first);
            if r.is_err() {
                return r;
            }
            let r = validate_output(output_path.as_str(), facts.output_kind, facts.output_parent_kind);
            if r.is_err() {
                return r;
            }
            validate_page_list(page_order, false)
        },
        PdfOperation::Rotate { input_path, output_path, angle, pages } => {
            let r = validate_pdf(input_path.as_str(), first);
            if r.is_err() {
                return r;
            }
            let r = validate_output(output_path.as_str(), facts.output_kind, facts.output_parent_kind);
            if r.is_err() {
                return r;
            }
            if *angle != 90 && *angle != 180 && *angle != 270 {
                return Err("Rotation angle must be 90, 180, or 270 degrees".to_owned());
            }
            validate_page_list(pages, true)
        },
    }
}

/// The staging path of a single-output operation.
pub fn staged_output_path(output: &str, job_id: &str) -> (r: Result<String, String>)
    ensures
        text_result_view(r) == staged_beside(
            output@,
            job_id@,
            "pdf"@,
            "PDF output directory is unavailable"@,
            "PDF output filename is invalid"@,
        ),
{
    staged_path_beside(output, job_id, "pdf", "PDF output directory is unavailable", "PDF output filename is invalid")
}

} // verus!

verus! {

/// The `--pages` arguments of a merge: every page of each input, in order.
pub open spec fn merge_pages(inputs: Seq<Seq<char>>) -> Seq<Seq<char>>
    decreases inputs.len(),
{
    if inputs.len() == 0 {
        Seq::empty()
    } else {
        merge_pages(inputs.drop_last()) + seq![inputs.last(), "1-z"@]
    }
}

pub open spec fn merge_arguments(inputs: Seq<Seq<char>>, staged: Seq<char>) -> Seq<Seq<char>> {
    seq!["--empty"@, "--pages"@] + merge_pages(inputs) + seq!["--"@, staged]
}

/// The qpdf command line of a merge into `staged`.
pub fn merge_args(inputs: &Vec<String>, staged: &str) -> (r: Vec<String>)
    ensures
        views(r@) == merge_arguments(views(inputs@), staged@),
{
    let mut r: Vec<String> = Vec::new();
    r.push("--empty".to_owned());
    r.push("--pages".to_owned());
    let ghost all = views(inputs@);
    let mut i: usize = 0;
    while i < inputs.len()
        invariant
            i <= inputs.len(),
            all == views(inputs@),
            views(r@) == seq!["--empty"@, "--pages"@] + merge_pages(all.take(i as int)),
        decreases inputs.len() - i,
    {
        let ghost before = r@;
        r.push(inputs[i].clone());
        r.push("1-z".to_owned());
        proof {
            assert(all.take(i + 1).drop_last() =~= all.take(i as int));
            assert(views(r@) =~= views(before) + seq![all[i as int], "1-z"@]);
        }
        i = i + 1;
    }
    let ghost before = r@;
    r.push("--".to_owned());
    r.push(staged.to_owned());
    assert(all.take(inputs.len() as int) =~= all);
    assert(views(r@) =~= views(before) + seq!["--"@, staged@]);
    r
}

/// A page order lists every page from 1 to `count` exactly once.
pub open spec fn is_page_permutation(order: Seq<u32>, count: u32) -> bool {
    &&& order.len() == count
    &&& forall|i: int| 0 <= i < order.len() ==> 1 <= #[trigger] order[i] <= count
    &&& no_repeats(order)
}

/// Whether a page order lists every page from 1 to `count` exactly once.
pub fn is_complete_page_order(order: &Vec<u32>, count: u32) -> (r: bool)
    ensures
        r == is_page_permutation(order@, count),
{
    if order.len() != count as usize {
        return false;
    }
    let mut seen: Vec<bool> = Vec::new();
    let mut k: usize = 0;
    while k < order.len()
        invariant
            k <= order.len(),
            seen.len() == k,
            forall|j: int| 0 <= j < k ==> !seen@[j],
        decreases order.len() - k,
    {
        seen.push(false);
        k = k + 1;
    }
    let mut i: usize = 0;
    while i < order.len()
        invariant
            i <= order.len(),
            order.len() == count,
            seen.len() == order.len(),
            forall|a: int| 0 <= a < i ==> 1 <= #[trigger] order@[a] <= count,
            forall|a: int, b: int| 0 <= a < b < i ==> order@[a] != order@[b],
            forall|j: int| 0 <= j < count ==> (#[trigger] seen@[j] <==> exists|a: int| 0 <= a < i && order@[a] == j + 1),
        decreases order.len() - i,
    {
        let p = order[i];
        if p < 1 || p > count {
            return false;
        }
        if seen[(p - 1) as usize] {
            proof {
                assert(seen@[p - 1]);
                let a = choose|a: int| 0 <= a < i && order@[a] == (p - 1) + 1;
                assert(order@[a] == order@[i as int]);
                assert(!no_repeats(order@));
            }
            return false;
        }
        seen.set((p - 1) as usize, true);
        proof {
            assert forall|j: int| 0 <= j < count implies (#[trigger] seen@[j] <==> exists|a: int| 0 <= a < i + 1 && order@[a] == j + 1) by {
                if j == p - 1 {
                    assert(order@[i as int] == j + 1);
                }
            }
        }
        i = i + 1;
    }
    true
}

pub open spec fn reorder_arguments(input: Seq<char>, order: Seq<u32>, staged: Seq<char>) -> Seq<Seq<char>> {
    seq![input, "--pages"@, "."@, comma_list(order), "--"@, staged]
}

pub open spec fn reorder_plan(input: Seq<char>, output: Seq<char>, order: Seq<u32>, count: u32, job_id: Seq<char>)
    -> Result<(Seq<Seq<char>>, Seq<char>), Seq<char>>
{
    if !is_page_permutation(order, count) {
        Err("Page order must contain every page from 1 through "@ + decimal(count as nat) + " exactly once"@)
    } else {
        match staged_beside(output, job_id, "pdf"@, "PDF output directory is unavailable"@, "PDF output filename is invalid"@) {
            Err(e) => Err(e),
            Ok(staged) => Ok((reorder_arguments(input, order, staged), staged)),
        }
    }
}

pub open spec fn rotate_arguments(input: Seq<char>, staged: Seq<char>, angle: u16, pages: Seq<u32>) -> Seq<Seq<char>> {
    let suffix = if pages.len() == 0 { Seq::empty() } else { ":"@ + comma_list(pages) };
    seq![input, staged, "--rotate=+"@ + decimal(angle as nat) + suffix]
}

pub open spec fn rotate_plan(input: Seq<char>, output: Seq<char>, angle: u16, pages: Seq<u32>, count: u32, job_id: Seq<char>)
    -> Result<(Seq<Seq<char>>, Seq<char>), Seq<char>>
{
    if pages.len() > 0 && exists|i: int| 0 <= i < pages.len() && #[trigger] pages[i] > count {
        Err("Rotation pages must be between 1 and "@ + decimal(count as nat))
    } else {
        match staged_beside(output, job_id, "pdf"@, "PDF output directory is unavailable"@, "PDF output filename is invalid"@) {
            Err(e) => Err(e),
            Ok(staged) => Ok((rotate_arguments(input, staged, angle, pages), staged)),
        }
    }
}

pub open spec fn merge_plan(inputs: Seq<Seq<char>>, output: Seq<char>, job_id: Seq<char>)
    -> Result<(Seq<Seq<char>>, Seq<char>), Seq<char>>
{
    match staged_beside(output, job_id, "pdf"@, "PDF output directory is unavailable"@, "PDF output filename is invalid"@) {
        Err(e) => Err(e),
        Ok(staged) => Ok((merge_arguments(inputs, staged), staged)),
    }
}

/// Reorder and split need the page count first; so does a rotation of chosen pages.
pub open spec fn needs_count(op: PdfOperationModel) -> bool {
    match op {
        PdfOperationModel::Merge { .. } => false,
        PdfOperationModel::Split { .. } => true,
        PdfOperationModel::Reorder { .. } => true,
        PdfOperationModel::Rotate { pages, .. } => pages.len() > 0,
    }
}

pub fn needs_page_count(operation: &PdfOperation) -> (r: bool)
    ensures
        r == needs_count(operation@),
{
    match operation {
        PdfOperation::Merge { .. } => false,
        PdfOperation::Split { .. } => true,
        PdfOperation::Reorder { .. } => true,
        PdfOperation::Rotate { pages, .. } => pages.len() > 0,
    }
}

/// One qpdf run that writes `staged`, to be checked and renamed to the output.
#[derive(Debug)]
pub struct SingleOutputPlan {
    pub args: Vec<String>,
    pub staged: String,
}

/// The plan of a merge, reorder or rotation, given the page count when the
/// operation needs it.
pub open spec fn single_plan(op: PdfOperationModel, count: u32, job_id: Seq<char>)
    -> Result<(Seq<Seq<char>>, Seq<char>), Seq<char>>
{
    match op {
        PdfOperationModel::Merge { input_paths, output_path } => merge_plan(input_paths, output_path, job_id),
        PdfOperationModel::Reorder { input_path, output_path, page_order } =>
            reorder_plan(input_path, output_path, page_order, count, job_id),
        PdfOperationModel::Rotate { input_path, output_path, angle, pages } =>
            rotate_plan(input_path, output_path, angle, pages, count, job_id),
        PdfOperationModel::Split { .. } => Err("A split writes several outputs"@),
    }
}

pub open spec fn plan_view(r: Result<SingleOutputPlan, String>) -> Result<(Seq<Seq<char>>, Seq<char>), Seq<char>> {
    match r {
        Ok(p) => Ok((views(p.args@), p.staged@)),
        Err(e) => Err(e@),
    }
}

#[verifier::loop_isolation(false)]
/// Plans a merge, reorder or rotation. `page_count` is the count qpdf reported
/// for the input; it is read only when [`needs_page_count`] holds.
pub fn plan_single_output(operation: &PdfOperation, page_count: u32, job_id: &str) -> (r: Result<SingleOutputPlan, String>)
    requires
        !(operation@ is Split),
    ensures
        plan_view(r) == single_plan(operation@, page_count, job_id@),
{
    match operation {
        PdfOperation::Merge { input_paths, output_path } => {
            let staged = match staged_output_path(output_path.as_str(), job_id) {
                Ok(s) => s,
                Err(e) => return Err(e),
            };
            let args = merge_args(input_paths, staged.as_str());
            Ok(SingleOutputPlan { args, staged })
        },
        PdfOperation::Reorder { input_path, output_path, page_order } => {
            if !is_complete_page_order(page_order, page_count) {
                let mut m = "Page order must contain every page from 1 through ".to_owned();
                let n = decimal_string(page_count as u64);
                m.append(n.as_str());
                m.append(" exactly once");
                return Err(m);
            }
            let staged = match staged_output_path(output_path.as_str(), job_id) {
                Ok(s) => s,
                Err(e) => return Err(e),
            };
            let spec_text = comma_separated(page_order);
            let mut args: Vec<String> = Vec::new();
            args.push(input_path.clone());
            args.push("--pages".to_owned());
            args.push(".".to_owned());
            args.push(spec_text);
            args.push("--".to_owned());
            args.push(staged.clone());
            assert(views(args@) =~= reorder_arguments(input_path@, page_order@, staged@));
            Ok(SingleOutputPlan { args, staged })
        },
        PdfOperation::Rotate { input_path, output_path, angle, pages } => {
            if pages.len() > 0 {
                let mut i: usize = 0;
                while i < pages.len()
                    invariant
                        i <= pages.len(),
                        forall|k: int| 0 <= k < i ==> pages@[k] <= page_count,
                    decreases pages.len() - i,
                {
                    if pages[i] > page_count {
                        assert(pages@[i as int] > page_count);
                        let n = decimal_string(page_count as u64);
                        let m = concat2("Rotation pages must be between 1 and ", n.as_str());
                        assert(rotate_plan(input_path@, output_path@, *angle, pages@, page_count, job_id@)
                            == Err::<(Seq<Seq<char>>, Seq<char>), Seq<char>>(m@));
                        return Err(m);
                    }
                    i = i + 1;
                }
            }
            let staged = match staged_output_path(output_path.as_str(), job_id) {
                Ok(s) => s,
                Err(e) => return Err(e),
            };
            let mut flag = "--rotate=+".to_owned();
            let a = decimal_string(*angle as u64);
            flag.append(a.as_str());
            if pages.len() > 0 {
                flag.append(":");
                let list = comma_separated(pages);
                flag.append(list.as_str());
                assert(flag@ =~= "--rotate=+"@ + decimal(*angle as nat) + (":"@ + comma_list(pages@)));
            } else {
                assert(flag@ =~= "--rotate=+"@ + decimal(*angle as nat) + Seq::<char>::empty());
            }
            let mut args: Vec<String> = Vec::new();
            args.push(input_path.clone());
            args.push(staged.clone());
            args.push(flag);
            assert(views(args@) =~= rotate_arguments(input_path@, staged@, *angle, pages@));
            Ok(SingleOutputPlan { args, staged })
        },
        PdfOperation::Split { .. } => Err("A split writes several outputs".to_owned()),
    }
}

/// The qpdf command line that asks for the page count of `input`.
pub fn page_count_args(input: &str) -> (r: Vec<String>)
    ensures
        views(r@) == seq!["--show-npages"@, input@],
{
    let mut r: Vec<String> = Vec::new();
    r.push("--show-npages".to_owned());
    r.push(input.to_owned());
    assert(views(r@) =~= seq!["--show-npages"@, input@]);
    r
}

/// The qpdf command line that checks the structure of `path`.
pub fn check_args(path: &str) -> (r: Vec<String>)
    ensures
        views(r@) == seq!["--check"@, path@],
{
    let mut r: Vec<String> = Vec::new();
    r.push("--check".to_owned());
    r.push(path.to_owned());
    assert(views(r@) =~= seq!["--check"@, path@]);
    r
}

/// The page count in qpdf's answer to `--show-npages`.
pub open spec fn page_count_answer(stdout: Seq<char>) -> Result<u32, Seq<char>> {
    match parse_unsigned_spec(trimmed(stdout), u32::MAX as nat) {
        Some(n) => Ok(n as u32),
        None => Err("qpdf returned an invalid page count"@),
    }
}

/// Reads the page count that qpdf printed.
pub fn parse_page_count(stdout: &str) -> (r: Result<u32, String>)
    ensures
        match r {
            Ok(n) => page_count_answer(stdout@) == Ok::<u32, Seq<char>>(n),
            Err(e) => page_count_answer(stdout@) == Err::<u32, Seq<char>>(e@),
        },
{
    let t = trim(stdout);
    match parse_unsigned(t.as_str(), u32::MAX) {
        Some(n) => Ok(n as u32),
        None => Err("qpdf returned an invalid page count".to_owned()),
    }
}

/// qpdf succeeded, or finished with warnings (exit status 3).
pub fn run_succeeded(success: bool, code: Option<i32>) -> (r: bool)
    ensures
        r == (success || code == Some(3i32)),
{
    success || matches!(code, Some(3))
}

/// The error reported for a failed qpdf run; `status` is how the exit status prints.
pub open spec fn qpdf_error(stderr: Seq<char>, status: Seq<char>) -> Seq<char> {
    if trimmed(stderr).len() == 0 {
        "qpdf exited with status "@ + status
    } else {
        "qpdf operation failed: "@ + trimmed(stderr)
    }
}

pub fn process_error(stderr: &str, status: &str) -> (r: String)
    ensures
        r@ == qpdf_error(stderr@, status@),
{
    let detail = trim(stderr);
    if detail.as_str().unicode_len() == 0 {
        concat2("qpdf exited with status ", status)
    } else {
        concat2("qpdf operation failed: ", detail.as_str())
    }
}

} // verus!

verus! {

/// The number of files a split writes.
pub open spec fn chunk_count(count: nat, per_file: nat) -> nat {
    if per_file == 0 { 0 } else { ((count + per_file - 1) / per_file as int) as nat }
}

/// The first page of the `k`-th file.
pub open spec fn chunk_start(k: nat, per_file: nat) -> nat {
    k * per_file + 1
}

/// The last page of the `k`-th file.
pub open spec fn chunk_end(k: nat, per_file: nat, count: nat) -> nat {
    if k * per_file + per_file <= count { k * per_file + per_file } else { count }
}

pub open spec fn split_file_name(stem: Seq<char>, start: nat, end: nat) -> Seq<char> {
    if start == end {
        stem + "-page-"@ + decimal(start) + ".pdf"@
    } else {
        stem + "-pages-"@ + decimal(start) + "-"@ + decimal(end) + ".pdf"@
    }
}

pub open spec fn split_staged_name(stem: Seq<char>, job_id: Seq<char>, start: nat, end: nat) -> Seq<char> {
    "."@ + stem + "."@ + job_id + ".part-"@ + decimal(start) + "-"@ + decimal(end) + ".pdf"@
}

pub open spec fn split_page_spec(start: nat, end: nat) -> Seq<char> {
    if start == end { decimal(start) } else { decimal(start) + "-"@ + decimal(end) }
}

/// One output file of a split.
#[derive(Debug)]
pub struct SplitPart {
    pub start: u32,
    pub end: u32,
    pub page_spec: String,
    pub staged_path: String,
    pub final_path: String,
}

pub struct SplitPartModel {
    pub start: nat,
    pub end: nat,
    pub page_spec: Seq<char>,
    pub staged_path: Seq<char>,
    pub final_path: Seq<char>,
}

impl View for SplitPart {
    type V = SplitPartModel;

    open spec fn view(&self) -> SplitPartModel {
        SplitPartModel {
            start: self.start as nat,
            end: self.end as nat,
            page_spec: self.page_spec@,
            staged_path: self.staged_path@,
            final_path: self.final_path@,
        }
    }
}

/// The `k`-th file of a split of `count` pages into files of `per_file` pages.
pub open spec fn split_part(dir: Seq<char>, stem: Seq<char>, job_id: Seq<char>, k: nat, per_file: nat, count: nat) -> SplitPartModel {
    let s = chunk_start(k, per_file);
    let e = chunk_end(k, per_file, count);
    SplitPartModel {
        start: s,
        end: e,
        page_spec: split_page_spec(s, e),
        staged_path: joined(dir, split_staged_name(stem, job_id, s, e)),
        final_path: joined(dir, split_file_name(stem, s, e)),
    }
}

proof fn lemma_chunk_bounds(k: nat, per_file: nat, count: nat)
    requires
        per_file >= 1,
        k < chunk_count(count, per_file),
    ensures
        k * per_file < count,
        k * per_file + per_file <= count + per_file - 1,
{
    let c = chunk_count(count, per_file);
    assert(c * per_file <= count + per_file - 1) by (nonlinear_arith)
        requires
            per_file >= 1,
            c == ((count + per_file - 1) / per_file as int) as nat,
    ;
    assert((k + 1) * per_file <= c * per_file) by (nonlinear_arith)
        requires
            k + 1 <= c,
    ;
    assert(k * per_file + per_file == (k + 1) * per_file) by (nonlinear_arith);
}

fn split_text(stem: &str, start: u64, end: u64) -> (r: String)
    ensures
        r@ == split_file_name(stem@, start as nat, end as nat),
{
    let mut r = stem.to_owned();
    if start == end {
        r.append("-page-");
        let s = decimal_string(start);
        r.append(s.as_str());
        r.append(".pdf");
    } else {
        r.append("-pages-");
        let s = decimal_string(start);
        r.append(s.as_str());
        r.append("-");
        let e = decimal_string(end);
        r.append(e.as_str());
        r.append(".pdf");
    }
    r
}

fn staged_split_text(stem: &str, job_id: &str, start: u64, end: u64) -> (r: String)
    ensures
        r@ == split_staged_name(stem@, job_id@, start as nat, end as nat),
{
    let mut r = ".".to_owned();
    r.append(stem);
    r.append(".");
    r.append(job_id);
    r.append(".part-");
    let s = decimal_string(start);
    r.append(s.as_str());
    r.append("-");
    let e = decimal_string(end);
    r.append(e.as_str());
    r.append(".pdf");
    r
}

fn page_spec_text(start: u64, end: u64) -> (r: String)
    ensures
        r@ == split_page_spec(start as nat, end as nat),
{
    if start == end {
        decimal_string(start)
    } else {
        let mut r = decimal_string(start);
        r.append("-");
        let e = decimal_string(end);
        r.append(e.as_str());
        r
    }
}

/// The split is refused with `e`: some planned file exists, every file
/// planned before it was free, and `e` names the one that exists.
pub open spec fn split_refused<F: Fn(&str) -> bool>(
    probe: F,
    dir: Seq<char>,
    stem: Seq<char>,
    job_id: Seq<char>,
    per_file: nat,
    count: nat,
    e: Seq<char>,
) -> bool {
    exists|k: nat| #![trigger split_part(dir, stem, job_id, k, per_file, count)]
        k < chunk_count(count, per_file)
        && e == "Split output already exists: "@ + split_part(dir, stem, job_id, k, per_file, count).final_path
        && probed(probe, split_part(dir, stem, job_id, k, per_file, count).final_path, true)
        && forall|j: nat| j < k ==> #[trigger] probed(probe, split_part(dir, stem, job_id, j, per_file, count).final_path, false)
}

/// Plans a split of `input` (of `count` pages) into files of `per_file` pages
/// inside `output_directory`. Every final name is probed in order; the plan is
/// refused at the first one that the probe reports as existing.
pub fn plan_split<F: Fn(&str) -> bool>(
    input: &str,
    output_directory: &str,
    count: u32,
    per_file: u32,
    job_id: &str,
    probe: &F,
) -> (r: Result<Vec<SplitPart>, String>)
    requires
        per_file >= 1,
        forall|s: &str| probe.requires((s,)),
    ensures
        stem_of(input@) is None ==> r is Err && r->Err_0@ == "Input filename is invalid"@,
        stem_of(input@) matches Some(stem) ==> {
            &&& r matches Ok(parts) ==> {
                &&& parts.len() == chunk_count(count as nat, per_file as nat)
                &&& forall|k: int| 0 <= k < chunk_count(count as nat, per_file as nat) ==> #[trigger] parts@[k]@
                    == split_part(output_directory@, stem, job_id@, k as nat, per_file as nat, count as nat)
                &&& forall|k: nat| k < chunk_count(count as nat, per_file as nat) ==> #[trigger] probed(*probe,
                    split_part(output_directory@, stem, job_id@, k, per_file as nat, count as nat).final_path, false)
            }
            &&& r matches Err(e) ==> split_refused(*probe, output_directory@, stem, job_id@, per_file as nat, count as nat, e@)
        },
{
    let stem = match file_stem(input) {
        Some(s) => s,
        None => return Err("Input filename is invalid".to_owned()),
    };
    let total: u64 = count as u64;
    let size: u64 = per_file as u64;
    let chunks: u64 = (total + size - 1) / size;
    assert(chunks == chunk_count(count as nat, per_file as nat));
    let mut parts: Vec<SplitPart> = Vec::new();
    let mut k: u64 = 0;
    while k < chunks
        invariant
            k <= chunks,
            stem_of(input@) == Some(stem@),
            chunks == chunk_count(count as nat, per_file as nat),
            total == count,
            size == per_file,
            size >= 1,
            forall|s: &str| probe.requires((s,)),
            parts.len() == k,
            forall|j: int| 0 <= j < k ==> #[trigger] parts@[j]@ == split_part(output_directory@, stem@, job_id@, j as nat, per_file as nat, count as nat),
            forall|j: nat| j < k ==> #[trigger] probed(*probe, split_part(output_directory@, stem@, job_id@, j, per_file as nat, count as nat).final_path, false),
        decreases chunks - k,
    {
        proof {
            lemma_chunk_bounds(k as nat, size as nat, total as nat);
        }
        let start: u64 = k * size + 1;
        let end: u64 = if k * size + size <= total { k * size + size } else { total };
        let name = split_text(stem.as_str(), start, end);
        let final_path = join(output_directory, name.as_str());
        let s = final_path.as_str();
        let taken = probe(s);
        proof {
            assert(probed(*probe, final_path@, taken));
            assert(final_path@ == split_part(output_directory@, stem@, job_id@, k as nat, per_file as nat, count as nat).final_path);
        }
        if taken {
            let e = concat2("Split output already exists: ", final_path.as_str());
            proof {
                assert(probed(*probe, split_part(output_directory@, stem@, job_id@, k as nat, per_file as nat, count as nat).final_path, true));
                assert((k as nat) < chunk_count(count as nat, per_file as nat)
                    && e@ == "Split output already exists: "@ + split_part(output_directory@, stem@, job_id@, k as nat, per_file as nat, count as nat).final_path
                    && probed(*probe, split_part(output_directory@, stem@, job_id@, k as nat, per_file as nat, count as nat).final_path, true)
                    && forall|j: nat| j < k ==> #[trigger] probed(*probe, split_part(output_directory@, stem@, job_id@, j, per_file as nat, count as nat).final_path, false));
                assert(split_refused(*probe, output_directory@, stem@, job_id@, per_file as nat, count as nat, e@));
            }
            return Err(e);
        }
        let staged_name = staged_split_text(stem.as_str(), job_id, start, end);
        let staged_path = join(output_directory, staged_name.as_str());
        let page_spec = page_spec_text(start, end);
        let ghost before = parts@;
        parts.push(SplitPart { start: start as u32, end: end as u32, page_spec, staged_path, final_path });
        proof {
            assert(parts@[k as int]@ == split_part(output_directory@, stem@, job_id@, k as nat, per_file as nat, count as nat));
            assert forall|j: int| 0 <= j < k + 1 implies #[trigger] parts@[j]@ == split_part(output_directory@, stem@, job_id@, j as nat, per_file as nat, count as nat) by {
                if j < k {
                    assert(parts@[j] == before[j]);
                }
            }
        }
        k = k + 1;
    }
    Ok(parts)
}

/// The qpdf command line that writes one file of a split.
pub fn split_part_args(input: &str, part: &SplitPart) -> (r: Vec<String>)
    ensures
        views(r@) == seq![input@, "--pages"@, "."@, part.page_spec@, "--"@, part.staged_path@],
{
    let mut r: Vec<String> = Vec::new();
    r.push(input.to_owned());
    r.push("--pages".to_owned());
    r.push(".".to_owned());
    r.push(part.page_spec.clone());
    r.push("--".to_owned());
    r.push(part.staged_path.clone());
    assert(views(r@) =~= seq![input@, "--pages"@, "."@, part.page_spec@, "--"@, part.staged_path@]);
    r
}

/// A split covers every page exactly once, in order: the files hold the
/// consecutive ranges 1..e0, e0+1..e1, ..., ending at the last page, none
/// longer than `per_file` pages, and a document without pages yields no file.
pub proof fn law_split_covers_every_page_once(count: nat, per_file: nat)
    requires
        per_file >= 1,
    ensures
        chunk_count(count, per_file) == 0 <==> count == 0,
        chunk_count(count, per_file) > 0 ==> chunk_start(0, per_file) == 1,
        chunk_count(count, per_file) > 0 ==> chunk_end((chunk_count(count, per_file) - 1) as nat, per_file, count) == count,
        forall|k: nat| #![trigger chunk_start(k, per_file)] k < chunk_count(count, per_file) ==> {
            &&& chunk_start(k, per_file) <= chunk_end(k, per_file, count)
            &&& chunk_end(k, per_file, count) - chunk_start(k, per_file) + 1 <= per_file
        },
        forall|k: nat| #![trigger chunk_start(k + 1, per_file)] k + 1 < chunk_count(count, per_file)
            ==> chunk_start(k + 1, per_file) == chunk_end(k, per_file, count) + 1,
{
    let c = chunk_count(count, per_file);
    if count == 0 {
        assert(c == 0) by (nonlinear_arith)
            requires
                per_file >= 1,
                c == ((0 + per_file - 1) / per_file as int) as nat,
        ;
    } else {
        assert(c >= 1) by (nonlinear_arith)
            requires
                per_file >= 1,
                count >= 1,
                c == ((count + per_file - 1) / per_file as int) as nat,
        ;
        assert((c - 1) * per_file + per_file >= count) by (nonlinear_arith)
            requires
                per_file >= 1,
                c == ((count + per_file - 1) / per_file as int) as nat,
        ;
        assert(0 * per_file == 0) by (nonlinear_arith);
        lemma_chunk_bounds((c - 1) as nat, per_file, count);
    }
    assert forall|k: nat| #![trigger chunk_start(k, per_file)] k < c implies {
        &&& chunk_start(k, per_file) <= chunk_end(k, per_file, count)
        &&& chunk_end(k, per_file, count) - chunk_start(k, per_file) + 1 <= per_file
    } by {
        lemma_chunk_bounds(k, per_file, count);
    }
    assert forall|k: nat| #![trigger chunk_start(k + 1, per_file)] k + 1 < c
        implies chunk_start(k + 1, per_file) == chunk_end(k, per_file, count) + 1 by {
        lemma_chunk_bounds(k + 1, per_file, count);
        assert((k + 1) * per_file == k * per_file + per_file) by (nonlinear_arith);
    }
}

} // verus!

verus! {

/// The progress reported once `done` of the `total` files of a split are
/// written: up to 100.
pub fn split_progress(done: usize, total: usize) -> (p: u8)
    requires
        0 < total,
        done <= total,
    ensures
        p as int == (done as int * 100) / (total as int),
{
    let d = done as u128;
    let t = total as u128;
    assert(d * 100 <= t * 100) by (nonlinear_arith)
        requires
            d <= t,
    ;
    let q: u128 = (d * 100) / t;
    assert(q <= 100) by (nonlinear_arith)
        requires
            d <= t,
            t > 0,
            q == (d * 100) / (t as int),
    ;
    q as u8
}

} // verus!

verus! {

/// The qpdf command line that prints the page count of `input`.
pub open spec fn page_count_arguments(input: Seq<char>) -> Seq<Seq<char>> {
    seq!["--show-npages"@, input]
}

/// The qpdf command line that checks the PDF at `path`.
pub open spec fn check_arguments(path: Seq<char>) -> Seq<Seq<char>> {
    seq!["--check"@, path]
}

/// The verdict on a qpdf run that ended with `x`: success, success with
/// warnings (exit status 3), or the error it reported.
pub open spec fn qpdf_verdict(x: EngineExit) -> Result<(), Seq<char>> {
    if x.success || x.code == Some(3i32) {
        Ok(())
    } else {
        Err(qpdf_error(x.stderr@, x.status@))
    }
}

/// Running qpdf at `qpdf` with `args` came to `r`: `Ok(true)` when it
/// succeeded, `Ok(false)` when the run was cancelled, or the error.
pub open spec fn checked<Q: Fn(&str, &Vec<String>) -> Result<Option<EngineExit>, String>>(
    run: Q,
    qpdf: Seq<char>,
    args: Seq<Seq<char>>,
    r: Result<bool, String>,
) -> bool {
    exists|o: Result<Option<EngineExit>, String>| #[trigger] ran(run, qpdf, args, o) && match o {
        Err(m) => r is Err && r->Err_0@ == m@,
        Ok(None) => r == Ok::<bool, String>(false),
        Ok(Some(x)) => match qpdf_verdict(x) {
            Ok(()) => r == Ok::<bool, String>(true),
            Err(e) => r is Err && r->Err_0@ == e,
        },
    }
}

/// Runs qpdf with `args` and reads how it ended.
fn run_checked<Q: Fn(&str, &Vec<String>) -> Result<Option<EngineExit>, String>>(
    qpdf: &str,
    args: &Vec<String>,
    run: &Q,
) -> (r: Result<bool, String>)
    requires
        forall|p: &str, a: &Vec<String>| run.requires((p, a)),
    ensures
        checked(*run, qpdf@, views(args@), r),
{
    let o = run(qpdf, args);
    assert(ran(*run, qpdf@, views(args@), o));
    let ghost answer = o;
    match o {
        Err(m) => Err(m),
        Ok(None) => Ok(false),
        Ok(Some(x)) => {
            assert(answer == Ok::<Option<EngineExit>, String>(Some(x)));
            if run_succeeded(x.success, x.code) {
                Ok(true)
            } else {
                Err(process_error(x.stderr.as_str(), x.status.as_str()))
            }
        },
    }
}

/// qpdf was asked for the page count of `input` and the answer came to `r`:
/// the count, `None` when the run was cancelled, or the error.
pub open spec fn counted<Q: Fn(&str, &Vec<String>) -> Result<Option<EngineExit>, String>>(
    run: Q,
    qpdf: Seq<char>,
    input: Seq<char>,
    r: Result<Option<u32>, String>,
) -> bool {
    exists|o: Result<Option<EngineExit>, String>| #[trigger] ran(run, qpdf, page_count_arguments(input), o)
        && match o {
        Err(m) => r is Err && r->Err_0@ == m@,
        Ok(None) => r == Ok::<Option<u32>, String>(None),
        Ok(Some(x)) => if x.success {
            match page_count_answer(x.stdout@) {
                Ok(n) => r == Ok::<Option<u32>, String>(Some(n)),
                Err(e) => r is Err && r->Err_0@ == e,
            }
        } else {
            r is Err && r->Err_0@ == qpdf_error(x.stderr@, x.status@)
        },
    }
}

/// Asks qpdf for the page count of `input`.
pub fn read_page_count<Q: Fn(&str, &Vec<String>) -> Result<Option<EngineExit>, String>>(
    qpdf: &str,
    input: &str,
    run: &Q,
) -> (r: Result<Option<u32>, String>)
    requires
        forall|p: &str, a: &Vec<String>| run.requires((p, a)),
    ensures
        counted(*run, qpdf@, input@, r),
{
    let args = page_count_args(input);
    let o = run(qpdf, &args);
    assert(ran(*run, qpdf@, page_count_arguments(input@), o));
    let ghost answer = o;
    match o {
        Err(m) => Err(m),
        Ok(None) => Ok(None),
        Ok(Some(x)) => {
            assert(answer == Ok::<Option<EngineExit>, String>(Some(x)));
            if x.success {
                match parse_page_count(x.stdout.as_str()) {
                    Ok(n) => Ok(Some(n)),
                    Err(e) => Err(e),
                }
            } else {
                Err(process_error(x.stderr.as_str(), x.status.as_str()))
            }
        },
    }
}

/// A page count, or why there is none.
pub open spec fn count_answer(c: Result<Option<u32>, String>) -> Result<u32, Seq<char>> {
    match c {
        Ok(Some(n)) => Ok(n),
        Ok(None) => Err("PDF inspection was cancelled"@),
        Err(e) => Err(e@),
    }
}

pub open spec fn qpdf_missing() -> Seq<char> {
    "The bundled qpdf executable could not be found"@
}

/// The page count of an existing PDF. qpdf is run by `run` only when the input
/// is a PDF file and qpdf is there (`qpdf_is_file`).
pub fn inspect_page_count<Q: Fn(&str, &Vec<String>) -> Result<Option<EngineExit>, String>>(
    qpdf: &str,
    input: &str,
    input_kind: PathKind,
    qpdf_is_file: bool,
    run: &Q,
) -> (r: Result<u32, String>)
    requires
        forall|p: &str, a: &Vec<String>| run.requires((p, a)),
    ensures
        match pdf_input_check(input@, input_kind) {
            Err(e) => r is Err && r->Err_0@ == e,
            Ok(()) => if !qpdf_is_file {
                r is Err && r->Err_0@ == qpdf_missing()
            } else {
                exists|c: Result<Option<u32>, String>| #[trigger] counted(*run, qpdf@, input@, c)
                    && count_answer(c) == match r {
                        Ok(n) => Ok::<u32, Seq<char>>(n),
                        Err(e) => Err(e@),
                    }
            },
        },
{
    validate_pdf(input, input_kind)?;
    if !qpdf_is_file {
        return Err("The bundled qpdf executable could not be found".to_owned());
    }
    let c = read_page_count(qpdf, input, run);
    assert(counted(*run, qpdf@, input@, c));
    match c {
        Ok(Some(n)) => Ok(n),
        Ok(None) => Err("PDF inspection was cancelled".to_owned()),
        Err(e) => Err(e),
    }
}

/// The check of a file qpdf wrote at `path` came to `r`: it must be there and
/// not empty, and `qpdf --check` must pass on it.
pub open spec fn validated<
    Q: Fn(&str, &Vec<String>) -> Result<Option<EngineExit>, String>,
    Z: Fn(&str) -> Option<u64>,
>(run: Q, size: Z, qpdf: Seq<char>, path: Seq<char>, r: Result<(), String>) -> bool {
    exists|s: Option<u64>| #[trigger] sized(size, path, s) && if empty_file(s) {
        r is Err && r->Err_0@ == "qpdf did not produce a valid output file"@
    } else {
        exists|c: Result<bool, String>| #[trigger] checked(run, qpdf, check_arguments(path), c) && match c {
            Err(m) => r is Err && r->Err_0@ == m@,
            Ok(false) => r is Err && r->Err_0@ == "PDF validation was cancelled"@,
            Ok(true) => r == Ok::<(), String>(()),
        }
    }
}

/// Checks a file that qpdf wrote.
fn validate_pdf_output<
    Q: Fn(&str, &Vec<String>) -> Result<Option<EngineExit>, String>,
    Z: Fn(&str) -> Option<u64>,
>(qpdf: &str, path: &str, run: &Q, size: &Z) -> (r: Result<(), String>)
    requires
        forall|p: &str, a: &Vec<String>| run.requires((p, a)),
        forall|p: &str| size.requires((p,)),
    ensures
        validated(*run, *size, qpdf@, path@, r),
{
    let s = size(path);
    assert(sized(*size, path@, s));
    if s.is_none() || s == Some(0u64) {
        return Err("qpdf did not produce a valid output file".to_owned());
    }
    let c = run_checked(qpdf, &check_args(path), run);
    assert(checked(*run, qpdf@, check_arguments(path@), c));
    match c {
        Err(m) => Err(m),
        Ok(false) => Err("PDF validation was cancelled".to_owned()),
        Ok(true) => Ok(()),
    }
}

/// A run that did not complete has discarded the staged file `staged`; one
/// that completed has reported 100.
pub open spec fn single_cleanup<X: Fn(&str), G: Fn(u8)>(
    discard: X,
    report: G,
    staged: Seq<char>,
    r: Result<ExecutionOutcome, String>,
) -> bool {
    &&& r != Ok::<ExecutionOutcome, String>(ExecutionOutcome::Completed) ==> discarded(discard, staged)
    &&& r == Ok::<ExecutionOutcome, String>(ExecutionOutcome::Completed) ==> reported(report, 100)
}

/// A split that did not complete has discarded every staged file; one that
/// completed has reported the progress after each file and 100.
pub open spec fn split_cleanup<X: Fn(&str), G: Fn(u8)>(
    discard: X,
    report: G,
    parts: Seq<SplitPart>,
    r: Result<ExecutionOutcome, String>,
) -> bool {
    &&& r != Ok::<ExecutionOutcome, String>(ExecutionOutcome::Completed) ==> forall|i: int| 0 <= i < parts.len()
        ==> #[trigger] discarded(discard, parts[i].staged_path@)
    &&& r == Ok::<ExecutionOutcome, String>(ExecutionOutcome::Completed) ==> reported(report, 100)
        && forall|i: int| 0 <= i < parts.len() ==> #[trigger] reported(report, (((i + 1) * 100) / parts.len() as int) as u8)
}

/// The outcome of running qpdf with `args` to write `staged`, checking it and
/// publishing it as `output`.
pub open spec fn single_run_outcome<
    Q: Fn(&str, &Vec<String>) -> Result<Option<EngineExit>, String>,
    Z: Fn(&str) -> Option<u64>,
    P: Fn(&str, &str) -> Result<(), String>,
>(
    run: Q,
    size: Z,
    publish: P,
    qpdf: Seq<char>,
    args: Seq<Seq<char>>,
    staged: Seq<char>,
    output: Seq<char>,
    r: Result<ExecutionOutcome, String>,
) -> bool {
    exists|c: Result<bool, String>| #[trigger] checked(run, qpdf, args, c) && match c {
        Err(m) => r is Err && r->Err_0@ == m@,
        Ok(false) => r == Ok::<ExecutionOutcome, String>(ExecutionOutcome::Cancelled),
        Ok(true) => exists|v: Result<(), String>| #[trigger] validated(run, size, qpdf, staged, v) && match v {
            Err(e) => r is Err && r->Err_0@ == e@,
            Ok(()) => exists|p: Result<(), String>| #[trigger] published(publish, staged, output, p) && match p {
                Err(m) => r is Err && r->Err_0@ == "PDF output could not be finalized: "@ + m@,
                Ok(()) => r == Ok::<ExecutionOutcome, String>(ExecutionOutcome::Completed),
            },
        },
    }
}

/// Runs a planned merge, reorder or rotation: qpdf writes the staged file,
/// which is checked and then published as `output`. A cancelled or failed run
/// and a failed check discard the staged file.
pub fn run_single_output<
    Q: Fn(&str, &Vec<String>) -> Result<Option<EngineExit>, String>,
    Z: Fn(&str) -> Option<u64>,
    P: Fn(&str, &str) -> Result<(), String>,
    X: Fn(&str),
    G: Fn(u8),
>(
    qpdf: &str,
    plan: &SingleOutputPlan,
    output: &str,
    run: &Q,
    size: &Z,
    publish: &P,
    discard: &X,
    report: &G,
) -> (r: Result<ExecutionOutcome, String>)
    requires
        forall|p: &str, a: &Vec<String>| run.requires((p, a)),
        forall|p: &str| size.requires((p,)),
        forall|a: &str, b: &str| publish.requires((a, b)),
        forall|p: &str| discard.requires((p,)),
        forall|n: u8| report.requires((n,)),
    ensures
        single_run_outcome(*run, *size, *publish, qpdf@, views(plan.args@), plan.staged@, output@, r),
        single_cleanup(*discard, *report, plan.staged@, r),
{
    let staged = plan.staged.as_str();
    discard(staged);
    assert(discarded(*discard, staged@));
    let c = run_checked(qpdf, &plan.args, run);
    assert(checked(*run, qpdf@, views(plan.args@), c));
    match c {
        Err(m) => {
            discard(staged);
            return Err(m);
        },
        Ok(false) => {
            discard(staged);
            return Ok(ExecutionOutcome::Cancelled);
        },
        Ok(true) => {},
    }
    let v = validate_pdf_output(qpdf, staged, run, size);
    assert(validated(*run, *size, qpdf@, staged@, v));
    if let Err(e) = v {
        discard(staged);
        return Err(e);
    }
    let p = publish(staged, output);
    assert(published(*publish, staged@, output@, p));
    if let Err(m) = p {
        discard(staged);
        return Err(concat2("PDF output could not be finalized: ", m.as_str()));
    }
    report(100);
    assert(reported(*report, 100));
    Ok(ExecutionOutcome::Completed)
}

/// The qpdf command line that writes the split file `part` of `input`.
pub open spec fn split_arguments(input: Seq<char>, part: SplitPartModel) -> Seq<Seq<char>> {
    seq![input, "--pages"@, "."@, part.page_spec, "--"@, part.staged_path]
}

/// The file `parts[k]` of a split was written and passed its check.
pub open spec fn part_done<
    Q: Fn(&str, &Vec<String>) -> Result<Option<EngineExit>, String>,
    Z: Fn(&str) -> Option<u64>,
>(run: Q, size: Z, qpdf: Seq<char>, input: Seq<char>, parts: Seq<SplitPart>, k: int) -> bool {
    &&& checked(run, qpdf, split_arguments(input, parts[k]@), Ok(true))
    &&& validated(run, size, qpdf, parts[k].staged_path@, Ok(()))
}

/// The first `k` files of a split were written and passed their checks.
pub open spec fn parts_done<
    Q: Fn(&str, &Vec<String>) -> Result<Option<EngineExit>, String>,
    Z: Fn(&str) -> Option<u64>,
>(run: Q, size: Z, qpdf: Seq<char>, input: Seq<char>, parts: Seq<SplitPart>, k: int) -> bool {
    forall|i: int| 0 <= i < k ==> #[trigger] part_done(run, size, qpdf, input, parts, i)
}

/// Writing or checking the file `parts[k]` of a split failed with `e`.
pub open spec fn part_failed<
    Q: Fn(&str, &Vec<String>) -> Result<Option<EngineExit>, String>,
    Z: Fn(&str) -> Option<u64>,
>(run: Q, size: Z, qpdf: Seq<char>, input: Seq<char>, parts: Seq<SplitPart>, k: int, e: Seq<char>) -> bool {
    exists|c: Result<bool, String>| #[trigger] checked(run, qpdf, split_arguments(input, parts[k]@), c) && match c {
        Err(m) => e == m@,
        Ok(false) => false,
        Ok(true) => exists|v: Result<(), String>| #[trigger] validated(run, size, qpdf, parts[k].staged_path@, v)
            && v is Err && e == v->Err_0@,
    }
}

/// The file `parts[k]` was moved to its final name.
pub open spec fn part_moved<P: Fn(&str, &str) -> Result<(), String>>(publish: P, parts: Seq<SplitPart>, k: int) -> bool {
    published(publish, parts[k].staged_path@, parts[k].final_path@, Ok(()))
}

/// The first `k` files were moved to their final names.
pub open spec fn parts_moved<P: Fn(&str, &str) -> Result<(), String>>(publish: P, parts: Seq<SplitPart>, k: int) -> bool {
    forall|i: int| 0 <= i < k ==> #[trigger] part_moved(publish, parts, i)
}

/// Writing a split stopped at file `k`, after the files before it were
/// written and checked: its run was cancelled, or it failed with `e`.
pub open spec fn split_stopped<
    Q: Fn(&str, &Vec<String>) -> Result<Option<EngineExit>, String>,
    Z: Fn(&str) -> Option<u64>,
>(run: Q, size: Z, qpdf: Seq<char>, input: Seq<char>, parts: Seq<SplitPart>, r: Result<ExecutionOutcome, String>) -> bool {
    exists|k: int| 0 <= k < parts.len() && #[trigger] parts_done(run, size, qpdf, input, parts, k) && match r {
        Ok(ExecutionOutcome::Cancelled) => checked(run, qpdf, split_arguments(input, parts[k]@), Ok(false)),
        Ok(ExecutionOutcome::Completed) => false,
        Err(e) => part_failed(run, size, qpdf, input, parts, k, e@),
    }
}

/// The files `parts[0..k]`, already moved to their final names, were removed
/// again.
pub open spec fn finals_removed<X: Fn(&str)>(discard: X, parts: Seq<SplitPart>, k: int) -> bool {
    forall|i: int| 0 <= i < k ==> #[trigger] discarded(discard, parts[i].final_path@)
}

/// Moving the files of a split to their final names stopped at file `k`,
/// after the files before it were moved, with the error `e`; those files were
/// removed again, so no part of the set stays published.
pub open spec fn split_unpublished<P: Fn(&str, &str) -> Result<(), String>, X: Fn(&str)>(
    publish: P,
    discard: X,
    parts: Seq<SplitPart>,
    e: Seq<char>,
) -> bool {
    exists|k: int, m: String| 0 <= k < parts.len()
        && #[trigger] published(publish, parts[k].staged_path@, parts[k].final_path@, Err(m))
        && parts_moved(publish, parts, k) && finals_removed(discard, parts, k)
        && e == "Split outputs could not be finalized: "@ + m@
}

/// The outcome of writing the files of a split of `input`, checking each, and
/// moving them all to their final names: all done, or stopped at a file.
pub open spec fn split_run_outcome<
    Q: Fn(&str, &Vec<String>) -> Result<Option<EngineExit>, String>,
    Z: Fn(&str) -> Option<u64>,
    P: Fn(&str, &str) -> Result<(), String>,
    X: Fn(&str),
>(
    run: Q,
    size: Z,
    publish: P,
    discard: X,
    qpdf: Seq<char>,
    input: Seq<char>,
    parts: Seq<SplitPart>,
    r: Result<ExecutionOutcome, String>,
) -> bool {
    ||| split_stopped(run, size, qpdf, input, parts, r)
    ||| parts_done(run, size, qpdf, input, parts, parts.len() as int) && match r {
        Ok(ExecutionOutcome::Completed) => parts_moved(publish, parts, parts.len() as int),
        Ok(ExecutionOutcome::Cancelled) => false,
        Err(e) => split_unpublished(publish, discard, parts, e@),
    }
}

fn discard_parts<X: Fn(&str)>(parts: &Vec<SplitPart>, discard: &X)
    requires
        forall|p: &str| discard.requires((p,)),
    ensures
        forall|i: int| 0 <= i < parts@.len() ==> #[trigger] discarded(*discard, parts@[i].staged_path@),
{
    let mut i: usize = 0;
    while i < parts.len()
        invariant
            i <= parts.len(),
            forall|p: &str| discard.requires((p,)),
            forall|j: int| 0 <= j < i ==> #[trigger] discarded(*discard, parts@[j].staged_path@),
        decreases parts.len() - i,
    {
        discard(parts[i].staged_path.as_str());
        assert(discarded(*discard, parts@[i as int].staged_path@));
        i = i + 1;
    }
}

/// Writes the file `parts[index]` with qpdf and checks it: the error of the
/// run, `None` when the run was cancelled, or the verdict of the check.
fn write_part<
    Q: Fn(&str, &Vec<String>) -> Result<Option<EngineExit>, String>,
    Z: Fn(&str) -> Option<u64>,
>(
    qpdf: &str,
    input: &str,
    parts: &Vec<SplitPart>,
    index: usize,
    run: &Q,
    size: &Z,
) -> (r: Result<Option<Result<(), String>>, String>)
    requires
        index < parts.len(),
        forall|p: &str, a: &Vec<String>| run.requires((p, a)),
        forall|p: &str| size.requires((p,)),
    ensures
        match r {
            Ok(Some(Ok(()))) => part_done(*run, *size, qpdf@, input@, parts@, index as int),
            Ok(None) => checked(*run, qpdf@, split_arguments(input@, parts@[index as int]@), Ok(false)),
            Ok(Some(Err(e))) => part_failed(*run, *size, qpdf@, input@, parts@, index as int, e@),
            Err(e) => part_failed(*run, *size, qpdf@, input@, parts@, index as int, e@),
        },
{
    let part = &parts[index];
    let args = split_part_args(input, part);
    let c = run_checked(qpdf, &args, run);
    assert(views(args@) == split_arguments(input@, parts@[index as int]@));
    assert(checked(*run, qpdf@, split_arguments(input@, parts@[index as int]@), c));
    match c {
        Err(m) => Err(m),
        Ok(false) => Ok(None),
        Ok(true) => {
            let v = validate_pdf_output(qpdf, part.staged_path.as_str(), run, size);
            assert(validated(*run, *size, qpdf@, parts@[index as int].staged_path@, v));
            Ok(Some(v))
        },
    }
}

/// Moves the files of a split to their final names in turn. When a move
/// fails, the files already moved are removed again and the staged files
/// discarded.
fn publish_parts<P: Fn(&str, &str) -> Result<(), String>, X: Fn(&str)>(
    parts: &Vec<SplitPart>,
    publish: &P,
    discard: &X,
) -> (r: Result<(), String>)
    requires
        forall|a: &str, b: &str| publish.requires((a, b)),
        forall|p: &str| discard.requires((p,)),
    ensures
        match r {
            Ok(()) => parts_moved(*publish, parts@, parts@.len() as int),
            Err(e) => split_unpublished(*publish, *discard, parts@, e@) && forall|i: int| 0 <= i < parts@.len()
                ==> #[trigger] discarded(*discard, parts@[i].staged_path@),
        },
{
    let n = parts.len();
    let mut index: usize = 0;
    while index < n
        invariant
            index <= n,
            n == parts.len(),
            forall|a: &str, b: &str| publish.requires((a, b)),
            forall|p: &str| discard.requires((p,)),
            parts_moved(*publish, parts@, index as int),
        decreases n - index,
    {
        let p = publish(parts[index].staged_path.as_str(), parts[index].final_path.as_str());
        assert(published(*publish, parts@[index as int].staged_path@, parts@[index as int].final_path@, p));
        let ghost moved = p;
        match p {
            Err(m) => {
                let mut j: usize = 0;
                while j < index
                    invariant
                        j <= index,
                        index < parts.len(),
                        forall|q: &str| discard.requires((q,)),
                        finals_removed(*discard, parts@, j as int),
                    decreases index - j,
                {
                    discard(parts[j].final_path.as_str());
                    assert(discarded(*discard, parts@[j as int].final_path@));
                    j = j + 1;
                }
                discard_parts(parts, discard);
                let e = concat2("Split outputs could not be finalized: ", m.as_str());
                assert(moved == Err::<(), String>(m));
                assert(published(*publish, parts@[index as int].staged_path@, parts@[index as int].final_path@, Err(m)));
                return Err(e);
            },
            Ok(u) => {
                assert(moved == Ok::<(), String>(u));
            },
        }
        assert(part_moved(*publish, parts@, index as int));
        assert(parts_moved(*publish, parts@, index + 1)) by {
            assert forall|i: int| 0 <= i < index + 1 implies #[trigger] part_moved(*publish, parts@, i) by {
                if i < index {
                    assert(part_moved(*publish, parts@, i));
                }
            }
        }
        index = index + 1;
    }
    Ok(())
}

/// Writes the files of a split in turn, checking each, then moves them all to
/// their final names; progress is reported per file. A cancelled or failed
/// run discards the staged files.
pub fn run_split_parts<
    Q: Fn(&str, &Vec<String>) -> Result<Option<EngineExit>, String>,
    Z: Fn(&str) -> Option<u64>,
    P: Fn(&str, &str) -> Result<(), String>,
    X: Fn(&str),
    G: Fn(u8),
>(
    qpdf: &str,
    input: &str,
    parts: &Vec<SplitPart>,
    run: &Q,
    size: &Z,
    publish: &P,
    discard: &X,
    report: &G,
) -> (r: Result<ExecutionOutcome, String>)
    requires
        forall|p: &str, a: &Vec<String>| run.requires((p, a)),
        forall|p: &str| size.requires((p,)),
        forall|a: &str, b: &str| publish.requires((a, b)),
        forall|p: &str| discard.requires((p,)),
        forall|n: u8| report.requires((n,)),
    ensures
        split_run_outcome(*run, *size, *publish, *discard, qpdf@, input@, parts@, r),
        split_cleanup(*discard, *report, parts@, r),
{
    let n = parts.len();
    let mut index: usize = 0;
    while index < n
        invariant
            index <= n,
            n == parts.len(),
            forall|p: &str, a: &Vec<String>| run.requires((p, a)),
            forall|p: &str| size.requires((p,)),
            forall|p: &str| discard.requires((p,)),
            forall|k: u8| report.requires((k,)),
            parts_done(*run, *size, qpdf@, input@, parts@, index as int),
            forall|j: int| 0 <= j < index ==> #[trigger] reported(*report, (((j + 1) * 100) / n as int) as u8),
        decreases n - index,
    {
        let w = write_part(qpdf, input, parts, index, run, size);
        match w {
            Err(e) => {
                discard_parts(parts, discard);
                assert(split_stopped(*run, *size, qpdf@, input@, parts@, Err::<ExecutionOutcome, String>(e)));
                return Err(e);
            },
            Ok(None) => {
                discard_parts(parts, discard);
                assert(split_stopped(*run, *size, qpdf@, input@, parts@, Ok::<ExecutionOutcome, String>(
                    ExecutionOutcome::Cancelled)));
                return Ok(ExecutionOutcome::Cancelled);
            },
            Ok(Some(Err(e))) => {
                discard_parts(parts, discard);
                assert(split_stopped(*run, *size, qpdf@, input@, parts@, Err::<ExecutionOutcome, String>(e)));
                return Err(e);
            },
            Ok(Some(Ok(()))) => {},
        }
        let progress = split_progress(index + 1, n);
        report(progress);
        assert(reported(*report, progress));
        assert forall|j: int| 0 <= j < index + 1 implies #[trigger] reported(*report, (((j + 1) * 100) / n as int) as u8)
            by {
            if j == index {
                assert(progress == (((j + 1) * 100) / n as int) as u8);
            }
        }
        assert(parts_done(*run, *size, qpdf@, input@, parts@, index + 1)) by {
            assert forall|i: int| 0 <= i < index + 1 implies #[trigger] part_done(*run, *size, qpdf@, input@, parts@, i)
                by {
                if i < index {
                    assert(part_done(*run, *size, qpdf@, input@, parts@, i));
                }
            }
        }
        index = index + 1;
    }
    let f = publish_parts(parts, publish, discard);
    match f {
        Err(e) => Err(e),
        Ok(()) => {
            report(100);
            assert(reported(*report, 100));
            Ok(ExecutionOutcome::Completed)
        },
    }
}

/// The files of a split, as planned: every part in order, each final name free.
pub open spec fn split_plan_ok<E: Fn(&str) -> bool>(
    probe: E,
    dir: Seq<char>,
    stem: Seq<char>,
    job_id: Seq<char>,
    per_file: nat,
    count: nat,
    parts: Seq<SplitPart>,
) -> bool {
    &&& parts.len() == chunk_count(count, per_file)
    &&& forall|k: int| 0 <= k < chunk_count(count, per_file) ==> #[trigger] parts[k]@
        == split_part(dir, stem, job_id, k as nat, per_file, count)
    &&& forall|k: nat| k < chunk_count(count, per_file) ==> #[trigger] probed(probe,
        split_part(dir, stem, job_id, k, per_file, count).final_path, false)
}

/// The outcome of a split of `input` (of `count` pages) into `dir`.
pub open spec fn split_outcome<
    E: Fn(&str) -> bool,
    Q: Fn(&str, &Vec<String>) -> Result<Option<EngineExit>, String>,
    Z: Fn(&str) -> Option<u64>,
    P: Fn(&str, &str) -> Result<(), String>,
    X: Fn(&str),
    G: Fn(u8),
>(
    probe: E,
    run: Q,
    size: Z,
    publish: P,
    discard: X,
    report: G,
    qpdf: Seq<char>,
    input: Seq<char>,
    dir: Seq<char>,
    count: nat,
    per_file: nat,
    job_id: Seq<char>,
    r: Result<ExecutionOutcome, String>,
) -> bool {
    match stem_of(input) {
        None => r is Err && r->Err_0@ == "Input filename is invalid"@,
        Some(stem) => {
            ||| exists|parts: Seq<SplitPart>| #[trigger] split_plan_ok(probe, dir, stem, job_id, per_file, count, parts)
                && split_run_outcome(run, size, publish, discard, qpdf, input, parts, r) && split_cleanup(discard, report, parts, r)
            ||| r is Err && split_refused(probe, dir, stem, job_id, per_file, count, r->Err_0@)
        },
    }
}

/// The outcome of a merge, reorder or rotation planned with page count `count`.
pub open spec fn single_outcome<
    Q: Fn(&str, &Vec<String>) -> Result<Option<EngineExit>, String>,
    Z: Fn(&str) -> Option<u64>,
    P: Fn(&str, &str) -> Result<(), String>,
    X: Fn(&str),
    G: Fn(u8),
>(
    run: Q,
    size: Z,
    publish: P,
    discard: X,
    report: G,
    qpdf: Seq<char>,
    op: PdfOperationModel,
    count: u32,
    job_id: Seq<char>,
    output: Seq<char>,
    r: Result<ExecutionOutcome, String>,
) -> bool {
    match single_plan(op, count, job_id) {
        Err(e) => r is Err && r->Err_0@ == e,
        Ok((args, staged)) => single_run_outcome(run, size, publish, qpdf, args, staged, output, r)
            && single_cleanup(discard, report, staged, r),
    }
}

/// The outcome once qpdf was asked for the page count of `input`: its error,
/// a cancellation, or what comes next with the count.
pub open spec fn after_count<Q: Fn(&str, &Vec<String>) -> Result<Option<EngineExit>, String>>(
    run: Q,
    qpdf: Seq<char>,
    input: Seq<char>,
    r: Result<ExecutionOutcome, String>,
    next: spec_fn(u32) -> bool,
) -> bool {
    exists|c: Result<Option<u32>, String>| #[trigger] counted(run, qpdf, input, c) && match c {
        Err(e) => r is Err && r->Err_0@ == e@,
        Ok(None) => r == Ok::<ExecutionOutcome, String>(ExecutionOutcome::Cancelled),
        Ok(Some(n)) => next(n),
    }
}

/// Carries out a PDF operation with qpdf at `qpdf`: the request is checked,
/// the page count read where the operation needs it, and the runs planned.
/// Each output is written by qpdf to a hidden staged file, checked with
/// `qpdf --check` and only then published; a split writes and checks all its
/// files before it moves any. `run` runs qpdf, `size` gives the size of a
/// file, `exists` tells whether a path is taken, `publish` moves a file,
/// `discard` removes one and `report` reports progress. None of these is
/// needed, and so none is called, for a refused request or a missing qpdf.
pub fn execute<
    E: Fn(&str) -> bool,
    Q: Fn(&str, &Vec<String>) -> Result<Option<EngineExit>, String>,
    Z: Fn(&str) -> Option<u64>,
    P: Fn(&str, &str) -> Result<(), String>,
    X: Fn(&str),
    G: Fn(u8),
>(
    qpdf: &str,
    qpdf_is_file: bool,
    operation: &PdfOperation,
    facts: &OperationFacts,
    job_id: &str,
    exists: &E,
    run: &Q,
    size: &Z,
    publish: &P,
    discard: &X,
    report: &G,
) -> (r: Result<ExecutionOutcome, String>)
    requires
        pdf_request_check(operation@, facts.input_kinds@, facts.output_kind, facts.output_parent_kind) is Ok
            && qpdf_is_file ==> {
            &&& forall|s: &str| exists.requires((s,))
            &&& forall|p: &str, a: &Vec<String>| run.requires((p, a))
            &&& forall|p: &str| size.requires((p,))
            &&& forall|a: &str, b: &str| publish.requires((a, b))
            &&& forall|p: &str| discard.requires((p,))
            &&& forall|n: u8| report.requires((n,))
        },
    ensures
        match pdf_request_check(operation@, facts.input_kinds@, facts.output_kind, facts.output_parent_kind) {
            Err(e) => r is Err && r->Err_0@ == e,
            Ok(()) => if !qpdf_is_file {
                r is Err && r->Err_0@ == qpdf_missing()
            } else {
                match operation@ {
                    PdfOperationModel::Split { input_path, output_directory, pages_per_file } =>
                        after_count(*run, qpdf@, input_path, r, |n: u32| split_outcome(*exists, *run, *size, *publish, *discard, *report,
                            qpdf@, input_path, output_directory, n as nat, pages_per_file as nat, job_id@, r)),
                    PdfOperationModel::Merge { output_path, .. } =>
                        single_outcome(*run, *size, *publish, *discard, *report, qpdf@, operation@, 0, job_id@, output_path, r),
                    PdfOperationModel::Reorder { input_path, output_path, .. } =>
                        after_count(*run, qpdf@, input_path, r, |n: u32| single_outcome(*run, *size, *publish, *discard, *report, qpdf@,
                            operation@, n, job_id@, output_path, r)),
                    PdfOperationModel::Rotate { input_path, output_path, pages, .. } => if pages.len() > 0 {
                        after_count(*run, qpdf@, input_path, r, |n: u32| single_outcome(*run, *size, *publish, *discard, *report, qpdf@,
                            operation@, n, job_id@, output_path, r))
                    } else {
                        single_outcome(*run, *size, *publish, *discard, *report, qpdf@, operation@, 0, job_id@, output_path, r)
                    },
                }
            },
        },
{
    validate_request(operation, facts)?;
    if !qpdf_is_file {
        return Err("The bundled qpdf executable could not be found".to_owned());
    }
    match operation {
        PdfOperation::Split { input_path, output_directory, pages_per_file } => {
            let c = read_page_count(qpdf, input_path.as_str(), run);
            assert(counted(*run, qpdf@, input_path@, c));
            let n = match c {
                Err(e) => return Err(e),
                Ok(None) => return Ok(ExecutionOutcome::Cancelled),
                Ok(Some(n)) => n,
            };
            let parts = match plan_split(input_path.as_str(), output_directory.as_str(), n, *pages_per_file, job_id,
                exists) {
                Ok(p) => p,
                Err(e) => return Err(e),
            };
            let r = run_split_parts(qpdf, input_path.as_str(), &parts, run, size, publish, discard, report);
            proof {
                let stem = stem_of(input_path@)->0;
                assert(split_plan_ok(*exists, output_directory@, stem, job_id@, *pages_per_file as nat, n as nat,
                    parts@));
            }
            r
        },
        PdfOperation::Merge { output_path, .. } => {
            let plan = plan_single_output(operation, 0, job_id)?;
            run_single_output(qpdf, &plan, output_path.as_str(), run, size, publish, discard, report)
        },
        PdfOperation::Reorder { input_path, output_path, .. } => {
            let c = read_page_count(qpdf, input_path.as_str(), run);
            assert(counted(*run, qpdf@, input_path@, c));
            let n = match c {
                Err(e) => return Err(e),
                Ok(None) => return Ok(ExecutionOutcome::Cancelled),
                Ok(Some(n)) => n,
            };
            let plan = plan_single_output(operation, n, job_id)?;
            run_single_output(qpdf, &plan, output_path.as_str(), run, size, publish, discard, report)
        },
        PdfOperation::Rotate { input_path, output_path, pages, .. } => {
            let mut n: u32 = 0;
            if pages.len() > 0 {
                let c = read_page_count(qpdf, input_path.as_str(), run);
                assert(counted(*run, qpdf@, input_path@, c));
                n = match c {
                    Err(e) => return Err(e),
                    Ok(None) => return Ok(ExecutionOutcome::Cancelled),
                    Ok(Some(n)) => n,
                };
            }
            let plan = plan_single_output(operation, n, job_id)?;
            run_single_output(qpdf, &plan, output_path.as_str(), run, size, publish, discard, report)
        },
    }
}


/// A merge, reorder or rotation that completed had qpdf write the staged file,
/// which then passed `qpdf --check`, and moved it to the output: nothing
/// unchecked is published.
pub proof fn law_pdf_output_published_only_after_check<
    Q: Fn(&str, &Vec<String>) -> Result<Option<EngineExit>, String>,
    Z: Fn(&str) -> Option<u64>,
    P: Fn(&str, &str) -> Result<(), String>,
>(run: Q, size: Z, publish: P, qpdf: Seq<char>, args: Seq<Seq<char>>, staged: Seq<char>, output: Seq<char>)
    requires
        single_run_outcome(run, size, publish, qpdf, args, staged, output,
            Ok::<ExecutionOutcome, String>(ExecutionOutcome::Completed)),
    ensures
        checked(run, qpdf, args, Ok(true)),
        validated(run, size, qpdf, staged, Ok(())),
        exists|p: Result<(), String>| #[trigger] published(publish, staged, output, p) && p is Ok,
{
}

/// A split that completed wrote and checked every file before it moved any,
/// and then moved every file to its final name: the output set is published
/// only whole.
pub proof fn law_split_published_only_when_every_part_checked<
    Q: Fn(&str, &Vec<String>) -> Result<Option<EngineExit>, String>,
    Z: Fn(&str) -> Option<u64>,
    P: Fn(&str, &str) -> Result<(), String>,
    X: Fn(&str),
>(run: Q, size: Z, publish: P, discard: X, qpdf: Seq<char>, input: Seq<char>, parts: Seq<SplitPart>)
    requires
        split_run_outcome(run, size, publish, discard, qpdf, input, parts,
            Ok::<ExecutionOutcome, String>(ExecutionOutcome::Completed)),
    ensures
        parts_done(run, size, qpdf, input, parts, parts.len() as int),
        parts_moved(publish, parts, parts.len() as int),
{
}


/// A rotation turns the pages clockwise by the requested angle: whenever a
/// rotation is planned, qpdf reads the input, writes the staged file, and gets
/// a flag made of `--rotate=+`, the angle in decimal, and then nothing (every
/// page) or `:` and the page list.
pub proof fn law_rotation_is_clockwise_by_the_angle(
    input: Seq<char>,
    output: Seq<char>,
    angle: u16,
    pages: Seq<u32>,
    count: u32,
    job_id: Seq<char>,
)
    requires
        single_plan(PdfOperationModel::Rotate { input_path: input, output_path: output, angle, pages }, count, job_id)
            is Ok,
    ensures
        ({
            let (args, staged) = single_plan(PdfOperationModel::Rotate { input_path: input, output_path: output, angle,
                pages }, count, job_id)->Ok_0;
            let d = decimal(angle as nat);
            &&& args.len() == 3
            &&& args[0] == input
            &&& args[1] == staged
            &&& args[2].len() >= 10 + d.len()
            &&& args[2].take(10) == seq!['-', '-', 'r', 'o', 't', 'a', 't', 'e', '=', '+']
            &&& args[2].subrange(10, 10 + d.len() as int) == d
            &&& pages.len() == 0 ==> args[2].len() == 10 + d.len()
            &&& pages.len() > 0 ==> args[2].len() > 10 + d.len() && args[2][10 + d.len() as int] == ':'
        }),
{
    reveal_strlit("--rotate=+");
    reveal_strlit(":");
    let (args, staged) = single_plan(PdfOperationModel::Rotate { input_path: input, output_path: output, angle,
        pages }, count, job_id)->Ok_0;
    let d = decimal(angle as nat);
    let suffix = if pages.len() == 0 { Seq::<char>::empty() } else { ":"@ + comma_list(pages) };
    assert(args[2] == "--rotate=+"@ + d + suffix);
    assert(args[2].take(10) =~= seq!['-', '-', 'r', 'o', 't', 'a', 't', 'e', '=', '+']);
    assert(args[2].subrange(10, 10 + d.len() as int) =~= d);
    if pages.len() > 0 {
        assert(args[2][10 + d.len() as int] == suffix[0]);
    }
}

} // verus!
