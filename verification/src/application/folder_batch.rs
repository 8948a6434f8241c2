//! Folder batches: which files of a folder are converted, in which order, and
//! the output names they receive.

use vstd::prelude::*;
use crate::application::audio_converter::{self, audio_request_check, audio_supported};
use crate::application::image_converter::{self, image_request_check, image_supported};
use crate::application::job_service::{blocked, counter_after, issue_id, skip_ids, job_id, next_available_directory, next_available_output, next_counter, numbered_dir_name, numbered_file_name};
use crate::application::office_converter::{self, office_request_check, office_supported};
use crate::application::pdf_docx_converter::{self, docx_request_check};
use crate::application::pdf_image_converter::{self, pdf_image_request_check};
use crate::domain::job::{AudioFormat, ImageFolderMode, Job, PdfImageFormat, JobKindModel, JobModel, audio_extension, job_views, queued};
use crate::paths::{PathKind, probed, ext_is, file_name, file_name_of, file_stem, has_ext, is_absolute, is_absolute_path, joined, lower, stem_of};
use crate::text::{ascii_lower, check_view, concat2, concat3, text_less, text_lt, views};

verus! {

/// Which files of a folder a batch takes.
#[derive(Clone, Copy, Debug, PartialEq, Eq, Structural)]
pub enum FileFilter {
    Audio,
    Image,
    Office,
    Pdf,
}

pub open spec fn accepts(filter: FileFilter, path: Seq<char>) -> bool {
    match filter {
        FileFilter::Audio => audio_supported(path),
        FileFilter::Image => image_supported(path),
        FileFilter::Office => office_supported(path),
        FileFilter::Pdf => ext_is(path, "pdf"@),
    }
}

/// Whether a path is of the kind the filter takes.
pub fn filter_accepts(filter: FileFilter, path: &str) -> (r: bool)
    ensures
        r == accepts(filter, path@),
{
    match filter {
        FileFilter::Audio => audio_converter::is_supported_input(path),
        FileFilter::Image => image_converter::is_supported_input(path),
        FileFilter::Office => office_converter::is_supported_input(path),
        FileFilter::Pdf => has_extension(path, "pdf"),
    }
}

/// Whether the extension of `path` equals `extension`, ignoring ASCII case.
/// `extension` is given in lower case.
pub fn has_extension(path: &str, extension: &str) -> (r: bool)
    ensures
        r == ext_is(path@, extension@),
{
    has_ext(path, extension)
}

/// The regular files of a listing that the filter takes, in listing order.
pub open spec fn folder_files(listing: Seq<(String, PathKind)>, filter: FileFilter) -> Seq<Seq<char>>
    decreases listing.len(),
{
    if listing.len() == 0 {
        Seq::empty()
    } else {
        let rest = folder_files(listing.drop_last(), filter);
        let e = listing.last();
        if e.1 == PathKind::File && accepts(filter, e.0@) {
            rest.push(e.0@)
        } else {
            rest
        }
    }
}

/// Where `x` goes in a list sorted by lower-case text: after every entry whose
/// key does not come after the key of `x`.
pub open spec fn lower_pos(s: Seq<Seq<char>>, x: Seq<char>) -> nat
    decreases s.len(),
{
    if s.len() == 0 {
        0
    } else if !text_lt(ascii_lower(x), ascii_lower(s[0])) {
        1 + lower_pos(s.drop_first(), x)
    } else {
        0
    }
}

/// The paths sorted by their lower-case text; equal keys keep their order.
pub open spec fn sorted_by_lower(s: Seq<Seq<char>>) -> Seq<Seq<char>>
    decreases s.len(),
{
    if s.len() == 0 {
        s
    } else {
        let rest = sorted_by_lower(s.drop_last());
        rest.insert(lower_pos(rest, s.last()) as int, s.last())
    }
}

proof fn lemma_lower_pos(s: Seq<Seq<char>>, x: Seq<char>, p: int)
    requires
        0 <= p <= s.len(),
        forall|k: int| 0 <= k < p ==> !text_lt(ascii_lower(x), #[trigger] ascii_lower(s[k])),
        p == s.len() || text_lt(ascii_lower(x), ascii_lower(s[p])),
    ensures
        lower_pos(s, x) == p,
    decreases s.len(),
{
    if s.len() > 0 && p > 0 {
        assert forall|k: int| 0 <= k < p - 1 implies !text_lt(ascii_lower(x), #[trigger] ascii_lower(s.drop_first()[k])) by {
            assert(s.drop_first()[k] == s[k + 1]);
        }
        lemma_lower_pos(s.drop_first(), x, p - 1);
    }
}

/// The files of a folder listing that a batch takes, sorted by lower-case path.
/// A listing that could not be read gives its error.
pub fn collect_folder_files(listing: &Result<Vec<(String, PathKind)>, String>, filter: FileFilter) -> (r: Result<Vec<String>, String>)
    ensures
        match *listing {
            Err(e) => r is Err && r->Err_0@ == "The selected input folder could not be read: "@ + e@,
            Ok(entries) => r is Ok && views(r->Ok_0@) == sorted_by_lower(folder_files(entries@, filter)),
        },
{
    let entries = match listing {
        Err(e) => return Err(concat2("The selected input folder could not be read: ", e.as_str())),
        Ok(entries) => entries,
    };
    let mut out: Vec<String> = Vec::new();
    let mut keys: Vec<String> = Vec::new();
    let mut i: usize = 0;
    while i < entries.len()
        invariant
            i <= entries.len(),
            views(out@) == sorted_by_lower(folder_files(entries@.take(i as int), filter)),
            keys.len() == out.len(),
            forall|k: int| 0 <= k < keys.len() ==> #[trigger] keys@[k]@ == ascii_lower(out@[k]@),
        decreases entries.len() - i,
    {
        let ghost done = folder_files(entries@.take(i as int), filter);
        proof {
            assert(entries@.take(i + 1).drop_last() =~= entries@.take(i as int));
            assert(entries@.take(i + 1).last() == entries@[i as int]);
        }
        let path = entries[i].0.as_str();
        if entries[i].1 == PathKind::File && filter_accepts(filter, path) {
            let key = lower(path);
            let mut p: usize = 0;
            while p < out.len() && !text_less(key.as_str(), keys[p].as_str())
                invariant
                    p <= out.len(),
                    keys.len() == out.len(),
                    key@ == ascii_lower(path@),
                    forall|k: int| 0 <= k < keys.len() ==> #[trigger] keys@[k]@ == ascii_lower(out@[k]@),
                    forall|k: int| 0 <= k < p ==> !text_lt(ascii_lower(path@), #[trigger] ascii_lower(views(out@)[k])),
                decreases out.len() - p,
            {
                assert(views(out@)[p as int] == out@[p as int]@);
                p = p + 1;
            }
            proof {
                if p < out.len() {
                    assert(views(out@)[p as int] == out@[p as int]@);
                }
                lemma_lower_pos(views(out@), path@, p as int);
            }
            let ghost before = out@;
            let ghost keys_before = keys@;
            out.insert(p, path.to_owned());
            keys.insert(p, key);
            proof {
                assert(views(out@) =~= views(before).insert(p as int, path@));
                assert(folder_files(entries@.take(i + 1), filter) == done.push(path@));
                assert(done.push(path@).drop_last() =~= done);
                assert(sorted_by_lower(done.push(path@)) == sorted_by_lower(done).insert(
                    lower_pos(sorted_by_lower(done), path@) as int, path@));
                assert forall|k: int| 0 <= k < keys.len() implies #[trigger] keys@[k]@ == ascii_lower(out@[k]@) by {
                    if k < p {
                        assert(keys@[k] == keys_before[k] && out@[k] == before[k]);
                    } else if k > p {
                        assert(keys@[k] == keys_before[k - 1] && out@[k] == before[k - 1]);
                    }
                }
            }
        }
        i = i + 1;
    }
    assert(entries@.take(entries.len() as int) =~= entries@);
    Ok(out)
}

/// Both folders of a batch must be absolute paths of existing directories.
pub open spec fn folder_pair_check(
    input_directory: Seq<char>,
    output_directory: Seq<char>,
    input_kind: PathKind,
    output_kind: PathKind,
) -> Result<(), Seq<char>> {
    if !is_absolute_path(input_directory) || !is_absolute_path(output_directory) {
        Err("Input and output folders must use absolute paths"@)
    } else if input_kind != PathKind::Directory {
        Err("The selected input folder does not exist"@)
    } else if output_kind != PathKind::Directory {
        Err("The selected output folder does not exist"@)
    } else {
        Ok(())
    }
}

/// Checks the two folders of a batch; the kinds describe what is found at each.
pub fn validate_folder_pair(
    input_directory: &str,
    output_directory: &str,
    input_kind: PathKind,
    output_kind: PathKind,
) -> (r: Result<(), String>)
    ensures
        check_view(r) == folder_pair_check(input_directory@, output_directory@, input_kind, output_kind),
{
    if !is_absolute(input_directory) || !is_absolute(output_directory) {
        return Err("Input and output folders must use absolute paths".to_owned());
    }
    if input_kind != PathKind::Directory {
        return Err("The selected input folder does not exist".to_owned());
    }
    if output_kind != PathKind::Directory {
        return Err("The selected output folder does not exist".to_owned());
    }
    Ok(())
}

} // verus!

verus! {

/// What a folder batch makes of each file: an audio file in a format, a PDF
/// from an Office file, a Word file from a PDF, or a PDF from one image.
#[derive(Clone, Copy, Debug, PartialEq, Eq, Structural)]
pub enum FolderTarget {
    Audio(AudioFormat),
    Office,
    Docx,
    ImagePdf,
}

pub open spec fn target_extension(t: FolderTarget) -> Seq<char> {
    match t {
        FolderTarget::Audio(f) => audio_extension(f),
        FolderTarget::Office => "pdf"@,
        FolderTarget::Docx => "docx"@,
        FolderTarget::ImagePdf => "pdf"@,
    }
}

/// The message when a file has no usable stem.
pub open spec fn stem_error(t: FolderTarget, input: Seq<char>) -> Seq<char> {
    match t {
        FolderTarget::Audio(_) => "An audio filename could not be converted to text: "@ + input,
        _ => "A filename could not be converted to text: "@ + input,
    }
}

/// The request check of one planned conversion. The input is a regular file of
/// the listing, the output a name that the probe found free, and its parent
/// the output folder, found as `directory_kind`.
pub open spec fn target_check(t: FolderTarget, input: Seq<char>, output: Seq<char>, directory_kind: PathKind) -> Result<(), Seq<char>> {
    match t {
        FolderTarget::Audio(f) => audio_request_check(input, output, f, PathKind::File, PathKind::Missing, directory_kind),
        FolderTarget::Office => office_request_check(input, output, PathKind::File, PathKind::Missing, directory_kind),
        FolderTarget::Docx => docx_request_check(input, output, PathKind::File, PathKind::Missing, directory_kind),
        FolderTarget::ImagePdf => image_request_check(seq![input], seq![PathKind::File], output, PathKind::Missing, directory_kind),
    }
}

/// The message when every numbered name is taken.
pub open spec fn names_exhausted() -> Seq<char> {
    "No free output name is left in the output folder"@
}

/// The lower-case keys of the given paths.
pub open spec fn lowers(s: Seq<Seq<char>>) -> Seq<Seq<char>> {
    s.map_values(|o: Seq<char>| ascii_lower(o))
}

/// `o` is the first of `stem.ext`, `stem-2.ext`, ... in `dir` that is neither
/// found by the probe nor among `keys`.
pub open spec fn first_free_file<F: Fn(&str) -> bool>(
    probe: F,
    dir: Seq<char>,
    stem: Seq<char>,
    ext: Seq<char>,
    keys: Seq<Seq<char>>,
    o: Seq<char>,
) -> bool {
    &&& exists|k: nat| 1 <= k <= u32::MAX && o == joined(dir, numbered_file_name(stem, ext, k))
        && (forall|j: nat| 1 <= j < k ==> #[trigger] blocked(probe, keys, joined(dir, numbered_file_name(stem, ext, j))))
    &&& probed(probe, o, false)
    &&& !keys.contains(ascii_lower(o))
}

/// Every numbered file name is taken.
pub open spec fn all_files_taken<F: Fn(&str) -> bool>(
    probe: F,
    dir: Seq<char>,
    stem: Seq<char>,
    ext: Seq<char>,
    keys: Seq<Seq<char>>,
) -> bool {
    forall|j: nat| 1 <= j <= u32::MAX ==> #[trigger] blocked(probe, keys, joined(dir, numbered_file_name(stem, ext, j)))
}

/// One file of a batch was planned: it has a stem, `o` is its first free
/// output name given the names planned `before` it, and the request passes.
pub open spec fn step_ok<F: Fn(&str) -> bool>(
    probe: F,
    t: FolderTarget,
    dir: Seq<char>,
    directory_kind: PathKind,
    before: Seq<Seq<char>>,
    input: Seq<char>,
    o: Seq<char>,
) -> bool {
    &&& stem_of(input) is Some
    &&& first_free_file(probe, dir, stem_of(input)->0, target_extension(t), lowers(before), o)
    &&& target_check(t, input, o, directory_kind) is Ok
}

/// The outputs `outs` were planned, in order, for the first inputs.
pub open spec fn plan_ok<F: Fn(&str) -> bool>(
    probe: F,
    t: FolderTarget,
    dir: Seq<char>,
    directory_kind: PathKind,
    inputs: Seq<Seq<char>>,
    outs: Seq<Seq<char>>,
) -> bool {
    &&& outs.len() <= inputs.len()
    &&& forall|i: int| 0 <= i < outs.len() ==> #[trigger] step_ok(probe, t, dir, directory_kind, outs.take(i), inputs[i], outs[i])
}

/// Planning the file `input` failed with `e`, given the names planned before.
pub open spec fn step_failed<F: Fn(&str) -> bool>(
    probe: F,
    t: FolderTarget,
    dir: Seq<char>,
    directory_kind: PathKind,
    before: Seq<Seq<char>>,
    input: Seq<char>,
    e: Seq<char>,
) -> bool {
    match stem_of(input) {
        None => e == stem_error(t, input),
        Some(stem) => {
            ||| all_files_taken(probe, dir, stem, target_extension(t), lowers(before)) && e == names_exhausted()
            ||| exists|o: Seq<char>| #[trigger] first_free_file(probe, dir, stem, target_extension(t), lowers(before), o)
                && target_check(t, input, o, directory_kind) == Err::<(), Seq<char>>(e)
        },
    }
}

/// The plan stopped with `e` at the first file that failed.
pub open spec fn plan_failed<F: Fn(&str) -> bool>(
    probe: F,
    t: FolderTarget,
    dir: Seq<char>,
    directory_kind: PathKind,
    inputs: Seq<Seq<char>>,
    e: Seq<char>,
) -> bool {
    exists|done: Seq<Seq<char>>| #[trigger] plan_ok(probe, t, dir, directory_kind, inputs, done)
        && done.len() < inputs.len()
        && step_failed(probe, t, dir, directory_kind, done, inputs[done.len() as int], e)
}

/// The plan stopped with `e` at the file numbered `k` (from 0): the `k` files
/// before it were planned.
pub open spec fn plan_failed_after<F: Fn(&str) -> bool>(
    probe: F,
    t: FolderTarget,
    dir: Seq<char>,
    directory_kind: PathKind,
    inputs: Seq<Seq<char>>,
    k: nat,
    e: Seq<char>,
) -> bool {
    exists|done: Seq<Seq<char>>| #[trigger] plan_ok(probe, t, dir, directory_kind, inputs, done)
        && done.len() == k
        && k < inputs.len()
        && step_failed(probe, t, dir, directory_kind, done, inputs[k as int], e)
}

pub proof fn lemma_failed_after<F: Fn(&str) -> bool>(
    probe: F,
    t: FolderTarget,
    dir: Seq<char>,
    directory_kind: PathKind,
    inputs: Seq<Seq<char>>,
    k: nat,
    e: Seq<char>,
)
    requires
        plan_failed_after(probe, t, dir, directory_kind, inputs, k, e),
    ensures
        plan_failed(probe, t, dir, directory_kind, inputs, e),
{
    let done = choose|done: Seq<Seq<char>>| #[trigger] plan_ok(probe, t, dir, directory_kind, inputs, done)
        && done.len() == k
        && k < inputs.len()
        && step_failed(probe, t, dir, directory_kind, done, inputs[k as int], e);
    assert(plan_ok(probe, t, dir, directory_kind, inputs, done));
}

fn check_target(t: FolderTarget, input: &str, output: &str, directory_kind: PathKind) -> (r: Result<(), String>)
    ensures
        check_view(r) == target_check(t, input@, output@, directory_kind),
{
    match t {
        FolderTarget::Audio(f) => audio_converter::validate_request(input, output, f, PathKind::File, PathKind::Missing, directory_kind),
        FolderTarget::Office => office_converter::validate_request(input, output, PathKind::File, PathKind::Missing, directory_kind),
        FolderTarget::Docx => pdf_docx_converter::validate_request(input, output, PathKind::File, PathKind::Missing, directory_kind),
        FolderTarget::ImagePdf => {
            let mut paths: Vec<String> = Vec::new();
            paths.push(input.to_owned());
            let mut kinds: Vec<PathKind> = Vec::new();
            kinds.push(PathKind::File);
            assert(views(paths@) =~= seq![input@]);
            assert(kinds@ =~= seq![PathKind::File]);
            image_converter::validate_request(&paths, &kinds, output, PathKind::Missing, directory_kind)
        },
    }
}

fn target_ext(t: FolderTarget) -> (r: &'static str)
    ensures
        r@ == target_extension(t),
{
    match t {
        FolderTarget::Audio(f) => f.extension(),
        FolderTarget::Office => {
            proof { reveal_strlit("pdf"); }
            "pdf"
        },
        FolderTarget::Docx => {
            proof { reveal_strlit("docx"); }
            "docx"
        },
        FolderTarget::ImagePdf => {
            proof { reveal_strlit("pdf"); }
            "pdf"
        },
    }
}

fn stem_error_text(t: FolderTarget, input: &str) -> (r: String)
    ensures
        r@ == stem_error(t, input@),
{
    match t {
        FolderTarget::Audio(_) => concat2("An audio filename could not be converted to text: ", input),
        _ => concat2("A filename could not be converted to text: ", input),
    }
}

/// Plans one output file per input, in order, inside `output_directory`: each
/// gets the first numbered name from its stem that the probe does not find and
/// that no earlier file of the batch received (ignoring ASCII case), and the
/// request must pass its check. Stops at the first file that fails.
pub fn plan_file_outputs<F: Fn(&str) -> bool>(
    target: FolderTarget,
    inputs: &Vec<String>,
    output_directory: &str,
    directory_kind: PathKind,
    probe: &F,
) -> (r: Result<Vec<String>, (String, usize)>)
    requires
        forall|s: &str| probe.requires((s,)),
    ensures
        r matches Ok(outs) ==> outs.len() == inputs.len()
            && plan_ok(*probe, target, output_directory@, directory_kind, views(inputs@), views(outs@)),
        r matches Err((e, k)) ==> plan_failed_after(*probe, target, output_directory@, directory_kind, views(inputs@),
            k as nat, e@),
{
    let ghost ins = views(inputs@);
    let ghost dir = output_directory@;
    let ext = target_ext(target);
    let mut outs: Vec<String> = Vec::new();
    let mut reserved: Vec<String> = Vec::new();
    let mut i: usize = 0;
    while i < inputs.len()
        invariant
            i <= inputs.len(),
            ins == views(inputs@),
            dir == output_directory@,
            ext@ == target_extension(target),
            forall|s: &str| probe.requires((s,)),
            outs.len() == i,
            views(reserved@) == lowers(views(outs@)),
            plan_ok(*probe, target, dir, directory_kind, ins, views(outs@)),
        decreases inputs.len() - i,
    {
        let input = inputs[i].as_str();
        assert(ins[i as int] == input@);
        let ghost done = views(outs@);
        let stem = match file_stem(input) {
            Some(s) => s,
            None => {
                let e = stem_error_text(target, input);
                assert(step_failed(*probe, target, dir, directory_kind, done, ins[done.len() as int], e@));
                assert(plan_ok(*probe, target, dir, directory_kind, ins, done));
                return Err((e, i));
            },
        };
        let output = match next_available_output(output_directory, stem.as_str(), ext, &mut reserved, probe) {
            Some(o) => o,
            None => {
                let e = names_exhausted_text();
                assert(all_files_taken(*probe, dir, stem@, target_extension(target), lowers(done)));
                assert(step_failed(*probe, target, dir, directory_kind, done, ins[done.len() as int], e@));
                assert(plan_ok(*probe, target, dir, directory_kind, ins, done));
                return Err((e, i));
            },
        };
        assert(first_free_file(*probe, dir, stem@, target_extension(target), lowers(done), output@));
        match check_target(target, input, output.as_str(), directory_kind) {
            Err(e) => {
                assert(step_failed(*probe, target, dir, directory_kind, done, ins[done.len() as int], e@));
                assert(plan_ok(*probe, target, dir, directory_kind, ins, done));
                return Err((e, i));
            },
            Ok(()) => {},
        }
        let ghost o = output@;
        outs.push(output);
        proof {
            assert(views(outs@) =~= done.push(o));
            assert(lowers(done.push(o)) =~= lowers(done).push(ascii_lower(o)));
            assert(step_ok(*probe, target, dir, directory_kind, done, ins[i as int], o));
            assert forall|k: int| 0 <= k < views(outs@).len() implies #[trigger] step_ok(*probe, target, dir,
                directory_kind, views(outs@).take(k), ins[k], views(outs@)[k]) by {
                if k < i {
                    assert(views(outs@).take(k) =~= done.take(k));
                    assert(views(outs@)[k] == done[k]);
                } else {
                    assert(views(outs@).take(k) =~= done);
                }
            }
        }
        i = i + 1;
    }
    Ok(outs)
}

fn names_exhausted_text() -> (r: String)
    ensures
        r@ == names_exhausted(),
{
    "No free output name is left in the output folder".to_owned()
}

} // verus!

verus! {

/// The files a folder batch takes: both folders must pass their check, the
/// listing must have been read, and at least one file must qualify.
pub open spec fn folder_inputs_spec(
    input_directory: Seq<char>,
    output_directory: Seq<char>,
    input_kind: PathKind,
    output_kind: PathKind,
    listing: Result<Vec<(String, PathKind)>, String>,
    filter: FileFilter,
    none_found: Seq<char>,
) -> Result<Seq<Seq<char>>, Seq<char>> {
    match folder_pair_check(input_directory, output_directory, input_kind, output_kind) {
        Err(e) => Err(e),
        Ok(()) => match listing {
            Err(e) => Err("The selected input folder could not be read: "@ + e@),
            Ok(entries) => {
                let files = sorted_by_lower(folder_files(entries@, filter));
                if files.len() == 0 { Err(none_found) } else { Ok(files) }
            },
        },
    }
}

/// Checks the folders of a batch and lists the files it takes, sorted by
/// lower-case path; `none_found` is the error when no file qualifies.
pub fn folder_inputs(
    input_directory: &str,
    output_directory: &str,
    input_kind: PathKind,
    output_kind: PathKind,
    listing: &Result<Vec<(String, PathKind)>, String>,
    filter: FileFilter,
    none_found: &str,
) -> (r: Result<Vec<String>, String>)
    ensures
        match folder_inputs_spec(input_directory@, output_directory@, input_kind, output_kind, *listing, filter, none_found@) {
            Ok(files) => r is Ok && views(r->Ok_0@) == files,
            Err(e) => r is Err && r->Err_0@ == e,
        },
{
    validate_folder_pair(input_directory, output_directory, input_kind, output_kind)?;
    let files = collect_folder_files(listing, filter)?;
    if files.len() == 0 {
        return Err(none_found.to_owned());
    }
    Ok(files)
}

pub open spec fn audio_none_found() -> Seq<char> {
    "No supported audio files were found in the selected folder (MP3, WAV, FLAC, AAC, M4A, or OGG)"@
}

pub open spec fn pair_inputs(pairs: Seq<(String, String)>) -> Seq<Seq<char>> {
    pairs.map_values(|p: (String, String)| p.0@)
}

pub open spec fn pair_outputs(pairs: Seq<(String, String)>) -> Seq<Seq<char>> {
    pairs.map_values(|p: (String, String)| p.1@)
}

/// Plans the conversion of every supported audio file of `input_directory` into
/// `format` inside `output_directory`: the files are taken in lower-case path
/// order and each gets the first free name from its stem. `listing` is what
/// reading the input folder gave: each entry with what it is.
pub fn plan_audio_folder_conversion<F: Fn(&str) -> bool>(
    input_directory: &str,
    output_directory: &str,
    format: AudioFormat,
    input_kind: PathKind,
    output_kind: PathKind,
    listing: Result<Vec<(String, PathKind)>, String>,
    probe: &F,
) -> (r: Result<Vec<(String, String)>, String>)
    requires
        forall|s: &str| probe.requires((s,)),
    ensures
        match folder_inputs_spec(input_directory@, output_directory@, input_kind, output_kind, listing,
            FileFilter::Audio, audio_none_found()) {
            Err(e) => r is Err && r->Err_0@ == e,
            Ok(files) => match r {
                Ok(pairs) => pair_inputs(pairs@) == files && plan_ok(*probe, FolderTarget::Audio(format),
                    output_directory@, output_kind, files, pair_outputs(pairs@)) && pairs.len() == files.len(),
                Err(e) => plan_failed(*probe, FolderTarget::Audio(format), output_directory@, output_kind, files, e@),
            },
        },
{
    let inputs = folder_inputs(input_directory, output_directory, input_kind, output_kind, &listing,
        FileFilter::Audio, "No supported audio files were found in the selected folder (MP3, WAV, FLAC, AAC, M4A, or OGG)")?;
    let outputs = match plan_file_outputs(FolderTarget::Audio(format), &inputs, output_directory, output_kind, probe) {
        Ok(o) => o,
        Err((e, k)) => {
            proof {
                lemma_failed_after(*probe, FolderTarget::Audio(format), output_directory@, output_kind, views(inputs@),
                    k as nat, e@);
            }
            return Err(e);
        },
    };
    let mut pairs: Vec<(String, String)> = Vec::new();
    let mut i: usize = 0;
    while i < inputs.len()
        invariant
            i <= inputs.len(),
            outputs.len() == inputs.len(),
            pairs.len() == i,
            forall|k: int| #![trigger pairs@[k]] 0 <= k < i ==> pairs@[k].0@ == inputs@[k]@ && pairs@[k].1@ == outputs@[k]@,
        decreases inputs.len() - i,
    {
        pairs.push((inputs[i].clone(), outputs[i].clone()));
        i = i + 1;
    }
    assert(pair_inputs(pairs@) =~= views(inputs@));
    assert forall|k: int| 0 <= k < pairs.len() implies #[trigger] pair_outputs(pairs@)[k] == views(outputs@)[k] by {
        assert(pairs@[k].1@ == outputs@[k]@);
    }
    assert(pair_outputs(pairs@) =~= views(outputs@));
    Ok(pairs)
}

} // verus!

verus! {

pub open spec fn image_none_found() -> Seq<char> {
    "No supported image files were found in the selected folder (JPG, PNG, WebP, or TIFF)"@
}

/// The stem of the combined PDF: the folder's name, or "images" when it has
/// none, followed by "-images".
pub open spec fn combine_stem(input_directory: Seq<char>) -> Seq<char> {
    match file_name_of(input_directory) {
        Some(n) => if n.len() > 0 { n + "-images"@ } else { "images-images"@ },
        None => "images-images"@,
    }
}

/// Every input found as a regular file.
pub open spec fn all_files(n: nat) -> Seq<PathKind> {
    Seq::new(n, |i: int| PathKind::File)
}

/// The job combining every image into `output`.
pub open spec fn combined_job(files: Seq<Seq<char>>, output: Seq<char>, created_at: u64, n: u64) -> JobModel {
    queued(job_id(created_at, n), "images_to_pdf"@, JobKindModel::ImagesToPdf { input_paths: files, output_path: output }, created_at)
}

/// One job per image, with consecutive ids from counter value `n`.
pub open spec fn separate_jobs(files: Seq<Seq<char>>, outs: Seq<Seq<char>>, created_at: u64, n: u64) -> Seq<JobModel> {
    Seq::new(files.len(), |i: int| queued(
        job_id(created_at, counter_after(n, i as nat)),
        "images_to_pdf"@,
        JobKindModel::ImagesToPdf { input_paths: seq![files[i]], output_path: outs[i] },
        created_at,
    ))
}

/// What combining the images gives, once the output name is known to be `o`.
pub open spec fn combine_outcome<F: Fn(&str) -> bool>(
    probe: F,
    input_directory: Seq<char>,
    output_directory: Seq<char>,
    output_kind: PathKind,
    files: Seq<Seq<char>>,
    o: Seq<char>,
) -> bool {
    first_free_file(probe, output_directory, combine_stem(input_directory), "pdf"@, Seq::empty(), o)
}

fn combine_stem_text(input_directory: &str) -> (r: String)
    ensures
        r@ == combine_stem(input_directory@),
{
    match file_name(input_directory) {
        Some(n) => {
            if !n.as_str().is_empty() {
                concat2(n.as_str(), "-images")
            } else {
                "images-images".to_owned()
            }
        },
        None => "images-images".to_owned(),
    }
}

/// One image of a separate conversion failed with `e` after the images before
/// it were planned; their ids, counted from `n0`, stay used up to `n1`.
pub open spec fn separate_failure<F: Fn(&str) -> bool>(
    probe: F,
    dir: Seq<char>,
    directory_kind: PathKind,
    files: Seq<Seq<char>>,
    e: Seq<char>,
    n0: u64,
    n1: u64,
) -> bool {
    exists|k: nat| #[trigger] plan_failed_after(probe, FolderTarget::ImagePdf, dir, directory_kind, files, k, e)
        && n1 == counter_after(n0, k)
}

/// Plans PDFs from the images of `input_directory`, taken in lower-case path
/// order: one PDF `{folder}-images.pdf` holding all of them, or one PDF per
/// image named after it. Ids are issued from `next_id`; when one image of a
/// separate conversion fails, the ids of the images planned before it stay used.
#[verifier::spinoff_prover]
#[verifier::rlimit(40)]
pub fn plan_image_folder_to_pdf<F: Fn(&str) -> bool>(
    input_directory: &str,
    output_directory: &str,
    mode: ImageFolderMode,
    created_at: u64,
    input_kind: PathKind,
    output_kind: PathKind,
    listing: Result<Vec<(String, PathKind)>, String>,
    probe: &F,
    next_id: &mut u64,
) -> (r: Result<Vec<Job>, String>)
    requires
        forall|s: &str| probe.requires((s,)),
    ensures
        match folder_inputs_spec(input_directory@, output_directory@, input_kind, output_kind, listing,
            FileFilter::Image, image_none_found()) {
            Err(e) => r is Err && r->Err_0@ == e && *final(next_id) == *old(next_id),
            Ok(files) => match mode {
                ImageFolderMode::Combine => match r {
                    Ok(jobs) => jobs.len() == 1 && *final(next_id) == next_counter(*old(next_id))
                        && exists|o: Seq<char>| #[trigger] combine_outcome(*probe, input_directory@, output_directory@, output_kind, files, o)
                            && image_request_check(files, all_files(files.len()), o, PathKind::Missing, output_kind) is Ok
                            && jobs@[0]@ == combined_job(files, o, created_at, *old(next_id)),
                    Err(e) => *final(next_id) == *old(next_id) && (
                        (all_files_taken(*probe, output_directory@, combine_stem(input_directory@), "pdf"@, Seq::empty())
                            && e@ == names_exhausted())
                        || exists|o: Seq<char>| #[trigger] combine_outcome(*probe, input_directory@, output_directory@, output_kind, files, o)
                            && image_request_check(files, all_files(files.len()), o, PathKind::Missing, output_kind)
                                == Err::<(), Seq<char>>(e@)),
                },
                ImageFolderMode::Separate => match r {
                    Ok(jobs) => *final(next_id) == counter_after(*old(next_id), files.len())
                        && exists|outs: Seq<Seq<char>>| #[trigger] plan_ok(*probe, FolderTarget::ImagePdf, output_directory@, output_kind, files, outs)
                            && outs.len() == files.len()
                            && job_views(jobs@) == separate_jobs(files, outs, created_at, *old(next_id)),
                    Err(e) => separate_failure(*probe, output_directory@, output_kind, files, e@, *old(next_id),
                        *final(next_id)),
                },
            },
        },
{
    let inputs = folder_inputs(input_directory, output_directory, input_kind, output_kind, &listing,
        FileFilter::Image, "No supported image files were found in the selected folder (JPG, PNG, WebP, or TIFF)")?;
    let ghost files = views(inputs@);
    match mode {
        ImageFolderMode::Combine => {
            let stem = combine_stem_text(input_directory);
            let mut reserved: Vec<String> = Vec::new();
            assert(views(reserved@) =~= Seq::<Seq<char>>::empty());
            let output = match next_available_output(output_directory, stem.as_str(), "pdf", &mut reserved, probe) {
                Some(o) => o,
                None => {
                    proof { reveal_strlit("pdf"); }
                    return Err(names_exhausted_text());
                },
            };
            proof { reveal_strlit("pdf"); }
            assert(combine_outcome(*probe, input_directory@, output_directory@, output_kind, files, output@));
            let mut kinds: Vec<PathKind> = Vec::new();
            let mut i: usize = 0;
            while i < inputs.len()
                invariant
                    i <= inputs.len(),
                    kinds@ == all_files(i as nat),
                decreases inputs.len() - i,
            {
                kinds.push(PathKind::File);
                assert(kinds@ =~= all_files((i + 1) as nat));
                i = i + 1;
            }
            image_converter::validate_request(&inputs, &kinds, output.as_str(), PathKind::Missing, output_kind)?;
            let id = issue_id(next_id, created_at);
            let job = Job::queued_images_to_pdf(id.as_str(), inputs, output.as_str(), created_at);
            let mut jobs: Vec<Job> = Vec::new();
            jobs.push(job);
            Ok(jobs)
        },
        ImageFolderMode::Separate => {
            let outputs = match plan_file_outputs(FolderTarget::ImagePdf, &inputs, output_directory, output_kind, probe) {
                Ok(o) => o,
                Err((e, k)) => {
                    let ghost n0 = *next_id;
                    skip_ids(next_id, k);
                    assert(plan_failed_after(*probe, FolderTarget::ImagePdf, output_directory@, output_kind, files,
                        k as nat, e@) && *next_id == counter_after(n0, k as nat));
                    assert(separate_failure(*probe, output_directory@, output_kind, files, e@, n0, *next_id));
                    return Err(e);
                },
            };
            let ghost start = *next_id;
            let mut jobs: Vec<Job> = Vec::new();
            let mut i: usize = 0;
            while i < inputs.len()
                invariant
                    i <= inputs.len(),
                    outputs.len() == inputs.len(),
                    files == views(inputs@),
                    *next_id == counter_after(start, i as nat),
                    job_views(jobs@) == separate_jobs(files, views(outputs@), created_at, start).take(i as int),
                decreases inputs.len() - i,
            {
                let mut one: Vec<String> = Vec::new();
                one.push(inputs[i].clone());
                assert(views(one@) =~= seq![files[i as int]]);
                let id = issue_id(next_id, created_at);
                let ghost before = jobs@;
                jobs.push(Job::queued_images_to_pdf(id.as_str(), one, outputs[i].as_str(), created_at));
                assert(views(outputs@)[i as int] == outputs@[i as int]@);
                assert(*next_id == counter_after(start, (i + 1) as nat));
                assert(job_views(jobs@) =~= job_views(before).push(jobs@[i as int]@));
                assert(jobs@[i as int]@ == separate_jobs(files, views(outputs@), created_at, start)[i as int]);
                assert(job_views(jobs@) =~= separate_jobs(files, views(outputs@), created_at, start).take(i + 1));
                i = i + 1;
            }
            assert(separate_jobs(files, views(outputs@), created_at, start).take(inputs.len() as int)
                =~= separate_jobs(files, views(outputs@), created_at, start));
            Ok(jobs)
        },
    }
}

} // verus!

verus! {

pub open spec fn pdf_none_found() -> Seq<char> {
    "No PDF files were found in the selected folder"@
}

/// Creating the directory `p` succeeded.
pub open spec fn created<C: Fn(&str) -> Result<(), String>>(create: C, p: Seq<char>) -> bool {
    exists|s: &str, r: Result<(), String>| s@ == p && #[trigger] create.ensures((s,), r) && r is Ok
}

/// Creating the directory `p` failed with the message `m`.
pub open spec fn creation_failed<C: Fn(&str) -> Result<(), String>>(create: C, p: Seq<char>, m: Seq<char>) -> bool {
    exists|s: &str, r: Result<(), String>| s@ == p && #[trigger] create.ensures((s,), r) && r is Err && r->Err_0@ == m
}

/// The message when an output directory could not be created.
pub open spec fn creation_error(p: Seq<char>, m: Seq<char>) -> Seq<char> {
    "PDF image output folder could not be created ("@ + p + "): "@ + m
}

/// `o` is the first of `stem`, `stem-2`, ... in `dir` that is neither found by
/// the probe nor among `keys`.
pub open spec fn first_free_dir<F: Fn(&str) -> bool>(probe: F, dir: Seq<char>, stem: Seq<char>, keys: Seq<Seq<char>>, o: Seq<char>) -> bool {
    &&& exists|k: nat| 1 <= k <= u32::MAX && o == joined(dir, numbered_dir_name(stem, k))
        && (forall|j: nat| 1 <= j < k ==> #[trigger] blocked(probe, keys, joined(dir, numbered_dir_name(stem, j))))
    &&& probed(probe, o, false)
    &&& !keys.contains(ascii_lower(o))
}

/// Every numbered directory name is taken.
pub open spec fn all_dirs_taken<F: Fn(&str) -> bool>(probe: F, dir: Seq<char>, stem: Seq<char>, keys: Seq<Seq<char>>) -> bool {
    forall|j: nat| 1 <= j <= u32::MAX ==> #[trigger] blocked(probe, keys, joined(dir, numbered_dir_name(stem, j)))
}

/// One PDF received the output directory `o`, which was created, and its
/// request passes.
pub open spec fn dir_step_ok<F: Fn(&str) -> bool, C: Fn(&str) -> Result<(), String>>(
    probe: F,
    create: C,
    dir: Seq<char>,
    dpi: u16,
    before: Seq<Seq<char>>,
    input: Seq<char>,
    o: Seq<char>,
) -> bool {
    &&& stem_of(input) is Some
    &&& first_free_dir(probe, dir, stem_of(input)->0, lowers(before), o)
    &&& created(create, o)
    &&& pdf_image_request_check(input, o, dpi, PathKind::File, PathKind::Directory) is Ok
}

pub open spec fn dir_plan_ok<F: Fn(&str) -> bool, C: Fn(&str) -> Result<(), String>>(
    probe: F,
    create: C,
    dir: Seq<char>,
    dpi: u16,
    inputs: Seq<Seq<char>>,
    outs: Seq<Seq<char>>,
) -> bool {
    &&& outs.len() <= inputs.len()
    &&& forall|i: int| 0 <= i < outs.len() ==> #[trigger] dir_step_ok(probe, create, dir, dpi, outs.take(i), inputs[i], outs[i])
}

/// Planning the directory of `input` failed with `e`.
pub open spec fn dir_step_failed<F: Fn(&str) -> bool, C: Fn(&str) -> Result<(), String>>(
    probe: F,
    create: C,
    dir: Seq<char>,
    dpi: u16,
    before: Seq<Seq<char>>,
    input: Seq<char>,
    e: Seq<char>,
) -> bool {
    match stem_of(input) {
        None => e == "A filename could not be converted to text: "@ + input,
        Some(stem) => {
            ||| all_dirs_taken(probe, dir, stem, lowers(before)) && e == names_exhausted()
            ||| exists|o: Seq<char>, m: Seq<char>| #![trigger first_free_dir(probe, dir, stem, lowers(before), o), creation_failed(create, o, m)]
                first_free_dir(probe, dir, stem, lowers(before), o) && creation_failed(create, o, m) && e == creation_error(o, m)
            ||| exists|o: Seq<char>| #[trigger] first_free_dir(probe, dir, stem, lowers(before), o) && created(create, o)
                && pdf_image_request_check(input, o, dpi, PathKind::File, PathKind::Directory) == Err::<(), Seq<char>>(e)
        },
    }
}

/// One PDF-to-images job per PDF, with consecutive ids from counter value `n`.
pub open spec fn pdf_image_jobs(
    files: Seq<Seq<char>>,
    outs: Seq<Seq<char>>,
    format: PdfImageFormat,
    dpi: u16,
    created_at: u64,
    n: u64,
) -> Seq<JobModel> {
    Seq::new(outs.len(), |i: int| queued(
        job_id(created_at, counter_after(n, i as nat)),
        "pdf_to_images"@,
        JobKindModel::PdfToImages { input_path: files[i], output_directory: outs[i], format, dpi },
        created_at,
    ))
}

/// Gives one PDF its output directory: the first free directory named after its
/// stem, created by `create`; the request is then checked. `reserved` holds the
/// lower-case paths given so far and receives the new one.
fn plan_image_directory<F: Fn(&str) -> bool, C: Fn(&str) -> Result<(), String>>(
    input: &str,
    output_directory: &str,
    format: PdfImageFormat,
    dpi: u16,
    reserved: &mut Vec<String>,
    probe: &F,
    create: &C,
    Ghost(before): Ghost<Seq<Seq<char>>>,
) -> (r: Result<String, String>)
    requires
        forall|s: &str| probe.requires((s,)),
        forall|s: &str| create.requires((s,)),
        views(old(reserved)@) == lowers(before),
    ensures
        match r {
            Ok(o) => dir_step_ok(*probe, *create, output_directory@, dpi, before, input@, o@)
                && views(final(reserved)@) == lowers(before.push(o@)),
            Err(e) => dir_step_failed(*probe, *create, output_directory@, dpi, before, input@, e@),
        },
{
    let stem = match file_stem(input) {
        Some(s) => s,
        None => return Err(concat2("A filename could not be converted to text: ", input)),
    };
    let output = match next_available_directory(output_directory, stem.as_str(), reserved, probe) {
        Some(o) => o,
        None => {
            assert(all_dirs_taken(*probe, output_directory@, stem@, lowers(before)));
            return Err(names_exhausted_text());
        },
    };
    assert(first_free_dir(*probe, output_directory@, stem@, lowers(before), output@));
    assert(lowers(before.push(output@)) =~= lowers(before).push(ascii_lower(output@)));
    match create(output.as_str()) {
        Err(m) => {
            let mut e = concat3("PDF image output folder could not be created (", output.as_str(), "): ");
            e.append(m.as_str());
            assert(creation_failed(*create, output@, m@));
            return Err(e);
        },
        Ok(()) => {},
    }
    assert(created(*create, output@));
    pdf_image_converter::validate_request(input, output.as_str(), format, dpi, PathKind::File, PathKind::Directory)?;
    Ok(output)
}

/// What planning the PDFs `files` gave: a job per PDF, or the error of the
/// first PDF that failed; `n0` and `n1` are the id counter before and after.
pub open spec fn pdf_folder_outcome<F: Fn(&str) -> bool, C: Fn(&str) -> Result<(), String>>(
    probe: F,
    create: C,
    dir: Seq<char>,
    format: PdfImageFormat,
    dpi: u16,
    created_at: u64,
    files: Seq<Seq<char>>,
    n0: u64,
    n1: u64,
    r: Result<Vec<Job>, String>,
) -> bool {
    match r {
        Ok(jobs) => exists|outs: Seq<Seq<char>>| #[trigger] dir_plan_ok(probe, create, dir, dpi, files, outs)
            && outs.len() == files.len()
            && job_views(jobs@) == pdf_image_jobs(files, outs, format, dpi, created_at, n0)
            && n1 == counter_after(n0, files.len()),
        Err(e) => exists|done: Seq<Seq<char>>| #[trigger] dir_plan_ok(probe, create, dir, dpi, files, done)
            && done.len() < files.len()
            && dir_step_failed(probe, create, dir, dpi, done, files[done.len() as int], e@)
            && n1 == counter_after(n0, done.len()),
    }
}

/// Plans one PDF-to-images job per PDF of `input_directory`, taken in lower-case
/// path order. Each PDF gets the first free directory named after its stem
/// inside `output_directory`, which `create` makes before the request is
/// checked. Stops at the first PDF that fails; ids are issued from `next_id`.
pub fn plan_pdf_folder_to_images<F: Fn(&str) -> bool, C: Fn(&str) -> Result<(), String>>(
    input_directory: &str,
    output_directory: &str,
    format: PdfImageFormat,
    dpi: u16,
    created_at: u64,
    input_kind: PathKind,
    output_kind: PathKind,
    listing: Result<Vec<(String, PathKind)>, String>,
    probe: &F,
    create: &C,
    next_id: &mut u64,
) -> (r: Result<Vec<Job>, String>)
    requires
        forall|s: &str| probe.requires((s,)),
        forall|s: &str| create.requires((s,)),
    ensures
        match folder_inputs_spec(input_directory@, output_directory@, input_kind, output_kind, listing,
            FileFilter::Pdf, pdf_none_found()) {
            Err(e) => r is Err && r->Err_0@ == e && *final(next_id) == *old(next_id),
            Ok(files) => pdf_folder_outcome(*probe, *create, output_directory@, format, dpi, created_at, files,
                *old(next_id), *final(next_id), r),
        },
{
    let inputs = folder_inputs(input_directory, output_directory, input_kind, output_kind, &listing,
        FileFilter::Pdf, "No PDF files were found in the selected folder")?;
    let ghost files = views(inputs@);
    let ghost dir = output_directory@;
    let ghost start = *next_id;
    let mut outs: Vec<String> = Vec::new();
    let mut reserved: Vec<String> = Vec::new();
    let mut jobs: Vec<Job> = Vec::new();
    let mut i: usize = 0;
    assert(views(reserved@) =~= lowers(views(outs@)));
    while i < inputs.len()
        invariant
            i <= inputs.len(),
            files == views(inputs@),
            folder_inputs_spec(input_directory@, output_directory@, input_kind, output_kind, listing,
                FileFilter::Pdf, pdf_none_found()) == Ok::<Seq<Seq<char>>, Seq<char>>(files),
            start == *old(next_id),
            dir == output_directory@,
            forall|s: &str| probe.requires((s,)),
            forall|s: &str| create.requires((s,)),
            outs.len() == i,
            views(reserved@) == lowers(views(outs@)),
            dir_plan_ok(*probe, *create, dir, dpi, files, views(outs@)),
            job_views(jobs@) == pdf_image_jobs(files, views(outs@), format, dpi, created_at, start),
            *next_id == counter_after(start, i as nat),
        decreases inputs.len() - i,
    {
        let input = inputs[i].as_str();
        assert(files[i as int] == input@);
        let ghost done = views(outs@);
        let output = match plan_image_directory(input, output_directory, format, dpi, &mut reserved, probe, create, Ghost(done)) {
            Ok(o) => o,
            Err(e) => {
                assert(dir_plan_ok(*probe, *create, dir, dpi, files, done));
                let r: Result<Vec<Job>, String> = Err(e);
                assert(pdf_folder_outcome(*probe, *create, output_directory@, format, dpi, created_at, files,
                    *old(next_id), *next_id, r));
                return r;
            },
        };
        let id = issue_id(next_id, created_at);
        let ghost jobs_before = jobs@;
        jobs.push(Job::queued_pdf_to_images(id.as_str(), input, output.as_str(), format, dpi, created_at));
        let ghost o = output@;
        outs.push(output);
        proof {
            assert(views(outs@) =~= done.push(o));
            assert forall|k: int| 0 <= k < views(outs@).len() implies #[trigger] dir_step_ok(*probe, *create, dir,
                dpi, views(outs@).take(k), files[k], views(outs@)[k]) by {
                if k < i {
                    assert(views(outs@).take(k) =~= done.take(k));
                    assert(views(outs@)[k] == done[k]);
                } else {
                    assert(views(outs@).take(k) =~= done);
                }
            }
            assert(job_views(jobs@) =~= job_views(jobs_before).push(jobs@[i as int]@));
            assert(job_views(jobs@) =~= pdf_image_jobs(files, views(outs@), format, dpi, created_at, start));
        }
        i = i + 1;
    }
    Ok(jobs)
}

} // verus!

verus! {

/// Within a folder batch no two files receive the same output, even ignoring
/// ASCII case, and every output was free when probed: collisions are resolved
/// by numbered suffixes, never by overwriting.
pub proof fn law_batch_outputs_are_distinct<F: Fn(&str) -> bool>(
    probe: F,
    t: FolderTarget,
    dir: Seq<char>,
    directory_kind: PathKind,
    inputs: Seq<Seq<char>>,
    outs: Seq<Seq<char>>,
)
    requires
        plan_ok(probe, t, dir, directory_kind, inputs, outs),
    ensures
        forall|i: int, j: int| 0 <= i < j < outs.len() ==> ascii_lower(#[trigger] outs[i]) != ascii_lower(#[trigger] outs[j]),
        forall|i: int| 0 <= i < outs.len() ==> probed(probe, #[trigger] outs[i], false),
{
    assert forall|i: int, j: int| 0 <= i < j < outs.len() implies ascii_lower(#[trigger] outs[i]) != ascii_lower(#[trigger] outs[j]) by {
        assert(step_ok(probe, t, dir, directory_kind, outs.take(j), inputs[j], outs[j]));
        assert(lowers(outs.take(j))[i] == ascii_lower(outs[i]));
    }
    assert forall|i: int| 0 <= i < outs.len() implies probed(probe, #[trigger] outs[i], false) by {
        assert(step_ok(probe, t, dir, directory_kind, outs.take(i), inputs[i], outs[i]));
    }
}

/// The same holds of the directories planned for PDF pages: pairwise distinct
/// ignoring ASCII case, each free when probed and then created.
pub proof fn law_page_directories_are_distinct<F: Fn(&str) -> bool, C: Fn(&str) -> Result<(), String>>(
    probe: F,
    create: C,
    dir: Seq<char>,
    dpi: u16,
    inputs: Seq<Seq<char>>,
    outs: Seq<Seq<char>>,
)
    requires
        dir_plan_ok(probe, create, dir, dpi, inputs, outs),
    ensures
        forall|i: int, j: int| 0 <= i < j < outs.len() ==> ascii_lower(#[trigger] outs[i]) != ascii_lower(#[trigger] outs[j]),
        forall|i: int| 0 <= i < outs.len() ==> probed(probe, #[trigger] outs[i], false) && created(create, outs[i]),
{
    assert forall|i: int, j: int| 0 <= i < j < outs.len() implies ascii_lower(#[trigger] outs[i]) != ascii_lower(#[trigger] outs[j]) by {
        assert(dir_step_ok(probe, create, dir, dpi, outs.take(j), inputs[j], outs[j]));
        assert(lowers(outs.take(j))[i] == ascii_lower(outs[i]));
    }
    assert forall|i: int| 0 <= i < outs.len() implies probed(probe, #[trigger] outs[i], false) && created(create, outs[i]) by {
        assert(dir_step_ok(probe, create, dir, dpi, outs.take(i), inputs[i], outs[i]));
    }
}

} // verus!
