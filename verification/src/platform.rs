//! Where the external engines are found: the candidate locations of each and
//! the rules that pick among them. What exists on disk, what the environment
//! holds and whether a program runs are told by the caller.

use vstd::prelude::*;
use crate::paths::{join, joined, probed};
use crate::paths::opt_view;
use crate::text::{ascii_lower, ascii_upper, chars_of, concat2, contains_text, lower_char, lower_char_exec, same_text, string_of, text_contains, upper, views};

verus! {

/// The Python interpreter and worker script that convert PDF to Word.
#[derive(Debug)]
pub struct PdfToDocxRuntime {
    pub python_path: String,
    pub worker_path: String,
}

/// The operating system the application runs on.
#[derive(Clone, Copy, Debug, PartialEq, Eq, Structural)]
pub enum TargetOs {
    Windows,
    MacOs,
    Linux,
}

pub open spec fn slash_char(c: char) -> char {
    if c == '\\' { '/' } else { c }
}

/// A path with `\` turned into `/` and ASCII letters into lower case.
pub open spec fn normalized_path(p: Seq<char>) -> Seq<char> {
    ascii_lower(p.map_values(|c: char| slash_char(c)))
}

/// The text after the last `/`, or the whole text when it holds none.
pub open spec fn after_last_slash(s: Seq<char>) -> Seq<char>
    decreases s.len(),
{
    if s.len() == 0 {
        s
    } else if s.last() == '/' {
        Seq::empty()
    } else {
        after_last_slash(s.drop_last()).push(s.last())
    }
}

/// The Microsoft Store placeholder for Python: `python.exe` or `python3.exe`
/// inside a `Microsoft/WindowsApps` folder, in any case and with either
/// separator.
pub open spec fn is_store_alias(p: Seq<char>) -> bool {
    let n = normalized_path(p);
    (after_last_slash(n) == "python.exe"@ || after_last_slash(n) == "python3.exe"@)
        && contains_text(n, "/microsoft/windowsapps/"@)
}

proof fn lemma_after_last_slash(s: Seq<char>, j: int)
    requires
        0 <= j <= s.len(),
        j == 0 || s[j - 1] == '/',
        forall|k: int| j <= k < s.len() ==> s[k] != '/',
    ensures
        after_last_slash(s) == s.subrange(j, s.len() as int),
    decreases s.len(),
{
    if s.len() == 0 {
        assert(s.subrange(0, 0) =~= s);
    } else if j == s.len() {
        assert(s.subrange(j, s.len() as int) =~= Seq::<char>::empty());
    } else {
        lemma_after_last_slash(s.drop_last(), j);
        assert(s.subrange(j, s.len() as int) =~= s.drop_last().subrange(j, s.len() - 1).push(s.last()));
    }
}

fn normalize(p: &str) -> (r: Vec<char>)
    ensures
        r@ == normalized_path(p@),
{
    let v = chars_of(p);
    let mut out: Vec<char> = Vec::new();
    let mut i: usize = 0;
    while i < v.len()
        invariant
            v@ == p@,
            i <= v.len(),
            out@ =~= normalized_path(p@).take(i as int),
        decreases v.len() - i,
    {
        let c = if v[i] == '\\' { '/' } else { v[i] };
        out.push(lower_char_exec(c));
        i = i + 1;
    }
    assert(normalized_path(p@).take(v.len() as int) =~= normalized_path(p@));
    out
}

/// Whether the path is the Microsoft Store placeholder for Python, which is
/// not a real installation.
pub fn is_windows_apps_python_alias(path: &str) -> (r: bool)
    ensures
        r == is_store_alias(path@),
{
    let n = normalize(path);
    let mut j: usize = n.len();
    while j > 0 && n[j - 1] != '/'
        invariant
            j <= n.len(),
            forall|k: int| j <= k < n.len() ==> n@[k] != '/',
        decreases j,
    {
        j = j - 1;
    }
    proof {
        lemma_after_last_slash(n@, j as int);
    }
    let mut tail: Vec<char> = Vec::new();
    let mut k: usize = j;
    while k < n.len()
        invariant
            j <= k <= n.len(),
            tail@ == n@.subrange(j as int, k as int),
        decreases n.len() - k,
    {
        tail.push(n[k]);
        k = k + 1;
        assert(tail@ =~= n@.subrange(j as int, k as int));
    }
    let name = string_of(&tail);
    let whole = string_of(&n);
    (same_text(name.as_str(), "python.exe") || same_text(name.as_str(), "python3.exe"))
        && text_contains(whole.as_str(), "/microsoft/windowsapps/")
}

/// `r` is the first of the candidates that the probe finds, or `None` when it
/// finds none of them.
pub open spec fn first_found<F: Fn(&str) -> bool>(probe: F, candidates: Seq<Seq<char>>, r: Option<Seq<char>>) -> bool {
    match r {
        Some(p) => exists|i: int| 0 <= i < candidates.len() && p == candidates[i] && #[trigger] probed(probe, candidates[i], true)
            && forall|j: int| 0 <= j < i ==> #[trigger] probed(probe, candidates[j], false),
        None => forall|j: int| 0 <= j < candidates.len() ==> #[trigger] probed(probe, candidates[j], false),
    }
}

/// The first of the candidates, in order, that `is_file` reports as a file.
pub fn first_existing<F: Fn(&str) -> bool>(candidates: &Vec<String>, is_file: &F) -> (r: Option<String>)
    requires
        forall|s: &str| is_file.requires((s,)),
    ensures
        first_found(*is_file, views(candidates@), crate::paths::opt_view(r)),
{
    let ghost cs = views(candidates@);
    let mut i: usize = 0;
    while i < candidates.len()
        invariant
            i <= candidates.len(),
            cs == views(candidates@),
            forall|s: &str| is_file.requires((s,)),
            forall|j: int| 0 <= j < i ==> #[trigger] probed(*is_file, cs[j], false),
        decreases candidates.len() - i,
    {
        let c = candidates[i].as_str();
        let found = is_file(c);
        assert(cs[i as int] == c@);
        assert(probed(*is_file, cs[i as int], found));
        if found {
            return Some(candidates[i].clone());
        }
        i = i + 1;
    }
    None
}

/// `r` is the first candidate that is not the Store placeholder and that
/// `usable` accepts, or `None` when there is none.
pub open spec fn first_usable<F: Fn(&str) -> bool>(usable: F, candidates: Seq<Seq<char>>, r: Option<Seq<char>>) -> bool {
    match r {
        Some(p) => exists|i: int| 0 <= i < candidates.len() && p == candidates[i] && !is_store_alias(p)
            && #[trigger] probed(usable, candidates[i], true)
            && forall|j: int| 0 <= j < i ==> is_store_alias(candidates[j]) || #[trigger] probed(usable, candidates[j], false),
        None => forall|j: int| 0 <= j < candidates.len() ==> is_store_alias(candidates[j]) || #[trigger] probed(usable, candidates[j], false),
    }
}

/// The first candidate that is not the Store placeholder and that `usable`
/// accepts; placeholders are skipped without asking `usable`, which need
/// accept only paths that are not placeholders.
pub fn first_usable_python<F: Fn(&str) -> bool>(candidates: &Vec<String>, usable: &F) -> (r: Option<String>)
    requires
        forall|s: &str| !is_store_alias(s@) ==> usable.requires((s,)),
    ensures
        first_usable(*usable, views(candidates@), crate::paths::opt_view(r)),
{
    let ghost cs = views(candidates@);
    let mut i: usize = 0;
    while i < candidates.len()
        invariant
            i <= candidates.len(),
            cs == views(candidates@),
            forall|s: &str| !is_store_alias(s@) ==> usable.requires((s,)),
            forall|j: int| 0 <= j < i ==> is_store_alias(cs[j]) || #[trigger] probed(*usable, cs[j], false),
        decreases candidates.len() - i,
    {
        let c = candidates[i].as_str();
        assert(cs[i as int] == c@);
        if !is_windows_apps_python_alias(c) {
            let ok = usable(c);
            assert(probed(*usable, cs[i as int], ok));
            if ok {
                return Some(candidates[i].clone());
            }
        }
        i = i + 1;
    }
    None
}

/// Every file name inside every directory: the directories in order, and
/// within each the names in order.
pub open spec fn path_candidates(directories: Seq<Seq<char>>, names: Seq<Seq<char>>) -> Seq<Seq<char>>
    decreases directories.len(),
{
    if directories.len() == 0 {
        Seq::empty()
    } else {
        path_candidates(directories.drop_last(), names)
            + names.map_values(|n: Seq<char>| joined(directories.last(), n))
    }
}

/// The candidates of a search along the directories of `PATH`.
pub fn path_candidate_list(directories: &Vec<String>, names: &Vec<String>) -> (r: Vec<String>)
    ensures
        views(r@) == path_candidates(views(directories@), views(names@)),
{
    let ghost ds = views(directories@);
    let ghost ns = views(names@);
    let mut r: Vec<String> = Vec::new();
    let mut i: usize = 0;
    while i < directories.len()
        invariant
            i <= directories.len(),
            ds == views(directories@),
            ns == views(names@),
            views(r@) == path_candidates(ds.take(i as int), ns),
        decreases directories.len() - i,
    {
        let ghost base = views(r@);
        let mut k: usize = 0;
        while k < names.len()
            invariant
                i < directories.len(),
                k <= names.len(),
                ds == views(directories@),
                ns == views(names@),
                views(r@) == base + ns.take(k as int).map_values(|n: Seq<char>| joined(ds[i as int], n)),
            decreases names.len() - k,
        {
            let ghost before = views(r@);
            r.push(join(directories[i].as_str(), names[k].as_str()));
            proof {
                assert(ds[i as int] == directories@[i as int]@);
                assert(ns[k as int] == names@[k as int]@);
                assert(ns.take(k + 1).map_values(|n: Seq<char>| joined(ds[i as int], n))
                    =~= ns.take(k as int).map_values(|n: Seq<char>| joined(ds[i as int], n)).push(joined(ds[i as int], ns[k as int])));
                assert(views(r@) =~= before.push(joined(ds[i as int], ns[k as int])));
            }
            k = k + 1;
        }
        proof {
            assert(ns.take(names.len() as int) =~= ns);
            assert(ds.take(i + 1).drop_last() =~= ds.take(i as int));
            assert(ds.take(i + 1).last() == ds[i as int]);
        }
        i = i + 1;
    }
    assert(ds.take(directories.len() as int) =~= ds);
    r
}

/// The first of the file names, tried in every directory of `PATH` in order,
/// that `is_file` reports as a file.
pub fn find_on_path<F: Fn(&str) -> bool>(directories: &Vec<String>, names: &Vec<String>, is_file: &F) -> (r: Option<String>)
    requires
        forall|s: &str| is_file.requires((s,)),
    ensures
        first_found(*is_file, path_candidates(views(directories@), views(names@)), crate::paths::opt_view(r)),
{
    let candidates = path_candidate_list(directories, names);
    first_existing(&candidates, is_file)
}

} // verus!

verus! {

/// Where bundled files are looked for: the application's resource directory,
/// the directory of the source tree and the directory of the running program.
#[derive(Debug)]
pub struct BundlePlaces {
    pub resource_directory: Option<String>,
    pub crate_directory: String,
    pub executable_directory: Option<String>,
}

/// The path itself when there is one.
pub open spec fn opt_seq(o: Option<String>) -> Seq<Seq<char>> {
    match o {
        Some(s) => seq![s@],
        None => Seq::empty(),
    }
}

/// `file` inside the folder `sub` of the directory, when there is a directory.
pub open spec fn under(directory: Option<String>, sub: Seq<char>, file: Seq<char>) -> Seq<Seq<char>> {
    match directory {
        Some(d) => seq![joined(joined(d@, sub), file)],
        None => Seq::empty(),
    }
}

/// The bundled locations of `file` in the folder `sub`: beside the resources,
/// in the source tree, and beside the running program.
pub open spec fn bundle_candidates(places: BundlePlaces, sub: Seq<char>, file: Seq<char>) -> Seq<Seq<char>> {
    under(places.resource_directory, sub, file)
        + seq![joined(joined(places.crate_directory@, "../"@ + sub), file)]
        + under(places.executable_directory, sub, file)
}

/// The search order of a bundled tool: the path named by its environment
/// variable, then the bundled locations, then `file` along `PATH` when the
/// tool is also searched there.
pub open spec fn tool_candidates(
    environment_value: Option<String>,
    places: BundlePlaces,
    sub: Seq<char>,
    file: Seq<char>,
    path_directories: Option<Seq<Seq<char>>>,
) -> Seq<Seq<char>> {
    opt_seq(environment_value) + bundle_candidates(places, sub, file) + match path_directories {
        Some(ds) => path_candidates(ds, seq![file]),
        None => Seq::empty(),
    }
}

fn push_under(out: &mut Vec<String>, directory: &Option<String>, sub: &str, file: &str)
    ensures
        views(final(out)@) == views(old(out)@) + under(*directory, sub@, file@),
{
    let ghost before = views(out@);
    match directory {
        Some(d) => {
            let folder = join(d.as_str(), sub);
            out.push(join(folder.as_str(), file));
            assert(views(out@) =~= before + under(*directory, sub@, file@));
        },
        None => {
            assert(views(out@) =~= before + under(*directory, sub@, file@));
        },
    }
}

fn tool_candidate_list(
    environment_value: Option<String>,
    places: &BundlePlaces,
    sub: &str,
    file: &str,
    path_directories: Option<&Vec<String>>,
) -> (r: Vec<String>)
    ensures
        views(r@) == tool_candidates(environment_value, *places, sub@, file@, match path_directories {
            Some(ds) => Some(views(ds@)),
            None => None,
        }),
{
    let mut out: Vec<String> = Vec::new();
    match environment_value {
        Some(p) => out.push(p),
        None => {},
    }
    assert(views(out@) =~= opt_seq(environment_value));
    push_under(&mut out, &places.resource_directory, sub, file);
    let parent_sub = concat2("../", sub);
    let folder = join(places.crate_directory.as_str(), parent_sub.as_str());
    let ghost before = views(out@);
    out.push(join(folder.as_str(), file));
    assert(views(out@) =~= before.push(joined(joined(places.crate_directory@, "../"@ + sub@), file@)));
    push_under(&mut out, &places.executable_directory, sub, file);
    assert(views(out@) =~= opt_seq(environment_value) + bundle_candidates(*places, sub@, file@));
    match path_directories {
        Some(ds) => {
            let mut names: Vec<String> = Vec::new();
            names.push(file.to_owned());
            assert(views(names@) =~= seq![file@]);
            let on_path = path_candidate_list(ds, &names);
            let ghost head = views(out@);
            let mut i: usize = 0;
            while i < on_path.len()
                invariant
                    i <= on_path.len(),
                    views(out@) == head + views(on_path@).take(i as int),
                decreases on_path.len() - i,
            {
                let ghost before = out@;
                out.push(on_path[i].clone());
                assert(views(out@) =~= views(before).push(on_path@[i as int]@));
                assert(views(on_path@).take(i + 1) =~= views(on_path@).take(i as int).push(on_path@[i as int]@));
                assert(views(out@) =~= head + views(on_path@).take(i + 1));
                i = i + 1;
            }
            assert(views(on_path@).take(on_path.len() as int) =~= views(on_path@));
        },
        None => {
            assert(views(out@) =~= views(out@) + Seq::<Seq<char>>::empty());
        },
    }
    out
}

/// The file name of a bundled FFmpeg program.
pub open spec fn ffmpeg_file_name(tool: Seq<char>, os: TargetOs) -> Seq<char> {
    if os == TargetOs::Windows { tool + ".exe"@ } else { tool }
}

/// The file name of a bundled FFmpeg program: `.exe` is added on Windows.
pub fn bundled_ffmpeg_file(tool: &str, os: TargetOs) -> (r: String)
    ensures
        r@ == ffmpeg_file_name(tool@, os),
{
    if os == TargetOs::Windows {
        concat2(tool, ".exe")
    } else {
        tool.to_owned()
    }
}

/// The environment variable that names an FFmpeg program explicitly.
pub fn ffmpeg_environment_key(tool: &str) -> (r: String)
    ensures
        r@ == "LOCAL_FILE_CONVERTER_"@ + ascii_upper(tool@),
{
    let t = upper(tool);
    concat2("LOCAL_FILE_CONVERTER_", t.as_str())
}

/// Finds an FFmpeg program (`ffmpeg` or `ffprobe`): the path named by its
/// environment variable, a bundled copy, or one along `PATH`, whichever comes
/// first that `is_file` reports as a file.
pub fn find_ffmpeg_tool<F: Fn(&str) -> bool>(
    tool: &str,
    os: TargetOs,
    environment_value: Option<String>,
    places: &BundlePlaces,
    path_directories: &Vec<String>,
    is_file: &F,
) -> (r: Option<String>)
    requires
        forall|s: &str| is_file.requires((s,)),
    ensures
        first_found(*is_file, tool_candidates(environment_value, *places, "vendor/ffmpeg/bin"@,
            ffmpeg_file_name(tool@, os), Some(views(path_directories@))), opt_view(r)),
{
    let file = bundled_ffmpeg_file(tool, os);
    let candidates = tool_candidate_list(environment_value, places, "vendor/ffmpeg/bin", file.as_str(), Some(path_directories));
    first_existing(&candidates, is_file)
}

/// The file name of the bundled qpdf program.
pub open spec fn qpdf_file_name(os: TargetOs) -> Seq<char> {
    if os == TargetOs::Windows { "qpdf.exe"@ } else { "qpdf"@ }
}

/// Finds qpdf: the path named by `LOCAL_FILE_CONVERTER_QPDF`, a bundled copy,
/// or one along `PATH`, whichever comes first that `is_file` reports as a file.
pub fn find_qpdf<F: Fn(&str) -> bool>(
    os: TargetOs,
    environment_value: Option<String>,
    places: &BundlePlaces,
    path_directories: &Vec<String>,
    is_file: &F,
) -> (r: Option<String>)
    requires
        forall|s: &str| is_file.requires((s,)),
    ensures
        first_found(*is_file, tool_candidates(environment_value, *places, "vendor/qpdf/bin"@,
            qpdf_file_name(os), Some(views(path_directories@))), opt_view(r)),
{
    let file = if os == TargetOs::Windows { "qpdf.exe" } else { "qpdf" };
    let candidates = tool_candidate_list(environment_value, places, "vendor/qpdf/bin", file, Some(path_directories));
    first_existing(&candidates, is_file)
}

/// The file name of the PDFium library.
pub open spec fn pdfium_file_name(os: TargetOs) -> Seq<char> {
    match os {
        TargetOs::Windows => "pdfium.dll"@,
        TargetOs::MacOs => "libpdfium.dylib"@,
        TargetOs::Linux => "libpdfium.so"@,
    }
}

/// Finds the PDFium library: the path named by `LOCAL_FILE_CONVERTER_PDFIUM`, a
/// bundled copy, or one along `PATH`, whichever comes first that `is_file`
/// reports as a file.
pub fn find_pdfium<F: Fn(&str) -> bool>(
    os: TargetOs,
    environment_value: Option<String>,
    places: &BundlePlaces,
    path_directories: &Vec<String>,
    is_file: &F,
) -> (r: Option<String>)
    requires
        forall|s: &str| is_file.requires((s,)),
    ensures
        first_found(*is_file, tool_candidates(environment_value, *places, "vendor/pdfium/bin"@,
            pdfium_file_name(os), Some(views(path_directories@))), opt_view(r)),
{
    let file = match os {
        TargetOs::Windows => "pdfium.dll",
        TargetOs::MacOs => "libpdfium.dylib",
        TargetOs::Linux => "libpdfium.so",
    };
    let candidates = tool_candidate_list(environment_value, places, "vendor/pdfium/bin", file, Some(path_directories));
    first_existing(&candidates, is_file)
}

/// Finds the PDF-to-Word worker script: the path named by
/// `LOCAL_FILE_CONVERTER_PDF_TO_DOCX_WORKER`, or a bundled copy, whichever
/// comes first that `is_file` reports as a file.
pub fn find_pdf_to_docx_worker<F: Fn(&str) -> bool>(
    environment_value: Option<String>,
    places: &BundlePlaces,
    is_file: &F,
) -> (r: Option<String>)
    requires
        forall|s: &str| is_file.requires((s,)),
    ensures
        first_found(*is_file, tool_candidates(environment_value, *places, "workers"@, "pdf_to_docx.py"@, None), opt_view(r)),
{
    let candidates = tool_candidate_list(environment_value, places, "workers", "pdf_to_docx.py", None);
    first_existing(&candidates, is_file)
}

} // verus!

verus! {

/// Where an install path read from the Windows registry may point to the
/// program: the path itself, the program inside it, or the program inside
/// its `program` folder.
pub open spec fn install_path_candidates(value: Seq<char>, executable: Seq<char>) -> Seq<Seq<char>> {
    let p = crate::text::unquoted(value);
    seq![p, joined(p, executable), joined(joined(p, "program"@), executable)]
}

/// The program named by a registry install path (quotes and spaces around
/// it are dropped): the first candidate that `is_file` reports as a file.
pub fn executable_from_install_path<F: Fn(&str) -> bool>(value: &str, executable: &str, is_file: &F) -> (r: Option<String>)
    requires
        forall|s: &str| is_file.requires((s,)),
    ensures
        first_found(*is_file, install_path_candidates(value@, executable@), opt_view(r)),
{
    let p = crate::text::strip_quotes(value);
    let mut candidates: Vec<String> = Vec::new();
    candidates.push(p.clone());
    candidates.push(join(p.as_str(), executable));
    let program = join(p.as_str(), "program");
    candidates.push(join(program.as_str(), executable));
    proof {
        reveal_strlit("program");
    }
    assert(views(candidates@) =~= install_path_candidates(value@, executable@));
    first_existing(&candidates, is_file)
}

/// The program names of LibreOffice searched along `PATH`.
pub open spec fn libreoffice_names(os: TargetOs) -> Seq<Seq<char>> {
    if os == TargetOs::Windows { seq!["soffice.com"@, "soffice.exe"@] } else { seq!["soffice"@, "libreoffice"@] }
}

/// The usual install locations of LibreOffice.
pub open spec fn libreoffice_install_candidates(os: TargetOs) -> Seq<Seq<char>> {
    match os {
        TargetOs::Windows => seq![
            "C:\\Program Files\\LibreOffice\\program\\soffice.exe"@,
            "C:\\Program Files (x86)\\LibreOffice\\program\\soffice.exe"@,
        ],
        TargetOs::MacOs => seq!["/Applications/LibreOffice.app/Contents/MacOS/soffice"@],
        TargetOs::Linux => Seq::empty(),
    }
}

/// The search order of LibreOffice: along `PATH`, then the location recorded
/// in the Windows registry, then the usual install locations.
pub open spec fn libreoffice_candidates(os: TargetOs, path_directories: Seq<Seq<char>>, registry: Option<String>) -> Seq<Seq<char>> {
    path_candidates(path_directories, libreoffice_names(os))
        + (if os == TargetOs::Windows { opt_seq(registry) } else { Seq::empty() })
        + libreoffice_install_candidates(os)
}

fn push_all(out: &mut Vec<String>, items: &Vec<String>)
    ensures
        views(final(out)@) == views(old(out)@) + views(items@),
{
    let ghost head = views(out@);
    let mut i: usize = 0;
    while i < items.len()
        invariant
            i <= items.len(),
            views(out@) == head + views(items@).take(i as int),
        decreases items.len() - i,
    {
        let ghost before = out@;
        out.push(items[i].clone());
        assert(views(out@) =~= views(before).push(items@[i as int]@));
        assert(views(items@).take(i + 1) =~= views(items@).take(i as int).push(items@[i as int]@));
        i = i + 1;
    }
    assert(views(items@).take(items.len() as int) =~= views(items@));
}

/// Finds LibreOffice: along `PATH`, then at the location recorded in the
/// Windows registry (`registry`, found by the caller), then at the usual
/// install locations, whichever comes first that `is_file` reports as a file.
pub fn find_libreoffice<F: Fn(&str) -> bool>(
    os: TargetOs,
    path_directories: &Vec<String>,
    registry: Option<String>,
    is_file: &F,
) -> (r: Option<String>)
    requires
        forall|s: &str| is_file.requires((s,)),
    ensures
        first_found(*is_file, libreoffice_candidates(os, views(path_directories@), registry), opt_view(r)),
{
    let mut names: Vec<String> = Vec::new();
    if os == TargetOs::Windows {
        names.push("soffice.com".to_owned());
        names.push("soffice.exe".to_owned());
    } else {
        names.push("soffice".to_owned());
        names.push("libreoffice".to_owned());
    }
    assert(views(names@) =~= libreoffice_names(os));
    let mut candidates = path_candidate_list(path_directories, &names);
    let mut extra: Vec<String> = Vec::new();
    if os == TargetOs::Windows {
        match registry {
            Some(p) => extra.push(p),
            None => {},
        }
    }
    match os {
        TargetOs::Windows => {
            extra.push("C:\\Program Files\\LibreOffice\\program\\soffice.exe".to_owned());
            extra.push("C:\\Program Files (x86)\\LibreOffice\\program\\soffice.exe".to_owned());
        },
        TargetOs::MacOs => {
            extra.push("/Applications/LibreOffice.app/Contents/MacOS/soffice".to_owned());
        },
        TargetOs::Linux => {},
    }
    assert(views(extra@) =~= (if os == TargetOs::Windows { opt_seq(registry) } else { Seq::empty() })
        + libreoffice_install_candidates(os));
    push_all(&mut candidates, &extra);
    assert(views(candidates@) =~= libreoffice_candidates(os, views(path_directories@), registry));
    first_existing(&candidates, is_file)
}

/// The program names of Python searched along `PATH`.
pub open spec fn python_names(os: TargetOs) -> Seq<Seq<char>> {
    if os == TargetOs::Windows { seq!["python.exe"@, "python3.exe"@] } else { seq!["python3"@, "python"@] }
}

/// The search order of Python: the path named by `LOCAL_FILE_CONVERTER_PYTHON`,
/// then along `PATH`, then the installations recorded in the Windows registry,
/// then those found in the usual Windows install folders.
pub open spec fn python_candidates(
    os: TargetOs,
    environment_value: Option<String>,
    path_directories: Seq<Seq<char>>,
    registry: Seq<Seq<char>>,
    installed: Seq<Seq<char>>,
) -> Seq<Seq<char>> {
    opt_seq(environment_value) + path_candidates(path_directories, python_names(os)) + registry + installed
}

/// A candidate qualifies as Python when it is a file, not the Store
/// placeholder, and `usable` accepts it; it fails when one of these does not hold.
pub open spec fn python_found<F: Fn(&str) -> bool, U: Fn(&str) -> bool>(is_file: F, usable: U, p: Seq<char>) -> bool {
    probed(is_file, p, true) && !is_store_alias(p) && probed(usable, p, true)
}

pub open spec fn python_rejected<F: Fn(&str) -> bool, U: Fn(&str) -> bool>(is_file: F, usable: U, p: Seq<char>) -> bool {
    probed(is_file, p, false) || is_store_alias(p) || probed(usable, p, false)
}

/// `r` is the first candidate that qualifies as Python, or `None`.
pub open spec fn first_python<F: Fn(&str) -> bool, U: Fn(&str) -> bool>(is_file: F, usable: U, candidates: Seq<Seq<char>>, r: Option<Seq<char>>) -> bool {
    match r {
        Some(p) => exists|i: int| 0 <= i < candidates.len() && p == candidates[i] && #[trigger] python_found(is_file, usable, candidates[i])
            && forall|j: int| 0 <= j < i ==> #[trigger] python_rejected(is_file, usable, candidates[j]),
        None => forall|j: int| 0 <= j < candidates.len() ==> #[trigger] python_rejected(is_file, usable, candidates[j]),
    }
}

/// Finds a Python of version 3.10 or later: `usable` runs the version check.
/// `registry` and `installed` are the Windows installations found by the
/// caller, empty elsewhere.
pub fn find_python<F: Fn(&str) -> bool, U: Fn(&str) -> bool>(
    os: TargetOs,
    environment_value: Option<String>,
    path_directories: &Vec<String>,
    registry: Vec<String>,
    installed: Vec<String>,
    is_file: &F,
    usable: &U,
) -> (r: Option<String>)
    requires
        forall|s: &str| is_file.requires((s,)),
        forall|s: &str| usable.requires((s,)),
    ensures
        first_python(*is_file, *usable, python_candidates(os, environment_value, views(path_directories@),
            views(registry@), views(installed@)), opt_view(r)),
{
    let ghost reg = views(registry@);
    let ghost inst = views(installed@);
    let mut names: Vec<String> = Vec::new();
    if os == TargetOs::Windows {
        names.push("python.exe".to_owned());
        names.push("python3.exe".to_owned());
    } else {
        names.push("python3".to_owned());
        names.push("python".to_owned());
    }
    assert(views(names@) =~= python_names(os));
    let mut candidates: Vec<String> = Vec::new();
    match environment_value {
        Some(p) => candidates.push(p),
        None => {},
    }
    assert(views(candidates@) =~= opt_seq(environment_value));
    let on_path = path_candidate_list(path_directories, &names);
    push_all(&mut candidates, &on_path);
    push_all(&mut candidates, &registry);
    push_all(&mut candidates, &installed);
    let ghost cs = views(candidates@);
    assert(cs =~= python_candidates(os, environment_value, views(path_directories@), reg, inst));
    let mut i: usize = 0;
    while i < candidates.len()
        invariant
            i <= candidates.len(),
            cs == views(candidates@),
            cs == python_candidates(os, environment_value, views(path_directories@), views(registry@), views(installed@)),
            forall|s: &str| is_file.requires((s,)),
            forall|s: &str| usable.requires((s,)),
            forall|j: int| 0 <= j < i ==> #[trigger] python_rejected(*is_file, *usable, cs[j]),
        decreases candidates.len() - i,
    {
        let c = candidates[i].as_str();
        assert(cs[i as int] == c@);
        let file = is_file(c);
        assert(probed(*is_file, c@, file));
        if file && !is_windows_apps_python_alias(c) {
            let ok = usable(c);
            assert(probed(*usable, c@, ok));
            if ok {
                assert(python_found(*is_file, *usable, cs[i as int]));
                return Some(candidates[i].clone());
            }
        }
        assert(python_rejected(*is_file, *usable, cs[i as int]));
        i = i + 1;
    }
    None
}

/// Whether a Python qualifies for PDF-to-Word: not the Store placeholder, and
/// `packages` confirms that PyMuPDF and pdf2docx import.
pub open spec fn has_docx_packages<K: Fn(&str) -> bool>(packages: K, python: Seq<char>) -> bool {
    !is_store_alias(python) && probed(packages, python, true)
}

/// The PDF-to-Word runtime made of the Python found and the worker script
/// found, when both were found and the Python has the packages.
pub fn find_pdf_to_docx_runtime<K: Fn(&str) -> bool>(
    python: Option<String>,
    worker: Option<String>,
    packages: &K,
) -> (r: Option<PdfToDocxRuntime>)
    requires
        forall|s: &str| packages.requires((s,)),
    ensures
        match (python, worker) {
            (Some(p), Some(w)) => match r {
                Some(rt) => rt.python_path@ == p@ && rt.worker_path@ == w@ && has_docx_packages(*packages, p@),
                None => is_store_alias(p@) || probed(*packages, p@, false),
            },
            _ => r is None,
        },
{
    let p = match python {
        Some(p) => p,
        None => return None,
    };
    let w = match worker {
        Some(w) => w,
        None => return None,
    };
    if is_windows_apps_python_alias(p.as_str()) {
        return None;
    }
    let ok = packages(p.as_str());
    assert(probed(*packages, p@, ok));
    if ok {
        Some(PdfToDocxRuntime { python_path: p, worker_path: w })
    } else {
        None
    }
}

} // verus!

verus! {

/// Finds FFmpeg (see [`find_ffmpeg_tool`]).
pub fn find_ffmpeg<F: Fn(&str) -> bool>(
    os: TargetOs,
    environment_value: Option<String>,
    places: &BundlePlaces,
    path_directories: &Vec<String>,
    is_file: &F,
) -> (r: Option<String>)
    requires
        forall|s: &str| is_file.requires((s,)),
    ensures
        first_found(*is_file, tool_candidates(environment_value, *places, "vendor/ffmpeg/bin"@,
            ffmpeg_file_name("ffmpeg"@, os), Some(views(path_directories@))), opt_view(r)),
{
    proof { reveal_strlit("ffmpeg"); }
    find_ffmpeg_tool("ffmpeg", os, environment_value, places, path_directories, is_file)
}

/// Finds FFprobe (see [`find_ffmpeg_tool`]).
pub fn find_ffprobe<F: Fn(&str) -> bool>(
    os: TargetOs,
    environment_value: Option<String>,
    places: &BundlePlaces,
    path_directories: &Vec<String>,
    is_file: &F,
) -> (r: Option<String>)
    requires
        forall|s: &str| is_file.requires((s,)),
    ensures
        first_found(*is_file, tool_candidates(environment_value, *places, "vendor/ffmpeg/bin"@,
            ffmpeg_file_name("ffprobe"@, os), Some(views(path_directories@))), opt_view(r)),
{
    proof { reveal_strlit("ffprobe"); }
    find_ffmpeg_tool("ffprobe", os, environment_value, places, path_directories, is_file)
}

} // verus!
