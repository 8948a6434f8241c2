//! Audio conversion requests, staging names and FFmpeg arguments.

use vstd::prelude::*;
use crate::application::engine_run::{EngineExit, reported, discarded, empty_file, published, ran, sized};
use crate::domain::job::{AudioFormat, ExecutionOutcome, audio_extension};
use crate::paths::{
    PathKind, ext_is, extension_of, file_stem, has_ext, is_absolute, is_absolute_path, join,
    joined, kind_exists, lower_extension, parent, parent_of, stem_of,
};
use crate::text::{ascii_lower, check_view, concat2, same_text, text_result_view, views};

verus! {

/// An audio conversion handed to FFmpeg.
#[derive(Debug)]
pub struct AudioConversion {
    pub ffmpeg_path: String,
    pub ffprobe_path: Option<String>,
    pub input_path: String,
    pub output_path: String,
    pub format: AudioFormat,
    pub job_id: String,
}

/// Whether the path names a file in a supported audio format.
pub open spec fn audio_supported(path: Seq<char>) -> bool {
    ||| ext_is(path, audio_extension(AudioFormat::Mp3))
    ||| ext_is(path, audio_extension(AudioFormat::Wav))
    ||| ext_is(path, audio_extension(AudioFormat::Flac))
    ||| ext_is(path, audio_extension(AudioFormat::Aac))
    ||| ext_is(path, audio_extension(AudioFormat::M4a))
    ||| ext_is(path, audio_extension(AudioFormat::Ogg))
}

/// The verdict on an audio conversion request, given what was found on disk at
/// the input, the output and the output's parent directory.
pub open spec fn audio_request_check(
    input: Seq<char>,
    output: Seq<char>,
    format: AudioFormat,
    input_kind: PathKind,
    output_kind: PathKind,
    parent_kind: PathKind,
) -> Result<(), Seq<char>> {
    if !is_absolute_path(input) || !is_absolute_path(output) {
        Err("Input and output paths must be absolute"@)
    } else if input_kind != PathKind::File {
        Err("The selected input file does not exist"@)
    } else if extension_of(input) is None {
        Err("The input file has no extension"@)
    } else if !audio_supported(input) {
        Err("Unsupported audio input format: "@ + ascii_lower(extension_of(input)->0))
    } else if kind_exists(output_kind) {
        Err("The output file already exists"@)
    } else if !ext_is(output, audio_extension(format)) {
        Err("The output file extension must be ."@ + audio_extension(format))
    } else if parent_of(output) is None {
        Err("The output location has no parent directory"@)
    } else if parent_kind != PathKind::Directory {
        Err("The output directory does not exist"@)
    } else if input == output {
        Err("Input and output paths must be different"@)
    } else {
        Ok(())
    }
}

pub fn is_supported_input(path: &str) -> (r: bool)
    ensures
        r == audio_supported(path@),
{
    has_ext(path, AudioFormat::Mp3.extension()) || has_ext(path, AudioFormat::Wav.extension())
        || has_ext(path, AudioFormat::Flac.extension()) || has_ext(path, AudioFormat::Aac.extension())
        || has_ext(path, AudioFormat::M4a.extension()) || has_ext(path, AudioFormat::Ogg.extension())
}

/// Checks an audio conversion request. `parent_kind` describes the directory
/// named by [`parent`] of the output path.
pub fn validate_request(
    input_path: &str,
    output_path: &str,
    format: AudioFormat,
    input_kind: PathKind,
    output_kind: PathKind,
    parent_kind: PathKind,
) -> (r: Result<(), String>)
    ensures
        check_view(r) == audio_request_check(
            input_path@,
            output_path@,
            format,
            input_kind,
            output_kind,
            parent_kind,
        ),
{
    if !is_absolute(input_path) || !is_absolute(output_path) {
        return Err("Input and output paths must be absolute".to_owned());
    }
    if input_kind != PathKind::File {
        return Err("The selected input file does not exist".to_owned());
    }
    let input_extension = match lower_extension(input_path) {
        Some(e) => e,
        None => return Err("The input file has no extension".to_owned()),
    };
    if !is_supported_input(input_path) {
        return Err(concat2("Unsupported audio input format: ", input_extension.as_str()));
    }
    if output_kind != PathKind::Missing {
        return Err("The output file already exists".to_owned());
    }
    if !has_ext(output_path, format.extension()) {
        return Err(concat2("The output file extension must be .", format.extension()));
    }
    if parent(output_path).is_none() {
        return Err("The output location has no parent directory".to_owned());
    }
    if parent_kind != PathKind::Directory {
        return Err("The output directory does not exist".to_owned());
    }
    if same_text(input_path, output_path) {
        return Err("Input and output paths must be different".to_owned());
    }
    Ok(())
}

/// The name of the hidden file that a conversion writes before it is renamed.
pub open spec fn staged_name(stem: Seq<char>, job_id: Seq<char>, extension: Seq<char>) -> Seq<char> {
    "."@ + stem + "."@ + job_id + ".part."@ + extension
}

pub open spec fn audio_staged_path(output: Seq<char>, job_id: Seq<char>) -> Result<Seq<char>, Seq<char>> {
    if parent_of(output) is None {
        Err("Output directory is unavailable"@)
    } else if stem_of(output) is None {
        Err("Output filename is invalid"@)
    } else if extension_of(output) is None {
        Err("Output extension is invalid"@)
    } else {
        Ok(joined(parent_of(output)->0, staged_name(stem_of(output)->0, job_id, extension_of(output)->0)))
    }
}

/// Builds `.{stem}.{job_id}.part.{extension}`.
pub fn staged_file_name(stem: &str, job_id: &str, extension: &str) -> (r: String)
    ensures
        r@ == staged_name(stem@, job_id@, extension@),
{
    let mut r = ".".to_owned();
    r.append(stem);
    r.append(".");
    r.append(job_id);
    r.append(".part.");
    r.append(extension);
    r
}

/// The staging path beside the output, which keeps the output's extension.
pub fn staged_output_path(output_path: &str, job_id: &str) -> (r: Result<String, String>)
    ensures
        text_result_view(r) == audio_staged_path(output_path@, job_id@),
{
    let dir = match parent(output_path) {
        Some(p) => p,
        None => return Err("Output directory is unavailable".to_owned()),
    };
    let stem = match file_stem(output_path) {
        Some(s) => s,
        None => return Err("Output filename is invalid".to_owned()),
    };
    let extension = match crate::paths::extension(output_path) {
        Some(e) => e,
        None => return Err("Output extension is invalid".to_owned()),
    };
    let name = staged_file_name(stem.as_str(), job_id, extension.as_str());
    Ok(join(dir.as_str(), name.as_str()))
}

/// The FFmpeg encoder used for each output format.
pub open spec fn audio_codec(format: AudioFormat) -> Seq<char> {
    match format {
        AudioFormat::Mp3 => "libmp3lame"@,
        AudioFormat::Wav => "pcm_s16le"@,
        AudioFormat::Flac => "flac"@,
        AudioFormat::Aac | AudioFormat::M4a => "aac"@,
        AudioFormat::Ogg => "libvorbis"@,
    }
}

/// The FFmpeg argument list of a conversion from `input` to `output`.
pub open spec fn audio_arguments(input: Seq<char>, output: Seq<char>, format: AudioFormat) -> Seq<Seq<char>> {
    seq![
        "-hide_banner"@, "-loglevel"@, "error"@, "-nostdin"@, "-n"@, "-i"@, input,
        "-map_metadata"@, "0"@, "-vn"@, "-c:a"@, audio_codec(format), "-progress"@, "pipe:1"@,
        "-nostats"@, output,
    ]
}

pub fn codec(format: AudioFormat) -> (r: &'static str)
    ensures
        r@ == audio_codec(format),
{
    match format {
        AudioFormat::Mp3 => "libmp3lame",
        AudioFormat::Wav => "pcm_s16le",
        AudioFormat::Flac => "flac",
        AudioFormat::Aac | AudioFormat::M4a => "aac",
        AudioFormat::Ogg => "libvorbis",
    }
}

/// The owned argument list passed to FFmpeg; no shell is involved.
pub fn build_arguments(input: &str, output: &str, format: AudioFormat) -> (r: Vec<String>)
    ensures
        crate::text::views(r@) == audio_arguments(input@, output@, format),
{
    let mut r: Vec<String> = Vec::new();
    r.push("-hide_banner".to_owned());
    r.push("-loglevel".to_owned());
    r.push("error".to_owned());
    r.push("-nostdin".to_owned());
    r.push("-n".to_owned());
    r.push("-i".to_owned());
    r.push(input.to_owned());
    r.push("-map_metadata".to_owned());
    r.push("0".to_owned());
    r.push("-vn".to_owned());
    r.push("-c:a".to_owned());
    r.push(codec(format).to_owned());
    r.push("-progress".to_owned());
    r.push("pipe:1".to_owned());
    r.push("-nostats".to_owned());
    r.push(output.to_owned());
    assert(crate::text::views(r@) =~= audio_arguments(input@, output@, format));
    r
}

impl AudioConversion {
    /// The staging path of this conversion.
    pub fn staged_path(&self) -> (r: Result<String, String>)
        ensures
            text_result_view(r) == audio_staged_path(self.output_path@, self.job_id@),
    {
        staged_output_path(self.output_path.as_str(), self.job_id.as_str())
    }
}

} // verus!

verus! {

/// The error of a failed FFmpeg run: its trimmed diagnostics, or its exit
/// status when it printed none.
pub open spec fn ffmpeg_failure(stderr: Seq<char>, status: Seq<char>) -> Seq<char> {
    if crate::text::trimmed(stderr).len() == 0 {
        "FFmpeg exited with status "@ + status
    } else {
        "FFmpeg conversion failed: "@ + crate::text::trimmed(stderr)
    }
}

pub fn failure_message(stderr: &str, status: &str) -> (r: String)
    ensures
        r@ == ffmpeg_failure(stderr@, status@),
{
    let detail = crate::text::trim(stderr);
    if detail.as_str().is_empty() {
        concat2("FFmpeg exited with status ", status)
    } else {
        concat2("FFmpeg conversion failed: ", detail.as_str())
    }
}

} // verus!

verus! {

/// The outcome of the FFmpeg run that writes `staged`, and of publishing it as
/// `output`.
pub open spec fn audio_run_outcome<
    R: Fn(&str, &Vec<String>) -> Result<Option<EngineExit>, String>,
    Z: Fn(&str) -> Option<u64>,
    P: Fn(&str, &str) -> Result<(), String>,
>(
    run: R,
    size: Z,
    publish: P,
    ffmpeg: Seq<char>,
    args: Seq<Seq<char>>,
    staged: Seq<char>,
    output: Seq<char>,
    r: Result<ExecutionOutcome, String>,
) -> bool {
    exists|o: Result<Option<EngineExit>, String>| #[trigger] ran(run, ffmpeg, args, o) && match o {
        Err(m) => r is Err && r->Err_0@ == m@,
        Ok(None) => r == Ok::<ExecutionOutcome, String>(ExecutionOutcome::Cancelled),
        Ok(Some(x)) => if !x.success {
            r is Err && r->Err_0@ == ffmpeg_failure(x.stderr@, x.status@)
        } else {
            exists|s: Option<u64>| #[trigger] sized(size, staged, s) && if empty_file(s) {
                r is Err && r->Err_0@ == "FFmpeg did not produce a valid output file"@
            } else {
                exists|p: Result<(), String>| #[trigger] published(publish, staged, output, p) && match p {
                    Err(m) => r is Err && r->Err_0@ == "Converted output could not be finalized: "@ + m@,
                    Ok(()) => r == Ok::<ExecutionOutcome, String>(ExecutionOutcome::Completed),
                }
            }
        },
    }
}

/// Converts one audio file. The request is checked again against what is on
/// disk now (`input_kind`, `output_kind`, `parent_kind`) and `ffmpeg_is_file`
/// tells whether FFmpeg is there. FFmpeg writes a hidden staging file beside the
/// output, which is published under the output's name only once FFmpeg ended
/// well and wrote something. `run` runs FFmpeg (and reports its progress),
/// `size` tells the staging file's size, `publish` renames it and `discard`
/// removes it when the conversion does not complete; `report` reports 100 at
/// the end.
/// None of the closures is needed, and so none is called, before the request
/// has passed its checks (and the engine is there).
pub fn convert<
    R: Fn(&str, &Vec<String>) -> Result<Option<EngineExit>, String>,
    Z: Fn(&str) -> Option<u64>,
    P: Fn(&str, &str) -> Result<(), String>,
    X: Fn(&str),
    G: Fn(u8),
>(
    request: &AudioConversion,
    input_kind: PathKind,
    output_kind: PathKind,
    parent_kind: PathKind,
    ffmpeg_is_file: bool,
    run: &R,
    size: &Z,
    publish: &P,
    discard: &X,
    report: &G,
) -> (r: Result<ExecutionOutcome, String>)
    requires
        audio_request_check(request.input_path@, request.output_path@, request.format, input_kind, output_kind,
            parent_kind) is Ok && ffmpeg_is_file ==> {
            &&& forall|p: &str, a: &Vec<String>| run.requires((p, a))
            &&& forall|p: &str| size.requires((p,))
            &&& forall|a: &str, b: &str| publish.requires((a, b))
            &&& forall|p: &str| discard.requires((p,))
            &&& forall|n: u8| report.requires((n,))
        },
    ensures
        r == Ok::<ExecutionOutcome, String>(ExecutionOutcome::Completed) ==> reported(*report, 100),
        match audio_request_check(request.input_path@, request.output_path@, request.format, input_kind, output_kind,
            parent_kind) {
            Err(e) => r is Err && r->Err_0@ == e,
            Ok(()) => if !ffmpeg_is_file {
                r is Err && r->Err_0@ == "The bundled FFmpeg executable could not be found"@
            } else {
                match audio_staged_path(request.output_path@, request.job_id@) {
                    Err(e) => r is Err && r->Err_0@ == e,
                    Ok(staged) => audio_run_outcome(*run, *size, *publish, request.ffmpeg_path@,
                        audio_arguments(request.input_path@, staged, request.format), staged, request.output_path@, r)
                        && (r != Ok::<ExecutionOutcome, String>(ExecutionOutcome::Completed) ==> discarded(*discard,
                        staged)),
                }
            },
        },
{
    validate_request(request.input_path.as_str(), request.output_path.as_str(), request.format, input_kind, output_kind,
        parent_kind)?;
    if !ffmpeg_is_file {
        return Err("The bundled FFmpeg executable could not be found".to_owned());
    }
    let staged = staged_output_path(request.output_path.as_str(), request.job_id.as_str())?;
    discard(staged.as_str());
    assert(discarded(*discard, staged@));
    let args = build_arguments(request.input_path.as_str(), staged.as_str(), request.format);
    let o = run(request.ffmpeg_path.as_str(), &args);
    assert(ran(*run, request.ffmpeg_path@, views(args@), o));
    let exit = match o {
        Err(m) => {
            discard(staged.as_str());
            return Err(m);
        },
        Ok(None) => {
            discard(staged.as_str());
            return Ok(ExecutionOutcome::Cancelled);
        },
        Ok(Some(x)) => x,
    };
    if !exit.success {
        discard(staged.as_str());
        return Err(failure_message(exit.stderr.as_str(), exit.status.as_str()));
    }
    let s = size(staged.as_str());
    assert(sized(*size, staged@, s));
    let empty = match s {
        None => true,
        Some(n) => n == 0,
    };
    if empty {
        discard(staged.as_str());
        return Err("FFmpeg did not produce a valid output file".to_owned());
    }
    let p = publish(staged.as_str(), request.output_path.as_str());
    assert(published(*publish, staged@, request.output_path@, p));
    match p {
        Err(m) => {
            discard(staged.as_str());
            Err(concat2("Converted output could not be finalized: ", m.as_str()))
        },
        Ok(()) => {
            report(100);
            assert(reported(*report, 100));
            Ok(ExecutionOutcome::Completed)
        },
    }
}


/// A conversion that completed had FFmpeg succeed and leave a staged file that
/// is not empty, and moved that file to the output: nothing unchecked is
/// published.
pub proof fn law_audio_publishes_only_checked_output<
    R: Fn(&str, &Vec<String>) -> Result<Option<EngineExit>, String>,
    Z: Fn(&str) -> Option<u64>,
    P: Fn(&str, &str) -> Result<(), String>,
>(run: R, size: Z, publish: P, ffmpeg: Seq<char>, args: Seq<Seq<char>>, staged: Seq<char>, output: Seq<char>)
    requires
        audio_run_outcome(run, size, publish, ffmpeg, args, staged, output,
            Ok::<ExecutionOutcome, String>(ExecutionOutcome::Completed)),
    ensures
        exists|x: EngineExit| #[trigger] ran(run, ffmpeg, args, Ok(Some(x))) && x.success,
        exists|s: Option<u64>| #[trigger] sized(size, staged, s) && !empty_file(s),
        exists|p: Result<(), String>| #[trigger] published(publish, staged, output, p) && p is Ok,
{
}


/// Each output format is encoded with its own encoder: the FFmpeg command line
/// of any conversion asks, right after `-c:a`, for `libmp3lame` for MP3,
/// `pcm_s16le` for WAV, `flac` for FLAC, `aac` for AAC and M4A and
/// `libvorbis` for OGG, reads the input after `-i`, and ends with the output.
pub proof fn law_each_format_uses_its_own_encoder(input: Seq<char>, output: Seq<char>, format: AudioFormat)
    ensures
        audio_arguments(input, output, format).len() == 16,
        audio_arguments(input, output, format)[5] == "-i"@,
        audio_arguments(input, output, format)[6] == input,
        audio_arguments(input, output, format)[10] == "-c:a"@,
        audio_arguments(input, output, format)[15] == output,
        format == AudioFormat::Mp3 ==> audio_arguments(input, output, format)[11] == "libmp3lame"@,
        format == AudioFormat::Wav ==> audio_arguments(input, output, format)[11] == "pcm_s16le"@,
        format == AudioFormat::Flac ==> audio_arguments(input, output, format)[11] == "flac"@,
        format == AudioFormat::Aac ==> audio_arguments(input, output, format)[11] == "aac"@,
        format == AudioFormat::M4a ==> audio_arguments(input, output, format)[11] == "aac"@,
        format == AudioFormat::Ogg ==> audio_arguments(input, output, format)[11] == "libvorbis"@,
{
}

} // verus!
