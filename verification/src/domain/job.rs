//! Jobs: what is converted, with which engine, and where a job stands.

use vstd::prelude::*;
use crate::text::{copy_pages, copy_strings, views};

verus! {

/// Output formats of the audio converter.
#[derive(Clone, Copy, Debug, PartialEq, Eq, Structural)]
pub enum AudioFormat {
    Mp3,
    Wav,
    Flac,
    Aac,
    M4a,
    Ogg,
}

/// Image formats that PDF pages are rendered to.
#[derive(Clone, Copy, Debug, PartialEq, Eq, Structural)]
pub enum PdfImageFormat {
    Png,
    Jpeg,
}

/// How a folder of images becomes PDF files.
#[derive(Clone, Copy, Debug, PartialEq, Eq, Structural)]
pub enum ImageFolderMode {
    Combine,
    Separate,
}

/// The file extension written for a rendered page.
pub open spec fn pdf_image_extension(format: PdfImageFormat) -> Seq<char> {
    match format {
        PdfImageFormat::Png => seq!['p', 'n', 'g'],
        PdfImageFormat::Jpeg => seq!['j', 'p', 'g'],
    }
}

/// The file extension of an audio format.
pub open spec fn audio_extension(format: AudioFormat) -> Seq<char> {
    match format {
        AudioFormat::Mp3 => seq!['m', 'p', '3'],
        AudioFormat::Wav => seq!['w', 'a', 'v'],
        AudioFormat::Flac => seq!['f', 'l', 'a', 'c'],
        AudioFormat::Aac => seq!['a', 'a', 'c'],
        AudioFormat::M4a => seq!['m', '4', 'a'],
        AudioFormat::Ogg => seq!['o', 'g', 'g'],
    }
}

impl PdfImageFormat {
    pub fn extension(self) -> (r: &'static str)
        ensures
            r@ == pdf_image_extension(self),
    {
        proof {
            reveal_strlit("png");
            reveal_strlit("jpg");
        }
        match self {
            PdfImageFormat::Png => "png",
            PdfImageFormat::Jpeg => "jpg",
        }
    }
}

impl AudioFormat {
    pub fn extension(self) -> (r: &'static str)
        ensures
            r@ == audio_extension(self),
    {
        proof {
            reveal_strlit("mp3");
            reveal_strlit("wav");
            reveal_strlit("flac");
            reveal_strlit("aac");
            reveal_strlit("m4a");
            reveal_strlit("ogg");
        }
        match self {
            AudioFormat::Mp3 => "mp3",
            AudioFormat::Wav => "wav",
            AudioFormat::Flac => "flac",
            AudioFormat::Aac => "aac",
            AudioFormat::M4a => "m4a",
            AudioFormat::Ogg => "ogg",
        }
    }
}

/// A PDF page operation carried out by qpdf.
#[derive(Clone, Debug, PartialEq, Eq)]
pub enum PdfOperation {
    Merge { input_paths: Vec<String>, output_path: String },
    Split { input_path: String, output_directory: String, pages_per_file: u32 },
    Reorder { input_path: String, output_path: String, page_order: Vec<u32> },
    Rotate { input_path: String, output_path: String, angle: u16, pages: Vec<u32> },
}

/// The mathematical content of a [`PdfOperation`].
pub enum PdfOperationModel {
    Merge { input_paths: Seq<Seq<char>>, output_path: Seq<char> },
    Split { input_path: Seq<char>, output_directory: Seq<char>, pages_per_file: u32 },
    Reorder { input_path: Seq<char>, output_path: Seq<char>, page_order: Seq<u32> },
    Rotate { input_path: Seq<char>, output_path: Seq<char>, angle: u16, pages: Seq<u32> },
}

impl View for PdfOperation {
    type V = PdfOperationModel;

    open spec fn view(&self) -> PdfOperationModel {
        match self {
            PdfOperation::Merge { input_paths, output_path } => PdfOperationModel::Merge {
                input_paths: views(input_paths@),
                output_path: output_path@,
            },
            PdfOperation::Split { input_path, output_directory, pages_per_file } =>
                PdfOperationModel::Split {
                input_path: input_path@,
                output_directory: output_directory@,
                pages_per_file: *pages_per_file,
            },
            PdfOperation::Reorder { input_path, output_path, page_order } =>
                PdfOperationModel::Reorder {
                input_path: input_path@,
                output_path: output_path@,
                page_order: page_order@,
            },
            PdfOperation::Rotate { input_path, output_path, angle, pages } =>
                PdfOperationModel::Rotate {
                input_path: input_path@,
                output_path: output_path@,
                angle: *angle,
                pages: pages@,
            },
        }
    }
}

impl PdfOperation {
    /// A copy of the operation.
    pub fn duplicate(&self) -> (r: PdfOperation)
        ensures
            r@ == self@,
    {
        match self {
            PdfOperation::Merge { input_paths, output_path } => PdfOperation::Merge {
                input_paths: copy_strings(input_paths),
                output_path: output_path.clone(),
            },
            PdfOperation::Split { input_path, output_directory, pages_per_file } =>
                PdfOperation::Split {
                input_path: input_path.clone(),
                output_directory: output_directory.clone(),
                pages_per_file: *pages_per_file,
            },
            PdfOperation::Reorder { input_path, output_path, page_order } =>
                PdfOperation::Reorder {
                input_path: input_path.clone(),
                output_path: output_path.clone(),
                page_order: copy_pages(page_order),
            },
            PdfOperation::Rotate { input_path, output_path, angle, pages } =>
                PdfOperation::Rotate {
                input_path: input_path.clone(),
                output_path: output_path.clone(),
                angle: *angle,
                pages: copy_pages(pages),
            },
        }
    }
}

/// How an engine run ended when it did not fail.
#[derive(Clone, Copy, Debug, PartialEq, Eq, Structural)]
pub enum ExecutionOutcome {
    Completed,
    Cancelled,
}

/// Where a job stands.
#[derive(Clone, Copy, Debug, PartialEq, Eq, Structural)]
pub enum JobStatus {
    Queued,
    Running,
    Completed,
    Failed,
    Cancelled,
}

/// What a job converts.
#[derive(Clone, Debug, PartialEq, Eq)]
pub enum JobKind {
    AudioConversion { input_path: String, output_path: String, format: AudioFormat },
    PdfOperation { operation: PdfOperation },
    ImagesToPdf { input_paths: Vec<String>, output_path: String },
    PdfToImages { input_path: String, output_directory: String, format: PdfImageFormat, dpi: u16 },
    OfficeToPdf { input_path: String, output_path: String },
    PdfToDocx { input_path: String, output_path: String },
}

/// The mathematical content of a [`JobKind`].
pub enum JobKindModel {
    AudioConversion { input_path: Seq<char>, output_path: Seq<char>, format: AudioFormat },
    PdfOperation { operation: PdfOperationModel },
    ImagesToPdf { input_paths: Seq<Seq<char>>, output_path: Seq<char> },
    PdfToImages {
        input_path: Seq<char>,
        output_directory: Seq<char>,
        format: PdfImageFormat,
        dpi: u16,
    },
    OfficeToPdf { input_path: Seq<char>, output_path: Seq<char> },
    PdfToDocx { input_path: Seq<char>, output_path: Seq<char> },
}

impl View for JobKind {
    type V = JobKindModel;

    open spec fn view(&self) -> JobKindModel {
        match self {
            JobKind::AudioConversion { input_path, output_path, format } =>
                JobKindModel::AudioConversion {
                input_path: input_path@,
                output_path: output_path@,
                format: *format,
            },
            JobKind::PdfOperation { operation } => JobKindModel::PdfOperation {
                operation: operation@,
            },
            JobKind::ImagesToPdf { input_paths, output_path } => JobKindModel::ImagesToPdf {
                input_paths: views(input_paths@),
                output_path: output_path@,
            },
            JobKind::PdfToImages { input_path, output_directory, format, dpi } =>
                JobKindModel::PdfToImages {
                input_path: input_path@,
                output_directory: output_directory@,
                format: *format,
                dpi: *dpi,
            },
            JobKind::OfficeToPdf { input_path, output_path } => JobKindModel::OfficeToPdf {
                input_path: input_path@,
                output_path: output_path@,
            },
            JobKind::PdfToDocx { input_path, output_path } => JobKindModel::PdfToDocx {
                input_path: input_path@,
                output_path: output_path@,
            },
        }
    }
}

impl JobKind {
    /// A copy of the job kind.
    pub fn duplicate(&self) -> (r: JobKind)
        ensures
            r@ == self@,
    {
        match self {
            JobKind::AudioConversion { input_path, output_path, format } =>
                JobKind::AudioConversion {
                input_path: input_path.clone(),
                output_path: output_path.clone(),
                format: *format,
            },
            JobKind::PdfOperation { operation } => JobKind::PdfOperation {
                operation: operation.duplicate(),
            },
            JobKind::ImagesToPdf { input_paths, output_path } => JobKind::ImagesToPdf {
                input_paths: copy_strings(input_paths),
                output_path: output_path.clone(),
            },
            JobKind::PdfToImages { input_path, output_directory, format, dpi } =>
                JobKind::PdfToImages {
                input_path: input_path.clone(),
                output_directory: output_directory.clone(),
                format: *format,
                dpi: *dpi,
            },
            JobKind::OfficeToPdf { input_path, output_path } => JobKind::OfficeToPdf {
                input_path: input_path.clone(),
                output_path: output_path.clone(),
            },
            JobKind::PdfToDocx { input_path, output_path } => JobKind::PdfToDocx {
                input_path: input_path.clone(),
                output_path: output_path.clone(),
            },
        }
    }
}

/// Why a job failed.
#[derive(Clone, Debug, PartialEq, Eq)]
pub struct JobError {
    pub code: String,
    pub message: String,
}

/// The mathematical content of a [`JobError`]: its code and message.
pub struct JobErrorModel {
    pub code: Seq<char>,
    pub message: Seq<char>,
}

impl View for JobError {
    type V = JobErrorModel;

    open spec fn view(&self) -> JobErrorModel {
        JobErrorModel { code: self.code@, message: self.message@ }
    }
}

/// One conversion request and its progress.
#[derive(Clone, Debug, PartialEq, Eq)]
pub struct Job {
    pub id: String,
    pub job_type: String,
    pub kind: JobKind,
    pub status: JobStatus,
    pub progress: u8,
    pub created_at: u64,
    pub started_at: Option<u64>,
    pub finished_at: Option<u64>,
    pub error: Option<JobError>,
}

/// The mathematical content of a [`Job`].
pub struct JobModel {
    pub id: Seq<char>,
    pub job_type: Seq<char>,
    pub kind: JobKindModel,
    pub status: JobStatus,
    pub progress: u8,
    pub created_at: u64,
    pub started_at: Option<u64>,
    pub finished_at: Option<u64>,
    pub error: Option<JobErrorModel>,
}

impl View for Job {
    type V = JobModel;

    open spec fn view(&self) -> JobModel {
        JobModel {
            id: self.id@,
            job_type: self.job_type@,
            kind: self.kind@,
            status: self.status,
            progress: self.progress,
            created_at: self.created_at,
            started_at: self.started_at,
            finished_at: self.finished_at,
            error: match self.error {
                Some(e) => Some(e@),
                None => None,
            },
        }
    }
}

/// The job models of a list of jobs.
pub open spec fn job_views(jobs: Seq<Job>) -> Seq<JobModel> {
    jobs.map_values(|j: Job| j@)
}

/// A freshly queued job of the given type and kind.
pub open spec fn queued(id: Seq<char>, job_type: Seq<char>, kind: JobKindModel, created_at: u64) -> JobModel {
    JobModel {
        id,
        job_type,
        kind,
        status: JobStatus::Queued,
        progress: 0,
        created_at,
        started_at: None,
        finished_at: None,
        error: None,
    }
}

impl JobError {
    /// A copy of the error.
    pub fn duplicate(&self) -> (r: JobError)
        ensures
            r@ == self@,
    {
        JobError { code: self.code.clone(), message: self.message.clone() }
    }
}

impl Job {
    /// A copy of the job.
    pub fn duplicate(&self) -> (r: Job)
        ensures
            r@ == self@,
    {
        Job {
            id: self.id.clone(),
            job_type: self.job_type.clone(),
            kind: self.kind.duplicate(),
            status: self.status,
            progress: self.progress,
            created_at: self.created_at,
            started_at: self.started_at,
            finished_at: self.finished_at,
            error: match &self.error {
                Some(e) => Some(e.duplicate()),
                None => None,
            },
        }
    }

    fn queued_job(id: &str, job_type: &str, kind: JobKind, created_at: u64) -> (r: Job)
        ensures
            r@ == queued(id@, job_type@, kind@, created_at),
    {
        Job {
            id: id.to_owned(),
            job_type: job_type.to_owned(),
            kind,
            status: JobStatus::Queued,
            progress: 0,
            created_at,
            started_at: None,
            finished_at: None,
            error: None,
        }
    }

    pub fn queued_audio(
        id: &str,
        input_path: &str,
        output_path: &str,
        format: AudioFormat,
        created_at: u64,
    ) -> (r: Job)
        ensures
            r@ == queued(
                id@,
                "audio_conversion"@,
                JobKindModel::AudioConversion {
                    input_path: input_path@,
                    output_path: output_path@,
                    format,
                },
                created_at,
            ),
    {
        let kind = JobKind::AudioConversion {
            input_path: input_path.to_owned(),
            output_path: output_path.to_owned(),
            format,
        };
        Self::queued_job(id, "audio_conversion", kind, created_at)
    }

    pub fn queued_pdf(id: &str, operation: PdfOperation, created_at: u64) -> (r: Job)
        ensures
            r@ == queued(
                id@,
                "pdf_operation"@,
                JobKindModel::PdfOperation { operation: operation@ },
                created_at,
            ),
    {
        Self::queued_job(id, "pdf_operation", JobKind::PdfOperation { operation }, created_at)
    }

    pub fn queued_images_to_pdf(
        id: &str,
        input_paths: Vec<String>,
        output_path: &str,
        created_at: u64,
    ) -> (r: Job)
        ensures
            r@ == queued(
                id@,
                "images_to_pdf"@,
                JobKindModel::ImagesToPdf {
                    input_paths: views(input_paths@),
                    output_path: output_path@,
                },
                created_at,
            ),
    {
        let kind = JobKind::ImagesToPdf { input_paths, output_path: output_path.to_owned() };
        Self::queued_job(id, "images_to_pdf", kind, created_at)
    }

    pub fn queued_pdf_to_images(
        id: &str,
        input_path: &str,
        output_directory: &str,
        format: PdfImageFormat,
        dpi: u16,
        created_at: u64,
    ) -> (r: Job)
        ensures
            r@ == queued(
                id@,
                "pdf_to_images"@,
                JobKindModel::PdfToImages {
                    input_path: input_path@,
                    output_directory: output_directory@,
                    format,
                    dpi,
                },
                created_at,
            ),
    {
        let kind = JobKind::PdfToImages {
            input_path: input_path.to_owned(),
            output_directory: output_directory.to_owned(),
            format,
            dpi,
        };
        Self::queued_job(id, "pdf_to_images", kind, created_at)
    }

    pub fn queued_office_to_pdf(id: &str, input_path: &str, output_path: &str, created_at: u64) -> (r: Job)
        ensures
            r@ == queued(
                id@,
                "office_to_pdf"@,
                JobKindModel::OfficeToPdf { input_path: input_path@, output_path: output_path@ },
                created_at,
            ),
    {
        let kind = JobKind::OfficeToPdf {
            input_path: input_path.to_owned(),
            output_path: output_path.to_owned(),
        };
        Self::queued_job(id, "office_to_pdf", kind, created_at)
    }

    pub fn queued_pdf_to_docx(id: &str, input_path: &str, output_path: &str, created_at: u64) -> (r: Job)
        ensures
            r@ == queued(
                id@,
                "pdf_to_docx"@,
                JobKindModel::PdfToDocx { input_path: input_path@, output_path: output_path@ },
                created_at,
            ),
    {
        let kind = JobKind::PdfToDocx {
            input_path: input_path.to_owned(),
            output_path: output_path.to_owned(),
        };
        Self::queued_job(id, "pdf_to_docx", kind, created_at)
    }
}

} // verus!
