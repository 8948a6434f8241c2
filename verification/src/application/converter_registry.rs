//! The conversion families offered, and whether each can run with the engines
//! found on this machine.

use vstd::prelude::*;
use crate::domain::converter::{CapabilityModel, ConverterCapability, ConverterCategory, ConverterStatus, str_views};

verus! {

/// Which engines were found on this machine.
#[derive(Debug)]
pub struct EngineAvailability {
    pub libreoffice: bool,
    pub pdf_to_docx: bool,
    pub ffmpeg: bool,
    pub qpdf: bool,
    pub pdfium: bool,
}

/// A family runs when its engine was found; otherwise it needs an external program.
pub open spec fn status_for(ready: bool) -> ConverterStatus {
    if ready { ConverterStatus::Ready } else { ConverterStatus::ExternalRequired }
}

pub open spec fn capability(
    id: Seq<char>,
    category: ConverterCategory,
    title_key: Seq<char>,
    description_key: Seq<char>,
    engine: Seq<char>,
    status: ConverterStatus,
    bundled: bool,
    input_extensions: Seq<Seq<char>>,
    output_extensions: Seq<Seq<char>>,
) -> CapabilityModel {
    CapabilityModel { id, category, title_key, description_key, engine, status, bundled, input_extensions, output_extensions }
}

/// Every conversion family, in the order shown, with its status.
pub open spec fn registry(
    libreoffice_ready: bool,
    pdf_to_docx_ready: bool,
    ffmpeg_ready: bool,
    qpdf_ready: bool,
    pdfium_ready: bool,
) -> Seq<CapabilityModel> {
    seq![
        capability("images-to-pdf"@, ConverterCategory::Image, "converters.imagesToPdf.title"@,
            "converters.imagesToPdf.description"@, "Native"@, ConverterStatus::Ready, true,
            seq!["jpg"@, "jpeg"@, "png"@, "webp"@, "tiff"@], seq!["pdf"@]),
        capability("pdf-tools"@, ConverterCategory::Pdf, "converters.pdfTools.title"@,
            "converters.pdfTools.description"@, "qpdf"@, status_for(qpdf_ready), true,
            seq!["pdf"@], seq!["pdf"@]),
        capability("pdf-to-images"@, ConverterCategory::Pdf, "converters.pdfToImages.title"@,
            "converters.pdfToImages.description"@, "PDFium"@, status_for(pdfium_ready), true,
            seq!["pdf"@], seq!["png"@, "jpg"@]),
        capability("audio"@, ConverterCategory::Audio, "converters.audio.title"@,
            "converters.audio.description"@, "FFmpeg"@, status_for(ffmpeg_ready), true,
            seq!["mp3"@, "wav"@, "flac"@, "aac"@, "m4a"@, "ogg"@], seq!["mp3"@, "wav"@, "flac"@, "aac"@, "m4a"@, "ogg"@]),
        capability("office-to-pdf"@, ConverterCategory::Document, "converters.officeToPdf.title"@,
            "converters.officeToPdf.description"@, "LibreOffice"@, status_for(libreoffice_ready), false,
            seq!["docx"@, "xlsx"@, "pptx"@], seq!["pdf"@]),
        capability("pdf-to-docx"@, ConverterCategory::Document, "converters.pdfToDocx.title"@,
            "converters.pdfToDocx.description"@, "Python · PyMuPDF · pdf2docx"@, status_for(pdf_to_docx_ready), false,
            seq!["pdf"@], seq!["docx"@]),
    ]
}

pub open spec fn capability_views(v: Seq<ConverterCapability>) -> Seq<CapabilityModel> {
    v.map_values(|c: ConverterCapability| c@)
}

fn status_of(ready: bool) -> (r: ConverterStatus)
    ensures
        r == status_for(ready),
{
    if ready { ConverterStatus::Ready } else { ConverterStatus::ExternalRequired }
}

/// The conversion families with their status, given which engines were found.
pub fn capabilities_with_dependencies(
    libreoffice_ready: bool,
    pdf_to_docx_ready: bool,
    ffmpeg_ready: bool,
    qpdf_ready: bool,
    pdfium_ready: bool,
) -> (r: Vec<ConverterCapability>)
    ensures
        capability_views(r@) == registry(libreoffice_ready, pdf_to_docx_ready, ffmpeg_ready, qpdf_ready, pdfium_ready),
{
    let ghost expected = registry(libreoffice_ready, pdf_to_docx_ready, ffmpeg_ready, qpdf_ready, pdfium_ready);
    let mut r: Vec<ConverterCapability> = Vec::new();
    let images: &[&str] = &["jpg", "jpeg", "png", "webp", "tiff"];
    let pdf: &[&str] = &["pdf"];
    let rendered: &[&str] = &["png", "jpg"];
    let audio: &[&str] = &["mp3", "wav", "flac", "aac", "m4a", "ogg"];
    let office: &[&str] = &["docx", "xlsx", "pptx"];
    let docx: &[&str] = &["docx"];
    assert(str_views(images@) =~= seq!["jpg"@, "jpeg"@, "png"@, "webp"@, "tiff"@]);
    assert(str_views(pdf@) =~= seq!["pdf"@]);
    assert(str_views(rendered@) =~= seq!["png"@, "jpg"@]);
    assert(str_views(audio@) =~= seq!["mp3"@, "wav"@, "flac"@, "aac"@, "m4a"@, "ogg"@]);
    assert(str_views(office@) =~= seq!["docx"@, "xlsx"@, "pptx"@]);
    assert(str_views(docx@) =~= seq!["docx"@]);
    r.push(ConverterCapability::new("images-to-pdf", ConverterCategory::Image, "converters.imagesToPdf.title",
        "converters.imagesToPdf.description", "Native", ConverterStatus::Ready, true, images, pdf));
    assert(r@[0]@ == expected[0]);
    r.push(ConverterCapability::new("pdf-tools", ConverterCategory::Pdf, "converters.pdfTools.title",
        "converters.pdfTools.description", "qpdf", status_of(qpdf_ready), true, pdf, pdf));
    assert(r@[1]@ == expected[1]);
    r.push(ConverterCapability::new("pdf-to-images", ConverterCategory::Pdf, "converters.pdfToImages.title",
        "converters.pdfToImages.description", "PDFium", status_of(pdfium_ready), true, pdf, rendered));
    assert(r@[2]@ == expected[2]);
    r.push(ConverterCapability::new("audio", ConverterCategory::Audio, "converters.audio.title",
        "converters.audio.description", "FFmpeg", status_of(ffmpeg_ready), true, audio, audio));
    assert(r@[3]@ == expected[3]);
    r.push(ConverterCapability::new("office-to-pdf", ConverterCategory::Document, "converters.officeToPdf.title",
        "converters.officeToPdf.description", "LibreOffice", status_of(libreoffice_ready), false, office, pdf));
    assert(r@[4]@ == expected[4]);
    r.push(ConverterCapability::new("pdf-to-docx", ConverterCategory::Document, "converters.pdfToDocx.title",
        "converters.pdfToDocx.description", "Python · PyMuPDF · pdf2docx", status_of(pdf_to_docx_ready), false,
        pdf, docx));
    assert(r@[5]@ == expected[5]);
    assert(capability_views(r@) =~= expected);
    r
}

/// The conversion families with their status, given which engines were found.
pub fn capabilities(found: &EngineAvailability) -> (r: Vec<ConverterCapability>)
    ensures
        capability_views(r@) == registry(found.libreoffice, found.pdf_to_docx, found.ffmpeg, found.qpdf, found.pdfium),
{
    capabilities_with_dependencies(found.libreoffice, found.pdf_to_docx, found.ffmpeg, found.qpdf, found.pdfium)
}

} // verus!
