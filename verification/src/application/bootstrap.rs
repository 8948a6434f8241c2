//! What the interface receives when it starts.

use vstd::prelude::*;
use crate::application::converter_registry::{capabilities_with_dependencies, capability_views, registry};
use crate::application::dependency_service::DependencyStatuses;
use crate::domain::converter::ConverterCapability;

verus! {

/// The application's version and platform, the conversion families and the
/// state of the optional dependencies.
#[derive(Debug)]
pub struct AppBootstrap {
    pub app_version: String,
    pub platform: String,
    pub converters: Vec<ConverterCapability>,
    pub dependencies: DependencyStatuses,
}

impl AppBootstrap {
    /// The start-up record: a family that needs LibreOffice or the PDF-to-Word
    /// runtime is ready when that dependency is ready.
    pub fn new(
        app_version: &str,
        platform: &str,
        dependencies: DependencyStatuses,
        ffmpeg_ready: bool,
        qpdf_ready: bool,
        pdfium_ready: bool,
    ) -> (r: AppBootstrap)
        ensures
            r.app_version@ == app_version@,
            r.platform@ == platform@,
            r.dependencies == dependencies,
            capability_views(r.converters@) == registry(dependencies.libreoffice.ready, dependencies.python.ready,
                ffmpeg_ready, qpdf_ready, pdfium_ready),
    {
        let converters = capabilities_with_dependencies(dependencies.libreoffice.ready, dependencies.python.ready,
            ffmpeg_ready, qpdf_ready, pdfium_ready);
        AppBootstrap { app_version: app_version.to_owned(), platform: platform.to_owned(), converters, dependencies }
    }
}

} // verus!
