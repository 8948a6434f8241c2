//! Conversion adapters, the job queue and the job service.

pub mod job_queue;
pub mod job_history;
pub mod engine_run;
pub mod audio_converter;
pub mod job_service;
pub mod folder_batch;
pub mod dependency_service;
pub mod converter_registry;
pub mod bootstrap;
pub mod file_manager;
pub mod office_converter;
pub mod image_converter;
pub mod pdf_docx_converter;
pub mod pdf_image_converter;
pub mod pdf_converter;
