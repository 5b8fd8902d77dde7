//! The processors of each document type and the universal processor that
//! dispatches among them.
use vstd::prelude::*;
use crate::document::{DocumentType, ProcessingParams, SourceDocument, UniversalOutput};
use crate::error::DocLoaderError;
use crate::pipeline::process_document;

verus! {

/// Processes PDF documents.
pub struct PdfProcessor {}

/// Processes plain-text documents.
pub struct TxtProcessor {}

/// Processes JSON documents.
pub struct JsonProcessor {}

/// Processes CSV documents.
pub struct CsvProcessor {}

/// Processes DOCX documents.
pub struct DocxProcessor {}

impl PdfProcessor {
    pub fn new() -> Self {
        PdfProcessor {  }
    }

    pub fn supported_type(&self) -> (r: DocumentType)
        ensures
            r == DocumentType::PDF,
    {
        DocumentType::PDF
    }
}

impl TxtProcessor {
    pub fn new() -> Self {
        TxtProcessor {  }
    }

    pub fn supported_type(&self) -> (r: DocumentType)
        ensures
            r == DocumentType::TXT,
    {
        DocumentType::TXT
    }
}

impl JsonProcessor {
    pub fn new() -> Self {
        JsonProcessor {  }
    }

    pub fn supported_type(&self) -> (r: DocumentType)
        ensures
            r == DocumentType::JSON,
    {
        DocumentType::JSON
    }
}

impl CsvProcessor {
    pub fn new() -> Self {
        CsvProcessor {  }
    }

    pub fn supported_type(&self) -> (r: DocumentType)
        ensures
            r == DocumentType::CSV,
    {
        DocumentType::CSV
    }
}

impl DocxProcessor {
    pub fn new() -> Self {
        DocxProcessor {  }
    }

    pub fn supported_type(&self) -> (r: DocumentType)
        ensures
            r == DocumentType::DOCX,
    {
        DocumentType::DOCX
    }
}

/// What is known of a DOCX document beyond its text.
#[derive(Debug, Clone)]
pub struct DocxMetadata {
    pub word_count: usize,
    pub paragraph_count: usize,
    pub page_count: Option<usize>,
    pub title: Option<String>,
    pub author: Option<String>,
    pub subject: Option<String>,
    pub company: Option<String>,
    pub last_modified_by: Option<String>,
}

/// The version of every processor.
pub fn processor_version() -> (r: &'static str)
    ensures
        r@ == "1.0.0"@,
{
    "1.0.0"
}

/// Dispatches documents to the processor of their type.
pub struct UniversalProcessor {
    pub pdf_processor: PdfProcessor,
    pub txt_processor: TxtProcessor,
    pub json_processor: JsonProcessor,
    pub csv_processor: CsvProcessor,
    pub docx_processor: DocxProcessor,
}

impl UniversalProcessor {
    pub fn new() -> Self {
        UniversalProcessor {
            pdf_processor: PdfProcessor::new(),
            txt_processor: TxtProcessor::new(),
            json_processor: JsonProcessor::new(),
            csv_processor: CsvProcessor::new(),
            docx_processor: DocxProcessor::new(),
        }
    }

    /// The file extensions that have a processor.
    pub fn supported_extensions() -> (r: Vec<&'static str>)
        ensures
            r@.len() == 5,
            r@[0]@ == "pdf"@,
            r@[1]@ == "txt"@,
            r@[2]@ == "json"@,
            r@[3]@ == "csv"@,
            r@[4]@ == "docx"@,
    {
        let mut r: Vec<&'static str> = Vec::new();
        r.push("pdf");
        r.push("txt");
        r.push("json");
        r.push("csv");
        r.push("docx");
        r
    }

    /// Processes the raw text of a document of type `kind` (see `process_document`).
    pub fn process_text(
        &self,
        kind: DocumentType,
        raw_text: &str,
        source: SourceDocument,
        params: ProcessingParams,
    ) -> (r: Result<UniversalOutput, DocLoaderError>)
        ensures
            r is Err <==> !params.valid(),
            r is Err ==> r->Err_0 is Processing,
            r is Ok ==> r->Ok_0.produced_from(kind, source, raw_text@, params),
    {
        process_document(kind, raw_text, source, params)
    }
}

impl Default for UniversalProcessor {
    fn default() -> Self {
        UniversalProcessor::new()
    }
}

} // verus!
