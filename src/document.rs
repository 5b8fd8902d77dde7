//! The uniform output document and the parameters that produce it.
use vstd::prelude::*;
use crate::annotate::{lowercase, lowercase_of, TextMetadata};
use crate::text::same_text;

verus! {

#[verifier::external_type_specification]
#[verifier::external_body]
pub struct ExJsonValue(serde_json::Value);

/// Relies on `serde_json::Value::Null` being a value of the type; nothing more is said of it.
#[verifier::external_body]
pub(crate) fn json_null() -> serde_json::Value {
    serde_json::Value::Null
}

/// A point in time: seconds since the Unix epoch and the nanoseconds past that second.
#[derive(Debug, Clone, Copy, PartialEq, Eq, Structural)]
pub struct Timestamp {
    pub seconds: i64,
    pub nanos: u32,
}

/// The kinds of documents the library handles.
#[derive(Debug, Clone, Copy, PartialEq, Eq, Structural)]
pub enum DocumentType {
    PDF,
    TXT,
    JSON,
    CSV,
    DOCX,
}

/// The document type of an extension written in lower case.
pub open spec fn type_of_extension(ext: Seq<char>) -> Option<DocumentType> {
    if ext == "pdf"@ {
        Some(DocumentType::PDF)
    } else if ext == "txt"@ {
        Some(DocumentType::TXT)
    } else if ext == "json"@ {
        Some(DocumentType::JSON)
    } else if ext == "csv"@ {
        Some(DocumentType::CSV)
    } else if ext == "docx"@ {
        Some(DocumentType::DOCX)
    } else {
        None
    }
}

impl DocumentType {
    /// The document type of an extension already in lower case.
    pub fn from_lowercase_extension(ext: &str) -> (r: Option<Self>)
        ensures
            r == type_of_extension(ext@),
    {
        if same_text(ext, "pdf") {
            Some(DocumentType::PDF)
        } else if same_text(ext, "txt") {
            Some(DocumentType::TXT)
        } else if same_text(ext, "json") {
            Some(DocumentType::JSON)
        } else if same_text(ext, "csv") {
            Some(DocumentType::CSV)
        } else if same_text(ext, "docx") {
            Some(DocumentType::DOCX)
        } else {
            None
        }
    }

    /// The document type of a file extension, in any case.
    pub fn from_extension(ext: &str) -> (r: Option<Self>)
        ensures
            r == type_of_extension(lowercase_of(ext@)),
    {
        let lower = lowercase(ext);
        DocumentType::from_lowercase_extension(lower.as_str())
    }

    pub open spec fn name(&self) -> Seq<char> {
        match self {
            DocumentType::PDF => "PDF"@,
            DocumentType::TXT => "TXT"@,
            DocumentType::JSON => "JSON"@,
            DocumentType::CSV => "CSV"@,
            DocumentType::DOCX => "DOCX"@,
        }
    }

    /// The upper-case name of the type.
    pub fn to_string(&self) -> (r: &'static str)
        ensures
            r@ == self.name(),
    {
        match self {
            DocumentType::PDF => "PDF",
            DocumentType::TXT => "TXT",
            DocumentType::JSON => "JSON",
            DocumentType::CSV => "CSV",
            DocumentType::DOCX => "DOCX",
        }
    }

    pub open spec fn id_prefix_view(&self) -> Seq<char> {
        match self {
            DocumentType::PDF => "pdf"@,
            DocumentType::TXT => "txt"@,
            DocumentType::JSON => "json"@,
            DocumentType::CSV => "csv"@,
            DocumentType::DOCX => "docx"@,
        }
    }

    /// The lower-case prefix of chunk identifiers.
    pub fn id_prefix(&self) -> (r: &'static str)
        ensures
            r@ == self.id_prefix_view(),
    {
        match self {
            DocumentType::PDF => "pdf",
            DocumentType::TXT => "txt",
            DocumentType::JSON => "json",
            DocumentType::CSV => "csv",
            DocumentType::DOCX => "docx",
        }
    }

    pub open spec fn processor_name_view(&self) -> Seq<char> {
        match self {
            DocumentType::PDF => "PdfProcessor"@,
            DocumentType::TXT => "TxtProcessor"@,
            DocumentType::JSON => "JsonProcessor"@,
            DocumentType::CSV => "CsvProcessor"@,
            DocumentType::DOCX => "DocxProcessor"@,
        }
    }

    /// The name of the processor of this type.
    pub fn processor_name(&self) -> (r: &'static str)
        ensures
            r@ == self.processor_name_view(),
    {
        match self {
            DocumentType::PDF => "PdfProcessor",
            DocumentType::TXT => "TxtProcessor",
            DocumentType::JSON => "JsonProcessor",
            DocumentType::CSV => "CsvProcessor",
            DocumentType::DOCX => "DocxProcessor",
        }
    }

    pub open spec fn confidence_view(&self) -> u8 {
        match self {
            DocumentType::DOCX => 80,
            _ => 100,
        }
    }

    /// How reliable text extraction is believed to be for this type, in percent.
    pub fn confidence(&self) -> (r: u8)
        ensures
            r == self.confidence_view(),
    {
        match self {
            DocumentType::DOCX => 80,
            _ => 100,
        }
    }
}

/// Parameters of processing.
#[derive(Debug)]
pub struct ProcessingParams {
    /// Maximum chunk size in characters.
    pub max_chunk_size: usize,
    /// Overlap between chunks in characters.
    pub chunk_overlap: usize,
    /// Clean the text before chunking.
    pub text_cleaning: bool,
    /// Detect the language of each chunk.
    pub language_detection: bool,
    /// Parameters specific to a format, passed through unchanged.
    pub format_specific: serde_json::Value,
}

impl Default for ProcessingParams {
    fn default() -> (r: Self)
        ensures
            r.max_chunk_size == 1000,
            r.chunk_overlap == 100,
            r.text_cleaning,
            !r.language_detection,
    {
        ProcessingParams {
            max_chunk_size: 1000,
            chunk_overlap: 100,
            text_cleaning: true,
            language_detection: false,
            format_specific: json_null(),
        }
    }
}

impl ProcessingParams {
    /// The sizes can be used: a positive maximum size, larger than the overlap.
    pub open spec fn valid(&self) -> bool {
        0 < self.max_chunk_size && self.chunk_overlap < self.max_chunk_size
    }

    pub fn with_chunk_size(self, size: usize) -> (r: Self)
        ensures
            r == (ProcessingParams { max_chunk_size: size, ..self }),
    {
        ProcessingParams { max_chunk_size: size, ..self }
    }

    pub fn with_chunk_overlap(self, overlap: usize) -> (r: Self)
        ensures
            r == (ProcessingParams { chunk_overlap: overlap, ..self }),
    {
        ProcessingParams { chunk_overlap: overlap, ..self }
    }

    pub fn with_text_cleaning(self, enabled: bool) -> (r: Self)
        ensures
            r == (ProcessingParams { text_cleaning: enabled, ..self }),
    {
        ProcessingParams { text_cleaning: enabled, ..self }
    }

    pub fn with_language_detection(self, enabled: bool) -> (r: Self)
        ensures
            r == (ProcessingParams { language_detection: enabled, ..self }),
    {
        ProcessingParams { language_detection: enabled, ..self }
    }

    pub fn with_format_specific(self, metadata: serde_json::Value) -> (r: Self)
        ensures
            r == (ProcessingParams { format_specific: metadata, ..self }),
    {
        ProcessingParams { format_specific: metadata, ..self }
    }
}

/// Where a chunk lies in its document.
#[derive(Debug, Clone)]
pub struct ChunkPosition {
    pub page: Option<u32>,
    pub line: Option<u32>,
    pub start_offset: Option<usize>,
    pub end_offset: Option<usize>,
}

/// Statistics and provenance of a chunk.
#[derive(Debug)]
pub struct ChunkMetadata {
    /// Size in characters.
    pub size: usize,
    /// Detected language, when detection is on.
    pub language: Option<String>,
    /// Confidence of the extraction, in percent.
    pub confidence_percent: Option<u8>,
    pub word_count: usize,
    pub estimated_tokens: usize,
    pub line_count: usize,
    /// Hexadecimal content hash, for deduplication.
    pub content_hash: String,
}

/// One chunk of the output document.
#[derive(Debug)]
pub struct DocumentChunk {
    pub id: String,
    pub content: String,
    pub chunk_index: usize,
    pub position: ChunkPosition,
    pub metadata: ChunkMetadata,
}

/// What a format adapter knows of the source document.
#[derive(Debug)]
pub struct SourceDocument {
    pub filename: String,
    pub filepath: String,
    pub file_size: u64,
    pub created_at: Option<Timestamp>,
    pub modified_at: Option<Timestamp>,
    pub title: Option<String>,
    pub author: Option<String>,
    /// Format-specific metadata, passed through unchanged.
    pub format_metadata: serde_json::Value,
}

/// Metadata of the source document.
#[derive(Debug)]
pub struct DocumentMetadata {
    pub filename: String,
    pub filepath: String,
    pub document_type: DocumentType,
    pub file_size: u64,
    pub created_at: Option<Timestamp>,
    pub modified_at: Option<Timestamp>,
    pub title: Option<String>,
    pub author: Option<String>,
    pub format_metadata: serde_json::Value,
    /// Statistics of the whole (cleaned) text.
    pub text_statistics: TextMetadata,
}

/// How the output was produced.
#[derive(Debug)]
pub struct ProcessingInfo {
    pub processor: String,
    pub processor_version: String,
    pub processed_at: Timestamp,
    pub processing_time_ms: u64,
    pub total_chunks: usize,
    pub total_content_size: usize,
    pub processing_params: ProcessingParams,
}

/// The uniform output of processing one document.
#[derive(Debug)]
pub struct UniversalOutput {
    pub document_metadata: DocumentMetadata,
    pub chunks: Vec<DocumentChunk>,
    pub processing_info: ProcessingInfo,
}

} // verus!
