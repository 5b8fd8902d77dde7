//! Document loading core.
//!
//! Format adapters hand over the raw text of a document; the library cleans
//! it, splits it into bounded, overlapping chunks, annotates each chunk with
//! statistics, a heuristic language and a content hash, and assembles a
//! uniform output document with the parameters and timing of the work.
pub mod annotate;
pub mod cli;
pub mod content;
pub mod digits;
pub mod document;
pub mod error;
pub mod formats;
pub mod json;
pub mod metadata;
pub mod pipeline;
pub mod processors;
pub mod splitter;
pub mod text;

pub use annotate::{
    content_hash, count_words, detect_language, estimate_tokens, extract_text_metadata,
    tokens_for_words, TextMetadata,
};
pub use cli::{Cli, Commands, OutputFormat};
pub use document::{
    ChunkMetadata, ChunkPosition, DocumentChunk, DocumentMetadata, DocumentType, ProcessingInfo,
    ProcessingParams, SourceDocument, Timestamp, UniversalOutput,
};
pub use error::DocLoaderError;
pub use formats::TextExtractor;
pub use metadata::MetadataExtractor;
pub use pipeline::{annotate_chunks, assemble, process_document, OutputSummary};
pub use processors::{
    CsvProcessor, DocxMetadata, DocxProcessor, JsonProcessor, PdfProcessor, TxtProcessor,
    UniversalProcessor,
};
pub use splitter::{chunk_text, DocumentSplitter, SplitOptions, TextChunk};
pub use text::{clean_text, normalize_line_breaks, remove_empty_lines};
