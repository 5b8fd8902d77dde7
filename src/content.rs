//! Processing document content held in memory: the content is turned into raw
//! text by the processor of its type and then goes through the pipeline.
use vstd::prelude::*;
use crate::digits::{decimal_digits, decimal_string};
use crate::document::{json_null, DocumentType, ProcessingParams, SourceDocument, UniversalOutput};
use crate::error::DocLoaderError;
use crate::formats::{csv_parse_result, csv_text, utf8_decoding_of};
use crate::pipeline::{clock_now, process_document};
use crate::processors::{CsvProcessor, DocxMetadata, DocxProcessor, TxtProcessor};
use crate::text::line_breaks_normalized;

verus! {

/// The text of the lossy UTF-8 reading of `bytes`, as `String::from_utf8_lossy` gives it.
pub uninterp spec fn utf8_lossy_of(bytes: Seq<u8>) -> Seq<char>;

/// Relies on `String::from_utf8_lossy`: each malformed sequence becomes U+FFFD;
/// the text depends on the bytes alone.
#[verifier::external_body]
fn utf8_lossy(bytes: &[u8]) -> (r: String)
    ensures
        r@ == utf8_lossy_of(bytes@),
{
    String::from_utf8_lossy(bytes).into_owned()
}

/// A source for content named `filename` of `size` bytes held in memory:
/// path `memory://<filename>`, both time stamps the time of reading, no title
/// or author.
pub open spec fn in_memory_source(s: SourceDocument, filename: Seq<char>, size: nat) -> bool {
    &&& s.filename@ == filename
    &&& s.filepath@ == "memory://"@ + filename
    &&& s.file_size == size
    &&& s.created_at is Some
    &&& s.modified_at == s.created_at
    &&& s.title is None
    &&& s.author is None
}

/// The output is what processing `raw`, the text of content named `filename`
/// of `size` bytes, gives.
pub open spec fn processed_in_memory(
    o: UniversalOutput,
    kind: DocumentType,
    filename: Seq<char>,
    size: nat,
    raw: Seq<char>,
    params: ProcessingParams,
) -> bool {
    exists|s: SourceDocument| #[trigger] o.produced_from(kind, s, raw, params) && in_memory_source(s, filename, size)
}

fn memory_source(filename: &str, size: usize) -> (r: SourceDocument)
    ensures
        in_memory_source(r, filename@, size as nat),
{
    let stamp = clock_now();
    let mut filepath = "memory://".to_owned();
    filepath.append(filename);
    SourceDocument {
        filename: filename.to_owned(),
        filepath,
        file_size: size as u64,
        created_at: Some(stamp),
        modified_at: Some(stamp),
        title: None,
        author: None,
        format_metadata: json_null(),
    }
}

fn process_in_memory(
    kind: DocumentType,
    raw: &str,
    filename: &str,
    size: usize,
    params: ProcessingParams,
) -> (r: Result<UniversalOutput, DocLoaderError>)
    ensures
        r is Err <==> !params.valid(),
        r is Err ==> r->Err_0 is Processing,
        r is Ok ==> processed_in_memory(r->Ok_0, kind, filename@, size as nat, raw@, params),
{
    let source = memory_source(filename, size);
    let ghost s = source;
    let r = process_document(kind, raw, source, params);
    assert(r is Ok ==> r->Ok_0.produced_from(kind, s, raw@, params) && in_memory_source(
        s,
        filename@,
        size as nat,
    ));
    r
}

/// The text that stands for a DOCX document of `size` bytes.
pub open spec fn docx_text(size: nat) -> Seq<char> {
    "DOCX content extraction not fully implemented.\nFile size: "@ + decimal_digits(size)
        + " bytes\nThis is a placeholder for DOCX text extraction.\nIn a real implementation, you would:\n1. Extract the ZIP archive\n2. Parse document.xml\n3. Extract text from XML elements\n4. Handle formatting, tables, etc."@
}

impl DocxProcessor {
    /// The text and metadata of DOCX content: a notice that gives the size of
    /// the content, and empty metadata.
    pub fn extract_from_docx_content(&self, content: &[u8]) -> (r: Result<(String, DocxMetadata), DocLoaderError>)
        ensures
            r is Ok,
            r->Ok_0.0@ == docx_text(content@.len()),
            r->Ok_0.1.word_count == 0 && r->Ok_0.1.paragraph_count == 0,
            r->Ok_0.1.page_count is None && r->Ok_0.1.title is None && r->Ok_0.1.author is None,
            r->Ok_0.1.subject is None && r->Ok_0.1.company is None,
            r->Ok_0.1.last_modified_by is None,
    {
        let mut text = "DOCX content extraction not fully implemented.\nFile size: ".to_owned();
        let size = decimal_string(content.len() as u64);
        text.append(size.as_str());
        text.append(
            " bytes\nThis is a placeholder for DOCX text extraction.\nIn a real implementation, you would:\n1. Extract the ZIP archive\n2. Parse document.xml\n3. Extract text from XML elements\n4. Handle formatting, tables, etc.",
        );
        let metadata = DocxMetadata {
            word_count: 0,
            paragraph_count: 0,
            page_count: None,
            title: None,
            author: None,
            subject: None,
            company: None,
            last_modified_by: None,
        };
        Ok((text, metadata))
    }

    /// Processes DOCX content held in memory.
    pub fn process_content(&self, content: &[u8], filename: &str, params: ProcessingParams) -> (r: Result<
        UniversalOutput,
        DocLoaderError,
    >)
        ensures
            r is Err <==> !params.valid(),
            r is Err ==> r->Err_0 is Processing,
            r is Ok ==> processed_in_memory(
                r->Ok_0,
                DocumentType::DOCX,
                filename@,
                content@.len(),
                docx_text(content@.len()),
                params,
            ),
    {
        let (text, _metadata) = match self.extract_from_docx_content(content) {
            Ok(x) => x,
            Err(e) => return Err(e),
        };
        process_in_memory(DocumentType::DOCX, text.as_str(), filename, content.len(), params)
    }
}

impl TxtProcessor {
    /// Processes text content held in memory: decoded as UTF-8, line breaks normalised.
    pub fn process_content(&self, content: &[u8], filename: &str, params: ProcessingParams) -> (r: Result<
        UniversalOutput,
        DocLoaderError,
    >)
        ensures
            r is Err <==> !params.valid(),
            r is Err ==> r->Err_0 is Processing,
            r is Ok ==> processed_in_memory(
                r->Ok_0,
                DocumentType::TXT,
                filename@,
                content@.len(),
                line_breaks_normalized(utf8_decoding_of(content@)),
                params,
            ),
    {
        let text = self.decode_content(content);
        process_in_memory(DocumentType::TXT, text.as_str(), filename, content.len(), params)
    }
}

impl CsvProcessor {
    /// Processes CSV content held in memory: read as lossy UTF-8, parsed with a
    /// header row and rendered as labelled rows. Fails with a processing error
    /// where the CSV cannot be read or the parameters cannot be used.
    pub fn process_content(&self, content: &[u8], filename: &str, params: ProcessingParams) -> (r: Result<
        UniversalOutput,
        DocLoaderError,
    >)
        ensures
            match csv_parse_result(utf8_lossy_of(content@)) {
                Err(m) => r is Err && r->Err_0 is Processing && r->Err_0.detail_view() == m,
                Ok((rows, headers)) => {
                    &&& r is Err <==> !params.valid()
                    &&& r is Err ==> r->Err_0 is Processing
                    &&& r is Ok ==> processed_in_memory(
                        r->Ok_0,
                        DocumentType::CSV,
                        filename@,
                        content@.len(),
                        csv_text(headers, rows),
                        params,
                    )
                },
            },
    {
        let text = utf8_lossy(content);
        let (rows, headers) = match self.parse_csv_content(text.as_str()) {
            Ok(x) => x,
            Err(e) => return Err(e),
        };
        let raw = self.csv_to_text(rows.as_slice(), headers.as_slice());
        process_in_memory(DocumentType::CSV, raw.as_str(), filename, content.len(), params)
    }
}

} // verus!
