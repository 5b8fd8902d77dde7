//! The processing pipeline: clean, chunk, annotate, assemble.
use vstd::prelude::*;
use crate::annotate::{
    content_hash, count_lines, count_words, default_hash_of, detect_language, language_of,
    line_count_of, lowercase_of, opt_view, text_statistics, token_estimate, tokens_for_words,
    unicode_word_count, TextMetadata,
};
use crate::digits::{decimal_digits, decimal_string, hex_digits};
use crate::document::{
    ChunkMetadata, ChunkPosition, DocumentChunk, DocumentMetadata, DocumentType, ProcessingInfo,
    ProcessingParams, SourceDocument, Timestamp, UniversalOutput,
};
use crate::error::DocLoaderError;
use crate::splitter::{fixed_size_spans, fixed_spans, spans_view};
use crate::text::{chars_of, clean_text, normalized, substring_of};

verus! {

/// The identifier of the `i`-th chunk of a document of type `kind`.
pub open spec fn chunk_id_view(kind: DocumentType, i: nat) -> Seq<char> {
    kind.id_prefix_view() + "_chunk_"@ + decimal_digits(i)
}

/// The lines of the chunks before the `n`-th, saturated at the largest `u32`.
pub open spec fn lines_before(t: Seq<char>, spans: Seq<(int, int)>, n: int) -> nat
    decreases n,
{
    if n <= 0 {
        0
    } else {
        let s = lines_before(t, spans, n - 1) + line_count_of(
            t.subrange(spans[n - 1].0, spans[n - 1].1),
        );
        if s > u32::MAX {
            u32::MAX as nat
        } else {
            s
        }
    }
}

/// The line position of a chunk: for plain text, the lines of the chunks before
/// it; no line for other formats.
pub open spec fn line_position(kind: DocumentType, lines: nat) -> Option<u32> {
    if kind == DocumentType::TXT {
        Some(lines as u32)
    } else {
        None
    }
}

impl DocumentChunk {
    /// The chunk is the `i`-th chunk of the text `t`, spanning `span`, annotated
    /// for a document of type `kind` whose preceding chunks hold `lines` lines; its
    /// language is detected when `detect` holds.
    pub open spec fn annotates(
        &self,
        kind: DocumentType,
        t: Seq<char>,
        i: int,
        span: (int, int),
        lines: nat,
        detect: bool,
    ) -> bool {
        let content = t.subrange(span.0, span.1);
        &&& self.id@ == chunk_id_view(kind, i as nat)
        &&& self.content@ == content
        &&& self.chunk_index == i
        &&& self.position.page is None
        &&& self.position.line == line_position(kind, lines)
        &&& self.position.start_offset == Some(span.0 as usize)
        &&& self.position.end_offset == Some(span.1 as usize)
        &&& self.metadata.size == span.1 - span.0
        &&& opt_view(self.metadata.language) == if detect {
            language_of(lowercase_of(content))
        } else {
            None
        }
        &&& self.metadata.confidence_percent == Some(kind.confidence_view())
        &&& self.metadata.word_count == unicode_word_count(content)
        &&& self.metadata.estimated_tokens == token_estimate(unicode_word_count(content))
        &&& self.metadata.line_count == line_count_of(content)
        &&& self.metadata.content_hash@ == hex_digits(default_hash_of(content) as nat)
    }
}

/// The annotated fixed-size chunks of `t`.
pub open spec fn chunks_annotate(
    c: Seq<DocumentChunk>,
    kind: DocumentType,
    t: Seq<char>,
    max: int,
    overlap: int,
    detect: bool,
) -> bool {
    let spans = fixed_size_spans(t, max, overlap);
    &&& c.len() == spans.len()
    &&& forall|i: int|
        0 <= i < c.len() ==> (#[trigger] c[i]).annotates(
            kind,
            t,
            i,
            spans[i],
            lines_before(t, spans, i),
            detect,
        )
}

fn annotate_chunk(
    kind: DocumentType,
    t: &Vec<char>,
    i: usize,
    a: usize,
    b: usize,
    lines: u32,
    detect: bool,
) -> (r: DocumentChunk)
    requires
        a <= b <= t@.len(),
    ensures
        r.annotates(kind, t@, i as int, (a as int, b as int), lines as nat, detect),
{
    let content = substring_of(t, a, b);
    let mut id = kind.id_prefix().to_owned();
    id.append("_chunk_");
    let number = decimal_string(i as u64);
    id.append(number.as_str());
    let word_count = count_words(content.as_str());
    let metadata = ChunkMetadata {
        size: b - a,
        language: if detect {
            detect_language(content.as_str())
        } else {
            None
        },
        confidence_percent: Some(kind.confidence()),
        word_count,
        estimated_tokens: tokens_for_words(word_count),
        line_count: count_lines(content.as_str()),
        content_hash: content_hash(content.as_str()),
    };
    DocumentChunk {
        id,
        content,
        chunk_index: i,
        position: ChunkPosition {
            page: None,
            line: match kind {
                DocumentType::TXT => Some(lines),
                _ => None,
            },
            start_offset: Some(a),
            end_offset: Some(b),
        },
        metadata,
    }
}

/// Splits `text` into fixed-size chunks and annotates each.
pub fn annotate_chunks(
    kind: DocumentType,
    text: &str,
    max_size: usize,
    overlap: usize,
    detect: bool,
) -> (r: Vec<DocumentChunk>)
    requires
        max_size > 0,
    ensures
        chunks_annotate(r@, kind, text@, max_size as int, overlap as int, detect),
{
    let t = chars_of(text);
    let spans = fixed_spans(&t, max_size, overlap);
    let ghost sv = spans_view(spans@);
    let mut out: Vec<DocumentChunk> = Vec::new();
    let mut lines: u32 = 0;
    let mut i: usize = 0;
    while i < spans.len()
        invariant
            t@ == text@,
            sv == spans_view(spans@),
            sv == fixed_size_spans(t@, max_size as int, overlap as int),
            forall|k: int| 0 <= k < spans@.len() ==> (#[trigger] spans@[k]).0 <= spans@[k].1 <= t@.len(),
            i <= spans@.len(),
            out@.len() == i,
            lines == lines_before(t@, sv, i as int),
            forall|k: int|
                0 <= k < i ==> (#[trigger] out@[k]).annotates(
                    kind,
                    t@,
                    k,
                    sv[k],
                    lines_before(t@, sv, k),
                    detect,
                ),
        decreases spans@.len() - i,
    {
        let (a, b) = spans[i];
        let chunk = annotate_chunk(kind, &t, i, a, b, lines, detect);
        let chunk_lines = chunk.metadata.line_count;
        out.push(chunk);
        lines = if chunk_lines as u64 > (u32::MAX - lines) as u64 {
            u32::MAX
        } else {
            lines + chunk_lines as u32
        };
        i = i + 1;
    }
    out
}

pub open spec fn sizes_prefix(c: Seq<DocumentChunk>, n: int) -> nat
    decreases n,
{
    if n <= 0 {
        0
    } else {
        sizes_prefix(c, n - 1) + c[n - 1].metadata.size as nat
    }
}

pub open spec fn capped(n: nat) -> nat {
    if n > usize::MAX {
        usize::MAX as nat
    } else {
        n
    }
}

/// The sum of the chunks' sizes, saturated at the largest `usize`.
pub open spec fn total_size(c: Seq<DocumentChunk>) -> nat {
    capped(sizes_prefix(c, c.len() as int))
}

fn sum_sizes(c: &Vec<DocumentChunk>) -> (r: usize)
    ensures
        r == total_size(c@),
{
    let mut total: usize = 0;
    let mut i: usize = 0;
    while i < c.len()
        invariant
            i <= c@.len(),
            total == capped(sizes_prefix(c@, i as int)),
        decreases c@.len() - i,
    {
        let size = c[i].metadata.size;
        total = if size > usize::MAX - total {
            usize::MAX
        } else {
            total + size
        };
        i = i + 1;
    }
    total
}

pub open spec fn words_prefix(c: Seq<DocumentChunk>, n: int) -> nat
    decreases n,
{
    if n <= 0 {
        0
    } else {
        words_prefix(c, n - 1) + c[n - 1].metadata.word_count as nat
    }
}

/// Summary statistics of an output document.
#[derive(Debug)]
pub struct OutputSummary {
    pub source_file: String,
    pub chunk_count: usize,
    pub total_words: usize,
    pub total_chars: usize,
    pub avg_chunk_size: usize,
    pub processed_at: Timestamp,
}

impl UniversalOutput {
    /// The words of all chunks, saturated at the largest `usize`.
    pub fn total_word_count(&self) -> (r: usize)
        ensures
            r == capped(words_prefix(self.chunks@, self.chunks@.len() as int)),
    {
        let mut total: usize = 0;
        let mut i: usize = 0;
        while i < self.chunks.len()
            invariant
                i <= self.chunks@.len(),
                total == capped(words_prefix(self.chunks@, i as int)),
            decreases self.chunks@.len() - i,
        {
            let words = self.chunks[i].metadata.word_count;
            total = if words > usize::MAX - total {
                usize::MAX
            } else {
                total + words
            };
            i = i + 1;
        }
        total
    }

    /// The characters of all chunks, saturated at the largest `usize`.
    pub fn total_char_count(&self) -> (r: usize)
        ensures
            r == total_size(self.chunks@),
    {
        sum_sizes(&self.chunks)
    }

    /// Chunk count, totals and the average chunk size (rounded down; zero without chunks).
    pub fn get_summary(&self) -> (r: OutputSummary)
        ensures
            r.source_file@ == self.document_metadata.filename@,
            r.chunk_count == self.chunks@.len(),
            r.total_words == capped(words_prefix(self.chunks@, self.chunks@.len() as int)),
            r.total_chars == total_size(self.chunks@),
            r.avg_chunk_size == if self.chunks@.len() > 0 {
                total_size(self.chunks@) / self.chunks@.len()
            } else {
                0
            },
            r.processed_at == self.processing_info.processed_at,
    {
        let chunk_count = self.chunks.len();
        let total_chars = self.total_char_count();
        OutputSummary {
            source_file: self.document_metadata.filename.clone(),
            chunk_count,
            total_words: self.total_word_count(),
            total_chars,
            avg_chunk_size: if chunk_count > 0 {
                total_chars / chunk_count
            } else {
                0
            },
            processed_at: self.processing_info.processed_at,
        }
    }
}

/// The text that is chunked: the raw text, cleaned when cleaning is on.
pub open spec fn cleaned_text(raw: Seq<char>, cleaning: bool) -> Seq<char> {
    if cleaning {
        normalized(raw)
    } else {
        raw
    }
}

impl DocumentMetadata {
    /// The metadata is that of `source`, a document of type `kind` whose text is `t`.
    pub open spec fn from_source(&self, source: SourceDocument, kind: DocumentType, t: Seq<char>, detect: bool) -> bool {
        &&& self.filename == source.filename
        &&& self.filepath == source.filepath
        &&& self.document_type == kind
        &&& self.file_size == source.file_size
        &&& self.created_at == source.created_at
        &&& self.modified_at == source.modified_at
        &&& self.title == source.title
        &&& self.author == source.author
        &&& self.format_metadata == source.format_metadata
        &&& self.text_statistics.describes(t, detect)
    }
}

impl UniversalOutput {
    /// The output is what processing the text `t` (already cleaned or not) of a
    /// document of type `kind` gives, apart from the time stamp and the duration.
    pub open spec fn assembled_from(
        &self,
        kind: DocumentType,
        source: SourceDocument,
        t: Seq<char>,
        params: ProcessingParams,
    ) -> bool {
        &&& self.document_metadata.from_source(source, kind, t, params.language_detection)
        &&& chunks_annotate(
            self.chunks@,
            kind,
            t,
            params.max_chunk_size as int,
            params.chunk_overlap as int,
            params.language_detection,
        )
        &&& self.processing_info.processor@ == kind.processor_name_view()
        &&& self.processing_info.processor_version@ == "1.0.0"@
        &&& self.processing_info.total_chunks == self.chunks@.len()
        &&& self.processing_info.total_content_size == total_size(self.chunks@)
        &&& self.processing_info.processing_params == params
    }

    /// The output is what processing the raw text `raw` gives.
    pub open spec fn produced_from(
        &self,
        kind: DocumentType,
        source: SourceDocument,
        raw: Seq<char>,
        params: ProcessingParams,
    ) -> bool {
        self.assembled_from(kind, source, cleaned_text(raw, params.text_cleaning), params)
    }
}

/// Builds the output document from the annotated chunks of `text`.
pub fn assemble(
    kind: DocumentType,
    source: SourceDocument,
    text: &str,
    chunks: Vec<DocumentChunk>,
    params: ProcessingParams,
    processed_at: Timestamp,
    elapsed_ms: u64,
) -> (r: UniversalOutput)
    requires
        chunks_annotate(
            chunks@,
            kind,
            text@,
            params.max_chunk_size as int,
            params.chunk_overlap as int,
            params.language_detection,
        ),
    ensures
        r.assembled_from(kind, source, text@, params),
        r.processing_info.processed_at == processed_at,
        r.processing_info.processing_time_ms == elapsed_ms,
{
    let text_statistics = text_statistics(text, params.language_detection);
    let total_chunks = chunks.len();
    let total_content_size = sum_sizes(&chunks);
    let document_metadata = DocumentMetadata {
        filename: source.filename,
        filepath: source.filepath,
        document_type: kind,
        file_size: source.file_size,
        created_at: source.created_at,
        modified_at: source.modified_at,
        title: source.title,
        author: source.author,
        format_metadata: source.format_metadata,
        text_statistics,
    };
    let processing_info = ProcessingInfo {
        processor: kind.processor_name().to_owned(),
        processor_version: crate::processors::processor_version().to_owned(),
        processed_at,
        processing_time_ms: elapsed_ms,
        total_chunks,
        total_content_size,
        processing_params: params,
    };
    UniversalOutput { document_metadata, chunks, processing_info }
}

/// Relies on `chrono::Utc::now`: the current time, as seconds since the epoch
/// and nanoseconds past the second. Nothing is promised of its value.
#[verifier::external_body]
pub(crate) fn clock_now() -> Timestamp {
    let now = chrono::Utc::now();
    Timestamp { seconds: now.timestamp(), nanos: now.timestamp_subsec_nanos() }
}

pub open spec fn millis_of(t: Timestamp) -> int {
    t.seconds * 1000 + t.nanos / 1_000_000
}

/// Milliseconds from `start` to `end`: zero when `end` is not later, saturated
/// at the largest `u64`.
pub open spec fn elapsed_millis(start: Timestamp, end: Timestamp) -> int {
    let d = millis_of(end) - millis_of(start);
    if d <= 0 {
        0
    } else if d > u64::MAX {
        u64::MAX as int
    } else {
        d
    }
}

/// The milliseconds from `start` to `end`.
pub fn elapsed_ms(start: Timestamp, end: Timestamp) -> (r: u64)
    ensures
        r == elapsed_millis(start, end),
{
    let s: i128 = start.seconds as i128 * 1000 + (start.nanos / 1_000_000) as i128;
    let e: i128 = end.seconds as i128 * 1000 + (end.nanos / 1_000_000) as i128;
    let d = e - s;
    if d <= 0 {
        0
    } else if d > u64::MAX as i128 {
        u64::MAX
    } else {
        d as u64
    }
}

/// Processes the raw text of a document of type `kind`: cleans it (when
/// cleaning is on), splits it into fixed-size chunks, annotates each chunk and
/// assembles the output, stamped with the time and the duration of the work.
/// Fails with a processing error when the maximum chunk size is zero or not
/// larger than the overlap. An empty text gives no chunks.
pub fn process_document(
    kind: DocumentType,
    raw_text: &str,
    source: SourceDocument,
    params: ProcessingParams,
) -> (r: Result<UniversalOutput, DocLoaderError>)
    ensures
        r is Err <==> !params.valid(),
        r is Err ==> r->Err_0 is Processing,
        r is Ok ==> r->Ok_0.produced_from(kind, source, raw_text@, params),
{
    if params.max_chunk_size == 0 || params.chunk_overlap >= params.max_chunk_size {
        return Err(
            DocLoaderError::Processing(
                "chunk size must be positive and larger than the overlap".to_owned(),
            ),
        );
    }
    let start = clock_now();
    let text = if params.text_cleaning {
        clean_text(raw_text)
    } else {
        raw_text.to_owned()
    };
    let chunks = annotate_chunks(
        kind,
        text.as_str(),
        params.max_chunk_size,
        params.chunk_overlap,
        params.language_detection,
    );
    let end = clock_now();
    let elapsed = elapsed_ms(start, end);
    Ok(assemble(kind, source, text.as_str(), chunks, params, end, elapsed))
}

impl TextMetadata {
    /// Both hold the same statistics.
    pub open spec fn same_as(&self, o: TextMetadata) -> bool {
        &&& self.character_count == o.character_count
        &&& self.word_count == o.word_count
        &&& self.line_count == o.line_count
        &&& self.estimated_tokens == o.estimated_tokens
        &&& opt_view(self.detected_language) == opt_view(o.detected_language)
    }
}

impl DocumentChunk {
    /// Both chunks hold the same text, position and annotations.
    pub open spec fn same_as(&self, o: DocumentChunk) -> bool {
        &&& self.id@ == o.id@
        &&& self.content@ == o.content@
        &&& self.chunk_index == o.chunk_index
        &&& self.position.page == o.position.page
        &&& self.position.line == o.position.line
        &&& self.position.start_offset == o.position.start_offset
        &&& self.position.end_offset == o.position.end_offset
        &&& self.metadata.size == o.metadata.size
        &&& opt_view(self.metadata.language) == opt_view(o.metadata.language)
        &&& self.metadata.confidence_percent == o.metadata.confidence_percent
        &&& self.metadata.word_count == o.metadata.word_count
        &&& self.metadata.estimated_tokens == o.metadata.estimated_tokens
        &&& self.metadata.line_count == o.metadata.line_count
        &&& self.metadata.content_hash@ == o.metadata.content_hash@
    }
}

impl UniversalOutput {
    /// Both outputs agree in everything but the time stamp and the duration.
    pub open spec fn same_content(&self, o: UniversalOutput) -> bool {
        let (d, e) = (self.document_metadata, o.document_metadata);
        let (p, q) = (self.processing_info, o.processing_info);
        &&& d.filename == e.filename
        &&& d.filepath == e.filepath
        &&& d.document_type == e.document_type
        &&& d.file_size == e.file_size
        &&& d.created_at == e.created_at
        &&& d.modified_at == e.modified_at
        &&& d.title == e.title
        &&& d.author == e.author
        &&& d.format_metadata == e.format_metadata
        &&& d.text_statistics.same_as(e.text_statistics)
        &&& self.chunks@.len() == o.chunks@.len()
        &&& forall|i: int| 0 <= i < self.chunks@.len() ==> (#[trigger] self.chunks@[i]).same_as(o.chunks@[i])
        &&& p.processor@ == q.processor@
        &&& p.processor_version@ == q.processor_version@
        &&& p.total_chunks == q.total_chunks
        &&& p.total_content_size == q.total_content_size
        &&& p.processing_params == q.processing_params
    }
}

proof fn lemma_sizes_agree(a: Seq<DocumentChunk>, b: Seq<DocumentChunk>, n: int)
    requires
        0 <= n <= a.len(),
        a.len() == b.len(),
        forall|i: int| 0 <= i < a.len() ==> (#[trigger] a[i]).metadata.size == b[i].metadata.size,
    ensures
        sizes_prefix(a, n) == sizes_prefix(b, n),
    decreases n,
{
    if n > 0 {
        lemma_sizes_agree(a, b, n - 1);
        assert(a[n - 1].metadata.size == b[n - 1].metadata.size);
    }
}

/// Processing is deterministic: two outputs produced from the same text, source
/// and parameters agree in everything but the time stamp and the duration.
pub proof fn lemma_processing_deterministic(
    o1: UniversalOutput,
    o2: UniversalOutput,
    kind: DocumentType,
    source: SourceDocument,
    raw: Seq<char>,
    params: ProcessingParams,
)
    requires
        o1.produced_from(kind, source, raw, params),
        o2.produced_from(kind, source, raw, params),
    ensures
        o1.same_content(o2),
{
    let t = cleaned_text(raw, params.text_cleaning);
    let spans = fixed_size_spans(t, params.max_chunk_size as int, params.chunk_overlap as int);
    assert forall|i: int| 0 <= i < o1.chunks@.len() implies (#[trigger] o1.chunks@[i]).same_as(
        o2.chunks@[i],
    ) by {
        let lines = lines_before(t, spans, i);
        assert(o1.chunks@[i].annotates(kind, t, i, spans[i], lines, params.language_detection));
        assert(o2.chunks@[i].annotates(kind, t, i, spans[i], lines, params.language_detection));
    }
    assert forall|i: int| 0 <= i < o1.chunks@.len() implies (#[trigger] o1.chunks@[i]).metadata.size
        == o2.chunks@[i].metadata.size by {
        assert(o1.chunks@[i].same_as(o2.chunks@[i]));
    }
    lemma_sizes_agree(o1.chunks@, o2.chunks@, o1.chunks@.len() as int);
}

} // verus!
