use doc_loader::json::JsonNode;
use doc_loader::cli::OutputFormat;
use doc_loader::{
    chunk_text, clean_text, content_hash, count_words, detect_language, estimate_tokens,
    extract_text_metadata, normalize_line_breaks, tokens_for_words, Cli, CsvProcessor,
    DocLoaderError, DocumentSplitter, DocumentType, MetadataExtractor, ProcessingParams,
    SourceDocument, SplitOptions, TextExtractor, TxtProcessor, UniversalOutput,
    UniversalProcessor,
};

fn source(name: &str) -> SourceDocument {
    SourceDocument {
        filename: name.to_string(),
        filepath: format!("memory://{}", name),
        file_size: 0,
        created_at: None,
        modified_at: None,
        title: None,
        author: None,
        format_metadata: serde_json::Value::Null,
    }
}

fn process(kind: DocumentType, text: &str, params: ProcessingParams) -> UniversalOutput {
    UniversalProcessor::new()
        .process_text(kind, text, source("doc"), params)
        .unwrap()
}

fn options(max: usize, overlap: usize, min: usize, by_sentences: bool) -> SplitOptions {
    SplitOptions {
        max_chunk_size: max,
        chunk_overlap: overlap,
        split_by_sentences: by_sentences,
        min_chunk_size: min,
        preserve_paragraphs: true,
    }
}

#[test]
fn cleaning_twice_changes_nothing() {
    let messy = " \r\n Hello\u{0007}\t\u{00a0}World!\r\rSecond   line\u{2003}\n ";
    let once = clean_text(messy);
    assert_eq!(once, "Hello World! Second line");
    assert_eq!(clean_text(&once), once);
}

#[test]
fn cleaning_turns_lone_carriage_return_into_space() {
    assert_eq!(clean_text("a\rb"), "a b");
    assert_eq!(clean_text(""), "");
    assert_eq!(clean_text(" \t\n "), "");
}

#[test]
fn line_breaks_are_normalized() {
    assert_eq!(normalize_line_breaks("a\r\nb\rc\n"), "a\nb\nc\n");
}

#[test]
fn short_text_is_one_chunk_in_both_modes() {
    let splitter = DocumentSplitter::new();
    let text = "Tiny. Text here.";
    for by_sentences in [false, true] {
        let chunks = splitter.split_text(text, &options(100, 10, 50, by_sentences)).unwrap();
        assert_eq!(chunks.len(), 1);
        assert_eq!(chunks[0].content, text);
        assert_eq!(chunks[0].start_char, 0);
        assert_eq!(chunks[0].end_char, text.chars().count());
    }
    assert_eq!(chunk_text(text, 100, 10), vec![text.to_string()]);
}

#[test]
fn chunk_indices_are_contiguous() {
    let splitter = DocumentSplitter::new();
    let text = "one two three four five six seven eight nine ten eleven twelve thirteen";
    let chunks = splitter.split_text(text, &options(12, 3, 0, false)).unwrap();
    assert!(chunks.len() > 3);
    for (i, chunk) in chunks.iter().enumerate() {
        assert_eq!(chunk.chunk_index, i);
        assert_eq!(chunk.end_char - chunk.start_char, chunk.content.chars().count());
        assert_eq!(chunk.char_count, chunk.content.chars().count());
    }
}

#[test]
fn fixed_chunks_never_exceed_max() {
    let text = "abcdefghijklmnopqrstuvwxyz and some more words follow the long run";
    let chunks = chunk_text(text, 10, 3);
    for c in &chunks {
        assert!(c.chars().count() <= 10);
    }
    assert_eq!(chunks[0], "abcdefghij");
}

#[test]
fn fixed_chunks_without_spaces() {
    assert_eq!(
        chunk_text("abcdefghijklmnop", 5, 0),
        vec!["abcde", "fghij", "klmno", "p"]
    );
}

#[test]
fn oversized_sentence_stays_whole() {
    let splitter = DocumentSplitter::new();
    let long = "This sentence is clearly much longer than the limit.";
    let text = format!("Short one. {} End.", long);
    let chunks = splitter.split_text(&text, &options(20, 5, 0, true)).unwrap();
    assert!(chunks.iter().any(|c| c.content == long));
    for c in &chunks {
        assert!(c.content.chars().count() <= 20 || c.content == long);
    }
}

#[test]
fn sentence_chunks_overlap_and_track_offsets() {
    let splitter = DocumentSplitter::new();
    let text = "This is the first sentence. This is the second sentence. This is the third sentence.";
    let chunks = splitter.split_text(text, &options(50, 10, 10, true)).unwrap();
    let starts: Vec<(usize, usize)> = chunks.iter().map(|c| (c.start_char, c.end_char)).collect();
    assert_eq!(starts, vec![(0, 27), (17, 56), (46, 84)]);
    for c in &chunks {
        assert_eq!(&text[c.start_char..c.end_char], c.content);
    }
}

#[test]
fn small_sentence_chunks_are_dropped() {
    let splitter = DocumentSplitter::new();
    let text = "Aa. Bb. Cc.";
    let chunks = splitter.split_text(text, &options(5, 1, 6, true)).unwrap();
    assert!(chunks.is_empty());
}

#[test]
fn invalid_split_options_fail() {
    let splitter = DocumentSplitter::new();
    let zero = splitter.split_text("text", &options(0, 0, 0, false));
    assert!(matches!(zero, Err(DocLoaderError::Processing(_))));
    let overlap = splitter.split_text("text", &options(10, 10, 0, true));
    assert!(matches!(overlap, Err(DocLoaderError::Processing(_))));
    let empty = splitter.split_text("", &options(10, 2, 0, true)).unwrap();
    assert!(empty.is_empty());
}

#[test]
fn processing_is_deterministic() {
    let text = "Le chat est sur la table. The cat is on the table. ".repeat(30);
    let params = || ProcessingParams::default().with_chunk_size(120).with_chunk_overlap(20).with_language_detection(true);
    let a = process(DocumentType::TXT, &text, params());
    let b = process(DocumentType::TXT, &text, params());
    assert_eq!(a.chunks.len(), b.chunks.len());
    for (x, y) in a.chunks.iter().zip(b.chunks.iter()) {
        assert_eq!(x.id, y.id);
        assert_eq!(x.content, y.content);
        assert_eq!(x.metadata.content_hash, y.metadata.content_hash);
        assert_eq!(x.metadata.language, y.metadata.language);
        assert_eq!(x.position.start_offset, y.position.start_offset);
    }
    assert_eq!(a.processing_info.total_content_size, b.processing_info.total_content_size);
}

#[test]
fn language_detection_cases() {
    assert_eq!(detect_language("Bonjour le monde, ceci est un test"), Some("fr".to_string()));
    assert_eq!(detect_language("Hello the world, this is a test"), Some("en".to_string()));
    assert_eq!(detect_language("1234 5678"), None);
    assert_eq!(detect_language("LA maison AND the"), Some("fr".to_string()));
    assert_eq!(detect_language("WITH love"), Some("en".to_string()));
}

#[test]
fn first_fixed_chunk_ends_on_a_word() {
    let chunks = chunk_text("Hello world this is a test", 10, 2);
    assert_eq!(chunks[0], "Hello");
    assert_eq!(chunks, vec!["Hello", "lo world", "ld this", "is is a", " a test"]);
}

#[test]
fn csv_scenario_gives_one_chunk() {
    let processor = CsvProcessor::new();
    let (rows, headers) = processor
        .parse_csv_content("name,age,city\nJohn,30,New York\nJane,25,Boston")
        .unwrap();
    assert_eq!(headers, vec!["name", "age", "city"]);
    assert_eq!(rows.len(), 2);
    let text = processor.csv_to_text(&rows, &headers);
    assert_eq!(
        text,
        "Headers: name, age, city\n\nRow 1: name=\"John\", age=\"30\", city=\"New York\"\nRow 2: name=\"Jane\", age=\"25\", city=\"Boston\"\n"
    );
    let output = process(DocumentType::CSV, &text, ProcessingParams::default());
    assert_eq!(output.chunks.len(), 1);
    assert!(output.chunks[0].content.starts_with("Headers: name, age, city"));
    assert_eq!(output.chunks[0].id, "csv_chunk_0");
    assert!(output.document_metadata.text_statistics.word_count > 0);
    assert_eq!(output.document_metadata.text_statistics.detected_language, None);
    assert_eq!(output.chunks[0].metadata.language, None);
}

#[test]
fn csv_rows_longer_than_headers_are_rejected() {
    let processor = CsvProcessor::new();
    let result = processor.parse_csv_content("a,b\n1,2,3\n");
    match result {
        Err(DocLoaderError::Processing(m)) => assert!(m.starts_with("Failed to read CSV record: ")),
        other => panic!("unexpected {:?}", other),
    }
}

#[test]
fn empty_text_gives_no_chunks() {
    let output = process(DocumentType::TXT, "", ProcessingParams::default());
    assert!(output.chunks.is_empty());
    assert_eq!(output.processing_info.total_chunks, 0);
    assert_eq!(output.processing_info.total_content_size, 0);
}

#[test]
fn invalid_params_are_rejected() {
    let r = UniversalProcessor::new().process_text(
        DocumentType::TXT,
        "text",
        source("a.txt"),
        ProcessingParams::default().with_chunk_size(0),
    );
    assert!(matches!(r, Err(DocLoaderError::Processing(_))));
    let r = UniversalProcessor::new().process_text(
        DocumentType::TXT,
        "text",
        source("a.txt"),
        ProcessingParams::default().with_chunk_size(10).with_chunk_overlap(10),
    );
    assert!(matches!(r, Err(DocLoaderError::Processing(_))));
}

#[test]
fn output_carries_provenance() {
    let text = "alpha beta gamma delta epsilon zeta eta theta iota kappa";
    let output = process(
        DocumentType::DOCX,
        text,
        ProcessingParams::default().with_chunk_size(20).with_chunk_overlap(5),
    );
    assert_eq!(output.processing_info.processor, "DocxProcessor");
    assert_eq!(output.processing_info.processor_version, "1.0.0");
    assert_eq!(output.processing_info.total_chunks, output.chunks.len());
    let sum: usize = output.chunks.iter().map(|c| c.metadata.size).sum();
    assert_eq!(output.processing_info.total_content_size, sum);
    assert_eq!(output.chunks[1].id, "docx_chunk_1");
    assert_eq!(output.chunks[0].metadata.confidence_percent, Some(80));
    assert_eq!(output.document_metadata.document_type, DocumentType::DOCX);
    assert_eq!(output.processing_info.processing_params.max_chunk_size, 20);
}

#[test]
fn token_estimate_rounds() {
    assert_eq!(tokens_for_words(0), 0);
    assert_eq!(tokens_for_words(1), 1);
    assert_eq!(tokens_for_words(2), 3);
    assert_eq!(tokens_for_words(6), 8);
    assert_eq!(tokens_for_words(100), 133);
    assert_eq!(estimate_tokens("Hello world, this is a test!"), 8);
}

#[test]
fn text_metadata_counts() {
    let m = extract_text_metadata("héllo world\nsecond line\n");
    assert_eq!(m.character_count, 24);
    assert_eq!(m.word_count, 4);
    assert_eq!(m.line_count, 2);
    assert_eq!(m.estimated_tokens, 5);
    assert_eq!(m.detected_language, None);
    assert_eq!(count_words(""), 0);
}

#[test]
fn content_hash_is_stable_hex() {
    let a = content_hash("some content");
    assert_eq!(a, content_hash("some content"));
    assert!(!a.is_empty());
    assert!(a.chars().all(|c| c.is_ascii_hexdigit() && !c.is_ascii_uppercase()));
    assert_ne!(a, content_hash("other content"));
}

#[test]
fn extension_case_is_ignored() {
    assert_eq!(DocumentType::from_extension("PDF"), Some(DocumentType::PDF));
    assert_eq!(DocumentType::from_extension("Docx"), Some(DocumentType::DOCX));
    assert_eq!(DocumentType::from_lowercase_extension("PDF"), None);
}

#[test]
fn output_format_names() {
    let cli = Cli { command: None, verbose: false, output_dir: ".".to_string() };
    assert_eq!(cli.parse_output_format("JSON").unwrap(), OutputFormat::Json);
    assert_eq!(cli.parse_output_format("json-pretty").unwrap(), OutputFormat::JsonPretty);
    assert_eq!(cli.parse_output_format("yaml").unwrap(), OutputFormat::Yaml);
    match cli.parse_output_format("xml") {
        Err(DocLoaderError::InvalidFormat(m)) => assert_eq!(m, "xml"),
        other => panic!("unexpected {:?}", other),
    }
}

#[test]
fn text_content_is_decoded() {
    let processor = TxtProcessor::new();
    assert_eq!(processor.decode_content(b"Hello\r\nworld\r"), "Hello\nworld\n");
    assert_eq!(processor.decode_content(b"a\xffb"), "a\u{fffd}b");
}

#[test]
fn broken_pdf_is_a_parsing_error() {
    let extractor = TextExtractor::new();
    let r = extractor.extract_from_bytes(b"this is not a pdf");
    assert!(matches!(r, Err(DocLoaderError::PdfParsing(_))));
}

#[test]
fn standard_pdf_fields() {
    let m = MetadataExtractor::new();
    assert!(m.is_standard_field(b"Title"));
    assert!(m.is_standard_field(b"ModDate"));
    assert!(!m.is_standard_field(b"Custom"));
    assert!(!m.is_standard_field(b"title"));
}

#[test]
fn error_messages_name_their_kind() {
    let e = DocLoaderError::Processing("bad".to_string());
    assert_eq!(e.to_string(), "Processing error: bad");
}

#[test]
fn json_paths_and_depth_limit() {
    let processor = doc_loader::JsonProcessor::new();
    let value = JsonNode::Object(vec![
        ("a".to_string(), JsonNode::Array(vec![JsonNode::Bool(true), JsonNode::Null])),
        ("b".to_string(), JsonNode::Object(vec![("c".to_string(), JsonNode::Number("1.5".to_string()))])),
    ]);
    assert_eq!(
        processor.json_to_text(&value, "", 0),
        "={a=[a[0]=true, a[1]=null], b={b.c=1.5}}"
    );
    let mut deep = JsonNode::Number("7".to_string());
    for _ in 0..12 {
        deep = JsonNode::Array(vec![deep]);
    }
    let text = processor.json_to_text(&deep, "x", 0);
    assert!(text.contains("=[MAX_DEPTH_REACHED]"));
    assert!(!text.contains("=7"));
}

#[test]
fn summary_totals() {
    let text = "alpha beta gamma delta epsilon zeta eta theta iota kappa";
    let output = process(
        DocumentType::TXT,
        text,
        ProcessingParams::default().with_chunk_size(20).with_chunk_overlap(5),
    );
    let summary = output.get_summary();
    assert_eq!(summary.chunk_count, output.chunks.len());
    let words: usize = output.chunks.iter().map(|c| c.metadata.word_count).sum();
    let chars: usize = output.chunks.iter().map(|c| c.metadata.size).sum();
    assert_eq!(summary.total_words, words);
    assert_eq!(output.total_word_count(), words);
    assert_eq!(summary.total_chars, chars);
    assert_eq!(summary.avg_chunk_size, chars / output.chunks.len());
    assert_eq!(summary.source_file, "doc");
}

#[test]
fn empty_line_runs_collapse() {
    assert_eq!(doc_loader::remove_empty_lines("a\n\n \n\t\nb\nc"), "a\n\nb\nc");
}

#[test]
fn text_chunks_carry_line_positions() {
    let text = "one\ntwo\nthree four five six seven";
    let params = ProcessingParams::default()
        .with_text_cleaning(false)
        .with_chunk_size(10)
        .with_chunk_overlap(0);
    let output = process(DocumentType::TXT, text, params);
    assert_eq!(output.chunks[0].content, "one\ntwo\nth");
    assert_eq!(output.chunks[0].position.line, Some(0));
    assert_eq!(output.chunks[0].metadata.line_count, 3);
    assert_eq!(output.chunks[1].position.line, Some(3));
    let csv = process(DocumentType::CSV, text, ProcessingParams::default().with_chunk_size(10).with_chunk_overlap(0));
    assert_eq!(csv.chunks[0].position.line, None);
    assert_eq!(csv.chunks[0].position.start_offset, Some(0));
}

#[test]
fn json_metadata_of_array_and_object() {
    let processor = doc_loader::JsonProcessor::new();
    let array = JsonNode::Array(vec![
        JsonNode::Number("1".to_string()),
        JsonNode::Number("2".to_string()),
        JsonNode::Str("x".to_string()),
        JsonNode::Array(vec![JsonNode::Object(vec![])]),
    ]);
    let m = processor.extract_json_metadata(&array);
    assert_eq!(m.value_type, "array");
    assert_eq!(m.length, Some(4));
    let c = m.element_types.unwrap();
    assert_eq!((c.number, c.string, c.array, c.object, c.null, c.boolean), (2, 1, 1, 0, 0, 0));
    assert_eq!(m.max_depth, 3);
    assert!(m.keys.is_none());
    let object = JsonNode::Object(vec![
        ("k".to_string(), JsonNode::Null),
        ("v".to_string(), JsonNode::Bool(false)),
    ]);
    let m = processor.extract_json_metadata(&object);
    assert_eq!(m.value_type, "object");
    assert_eq!(m.keys, Some(vec!["k".to_string(), "v".to_string()]));
    assert_eq!(m.max_depth, 1);
    assert_eq!(processor.calculate_depth(&JsonNode::Null), 0);
}

#[test]
fn broken_pdf_metadata_is_a_parsing_error() {
    let r = MetadataExtractor::new().extract_from_bytes(b"%PDF-garbage");
    assert!(matches!(r, Err(DocLoaderError::PdfParsing(_))));
}

fn minimal_pdf(text: &str, title: &str) -> Vec<u8> {
    let content = format!("BT /F1 24 Tf 72 700 Td ({}) Tj ET", text);
    let objects = vec![
        "<< /Type /Catalog /Pages 2 0 R >>".to_string(),
        "<< /Type /Pages /Kids [3 0 R] /Count 1 >>".to_string(),
        "<< /Type /Page /Parent 2 0 R /MediaBox [0 0 612 792] /Contents 4 0 R /Resources << /Font << /F1 5 0 R >> >> >>".to_string(),
        format!("<< /Length {} >>\nstream\n{}\nendstream", content.len(), content),
        "<< /Type /Font /Subtype /Type1 /BaseFont /Helvetica >>".to_string(),
        format!("<< /Title ({}) /Author (Someone) /Custom (Value) >>", title),
    ];
    let mut out = b"%PDF-1.4\n".to_vec();
    let mut offsets = Vec::new();
    for (i, obj) in objects.iter().enumerate() {
        offsets.push(out.len());
        out.extend(format!("{} 0 obj\n{}\nendobj\n", i + 1, obj).into_bytes());
    }
    let xref = out.len();
    out.extend(format!("xref\n0 {}\n0000000000 65535 f \n", objects.len() + 1).into_bytes());
    for off in offsets {
        out.extend(format!("{:010} 00000 n \n", off).into_bytes());
    }
    out.extend(
        format!(
            "trailer\n<< /Size {} /Root 1 0 R /Info 6 0 R >>\nstartxref\n{}\n%%EOF\n",
            objects.len() + 1,
            xref
        )
        .into_bytes(),
    );
    out
}

#[test]
fn pdf_text_and_metadata_are_read() {
    let pdf = minimal_pdf("Hello   PDF   World", "My Title");
    let text = TextExtractor::new().extract_from_bytes(&pdf).unwrap();
    assert_eq!(text, "Hello PDF World");
    let m = MetadataExtractor::new().extract_from_bytes(&pdf).unwrap();
    assert_eq!(m.title, Some("My Title".to_string()));
    assert_eq!(m.author, Some("Someone".to_string()));
    assert_eq!(m.subject, None);
    assert_eq!(m.page_count, 1);
    assert_eq!(m.pdf_version, Some("1.4".to_string()));
    assert_eq!(m.custom_properties, vec![("Custom".to_string(), "Value".to_string())]);
}

#[test]
fn in_memory_content_is_described() {
    let output = TxtProcessor::new()
        .process_content(b"Hello\r\nworld", "note.txt", ProcessingParams::default())
        .unwrap();
    assert_eq!(output.document_metadata.filename, "note.txt");
    assert_eq!(output.document_metadata.filepath, "memory://note.txt");
    assert_eq!(output.document_metadata.file_size, 12);
    assert!(output.document_metadata.created_at.is_some());
    assert_eq!(output.document_metadata.created_at, output.document_metadata.modified_at);
    assert_eq!(output.chunks[0].content, "Hello world");
    let bad = CsvProcessor::new().process_content(b"a,b\n1,2,3\n", "t.csv", ProcessingParams::default());
    assert!(matches!(bad, Err(DocLoaderError::Processing(_))));
}

#[test]
fn docx_text_gives_the_size() {
    let (text, meta) = doc_loader::DocxProcessor::new().extract_from_docx_content(b"12345").unwrap();
    assert!(text.contains("File size: 5 bytes"));
    assert_eq!(meta.word_count, 0);
    assert!(meta.title.is_none());
}

#[test]
fn empty_lines_keep_surrounding_spaces() {
    assert_eq!(doc_loader::remove_empty_lines(" x \n \n y"), " x \n\n y");
    assert_eq!(doc_loader::remove_empty_lines("a\nb"), "a\nb");
    assert_eq!(doc_loader::remove_empty_lines("a\n\n\n\nb\n \t\n"), "a\n\nb\n\n");
}

#[test]
fn output_paths() {
    assert_eq!(doc_loader::cli::output_file_name("report", "yaml"), "report_processed.yaml");
    assert_eq!(doc_loader::cli::output_file_name("report", "json-pretty"), "report_processed.json");
    let cli = Cli { command: None, verbose: false, output_dir: "out".to_string() };
    assert_eq!(
        cli.generate_output_path("docs/report.pdf", "csv"),
        Some("out/report_processed.csv".to_string())
    );
    assert_eq!(cli.generate_output_path("", "json"), None);
}

#[test]
fn text_chunk_offsets_stay_in_the_text() {
    let text = "word ".repeat(40);
    let chunks = DocumentSplitter::new().split_text(&text, &options(30, 5, 0, false)).unwrap();
    for c in &chunks {
        assert!(c.start_char <= c.end_char && c.end_char <= text.chars().count());
    }
}
