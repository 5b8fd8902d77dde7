use doc_loader::json::JsonNode;
use doc_loader::{
    chunk_text, clean_text, count_words, detect_language, CsvProcessor, DocLoaderError,
    DocumentSplitter, DocumentType, DocxProcessor, JsonProcessor, PdfProcessor,
    ProcessingParams, SplitOptions, TxtProcessor, UniversalProcessor,
};

#[test]
fn test_universal_processor_creation() {
    let _processor = UniversalProcessor::new();
    assert!(!UniversalProcessor::supported_extensions().is_empty());
}

#[test]
fn test_supported_extensions() {
    let extensions = UniversalProcessor::supported_extensions();
    assert!(extensions.contains(&"pdf"));
    assert!(extensions.contains(&"txt"));
    assert!(extensions.contains(&"json"));
    assert!(extensions.contains(&"csv"));
    assert!(extensions.contains(&"docx"));
}

#[test]
fn test_processing_params_default() {
    let params = ProcessingParams::default();
    assert_eq!(params.max_chunk_size, 1000);
    assert_eq!(params.chunk_overlap, 100);
    assert!(params.text_cleaning);
    assert!(!params.language_detection);
}

#[test]
fn test_document_type_from_extension() {
    assert_eq!(DocumentType::from_extension("pdf"), Some(DocumentType::PDF));
    assert_eq!(DocumentType::from_extension("txt"), Some(DocumentType::TXT));
    assert_eq!(DocumentType::from_extension("json"), Some(DocumentType::JSON));
    assert_eq!(DocumentType::from_extension("csv"), Some(DocumentType::CSV));
    assert_eq!(DocumentType::from_extension("docx"), Some(DocumentType::DOCX));
    assert_eq!(DocumentType::from_extension("unknown"), None);
}

#[test]
fn test_document_type_to_string() {
    assert_eq!(DocumentType::PDF.to_string(), "PDF");
    assert_eq!(DocumentType::TXT.to_string(), "TXT");
    assert_eq!(DocumentType::JSON.to_string(), "JSON");
    assert_eq!(DocumentType::CSV.to_string(), "CSV");
    assert_eq!(DocumentType::DOCX.to_string(), "DOCX");
}

#[test]
fn lib_test_text_cleaning() {
    let dirty_text = "  Hello\t\tWorld  \n\n  Test  ";
    let cleaned = clean_text(dirty_text);
    assert_eq!(cleaned, "Hello World Test");
}

#[test]
fn test_text_chunking() {
    let text = "This is a test document with multiple sentences. It should be split into chunks properly.";
    let chunks = chunk_text(text, 50, 10);
    assert!(chunks.len() > 1);
    assert!(chunks[0].len() <= 50);
}

#[test]
fn test_error_handling() {
    let error = DocLoaderError::UnsupportedFormat("test".to_string());
    assert!(error.to_string().contains("Unsupported file format"));

    let error = DocLoaderError::FileNotFound("test.txt".to_string());
    assert!(error.to_string().contains("File not found"));
}

#[test]
fn test_csv_processor_creation() {
    let processor = CsvProcessor::new();
    assert_eq!(processor.supported_type().to_string(), "CSV");
}

#[test]
fn test_csv_to_text() {
    let processor = CsvProcessor::new();
    let headers = vec!["name".to_string(), "age".to_string(), "city".to_string()];
    let rows = vec![
        vec!["John".to_string(), "30".to_string(), "New York".to_string()],
        vec!["Jane".to_string(), "25".to_string(), "Boston".to_string()],
    ];

    let text = processor.csv_to_text(&rows, &headers);
    assert!(text.contains("Headers: name, age, city"));
    assert!(text.contains("name=\"John\""));
    assert!(text.contains("age=\"30\""));
}

#[test]
fn test_docx_processor_creation() {
    let processor = DocxProcessor::new();
    assert_eq!(processor.supported_type().to_string(), "DOCX");
}

#[test]
fn test_json_processor_creation() {
    let processor = JsonProcessor::new();
    assert_eq!(processor.supported_type().to_string(), "JSON");
}

#[test]
fn test_pdf_processor_creation() {
    let processor = PdfProcessor::new();
    assert_eq!(processor.supported_type().to_string(), "PDF");
}

#[test]
fn test_txt_processor_creation() {
    let processor = TxtProcessor::new();
    assert_eq!(processor.supported_type().to_string(), "TXT");
}

#[test]
fn test_text_splitting() {
    let splitter = DocumentSplitter::new();
    let text = "This is the first sentence. This is the second sentence. This is the third sentence.";
    let options = SplitOptions {
        max_chunk_size: 50,
        chunk_overlap: 10,
        split_by_sentences: true,
        min_chunk_size: 10,
        preserve_paragraphs: true,
    };

    let chunks = splitter.split_text(text, &options).unwrap();
    assert!(!chunks.is_empty());

    for chunk in &chunks {
        assert!(chunk.content.len() <= options.max_chunk_size);
        assert!(chunk.word_count > 0);
    }
}

#[test]
fn test_split_options_default() {
    let options = SplitOptions::default();
    assert_eq!(options.max_chunk_size, 1000);
    assert_eq!(options.chunk_overlap, 100);
    assert!(options.split_by_sentences);
}

#[test]
fn test_clean_text() {
    let dirty_text = "  Hello\t\tWorld  \n\n  ";
    let cleaned = clean_text(dirty_text);
    assert_eq!(cleaned, "Hello World");
}

#[test]
fn test_chunk_text() {
    let text = "Hello world this is a test";
    let chunks = chunk_text(text, 10, 2);
    assert!(!chunks.is_empty());
    assert!(chunks[0].len() <= 10);
}

#[test]
fn test_word_count() {
    let text = "Hello world, this is a test!";
    assert_eq!(count_words(text), 6);
}

#[test]
fn test_language_detection() {
    let french_text = "Bonjour le monde, ceci est un test";
    let english_text = "Hello the world, this is a test";

    assert_eq!(detect_language(french_text), Some("fr".to_string()));
    assert_eq!(detect_language(english_text), Some("en".to_string()));
}

#[test]
fn test_json_to_text() {
    let processor = JsonProcessor::new();
    let json_value = JsonNode::Object(vec![
        ("name".to_string(), JsonNode::Str("John".to_string())),
        ("age".to_string(), JsonNode::Number("30".to_string())),
        ("city".to_string(), JsonNode::Str("New York".to_string())),
    ]);

    let text = processor.json_to_text(&json_value, "", 0);
    assert!(text.contains("name=\"John\""));
    assert!(text.contains("age=30"));
    assert!(text.contains("city=\"New York\""));
}

#[test]
fn test_metadata_creation() {
    let metadata = doc_loader::metadata::DocumentMetadata {
        title: Some("Test Document".to_string()),
        author: Some("Test Author".to_string()),
        subject: None,
        keywords: None,
        creator: None,
        producer: None,
        creation_date: None,
        modification_date: None,
        page_count: 5,
        file_size: 1024,
        pdf_version: Some("1.4".to_string()),
        custom_properties: Vec::new(),
    };

    assert_eq!(metadata.title, Some("Test Document".to_string()));
    assert_eq!(metadata.page_count, 5);
}

#[test]
fn csv_test_process_content() {
    let processor = CsvProcessor::new();
    let csv_content = "name,age,city\nJohn,30,New York\nJane,25,Boston";
    let content = csv_content.as_bytes();
    let params = ProcessingParams::default();

    let result = processor.process_content(content, "test.csv", params);
    assert!(result.is_ok());

    let output = result.unwrap();
    assert_eq!(output.document_metadata.document_type.to_string(), "CSV");
    assert!(!output.chunks.is_empty());
}

#[test]
fn docx_test_process_content() {
    let processor = DocxProcessor::new();
    let content = b"fake docx content";
    let params = ProcessingParams::default();

    let result = processor.process_content(content, "test.docx", params);
    assert!(result.is_ok());

    let output = result.unwrap();
    assert_eq!(output.document_metadata.document_type.to_string(), "DOCX");
    assert!(!output.chunks.is_empty());
}

#[test]
fn txt_test_process_content() {
    let processor = TxtProcessor::new();
    let content = b"Hello world\nThis is a test file.";
    let params = ProcessingParams::default();

    let result = processor.process_content(content, "test.txt", params);
    assert!(result.is_ok());

    let output = result.unwrap();
    assert_eq!(output.document_metadata.document_type.to_string(), "TXT");
    assert!(!output.chunks.is_empty());
}
