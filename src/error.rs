//! Errors of the library.
use vstd::prelude::*;

verus! {

/// What can go wrong while loading or processing a document.
#[derive(Debug)]
pub enum DocLoaderError {
    UnsupportedFormat(String),
    PdfParsing(String),
    Io(String),
    Json(String),
    TextExtraction(String),
    MetadataExtraction(String),
    DocumentSplitting(String),
    InvalidFormat(String),
    FileNotFound(String),
    Processing(String),
}

impl DocLoaderError {
    /// The message of the error, a fixed prefix that names its kind and then its detail.
    pub fn to_string(&self) -> (r: String)
        ensures
            r@ == self.prefix_view() + self.detail_view(),
    {
        let mut r = self.prefix().to_owned();
        r.append(self.detail().as_str());
        r
    }

    /// The prefix that names the kind of the error.
    pub fn prefix(&self) -> (r: &'static str)
        ensures
            r@ == self.prefix_view(),
    {
        match self {
            DocLoaderError::UnsupportedFormat(_) => "Unsupported file format: ",
            DocLoaderError::PdfParsing(_) => "PDF parsing error: ",
            DocLoaderError::Io(_) => "IO error: ",
            DocLoaderError::Json(_) => "JSON serialization error: ",
            DocLoaderError::TextExtraction(_) => "Text extraction error: ",
            DocLoaderError::MetadataExtraction(_) => "Metadata extraction error: ",
            DocLoaderError::DocumentSplitting(_) => "Document splitting error: ",
            DocLoaderError::InvalidFormat(_) => "Invalid file format: ",
            DocLoaderError::FileNotFound(_) => "File not found: ",
            DocLoaderError::Processing(_) => "Processing error: ",
        }
    }

    /// The detail that the error carries.
    pub fn detail(&self) -> (r: &String)
        ensures
            r@ == self.detail_view(),
    {
        match self {
            DocLoaderError::UnsupportedFormat(m) => m,
            DocLoaderError::PdfParsing(m) => m,
            DocLoaderError::Io(m) => m,
            DocLoaderError::Json(m) => m,
            DocLoaderError::TextExtraction(m) => m,
            DocLoaderError::MetadataExtraction(m) => m,
            DocLoaderError::DocumentSplitting(m) => m,
            DocLoaderError::InvalidFormat(m) => m,
            DocLoaderError::FileNotFound(m) => m,
            DocLoaderError::Processing(m) => m,
        }
    }

    pub open spec fn prefix_view(&self) -> Seq<char> {
        match self {
            DocLoaderError::UnsupportedFormat(_) => "Unsupported file format: "@,
            DocLoaderError::PdfParsing(_) => "PDF parsing error: "@,
            DocLoaderError::Io(_) => "IO error: "@,
            DocLoaderError::Json(_) => "JSON serialization error: "@,
            DocLoaderError::TextExtraction(_) => "Text extraction error: "@,
            DocLoaderError::MetadataExtraction(_) => "Metadata extraction error: "@,
            DocLoaderError::DocumentSplitting(_) => "Document splitting error: "@,
            DocLoaderError::InvalidFormat(_) => "Invalid file format: "@,
            DocLoaderError::FileNotFound(_) => "File not found: "@,
            DocLoaderError::Processing(_) => "Processing error: "@,
        }
    }

    pub open spec fn detail_view(&self) -> Seq<char> {
        match self {
            DocLoaderError::UnsupportedFormat(m) => m@,
            DocLoaderError::PdfParsing(m) => m@,
            DocLoaderError::Io(m) => m@,
            DocLoaderError::Json(m) => m@,
            DocLoaderError::TextExtraction(m) => m@,
            DocLoaderError::MetadataExtraction(m) => m@,
            DocLoaderError::DocumentSplitting(m) => m@,
            DocLoaderError::InvalidFormat(m) => m@,
            DocLoaderError::FileNotFound(m) => m@,
            DocLoaderError::Processing(m) => m@,
        }
    }
}

} // verus!
