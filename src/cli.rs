//! The command-line model: commands, options and output formats.
use vstd::prelude::*;
use crate::annotate::{lowercase, lowercase_of};
use crate::error::DocLoaderError;
use crate::text::same_text;

verus! {

/// How processed output is written.
#[derive(Debug, Clone, Copy, PartialEq, Eq, Structural)]
pub enum OutputFormat {
    Json,
    JsonPretty,
    Yaml,
    Csv,
}

/// The output format named by a lower-case name.
pub open spec fn output_format_of(name: Seq<char>) -> Option<OutputFormat> {
    if name == "json"@ {
        Some(OutputFormat::Json)
    } else if name == "json-pretty"@ {
        Some(OutputFormat::JsonPretty)
    } else if name == "yaml"@ {
        Some(OutputFormat::Yaml)
    } else if name == "csv"@ {
        Some(OutputFormat::Csv)
    } else {
        None
    }
}

impl OutputFormat {
    /// The output format named by a name already in lower case.
    pub fn from_lowercase_name(name: &str) -> (r: Option<OutputFormat>)
        ensures
            r == output_format_of(name@),
    {
        if same_text(name, "json") {
            Some(OutputFormat::Json)
        } else if same_text(name, "json-pretty") {
            Some(OutputFormat::JsonPretty)
        } else if same_text(name, "yaml") {
            Some(OutputFormat::Yaml)
        } else if same_text(name, "csv") {
            Some(OutputFormat::Csv)
        } else {
            None
        }
    }
}

/// What the command line asks for.
#[derive(Debug, Clone)]
pub enum Commands {
    /// Extract text from files.
    Extract {
        files: Vec<String>,
        format: String,
        max_chunk_size: usize,
        chunk_overlap: usize,
        continue_on_error: bool,
    },
    /// Interactive menu.
    Interactive,
    /// Process the files of a directory.
    Batch { directory: String, pattern: String, max_chunk_size: usize, recursive: bool },
    /// Show information about a file.
    Info { file: String },
}

/// The command line.
#[derive(Debug, Clone)]
pub struct Cli {
    pub command: Option<Commands>,
    pub verbose: bool,
    pub output_dir: String,
}

/// The extension of output files written in `format`.
pub open spec fn output_extension_of(format: Seq<char>) -> Seq<char> {
    if format == "yaml"@ {
        "yaml"@
    } else if format == "csv"@ {
        "csv"@
    } else {
        "json"@
    }
}

/// The name of the output file for an input whose file stem is `stem`:
/// `<stem>_processed.<ext>`, the extension following the format.
pub fn output_file_name(stem: &str, format: &str) -> (r: String)
    ensures
        r@ == stem@ + "_processed."@ + output_extension_of(format@),
{
    let mut name = stem.to_owned();
    name.append("_processed.");
    if same_text(format, "yaml") {
        name.append("yaml");
    } else if same_text(format, "csv") {
        name.append("csv");
    } else {
        name.append("json");
    }
    name
}

/// Relies on `std::path::Path::file_stem`, read as lossy UTF-8. What it returns
/// follows the platform's path rules, so nothing is promised of it.
#[verifier::external_body]
fn path_file_stem(path: &str) -> Option<String> {
    std::path::Path::new(path).file_stem().map(|s| s.to_string_lossy().into_owned())
}

/// Relies on `std::path::Path::join`, read as lossy UTF-8. What it returns
/// follows the platform's path rules, so nothing is promised of it.
#[verifier::external_body]
fn path_join(dir: &str, name: &str) -> String {
    std::path::Path::new(dir).join(name).to_string_lossy().into_owned()
}

impl Cli {
    /// The path of the output file for `input_file` in the output directory:
    /// the directory joined with `output_file_name` of the input's file stem.
    /// `None` when the input names no file.
    pub fn generate_output_path(&self, input_file: &str, format: &str) -> Option<String> {
        match path_file_stem(input_file) {
            Some(stem) => {
                let name = output_file_name(stem.as_str(), format);
                Some(path_join(self.output_dir.as_str(), name.as_str()))
            },
            None => None,
        }
    }

    /// The output format named by `format`, in any case; an unknown name is an
    /// invalid-format error that carries the name.
    pub fn parse_output_format(&self, format: &str) -> (r: Result<OutputFormat, DocLoaderError>)
        ensures
            match output_format_of(lowercase_of(format@)) {
                Some(f) => r == Ok::<OutputFormat, DocLoaderError>(f),
                None => r is Err && r->Err_0 is InvalidFormat && r->Err_0.detail_view()
                    == format@,
            },
    {
        let lower = lowercase(format);
        match OutputFormat::from_lowercase_name(lower.as_str()) {
            Some(f) => Ok(f),
            None => Err(DocLoaderError::InvalidFormat(format.to_owned())),
        }
    }
}

} // verus!
