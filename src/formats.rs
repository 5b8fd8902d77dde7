//! Turning each format's content into raw text: CSV records rendered as
//! labelled rows, UTF-8 text decoded, PDF pages extracted.
use vstd::prelude::*;
use crate::digits::{decimal_digits, decimal_string};
use crate::error::DocLoaderError;
use crate::processors::{CsvProcessor, TxtProcessor};
use crate::text::{
    chars_of, collapsed_white_space, line_breaks_normalized, normalize_line_breaks, substring_of,
    trimmed,
};

verus! {

/// What the csv crate reads from `content` with a header row: the header
/// fields and the fields of each record, or, on failure, whether reading the
/// header failed and the error's message.
pub uninterp spec fn csv_read_of(content: Seq<char>) -> Result<
    (Seq<Seq<char>>, Seq<Seq<Seq<char>>>),
    (bool, Seq<char>),
>;

/// The text that lossy UTF-8 decoding gives for `bytes`.
pub uninterp spec fn utf8_decoding_of(bytes: Seq<u8>) -> Seq<char>;

/// The text of each page of a PDF (`None` where a page's text could not be
/// extracted), in page order, or the message of the error that loading gave.
pub uninterp spec fn pdf_page_texts_of(bytes: Seq<u8>) -> Result<Seq<Option<Seq<char>>>, Seq<char>>;

pub open spec fn strings_view(v: Seq<String>) -> Seq<Seq<char>> {
    v.map_values(|s: String| s@)
}

pub open spec fn records_view(v: Seq<Vec<String>>) -> Seq<Seq<Seq<char>>> {
    v.map_values(|r: Vec<String>| strings_view(r@))
}

pub open spec fn page_texts_view(v: Seq<Option<String>>) -> Seq<Option<Seq<char>>> {
    v.map_values(|p: Option<String>| match p {
        Some(s) => Some(s@),
        None => None,
    })
}

/// Relies on the csv crate's `Reader` with `has_headers(true)`: `headers()` gives
/// the first record and `records()` the others; each failure is a `csv::Error`,
/// whose message is kept. The outcome depends on the content alone.
#[verifier::external_body]
fn read_csv(content: &str) -> (r: Result<(Vec<String>, Vec<Vec<String>>), (bool, String)>)
    ensures
        match r {
            Ok((h, rows)) => csv_read_of(content@) == Ok::<_, (bool, Seq<char>)>(
                (strings_view(h@), records_view(rows@)),
            ),
            Err((at_headers, m)) => csv_read_of(content@) == Err::<
                (Seq<Seq<char>>, Seq<Seq<Seq<char>>>),
                _,
            >((at_headers, m@)),
        },
{
    let mut reader = csv::ReaderBuilder::new().has_headers(true).from_reader(content.as_bytes());
    let headers = match reader.headers() {
        Ok(h) => h.iter().map(String::from).collect(),
        Err(e) => return Err((true, e.to_string())),
    };
    let mut rows = Vec::new();
    for record in reader.records() {
        match record {
            Ok(r) => rows.push(r.iter().map(String::from).collect()),
            Err(e) => return Err((false, e.to_string())),
        }
    }
    Ok((headers, rows))
}

/// Relies on `encoding_rs::UTF_8.decode`: a leading byte-order mark is honoured
/// and removed, malformed sequences become U+FFFD; the text depends on the
/// bytes alone, and no bytes give no text.
#[verifier::external_body]
fn decode_utf8(bytes: &[u8]) -> (r: String)
    ensures
        r@ == utf8_decoding_of(bytes@),
        bytes@.len() == 0 ==> r@.len() == 0,
{
    encoding_rs::UTF_8.decode(bytes).0.into_owned()
}

/// Relies on `lopdf::Document::load_mem`, `get_pages` (page numbers in
/// ascending order) and `extract_text` on each page. lopdf is built without its
/// `rayon` feature, so objects are loaded one after another in cross-reference
/// order and the outcome depends on the bytes alone.
#[verifier::external_body]
fn pdf_page_texts(bytes: &[u8]) -> (r: Result<Vec<Option<String>>, String>)
    ensures
        match r {
            Ok(pages) => pdf_page_texts_of(bytes@) == Ok::<_, Seq<char>>(page_texts_view(pages@)),
            Err(m) => pdf_page_texts_of(bytes@) == Err::<Seq<Option<Seq<char>>>, _>(m@),
        },
{
    let doc = lopdf::Document::load_mem(bytes).map_err(|e| e.to_string())?;
    let mut pages = Vec::new();
    for number in doc.get_pages().keys() {
        pages.push(doc.extract_text(&[*number]).ok());
    }
    Ok(pages)
}

/// `v` joined with `sep` between consecutive items, over the first `n` items.
pub open spec fn joined_prefix(v: Seq<Seq<char>>, sep: Seq<char>, n: int) -> Seq<char>
    decreases n,
{
    if n <= 0 {
        seq![]
    } else if n == 1 {
        v[0]
    } else {
        joined_prefix(v, sep, n - 1) + sep + v[n - 1]
    }
}

pub open spec fn joined(v: Seq<Seq<char>>, sep: Seq<char>) -> Seq<char> {
    joined_prefix(v, sep, v.len() as int)
}

/// One labelled cell: `header="value"`, with `unknown` past the last header.
pub open spec fn csv_cell(headers: Seq<Seq<char>>, col: int, value: Seq<char>) -> Seq<char> {
    (if col < headers.len() {
        headers[col]
    } else {
        "unknown"@
    }) + "=\""@ + value + "\""@
}

pub open spec fn csv_cells_prefix(headers: Seq<Seq<char>>, row: Seq<Seq<char>>, n: int) -> Seq<char>
    decreases n,
{
    if n <= 0 {
        seq![]
    } else if n == 1 {
        csv_cell(headers, 0, row[0])
    } else {
        csv_cells_prefix(headers, row, n - 1) + ", "@ + csv_cell(headers, n - 1, row[n - 1])
    }
}

/// The line of the row at `index` (0-based): `Row <index+1>: ` and its cells.
pub open spec fn csv_row_line(headers: Seq<Seq<char>>, row: Seq<Seq<char>>, index: nat) -> Seq<char> {
    "Row "@ + decimal_digits(index + 1) + ": "@ + csv_cells_prefix(headers, row, row.len() as int)
        + "\n"@
}

pub open spec fn csv_rows_prefix(headers: Seq<Seq<char>>, rows: Seq<Seq<Seq<char>>>, n: int) -> Seq<char>
    decreases n,
{
    if n <= 0 {
        seq![]
    } else {
        csv_rows_prefix(headers, rows, n - 1) + csv_row_line(headers, rows[n - 1], (n - 1) as nat)
    }
}

/// The readable text of a CSV table: the headers, a blank line, then one
/// labelled line per row.
pub open spec fn csv_text(headers: Seq<Seq<char>>, rows: Seq<Seq<Seq<char>>>) -> Seq<char> {
    "Headers: "@ + joined(headers, ", "@) + "\n\n"@ + csv_rows_prefix(headers, rows, rows.len() as int)
}

/// The outcome of parsing CSV content, as the library reports it.
pub open spec fn csv_parse_result(content: Seq<char>) -> Result<
    (Seq<Seq<Seq<char>>>, Seq<Seq<char>>),
    Seq<char>,
> {
    match csv_read_of(content) {
        Ok((h, rows)) => Ok((rows, h)),
        Err((true, m)) => Err("Failed to read CSV headers: "@ + m),
        Err((false, m)) => Err("Failed to read CSV record: "@ + m),
    }
}

fn append_joined(text: &mut String, v: &[String], sep: &str)
    ensures
        final(text)@ == old(text)@ + joined(strings_view(v@), sep@),
{
    let ghost sv = strings_view(v@);
    let ghost start = text@;
    let mut i: usize = 0;
    while i < v.len()
        invariant
            sv == strings_view(v@),
            i <= v@.len(),
            text@ == start + joined_prefix(sv, sep@, i as int),
        decreases v@.len() - i,
    {
        if i > 0 {
            text.append(sep);
        }
        text.append(v[i].as_str());
        assert(sv[i as int] == v@[i as int]@);
        assert(text@ =~= start + joined_prefix(sv, sep@, i + 1));
        i = i + 1;
    }
}

fn append_row(text: &mut String, headers: &[String], row: &Vec<String>, index: usize, number: usize)
    requires
        number == index + 1,
    ensures
        final(text)@ == old(text)@ + csv_row_line(
            strings_view(headers@),
            strings_view(row@),
            index as nat,
        ),
{
    let ghost hv = strings_view(headers@);
    let ghost rv = strings_view(row@);
    let ghost start = text@;
    text.append("Row ");
    let number = decimal_string(number as u64);
    text.append(number.as_str());
    text.append(": ");
    let ghost cells_start = text@;
    let mut col: usize = 0;
    while col < row.len()
        invariant
            hv == strings_view(headers@),
            rv == strings_view(row@),
            col <= row@.len(),
            text@ == cells_start + csv_cells_prefix(hv, rv, col as int),
            cells_start == start + "Row "@ + decimal_digits(index as nat + 1) + ": "@,
        decreases row@.len() - col,
    {
        if col > 0 {
            text.append(", ");
        }
        if col < headers.len() {
            text.append(headers[col].as_str());
            assert(hv[col as int] == headers@[col as int]@);
        } else {
            text.append("unknown");
        }
        text.append("=\"");
        text.append(row[col].as_str());
        text.append("\"");
        assert(rv[col as int] == row@[col as int]@);
        assert(text@ =~= cells_start + csv_cells_prefix(hv, rv, col + 1));
        col = col + 1;
    }
    text.append("\n");
    assert(text@ =~= start + csv_row_line(hv, rv, index as nat));
}

impl CsvProcessor {
    /// Parses CSV content whose first row holds the headers; gives the rows and
    /// the headers. Fails with a processing error where the csv crate fails.
    pub fn parse_csv_content(&self, content: &str) -> (r: Result<
        (Vec<Vec<String>>, Vec<String>),
        DocLoaderError,
    >)
        ensures
            match r {
                Ok((rows, h)) => csv_parse_result(content@) == Ok::<_, Seq<char>>(
                    (records_view(rows@), strings_view(h@)),
                ),
                Err(e) => e is Processing && csv_parse_result(content@) == Err::<
                    (Seq<Seq<Seq<char>>>, Seq<Seq<char>>),
                    _,
                >(e.detail_view()),
            },
    {
        match read_csv(content) {
            Ok((headers, rows)) => Ok((rows, headers)),
            Err((at_headers, m)) => {
                let mut msg = if at_headers {
                    "Failed to read CSV headers: ".to_owned()
                } else {
                    "Failed to read CSV record: ".to_owned()
                };
                msg.append(m.as_str());
                Err(DocLoaderError::Processing(msg))
            },
        }
    }

    /// Renders CSV rows as readable text: `Headers: a, b` and a blank line, then
    /// one line per row, `Row <n>: a="x", b="y"`.
    pub fn csv_to_text(&self, rows: &[Vec<String>], headers: &[String]) -> (r: String)
        ensures
            r@ == csv_text(strings_view(headers@), records_view(rows@)),
    {
        let ghost hv = strings_view(headers@);
        let ghost rv = records_view(rows@);
        let mut text = "Headers: ".to_owned();
        append_joined(&mut text, headers, ", ");
        text.append("\n\n");
        let ghost head = text@;
        let mut i: usize = 0;
        while i < rows.len()
            invariant
                hv == strings_view(headers@),
                rv == records_view(rows@),
                i <= rows@.len(),
                text@ == head + csv_rows_prefix(hv, rv, i as int),
                head == "Headers: "@ + joined(hv, ", "@) + "\n\n"@,
            decreases rows@.len() - i,
        {
            append_row(&mut text, headers, &rows[i], i, i + 1);
            assert(rv[i as int] == strings_view(rows@[i as int]@));
            assert(text@ =~= head + csv_rows_prefix(hv, rv, i + 1));
            i = i + 1;
        }
        text
    }
}

impl TxtProcessor {
    /// Decodes text content as UTF-8 (malformed bytes become U+FFFD) and
    /// normalises its line breaks.
    pub fn decode_content(&self, content: &[u8]) -> (r: String)
        ensures
            r@ == line_breaks_normalized(utf8_decoding_of(content@)),
            content@.len() == 0 ==> r@.len() == 0,
    {
        let decoded = decode_utf8(content);
        normalize_line_breaks(decoded.as_str())
    }
}

pub open spec fn pages_joined_prefix(p: Seq<Option<Seq<char>>>, n: int) -> Seq<char>
    decreases n,
{
    if n <= 0 {
        seq![]
    } else {
        match p[n - 1] {
            Some(s) => pages_joined_prefix(p, n - 1) + s + "\n"@,
            None => pages_joined_prefix(p, n - 1),
        }
    }
}

/// The extracted pages, each followed by a newline; pages without text are skipped.
pub open spec fn pages_joined(p: Seq<Option<Seq<char>>>) -> Seq<char> {
    pages_joined_prefix(p, p.len() as int)
}

/// The outcome of extracting text from PDF bytes, as the library reports it.
pub open spec fn pdf_text_result(bytes: Seq<u8>) -> Result<Seq<char>, PdfTextFailure> {
    match pdf_page_texts_of(bytes) {
        Err(m) => Err(PdfTextFailure::PdfParsing),
        Ok(pages) => if pages_joined(pages).len() == 0 {
            Err(PdfTextFailure::TextExtraction)
        } else {
            Ok(trimmed(collapsed_white_space(pages_joined(pages))))
        },
    }
}

/// Why PDF text extraction fails.
pub enum PdfTextFailure {
    PdfParsing,
    TextExtraction,
}

/// Extracts the text of PDF documents.
pub struct TextExtractor {}

impl TextExtractor {
    pub fn new() -> Self {
        TextExtractor {  }
    }

    /// Extracts the text of each page of a PDF, joins the pages with newlines
    /// and collapses white space to single spaces, trimmed. Fails when the PDF
    /// cannot be loaded, or when no page gives any text.
    pub fn extract_from_bytes(&self, bytes: &[u8]) -> (r: Result<String, DocLoaderError>)
        ensures
            match r {
                Ok(s) => pdf_text_result(bytes@) == Ok::<_, PdfTextFailure>(s@),
                Err(e) => match pdf_text_result(bytes@) {
                    Err(PdfTextFailure::PdfParsing) => e is PdfParsing,
                    Err(PdfTextFailure::TextExtraction) => e is TextExtraction,
                    Ok(_) => false,
                },
            },
    {
        let pages = match pdf_page_texts(bytes) {
            Ok(p) => p,
            Err(m) => return Err(DocLoaderError::PdfParsing(m)),
        };
        let ghost pv = page_texts_view(pages@);
        let mut text = String::new();
        let mut i: usize = 0;
        while i < pages.len()
            invariant
                pv == page_texts_view(pages@),
                i <= pages@.len(),
                text@ == pages_joined_prefix(pv, i as int),
            decreases pages@.len() - i,
        {
            match &pages[i] {
                Some(s) => {
                    text.append(s.as_str());
                    text.append("\n");
                },
                None => {},
            }
            assert(text@ =~= pages_joined_prefix(pv, i + 1));
            i = i + 1;
        }
        let cs = chars_of(text.as_str());
        if cs.len() == 0 {
            return Err(
                DocLoaderError::TextExtraction(
                    "No text could be extracted from the PDF".to_owned(),
                ),
            );
        }
        let collapsed = crate::text::collapse_white_space(text.as_str());
        let cc = chars_of(collapsed.as_str());
        let (lo, hi) = crate::text::trim_bounds(&cc, 0, cc.len());
        assert(cc@.subrange(0, cc@.len() as int) =~= cc@);
        Ok(substring_of(&cc, lo, hi))
    }
}

impl Default for TextExtractor {
    fn default() -> Self {
        TextExtractor::new()
    }
}

} // verus!
