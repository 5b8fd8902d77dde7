//! PDF document-information fields.
use vstd::prelude::*;
use crate::annotate::opt_view;
use crate::error::DocLoaderError;

verus! {

/// The bytes of `key` spell `word`, one ASCII character per byte.
pub open spec fn spells(key: Seq<u8>, word: Seq<char>) -> bool {
    key.len() == word.len() && forall|i: int| 0 <= i < key.len() ==> key[i] as u32 == word[i] as u32
}

/// A field of the standard PDF document-information dictionary.
pub open spec fn is_standard_key(key: Seq<u8>) -> bool {
    spells(key, "Title"@) || spells(key, "Author"@) || spells(key, "Subject"@) || spells(
        key,
        "Keywords"@,
    ) || spells(key, "Creator"@) || spells(key, "Producer"@) || spells(key, "CreationDate"@)
        || spells(key, "ModDate"@)
}

fn spells_word(key: &[u8], word: &str) -> (r: bool)
    ensures
        r == spells(key@, word@),
{
    let w = crate::text::chars_of(word);
    if key.len() != w.len() {
        return false;
    }
    let mut i: usize = 0;
    while i < key.len()
        invariant
            w@ == word@,
            key@.len() == w@.len(),
            i <= key@.len(),
            forall|j: int| 0 <= j < i ==> key@[j] as u32 == w@[j] as u32,
        decreases key@.len() - i,
    {
        if key[i] as u32 != w[i] as u32 {
            return false;
        }
        i = i + 1;
    }
    true
}

/// What lopdf reads from a PDF: its page count, its version, and the entries of
/// its document-information dictionary (key bytes, key and string value as
/// lossy UTF-8, no value where the entry is not a string); or the message of
/// the error that loading gave.
pub uninterp spec fn pdf_info_of(bytes: Seq<u8>) -> Result<
    (nat, Seq<char>, Seq<(Seq<u8>, Seq<char>, Option<Seq<char>>)>),
    Seq<char>,
>;

pub open spec fn entries_view(e: Seq<(Vec<u8>, String, Option<String>)>) -> Seq<
    (Seq<u8>, Seq<char>, Option<Seq<char>>),
> {
    e.map_values(|x: (Vec<u8>, String, Option<String>)| (x.0@, x.1@, opt_view(x.2)))
}

/// Relies on `lopdf::Document::load_mem`, `get_pages`, the `version` field and
/// the trailer's `Info` reference (an `Info` entry that is not a reference is an
/// error); keys and string values are read with `String::from_utf8_lossy`.
/// lopdf is built without its `rayon` feature, so objects are loaded one after
/// another in cross-reference order and the outcome depends on the bytes alone.
#[verifier::external_body]
fn read_pdf_info(bytes: &[u8]) -> (r: Result<(usize, String, Vec<(Vec<u8>, String, Option<String>)>), String>)
    ensures
        match r {
            Ok((n, v, e)) => pdf_info_of(bytes@) == Ok::<_, Seq<char>>((n as nat, v@, entries_view(e@))),
            Err(m) => pdf_info_of(bytes@) == Err::<(nat, Seq<char>, Seq<(Seq<u8>, Seq<char>, Option<Seq<char>>)>), _>(m@),
        },
{
    let doc = lopdf::Document::load_mem(bytes).map_err(|e| e.to_string())?;
    let mut entries = Vec::new();
    if let Ok(info) = doc.trailer.get(b"Info") {
        let id = info.as_reference().map_err(|e| e.to_string())?;
        if let Ok(dict) = doc.get_object(id).and_then(|o| o.as_dict()) {
            for (k, v) in dict.iter() {
                let value = v.as_str().ok().map(|b| String::from_utf8_lossy(b).into_owned());
                entries.push((k.clone(), String::from_utf8_lossy(k).into_owned(), value));
            }
        }
    }
    Ok((doc.get_pages().len(), doc.version.clone(), entries))
}

/// A standard document-information field name.
pub open spec fn is_standard_name(name: Seq<char>) -> bool {
    name == "Title"@ || name == "Author"@ || name == "Subject"@ || name == "Keywords"@
        || name == "Creator"@ || name == "Producer"@ || name == "CreationDate"@ || name
        == "ModDate"@
}

fn standard_name(name: &str) -> (r: bool)
    ensures
        r == is_standard_name(name@),
{
    crate::text::same_text(name, "Title") || crate::text::same_text(name, "Author")
        || crate::text::same_text(name, "Subject") || crate::text::same_text(name, "Keywords")
        || crate::text::same_text(name, "Creator") || crate::text::same_text(name, "Producer")
        || crate::text::same_text(name, "CreationDate") || crate::text::same_text(
        name,
        "ModDate",
    )
}

/// The string value of the first entry whose key spells `key`: `None` when
/// there is no such entry or its value is not a string.
pub open spec fn info_field_prefix(
    e: Seq<(Seq<u8>, Seq<char>, Option<Seq<char>>)>,
    key: Seq<char>,
    n: int,
) -> Option<Option<Seq<char>>>
    decreases n,
{
    if n <= 0 {
        None
    } else if info_field_prefix(e, key, n - 1) is Some {
        info_field_prefix(e, key, n - 1)
    } else if spells(e[n - 1].0, key) {
        Some(e[n - 1].2)
    } else {
        None
    }
}

pub open spec fn info_field(e: Seq<(Seq<u8>, Seq<char>, Option<Seq<char>>)>, key: Seq<char>) -> Option<Seq<char>> {
    match info_field_prefix(e, key, e.len() as int) {
        Some(v) => v,
        None => None,
    }
}

/// The entries that hold a string and are not standard fields, neither by their
/// key bytes nor by their key read as text, as (key, value).
pub open spec fn custom_properties_prefix(
    e: Seq<(Seq<u8>, Seq<char>, Option<Seq<char>>)>,
    n: int,
) -> Seq<(Seq<char>, Seq<char>)>
    decreases n,
{
    if n <= 0 {
        seq![]
    } else if !is_standard_key(e[n - 1].0) && !is_standard_name(e[n - 1].1) && e[n - 1].2 is Some {
        custom_properties_prefix(e, n - 1).push((e[n - 1].1, e[n - 1].2->0))
    } else {
        custom_properties_prefix(e, n - 1)
    }
}

pub open spec fn pairs_view(v: Seq<(String, String)>) -> Seq<(Seq<char>, Seq<char>)> {
    v.map_values(|p: (String, String)| (p.0@, p.1@))
}

/// Metadata of a PDF document.
#[derive(Debug)]
pub struct DocumentMetadata {
    pub title: Option<String>,
    pub author: Option<String>,
    pub subject: Option<String>,
    pub keywords: Option<String>,
    pub creator: Option<String>,
    pub producer: Option<String>,
    pub creation_date: Option<String>,
    pub modification_date: Option<String>,
    /// Number of pages, saturated at the largest `u32`.
    pub page_count: u32,
    pub file_size: u64,
    pub pdf_version: Option<String>,
    /// Non-standard string entries, in dictionary order.
    pub custom_properties: Vec<(String, String)>,
}

impl DocumentMetadata {
    /// The metadata is what the PDF's information dictionary `e` says.
    pub open spec fn read_from(&self, pages: nat, version: Seq<char>, e: Seq<(Seq<u8>, Seq<char>, Option<Seq<char>>)>) -> bool {
        &&& opt_view(self.title) == info_field(e, "Title"@)
        &&& opt_view(self.author) == info_field(e, "Author"@)
        &&& opt_view(self.subject) == info_field(e, "Subject"@)
        &&& opt_view(self.keywords) == info_field(e, "Keywords"@)
        &&& opt_view(self.creator) == info_field(e, "Creator"@)
        &&& opt_view(self.producer) == info_field(e, "Producer"@)
        &&& opt_view(self.creation_date) == info_field(e, "CreationDate"@)
        &&& opt_view(self.modification_date) == info_field(e, "ModDate"@)
        &&& self.page_count == if pages > u32::MAX { u32::MAX as nat } else { pages }
        &&& self.file_size == 0
        &&& opt_view(self.pdf_version) == Some(version)
        &&& pairs_view(self.custom_properties@) == custom_properties_prefix(e, e.len() as int)
        &&& forall|i: int|
            0 <= i < self.custom_properties@.len() ==> !is_standard_name(
                (#[trigger] self.custom_properties@[i]).0@,
            )
    }
}

fn info_string(e: &Vec<(Vec<u8>, String, Option<String>)>, key: &str) -> (r: Option<String>)
    ensures
        opt_view(r) == info_field(entries_view(e@), key@),
{
    let ghost ev = entries_view(e@);
    let mut i: usize = 0;
    while i < e.len()
        invariant
            ev == entries_view(e@),
            i <= e@.len(),
            info_field_prefix(ev, key@, i as int) is None,
        decreases e@.len() - i,
    {
        assert(ev[i as int] == (e@[i as int].0@, e@[i as int].1@, opt_view(e@[i as int].2)));
        if spells_word(e[i].0.as_slice(), key) {
            let r = e[i].2.clone();
            proof {
                lemma_info_field_found(ev, key@, i + 1);
            }
            return r;
        }
        i = i + 1;
    }
    None
}

proof fn lemma_info_field_found(e: Seq<(Seq<u8>, Seq<char>, Option<Seq<char>>)>, key: Seq<char>, n: int)
    requires
        0 < n <= e.len(),
        info_field_prefix(e, key, n) is Some,
    ensures
        info_field_prefix(e, key, e.len() as int) == info_field_prefix(e, key, n),
    decreases e.len() - n,
{
    if n < e.len() {
        lemma_info_field_found(e, key, n + 1);
    }
}

/// Reads metadata of PDF documents.
pub struct MetadataExtractor {}

impl MetadataExtractor {
    pub fn new() -> Self {
        MetadataExtractor {  }
    }

    /// Whether `key` names a standard document-information field.
    pub fn is_standard_field(&self, key: &[u8]) -> (r: bool)
        ensures
            r == is_standard_key(key@),
    {
        spells_word(key, "Title") || spells_word(key, "Author") || spells_word(key, "Subject")
            || spells_word(key, "Keywords") || spells_word(key, "Creator") || spells_word(
            key,
            "Producer",
        ) || spells_word(key, "CreationDate") || spells_word(key, "ModDate")
    }

    /// Reads the page count, version and document-information fields of a PDF:
    /// the standard fields by name, the other string entries as custom
    /// properties. Fails with a PDF parsing error where lopdf fails.
    pub fn extract_from_bytes(&self, bytes: &[u8]) -> (r: Result<DocumentMetadata, DocLoaderError>)
        ensures
            match pdf_info_of(bytes@) {
                Ok((pages, version, e)) => r is Ok && r->Ok_0.read_from(pages, version, e),
                Err(m) => r is Err && r->Err_0 is PdfParsing && r->Err_0.detail_view() == m,
            },
    {
        let (pages, version, entries) = match read_pdf_info(bytes) {
            Ok(info) => info,
            Err(m) => return Err(DocLoaderError::PdfParsing(m)),
        };
        let ghost ev = entries_view(entries@);
        let mut custom: Vec<(String, String)> = Vec::new();
        let mut i: usize = 0;
        while i < entries.len()
            invariant
                ev == entries_view(entries@),
                i <= entries@.len(),
                pairs_view(custom@) == custom_properties_prefix(ev, i as int),
                forall|k: int|
                    0 <= k < custom@.len() ==> !is_standard_name((#[trigger] custom@[k]).0@),
            decreases entries@.len() - i,
        {
            assert(ev[i as int] == (
                entries@[i as int].0@,
                entries@[i as int].1@,
                opt_view(entries@[i as int].2),
            ));
            if !self.is_standard_field(entries[i].0.as_slice()) && !standard_name(
                entries[i].1.as_str(),
            ) {
                match &entries[i].2 {
                    Some(v) => {
                        let ghost before = custom@;
                        custom.push((entries[i].1.clone(), v.clone()));
                        assert(pairs_view(custom@) =~= pairs_view(before).push(
                            (entries@[i as int].1@, v@),
                        ));
                    },
                    None => {},
                }
            }
            i = i + 1;
        }
        Ok(DocumentMetadata {
            title: info_string(&entries, "Title"),
            author: info_string(&entries, "Author"),
            subject: info_string(&entries, "Subject"),
            keywords: info_string(&entries, "Keywords"),
            creator: info_string(&entries, "Creator"),
            producer: info_string(&entries, "Producer"),
            creation_date: info_string(&entries, "CreationDate"),
            modification_date: info_string(&entries, "ModDate"),
            page_count: if pages > u32::MAX as usize {
                u32::MAX
            } else {
                pages as u32
            },
            file_size: 0,
            pdf_version: Some(version),
            custom_properties: custom,
        })
    }
}

impl Default for MetadataExtractor {
    fn default() -> Self {
        MetadataExtractor::new()
    }
}

} // verus!
