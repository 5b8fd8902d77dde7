//! Per-text statistics: characters, words, lines, an estimate of tokens, a
//! heuristic language and a content hash.
use vstd::prelude::*;
use crate::digits::{hex_digits, hex_string};
use crate::text::chars_of;

verus! {

/// The number of UAX #29 words (segments holding a letter or a number) of `s`.
pub uninterp spec fn unicode_word_count(s: Seq<char>) -> nat;

/// The lower-case form of `s` as `str::to_lowercase` gives it (Unicode case
/// mapping; a final sigma is mapped by its context).
pub uninterp spec fn lowercase_of(s: Seq<char>) -> Seq<char>;

/// The 64-bit hash that std's `DefaultHasher::new()` gives to a string.
pub uninterp spec fn default_hash_of(s: Seq<char>) -> u64;

/// Relies on `unicode_segmentation::UnicodeSegmentation::unicode_words`: the
/// words depend on the text alone, and an empty text has none.
#[verifier::external_body]
fn unicode_words_in(text: &str) -> (r: usize)
    ensures
        r == unicode_word_count(text@),
        text@.len() == 0 ==> r == 0,
{
    unicode_segmentation::UnicodeSegmentation::unicode_words(text).count()
}

/// Relies on `str::to_lowercase`: the result depends on the characters alone,
/// and an empty string stays empty.
#[verifier::external_body]
pub(crate) fn lowercase(s: &str) -> (r: String)
    ensures
        r@ == lowercase_of(s@),
        s@.len() == 0 ==> r@.len() == 0,
{
    s.to_lowercase()
}

/// Relies on `std::hash::DefaultHasher::new()` (whose instances all start from
/// the same fixed keys) hashing the string with `Hash for str`.
#[verifier::external_body]
fn default_hash(s: &str) -> (r: u64)
    ensures
        r == default_hash_of(s@),
{
    let mut hasher = std::hash::DefaultHasher::new();
    std::hash::Hash::hash(s, &mut hasher);
    std::hash::Hasher::finish(&hasher)
}

/// Counts the words of a text by Unicode word segmentation.
pub fn count_words(text: &str) -> (r: usize)
    ensures
        r == unicode_word_count(text@),
{
    unicode_words_in(text)
}

/// `round(words * 1.33)`, rounding halves up, saturated at the largest `usize`.
pub open spec fn token_estimate(words: nat) -> nat {
    let t = (133 * words + 50) / 100;
    if t > usize::MAX {
        usize::MAX as nat
    } else {
        t
    }
}

/// The estimated number of tokens of a text of `words` words.
pub fn tokens_for_words(words: usize) -> (r: usize)
    ensures
        r == token_estimate(words as nat),
{
    let t: u128 = (words as u128 * 133 + 50) / 100;
    if t > usize::MAX as u128 {
        usize::MAX
    } else {
        t as usize
    }
}

/// Estimates the number of tokens of a text from its word count.
pub fn estimate_tokens(text: &str) -> (r: usize)
    ensures
        r == token_estimate(unicode_word_count(text@)),
{
    tokens_for_words(count_words(text))
}

/// `p` occurs in `s` at position `i`.
pub open spec fn occurs_at(s: Seq<char>, p: Seq<char>, i: int) -> bool {
    0 <= i && i + p.len() <= s.len() && s.subrange(i, i + p.len()) == p
}

/// `p` occurs somewhere in `s`.
pub open spec fn contains_chars(s: Seq<char>, p: Seq<char>) -> bool {
    exists|i: int| occurs_at(s, p, i)
}

pub open spec fn has_french_marker(s: Seq<char>) -> bool {
    contains_chars(s, "le "@) || contains_chars(s, "la "@) || contains_chars(s, "les "@)
        || contains_chars(s, "des "@) || contains_chars(s, "pour "@) || contains_chars(
        s,
        "avec "@,
    )
}

pub open spec fn has_english_marker(s: Seq<char>) -> bool {
    contains_chars(s, "the "@) || contains_chars(s, "and "@) || contains_chars(s, "for "@)
        || contains_chars(s, "with "@) || contains_chars(s, "from "@) || contains_chars(
        s,
        "this "@,
    )
}

/// The language of a lower-cased text: French if it holds a French stop word
/// followed by a space, else English if it holds an English one, else none.
pub open spec fn language_of(lower: Seq<char>) -> Option<Seq<char>> {
    if has_french_marker(lower) {
        Some("fr"@)
    } else if has_english_marker(lower) {
        Some("en"@)
    } else {
        None
    }
}

/// The view of an optional string.
pub open spec fn opt_view(o: Option<String>) -> Option<Seq<char>> {
    match o {
        Some(s) => Some(s@),
        None => None,
    }
}

fn occurs(s: &Vec<char>, p: &Vec<char>, i: usize) -> (r: bool)
    requires
        i + p@.len() <= s@.len(),
    ensures
        r == occurs_at(s@, p@, i as int),
{
    let sl = s.len();
    let mut k: usize = 0;
    while k < p.len()
        invariant
            sl == s@.len(),
            i + p@.len() <= s@.len(),
            k <= p@.len(),
            forall|j: int| 0 <= j < k ==> s@[i + j] == p@[j],
        decreases p@.len() - k,
    {
        if s[i + k] != p[k] {
            assert(s@.subrange(i as int, i + p@.len())[k as int] != p@[k as int]);
            return false;
        }
        k = k + 1;
    }
    assert(s@.subrange(i as int, i + p@.len()) =~= p@);
    true
}

fn contains(s: &Vec<char>, pattern: &str) -> (r: bool)
    ensures
        r == contains_chars(s@, pattern@),
{
    let p = chars_of(pattern);
    if p.len() > s.len() {
        assert forall|i: int| !occurs_at(s@, p@, i) by {}
        return false;
    }
    let last = s.len() - p.len();
    let mut i: usize = 0;
    loop
        invariant
            p@ == pattern@,
            last == s@.len() - p@.len(),
            i <= last,
            forall|j: int| 0 <= j < i ==> !occurs_at(s@, p@, j),
        decreases last - i,
    {
        if occurs(s, &p, i) {
            return true;
        }
        if i == last {
            assert forall|j: int| !occurs_at(s@, p@, j) by {
                if 0 <= j <= i {
                }
            }
            return false;
        }
        i = i + 1;
    }
}

/// The language of an already lower-cased text.
pub fn language_of_lowercase(lower: &str) -> (r: Option<String>)
    ensures
        opt_view(r) == language_of(lower@),
{
    let s = chars_of(lower);
    if contains(&s, "le ") || contains(&s, "la ") || contains(&s, "les ") || contains(&s, "des ")
        || contains(&s, "pour ") || contains(&s, "avec ") {
        Some("fr".to_owned())
    } else if contains(&s, "the ") || contains(&s, "and ") || contains(&s, "for ") || contains(
        &s,
        "with ",
    ) || contains(&s, "from ") || contains(&s, "this ") {
        Some("en".to_owned())
    } else {
        None
    }
}

/// Guesses the language of a text from common French and English words.
pub fn detect_language(text: &str) -> (r: Option<String>)
    ensures
        opt_view(r) == language_of(lowercase_of(text@)),
{
    let lower = lowercase(text);
    language_of_lowercase(lower.as_str())
}

pub open spec fn newlines_prefix(s: Seq<char>, n: int) -> nat
    decreases n,
{
    if n <= 0 {
        0
    } else if s[n - 1] == '\n' {
        newlines_prefix(s, n - 1) + 1
    } else {
        newlines_prefix(s, n - 1)
    }
}

/// The number of `\n`-delimited lines of `s`; a final `\n` does not open a new line.
pub open spec fn line_count_of(s: Seq<char>) -> nat {
    if s.len() == 0 {
        0
    } else if s.last() == '\n' {
        newlines_prefix(s, s.len() as int)
    } else {
        newlines_prefix(s, s.len() as int) + 1
    }
}

proof fn lemma_newlines_bounded(s: Seq<char>, n: int)
    requires
        0 <= n,
    ensures
        newlines_prefix(s, n) <= n,
    decreases n,
{
    if n > 0 {
        lemma_newlines_bounded(s, n - 1);
    }
}

/// Counts the lines of a text.
pub fn count_lines(text: &str) -> (r: usize)
    ensures
        r == line_count_of(text@),
{
    let s = chars_of(text);
    let n = s.len();
    let mut count: usize = 0;
    let mut i: usize = 0;
    while i < n
        invariant
            n == s@.len(),
            s@ == text@,
            i <= n,
            count == newlines_prefix(s@, i as int),
            count <= i,
        decreases n - i,
    {
        if s[i] == '\n' {
            count = count + 1;
        }
        i = i + 1;
    }
    if n == 0 || s[n - 1] == '\n' {
        count
    } else {
        proof {
            lemma_newlines_bounded(s@, n - 1);
        }
        count + 1
    }
}

/// A deterministic hash of a text's content, in hexadecimal, for deduplication.
pub fn content_hash(text: &str) -> (r: String)
    ensures
        r@ == hex_digits(default_hash_of(text@) as nat),
{
    hex_string(default_hash(text))
}

/// Statistics of a text.
#[derive(Debug)]
pub struct TextMetadata {
    pub character_count: usize,
    pub word_count: usize,
    pub line_count: usize,
    pub estimated_tokens: usize,
    pub detected_language: Option<String>,
}

impl TextMetadata {
    /// The statistics are those of `t`; the language is detected only when `detect` holds.
    pub open spec fn describes(&self, t: Seq<char>, detect: bool) -> bool {
        &&& self.character_count == t.len()
        &&& self.word_count == unicode_word_count(t)
        &&& self.line_count == line_count_of(t)
        &&& self.estimated_tokens == token_estimate(unicode_word_count(t))
        &&& opt_view(self.detected_language) == if detect {
            language_of(lowercase_of(t))
        } else {
            None
        }
    }
}

/// Statistics of a text, with its language detected only when `detect` holds.
pub fn text_statistics(text: &str, detect: bool) -> (r: TextMetadata)
    ensures
        r.describes(text@, detect),
{
    let character_count = chars_of(text).len();
    let word_count = count_words(text);
    TextMetadata {
        character_count,
        word_count,
        line_count: count_lines(text),
        estimated_tokens: tokens_for_words(word_count),
        detected_language: if detect {
            detect_language(text)
        } else {
            None
        },
    }
}

/// Statistics of a text, its language included.
pub fn extract_text_metadata(text: &str) -> (r: TextMetadata)
    ensures
        r.describes(text@, true),
{
    text_statistics(text, true)
}

} // verus!
