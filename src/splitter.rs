//! Splitting a text into bounded, overlapping chunks, by fixed-size windows or
//! by sentences. Positions and lengths count characters.
use vstd::prelude::*;
use crate::error::DocLoaderError;
use crate::text::{is_white_space, substring_of, trim_hi, trim_lo, white_space};

verus! {

/// Positions as integers, for the contracts.
pub open spec fn spans_view(v: Seq<(usize, usize)>) -> Seq<(int, int)> {
    v.map_values(|p: (usize, usize)| (p.0 as int, p.1 as int))
}

/// The largest `k` with `lo < k < hi` and `t[k] == ' '`, or `lo` when there is none.
pub open spec fn last_space_in(t: Seq<char>, lo: int, hi: int) -> int
    decreases hi - lo,
{
    if hi <= lo + 1 {
        lo
    } else if t[hi - 1] == ' ' {
        hi - 1
    } else {
        last_space_in(t, lo, hi - 1)
    }
}

/// The right edge of the window that starts at `start`.
pub open spec fn window_end(len: int, start: int, max: int) -> int {
    if start + max < len {
        start + max
    } else {
        len
    }
}

/// Where the fixed-size chunk that starts at `start` ends: the window's edge,
/// pulled back to the last space inside the window unless the window reaches
/// the end of the text or holds no space after its first character.
pub open spec fn fixed_piece_end(t: Seq<char>, start: int, max: int) -> int {
    let e = window_end(t.len() as int, start, max);
    if e < t.len() && last_space_in(t, start, e) > start {
        last_space_in(t, start, e)
    } else {
        e
    }
}

/// Where the next window starts: `overlap` characters before the end of the
/// chunk, or right after it when the chunk is not longer than `overlap`.
pub open spec fn next_window_start(start: int, piece_len: int, overlap: int) -> int {
    if piece_len > overlap {
        start + piece_len - overlap
    } else {
        start + piece_len
    }
}

/// The fixed-size chunks of `t` from position `start` on, as `(start, end)` pairs.
pub open spec fn fixed_spans_from(t: Seq<char>, start: int, max: int, overlap: int) -> Seq<
    (int, int),
>
    decreases t.len() - start,
    via fixed_spans_from_decreases
{
    if start < 0 || start >= t.len() || max <= 0 || overlap < 0 {
        seq![]
    } else {
        let e = fixed_piece_end(t, start, max);
        if window_end(t.len() as int, start, max) >= t.len() {
            seq![(start, e)]
        } else {
            seq![(start, e)] + fixed_spans_from(
                t,
                next_window_start(start, e - start, overlap),
                max,
                overlap,
            )
        }
    }
}

proof fn lemma_last_space_in_range(t: Seq<char>, lo: int, hi: int)
    requires
        lo < hi,
    ensures
        lo <= last_space_in(t, lo, hi) < hi,
    decreases hi - lo,
{
    if hi > lo + 1 && t[hi - 1] != ' ' {
        lemma_last_space_in_range(t, lo, hi - 1);
    }
}

#[via_fn]
proof fn fixed_spans_from_decreases(t: Seq<char>, start: int, max: int, overlap: int) {
    if !(start < 0 || start >= t.len() || max <= 0 || overlap < 0) {
        let e0 = window_end(t.len() as int, start, max);
        lemma_last_space_in_range(t, start, e0);
    }
}

/// The fixed-size chunks of `t`.
pub open spec fn fixed_size_spans(t: Seq<char>, max: int, overlap: int) -> Seq<(int, int)> {
    fixed_spans_from(t, 0, max, overlap)
}

fn last_space(t: &Vec<char>, lo: usize, hi: usize) -> (r: usize)
    requires
        lo < hi <= t.len(),
    ensures
        r == last_space_in(t@, lo as int, hi as int),
{
    let mut h = hi;
    while h > lo + 1 && t[h - 1] != ' '
        invariant
            lo < h <= hi <= t.len(),
            last_space_in(t@, lo as int, hi as int) == last_space_in(t@, lo as int, h as int),
        decreases h,
    {
        h = h - 1;
    }
    if h <= lo + 1 {
        lo
    } else {
        h - 1
    }
}

/// The fixed-size chunks of `t`, as positions.
pub(crate) fn fixed_spans(t: &Vec<char>, max: usize, overlap: usize) -> (r: Vec<(usize, usize)>)
    requires
        max > 0,
    ensures
        spans_view(r@) == fixed_size_spans(t@, max as int, overlap as int),
        forall|i: int| 0 <= i < r@.len() ==> (#[trigger] r@[i]).0 <= r@[i].1 <= t@.len(),
{
    let n = t.len();
    let mut r: Vec<(usize, usize)> = Vec::new();
    let mut start: usize = 0;
    let mut done = false;
    while !done && start < n
        invariant
            n == t.len(),
            max > 0,
            start <= n,
            spans_view(r@) + (if done {
                seq![]
            } else {
                fixed_spans_from(t@, start as int, max as int, overlap as int)
            }) == fixed_size_spans(t@, max as int, overlap as int),
            forall|i: int| 0 <= i < r@.len() ==> (#[trigger] r@[i]).0 <= r@[i].1 <= t@.len(),
        decreases n - start + (if done { 0int } else { 1int }),
    {
        let wend = if max < n - start {
            start + max
        } else {
            n
        };
        let mut e = wend;
        if wend < n {
            let k = last_space(t, start, wend);
            if k > start {
                e = k;
            }
        }
        proof {
            lemma_last_space_in_range(t@, start as int, wend as int);
        }
        assert(e as int == fixed_piece_end(t@, start as int, max as int));
        let ghost old_r = r@;
        r.push((start, e));
        assert(spans_view(r@) =~= spans_view(old_r).push((start as int, e as int)));
        if wend >= n {
            done = true;
            assert(spans_view(r@) =~= spans_view(old_r) + fixed_spans_from(
                t@,
                start as int,
                max as int,
                overlap as int,
            ));
        } else {
            let plen = e - start;
            let next = if plen > overlap {
                start + plen - overlap
            } else {
                start + plen
            };
            assert(spans_view(r@) + fixed_spans_from(t@, next as int, max as int, overlap as int)
                =~= spans_view(old_r) + fixed_spans_from(
                t@,
                start as int,
                max as int,
                overlap as int,
            ));
            start = next;
        }
    }
    assert(spans_view(r@) =~= fixed_size_spans(t@, max as int, overlap as int));
    r
}

pub open spec fn is_sentence_punct(c: char) -> bool {
    c == '.' || c == '!' || c == '?'
}

/// Where the run of white space that ends at `e` starts.
pub open spec fn white_run_start(t: Seq<char>, e: int) -> int
    decreases e,
{
    if 0 < e <= t.len() && is_white_space(t[e - 1]) {
        white_run_start(t, e - 1)
    } else {
        e
    }
}

/// `e` ends a sentence: it ends a maximal run of white space that follows
/// sentence punctuation.
pub open spec fn is_sentence_break(t: Seq<char>, e: int) -> bool {
    &&& 0 < e <= t.len()
    &&& is_white_space(t[e - 1])
    &&& (e == t.len() || !is_white_space(t[e]))
    &&& white_run_start(t, e) > 0
    &&& is_sentence_punct(t[white_run_start(t, e) - 1])
}

pub open spec fn sentence_breaks_upto(t: Seq<char>, n: int) -> Seq<int>
    decreases n,
{
    if n <= 0 {
        seq![]
    } else if is_sentence_break(t, n) {
        sentence_breaks_upto(t, n - 1).push(n)
    } else {
        sentence_breaks_upto(t, n - 1)
    }
}

/// The sentence breaks of `t`, in increasing order.
pub open spec fn sentence_breaks(t: Seq<char>) -> Seq<int> {
    sentence_breaks_upto(t, t.len() as int)
}

proof fn lemma_sentence_breaks_sorted(t: Seq<char>, n: int)
    requires
        0 <= n <= t.len(),
    ensures
        forall|i: int|
            0 <= i < sentence_breaks_upto(t, n).len() ==> 0 < #[trigger] sentence_breaks_upto(
                t,
                n,
            )[i] <= n,
        forall|i: int, j: int|
            0 <= i < j < sentence_breaks_upto(t, n).len() ==> sentence_breaks_upto(t, n)[i]
                < sentence_breaks_upto(t, n)[j],
    decreases n,
{
    if n > 0 {
        lemma_sentence_breaks_sorted(t, n - 1);
        let p = sentence_breaks_upto(t, n - 1);
        if is_sentence_break(t, n) {
            let q = p.push(n);
            assert forall|i: int| 0 <= i < q.len() implies 0 < #[trigger] q[i] <= n by {
                if i < p.len() {
                    assert(q[i] == p[i]);
                }
            }
            assert forall|i: int, j: int| 0 <= i < j < q.len() implies q[i] < q[j] by {
                assert(q[i] == p[i]);
                if j < p.len() {
                    assert(q[j] == p[j]);
                }
            }
        }
    }
}

/// Relies on `regex::Regex::find_iter` with the pattern `[.!?]+\s+`: matches are
/// leftmost-first and do not overlap, both repetitions are greedy and `\s` is the
/// Unicode `White_Space` class, so the matches end exactly at the ends of the
/// maximal white-space runs that follow a sentence punctuation character.
/// Match ends are turned from byte offsets into character offsets.
#[verifier::external_body]
fn sentence_break_offsets(text: &str) -> (r: Vec<usize>)
    ensures
        r@.map_values(|e: usize| e as int) == sentence_breaks(text@),
{
    let re = regex::Regex::new(r"[.!?]+\s+").unwrap();
    re.find_iter(text).map(|m| text[..m.end()].chars().count()).collect()
}

/// The bound of the `i`-th piece of text between sentence breaks.
pub open spec fn piece_bound(t: Seq<char>, i: int) -> int {
    if i <= 0 {
        0
    } else if i <= sentence_breaks(t).len() {
        sentence_breaks(t)[i - 1]
    } else {
        t.len() as int
    }
}

pub open spec fn sentence_spans_prefix(t: Seq<char>, n: int) -> Seq<(int, int)>
    decreases n,
{
    if n <= 0 {
        seq![]
    } else {
        let a = trim_lo(t, piece_bound(t, n - 1), piece_bound(t, n));
        let b = trim_hi(t, a, piece_bound(t, n));
        if a < b {
            sentence_spans_prefix(t, n - 1).push((a, b))
        } else {
            sentence_spans_prefix(t, n - 1)
        }
    }
}

/// The sentences of `t`: the pieces between sentence breaks, without their
/// surrounding white space, empty ones left out.
pub open spec fn sentence_spans(t: Seq<char>) -> Seq<(int, int)> {
    sentence_spans_prefix(t, sentence_breaks(t).len() + 1int)
}

/// Spans that lie in `[0, len]`, each non-empty and before the next one.
pub open spec fn spans_ordered(s: Seq<(int, int)>, len: int) -> bool {
    &&& forall|i: int| 0 <= i < s.len() ==> 0 <= (#[trigger] s[i]).0 < s[i].1 <= len
    &&& forall|i: int, j: int| 0 <= i < j < s.len() ==> (#[trigger] s[i]).1 <= (#[trigger] s[j]).0
}

fn sentence_positions(t: &Vec<char>, text: &str) -> (r: Vec<(usize, usize)>)
    requires
        t@ == text@,
    ensures
        spans_view(r@) == sentence_spans(t@),
        spans_ordered(spans_view(r@), t@.len() as int),
{
    let breaks = sentence_break_offsets(text);
    let ghost br = sentence_breaks(t@);
    proof {
        lemma_sentence_breaks_sorted(t@, t@.len() as int);
        assert forall|i: int| 0 <= i < breaks@.len() implies breaks@[i] as int == br[i] by {
            assert(breaks@.map_values(|e: usize| e as int)[i] == br[i]);
        }
        assert(breaks@.len() == br.len());
    }
    let n = t.len();
    let nb = breaks.len();
    let mut r: Vec<(usize, usize)> = Vec::new();
    let mut a: usize = 0;
    let mut i: usize = 0;
    while i < nb
        invariant
            n == t.len(),
            nb == breaks@.len(),
            br == sentence_breaks(t@),
            nb == br.len(),
            forall|k: int| 0 <= k < nb ==> breaks@[k] as int == br[k],
            forall|k: int| 0 <= k < br.len() ==> 0 < #[trigger] br[k] <= n,
            forall|k: int, j: int| 0 <= k < j < br.len() ==> br[k] < br[j],
            i <= nb,
            a as int == piece_bound(t@, i as int),
            a <= n,
            spans_view(r@) == sentence_spans_prefix(t@, i as int),
            spans_ordered(spans_view(r@), n as int),
            forall|k: int| 0 <= k < r@.len() ==> (#[trigger] r@[k]).1 <= a,
        decreases nb - i,
    {
        let b = breaks[i];
        assert(breaks@[i as int] as int == br[i as int] && br[i as int] <= n);
        assert(b as int == piece_bound(t@, i + 1));
        assert(a <= b) by {
            if i > 0 {
                assert(br[i - 1] < br[i as int]);
            }
        }
        push_trimmed(t, &mut r, a, b);
        a = b;
        i = i + 1;
    }
    push_trimmed(t, &mut r, a, n);
    r
}

/// Adds the span of `t[a..b]` without its surrounding white space, if that is not empty.
fn push_trimmed(t: &Vec<char>, r: &mut Vec<(usize, usize)>, a: usize, b: usize)
    requires
        a <= b <= t.len(),
        spans_ordered(spans_view(old(r)@), t@.len() as int),
        forall|k: int| 0 <= k < old(r)@.len() ==> (#[trigger] old(r)@[k]).1 <= a,
    ensures
        ({
            let lo = trim_lo(t@, a as int, b as int);
            let hi = trim_hi(t@, lo, b as int);
            spans_view(final(r)@) == if lo < hi {
                spans_view(old(r)@).push((lo, hi))
            } else {
                spans_view(old(r)@)
            }
        }),
        spans_ordered(spans_view(final(r)@), t@.len() as int),
        forall|k: int| 0 <= k < final(r)@.len() ==> (#[trigger] final(r)@[k]).1 <= b,
{
    let (lo, hi) = crate::text::trim_bounds(t, a, b);
    let ghost old_r = r@;
    if lo < hi {
        r.push((lo, hi));
        assert(spans_view(r@) =~= spans_view(old_r).push((lo as int, hi as int)));
    }
}

/// The state of the sentence accumulator: the chunks emitted so far and the
/// chunk being built, `[start, end)`, when there is one.
pub struct SentenceState {
    pub chunks: Seq<(int, int)>,
    pub open: bool,
    pub start: int,
    pub end: int,
}

/// Adds the sentence `s` to the accumulator. When the running chunk would grow
/// past `max`, it is emitted (if it holds at least `min` characters) and the
/// next chunk starts with its last `overlap` characters, unless those together
/// with the sentence would exceed `max`; then it starts with the sentence.
pub open spec fn sentence_step(st: SentenceState, s: (int, int), max: int, overlap: int, min: int) -> SentenceState {
    if st.open && s.1 - st.start > max {
        let chunks = if st.end - st.start >= min {
            st.chunks.push((st.start, st.end))
        } else {
            st.chunks
        };
        let seed = if st.end - st.start > overlap {
            st.end - overlap
        } else {
            st.start
        };
        let start = if s.1 - seed <= max {
            seed
        } else {
            s.0
        };
        SentenceState { chunks, open: true, start, end: s.1 }
    } else if st.open {
        SentenceState { chunks: st.chunks, open: true, start: st.start, end: s.1 }
    } else {
        SentenceState { chunks: st.chunks, open: true, start: s.0, end: s.1 }
    }
}

pub open spec fn sentence_fold(sents: Seq<(int, int)>, n: int, max: int, overlap: int, min: int) -> SentenceState
    decreases n,
{
    if n <= 0 {
        SentenceState { chunks: seq![], open: false, start: 0, end: 0 }
    } else {
        sentence_step(sentence_fold(sents, n - 1, max, overlap, min), sents[n - 1], max, overlap, min)
    }
}

/// The chunks once every sentence is in: the running chunk is emitted if it
/// holds at least `min` characters.
pub open spec fn sentence_finish(st: SentenceState, min: int) -> Seq<(int, int)> {
    if st.open && st.end - st.start >= min {
        st.chunks.push((st.start, st.end))
    } else {
        st.chunks
    }
}

/// The sentence-aware chunks of `t`.
pub open spec fn sentence_chunk_spans(t: Seq<char>, max: int, overlap: int, min: int) -> Seq<(int, int)> {
    let sents = sentence_spans(t);
    sentence_finish(sentence_fold(sents, sents.len() as int, max, overlap, min), min)
}

fn sentence_chunk_positions(t: &Vec<char>, text: &str, max: usize, overlap: usize, min: usize) -> (r: Vec<(usize, usize)>)
    requires
        t@ == text@,
    ensures
        spans_view(r@) == sentence_chunk_spans(t@, max as int, overlap as int, min as int),
        forall|i: int| 0 <= i < r@.len() ==> (#[trigger] r@[i]).0 <= r@[i].1 <= t@.len(),
{
    let sents = sentence_positions(t, text);
    let ghost sv = spans_view(sents@);
    let ghost n = t@.len() as int;
    let ns = sents.len();
    let mut chunks: Vec<(usize, usize)> = Vec::new();
    let mut open = false;
    let mut start: usize = 0;
    let mut end: usize = 0;
    let mut i: usize = 0;
    while i < ns
        invariant
            ns == sents@.len(),
            sv == spans_view(sents@),
            sv == sentence_spans(t@),
            n == t@.len(),
            spans_ordered(sv, n),
            i <= ns,
            ({
                let st = sentence_fold(sv, i as int, max as int, overlap as int, min as int);
                &&& spans_view(chunks@) == st.chunks
                &&& st.open == open
                &&& open ==> st.start == start as int && st.end == end as int
            }),
            open ==> start <= end <= n,
            open && i < ns ==> end <= sents@[i as int].0,
            forall|k: int| 0 <= k < chunks@.len() ==> (#[trigger] chunks@[k]).0 <= chunks@[k].1 <= n,
        decreases ns - i,
    {
        let (s0, s1) = sents[i];
        assert(sv[i as int] == (s0 as int, s1 as int));
        if open && s1 - start > max {
            let ghost old_c = chunks@;
            if end - start >= min {
                chunks.push((start, end));
                assert(spans_view(chunks@) =~= spans_view(old_c).push((start as int, end as int)));
            }
            let seed = if end - start > overlap {
                end - overlap
            } else {
                start
            };
            start = if s1 - seed <= max {
                seed
            } else {
                s0
            };
            end = s1;
        } else if open {
            end = s1;
        } else {
            open = true;
            start = s0;
            end = s1;
        }
        if i + 1 < ns {
            assert(sv[i as int].1 <= sv[i + 1].0);
        }
        i = i + 1;
    }
    let ghost old_c = chunks@;
    if open && end - start >= min {
        chunks.push((start, end));
        assert(spans_view(chunks@) =~= spans_view(old_c).push((start as int, end as int)));
    }
    chunks
}

/// The chunks of a text: none for an empty text, the whole text when it fits in
/// `max` characters, and otherwise the sentence-aware or the fixed-size chunks.
pub open spec fn split_spans(t: Seq<char>, max: int, overlap: int, min: int, by_sentences: bool) -> Seq<(int, int)> {
    if t.len() == 0 {
        seq![]
    } else if t.len() <= max {
        seq![(0, t.len() as int)]
    } else if by_sentences {
        sentence_chunk_spans(t, max, overlap, min)
    } else {
        fixed_size_spans(t, max, overlap)
    }
}

/// Positions where a word (a maximal run of non-white-space characters) starts,
/// counted over `s[0..n]`.
pub open spec fn word_starts_prefix(s: Seq<char>, n: int) -> nat
    decreases n,
{
    if n <= 0 {
        0
    } else if !is_white_space(s[n - 1]) && (n == 1 || is_white_space(s[n - 2])) {
        word_starts_prefix(s, n - 1) + 1
    } else {
        word_starts_prefix(s, n - 1)
    }
}

/// The number of white-space separated words of `s`.
pub open spec fn whitespace_word_count(s: Seq<char>) -> nat {
    word_starts_prefix(s, s.len() as int)
}

fn count_whitespace_words(t: &Vec<char>, a: usize, b: usize) -> (r: usize)
    requires
        a <= b <= t.len(),
    ensures
        r == whitespace_word_count(t@.subrange(a as int, b as int)),
{
    let ghost s = t@.subrange(a as int, b as int);
    let mut count: usize = 0;
    let mut i = a;
    while i < b
        invariant
            a <= i <= b <= t.len(),
            s == t@.subrange(a as int, b as int),
            count == word_starts_prefix(s, i - a),
            count <= i - a,
        decreases b - i,
    {
        if !white_space(t[i]) && (i == a || white_space(t[i - 1])) {
            count = count + 1;
        }
        i = i + 1;
    }
    count
}

/// Options for document splitting.
#[derive(Debug)]
pub struct SplitOptions {
    /// Maximum chunk size in characters.
    pub max_chunk_size: usize,
    /// Overlap between chunks in characters.
    pub chunk_overlap: usize,
    /// Split by sentences instead of fixed-size windows.
    pub split_by_sentences: bool,
    /// Sentence-aware chunks shorter than this are dropped.
    pub min_chunk_size: usize,
    /// Preserve paragraph boundaries.
    pub preserve_paragraphs: bool,
}

impl Default for SplitOptions {
    fn default() -> (r: Self)
        ensures
            r.max_chunk_size == 1000,
            r.chunk_overlap == 100,
            r.split_by_sentences,
            r.min_chunk_size == 50,
            r.preserve_paragraphs,
    {
        SplitOptions {
            max_chunk_size: 1000,
            chunk_overlap: 100,
            split_by_sentences: true,
            min_chunk_size: 50,
            preserve_paragraphs: true,
        }
    }
}

impl SplitOptions {
    /// The parameters can be used: a positive maximum size, larger than the overlap.
    pub open spec fn valid(&self) -> bool {
        0 < self.max_chunk_size && self.chunk_overlap < self.max_chunk_size
    }

    pub open spec fn spans(&self, t: Seq<char>) -> Seq<(int, int)> {
        split_spans(
            t,
            self.max_chunk_size as int,
            self.chunk_overlap as int,
            self.min_chunk_size as int,
            self.split_by_sentences,
        )
    }
}

/// A chunk of a text, with its position in characters.
#[derive(Debug)]
pub struct TextChunk {
    pub content: String,
    pub chunk_index: usize,
    pub start_char: usize,
    pub end_char: usize,
    pub word_count: usize,
    pub char_count: usize,
}

impl TextChunk {
    /// The chunk is the `index`-th chunk of `t`, spanning `span`.
    pub open spec fn describes(&self, t: Seq<char>, index: int, span: (int, int)) -> bool {
        &&& self.chunk_index == index
        &&& self.start_char <= self.end_char <= t.len()
        &&& self.start_char == span.0
        &&& self.end_char == span.1
        &&& self.content@ == t.subrange(span.0, span.1)
        &&& self.char_count == self.content@.len()
        &&& self.word_count == whitespace_word_count(self.content@)
    }
}

/// The chunks of `t` at the given positions, numbered from 0.
pub open spec fn chunks_describe(v: Seq<TextChunk>, t: Seq<char>, spans: Seq<(int, int)>) -> bool {
    &&& v.len() == spans.len()
    &&& forall|i: int| 0 <= i < v.len() ==> (#[trigger] v[i]).describes(t, i, spans[i])
}

/// Splits documents into chunks.
pub struct DocumentSplitter {}

/// The chunk positions of `t` under the given options.
fn split_positions(t: &Vec<char>, text: &str, options: &SplitOptions) -> (r: Vec<(usize, usize)>)
    requires
        t@ == text@,
        options.max_chunk_size > 0,
    ensures
        spans_view(r@) == options.spans(t@),
        forall|i: int| 0 <= i < r@.len() ==> (#[trigger] r@[i]).0 <= r@[i].1 <= t@.len(),
{
    let n = t.len();
    if n == 0 {
        let r: Vec<(usize, usize)> = Vec::new();
        assert(spans_view(r@) =~= seq![]);
        r
    } else if n <= options.max_chunk_size {
        let mut r: Vec<(usize, usize)> = Vec::new();
        r.push((0, n));
        assert(spans_view(r@) =~= seq![(0int, n as int)]);
        r
    } else if options.split_by_sentences {
        sentence_chunk_positions(
            t,
            text,
            options.max_chunk_size,
            options.chunk_overlap,
            options.min_chunk_size,
        )
    } else {
        fixed_spans(t, options.max_chunk_size, options.chunk_overlap)
    }
}

impl DocumentSplitter {
    pub fn new() -> Self {
        DocumentSplitter {  }
    }

    /// Splits `text` into chunks. Fails with a processing error when the maximum
    /// size is zero or not larger than the overlap.
    ///
    /// In sentence mode a new chunk starts with the last `overlap` characters of
    /// the chunk just emitted; where those together with the next sentence would
    /// pass the maximum size, it starts with that sentence alone instead. Seeding
    /// every chunk with the overlap and never passing the maximum cannot both
    /// hold; the size limit wins.
    pub fn split_text(&self, text: &str, options: &SplitOptions) -> (r: Result<
        Vec<TextChunk>,
        DocLoaderError,
    >)
        ensures
            r is Err <==> !options.valid(),
            r is Err ==> r->Err_0 is Processing,
            r is Ok ==> chunks_describe(r->Ok_0@, text@, options.spans(text@)),
    {
        if options.max_chunk_size == 0 || options.chunk_overlap >= options.max_chunk_size {
            return Err(
                DocLoaderError::Processing(
                    "chunk size must be positive and larger than the overlap".to_owned(),
                ),
            );
        }
        let t = crate::text::chars_of(text);
        let spans = split_positions(&t, text, options);
        let mut out: Vec<TextChunk> = Vec::new();
        let mut i: usize = 0;
        while i < spans.len()
            invariant
                t@ == text@,
                spans_view(spans@) == options.spans(t@),
                forall|k: int| 0 <= k < spans@.len() ==> (#[trigger] spans@[k]).0 <= spans@[k].1 <= t@.len(),
                i <= spans@.len(),
                out@.len() == i,
                forall|k: int| 0 <= k < i ==> (#[trigger] out@[k]).describes(t@, k, spans_view(spans@)[k]),
            decreases spans@.len() - i,
        {
            let (a, b) = spans[i];
            let content = substring_of(&t, a, b);
            let word_count = count_whitespace_words(&t, a, b);
            out.push(TextChunk {
                content,
                chunk_index: i,
                start_char: a,
                end_char: b,
                word_count,
                char_count: b - a,
            });
            i = i + 1;
        }
        Ok(out)
    }
}

impl Default for DocumentSplitter {
    fn default() -> Self {
        DocumentSplitter::new()
    }
}

/// The texts of the fixed-size chunks of `text`.
pub open spec fn fixed_chunk_texts_match(r: Seq<String>, t: Seq<char>, max: int, overlap: int) -> bool {
    let spans = fixed_size_spans(t, max, overlap);
    &&& r.len() == spans.len()
    &&& forall|i: int| 0 <= i < r.len() ==> (#[trigger] r[i])@ == t.subrange(spans[i].0, spans[i].1)
}

/// Splits `text` into fixed-size chunks of at most `max_size` characters that
/// overlap by `overlap` characters, breaking at spaces where it can.
pub fn chunk_text(text: &str, max_size: usize, overlap: usize) -> (r: Vec<String>)
    requires
        max_size > 0,
    ensures
        fixed_chunk_texts_match(r@, text@, max_size as int, overlap as int),
{
    let t = crate::text::chars_of(text);
    let spans = fixed_spans(&t, max_size, overlap);
    let mut out: Vec<String> = Vec::new();
    let mut i: usize = 0;
    while i < spans.len()
        invariant
            t@ == text@,
            spans_view(spans@) == fixed_size_spans(t@, max_size as int, overlap as int),
            forall|k: int| 0 <= k < spans@.len() ==> (#[trigger] spans@[k]).0 <= spans@[k].1 <= t@.len(),
            i <= spans@.len(),
            out@.len() == i,
            forall|k: int| 0 <= k < i ==> (#[trigger] out@[k])@ == t@.subrange(
                spans_view(spans@)[k].0,
                spans_view(spans@)[k].1,
            ),
        decreases spans@.len() - i,
    {
        let (a, b) = spans[i];
        out.push(substring_of(&t, a, b));
        i = i + 1;
    }
    out
}

/// A text no longer than the maximum size is one chunk that spans all of it,
/// in either mode. (`split_text` gives these chunks when its parameters can be
/// used, and fails otherwise.)
pub proof fn lemma_short_text_is_one_chunk(t: Seq<char>, options: SplitOptions)
    requires
        0 < t.len() <= options.max_chunk_size,
    ensures
        options.spans(t) == seq![(0int, t.len() as int)],
        fixed_size_spans(t, options.max_chunk_size as int, options.chunk_overlap as int) == seq![
            (0int, t.len() as int),
        ],
{
}

/// A chunk is "bounded" when it holds at most `max` characters, or when, in
/// sentence mode, it is a single sentence (which may itself be longer).
pub open spec fn chunk_within_limit(
    c: (int, int),
    t: Seq<char>,
    max: int,
    by_sentences: bool,
) -> bool {
    c.1 - c.0 <= max || (by_sentences && sentence_spans(t).contains(c))
}

proof fn lemma_fixed_spans_from_bounded(t: Seq<char>, start: int, max: int, overlap: int)
    ensures
        forall|i: int|
            0 <= i < fixed_spans_from(t, start, max, overlap).len() ==> {
                let c = #[trigger] fixed_spans_from(t, start, max, overlap)[i];
                start <= c.0 <= c.1 && c.1 - c.0 <= max
            },
    decreases t.len() - start,
{
    if !(start < 0 || start >= t.len() || max <= 0 || overlap < 0) {
        let e0 = window_end(t.len() as int, start, max);
        lemma_last_space_in_range(t, start, e0);
        let e = fixed_piece_end(t, start, max);
        if window_end(t.len() as int, start, max) < t.len() {
            let nx = next_window_start(start, e - start, overlap);
            lemma_fixed_spans_from_bounded(t, nx, max, overlap);
            let rest = fixed_spans_from(t, nx, max, overlap);
            let all = seq![(start, e)] + rest;
            assert forall|i: int| 0 <= i < all.len() implies {
                let c = #[trigger] all[i];
                start <= c.0 <= c.1 && c.1 - c.0 <= max
            } by {
                if i > 0 {
                    assert(all[i] == rest[i - 1]);
                }
            }
        }
    }
}

/// Every chunk of the accumulator is bounded, and so is the running chunk.
pub open spec fn sentence_state_bounded(st: SentenceState, sents: Seq<(int, int)>, max: int) -> bool {
    &&& forall|i: int|
        0 <= i < st.chunks.len() ==> (#[trigger] st.chunks[i]).1 - st.chunks[i].0 <= max
            || sents.contains(st.chunks[i])
    &&& st.open ==> st.end - st.start <= max || sents.contains((st.start, st.end))
}

proof fn lemma_sentence_fold_bounded(sents: Seq<(int, int)>, n: int, max: int, overlap: int, min: int)
    requires
        0 <= n <= sents.len(),
    ensures
        sentence_state_bounded(sentence_fold(sents, n, max, overlap, min), sents, max),
    decreases n,
{
    if n > 0 {
        lemma_sentence_fold_bounded(sents, n - 1, max, overlap, min);
        let st = sentence_fold(sents, n - 1, max, overlap, min);
        let s = sents[n - 1];
        assert(sents.contains(s));
        let nx = sentence_step(st, s, max, overlap, min);
        assert forall|i: int| 0 <= i < nx.chunks.len() implies (#[trigger] nx.chunks[i]).1
            - nx.chunks[i].0 <= max || sents.contains(nx.chunks[i]) by {
            if i < st.chunks.len() {
                assert(nx.chunks[i] == st.chunks[i]);
            }
        }
    }
}

/// No chunk is longer than the maximum size, except a single sentence that is
/// itself longer (in sentence mode).
pub proof fn lemma_chunks_within_limit(t: Seq<char>, options: SplitOptions)
    ensures
        forall|i: int|
            0 <= i < options.spans(t).len() ==> chunk_within_limit(
                #[trigger] options.spans(t)[i],
                t,
                options.max_chunk_size as int,
                options.split_by_sentences,
            ),
{
    let max = options.max_chunk_size as int;
    let overlap = options.chunk_overlap as int;
    let min = options.min_chunk_size as int;
    if t.len() > max {
        if options.split_by_sentences {
            let sents = sentence_spans(t);
            lemma_sentence_fold_bounded(sents, sents.len() as int, max, overlap, min);
            let st = sentence_fold(sents, sents.len() as int, max, overlap, min);
            let out = sentence_finish(st, min);
            assert forall|i: int| 0 <= i < out.len() implies chunk_within_limit(
                #[trigger] out[i],
                t,
                max,
                true,
            ) by {
                if i < st.chunks.len() {
                    assert(out[i] == st.chunks[i]);
                }
            }
        } else {
            lemma_fixed_spans_from_bounded(t, 0, max, overlap);
        }
    }
}

} // verus!
