//! Text cleaning: line-break normalisation, removal of control characters,
//! collapsing of white space and trimming.
use vstd::prelude::*;

verus! {

/// Unicode `White_Space` property.
pub open spec fn is_white_space(c: char) -> bool {
    let u = c as u32;
    (0x09 <= u && u <= 0x0D) || u == 0x20 || u == 0x85 || u == 0xA0 || u == 0x1680
        || (0x2000 <= u && u <= 0x200A) || u == 0x2028 || u == 0x2029 || u == 0x202F
        || u == 0x205F || u == 0x3000
}

/// Unicode general category `Cc`.
pub open spec fn is_control(c: char) -> bool {
    let u = c as u32;
    u <= 0x1F || (0x7F <= u && u <= 0x9F)
}

/// Characters that survive the control-character filter.
pub open spec fn is_kept(c: char) -> bool {
    !is_control(c) || c == '\n' || c == '\t'
}

pub fn white_space(c: char) -> (r: bool)
    ensures
        r == is_white_space(c),
{
    let u = c as u32;
    (0x09 <= u && u <= 0x0D) || u == 0x20 || u == 0x85 || u == 0xA0 || u == 0x1680
        || (0x2000 <= u && u <= 0x200A) || u == 0x2028 || u == 0x2029 || u == 0x202F
        || u == 0x205F || u == 0x3000
}

fn kept(c: char) -> (r: bool)
    ensures
        r == is_kept(c),
{
    let u = c as u32;
    !(u <= 0x1F || (0x7F <= u && u <= 0x9F)) || c == '\n' || c == '\t'
}

/// What the character at `i` becomes when `\r\n` and lone `\r` turn into `\n`.
pub open spec fn line_break_piece(s: Seq<char>, i: int) -> Seq<char> {
    if s[i] == '\r' {
        if i + 1 < s.len() && s[i + 1] == '\n' {
            seq![]
        } else {
            seq!['\n']
        }
    } else {
        seq![s[i]]
    }
}

pub open spec fn line_breaks_prefix(s: Seq<char>, n: int) -> Seq<char>
    decreases n,
{
    if n <= 0 {
        seq![]
    } else {
        line_breaks_prefix(s, n - 1) + line_break_piece(s, n - 1)
    }
}

/// `s` with every `\r\n` and every remaining `\r` replaced by `\n`.
pub open spec fn line_breaks_normalized(s: Seq<char>) -> Seq<char> {
    line_breaks_prefix(s, s.len() as int)
}

pub open spec fn kept_prefix(s: Seq<char>, n: int) -> Seq<char>
    decreases n,
{
    if n <= 0 {
        seq![]
    } else if is_kept(s[n - 1]) {
        kept_prefix(s, n - 1).push(s[n - 1])
    } else {
        kept_prefix(s, n - 1)
    }
}

/// `s` without its control characters, `\n` and `\t` excepted.
pub open spec fn controls_removed(s: Seq<char>) -> Seq<char> {
    kept_prefix(s, s.len() as int)
}

/// `s` with each maximal run of white space replaced by one space.
pub open spec fn collapsed_white_space(s: Seq<char>) -> Seq<char>
    decreases s.len(),
{
    if s.len() == 0 {
        s
    } else if is_white_space(s.last()) {
        let p = collapsed_white_space(s.drop_last());
        if s.len() >= 2 && is_white_space(s[s.len() - 2]) {
            p
        } else {
            p.push(' ')
        }
    } else {
        collapsed_white_space(s.drop_last()).push(s.last())
    }
}

pub open spec fn trim_start(s: Seq<char>) -> Seq<char>
    decreases s.len(),
{
    if s.len() > 0 && is_white_space(s[0]) {
        trim_start(s.drop_first())
    } else {
        s
    }
}

pub open spec fn trim_end(s: Seq<char>) -> Seq<char>
    decreases s.len(),
{
    if s.len() > 0 && is_white_space(s.last()) {
        trim_end(s.drop_last())
    } else {
        s
    }
}

/// `s` without leading and trailing white space.
pub open spec fn trimmed(s: Seq<char>) -> Seq<char> {
    trim_end(trim_start(s))
}

/// The cleaned form of a text: line breaks normalised, control characters
/// removed, white space collapsed to single spaces, ends trimmed.
pub open spec fn normalized(s: Seq<char>) -> Seq<char> {
    trimmed(collapsed_white_space(controls_removed(line_breaks_normalized(s))))
}

/// The first position in `t[a..b]` that is not white space, or `b`.
pub open spec fn trim_lo(t: Seq<char>, a: int, b: int) -> int
    decreases b - a,
{
    if a < b && is_white_space(t[a]) {
        trim_lo(t, a + 1, b)
    } else {
        a
    }
}

/// One past the last position in `t[lo..b]` that is not white space, or `lo`.
pub open spec fn trim_hi(t: Seq<char>, lo: int, b: int) -> int
    decreases b - lo,
{
    if b > lo && is_white_space(t[b - 1]) {
        trim_hi(t, lo, b - 1)
    } else {
        b
    }
}

/// A text that cleaning leaves as it is.
pub open spec fn is_clean(s: Seq<char>) -> bool {
    &&& forall|i: int| 0 <= i < s.len() ==> !is_control(#[trigger] s[i])
    &&& forall|i: int| 0 <= i < s.len() && is_white_space(#[trigger] s[i]) ==> s[i] == ' '
    &&& forall|i: int|
        0 < i < s.len() && is_white_space(#[trigger] s[i]) ==> !is_white_space(s[i - 1])
    &&& s.len() > 0 ==> !is_white_space(s[0]) && !is_white_space(s.last())
}

proof fn lemma_kept_prefix_kept(s: Seq<char>, n: int)
    requires
        0 <= n <= s.len(),
    ensures
        forall|i: int|
            0 <= i < kept_prefix(s, n).len() ==> is_kept(#[trigger] kept_prefix(s, n)[i]),
    decreases n,
{
    if n > 0 {
        lemma_kept_prefix_kept(s, n - 1);
        let p = kept_prefix(s, n - 1);
        if is_kept(s[n - 1]) {
            assert forall|i: int| 0 <= i < p.push(s[n - 1]).len() implies is_kept(
                #[trigger] p.push(s[n - 1])[i],
            ) by {
                if i < p.len() {
                    assert(p.push(s[n - 1])[i] == p[i]);
                }
            }
        }
    }
}

proof fn lemma_collapsed_shape(s: Seq<char>)
    requires
        forall|i: int| 0 <= i < s.len() ==> is_kept(#[trigger] s[i]),
    ensures
        ({
            let c = collapsed_white_space(s);
            &&& s.len() == 0 <==> c.len() == 0
            &&& s.len() > 0 ==> (is_white_space(c.last()) <==> is_white_space(s.last()))
            &&& forall|i: int| 0 <= i < c.len() ==> !is_control(#[trigger] c[i])
            &&& forall|i: int|
                0 <= i < c.len() && is_white_space(#[trigger] c[i]) ==> c[i] == ' '
            &&& forall|i: int|
                0 < i < c.len() && is_white_space(#[trigger] c[i]) ==> !is_white_space(
                    c[i - 1],
                )
        }),
    decreases s.len(),
{
    if s.len() > 0 {
        let d = s.drop_last();
        assert forall|i: int| 0 <= i < d.len() implies is_kept(#[trigger] d[i]) by {
            assert(d[i] == s[i]);
        }
        lemma_collapsed_shape(d);
        assert(is_kept(s[s.len() - 1]));
        if s.len() >= 2 {
            assert(d.last() == s[s.len() - 2]);
        }
    }
}

proof fn lemma_trim_start(s: Seq<char>) -> (k: int)
    ensures
        0 <= k <= s.len(),
        trim_start(s) == s.subrange(k, s.len() as int),
        k < s.len() ==> !is_white_space(s[k]),
    decreases s.len(),
{
    if s.len() > 0 && is_white_space(s[0]) {
        let k1 = lemma_trim_start(s.drop_first());
        assert(s.drop_first().subrange(k1, s.len() - 1) =~= s.subrange(k1 + 1, s.len() as int));
        k1 + 1
    } else {
        assert(s.subrange(0, s.len() as int) =~= s);
        0
    }
}

proof fn lemma_trim_end(s: Seq<char>) -> (k: int)
    ensures
        0 <= k <= s.len(),
        trim_end(s) == s.subrange(0, k),
        k > 0 ==> !is_white_space(s[k - 1]),
    decreases s.len(),
{
    if s.len() > 0 && is_white_space(s.last()) {
        let k1 = lemma_trim_end(s.drop_last());
        assert(s.drop_last().subrange(0, k1) =~= s.subrange(0, k1));
        k1
    } else {
        assert(s.subrange(0, s.len() as int) =~= s);
        s.len() as int
    }
}

/// Cleaning always yields a clean text.
pub proof fn lemma_normalized_is_clean(t: Seq<char>)
    ensures
        is_clean(normalized(t)),
{
    let x = controls_removed(line_breaks_normalized(t));
    lemma_kept_prefix_kept(line_breaks_normalized(t), line_breaks_normalized(t).len() as int);
    lemma_collapsed_shape(x);
    let c = collapsed_white_space(x);
    let k1 = lemma_trim_start(c);
    let u = c.subrange(k1, c.len() as int);
    let k2 = lemma_trim_end(u);
    let r = u.subrange(0, k2);
    assert(normalized(t) == r);
    assert forall|i: int| 0 <= i < r.len() implies r[i] == c[i + k1] by {}
    if r.len() > 0 {
        assert(r[0] == u[0]);
        assert(r.last() == u[k2 - 1]);
    }
}

proof fn lemma_line_breaks_identity(s: Seq<char>, n: int)
    requires
        0 <= n <= s.len(),
        forall|i: int| 0 <= i < s.len() ==> #[trigger] s[i] != '\r',
    ensures
        line_breaks_prefix(s, n) == s.subrange(0, n),
    decreases n,
{
    if n > 0 {
        lemma_line_breaks_identity(s, n - 1);
        assert(s.subrange(0, n - 1) + seq![s[n - 1]] =~= s.subrange(0, n));
    }
}

proof fn lemma_kept_identity(s: Seq<char>, n: int)
    requires
        0 <= n <= s.len(),
        forall|i: int| 0 <= i < s.len() ==> is_kept(#[trigger] s[i]),
    ensures
        kept_prefix(s, n) == s.subrange(0, n),
    decreases n,
{
    if n > 0 {
        lemma_kept_identity(s, n - 1);
        assert(s.subrange(0, n - 1).push(s[n - 1]) =~= s.subrange(0, n));
    }
}

proof fn lemma_collapsed_identity(s: Seq<char>)
    requires
        forall|i: int| 0 <= i < s.len() && is_white_space(#[trigger] s[i]) ==> s[i] == ' ',
        forall|i: int|
            0 < i < s.len() && is_white_space(#[trigger] s[i]) ==> !is_white_space(s[i - 1]),
    ensures
        collapsed_white_space(s) == s,
    decreases s.len(),
{
    if s.len() > 0 {
        let d = s.drop_last();
        assert forall|i: int| 0 <= i < d.len() && is_white_space(#[trigger] d[i]) implies d[i]
            == ' ' by {
            assert(d[i] == s[i]);
        }
        assert forall|i: int|
            0 < i < d.len() && is_white_space(#[trigger] d[i]) implies !is_white_space(
            d[i - 1],
        ) by {
            assert(d[i] == s[i] && d[i - 1] == s[i - 1]);
        }
        lemma_collapsed_identity(d);
        assert(d.push(s.last()) =~= s);
        if is_white_space(s.last()) {
            assert(s[s.len() - 1] == ' ');
            if s.len() >= 2 {
                assert(!is_white_space(s[s.len() - 2]));
            }
        }
    }
}

/// Cleaning leaves a clean text unchanged.
pub proof fn lemma_clean_is_fixed_point(s: Seq<char>)
    requires
        is_clean(s),
    ensures
        normalized(s) == s,
{
    assert forall|i: int| 0 <= i < s.len() implies #[trigger] s[i] != '\r' by {
        assert(!is_control(s[i]));
    }
    lemma_line_breaks_identity(s, s.len() as int);
    assert(s.subrange(0, s.len() as int) =~= s);
    assert forall|i: int| 0 <= i < s.len() implies is_kept(#[trigger] s[i]) by {
        assert(!is_control(s[i]));
    }
    lemma_kept_identity(s, s.len() as int);
    lemma_collapsed_identity(s);
    assert(trim_start(s) == s);
    assert(trim_end(s) == s);
}

/// Cleaning is idempotent: cleaning a cleaned text changes nothing.
pub proof fn lemma_clean_idempotent(t: Seq<char>)
    ensures
        normalized(normalized(t)) == normalized(t),
{
    lemma_normalized_is_clean(t);
    lemma_clean_is_fixed_point(normalized(t));
}

/// The characters of a string, in order.
pub fn chars_of(s: &str) -> (r: Vec<char>)
    ensures
        r@ == s@,
{
    let mut r: Vec<char> = Vec::new();
    for c in it: s.chars()
        invariant
            r@ == it.seq().take(it.index() as int),
    {
        r.push(c);
    }
    r
}

/// Relies on `String: FromIterator<char>`: the string holds the characters in order.
#[verifier::external_body]
pub(crate) fn string_from_chars(v: &[char]) -> (r: String)
    ensures
        r@ == v@,
{
    v.iter().collect()
}

/// Relies on `regex::Regex::replace_all` with the pattern `\s+` and the
/// replacement `" "`: `\s` is the Unicode `White_Space` class and `+` is greedy,
/// so each maximal run of white space is replaced by one space.
#[verifier::external_body]
pub(crate) fn collapse_white_space(s: &str) -> (r: String)
    ensures
        r@ == collapsed_white_space(s@),
{
    regex::Regex::new(r"\s+").unwrap().replace_all(s, " ").into_owned()
}

fn line_breaks_normalized_chars(s: &Vec<char>) -> (r: Vec<char>)
    ensures
        r@ == line_breaks_normalized(s@),
{
    let mut r: Vec<char> = Vec::new();
    let n = s.len();
    let mut i: usize = 0;
    while i < n
        invariant
            n == s.len(),
            i <= n,
            r@ == line_breaks_prefix(s@, i as int),
        decreases n - i,
    {
        let c = s[i];
        if c == '\r' {
            if !(i + 1 < n && s[i + 1] == '\n') {
                r.push('\n');
            }
        } else {
            r.push(c);
        }
        proof {
            assert(line_breaks_prefix(s@, i + 1) == line_breaks_prefix(s@, i as int)
                + line_break_piece(s@, i as int));
        }
        assert(r@ =~= line_breaks_prefix(s@, i + 1));
        i = i + 1;
    }
    r
}

/// Replaces `\r\n` and lone `\r` by `\n`.
pub fn normalize_line_breaks(text: &str) -> (r: String)
    ensures
        r@ == line_breaks_normalized(text@),
{
    let cs = chars_of(text);
    let r = line_breaks_normalized_chars(&cs);
    string_from_chars(r.as_slice())
}

fn controls_removed_chars(s: &Vec<char>) -> (r: Vec<char>)
    ensures
        r@ == controls_removed(s@),
{
    let mut r: Vec<char> = Vec::new();
    let n = s.len();
    let mut i: usize = 0;
    while i < n
        invariant
            n == s.len(),
            i <= n,
            r@ == kept_prefix(s@, i as int),
        decreases n - i,
    {
        if kept(s[i]) {
            r.push(s[i]);
        }
        i = i + 1;
    }
    r
}

/// The bounds `(lo, hi)` of `t[a..b]` without its leading and trailing white space.
pub fn trim_bounds(t: &Vec<char>, a: usize, b: usize) -> (r: (usize, usize))
    requires
        a <= b <= t.len(),
    ensures
        a <= r.0 <= r.1 <= b,
        t@.subrange(r.0 as int, r.1 as int) == trimmed(t@.subrange(a as int, b as int)),
        r.0 == trim_lo(t@, a as int, b as int),
        r.1 == trim_hi(t@, r.0 as int, b as int),
{
    let mut lo = a;
    while lo < b && white_space(t[lo])
        invariant
            a <= lo <= b <= t.len(),
            trim_start(t@.subrange(a as int, b as int)) == trim_start(
                t@.subrange(lo as int, b as int),
            ),
            trim_lo(t@, a as int, b as int) == trim_lo(t@, lo as int, b as int),
        decreases b - lo,
    {
        assert(t@.subrange(lo as int, b as int).drop_first() =~= t@.subrange(
            lo + 1,
            b as int,
        ));
        lo = lo + 1;
    }
    let mut hi = b;
    while hi > lo && white_space(t[hi - 1])
        invariant
            a <= lo <= hi <= b <= t.len(),
            trim_end(t@.subrange(lo as int, b as int)) == trim_end(
                t@.subrange(lo as int, hi as int),
            ),
            lo == trim_lo(t@, a as int, b as int),
            trim_hi(t@, lo as int, b as int) == trim_hi(t@, lo as int, hi as int),
        decreases hi - lo,
    {
        assert(t@.subrange(lo as int, hi as int).drop_last() =~= t@.subrange(
            lo as int,
            hi - 1,
        ));
        hi = hi - 1;
    }
    (lo, hi)
}

/// Copies `t[a..b]` into a string.
pub fn substring_of(t: &Vec<char>, a: usize, b: usize) -> (r: String)
    requires
        a <= b <= t.len(),
    ensures
        r@ == t@.subrange(a as int, b as int),
{
    let mut v: Vec<char> = Vec::new();
    let mut i = a;
    while i < b
        invariant
            a <= i <= b <= t.len(),
            v@ == t@.subrange(a as int, i as int),
        decreases b - i,
    {
        v.push(t[i]);
        assert(v@ =~= t@.subrange(a as int, i + 1));
        i = i + 1;
    }
    string_from_chars(v.as_slice())
}

/// Whether two strings hold the same characters.
pub fn same_text(a: &str, b: &str) -> (r: bool)
    ensures
        r == (a@ == b@),
{
    let x = chars_of(a);
    let y = chars_of(b);
    if x.len() != y.len() {
        return false;
    }
    let mut i: usize = 0;
    while i < x.len()
        invariant
            x@ == a@,
            y@ == b@,
            x@.len() == y@.len(),
            i <= x@.len(),
            forall|j: int| 0 <= j < i ==> x@[j] == y@[j],
        decreases x@.len() - i,
    {
        if x[i] != y[i] {
            return false;
        }
        i = i + 1;
    }
    assert(x@ =~= y@);
    true
}

/// Where the run of white space that holds position `k` starts.
pub open spec fn white_run_begin(t: Seq<char>, k: int) -> int
    decreases k,
{
    if 0 < k <= t.len() && is_white_space(t[k - 1]) {
        white_run_begin(t, k - 1)
    } else {
        k
    }
}

/// One past the end of the run of white space that holds position `k`.
pub open spec fn white_run_end(t: Seq<char>, k: int) -> int
    decreases t.len() - k,
{
    if 0 <= k < t.len() && is_white_space(t[k]) {
        white_run_end(t, k + 1)
    } else {
        k
    }
}

/// The first `\n` in `t[a..b]`, or `b`.
pub open spec fn first_newline(t: Seq<char>, a: int, b: int) -> int
    decreases b - a,
{
    if a < b && t[a] != '\n' {
        first_newline(t, a + 1, b)
    } else {
        a
    }
}

/// The last `\n` in `t[a..b]`, or `a - 1`.
pub open spec fn last_newline(t: Seq<char>, a: int, b: int) -> int
    decreases b - a,
{
    if a < b && t[b - 1] != '\n' {
        last_newline(t, a, b - 1)
    } else {
        b - 1
    }
}

/// What position `k` becomes when, in each run of white space that holds two
/// or more newlines, the part from its first to its last newline is replaced
/// by `"\n\n"`.
pub open spec fn empty_line_piece(t: Seq<char>, k: int) -> Seq<char> {
    let s = white_run_begin(t, k);
    let e = white_run_end(t, k);
    let f = first_newline(t, s, e);
    let l = last_newline(t, s, e);
    if is_white_space(t[k]) && f < l && f <= k <= l {
        if k == f {
            seq!['\n', '\n']
        } else {
            seq![]
        }
    } else {
        seq![t[k]]
    }
}

pub open spec fn empty_lines_prefix(t: Seq<char>, n: int) -> Seq<char>
    decreases n,
{
    if n <= 0 {
        seq![]
    } else {
        empty_lines_prefix(t, n - 1) + empty_line_piece(t, n - 1)
    }
}

/// `t` with each run of empty (or blank) lines turned into one empty line.
pub open spec fn empty_lines_collapsed(t: Seq<char>) -> Seq<char> {
    empty_lines_prefix(t, t.len() as int)
}

/// Relies on `regex::Regex::replace_all` with the pattern `\n\s*\n` and the
/// replacement `"\n\n"`: matches are leftmost-first and do not overlap, `\s` is
/// the Unicode `White_Space` class and `*` is greedy, so a match starts at the
/// first newline of a run of white space and ends after its last newline, and
/// only runs with two or more newlines match.
#[verifier::external_body]
fn replace_empty_line_runs(s: &str) -> (r: String)
    ensures
        r@ == empty_lines_collapsed(s@),
{
    regex::Regex::new(r"\n\s*\n").unwrap().replace_all(s, "\n\n").into_owned()
}

/// Replaces each run of empty (or blank) lines by a single empty line.
pub fn remove_empty_lines(text: &str) -> (r: String)
    ensures
        r@ == empty_lines_collapsed(text@),
{
    replace_empty_line_runs(text)
}

/// Cleans a text: `\r\n` and `\r` become `\n`, control characters other than
/// `\n` and `\t` are removed, each run of white space becomes one space, and
/// leading and trailing white space is dropped.
pub fn clean_text(text: &str) -> (r: String)
    ensures
        r@ == normalized(text@),
{
    let cs = chars_of(text);
    let lines = line_breaks_normalized_chars(&cs);
    let kept_chars = controls_removed_chars(&lines);
    let filtered = string_from_chars(kept_chars.as_slice());
    let collapsed = collapse_white_space(filtered.as_str());
    let cc = chars_of(collapsed.as_str());
    let (lo, hi) = trim_bounds(&cc, 0, cc.len());
    assert(cc@.subrange(0, cc@.len() as int) =~= cc@);
    substring_of(&cc, lo, hi)
}

} // verus!
