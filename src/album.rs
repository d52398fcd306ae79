//! The album resolver: finding the file listing embedded in an album page, turning its script
//! literal into strict structured text, and reading a single-file page.
use vstd::prelude::*;
use crate::error::EngineError;
use crate::text::{chars_of, opt_view, contains_text, has_text, is_space, is_white_space, parse_signed,
    signed_literal, string_of, trim, trim_chars};

verus! {

/// One file of a remote album.
#[derive(Debug, Clone)]
pub struct AlbumFile {
    pub id: i64,
    pub name: String,
    pub original: String,
    pub slug: String,
    pub file_type: String,
    pub extension: String,
    pub size: i64,
    pub timestamp: String,
    pub thumbnail: String,
    pub cdn_endpoint: String,
}

/// The page marker that the album listing follows, and the bracketed literal it is assigned.
pub const ALBUM_FILES_PATTERN: &'static str = r"window\.albumFiles\s*=\s*\[\s*([\s\S]*?)\s*\]\s*;";

/// The attribute that carries a single file's number.
pub const FILE_ID_PATTERN: &'static str = r#"data-file-id="(\d+)""#;

/// The heading that carries a single file's original name.
pub const FILE_NAME_PATTERN: &'static str = r#"<h1 class="text-subs font-semibold text-base sm:text-lg truncate">([^<]+)</h1>"#;

/// The text of the first capture group of the leftmost match of a regular expression, as the
/// `regex` crate finds it; `None` where the pattern does not compile, nothing matches, or the
/// group takes no part in the match.
pub uninterp spec fn regex_first_capture(pattern: Seq<char>, text: Seq<char>) -> Option<Seq<char>>;

/// Relies on `regex::Regex::new` and `Regex::captures`: the first group of the leftmost match
/// of `pattern` in `text`, which depends on the two texts alone.
#[verifier::external_body]
fn first_capture(pattern: &str, text: &str) -> (r: Option<String>)
    ensures
        match r {
            Some(c) => regex_first_capture(pattern@, text@) == Some(c@),
            None => regex_first_capture(pattern@, text@) is None,
        },
{
    let re = regex::Regex::new(pattern).ok()?;
    re.captures(text).and_then(|c| c.get(1)).map(|m| m.as_str().to_string())
}

/// Whether a character belongs to the word class `\w` of the `regex` crate: letters, marks,
/// decimal digits, connector punctuation and joiners, as Unicode defines them.
pub uninterp spec fn is_word_char(c: char) -> bool;

/// Relies on `regex_syntax::is_word_character`: membership in the Unicode word class, which
/// depends on the character alone.
#[verifier::external_body]
fn is_word(c: char) -> (r: bool)
    ensures
        r == is_word_char(c),
{
    regex_syntax::is_word_character(c)
}

/// The length of the run of white space at `j`.
pub open spec fn ws_len(s: Seq<char>, j: int) -> nat
    decreases s.len() - j,
{
    if 0 <= j < s.len() && is_white_space(s[j]) {
        1 + ws_len(s, j + 1)
    } else {
        0
    }
}

/// A character of a bare key: one of the word class (which holds no quote, colon or white
/// space).
pub open spec fn is_key_char(c: char) -> bool {
    is_word_char(c) && c != '"' && c != ':' && !is_white_space(c)
}

/// The length of the run of key characters at `j`.
pub open spec fn word_len(s: Seq<char>, j: int) -> nat
    decreases s.len() - j,
{
    if 0 <= j < s.len() && is_key_char(s[j]) {
        1 + word_len(s, j + 1)
    } else {
        0
    }
}

pub open spec fn is_closer(c: char) -> bool {
    c == '}' || c == ']'
}

/// Where the closing bracket after a trailing comma at `i` stands: `i` holds a comma that only
/// white space separates from a `}` or `]`.
pub open spec fn closer_of_comma(s: Seq<char>, i: int) -> int {
    i + 1 + ws_len(s, i + 1)
}

pub open spec fn trailing_comma_at(s: Seq<char>, i: int) -> bool {
    0 <= i < s.len() && s[i] == ',' && closer_of_comma(s, i) < s.len() && is_closer(
        s[closer_of_comma(s, i)],
    )
}

/// The text from `i` on with each trailing comma removed, together with the white space that
/// separates it from its closing bracket; the scan resumes after that bracket.
pub open spec fn strip_from(s: Seq<char>, i: int) -> Seq<char>
    decreases s.len() - i,
{
    if i < 0 || i >= s.len() {
        Seq::empty()
    } else if trailing_comma_at(s, i) {
        seq![s[closer_of_comma(s, i)]] + strip_from(s, closer_of_comma(s, i) + 1)
    } else {
        seq![s[i]] + strip_from(s, i + 1)
    }
}

pub open spec fn at_line_start(s: Seq<char>, i: int) -> bool {
    i == 0 || (0 < i <= s.len() && s[i - 1] == '\n')
}

/// The bounds of a bare key at `i`: white space, then the key's word characters, then white
/// space, then the colon.
pub open spec fn key_start(s: Seq<char>, i: int) -> int {
    i + ws_len(s, i)
}

pub open spec fn key_end(s: Seq<char>, i: int) -> int {
    key_start(s, i) + word_len(s, key_start(s, i))
}

pub open spec fn colon_of(s: Seq<char>, i: int) -> int {
    key_end(s, i) + ws_len(s, key_end(s, i))
}

/// White space, key characters, white space and a colon stand at `i`.
pub open spec fn key_pattern_at(s: Seq<char>, i: int) -> bool {
    &&& key_end(s, i) > key_start(s, i)
    &&& colon_of(s, i) < s.len()
    &&& s[colon_of(s, i)] == ':'
}

pub open spec fn bare_key_at(s: Seq<char>, i: int) -> bool {
    &&& 0 <= i < s.len()
    &&& at_line_start(s, i)
    &&& key_pattern_at(s, i)
}

/// The text from `i` on with each bare key that opens a line put in double quotes; the scan
/// resumes after the key's colon.
pub open spec fn quote_from(s: Seq<char>, i: int) -> Seq<char>
    decreases s.len() - i,
{
    if i < 0 || i >= s.len() {
        Seq::empty()
    } else if bare_key_at(s, i) {
        s.subrange(i, key_start(s, i)) + seq!['"'] + s.subrange(key_start(s, i), key_end(s, i))
            + seq!['"'] + s.subrange(key_end(s, i), colon_of(s, i) + 1) + quote_from(
            s,
            colon_of(s, i) + 1,
        )
    } else {
        seq![s[i]] + quote_from(s, i + 1)
    }
}

pub open spec fn strip_trailing_commas(s: Seq<char>) -> Seq<char> {
    strip_from(s, 0)
}

pub open spec fn quote_bare_keys(s: Seq<char>) -> Seq<char> {
    quote_from(s, 0)
}

/// Script-literal normalization: trailing commas removed first, then bare keys quoted.
pub open spec fn normalized(s: Seq<char>) -> Seq<char> {
    quote_bare_keys(strip_trailing_commas(s))
}

/// Text that is strict already: no comma before a closing bracket, and no bare key opening a
/// line.
pub open spec fn is_strict(s: Seq<char>) -> bool {
    &&& forall|i: int| !trailing_comma_at(s, i)
    &&& forall|i: int| !bare_key_at(s, i)
}

/// Whether a text already is an array literal: trimmed, it opens with `[` and closes with `]`.
pub open spec fn is_array_text(s: Seq<char>) -> bool {
    let t = trim(s);
    t.len() >= 2 && t[0] == '[' && t.last() == ']'
}

/// The structured text of a script literal: normalized, and put in brackets unless it is an
/// array already.
pub open spec fn json_of_literal(s: Seq<char>) -> Seq<char> {
    let n = normalized(s);
    if is_array_text(n) {
        n
    } else {
        seq!['['] + n + seq![']']
    }
}

/// Where the run of white space at `j` ends.
fn ws_run_end(s: &Vec<char>, j: usize) -> (k: usize)
    requires
        j <= s.len(),
    ensures
        k == j + ws_len(s@, j as int),
        k <= s.len(),
{
    let mut k = j;
    while k < s.len() && is_space(s[k])
        invariant
            j <= k <= s.len(),
            k + ws_len(s@, k as int) == j + ws_len(s@, j as int),
        decreases s.len() - k,
    {
        k = k + 1;
    }
    k
}

/// Where the run of word characters at `j` ends.
fn word_run_end(s: &Vec<char>, j: usize) -> (k: usize)
    requires
        j <= s.len(),
    ensures
        k == j + word_len(s@, j as int),
        k <= s.len(),
{
    let mut k = j;
    while k < s.len() && is_word(s[k]) && s[k] != '"' && s[k] != ':' && !is_space(s[k])
        invariant
            j <= k <= s.len(),
            k + word_len(s@, k as int) == j + word_len(s@, j as int),
        decreases s.len() - k,
    {
        k = k + 1;
    }
    k
}

/// Removes each trailing comma, with the white space after it, that precedes a `}` or `]`.
pub fn strip_trailing_comma_chars(s: &Vec<char>) -> (r: Vec<char>)
    ensures
        r@ == strip_trailing_commas(s@),
{
    let mut out: Vec<char> = Vec::new();
    let mut i: usize = 0;
    while i < s.len()
        invariant
            i <= s.len(),
            out@ + strip_from(s@, i as int) == strip_from(s@, 0),
        decreases s.len() - i,
    {
        let c = s[i];
        let ghost before = out@;
        if c == ',' {
            let k = ws_run_end(s, i + 1);
            if k < s.len() && (s[k] == '}' || s[k] == ']') {
                out.push(s[k]);
                assert(out@ + strip_from(s@, k + 1) =~= before + strip_from(s@, i as int));
                i = k + 1;
                continue;
            }
        }
        out.push(c);
        assert(out@ + strip_from(s@, i + 1) =~= before + strip_from(s@, i as int));
        i = i + 1;
    }
    out
}

/// Puts each bare key that opens a line in double quotes.
pub fn quote_bare_key_chars(s: &Vec<char>) -> (r: Vec<char>)
    ensures
        r@ == quote_bare_keys(s@),
{
    let mut out: Vec<char> = Vec::new();
    let mut i: usize = 0;
    while i < s.len()
        invariant
            i <= s.len(),
            out@ + quote_from(s@, i as int) == quote_from(s@, 0),
        decreases s.len() - i,
    {
        let ghost before = out@;
        if i == 0 || s[i - 1] == '\n' {
            let a = ws_run_end(s, i);
            let b = word_run_end(s, a);
            let c = ws_run_end(s, b);
            if b > a && c < s.len() && s[c] == ':' {
                let mut j = i;
                while j < a
                    invariant
                        i <= j <= a <= s.len(),
                        out@ == before + s@.subrange(i as int, j as int),
                    decreases a - j,
                {
                    out.push(s[j]);
                    j = j + 1;
                    assert(out@ =~= before + s@.subrange(i as int, j as int));
                }
                out.push('"');
                let ghost mid = out@;
                while j < b
                    invariant
                        a <= j <= b <= s.len(),
                        out@ == mid + s@.subrange(a as int, j as int),
                    decreases b - j,
                {
                    out.push(s[j]);
                    j = j + 1;
                    assert(out@ =~= mid + s@.subrange(a as int, j as int));
                }
                out.push('"');
                let ghost mid2 = out@;
                while j <= c
                    invariant
                        b <= j <= c + 1,
                        c < s.len(),
                        out@ == mid2 + s@.subrange(b as int, j as int),
                    decreases c + 1 - j,
                {
                    out.push(s[j]);
                    j = j + 1;
                    assert(out@ =~= mid2 + s@.subrange(b as int, j as int));
                }
                assert(bare_key_at(s@, i as int));
                assert(out@ + quote_from(s@, c + 1) =~= before + quote_from(s@, i as int));
                i = c + 1;
                continue;
            }
        }
        out.push(s[i]);
        assert(out@ + quote_from(s@, i + 1) =~= before + quote_from(s@, i as int));
        i = i + 1;
    }
    out
}

/// Normalizes a script literal into strict structured text: removes trailing commas before
/// closing brackets, then quotes the bare keys that open a line.
pub fn normalize_literal(js: &str) -> (r: String)
    ensures
        r@ == normalized(js@),
{
    let s = chars_of(js);
    let stripped = strip_trailing_comma_chars(&s);
    let quoted = quote_bare_key_chars(&stripped);
    string_of(&quoted)
}

/// The structured text of a script literal: normalized, and enclosed in brackets unless it is
/// an array already.
pub fn js_to_json(js_str: &str) -> (r: String)
    ensures
        r@ == json_of_literal(js_str@),
{
    let s = chars_of(js_str);
    let stripped = strip_trailing_comma_chars(&s);
    let n = quote_bare_key_chars(&stripped);
    let t = trim_chars(&n);
    if t.len() >= 2 && t[0] == '[' && t[t.len() - 1] == ']' {
        string_of(&n)
    } else {
        let mut r: Vec<char> = Vec::new();
        r.push('[');
        let mut body = n;
        let ghost nv = body@;
        r.append(&mut body);
        r.push(']');
        assert(r@ =~= seq!['['] + nv + seq![']']);
        string_of(&r)
    }
}

proof fn lemma_ws_run(t: Seq<char>, p: int)
    requires
        0 <= p <= t.len(),
    ensures
        p + ws_len(t, p) <= t.len(),
        forall|m: int| p <= m < p + ws_len(t, p) ==> is_white_space(#[trigger] t[m]),
        p + ws_len(t, p) < t.len() ==> !is_white_space(t[p + ws_len(t, p)]),
    decreases t.len() - p,
{
    if p < t.len() && is_white_space(t[p]) {
        lemma_ws_run(t, p + 1);
    }
}

proof fn lemma_word_run(t: Seq<char>, p: int)
    requires
        0 <= p <= t.len(),
    ensures
        p + word_len(t, p) <= t.len(),
        forall|m: int| p <= m < p + word_len(t, p) ==> is_key_char(#[trigger] t[m]),
        p + word_len(t, p) < t.len() ==> !is_key_char(t[p + word_len(t, p)]),
    decreases t.len() - p,
{
    if p < t.len() && is_key_char(t[p]) {
        lemma_word_run(t, p + 1);
    }
}

proof fn lemma_ws_len_exact(u: Seq<char>, p: int, q: int)
    requires
        0 <= p <= q < u.len(),
        forall|m: int| p <= m < q ==> is_white_space(#[trigger] u[m]),
        !is_white_space(u[q]),
    ensures
        ws_len(u, p) == q - p,
    decreases q - p,
{
    if p < q {
        lemma_ws_len_exact(u, p + 1, q);
    }
}

proof fn lemma_ws_len_shift(pre: Seq<char>, t: Seq<char>, k: int)
    requires
        0 <= k,
    ensures
        ws_len(pre + t, pre.len() + k) == ws_len(t, k),
    decreases t.len() - k,
{
    if k < t.len() {
        assert((pre + t)[pre.len() + k] == t[k]);
        lemma_ws_len_shift(pre, t, k + 1);
    }
}

proof fn lemma_word_len_shift(pre: Seq<char>, t: Seq<char>, k: int)
    requires
        0 <= k,
    ensures
        word_len(pre + t, pre.len() + k) == word_len(t, k),
    decreases t.len() - k,
{
    if k < t.len() {
        assert((pre + t)[pre.len() + k] == t[k]);
        lemma_word_len_shift(pre, t, k + 1);
    }
}

proof fn lemma_key_pattern_shift(pre: Seq<char>, t: Seq<char>, k: int)
    requires
        0 <= k,
    ensures
        key_pattern_at(pre + t, pre.len() + k) == key_pattern_at(t, k),
{
    let u = pre + t;
    let o = pre.len() as int;
    lemma_ws_len_shift(pre, t, k);
    assert(key_start(u, o + k) == o + key_start(t, k));
    lemma_word_len_shift(pre, t, key_start(t, k));
    assert(key_end(u, o + k) == o + key_end(t, k));
    lemma_ws_len_shift(pre, t, key_end(t, k));
    assert(colon_of(u, o + k) == o + colon_of(t, k));
    if colon_of(t, k) < t.len() {
        assert(u[o + colon_of(t, k)] == t[colon_of(t, k)]);
    }
}

proof fn lemma_ws_len_agree(x: Seq<char>, px: int, y: Seq<char>, py: int, n: int)
    requires
        0 <= px,
        0 <= py,
        px + n <= x.len(),
        py + n <= y.len(),
        x.subrange(px, px + n) == y.subrange(py, py + n),
        ws_len(x, px) < n,
    ensures
        ws_len(y, py) == ws_len(x, px),
    decreases n,
{
    assert(x[px] == x.subrange(px, px + n)[0]);
    assert(y[py] == y.subrange(py, py + n)[0]);
    if is_white_space(x[px]) {
        assert(x.subrange(px + 1, px + n) =~= x.subrange(px, px + n).subrange(1, n));
        assert(y.subrange(py + 1, py + n) =~= y.subrange(py, py + n).subrange(1, n));
        lemma_ws_len_agree(x, px + 1, y, py + 1, n - 1);
    }
}

proof fn lemma_word_len_agree(x: Seq<char>, px: int, y: Seq<char>, py: int, n: int)
    requires
        0 <= px,
        0 <= py,
        px + n <= x.len(),
        py + n <= y.len(),
        x.subrange(px, px + n) == y.subrange(py, py + n),
        word_len(x, px) < n,
    ensures
        word_len(y, py) == word_len(x, px),
    decreases n,
{
    assert(x[px] == x.subrange(px, px + n)[0]);
    assert(y[py] == y.subrange(py, py + n)[0]);
    if is_key_char(x[px]) {
        assert(x.subrange(px + 1, px + n) =~= x.subrange(px, px + n).subrange(1, n));
        assert(y.subrange(py + 1, py + n) =~= y.subrange(py, py + n).subrange(1, n));
        lemma_word_len_agree(x, px + 1, y, py + 1, n - 1);
    }
}

/// A key pattern is decided by the characters up to its colon.
proof fn lemma_key_pattern_agree(x: Seq<char>, px: int, y: Seq<char>, py: int, n: int)
    requires
        0 <= px,
        0 <= py,
        px + n <= x.len(),
        py + n <= y.len(),
        x.subrange(px, px + n) == y.subrange(py, py + n),
        key_pattern_at(x, px),
        colon_of(x, px) < px + n,
    ensures
        key_pattern_at(y, py),
{
    let wa = ws_len(x, px) as int;
    lemma_ws_len_agree(x, px, y, py, n);
    assert(x.subrange(px + wa, px + n) =~= x.subrange(px, px + n).subrange(wa, n));
    assert(y.subrange(py + wa, py + n) =~= y.subrange(py, py + n).subrange(wa, n));
    lemma_word_len_agree(x, px + wa, y, py + wa, n - wa);
    let wb = word_len(x, px + wa) as int;
    assert(x.subrange(px + wa + wb, px + n) =~= x.subrange(px, px + n).subrange(wa + wb, n));
    assert(y.subrange(py + wa + wb, py + n) =~= y.subrange(py, py + n).subrange(wa + wb, n));
    lemma_ws_len_agree(x, px + wa + wb, y, py + wa + wb, n - wa - wb);
    let c = colon_of(x, px);
    assert(x[c] == x.subrange(px, px + n)[c - px]);
    assert(y[py + (c - px)] == y.subrange(py, py + n)[c - px]);
}

/// Up to the first quote it holds, the output of key quoting from `j` is the input from `j`.
proof fn lemma_quote_prefix(s: Seq<char>, j: int, k: int)
    requires
        0 <= j <= s.len(),
        0 <= k <= quote_from(s, j).len(),
        forall|m: int| 0 <= m < k ==> #[trigger] quote_from(s, j)[m] != '"',
    ensures
        j + k <= s.len(),
        quote_from(s, j).take(k) == s.subrange(j, j + k),
    decreases s.len() - j,
{
    let u = quote_from(s, j);
    if j < s.len() && k > 0 {
        if bare_key_at(s, j) {
            let a = key_start(s, j);
            lemma_ws_run(s, j);
            assert(u[a - j] == '"');
            assert(u.take(k) =~= s.subrange(j, j + k)) by {
                assert forall|m: int| 0 <= m < k implies u.take(k)[m] == s.subrange(j, j + k)[m] by {
                    assert(u[m] == s.subrange(j, a)[m]);
                }
            }
        } else {
            let t = quote_from(s, j + 1);
            assert(u == seq![s[j]] + t);
            assert forall|m: int| 0 <= m < k - 1 implies #[trigger] t[m] != '"' by {
                assert(u[m + 1] == t[m]);
            }
            lemma_quote_prefix(s, j + 1, k - 1);
            assert(u.take(k) =~= s.subrange(j, j + k)) by {
                assert forall|m: int| 0 <= m < k implies u.take(k)[m] == s.subrange(j, j + k)[m] by {
                    if m > 0 {
                        assert(u[m] == t[m - 1]);
                        assert(t.take(k - 1)[m - 1] == s.subrange(j + 1, j + k)[m - 1]);
                    }
                }
            }
        }
    } else if k == 0 {
        assert(u.take(0) =~= s.subrange(j, j));
    }
}

proof fn lemma_strip_strict(s: Seq<char>, i: int)
    requires
        0 <= i <= s.len(),
        forall|j: int| !trailing_comma_at(s, j),
    ensures
        strip_from(s, i) == s.skip(i),
    decreases s.len() - i,
{
    if i < s.len() {
        lemma_strip_strict(s, i + 1);
        assert(s.skip(i) =~= seq![s[i]] + s.skip(i + 1));
    } else {
        assert(s.skip(i) =~= Seq::<char>::empty());
    }
}

proof fn lemma_quote_strict(s: Seq<char>, i: int)
    requires
        0 <= i <= s.len(),
        forall|j: int| !bare_key_at(s, j),
    ensures
        quote_from(s, i) == s.skip(i),
    decreases s.len() - i,
{
    if i < s.len() {
        lemma_quote_strict(s, i + 1);
        assert(s.skip(i) =~= seq![s[i]] + s.skip(i + 1));
    } else {
        assert(s.skip(i) =~= Seq::<char>::empty());
    }
}

/// Whether position `p` of `t` opens a line, position 0 counting as one where `first` holds.
pub open spec fn opens_line(t: Seq<char>, p: int, first: bool) -> bool {
    (p == 0 && first) || (0 < p <= t.len() && t[p - 1] == '\n')
}

proof fn lemma_no_key_before(u: Seq<char>, p: int, q: int)
    requires
        0 <= p <= q < u.len(),
        forall|m: int| p <= m < q ==> is_white_space(#[trigger] u[m]),
        !is_white_space(u[q]),
        !is_key_char(u[q]),
    ensures
        !key_pattern_at(u, p),
{
    lemma_ws_len_exact(u, p, q);
}

/// No line of the output of key quoting from `i` opens with a bare key.
proof fn lemma_quoted_no_bare_key(s: Seq<char>, i: int)
    requires
        0 <= i <= s.len(),
    ensures
        forall|p: int|
            0 <= p < quote_from(s, i).len() && opens_line(quote_from(s, i), p, at_line_start(s, i))
                ==> !key_pattern_at(quote_from(s, i), p),
    decreases s.len() - i,
{
    let u = quote_from(s, i);
    if i < s.len() {
        if bare_key_at(s, i) {
            let a = key_start(s, i);
            let b = key_end(s, i);
            let c = colon_of(s, i);
            lemma_ws_run(s, i);
            lemma_word_run(s, a);
            lemma_ws_run(s, b);
            let pre = s.subrange(i, a) + seq!['"'] + s.subrange(a, b) + seq!['"'] + s.subrange(
                b,
                c + 1,
            );
            let t = quote_from(s, c + 1);
            assert(u == pre + t);
            lemma_quoted_no_bare_key(s, c + 1);
            let la = a - i;
            let lw = b - a;
            assert(pre.len() == la + lw + 2 + (c + 1 - b));
            assert forall|p: int|
                0 <= p < u.len() && opens_line(u, p, at_line_start(s, i)) implies !key_pattern_at(
                u,
                p,
            ) by {
                if p >= pre.len() {
                    lemma_key_pattern_shift(pre, t, p - pre.len());
                    if p == pre.len() {
                        assert(u[p - 1] == pre[pre.len() - 1]);
                        assert(pre[pre.len() - 1] == s[c]);
                    } else {
                        assert(u[p - 1] == t[p - pre.len() - 1]);
                        assert(opens_line(t, p - pre.len(), at_line_start(s, c + 1)));
                    }
                } else if p <= la {
                    assert forall|m: int| p <= m < la implies is_white_space(#[trigger] u[m]) by {
                        assert(u[m] == pre[m]);
                        assert(pre[m] == s[i + m]);
                    }
                    assert(u[la] == pre[la]);
                    assert(pre[la] == '"');
                    lemma_no_key_before(u, p, la);
                } else if p <= la + lw + 1 {
                    assert(u[p - 1] == pre[p - 1]);
                    if p > la + 1 {
                        assert(pre[p - 1] == s[a + (p - 2 - la)]);
                        assert(is_key_char(s[a + (p - 2 - la)]));
                    }
                } else {
                    let q = pre.len() - 1;
                    assert forall|m: int| p <= m < q implies is_white_space(#[trigger] u[m]) by {
                        assert(u[m] == pre[m]);
                        assert(pre[m] == s[b + (m - (la + lw + 2))]);
                    }
                    assert(u[q] == pre[q]);
                    assert(pre[q] == s[c]);
                    lemma_no_key_before(u, p, q);
                }
            }
        } else {
            let t = quote_from(s, i + 1);
            assert(u == seq![s[i]] + t);
            lemma_quoted_no_bare_key(s, i + 1);
            assert forall|p: int|
                0 <= p < u.len() && opens_line(u, p, at_line_start(s, i)) implies !key_pattern_at(
                u,
                p,
            ) by {
                if p == 0 {
                    if key_pattern_at(u, 0) {
                        let ks = key_start(u, 0);
                        let ke = key_end(u, 0);
                        let k = colon_of(u, 0) + 1;
                        lemma_ws_run(u, 0);
                        lemma_word_run(u, ks);
                        lemma_ws_run(u, ke);
                        assert forall|m: int| 0 <= m < k implies #[trigger] quote_from(s, i)[m]
                            != '"' by {
                            if m < ks {
                                assert(is_white_space(u[m]));
                            } else if m < ke {
                                assert(is_key_char(u[m]));
                            } else if m < k - 1 {
                                assert(is_white_space(u[m]));
                            }
                        }
                        lemma_quote_prefix(s, i, k);
                        assert(u.subrange(0, k) =~= u.take(k));
                        lemma_key_pattern_agree(u, 0, s, i, k);
                        assert(bare_key_at(s, i));
                    }
                } else {
                    lemma_key_pattern_shift(seq![s[i]], t, p - 1);
                    if p == 1 {
                        assert(u[0] == s[i]);
                    } else {
                        assert(u[p - 1] == t[p - 2]);
                    }
                    assert(opens_line(t, p - 1, at_line_start(s, i + 1)));
                }
            }
        }
    }
}

/// Quoting bare keys leaves no line opening with a bare key, so for every text, quoting the
/// keys a second time gives what quoting them once gave.
pub proof fn lemma_key_quoting_idempotent(s: Seq<char>)
    ensures
        quote_bare_keys(quote_bare_keys(s)) == quote_bare_keys(s),
{
    let q = quote_bare_keys(s);
    lemma_quoted_no_bare_key(s, 0);
    assert forall|j: int| !bare_key_at(q, j) by {
        if bare_key_at(q, j) {
            assert(opens_line(q, j, at_line_start(s, 0)));
        }
    }
    lemma_quote_strict(q, 0);
    assert(q.skip(0) =~= q);
}

proof fn lemma_trailing_comma_shift(pre: Seq<char>, t: Seq<char>, k: int)
    requires
        0 <= k,
    ensures
        trailing_comma_at(pre + t, pre.len() + k) == trailing_comma_at(t, k),
{
    let u = pre + t;
    let o = pre.len() as int;
    lemma_ws_len_shift(pre, t, k + 1);
    assert(closer_of_comma(u, o + k) == o + closer_of_comma(t, k));
    if k < t.len() {
        assert(u[o + k] == t[k]);
    }
    if closer_of_comma(t, k) < t.len() {
        assert(u[o + closer_of_comma(t, k)] == t[closer_of_comma(t, k)]);
    }
}

proof fn lemma_trailing_comma_agree(x: Seq<char>, px: int, y: Seq<char>, py: int, n: int)
    requires
        0 <= px,
        0 <= py,
        px + n <= x.len(),
        py + n <= y.len(),
        x.subrange(px, px + n) == y.subrange(py, py + n),
        trailing_comma_at(x, px),
        closer_of_comma(x, px) < px + n,
    ensures
        trailing_comma_at(y, py),
{
    assert(x[px] == x.subrange(px, px + n)[0]);
    assert(y[py] == y.subrange(py, py + n)[0]);
    assert(x.subrange(px + 1, px + n) =~= x.subrange(px, px + n).subrange(1, n));
    assert(y.subrange(py + 1, py + n) =~= y.subrange(py, py + n).subrange(1, n));
    lemma_ws_len_agree(x, px + 1, y, py + 1, n - 1);
    let c = closer_of_comma(x, px);
    assert(x[c] == x.subrange(px, px + n)[c - px]);
    assert(y[py + (c - px)] == y.subrange(py, py + n)[c - px]);
}

/// Key quoting puts no comma before a closing bracket that was not there before.
proof fn lemma_quoted_no_trailing_comma(s: Seq<char>, i: int)
    requires
        0 <= i <= s.len(),
        forall|j: int| !trailing_comma_at(s, j),
    ensures
        forall|p: int| !trailing_comma_at(quote_from(s, i), p),
    decreases s.len() - i,
{
    let u = quote_from(s, i);
    if i < s.len() {
        if bare_key_at(s, i) {
            let a = key_start(s, i);
            let b = key_end(s, i);
            let c = colon_of(s, i);
            lemma_ws_run(s, i);
            lemma_word_run(s, a);
            lemma_ws_run(s, b);
            let pre = s.subrange(i, a) + seq!['"'] + s.subrange(a, b) + seq!['"'] + s.subrange(
                b,
                c + 1,
            );
            let t = quote_from(s, c + 1);
            assert(u == pre + t);
            lemma_quoted_no_trailing_comma(s, c + 1);
            let la = a - i;
            let lw = b - a;
            assert(pre.len() == la + lw + 2 + (c + 1 - b));
            assert forall|p: int| !trailing_comma_at(u, p) by {
                if 0 <= p < u.len() {
                    if p >= pre.len() {
                        lemma_trailing_comma_shift(pre, t, p - pre.len());
                    } else if p < la {
                        assert(u[p] == pre[p]);
                        assert(pre[p] == s[i + p]);
                    } else if p == la || p == la + lw + 1 {
                        assert(u[p] == pre[p]);
                    } else if p <= la + lw {
                        let j = a + (p - la - 1);
                        assert(u[p] == pre[p]);
                        assert(pre[p] == s[j]);
                        assert(u[p + 1] == pre[p + 1]);
                        assert(!is_white_space(u[p + 1])) by {
                            if p + 1 <= la + lw {
                                assert(pre[p + 1] == s[j + 1]);
                            }
                        }
                        assert(ws_len(u, p + 1) == 0);
                        if p + 1 <= la + lw {
                            assert(pre[p + 1] == s[j + 1]);
                            assert(ws_len(s, j + 1) == 0);
                            assert(!trailing_comma_at(s, j));
                        }
                    } else {
                        assert(u[p] == pre[p]);
                        if p < pre.len() - 1 {
                            assert(pre[p] == s[b + (p - (la + lw + 2))]);
                        } else {
                            assert(pre[p] == s[c]);
                        }
                    }
                }
            }
        } else {
            let t = quote_from(s, i + 1);
            assert(u == seq![s[i]] + t);
            lemma_quoted_no_trailing_comma(s, i + 1);
            assert forall|p: int| !trailing_comma_at(u, p) by {
                if p >= 1 {
                    lemma_trailing_comma_shift(seq![s[i]], t, p - 1);
                } else if p == 0 && trailing_comma_at(u, 0) {
                    let k = closer_of_comma(u, 0) + 1;
                    lemma_ws_run(u, 1);
                    assert forall|m: int| 0 <= m < k implies #[trigger] quote_from(s, i)[m] != '"' by {
                        if 1 <= m < k - 1 {
                            assert(is_white_space(u[m]));
                        }
                    }
                    lemma_quote_prefix(s, i, k);
                    assert(u.subrange(0, k) =~= u.take(k));
                    lemma_trailing_comma_agree(u, 0, s, i, k);
                }
            }
        }
    }
}

/// Normalizing a second time gives what normalizing once gave, for every text whose
/// trailing-comma removal leaves no comma before a closing bracket (a text such as `,,}` leaves
/// one: removal works left to right in one pass).
pub proof fn lemma_normalization_idempotent_in_general(s: Seq<char>)
    requires
        forall|j: int| !trailing_comma_at(strip_trailing_commas(s), j),
    ensures
        normalized(normalized(s)) == normalized(s),
{
    let x = strip_trailing_commas(s);
    let q = quote_bare_keys(x);
    lemma_quoted_no_trailing_comma(x, 0);
    lemma_strip_strict(q, 0);
    assert(q.skip(0) =~= q);
    lemma_key_quoting_idempotent(x);
}

/// Normalization leaves strict text as it is, so normalizing such text a second time gives
/// the same text as normalizing it once.
pub proof fn lemma_normalization_idempotent(t: Seq<char>)
    requires
        is_strict(t),
    ensures
        normalized(t) == t,
        normalized(normalized(t)) == normalized(t),
{
    lemma_strip_strict(t, 0);
    lemma_quote_strict(t, 0);
    assert(t.skip(0) =~= t);
}

/// The kind of page that a link refers to.
#[derive(Debug, Clone, Copy, PartialEq, Eq, Structural)]
pub enum LinkKind {
    Album,
    SingleFile,
}

/// An album link holds `/a/`; a single-file link holds `/f/`; any other is an
/// `UnsupportedLink` error.
pub fn classify_link(url: &str) -> (r: Result<LinkKind, EngineError>)
    ensures
        has_text(url@, "/a/"@) ==> r == Ok::<LinkKind, EngineError>(LinkKind::Album),
        !has_text(url@, "/a/"@) && has_text(url@, "/f/"@) ==> r == Ok::<LinkKind, EngineError>(
            LinkKind::SingleFile,
        ),
        !has_text(url@, "/a/"@) && !has_text(url@, "/f/"@) ==> r == Err::<LinkKind, EngineError>(
            EngineError::UnsupportedLink,
        ),
{
    if contains_text(url, "/a/") {
        Ok(LinkKind::Album)
    } else if contains_text(url, "/f/") {
        Ok(LinkKind::SingleFile)
    } else {
        Err(EngineError::UnsupportedLink)
    }
}

/// The address of an album page with the verbose listing asked for.
pub open spec fn listing_url_of(url: Seq<char>) -> Seq<char> {
    url + if has_text(url, "?"@) { "&advanced=1"@ } else { "?advanced=1"@ }
}

pub fn listing_url(album_url: &str) -> (r: String)
    ensures
        r@ == listing_url_of(album_url@),
{
    let mut cs = chars_of(album_url);
    if contains_text(album_url, "?") {
        crate::text::push_text(&mut cs, "&advanced=1");
    } else {
        crate::text::push_text(&mut cs, "?advanced=1");
    }
    string_of(&cs)
}

/// The structured text of the file listing embedded in an album page; a page without the
/// listing is a `Scrape` error.
pub fn album_listing_json(html: &str) -> (r: Result<String, EngineError>)
    ensures
        match regex_first_capture(ALBUM_FILES_PATTERN@, html@) {
            Some(lit) => (r matches Ok(j) && j@ == json_of_literal(lit)),
            None => r == Err::<String, EngineError>(EngineError::Scrape),
        },
{
    match first_capture(ALBUM_FILES_PATTERN, html) {
        Some(lit) => Ok(js_to_json(lit.as_str())),
        None => Err(EngineError::Scrape),
    }
}

/// What a single-file page's two markers yield: its number and original name, where both are
/// there and the number fits an `i64`.
pub open spec fn single_file_fields(id_text: Option<Seq<char>>, name: Option<Seq<char>>) -> Option<(i64, Seq<char>)> {
    match (id_text, name) {
        (Some(digits), Some(name)) => match signed_literal(digits) {
            Some(v) => if i64::MIN <= v <= i64::MAX {
                Some((v as i64, name))
            } else {
                None
            },
            None => None,
        },
        _ => None,
    }
}

/// The record of a single file: only its number and original name are known, the rest is
/// empty.
pub open spec fn is_single_file_record(f: AlbumFile, id: i64, name: Seq<char>) -> bool {
    &&& f.id == id
    &&& f.name@ == name
    &&& f.original@ == name
    &&& f.slug@.len() == 0
    &&& f.file_type@.len() == 0
    &&& f.extension@.len() == 0
    &&& f.size == 0
    &&& f.timestamp@.len() == 0
    &&& f.thumbnail@.len() == 0
    &&& f.cdn_endpoint@.len() == 0
}

/// Builds a single file's record from the text of its number marker and of its name marker;
/// a missing marker, or a number that does not read as an `i64`, is a `Scrape` error.
pub fn single_file_from_markers(id_text: Option<&str>, name: Option<&str>) -> (r: Result<AlbumFile, EngineError>)
    ensures
        match single_file_fields(opt_view(id_text), opt_view(name)) {
            Some((id, n)) => (r matches Ok(f) && is_single_file_record(f, id, n)),
            None => r == Err::<AlbumFile, EngineError>(EngineError::Scrape),
        },
{
    let id = match id_text {
        Some(digits) => {
            let cs = chars_of(digits);
            match parse_signed(&cs) {
                Some(v) => v,
                None => return Err(EngineError::Scrape),
            }
        },
        None => return Err(EngineError::Scrape),
    };
    let original = match name {
        Some(n) => n.to_owned(),
        None => return Err(EngineError::Scrape),
    };
    Ok(
        AlbumFile {
            id,
            name: original.clone(),
            original,
            slug: String::new(),
            file_type: String::new(),
            extension: String::new(),
            size: 0,
            timestamp: String::new(),
            thumbnail: String::new(),
            cdn_endpoint: String::new(),
        },
    )
}

/// Reads a single-file page into a record holding only its number and original name; a page
/// without either marker is a `Scrape` error.
pub fn single_file_record(html: &str) -> (r: Result<AlbumFile, EngineError>)
    ensures
        match single_file_fields(
            regex_first_capture(FILE_ID_PATTERN@, html@),
            regex_first_capture(FILE_NAME_PATTERN@, html@),
        ) {
            Some((id, n)) => (r matches Ok(f) && is_single_file_record(f, id, n)),
            None => r == Err::<AlbumFile, EngineError>(EngineError::Scrape),
        },
{
    let id_text = first_capture(FILE_ID_PATTERN, html);
    let name = first_capture(FILE_NAME_PATTERN, html);
    let id_ref: Option<&str> = match &id_text {
        Some(t) => Some(t.as_str()),
        None => None,
    };
    let name_ref: Option<&str> = match &name {
        Some(t) => Some(t.as_str()),
        None => None,
    };
    single_file_from_markers(id_ref, name_ref)
}

} // verus!
