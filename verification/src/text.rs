//! Character-level text helpers: Unicode whitespace, trimming, ASCII case
//! folding, substring search and building strings from characters.
use vstd::prelude::*;

verus! {

/// A character with the Unicode `White_Space` property (what `char::is_whitespace`
/// and `str::trim` go by).
pub open spec fn is_ws(c: char) -> bool {
    ||| ('\u{9}' <= c && c <= '\u{d}')
    ||| c == ' '
    ||| c == '\u{85}'
    ||| c == '\u{a0}'
    ||| c == '\u{1680}'
    ||| ('\u{2000}' <= c && c <= '\u{200a}')
    ||| c == '\u{2028}'
    ||| c == '\u{2029}'
    ||| c == '\u{202f}'
    ||| c == '\u{205f}'
    ||| c == '\u{3000}'
}

/// The first index in `[i, hi)` that holds a non-whitespace character, or `hi`.
pub open spec fn skip_ws_fwd(s: Seq<char>, i: int, hi: int) -> int
    decreases hi - i,
{
    if i >= hi {
        hi
    } else if is_ws(s[i]) {
        skip_ws_fwd(s, i + 1, hi)
    } else {
        i
    }
}

/// The end of `s[lo..j]` once trailing whitespace is dropped.
pub open spec fn skip_ws_back(s: Seq<char>, lo: int, j: int) -> int
    decreases j - lo,
{
    if j <= lo {
        lo
    } else if is_ws(s[j - 1]) {
        skip_ws_back(s, lo, j - 1)
    } else {
        j
    }
}

/// `s[lo..hi]` with leading and trailing whitespace removed (`str::trim`).
pub open spec fn trimmed(s: Seq<char>, lo: int, hi: int) -> Seq<char> {
    let a = skip_ws_fwd(s, lo, hi);
    s.subrange(a, skip_ws_back(s, a, hi))
}

/// `s` with leading and trailing whitespace removed.
pub open spec fn trim(s: Seq<char>) -> Seq<char> {
    trimmed(s, 0, s.len() as int)
}

/// Whether `s[lo..hi]` holds whitespace only.
pub open spec fn is_blank(s: Seq<char>, lo: int, hi: int) -> bool {
    skip_ws_fwd(s, lo, hi) >= hi
}

pub proof fn lemma_skip_ws_fwd_bounds(s: Seq<char>, i: int, hi: int)
    requires
        i <= hi,
    ensures
        i <= skip_ws_fwd(s, i, hi) <= hi,
        forall|k: int| i <= k < skip_ws_fwd(s, i, hi) ==> is_ws(#[trigger] s[k]),
        skip_ws_fwd(s, i, hi) < hi ==> !is_ws(s[skip_ws_fwd(s, i, hi)]),
    decreases hi - i,
{
    if i < hi && is_ws(s[i]) {
        lemma_skip_ws_fwd_bounds(s, i + 1, hi);
    }
}

pub proof fn lemma_skip_ws_back_bounds(s: Seq<char>, lo: int, j: int)
    requires
        lo <= j,
    ensures
        lo <= skip_ws_back(s, lo, j) <= j,
        forall|k: int| skip_ws_back(s, lo, j) <= k < j ==> is_ws(#[trigger] s[k]),
        skip_ws_back(s, lo, j) > lo ==> !is_ws(s[skip_ws_back(s, lo, j) - 1]),
    decreases j - lo,
{
    if lo < j && is_ws(s[j - 1]) {
        lemma_skip_ws_back_bounds(s, lo, j - 1);
    }
}

/// Whether `c` is whitespace in the sense of `char::is_whitespace`.
pub fn char_is_ws(c: char) -> (b: bool)
    ensures
        b == is_ws(c),
{
    ('\u{9}' <= c && c <= '\u{d}') || c == ' ' || c == '\u{85}' || c == '\u{a0}' || c == '\u{1680}'
        || ('\u{2000}' <= c && c <= '\u{200a}') || c == '\u{2028}' || c == '\u{2029}' || c
        == '\u{202f}' || c == '\u{205f}' || c == '\u{3000}'
}

/// The index of the first non-whitespace character of `s[i..hi]`, or `hi`.
pub fn skip_ws_forward(s: &Vec<char>, i: usize, hi: usize) -> (r: usize)
    requires
        i <= hi <= s.len(),
    ensures
        r == skip_ws_fwd(s@, i as int, hi as int),
{
    let mut k = i;
    while k < hi && char_is_ws(s[k])
        invariant
            i <= k <= hi <= s.len(),
            skip_ws_fwd(s@, k as int, hi as int) == skip_ws_fwd(s@, i as int, hi as int),
        decreases hi - k,
    {
        k = k + 1;
    }
    k
}

/// The end of `s[lo..j]` without its trailing whitespace.
pub fn skip_ws_backward(s: &Vec<char>, lo: usize, j: usize) -> (r: usize)
    requires
        lo <= j <= s.len(),
    ensures
        r == skip_ws_back(s@, lo as int, j as int),
{
    let mut k = j;
    while k > lo && char_is_ws(s[k - 1])
        invariant
            lo <= k <= j <= s.len(),
            skip_ws_back(s@, lo as int, k as int) == skip_ws_back(s@, lo as int, j as int),
        decreases k - lo,
    {
        k = k - 1;
    }
    k
}

/// The bounds of `s[lo..hi]` once trimmed.
pub fn trim_bounds(s: &Vec<char>, lo: usize, hi: usize) -> (r: (usize, usize))
    requires
        lo <= hi <= s.len(),
    ensures
        r.0 == skip_ws_fwd(s@, lo as int, hi as int),
        r.1 == skip_ws_back(s@, r.0 as int, hi as int),
        lo <= r.0 <= r.1 <= hi,
        s@.subrange(r.0 as int, r.1 as int) == trimmed(s@, lo as int, hi as int),
{
    let a = skip_ws_forward(s, lo, hi);
    proof {
        lemma_skip_ws_fwd_bounds(s@, lo as int, hi as int);
    }
    let b = skip_ws_backward(s, a, hi);
    proof {
        lemma_skip_ws_back_bounds(s@, a as int, hi as int);
    }
    (a, b)
}

/// Appends one character to a string (`String::push`).
#[verifier::external_body]
pub(crate) fn push_char(s: &mut String, c: char)
    ensures
        final(s)@ == old(s)@.push(c),
{
    s.push(c);
}

/// The characters of a string slice, in order.
pub fn chars_of(s: &str) -> (v: Vec<char>)
    ensures
        v@ == s@,
{
    broadcast use vstd::string::group_string_axioms;
    let mut v: Vec<char> = Vec::new();
    for c in it: s.chars()
        invariant
            v@ == it.seq().take(it.index()),
    {
        v.push(c);
    }
    assert(v@ == s@);
    v
}

/// A string made of `s[lo..hi]`.
pub fn string_from_range(s: &Vec<char>, lo: usize, hi: usize) -> (r: String)
    requires
        lo <= hi <= s.len(),
    ensures
        r@ == s@.subrange(lo as int, hi as int),
{
    let mut r = String::new();
    let mut k = lo;
    while k < hi
        invariant
            lo <= k <= hi <= s.len(),
            r@ == s@.subrange(lo as int, k as int),
        decreases hi - k,
    {
        push_char(&mut r, s[k]);
        assert(s@.subrange(lo as int, k + 1) == s@.subrange(lo as int, k as int).push(s@[k as int]));
        k = k + 1;
    }
    r
}

} // verus!

verus! {

/// Whether the characters `v[lo..hi]` spell `lit`.
pub fn range_eq_str(v: &Vec<char>, lo: usize, hi: usize, lit: &str) -> (b: bool)
    requires
        lo <= hi <= v.len(),
    ensures
        b == (v@.subrange(lo as int, hi as int) == lit@),
{
    let l = chars_of(lit);
    if hi - lo != l.len() {
        return false;
    }
    let mut k: usize = 0;
    while k < l.len()
        invariant
            k <= l.len() == hi - lo,
            lo <= hi <= v.len(),
            l@ == lit@,
            forall|j: int| 0 <= j < k ==> v@[lo + j] == l@[j],
        decreases l.len() - k,
    {
        if v[lo + k] != l[k] {
            assert(v@.subrange(lo as int, hi as int)[k as int] != lit@[k as int]);
            return false;
        }
        k = k + 1;
    }
    assert(v@.subrange(lo as int, hi as int) == lit@);
    true
}

/// Whether the whole of `v` spells `lit`.
pub fn vec_eq_str(v: &Vec<char>, lit: &str) -> (b: bool)
    ensures
        b == (v@ == lit@),
{
    let r = range_eq_str(v, 0, v.len(), lit);
    assert(v@.subrange(0, v@.len() as int) == v@);
    r
}

/// The first index `>= i` that holds `c`, or `s.len()`.
pub open spec fn find_char_from(s: Seq<char>, c: char, i: int) -> int
    decreases s.len() - i,
{
    if i < 0 || i >= s.len() {
        s.len() as int
    } else if s[i] == c {
        i
    } else {
        find_char_from(s, c, i + 1)
    }
}

pub proof fn lemma_find_char_from(s: Seq<char>, c: char, i: int)
    requires
        0 <= i <= s.len(),
    ensures
        i <= find_char_from(s, c, i) <= s.len(),
        find_char_from(s, c, i) < s.len() ==> s[find_char_from(s, c, i)] == c,
        forall|k: int| i <= k < find_char_from(s, c, i) ==> s[k] != c,
    decreases s.len() - i,
{
    if i < s.len() && s[i] != c {
        lemma_find_char_from(s, c, i + 1);
    }
}

/// The index of the first `c` in `s[i..]`, or `s.len()`.
pub fn find_char(s: &Vec<char>, c: char, i: usize) -> (r: usize)
    requires
        i <= s.len(),
    ensures
        r == find_char_from(s@, c, i as int),
{
    let mut k = i;
    while k < s.len() && s[k] != c
        invariant
            i <= k <= s.len(),
            find_char_from(s@, c, k as int) == find_char_from(s@, c, i as int),
        decreases s.len() - k,
    {
        k = k + 1;
    }
    k
}

/// The index just past the last `c` in `s[..j]`, or 0 when there is none.
pub open spec fn after_last_char(s: Seq<char>, c: char, j: int) -> int
    decreases j,
{
    if j <= 0 || j > s.len() {
        0
    } else if s[j - 1] == c {
        j
    } else {
        after_last_char(s, c, j - 1)
    }
}

pub proof fn lemma_after_last_char(s: Seq<char>, c: char, j: int)
    requires
        0 <= j <= s.len(),
    ensures
        0 <= after_last_char(s, c, j) <= j,
        forall|k: int| after_last_char(s, c, j) <= k < j ==> s[k] != c,
    decreases j,
{
    if j > 0 && s[j - 1] != c {
        lemma_after_last_char(s, c, j - 1);
    }
}

/// The index just past the last `c` in `s`, or 0.
pub fn after_last(s: &Vec<char>, c: char) -> (r: usize)
    ensures
        r == after_last_char(s@, c, s@.len() as int),
{
    let mut k = s.len();
    while k > 0 && s[k - 1] != c
        invariant
            k <= s.len(),
            after_last_char(s@, c, k as int) == after_last_char(s@, c, s@.len() as int),
        decreases k,
    {
        k = k - 1;
    }
    k
}

/// A string holding the characters of `v`.
pub fn string_of(v: &Vec<char>) -> (r: String)
    ensures
        r@ == v@,
{
    let r = string_from_range(v, 0, v.len());
    assert(v@.subrange(0, v@.len() as int) == v@);
    r
}

} // verus!

verus! {

/// ASCII lower-casing of one character (`char::to_ascii_lowercase`).
pub open spec fn ascii_lower(c: char) -> char {
    if 'A' <= c && c <= 'Z' {
        ((c as int) + 32) as char
    } else {
        c
    }
}

/// ASCII lower-casing of a text (`str::to_ascii_lowercase`).
pub open spec fn ascii_lowered(s: Seq<char>) -> Seq<char> {
    s.map_values(|c: char| ascii_lower(c))
}

/// Whether `needle` occurs in `hay` as a contiguous run.
pub open spec fn contains_seq(hay: Seq<char>, needle: Seq<char>) -> bool {
    exists|i: int| 0 <= i && i + needle.len() <= hay.len() && #[trigger] hay.subrange(i, i + needle.len()) == needle
}

pub fn ascii_lower_char(c: char) -> (r: char)
    ensures
        r == ascii_lower(c),
{
    if 'A' <= c && c <= 'Z' {
        let v = c as u32 + 32;
        let b: u8 = v as u8;
        b as char
    } else {
        c
    }
}

/// The characters of `s[lo..hi]`, ASCII lower-cased.
pub fn ascii_lower_range(s: &Vec<char>, lo: usize, hi: usize) -> (r: Vec<char>)
    requires
        lo <= hi <= s.len(),
    ensures
        r@ == ascii_lowered(s@.subrange(lo as int, hi as int)),
{
    let mut out: Vec<char> = Vec::new();
    let mut k = lo;
    while k < hi
        invariant
            lo <= k <= hi <= s.len(),
            out@ == ascii_lowered(s@.subrange(lo as int, k as int)),
        decreases hi - k,
    {
        out.push(ascii_lower_char(s[k]));
        assert(ascii_lowered(s@.subrange(lo as int, k + 1)) == ascii_lowered(s@.subrange(lo as int, k as int)).push(
            ascii_lower(s@[k as int]),
        ));
        k = k + 1;
    }
    out
}

/// Whether `needle` occurs in `hay`.
pub fn contains_str(hay: &Vec<char>, needle: &str) -> (b: bool)
    ensures
        b == contains_seq(hay@, needle@),
{
    let nd = chars_of(needle);
    let m = nd.len();
    if m > hay.len() {
        proof {
            assert forall|i: int| 0 <= i && i + needle@.len() <= hay@.len() implies #[trigger] hay@.subrange(
                i,
                i + needle@.len(),
            ) != needle@ by {}
        }
        return false;
    }
    if m == 0 {
        assert(hay@.subrange(0, 0 + needle@.len() as int) == needle@);
        return true;
    }
    let mut i: usize = 0;
    let last = hay.len() - m;
    while i <= last
        invariant
            nd@ == needle@,
            m == nd.len(),
            1 <= m <= hay.len(),
            last == hay.len() - m,
            i <= last + 1,
            forall|j: int| 0 <= j < i ==> #[trigger] hay@.subrange(j, j + needle@.len()) != needle@,
        decreases last + 1 - i,
    {
        if range_eq_str(hay, i, i + m, needle) {
            return true;
        }
        i = i + 1;
    }
    proof {
        assert forall|j: int| 0 <= j && j + needle@.len() <= hay@.len() implies #[trigger] hay@.subrange(
            j,
            j + needle@.len(),
        ) != needle@ by {
            assert(j < i);
        }
    }
    false
}

/// Decodes UTF-8 bytes into a string (`String::from_utf8`): the text when
/// the bytes are valid UTF-8, else the error's message (not stated).
#[verifier::external_body]
pub(crate) fn utf8_text(bytes: Vec<u8>) -> (r: Result<String, String>)
    ensures
        r is Ok <==> vstd::utf8::valid_utf8(bytes@),
        r matches Ok(s) ==> s@ == vstd::utf8::decode_utf8(bytes@),
{
    String::from_utf8(bytes).map_err(|e| e.to_string())
}

} // verus!
