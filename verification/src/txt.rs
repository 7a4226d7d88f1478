//! Plain-text books: encoding detection and paragraph splitting.
use vstd::prelude::*;
use crate::numfmt::{decimal, push_decimal};
use crate::text::{utf8_text, is_blank, is_ws, lemma_skip_ws_fwd_bounds, trimmed, chars_of, skip_ws_forward, trim_bounds, string_from_range, push_char};
use crate::types::{DomNode, NodeType};

verus! {

/// A line-break character (`\n` or `\r`).
pub open spec fn is_nl(c: char) -> bool {
    c == '\n' || c == '\r'
}

/// The first index `>= i` that does not hold a line-break character: where
/// the run of line-break characters starting at `i` ends.
pub open spec fn skip_nl(s: Seq<char>, i: int) -> int
    decreases s.len() - i,
{
    if i < 0 || i >= s.len() {
        if i < 0 { 0 } else { i }
    } else if is_nl(s[i]) {
        skip_nl(s, i + 1)
    } else {
        i
    }
}

pub proof fn lemma_skip_nl_bounds(s: Seq<char>, i: int)
    requires
        0 <= i,
    ensures
        i <= skip_nl(s, i),
        i <= s.len() ==> skip_nl(s, i) <= s.len(),
        forall|p: int| i <= p < skip_nl(s, i) ==> is_nl(#[trigger] s[p]),
        skip_nl(s, i) < s.len() ==> !is_nl(s[skip_nl(s, i)]),
        i < s.len() && is_nl(s[i]) ==> i < skip_nl(s, i),
    decreases s.len() - i,
{
    if i < s.len() && is_nl(s[i]) {
        lemma_skip_nl_bounds(s, i + 1);
    }
}

/// The number of line breaks in `s[i..j]`: each line-break character is one,
/// except that a carriage return directly followed by a line feed counts as
/// one together with it.
pub open spec fn line_break_count(s: Seq<char>, i: int, j: int) -> nat
    decreases j - i,
{
    if i >= j {
        0
    } else if s[i] == '\r' && i + 1 < j && s[i + 1] == '\n' {
        1 + line_break_count(s, i + 2, j)
    } else {
        1 + line_break_count(s, i + 1, j)
    }
}

/// Whether a paragraph break starts at `a`: `a` begins a maximal run of
/// line-break characters, and that run holds at least two line breaks (a
/// blank line or a double newline).
pub open spec fn break_at(s: Seq<char>, a: int) -> bool {
    &&& 0 <= a < s.len()
    &&& is_nl(s[a])
    &&& (a == 0 || !is_nl(s[a - 1]))
    &&& line_break_count(s, a, skip_nl(s, a)) >= 2
}

/// The first paragraph break at or after `i`, or `s.len()` when there is none.
pub open spec fn next_break(s: Seq<char>, i: int) -> int
    decreases s.len() - i,
{
    if i < 0 || i >= s.len() {
        s.len() as int
    } else if break_at(s, i) {
        i
    } else {
        next_break(s, i + 1)
    }
}

/// A run of two characters holds two line breaks unless it is `\r\n`; a
/// longer run always holds at least two.
proof fn lemma_line_break_count_two(s: Seq<char>, i: int, j: int)
    requires
        i < j,
    ensures
        line_break_count(s, i, j) >= 2 <==> (j - i >= 3 || (j - i == 2 && !(s[i] == '\r' && s[i + 1]
            == '\n'))),
{
    reveal_with_fuel(line_break_count, 3);
    if j - i >= 3 {
        if s[i] == '\r' && s[i + 1] == '\n' {
            assert(line_break_count(s, i + 2, j) >= 1);
        } else {
            assert(line_break_count(s, i + 1, j) >= 1);
        }
    }
}

pub proof fn lemma_next_break_bounds(s: Seq<char>, i: int)
    requires
        0 <= i,
    ensures
        next_break(s, i) == s.len() || (i <= next_break(s, i) < s.len() && break_at(s, next_break(s, i))),
        i <= s.len() ==> i <= next_break(s, i),
        forall|p: int| i <= p < next_break(s, i) ==> !break_at(s, p),
    decreases s.len() - i,
{
    if i < s.len() && !break_at(s, i) {
        lemma_next_break_bounds(s, i + 1);
    }
}

/// `[(lo, hi)]` when `s[lo..hi]` holds more than whitespace, else nothing.
pub open spec fn keep_segment(s: Seq<char>, lo: int, hi: int) -> Seq<(int, int)> {
    if is_blank(s, lo, hi) {
        Seq::empty()
    } else {
        seq![(lo, hi)]
    }
}

/// The paragraph segments of `s` from `start` on: the pieces of text between
/// paragraph breaks (the breaks themselves left out), except those that hold
/// whitespace only.
pub open spec fn segments_from(s: Seq<char>, start: int) -> Seq<(int, int)>
    decreases s.len() - start,
{
    if start < 0 || start >= s.len() {
        Seq::empty()
    } else {
        let a = next_break(s, start);
        if a >= s.len() {
            keep_segment(s, start, s.len() as int)
        } else {
            proof {
                lemma_next_break_bounds(s, start);
                lemma_skip_nl_bounds(s, a);
            }
            keep_segment(s, start, a) + segments_from(s, skip_nl(s, a))
        }
    }
}

/// The paragraph segments of a whole text, as character ranges.
pub open spec fn paragraph_segments(s: Seq<char>) -> Seq<(int, int)> {
    segments_from(s, 0)
}

pub open spec fn int_pairs(v: Seq<(usize, usize)>) -> Seq<(int, int)> {
    v.map_values(|p: (usize, usize)| (p.0 as int, p.1 as int))
}

/// What every segment from `start` on satisfies: it lies in `s` after
/// `start`, holds more than whitespace and no paragraph break, ends where a
/// break starts or at the end of `s`, and starts at `start` or where a break
/// ends. Segments come in order without overlapping, and every
/// non-whitespace character from `start` on lies in one of them.
proof fn lemma_segments_from(s: Seq<char>, start: int)
    requires
        0 <= start,
    ensures
        forall|k: int|
            0 <= k < segments_from(s, start).len() ==> start <= (#[trigger] segments_from(s, start)[k]).0
                <= segments_from(s, start)[k].1 <= s.len(),
        forall|k: int|
            0 <= k < segments_from(s, start).len() ==> !is_blank(
                s,
                (#[trigger] segments_from(s, start)[k]).0,
                segments_from(s, start)[k].1,
            ),
        forall|k: int, p: int|
            0 <= k < segments_from(s, start).len() && (#[trigger] segments_from(s, start)[k]).0 <= p
                < segments_from(s, start)[k].1 ==> !#[trigger] break_at(s, p),
        forall|k: int|
            0 <= k < segments_from(s, start).len() ==> (#[trigger] segments_from(s, start)[k]).1 == s.len()
                || break_at(s, segments_from(s, start)[k].1),
        forall|k: int|
            0 <= k < segments_from(s, start).len() ==> (#[trigger] segments_from(s, start)[k]).0 == start
                || exists|b: int| break_at(s, b) && skip_nl(s, b) == segments_from(s, start)[k].0,
        forall|j: int, k: int|
            0 <= j < k < segments_from(s, start).len() ==> (#[trigger] segments_from(s, start)[j]).1 <= (
            #[trigger] segments_from(s, start)[k]).0,
        forall|i: int|
            start <= i < s.len() && !is_ws(#[trigger] s[i]) ==> exists|k: int|
                0 <= k < segments_from(s, start).len() && (#[trigger] segments_from(s, start)[k]).0 <= i
                    < segments_from(s, start)[k].1,
    decreases s.len() - start,
{
    if start < s.len() {
        let a = next_break(s, start);
        lemma_next_break_bounds(s, start);
        let all = segments_from(s, start);
        if a >= s.len() {
            assert forall|i: int| start <= i < s.len() && !is_ws(#[trigger] s[i]) implies exists|k: int|
                0 <= k < all.len() && (#[trigger] all[k]).0 <= i < all[k].1 by {
                lemma_skip_ws_fwd_bounds(s, start, s.len() as int);
                assert(all[0] == (start, s.len() as int));
            }
        } else {
            let next = skip_nl(s, a);
            lemma_skip_nl_bounds(s, a);
            lemma_segments_from(s, next);
            let head = keep_segment(s, start, a);
            let tail = segments_from(s, next);
            assert(all == head + tail);
            assert forall|k: int| 0 <= k < all.len() implies start <= (#[trigger] all[k]).0 <= all[k].1
                <= s.len() && !is_blank(s, all[k].0, all[k].1) && (all[k].1 == s.len() || break_at(
                s,
                all[k].1,
            )) && (all[k].0 == start || exists|b: int| break_at(s, b) && skip_nl(s, b) == all[k].0) by {
                if k < head.len() {
                    assert(all[k] == head[k]);
                } else {
                    assert(all[k] == tail[k - head.len()]);
                    if tail[k - head.len()].0 == next {
                        assert(break_at(s, a) && skip_nl(s, a) == all[k].0);
                    }
                }
            }
            assert forall|k: int, p: int|
                0 <= k < all.len() && (#[trigger] all[k]).0 <= p < all[k].1 implies !#[trigger] break_at(
                s,
                p,
            ) by {
                if k < head.len() {
                    assert(all[k] == head[k]);
                } else {
                    assert(all[k] == tail[k - head.len()]);
                }
            }
            assert forall|j: int, k: int| 0 <= j < k < all.len() implies (#[trigger] all[j]).1 <= (
            #[trigger] all[k]).0 by {
                if k < head.len() {
                } else if j < head.len() {
                    assert(all[j] == head[j]);
                    assert(all[k] == tail[k - head.len()]);
                    assert(next <= tail[k - head.len()].0);
                } else {
                    assert(all[j] == tail[j - head.len()]);
                    assert(all[k] == tail[k - head.len()]);
                }
            }
            assert forall|i: int| start <= i < s.len() && !is_ws(#[trigger] s[i]) implies exists|k: int|
                0 <= k < all.len() && (#[trigger] all[k]).0 <= i < all[k].1 by {
                if i < a {
                    lemma_skip_ws_fwd_bounds(s, start, a);
                    assert(all[0] == (start, a));
                } else if i < next {
                    assert(is_nl(s[i]));
                } else {
                    let k2 = choose|k2: int| 0 <= k2 < tail.len() && (#[trigger] tail[k2]).0 <= i < tail[k2].1;
                    assert(all[head.len() + k2] == tail[k2]);
                }
            }
        }
    }
}

/// The law of paragraph splitting: every paragraph segment lies in the text,
/// holds more than whitespace and no paragraph break (a run of line breaks
/// holding at least two of them, `\r\n` counting as one), starts at the
/// beginning of the text or where such a break ends, and ends where one
/// starts or at the end of the text. Segments come in the order of the text
/// without overlapping, and every character that is not whitespace lies in
/// one of them.
pub proof fn lemma_paragraph_segments(s: Seq<char>)
    ensures
        forall|k: int|
            0 <= k < paragraph_segments(s).len() ==> 0 <= (#[trigger] paragraph_segments(s)[k]).0
                <= paragraph_segments(s)[k].1 <= s.len(),
        forall|k: int|
            0 <= k < paragraph_segments(s).len() ==> !is_blank(
                s,
                (#[trigger] paragraph_segments(s)[k]).0,
                paragraph_segments(s)[k].1,
            ),
        forall|k: int, p: int|
            0 <= k < paragraph_segments(s).len() && (#[trigger] paragraph_segments(s)[k]).0 <= p
                < paragraph_segments(s)[k].1 ==> !#[trigger] break_at(s, p),
        forall|k: int|
            0 <= k < paragraph_segments(s).len() ==> (#[trigger] paragraph_segments(s)[k]).1 == s.len()
                || break_at(s, paragraph_segments(s)[k].1),
        forall|k: int|
            0 <= k < paragraph_segments(s).len() ==> (#[trigger] paragraph_segments(s)[k]).0 == 0
                || exists|b: int| break_at(s, b) && skip_nl(s, b) == paragraph_segments(s)[k].0,
        forall|j: int, k: int|
            0 <= j < k < paragraph_segments(s).len() ==> (#[trigger] paragraph_segments(s)[j]).1 <= (
            #[trigger] paragraph_segments(s)[k]).0,
        forall|i: int|
            0 <= i < s.len() && !is_ws(#[trigger] s[i]) ==> exists|k: int|
                0 <= k < paragraph_segments(s).len() && (#[trigger] paragraph_segments(s)[k]).0 <= i
                    < paragraph_segments(s)[k].1,
{
    lemma_segments_from(s, 0);
    let segs = paragraph_segments(s);
    assert forall|i: int| 0 <= i < s.len() && !is_ws(#[trigger] s[i]) implies exists|k: int|
        0 <= k < segs.len() && (#[trigger] segs[k]).0 <= i < segs[k].1 by {
        let k = choose|k: int| 0 <= k < segments_from(s, 0).len() && (#[trigger] segments_from(s, 0)[k]).0 <= i
            < segments_from(s, 0)[k].1;
        assert(segs[k] == segments_from(s, 0)[k]);
    }
}

fn char_is_nl(c: char) -> (b: bool)
    ensures
        b == is_nl(c),
{
    c == '\n' || c == '\r'
}

fn skip_nl_at(s: &Vec<char>, i: usize) -> (r: usize)
    requires
        i <= s.len(),
    ensures
        r == skip_nl(s@, i as int),
{
    let n = s.len();
    let mut k = i;
    while k < n && char_is_nl(s[k])
        invariant
            i <= k <= n == s.len(),
            skip_nl(s@, k as int) == skip_nl(s@, i as int),
        decreases n - k,
    {
        k = k + 1;
    }
    k
}

/// Whether a paragraph break starts at `k`.
fn is_break_at(s: &Vec<char>, k: usize) -> (b: bool)
    requires
        k < s.len(),
    ensures
        b == break_at(s@, k as int),
{
    if !char_is_nl(s[k]) {
        return false;
    }
    if k > 0 && char_is_nl(s[k - 1]) {
        return false;
    }
    let e = skip_nl_at(s, k);
    proof {
        lemma_skip_nl_bounds(s@, k as int);
        lemma_line_break_count_two(s@, k as int, e as int);
    }
    e - k >= 3 || (e - k == 2 && !(s[k] == '\r' && s[k + 1] == '\n'))
}

fn next_break_at(s: &Vec<char>, i: usize) -> (r: usize)
    requires
        i <= s.len(),
    ensures
        r == next_break(s@, i as int),
{
    let n = s.len();
    let mut k = i;
    while k < n
        invariant
            i <= k <= n == s.len(),
            next_break(s@, k as int) == next_break(s@, i as int),
        decreases n - k,
    {
        if is_break_at(s, k) {
            return k;
        }
        k = k + 1;
    }
    n
}

/// The paragraph segments of a character sequence, as `(start, end)` ranges.
pub fn segment_ranges(s: &Vec<char>) -> (r: Vec<(usize, usize)>)
    ensures
        int_pairs(r@) == paragraph_segments(s@),
{
    let n = s.len();
    let mut out: Vec<(usize, usize)> = Vec::new();
    let mut start: usize = 0;
    while start < n
        invariant
            start <= n == s.len(),
            paragraph_segments(s@) == int_pairs(out@) + segments_from(s@, start as int),
        decreases n - start,
    {
        let a = next_break_at(s, start);
        proof {
            lemma_next_break_bounds(s@, start as int);
        }
        let ghost rest = segments_from(s@, start as int);
        let ghost old_out = out@;
        if a >= n {
            let f = skip_ws_forward(s, start, n);
            if f < n {
                out.push((start, n));
            }
            proof {
                assert(rest == keep_segment(s@, start as int, n as int));
                assert(int_pairs(out@) == int_pairs(old_out) + keep_segment(s@, start as int, n as int));
                assert(segments_from(s@, n as int) == Seq::<(int, int)>::empty());
                assert(paragraph_segments(s@) == int_pairs(out@) + segments_from(s@, n as int));
            }
            start = n;
        } else {
            let f = skip_ws_forward(s, start, a);
            if f < a {
                out.push((start, a));
            }
            let next = skip_nl_at(s, a);
            proof {
                lemma_skip_nl_bounds(s@, a as int);
                assert(rest == keep_segment(s@, start as int, a as int) + segments_from(s@, next as int));
                assert(int_pairs(out@) == int_pairs(old_out) + keep_segment(s@, start as int, a as int));
                assert(paragraph_segments(s@) == int_pairs(out@) + segments_from(s@, next as int));
            }
            start = next;
        }
    }
    proof {
        assert(segments_from(s@, start as int) == Seq::<(int, int)>::empty());
        assert(int_pairs(out@) + Seq::<(int, int)>::empty() == int_pairs(out@));
    }
    out
}

/// Split text into paragraphs by blank lines or double newlines.
///
/// Each returned slice is a paragraph segment of the text: the text between
/// two paragraph breaks, which may still carry surrounding whitespace and
/// single line breaks; segments holding only whitespace are left out.
pub fn split_into_paragraphs(text: &str) -> (r: Vec<&str>)
    ensures
        r.len() == paragraph_segments(text@).len(),
        forall|k: int|
            0 <= k < r.len() ==> (#[trigger] r[k])@ == text@.subrange(
                paragraph_segments(text@)[k].0,
                paragraph_segments(text@)[k].1,
            ),
{
    let chars = chars_of(text);
    let ranges = segment_ranges(&chars);
    proof {
        lemma_segments_from(chars@, 0);
    }
    let mut out: Vec<&str> = Vec::new();
    let mut k: usize = 0;
    while k < ranges.len()
        invariant
            k <= ranges.len(),
            chars@ == text@,
            int_pairs(ranges@) == paragraph_segments(text@),
            out.len() == k,
            forall|j: int|
                0 <= j < k ==> (#[trigger] out[j])@ == text@.subrange(
                    paragraph_segments(text@)[j].0,
                    paragraph_segments(text@)[j].1,
                ),
            forall|j: int|
                0 <= j < paragraph_segments(text@).len() ==> 0 <= (
                #[trigger] paragraph_segments(text@)[j]).0 <= paragraph_segments(text@)[j].1
                    <= text@.len(),
        decreases ranges.len() - k,
    {
        let (lo, hi) = ranges[k];
        assert(int_pairs(ranges@)[k as int] == (lo as int, hi as int));
        let piece = text.substring_char(lo, hi);
        out.push(piece);
        k = k + 1;
    }
    out
}

/// The CFI of the `k`-th paragraph (counting from zero): `/2`, `/4`, ...
pub open spec fn paragraph_cfi(k: int) -> Seq<char> {
    seq!['/'] + decimal((2 * (k + 1)) as nat)
}

/// Whether `n` is the paragraph node for paragraph `k` with the given text:
/// a `Paragraph` with CFI `/{2(k+1)}` and a single `Text` child holding it.
pub open spec fn is_paragraph_node(n: DomNode, k: int, text: Seq<char>) -> bool {
    &&& n.node_type == NodeType::Paragraph
    &&& n.cfi_anchor is Some
    &&& n.cfi_anchor.unwrap()@ == paragraph_cfi(k)
    &&& n.text is None
    &&& n.attributes@.len() == 0
    &&& n.children@.len() == 1
    &&& n.children@[0].node_type == NodeType::Text
    &&& n.children@[0].cfi_anchor is None
    &&& n.children@[0].text is Some
    &&& n.children@[0].text.unwrap()@ == text
    &&& n.children@[0].attributes@.len() == 0
    &&& n.children@[0].children@.len() == 0
}

/// The paragraph nodes that a text gives: one per paragraph segment, holding
/// the segment's trimmed text.
pub open spec fn paragraphs_of(s: Seq<char>, nodes: Seq<DomNode>) -> bool {
    &&& nodes.len() == paragraph_segments(s).len()
    &&& forall|k: int|
        0 <= k < nodes.len() ==> is_paragraph_node(
            #[trigger] nodes[k],
            k,
            trimmed(s, paragraph_segments(s)[k].0, paragraph_segments(s)[k].1),
        )
}

/// Splits text content into paragraph DOM nodes.
pub fn split_paragraphs(content: &str) -> (nodes: Vec<DomNode>)
    ensures
        paragraphs_of(content@, nodes@),
{
    let chars = chars_of(content);
    let ranges = segment_ranges(&chars);
    proof {
        lemma_segments_from(chars@, 0);
    }
    let mut nodes: Vec<DomNode> = Vec::new();
    let mut k: usize = 0;
    while k < ranges.len()
        invariant
            k <= ranges.len(),
            chars@ == content@,
            int_pairs(ranges@) == paragraph_segments(content@),
            nodes.len() == k,
            forall|j: int|
                0 <= j < k ==> is_paragraph_node(
                    #[trigger] nodes@[j],
                    j,
                    trimmed(content@, paragraph_segments(content@)[j].0, paragraph_segments(content@)[j].1),
                ),
            forall|j: int|
                0 <= j < paragraph_segments(content@).len() ==> 0 <= (
                #[trigger] paragraph_segments(content@)[j]).0 <= paragraph_segments(content@)[j].1
                    <= content@.len(),
        decreases ranges.len() - k,
    {
        let (lo, hi) = ranges[k];
        assert(int_pairs(ranges@)[k as int] == (lo as int, hi as int));
        let (a, b) = trim_bounds(&chars, lo, hi);
        let text = string_from_range(&chars, a, b);
        let mut cfi = String::new();
        push_char(&mut cfi, '/');
        let index: u128 = 2 * (k as u128 + 1);
        push_decimal(&mut cfi, index);
        assert(cfi@ == paragraph_cfi(k as int));
        let text_node = DomNode {
            node_type: NodeType::Text,
            cfi_anchor: None,
            text: Some(text),
            attributes: Vec::new(),
            children: Vec::new(),
        };
        let mut children: Vec<DomNode> = Vec::new();
        children.push(text_node);
        let para = DomNode {
            node_type: NodeType::Paragraph,
            cfi_anchor: Some(cfi),
            text: None,
            attributes: Vec::new(),
            children,
        };
        nodes.push(para);
        k = k + 1;
    }
    nodes
}

} // verus!

verus! {

/// The name of the encoding that `chardetng` guesses for `data` (after one
/// `feed` of the whole input, no top-level domain, UTF-8 allowed).
pub uninterp spec fn chardet_guess_name(data: Seq<u8>) -> Seq<char>;

/// What `encoding_rs` gives when the encoding that `label` names decodes
/// `data` as a complete input (with BOM sniffing, malformed sequences
/// replaced): the text and whether anything was replaced; `None` where
/// `label` names no encoding.
pub uninterp spec fn decode_by_label_result(label: Seq<char>, data: Seq<u8>) -> Option<(Seq<char>, bool)>;

/// What `String::from_utf8_lossy` gives for `data`.
pub uninterp spec fn utf8_lossy_text(data: Seq<u8>) -> Seq<char>;

/// Guesses the encoding of `data` with `chardetng` and gives its name. The
/// guess is one of `encoding_rs`'s encodings, and the name of each of them
/// is among `encoding_rs`'s labels, so decoding by that name always finds
/// the encoding: the contract claims that for every input.
#[verifier::external_body]
fn guess_encoding_name(data: &[u8]) -> (name: String)
    ensures
        name@ == chardet_guess_name(data@),
        forall|d: Seq<u8>| #[trigger] decode_by_label_result(name@, d) is Some,
{
    let mut detector = chardetng::EncodingDetector::new();
    detector.feed(data, true);
    detector.guess(None, true).name().to_string()
}

/// Decodes `data` with the `encoding_rs` encoding that `label` names
/// (`Encoding::for_label`, then `Encoding::decode`); `None` when the label is
/// unknown. The decoded text is named, not described in general; of the
/// labels, only that `UTF-8`, `UTF-16LE` and `UTF-16BE` are known (the
/// crate's label table lists them) is stated. Input that is valid UTF-8 and
/// does not start with a UTF-8 byte order mark decodes under `UTF-8` to
/// exactly its characters with nothing replaced (`decode` sniffs a BOM
/// first, which such input cannot start with, then borrows valid UTF-8).
#[verifier::external_body]
fn decode_by_label(label: &str, data: &[u8]) -> (r: Option<(String, bool)>)
    ensures
        (label@ == "UTF-8"@ || label@ == "UTF-16LE"@ || label@ == "UTF-16BE"@) ==> r is Some,
        r matches Some(p) ==> (label@ == "UTF-8"@ && vstd::utf8::valid_utf8(data@) && !has_utf8_bom(data@) ==> p.0@
            == vstd::utf8::decode_utf8(data@) && !p.1),
        match r {
            Some(p) => decode_by_label_result(label@, data@) == Some((p.0@, p.1)),
            None => decode_by_label_result(label@, data@) is None,
        },
{
    match encoding_rs::Encoding::for_label(label.as_bytes()) {
        Some(encoding) => {
            let (text, _, had_errors) = encoding.decode(data);
            Some((text.into_owned(), had_errors))
        },
        None => None,
    }
}

/// Decodes UTF-8 with malformed sequences replaced (`String::from_utf8_lossy`).
/// Input that is valid UTF-8 decodes to exactly its characters.
#[verifier::external_body]
fn utf8_lossy(data: &[u8]) -> (s: String)
    ensures
        s@ == utf8_lossy_text(data@),
        vstd::utf8::valid_utf8(data@) ==> s@ == vstd::utf8::decode_utf8(data@),
{
    String::from_utf8_lossy(data).into_owned()
}

/// Result of encoding detection.
#[derive(Debug, Clone)]
pub struct EncodingResult {
    /// Detected encoding name.
    pub encoding_name: String,
    /// Decoded UTF-8 string.
    pub content: String,
    /// Whether the encoding was detected with high confidence.
    pub confident: bool,
    /// Whether any replacement characters were used.
    pub had_replacements: bool,
}

/// TXT parser that handles encoding detection and paragraph splitting.
#[derive(Debug)]
pub struct TxtParser;

pub open spec fn has_utf8_bom(d: Seq<u8>) -> bool {
    d.len() >= 3 && d[0] == 0xEF && d[1] == 0xBB && d[2] == 0xBF
}

pub open spec fn has_utf16le_bom(d: Seq<u8>) -> bool {
    !has_utf8_bom(d) && d.len() >= 2 && d[0] == 0xFF && d[1] == 0xFE
}

pub open spec fn has_utf16be_bom(d: Seq<u8>) -> bool {
    !has_utf8_bom(d) && d.len() >= 2 && d[0] == 0xFE && d[1] == 0xFF
}

pub open spec fn has_bom(d: Seq<u8>) -> bool {
    has_utf8_bom(d) || has_utf16le_bom(d) || has_utf16be_bom(d)
}

/// Whether `r` is the decoding of `data` with the encoding named `name`.
pub open spec fn decoded_as(r: EncodingResult, name: Seq<char>, data: Seq<u8>) -> bool {
    &&& r.encoding_name@ == name
    &&& r.confident
    &&& decode_by_label_result(name, data) == Some((r.content@, r.had_replacements))
}

/// What `detect_and_decode` gives for `data`: the BOM decides the encoding
/// when there is one, else the `chardetng` guess does.
pub open spec fn detect_and_decode_ok(data: Seq<u8>, r: EncodingResult) -> bool {
    if has_utf8_bom(data) {
        &&& r.encoding_name@ == "UTF-8"@
        &&& r.content@ == utf8_lossy_text(data.subrange(3, data.len() as int))
        &&& r.confident
        &&& r.had_replacements == !vstd::utf8::valid_utf8(data.subrange(3, data.len() as int))
        &&& vstd::utf8::valid_utf8(data.subrange(3, data.len() as int)) ==> r.content@ == vstd::utf8::decode_utf8(
            data.subrange(3, data.len() as int),
        )
    } else if has_utf16le_bom(data) {
        decoded_as(r, "UTF-16LE"@, data)
    } else if has_utf16be_bom(data) {
        decoded_as(r, "UTF-16BE"@, data)
    } else {
        decoded_as(r, chardet_guess_name(data), data)
    }
}

/// The prefix of `data` that `parse_chunked` samples for detection: at most
/// `chunk_size` bytes and at most 64 KiB.
pub open spec fn detection_sample(data: Seq<u8>, chunk_size: int) -> Seq<u8> {
    let a = if chunk_size < data.len() { chunk_size } else { data.len() as int };
    let b = if a < 65536 { a } else { 65536 };
    data.subrange(0, b)
}

impl TxtParser {
    /// Parse raw bytes into DOM nodes with automatic encoding detection.
    pub fn parse(data: &[u8]) -> (r: Result<(Vec<DomNode>, EncodingResult), crate::parse_error::ParseError>)
        ensures
            data@.len() == 0 ==> r matches Err(crate::parse_error::ParseError::EmptyContent),
            data@.len() > 0 ==> (r matches Ok(p) && detect_and_decode_ok(data@, p.1) && paragraphs_of(
                p.1.content@,
                p.0@,
            )),
    {
        if data.len() == 0 {
            return Err(crate::parse_error::ParseError::EmptyContent);
        }
        let encoding_result = match Self::detect_and_decode(data) {
            Ok(e) => e,
            Err(e) => return Err(e),
        };
        let nodes = Self::split_paragraphs(encoding_result.content.as_str());
        Ok((nodes, encoding_result))
    }

    /// Detect encoding and decode bytes to a string.
    pub fn detect_and_decode(data: &[u8]) -> (r: Result<EncodingResult, crate::parse_error::ParseError>)
        ensures
            r matches Ok(e) && detect_and_decode_ok(data@, e),
            !has_bom(data@) && chardet_guess_name(data@) == "UTF-8"@ && vstd::utf8::valid_utf8(data@) ==> (r matches Ok(e)
                && e.content@ == vstd::utf8::decode_utf8(data@) && !e.had_replacements),
    {
        if let Some(result) = Self::detect_bom(data) {
            return Ok(result);
        }
        let name = guess_encoding_name(data);
        match decode_by_label(name.as_str(), data) {
            Some((content, had_errors)) => Ok(
                EncodingResult { encoding_name: name, content, confident: true, had_replacements: had_errors },
            ),
            None => Err(crate::parse_error::ParseError::UnsupportedEncoding(name)),
        }
    }

    /// Checks for a byte order mark and decodes accordingly.
    pub fn detect_bom(data: &[u8]) -> (r: Option<EncodingResult>)
        ensures
            has_bom(data@) ==> (r matches Some(e) && detect_and_decode_ok(data@, e)),
            !has_bom(data@) ==> r is None,
    {
        let n = data.len();
        if n >= 3 && data[0] == 0xEFu8 && data[1] == 0xBBu8 && data[2] == 0xBFu8 {
            let rest = slice_from(data, 3);
            let content = utf8_lossy(rest);
            let had_replacements = match utf8_text(vstd::slice::slice_to_vec(rest)) {
                Ok(_) => false,
                Err(_) => true,
            };
            let name = String::from_str("UTF-8");
            return Some(EncodingResult { encoding_name: name, content, confident: true, had_replacements });
        }
        if n >= 2 && data[0] == 0xFFu8 && data[1] == 0xFEu8 {
            let label = "UTF-16LE";
            if let Some((content, had_errors)) = decode_by_label(label, data) {
                return Some(EncodingResult {
                    encoding_name: String::from_str(label),
                    content,
                    confident: true,
                    had_replacements: had_errors,
                });
            }
        }
        if n >= 2 && data[0] == 0xFEu8 && data[1] == 0xFFu8 {
            let label = "UTF-16BE";
            if let Some((content, had_errors)) = decode_by_label(label, data) {
                return Some(EncodingResult {
                    encoding_name: String::from_str(label),
                    content,
                    confident: true,
                    had_replacements: had_errors,
                });
            }
        }
        None
    }

    /// Parse a large input: detect the encoding on a sample of at most
    /// `chunk_size` bytes (and at most 64 KiB), decode the whole input with
    /// it, and split the text into paragraphs. The input is decoded as one
    /// stream, so a character whose bytes straddle two chunks of
    /// `chunk_size` bytes comes out whole.
    pub fn parse_chunked(data: &[u8], chunk_size: usize) -> (r: Result<(Vec<DomNode>, EncodingResult), crate::parse_error::ParseError>)
        requires
            chunk_size > 0 || data@.len() == 0,
        ensures
            data@.len() == 0 ==> r matches Err(crate::parse_error::ParseError::EmptyContent),
            data@.len() > 0 ==> ({
                let name = chardet_guess_name(detection_sample(data@, chunk_size as int));
                let p = decode_by_label_result(name, data@).unwrap();
                r matches Ok(q) && q.1.encoding_name@ == name && q.1.content@ == p.0 && q.1.had_replacements == p.1
                    && q.1.confident && paragraphs_of(q.1.content@, q.0@)
            }),
            data@.len() > 0 && chardet_guess_name(detection_sample(data@, chunk_size as int)) == "UTF-8"@
                && vstd::utf8::valid_utf8(data@) && !has_utf8_bom(data@) ==> (r matches Ok(q) && q.1.content@
                == vstd::utf8::decode_utf8(data@) && !q.1.had_replacements),
    {
        let n = data.len();
        if n == 0 {
            return Err(crate::parse_error::ParseError::EmptyContent);
        }
        let a = if chunk_size < n { chunk_size } else { n };
        let sample_size = if a < 65536 { a } else { 65536 };
        let sample = vstd::slice::slice_subrange(data, 0, sample_size);
        let name = guess_encoding_name(sample);
        match decode_by_label(name.as_str(), data) {
            Some((content, had_replacements)) => {
                let nodes = Self::split_paragraphs(content.as_str());
                let encoding_result = EncodingResult { encoding_name: name, content, confident: true, had_replacements };
                Ok((nodes, encoding_result))
            },
            None => {
                assert(decode_by_label_result(name@, data@) is Some);
                Err(crate::parse_error::ParseError::UnsupportedEncoding(name))
            },
        }
    }

    /// Split text content into paragraph DOM nodes.
    pub fn split_paragraphs(content: &str) -> (nodes: Vec<DomNode>)
        ensures
            paragraphs_of(content@, nodes@),
    {
        split_paragraphs(content)
    }
}

/// The bytes of `data` from `lo` on.
fn slice_from(data: &[u8], lo: usize) -> (r: &[u8])
    requires
        lo <= data@.len(),
    ensures
        r@ == data@.subrange(lo as int, data@.len() as int),
{
    vstd::slice::slice_subrange(data, lo, data.len())
}

} // verus!
