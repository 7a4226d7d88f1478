//! Path, tag and CFI rules of the EPUB parser.
use vstd::prelude::*;
use crate::numfmt::{decimal, push_decimal};
use crate::text::{
    chars_of, find_char, find_char_from, lemma_find_char_from, after_last, after_last_char,
    lemma_after_last_char, range_eq_str, vec_eq_str, push_char, string_from_range,
};
use crate::types::NodeType;

verus! {

// ----- normalize_path -----

/// The pieces of `s[pos..]` between `/` separators, as `str::split('/')` gives them.
pub open spec fn split_from(s: Seq<char>, pos: int) -> Seq<Seq<char>>
    decreases s.len() - pos,
{
    if pos < 0 || pos > s.len() {
        Seq::empty()
    } else {
        let i = find_char_from(s, '/', pos);
        if i >= s.len() {
            seq![s.subrange(pos, s.len() as int)]
        } else {
            proof {
                lemma_find_char_from(s, '/', pos);
            }
            seq![s.subrange(pos, i)] + split_from(s, i + 1)
        }
    }
}

/// One step of path resolution: `.` and empty pieces change nothing, `..`
/// drops the last kept piece, any other piece is kept.
pub open spec fn resolve_step(acc: Seq<Seq<char>>, seg: Seq<char>) -> Seq<Seq<char>> {
    if seg.len() == 0 || seg == seq!['.'] {
        acc
    } else if seg == seq!['.', '.'] {
        if acc.len() > 0 { acc.drop_last() } else { acc }
    } else {
        acc.push(seg)
    }
}

/// The pieces kept after resolving `segs` in order, starting from `acc`.
pub open spec fn resolve(acc: Seq<Seq<char>>, segs: Seq<Seq<char>>) -> Seq<Seq<char>>
    decreases segs.len(),
{
    if segs.len() == 0 {
        acc
    } else {
        resolve(resolve_step(acc, segs[0]), segs.drop_first())
    }
}

/// The pieces joined with `/` between them.
pub open spec fn join_slash(parts: Seq<Seq<char>>) -> Seq<char>
    decreases parts.len(),
{
    if parts.len() == 0 {
        Seq::empty()
    } else if parts.len() == 1 {
        parts[0]
    } else {
        join_slash(parts.drop_last()) + seq!['/'] + parts.last()
    }
}

/// A path with its `.` and `..` segments resolved and empty segments dropped.
pub open spec fn normalized(path: Seq<char>) -> Seq<char> {
    join_slash(resolve(Seq::empty(), split_from(path, 0)))
}

/// Pieces that a resolved path may hold: none empty, none `.` or `..`.
pub open spec fn clean_pieces(parts: Seq<Seq<char>>) -> bool {
    forall|k: int|
        0 <= k < parts.len() ==> (#[trigger] parts[k]).len() > 0 && parts[k] != seq!['.'] && parts[k] != seq![
            '.',
            '.',
        ]
}

/// Resolving keeps the pieces clean.
pub proof fn lemma_resolve_clean(acc: Seq<Seq<char>>, segs: Seq<Seq<char>>)
    requires
        clean_pieces(acc),
    ensures
        clean_pieces(resolve(acc, segs)),
    decreases segs.len(),
{
    if segs.len() > 0 {
        let next = resolve_step(acc, segs[0]);
        assert(clean_pieces(next)) by {
            if segs[0].len() == 0 || segs[0] == seq!['.'] {
            } else if segs[0] == seq!['.', '.'] {
                if acc.len() > 0 {
                    assert forall|k: int| 0 <= k < next.len() implies (#[trigger] next[k]).len() > 0 && next[k]
                        != seq!['.'] && next[k] != seq!['.', '.'] by {
                        assert(next[k] == acc[k]);
                    }
                }
            } else {
                assert forall|k: int| 0 <= k < next.len() implies (#[trigger] next[k]).len() > 0 && next[k]
                    != seq!['.'] && next[k] != seq!['.', '.'] by {
                    if k < acc.len() {
                        assert(next[k] == acc[k]);
                    }
                }
            }
        }
        lemma_resolve_clean(next, segs.drop_first());
    }
}

/// A normalized path is its kept pieces joined by `/`, and no kept piece is
/// empty, `.` or `..`: normalizing resolves every `.` and `..` segment and
/// drops empty ones.
pub proof fn lemma_normalized_is_clean(path: Seq<char>)
    ensures
        normalized(path) == join_slash(resolve(Seq::empty(), split_from(path, 0))),
        clean_pieces(resolve(Seq::empty(), split_from(path, 0))),
{
    lemma_resolve_clean(Seq::empty(), split_from(path, 0));
}

/// No piece holds a `/`.
pub open spec fn slash_free(parts: Seq<Seq<char>>) -> bool {
    forall|k: int, j: int| 0 <= k < parts.len() && 0 <= j < parts[k].len() ==> #[trigger] parts[k][j] != '/'
}

proof fn lemma_split_slash_free(s: Seq<char>, pos: int)
    ensures
        slash_free(split_from(s, pos)),
    decreases s.len() - pos,
{
    if 0 <= pos <= s.len() {
        lemma_find_char_from(s, '/', pos);
        let i = find_char_from(s, '/', pos);
        let parts = split_from(s, pos);
        if i < s.len() {
            lemma_split_slash_free(s, i + 1);
            let rest = split_from(s, i + 1);
            assert forall|k: int, j: int| 0 <= k < parts.len() && 0 <= j < parts[k].len() implies #[trigger] parts[k][j]
                != '/' by {
                if k > 0 {
                    assert(parts[k] == rest[k - 1]);
                } else {
                    assert(parts[0][j] == s[pos + j]);
                }
            }
        } else {
            assert forall|k: int, j: int| 0 <= k < parts.len() && 0 <= j < parts[k].len() implies #[trigger] parts[k][j]
                != '/' by {
                assert(parts[0][j] == s[pos + j]);
            }
        }
    }
}

proof fn lemma_resolve_slash_free(acc: Seq<Seq<char>>, segs: Seq<Seq<char>>)
    requires
        slash_free(acc),
        slash_free(segs),
    ensures
        slash_free(resolve(acc, segs)),
    decreases segs.len(),
{
    if segs.len() > 0 {
        let next = resolve_step(acc, segs[0]);
        assert(slash_free(next)) by {
            assert forall|k: int, j: int| 0 <= k < next.len() && 0 <= j < next[k].len() implies #[trigger] next[k][j]
                != '/' by {
                if k < acc.len() {
                    assert(next[k] == acc[k]);
                } else {
                    assert(next[k] == segs[0]);
                }
            }
        }
        let rest = segs.drop_first();
        assert forall|k: int, j: int| 0 <= k < rest.len() && 0 <= j < rest[k].len() implies #[trigger] rest[k][j]
            != '/' by {
            assert(rest[k] == segs[k + 1]);
        }
        lemma_resolve_slash_free(next, rest);
    }
}

/// Resolving clean pieces keeps each of them.
proof fn lemma_resolve_clean_keeps(acc: Seq<Seq<char>>, parts: Seq<Seq<char>>)
    requires
        clean_pieces(parts),
    ensures
        resolve(acc, parts) == acc + parts,
    decreases parts.len(),
{
    if parts.len() > 0 {
        let rest = parts.drop_first();
        assert(clean_pieces(rest)) by {
            assert forall|k: int| 0 <= k < rest.len() implies (#[trigger] rest[k]).len() > 0 && rest[k] != seq!['.']
                && rest[k] != seq!['.', '.'] by {
                assert(rest[k] == parts[k + 1]);
            }
        }
        assert(parts[0].len() > 0 && parts[0] != seq!['.'] && parts[0] != seq!['.', '.']);
        lemma_resolve_clean_keeps(acc.push(parts[0]), rest);
        assert(acc.push(parts[0]) + rest =~= acc + parts);
    }
}

proof fn lemma_find_shift(u: Seq<char>, v: Seq<char>, c: char, j: int)
    requires
        0 <= j <= v.len(),
    ensures
        find_char_from(u + v, c, u.len() + j) == u.len() + find_char_from(v, c, j),
    decreases v.len() - j,
{
    if j < v.len() {
        assert((u + v)[u.len() + j] == v[j]);
        lemma_find_shift(u, v, c, j + 1);
    }
}

proof fn lemma_split_shift(u: Seq<char>, v: Seq<char>, j: int)
    requires
        0 <= j <= v.len(),
    ensures
        split_from(u + v, u.len() + j) == split_from(v, j),
    decreases v.len() - j,
{
    lemma_find_shift(u, v, '/', j);
    lemma_find_char_from(v, '/', j);
    let i = find_char_from(v, '/', j);
    if i < v.len() {
        lemma_split_shift(u, v, i + 1);
        assert((u + v).subrange(u.len() + j, u.len() + i) =~= v.subrange(j, i));
    } else {
        assert((u + v).subrange(u.len() + j, (u + v).len() as int) =~= v.subrange(j, v.len() as int));
    }
}

proof fn lemma_join_front(parts: Seq<Seq<char>>)
    requires
        parts.len() >= 2,
    ensures
        join_slash(parts) == parts[0] + seq!['/'] + join_slash(parts.drop_first()),
    decreases parts.len(),
{
    let rest = parts.drop_first();
    if parts.len() == 2 {
        assert(parts.drop_last() =~= seq![parts[0]]);
        assert(rest =~= seq![parts[1]]);
        assert(join_slash(parts.drop_last()) == parts[0]);
        assert(join_slash(rest) == parts[1]);
        assert(join_slash(parts) == join_slash(parts.drop_last()) + seq!['/'] + parts.last());
    } else {
        lemma_join_front(parts.drop_last());
        assert(parts.drop_last().drop_first() =~= rest.drop_last());
        assert(parts.drop_last()[0] == parts[0]);
        assert(rest.last() == parts.last());
        assert(join_slash(parts) =~= parts[0] + seq!['/'] + join_slash(rest));
    }
}

/// Splitting pieces that hold no `/` after joining them gives them back.
proof fn lemma_split_join(parts: Seq<Seq<char>>)
    requires
        parts.len() > 0,
        slash_free(parts),
    ensures
        split_from(join_slash(parts), 0) == parts,
    decreases parts.len(),
{
    let p0 = parts[0];
    if parts.len() == 1 {
        lemma_find_char_from(p0, '/', 0);
        if find_char_from(p0, '/', 0) < p0.len() {
            assert(parts[0][find_char_from(p0, '/', 0)] != '/');
        }
        assert(p0.subrange(0, p0.len() as int) =~= p0);
        assert(parts =~= seq![p0]);
    } else {
        let rest = parts.drop_first();
        assert forall|k: int, j: int| 0 <= k < rest.len() && 0 <= j < rest[k].len() implies #[trigger] rest[k][j]
            != '/' by {
            assert(rest[k] == parts[k + 1]);
        }
        lemma_split_join(rest);
        lemma_join_front(parts);
        let head = p0 + seq!['/'];
        let s = join_slash(parts);
        assert(s =~= head + join_slash(rest));
        lemma_find_char_from(s, '/', 0);
        let i = find_char_from(s, '/', 0);
        assert(s[p0.len() as int] == '/');
        if i < p0.len() {
            assert(s[i] == parts[0][i]);
        }
        assert(i == p0.len());
        assert(s.subrange(0, i) =~= p0);
        lemma_split_shift(head, join_slash(rest), 0);
        assert(split_from(s, 0) == seq![p0] + split_from(s, i + 1));
        assert(parts =~= seq![p0] + rest);
    }
}

/// Normalizing is idempotent: a normalized path normalizes to itself.
pub proof fn lemma_normalized_idempotent(path: Seq<char>)
    ensures
        normalized(normalized(path)) == normalized(path),
{
    let segs = split_from(path, 0);
    let parts = resolve(Seq::empty(), segs);
    lemma_resolve_clean(Seq::empty(), segs);
    lemma_split_slash_free(path, 0);
    lemma_resolve_slash_free(Seq::empty(), segs);
    let q = join_slash(parts);
    if parts.len() == 0 {
        assert(q.len() == 0);
        lemma_find_char_from(q, '/', 0);
        assert(q.subrange(0, 0) =~= Seq::<char>::empty());
        assert(split_from(q, 0) == seq![q.subrange(0, 0)]);
        assert(split_from(q, 0) =~= seq![Seq::<char>::empty()]);
        let e = split_from(q, 0);
        assert(resolve(Seq::empty(), e) == resolve(resolve_step(Seq::empty(), e[0]), e.drop_first()));
        assert(e.drop_first() =~= Seq::<Seq<char>>::empty());
    } else {
        lemma_split_join(parts);
        lemma_resolve_clean_keeps(Seq::empty(), parts);
        assert(Seq::<Seq<char>>::empty() + parts =~= parts);
    }
}

pub open spec fn range_pieces(s: Seq<char>, v: Seq<(usize, usize)>) -> Seq<Seq<char>> {
    v.map_values(|p: (usize, usize)| s.subrange(p.0 as int, p.1 as int))
}

/// Normalize a path by resolving `.` and `..` segments.
pub fn normalize_path(path: &str) -> (r: String)
    ensures
        r@ == normalized(path@),
{
    let s = chars_of(path);
    let n = s.len();
    let mut parts: Vec<(usize, usize)> = Vec::new();
    let mut pos: usize = 0;
    let mut done = false;
    assert(range_pieces(s@, parts@) == Seq::<Seq<char>>::empty());
    while !done
        invariant
            s@ == path@,
            n == s.len(),
            pos <= n,
            forall|k: int| 0 <= k < parts.len() ==> (#[trigger] parts@[k]).0 <= parts@[k].1 <= n,
            !done ==> resolve(Seq::empty(), split_from(s@, 0)) == resolve(
                range_pieces(s@, parts@),
                split_from(s@, pos as int),
            ),
            done ==> resolve(Seq::empty(), split_from(s@, 0)) == range_pieces(s@, parts@),
        decreases n - pos, (if done { 0int } else { 1int }),
    {
        let i = find_char(&s, '/', pos);
        proof {
            lemma_find_char_from(s@, '/', pos as int);
        }
        let ghost acc = range_pieces(s@, parts@);
        let ghost seg = s@.subrange(pos as int, i as int);
        let ghost rest = split_from(s@, pos as int);
        let is_dot = range_eq_str(&s, pos, i, ".");
        let is_dotdot = range_eq_str(&s, pos, i, "..");
        proof {
            reveal_strlit(".");
            reveal_strlit("..");
            assert("."@ =~= seq!['.']);
            assert(".."@ =~= seq!['.', '.']);
        }
        if i == pos || is_dot {
        } else if is_dotdot {
            if parts.len() > 0 {
                parts.pop();
                assert(range_pieces(s@, parts@) == acc.drop_last());
            }
        } else {
            parts.push((pos, i));
            assert(range_pieces(s@, parts@) == acc.push(seg));
        }
        assert(range_pieces(s@, parts@) == resolve_step(acc, seg));
        if i >= n {
            assert(rest == seq![seg]);
            assert(rest[0] == seg);
            assert(rest.drop_first() == Seq::<Seq<char>>::empty());
            assert(resolve(acc, rest) == resolve(resolve_step(acc, seg), Seq::<Seq<char>>::empty()));
            done = true;
        } else {
            assert(rest == seq![seg] + split_from(s@, i + 1));
            assert(rest[0] == seg);
            assert(rest.drop_first() == split_from(s@, i + 1));
            pos = i + 1;
        }
    }
    let mut out = String::new();
    let mut k: usize = 0;
    while k < parts.len()
        invariant
            k <= parts.len(),
            forall|j: int| 0 <= j < parts.len() ==> (#[trigger] parts@[j]).0 <= parts@[j].1 <= n,
            n == s.len(),
            out@ == join_slash(range_pieces(s@, parts@).subrange(0, k as int)),
        decreases parts.len() - k,
    {
        let (lo, hi) = parts[k];
        let ghost before = out@;
        let ghost pieces = range_pieces(s@, parts@);
        if k > 0 {
            push_char(&mut out, '/');
        }
        let piece = string_from_range(&s, lo, hi);
        out.append(piece.as_str());
        proof {
            let pre = pieces.subrange(0, k as int);
            let post = pieces.subrange(0, k + 1);
            assert(post.drop_last() == pre);
            assert(post.last() == s@.subrange(lo as int, hi as int));
            if k == 0 {
                assert(out@ == join_slash(post));
            } else {
                assert(out@ == join_slash(post));
            }
        }
        k = k + 1;
    }
    assert(range_pieces(s@, parts@).subrange(0, parts.len() as int) == range_pieces(s@, parts@));
    out
}

// ----- build_cfi -----

/// The CFI that a counter stack gives: `/{2c}` for each counter past the
/// root level, in order; `/2` when there is none.
pub open spec fn cfi_of(counters: Seq<u32>) -> Seq<char> {
    if counters.len() <= 1 {
        seq!['/', '2']
    } else {
        cfi_steps(counters, 1, counters.len() as int)
    }
}

/// The `/{2c}` steps for the counters `counters[from..to]`.
pub open spec fn cfi_steps(counters: Seq<u32>, from: int, to: int) -> Seq<char>
    decreases to - from,
{
    if to <= from {
        Seq::empty()
    } else {
        cfi_steps(counters, from, to - 1) + seq!['/'] + decimal((2 * counters[to - 1]) as nat)
    }
}

/// Build a CFI string from the counter stack.
pub fn build_cfi(counters: &[u32]) -> (r: String)
    ensures
        r@ == cfi_of(counters@),
{
    let n = counters.len();
    if n <= 1 {
        let r = String::from_str("/2");
        proof {
            reveal_strlit("/2");
        }
        return r;
    }
    let mut out = String::new();
    let mut k: usize = 1;
    while k < n
        invariant
            1 <= k <= n == counters@.len(),
            out@ == cfi_steps(counters@, 1, k as int),
        decreases n - k,
    {
        push_char(&mut out, '/');
        let v: u128 = 2 * (counters[k] as u128);
        push_decimal(&mut out, v);
        k = k + 1;
    }
    out
}

// ----- tag_to_node_type -----

/// Lower-casing of one character as far as it can make a tag equal to one
/// of the ASCII tag names: ASCII capitals and the Kelvin sign (which
/// lower-cases to `k`); every other character either is unchanged by
/// lower-casing or lower-cases to text that holds a non-ASCII character.
pub open spec fn lower_char(c: char) -> char {
    if 'A' <= c && c <= 'Z' {
        ((c as int) + 32) as char
    } else if c == '\u{212A}' {
        'k'
    } else {
        c
    }
}

pub open spec fn lowered(s: Seq<char>) -> Seq<char> {
    s.map_values(|c: char| lower_char(c))
}

fn lower_char_exec(c: char) -> (r: char)
    ensures
        r == lower_char(c),
{
    if 'A' <= c && c <= 'Z' {
        let v = c as u32 + 32;
        assert(v < 128);
        let b: u8 = v as u8;
        b as char
    } else if c == '\u{212A}' {
        'k'
    } else {
        c
    }
}

/// The node type that a (lower-cased) tag name maps to.
pub open spec fn node_type_for(t: Seq<char>) -> NodeType {
    if t == "h1"@ {
        NodeType::Heading { level: 1 }
    } else if t == "h2"@ {
        NodeType::Heading { level: 2 }
    } else if t == "h3"@ {
        NodeType::Heading { level: 3 }
    } else if t == "h4"@ {
        NodeType::Heading { level: 4 }
    } else if t == "h5"@ {
        NodeType::Heading { level: 5 }
    } else if t == "h6"@ {
        NodeType::Heading { level: 6 }
    } else if t == "p"@ {
        NodeType::Paragraph
    } else if t == "img"@ || t == "image"@ {
        NodeType::Image
    } else if t == "a"@ {
        NodeType::Link
    } else if t == "ul"@ {
        NodeType::List { ordered: false }
    } else if t == "ol"@ {
        NodeType::List { ordered: true }
    } else if t == "li"@ {
        NodeType::ListItem
    } else if t == "em"@ || t == "i"@ {
        NodeType::Emphasis
    } else if t == "strong"@ || t == "b"@ {
        NodeType::Strong
    } else if t == "code"@ || t == "pre"@ {
        NodeType::Code
    } else if t == "blockquote"@ {
        NodeType::BlockQuote
    } else if t == "table"@ {
        NodeType::Table
    } else if t == "tr"@ {
        NodeType::TableRow
    } else if t == "td"@ || t == "th"@ {
        NodeType::TableCell
    } else if t == "br"@ {
        NodeType::LineBreak
    } else {
        NodeType::Span
    }
}

/// Tag names are matched without regard to case: lower-casing a tag name
/// that is already lower-cased changes nothing, so a tag and its lower-cased
/// form map to the same node type.
pub proof fn lemma_node_type_ignores_case(tag: Seq<char>)
    ensures
        lowered(lowered(tag)) == lowered(tag),
        node_type_for(lowered(lowered(tag))) == node_type_for(lowered(tag)),
{
    assert forall|k: int| 0 <= k < tag.len() implies #[trigger] lower_char(lower_char(tag[k])) == lower_char(tag[k]) by {
        let c = tag[k];
        if 'A' <= c && c <= 'Z' {
            assert('a' <= lower_char(c) && lower_char(c) <= 'z');
        }
    }
    assert(lowered(lowered(tag)) =~= lowered(tag));
}

/// The tag table: which lower-cased tag names give which node type. `em`
/// and `i` give emphasis, `strong` and `b` strong text, `code` and `pre`
/// code, `td` and `th` table cells, `img` and `image` images, `ul` and `ol`
/// unordered and ordered lists, `li` list items, `p` paragraphs, `a` links,
/// `blockquote`, `table`, `tr` and `br` their own types, `h1` to `h6`
/// headings of that level; every other name gives a span.
pub proof fn lemma_tag_table(t: Seq<char>)
    ensures
        (node_type_for(t) == NodeType::Emphasis) <==> (t == "em"@ || t == "i"@),
        (node_type_for(t) == NodeType::Strong) <==> (t == "strong"@ || t == "b"@),
        (node_type_for(t) == NodeType::Code) <==> (t == "code"@ || t == "pre"@),
        (node_type_for(t) == NodeType::TableCell) <==> (t == "td"@ || t == "th"@),
        (node_type_for(t) == NodeType::Image) <==> (t == "img"@ || t == "image"@),
        (node_type_for(t) == NodeType::List { ordered: false }) <==> t == "ul"@,
        (node_type_for(t) == NodeType::List { ordered: true }) <==> t == "ol"@,
        (node_type_for(t) == NodeType::ListItem) <==> t == "li"@,
        (node_type_for(t) == NodeType::Paragraph) <==> t == "p"@,
        (node_type_for(t) == NodeType::Link) <==> t == "a"@,
        (node_type_for(t) == NodeType::BlockQuote) <==> t == "blockquote"@,
        (node_type_for(t) == NodeType::Table) <==> t == "table"@,
        (node_type_for(t) == NodeType::TableRow) <==> t == "tr"@,
        (node_type_for(t) == NodeType::LineBreak) <==> t == "br"@,
        node_type_for(t) is Heading <==> (t.len() == 2 && t[0] == 'h' && '1' <= t[1] <= '6'),
        node_type_for(t) matches NodeType::Heading { level } ==> level == t[1] as u32 - '0' as u32,
{
    reveal_strlit("h1");
    reveal_strlit("h2");
    reveal_strlit("h3");
    reveal_strlit("h4");
    reveal_strlit("h5");
    reveal_strlit("h6");
    reveal_strlit("p");
    reveal_strlit("img");
    reveal_strlit("image");
    reveal_strlit("a");
    reveal_strlit("ul");
    reveal_strlit("ol");
    reveal_strlit("li");
    reveal_strlit("em");
    reveal_strlit("i");
    reveal_strlit("strong");
    reveal_strlit("b");
    reveal_strlit("code");
    reveal_strlit("pre");
    reveal_strlit("blockquote");
    reveal_strlit("table");
    reveal_strlit("tr");
    reveal_strlit("td");
    reveal_strlit("th");
    reveal_strlit("br");
    assert("h1"@.len() == 2 && "h1"@[0] == 'h' && "h1"@[1] == '1');
    assert("h2"@.len() == 2 && "h2"@[0] == 'h' && "h2"@[1] == '2');
    assert("h3"@.len() == 2 && "h3"@[0] == 'h' && "h3"@[1] == '3');
    assert("h4"@.len() == 2 && "h4"@[0] == 'h' && "h4"@[1] == '4');
    assert("h5"@.len() == 2 && "h5"@[0] == 'h' && "h5"@[1] == '5');
    assert("h6"@.len() == 2 && "h6"@[0] == 'h' && "h6"@[1] == '6');
    assert("p"@.len() == 1 && "p"@[0] == 'p');
    assert("img"@.len() == 3 && "img"@[0] == 'i' && "img"@[1] == 'm' && "img"@[2] == 'g');
    assert("image"@.len() == 5 && "image"@[0] == 'i' && "image"@[1] == 'm' && "image"@[2] == 'a' && "image"@[3] == 'g' && "image"@[4] == 'e');
    assert("a"@.len() == 1 && "a"@[0] == 'a');
    assert("ul"@.len() == 2 && "ul"@[0] == 'u' && "ul"@[1] == 'l');
    assert("ol"@.len() == 2 && "ol"@[0] == 'o' && "ol"@[1] == 'l');
    assert("li"@.len() == 2 && "li"@[0] == 'l' && "li"@[1] == 'i');
    assert("em"@.len() == 2 && "em"@[0] == 'e' && "em"@[1] == 'm');
    assert("i"@.len() == 1 && "i"@[0] == 'i');
    assert("strong"@.len() == 6 && "strong"@[0] == 's' && "strong"@[1] == 't' && "strong"@[2] == 'r' && "strong"@[3] == 'o' && "strong"@[4] == 'n' && "strong"@[5] == 'g');
    assert("b"@.len() == 1 && "b"@[0] == 'b');
    assert("code"@.len() == 4 && "code"@[0] == 'c' && "code"@[1] == 'o' && "code"@[2] == 'd' && "code"@[3] == 'e');
    assert("pre"@.len() == 3 && "pre"@[0] == 'p' && "pre"@[1] == 'r' && "pre"@[2] == 'e');
    assert("blockquote"@.len() == 10 && "blockquote"@[0] == 'b' && "blockquote"@[1] == 'l' && "blockquote"@[2] == 'o' && "blockquote"@[3] == 'c' && "blockquote"@[4] == 'k' && "blockquote"@[5] == 'q' && "blockquote"@[6] == 'u' && "blockquote"@[7] == 'o' && "blockquote"@[8] == 't' && "blockquote"@[9] == 'e');
    assert("table"@.len() == 5 && "table"@[0] == 't' && "table"@[1] == 'a' && "table"@[2] == 'b' && "table"@[3] == 'l' && "table"@[4] == 'e');
    assert("tr"@.len() == 2 && "tr"@[0] == 't' && "tr"@[1] == 'r');
    assert("td"@.len() == 2 && "td"@[0] == 't' && "td"@[1] == 'd');
    assert("th"@.len() == 2 && "th"@[0] == 't' && "th"@[1] == 'h');
    assert("br"@.len() == 2 && "br"@[0] == 'b' && "br"@[1] == 'r');
    if t.len() == 2 && t[0] == 'h' && '1' <= t[1] <= '6' {
        if t[1] == '1' {
            assert(t =~= "h1"@);
        } else if t[1] == '2' {
            assert(t =~= "h2"@);
        } else if t[1] == '3' {
            assert(t =~= "h3"@);
        } else if t[1] == '4' {
            assert(t =~= "h4"@);
        } else if t[1] == '5' {
            assert(t =~= "h5"@);
        } else {
            assert(t =~= "h6"@);
        }
    }
}

/// Map an HTML tag name, case-insensitively, to its node type.
pub fn tag_to_node_type(tag: &str) -> (t: NodeType)
    ensures
        t == node_type_for(lowered(tag@)),
{
    let raw = chars_of(tag);
    let mut low: Vec<char> = Vec::new();
    let mut k: usize = 0;
    while k < raw.len()
        invariant
            k <= raw.len(),
            raw@ == tag@,
            low@ == lowered(raw@.subrange(0, k as int)),
        decreases raw.len() - k,
    {
        low.push(lower_char_exec(raw[k]));
        assert(lowered(raw@.subrange(0, k + 1)) == lowered(raw@.subrange(0, k as int)).push(lower_char(raw@[k as int])));
        k = k + 1;
    }
    assert(raw@.subrange(0, raw@.len() as int) == raw@);
    if vec_eq_str(&low, "h1") {
        NodeType::Heading { level: 1 }
    } else if vec_eq_str(&low, "h2") {
        NodeType::Heading { level: 2 }
    } else if vec_eq_str(&low, "h3") {
        NodeType::Heading { level: 3 }
    } else if vec_eq_str(&low, "h4") {
        NodeType::Heading { level: 4 }
    } else if vec_eq_str(&low, "h5") {
        NodeType::Heading { level: 5 }
    } else if vec_eq_str(&low, "h6") {
        NodeType::Heading { level: 6 }
    } else if vec_eq_str(&low, "p") {
        NodeType::Paragraph
    } else if vec_eq_str(&low, "img") || vec_eq_str(&low, "image") {
        NodeType::Image
    } else if vec_eq_str(&low, "a") {
        NodeType::Link
    } else if vec_eq_str(&low, "ul") {
        NodeType::List { ordered: false }
    } else if vec_eq_str(&low, "ol") {
        NodeType::List { ordered: true }
    } else if vec_eq_str(&low, "li") {
        NodeType::ListItem
    } else if vec_eq_str(&low, "em") || vec_eq_str(&low, "i") {
        NodeType::Emphasis
    } else if vec_eq_str(&low, "strong") || vec_eq_str(&low, "b") {
        NodeType::Strong
    } else if vec_eq_str(&low, "code") || vec_eq_str(&low, "pre") {
        NodeType::Code
    } else if vec_eq_str(&low, "blockquote") {
        NodeType::BlockQuote
    } else if vec_eq_str(&low, "table") {
        NodeType::Table
    } else if vec_eq_str(&low, "tr") {
        NodeType::TableRow
    } else if vec_eq_str(&low, "td") || vec_eq_str(&low, "th") {
        NodeType::TableCell
    } else if vec_eq_str(&low, "br") {
        NodeType::LineBreak
    } else {
        NodeType::Span
    }
}

// ----- names, bases and TOC hrefs -----

/// The local part of a qualified XML name: what follows its last `:`.
pub open spec fn local_name(name: Seq<char>) -> Seq<char> {
    name.subrange(after_last_char(name, ':', name.len() as int), name.len() as int)
}

/// The local part of a qualified XML name (`name.rsplit(':').next()`).
pub fn local_name_of(name: &str) -> (r: String)
    ensures
        r@ == local_name(name@),
{
    let s = chars_of(name);
    let a = after_last(&s, ':');
    proof {
        lemma_after_last_char(s@, ':', s@.len() as int);
    }
    string_from_range(&s, a, s.len())
}

/// The directory part of a path, up to and including its last `/`; empty
/// when it has none.
pub open spec fn dir_prefix(path: Seq<char>) -> Seq<char> {
    path.subrange(0, after_last_char(path, '/', path.len() as int))
}

/// The directory of a path including its trailing `/` (the OPF base).
pub fn dir_prefix_of(path: &str) -> (r: String)
    ensures
        r@ == dir_prefix(path@),
{
    let s = chars_of(path);
    let a = after_last(&s, '/');
    proof {
        lemma_after_last_char(s@, '/', s@.len() as int);
    }
    string_from_range(&s, 0, a)
}

/// The last segment of a path: what follows its last `/`.
pub open spec fn base_name(path: Seq<char>) -> Seq<char> {
    path.subrange(after_last_char(path, '/', path.len() as int), path.len() as int)
}

/// `href` without its fragment: everything before the first `#`.
pub open spec fn strip_fragment(href: Seq<char>) -> Seq<char> {
    href.subrange(0, find_char_from(href, '#', 0))
}

/// The archive path a TOC href refers to: the href without fragment, under
/// the OPF base unless it starts with `/`.
pub open spec fn toc_full_path(opf_base: Seq<char>, base_href: Seq<char>) -> Seq<char> {
    if base_href.len() > 0 && base_href[0] == '/' {
        base_href
    } else {
        opf_base + base_href
    }
}

/// The spine index a TOC href resolves to: the first spine path equal to
/// its full path, else the first spine path whose last segment equals the
/// href without fragment, else -1; an href that is empty before its
/// fragment resolves to -1.
pub open spec fn toc_href_index(spine: Seq<Seq<char>>, opf_base: Seq<char>, href: Seq<char>) -> int {
    let base_href = strip_fragment(href);
    let full = toc_full_path(opf_base, base_href);
    if base_href.len() == 0 {
        -1
    } else if exists|i: int| 0 <= i < spine.len() && spine[i] == full {
        first_equal(spine, full)
    } else if exists|i: int| 0 <= i < spine.len() && base_name(spine[i]) == base_href {
        first_with_base(spine, base_href)
    } else {
        -1
    }
}

/// The least index of `s` holding `x` (meaningful when one does).
pub open spec fn first_equal(s: Seq<Seq<char>>, x: Seq<char>) -> int {
    choose|i: int| 0 <= i < s.len() && s[i] == x && forall|j: int| 0 <= j < i ==> s[j] != x
}

/// The least index of `s` whose last path segment is `b` (meaningful when one is).
pub open spec fn first_with_base(s: Seq<Seq<char>>, b: Seq<char>) -> int {
    choose|i: int|
        0 <= i < s.len() && base_name(s[i]) == b && forall|j: int| 0 <= j < i ==> base_name(s[j]) != b
}

/// Among the indices of `s` that satisfy `p`, if any does, there is a least.
proof fn lemma_least_index(s: Seq<Seq<char>>, p: spec_fn(Seq<char>) -> bool, k: int)
    requires
        0 <= k < s.len(),
        p(s[k]),
    ensures
        exists|i: int| 0 <= i < s.len() && p(s[i]) && forall|j: int| 0 <= j < i ==> !p(#[trigger] s[j]),
    decreases k,
{
    if exists|j: int| 0 <= j < k && p(s[j]) {
        let j = choose|j: int| 0 <= j < k && p(s[j]);
        lemma_least_index(s, p, j);
    } else {
        assert(forall|j: int| 0 <= j < k ==> !p(#[trigger] s[j]));
    }
}

/// A TOC href resolves to -1, or to the index of a spine path that is the
/// href's full path (no earlier one is), or else whose last segment is the
/// href without its fragment (no earlier one is).
pub proof fn lemma_toc_href_index_in_spine(spine: Seq<Seq<char>>, opf_base: Seq<char>, href: Seq<char>)
    ensures
        ({
            let i = toc_href_index(spine, opf_base, href);
            let base_href = strip_fragment(href);
            let full = toc_full_path(opf_base, base_href);
            ||| i == -1
            ||| 0 <= i < spine.len() && spine[i] == full && forall|j: int| 0 <= j < i ==> spine[j] != full
            ||| 0 <= i < spine.len() && base_name(spine[i]) == base_href && forall|j: int| 0 <= j < spine.len() ==> spine[j] != full
        }),
{
    let base_href = strip_fragment(href);
    let full = toc_full_path(opf_base, base_href);
    if base_href.len() > 0 {
        if exists|i: int| 0 <= i < spine.len() && spine[i] == full {
            let k = choose|i: int| 0 <= i < spine.len() && spine[i] == full;
            let p = |x: Seq<char>| x == full;
            lemma_least_index(spine, p, k);
            let w = choose|i: int| 0 <= i < spine.len() && p(spine[i]) && forall|j: int| 0 <= j < i ==> !p(#[trigger] spine[j]);
            assert(0 <= w < spine.len() && spine[w] == full && forall|j: int| 0 <= j < w ==> spine[j] != full);
        } else if exists|i: int| 0 <= i < spine.len() && base_name(spine[i]) == base_href {
            let k = choose|i: int| 0 <= i < spine.len() && base_name(spine[i]) == base_href;
            let p = |x: Seq<char>| base_name(x) == base_href;
            lemma_least_index(spine, p, k);
            let w = choose|i: int| 0 <= i < spine.len() && p(spine[i]) && forall|j: int| 0 <= j < i ==> !p(#[trigger] spine[j]);
            assert(0 <= w < spine.len() && base_name(spine[w]) == base_href && forall|j: int| 0 <= j < w ==> base_name(spine[j]) != base_href);
        }
    }
}

pub open spec fn string_views(v: Seq<String>) -> Seq<Seq<char>> {
    v.map_values(|s: String| s@)
}

/// Resolves a TOC entry href to a spine index (-1 when nothing matches).
pub fn resolve_toc_href_in(spine: &Vec<String>, opf_base: &str, href: &str) -> (r: i32)
    ensures
        r == toc_href_index(string_views(spine@), opf_base@, href@) as i32,
{
    let ghost sp = string_views(spine@);
    let h = chars_of(href);
    let cut = find_char(&h, '#', 0);
    proof {
        lemma_find_char_from(h@, '#', 0);
    }
    let base_href = string_from_range(&h, 0, cut);
    if cut == 0 {
        return -1;
    }
    let mut full = String::new();
    let starts_slash = h[0] == '/';
    assert(base_href@[0] == h@[0]);
    assert(base_href@ == strip_fragment(href@));
    if !starts_slash {
        full.append(opf_base);
    }
    full.append(base_href.as_str());
    assert(full@ == toc_full_path(opf_base@, base_href@));
    let full_chars = chars_of(full.as_str());
    let base_chars = chars_of(base_href.as_str());
    let mut i: usize = 0;
    while i < spine.len()
        invariant
            i <= spine.len(),
            sp == string_views(spine@),
            full_chars@ == toc_full_path(opf_base@, base_href@),
            full@ == full_chars@,
            base_href@ == strip_fragment(href@),
            base_href@.len() > 0,
            forall|j: int| 0 <= j < i ==> sp[j] != full_chars@,
        decreases spine.len() - i,
    {
        let si = spine[i].as_str();
        let p = chars_of(si);
        assert(sp[i as int] == spine@[i as int]@);
        assert(p@ == sp[i as int]);
        let fs = full.as_str();
        if vec_eq_str(&p, fs) {
            proof {
                let x = full_chars@;
                assert(sp[i as int] == x);
                assert(0 <= i < sp.len() && sp[i as int] == x && forall|j: int| 0 <= j < i ==> sp[j] != x);
                let c = first_equal(sp, x);
                assert(c == i) by {
                    assert(0 <= c < sp.len() && sp[c] == x && forall|j: int| 0 <= j < c ==> sp[j] != x);
                    if c < i {
                        assert(sp[c] != x);
                    } else if c > i {
                        assert(sp[i as int] != x);
                    }
                }
            }
            return i as i32;
        }
        i = i + 1;
    }
    let mut i: usize = 0;
    while i < spine.len()
        invariant
            i <= spine.len(),
            sp == string_views(spine@),
            base_chars@ == base_href@,
            base_href@ == strip_fragment(href@),
            base_href@.len() > 0,
            forall|j: int| 0 <= j < sp.len() ==> sp[j] != toc_full_path(opf_base@, base_href@),
            forall|j: int| 0 <= j < i ==> base_name(sp[j]) != base_chars@,
        decreases spine.len() - i,
    {
        let si = spine[i].as_str();
        let p = chars_of(si);
        assert(p@ == spine@[i as int]@);
        let a = after_last(&p, '/');
        proof {
            lemma_after_last_char(p@, '/', p@.len() as int);
        }
        assert(sp[i as int] == spine@[i as int]@);
        if range_eq_str(&p, a, p.len(), base_href.as_str()) {
            proof {
                let b = base_chars@;
                assert(base_name(sp[i as int]) == b);
                assert(0 <= i < sp.len() && base_name(sp[i as int]) == b && forall|j: int|
                    0 <= j < i ==> base_name(sp[j]) != b);
                let c = first_with_base(sp, b);
                assert(c == i) by {
                    assert(0 <= c < sp.len() && base_name(sp[c]) == b && forall|j: int|
                        0 <= j < c ==> base_name(sp[j]) != b);
                    if c < i {
                        assert(base_name(sp[c]) != b);
                    } else if c > i {
                        assert(base_name(sp[i as int]) != b);
                    }
                }
            }
            return i as i32;
        }
        i = i + 1;
    }
    -1
}

} // verus!
