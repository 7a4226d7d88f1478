//! Tables of contents: the EPUB 2 NCX document and the EPUB 3 navigation
//! document, each read from its XML events.
use vstd::prelude::*;
use crate::opf::{attr_values, find_last_attr, last_attr, strs, opt_str, has_attr_value};
use crate::text::{chars_of, contains_seq, contains_str, vec_eq_str};
use crate::types::TocEntry;
use crate::xml::{attrs_view, event_view, events_view, XmlEvent, XmlEventView};

verus! {

/// A table-of-contents entry as plain values.
pub struct TocView {
    pub title: Seq<char>,
    pub href: Seq<char>,
    pub level: u32,
    pub children: Seq<TocView>,
}

pub open spec fn toc_view(e: TocEntry) -> TocView
    decreases e,
{
    TocView { title: e.title@, href: e.href@, level: e.level, children: toc_views(e.children@) }
}

pub open spec fn toc_views(s: Seq<TocEntry>) -> Seq<TocView>
    decreases s,
{
    if s.len() == 0 {
        Seq::empty()
    } else {
        toc_views(s.drop_last()).push(toc_view(s.last()))
    }
}


pub proof fn lemma_toc_views_push(v: Seq<TocEntry>, e: TocEntry)
    ensures
        toc_views(v.push(e)) == toc_views(v).push(toc_view(e)),
{
    assert(v.push(e).drop_last() == v);
}

pub open spec fn sat_inc(x: u32) -> u32 {
    if x == u32::MAX { x } else { (x + 1) as u32 }
}

pub open spec fn sat_dec(x: u32) -> u32 {
    if x == 0 { 0 } else { (x - 1) as u32 }
}

fn sat_inc_exec(x: u32) -> (r: u32)
    ensures
        r == sat_inc(x),
{
    if x == u32::MAX { x } else { x + 1 }
}

fn sat_dec_exec(x: u32) -> (r: u32)
    ensures
        r == sat_dec(x),
{
    if x == 0 { 0 } else { x - 1 }
}

/// Whether some attribute whose key holds `type` has the value `toc`.
pub open spec fn marks_toc(attrs: Seq<(Seq<char>, Seq<char>)>) -> bool {
    exists|i: int| 0 <= i < attrs.len() && contains_seq(attrs[i].0, "type"@) && attrs[i].1 == "toc"@
}

// ----- the EPUB 3 navigation document -----

/// The state of reading a navigation document.
pub struct NavView {
    pub in_nav_toc: bool,
    pub current_href: Seq<char>,
    pub in_a: bool,
    pub current_title: Seq<char>,
    pub depth: u32,
    pub ol_depth: u32,
    pub entries: Seq<TocView>,
}

pub open spec fn nav_start() -> NavView {
    NavView {
        in_nav_toc: false,
        current_href: Seq::empty(),
        in_a: false,
        current_title: Seq::empty(),
        depth: 0,
        ol_depth: 0,
        entries: Seq::empty(),
    }
}

/// One step of reading a navigation document: inside a `nav` marked as the
/// table of contents, each `a` element becomes an entry at the nesting depth
/// of its `ol` lists, titled by its text.
pub open spec fn nav_step(s: NavView, e: XmlEventView) -> NavView {
    match e {
        XmlEventView::Start(name, attrs) => if name == "nav"@ {
            if marks_toc(attrs) { NavView { in_nav_toc: true, ..s } } else { s }
        } else if s.in_nav_toc && name == "ol"@ {
            NavView { ol_depth: sat_inc(s.ol_depth), depth: sat_dec(sat_inc(s.ol_depth)), ..s }
        } else if s.in_nav_toc && name == "a"@ {
            NavView {
                in_a: true,
                current_title: Seq::empty(),
                current_href: match last_attr(attrs, "href"@) {
                    Some(h) => h,
                    None => s.current_href,
                },
                ..s
            }
        } else {
            s
        },
        XmlEventView::Text(t) => if s.in_a { NavView { current_title: s.current_title + t, ..s } } else { s },
        XmlEventView::End(name) => if name == "nav"@ && s.in_nav_toc {
            NavView { in_nav_toc: false, ..s }
        } else if name == "ol"@ && s.in_nav_toc {
            NavView { ol_depth: sat_dec(s.ol_depth), ..s }
        } else if name == "a"@ && s.in_a {
            NavView {
                in_a: false,
                entries: s.entries.push(
                    TocView { title: s.current_title, href: s.current_href, level: s.depth, children: Seq::empty() },
                ),
                ..s
            }
        } else {
            s
        },
        _ => s,
    }
}

pub open spec fn nav_after(events: Seq<XmlEventView>) -> NavView
    decreases events.len(),
{
    if events.len() == 0 {
        nav_start()
    } else {
        nav_step(nav_after(events.drop_last()), events.last())
    }
}

// ----- laws of the navigation document -----

/// Whether a `nav` marked as the table of contents is open after these
/// events: the latest `nav` start that carries the mark, or `nav` end, is
/// such a start.
pub open spec fn toc_open(ev: Seq<XmlEventView>) -> bool
    decreases ev.len(),
{
    if ev.len() == 0 {
        false
    } else {
        let rest = toc_open(ev.drop_last());
        match ev.last() {
            XmlEventView::Start(n, attrs) => if n == "nav"@ && marks_toc(attrs) { true } else { rest },
            XmlEventView::End(n) => if n == "nav"@ { false } else { rest },
            _ => rest,
        }
    }
}

/// How many `ol` lists of the table of contents are open after these events
/// (counting stops at the largest `u32` and at zero).
pub open spec fn lists_open(ev: Seq<XmlEventView>) -> u32
    decreases ev.len(),
{
    if ev.len() == 0 {
        0
    } else {
        let pre = ev.drop_last();
        let rest = lists_open(pre);
        match ev.last() {
            XmlEventView::Start(n, _) => if n == "ol"@ && toc_open(pre) { sat_inc(rest) } else { rest },
            XmlEventView::End(n) => if n == "ol"@ && toc_open(pre) { sat_dec(rest) } else { rest },
            _ => rest,
        }
    }
}

/// The texts among these events, joined in order.
pub open spec fn texts_in(ev: Seq<XmlEventView>) -> Seq<char>
    decreases ev.len(),
{
    if ev.len() == 0 {
        Seq::empty()
    } else {
        texts_in(ev.drop_last()) + match ev.last() {
            XmlEventView::Text(t) => t,
            _ => Seq::<char>::empty(),
        }
    }
}

/// Whether an event starts or ends an element named `name`.
pub open spec fn tags_element(e: XmlEventView, name: Seq<char>) -> bool {
    match e {
        XmlEventView::Start(n, _) => n == name,
        XmlEventView::End(n) => n == name,
        _ => false,
    }
}

proof fn lemma_nav_open_counts(ev: Seq<XmlEventView>)
    ensures
        nav_after(ev).in_nav_toc == toc_open(ev),
        nav_after(ev).ol_depth == lists_open(ev),
    decreases ev.len(),
{
    reveal_strlit("nav");
    reveal_strlit("ol");
    reveal_strlit("a");
    assert("a"@.len() == 1 && "nav"@.len() == 3 && "ol"@.len() == 2);
    if ev.len() > 0 {
        let pre = ev.drop_last();
        lemma_nav_open_counts(pre);
        let s = nav_after(pre);
        assert(nav_after(ev) == nav_step(s, ev.last()));
        match ev.last() {
            XmlEventView::Start(n, attrs) => {
                if n == "nav"@ {
                } else if n == "ol"@ {
                } else {
                }
            },
            XmlEventView::End(n) => {
                if n == "nav"@ {
                } else if n == "ol"@ {
                } else {
                }
            },
            _ => {},
        }
    }
}

/// Reading events that neither start nor end an `a` element, inside an open
/// `a`: the `a` stays open, its text grows by theirs, and nothing else about
/// the entry changes; without `ol` tags among them the depth and the list
/// count stay too.
proof fn lemma_nav_inside_a(pre: Seq<XmlEventView>, inner: Seq<XmlEventView>)
    requires
        nav_after(pre).in_a,
        forall|k: int| 0 <= k < inner.len() ==> !tags_element(#[trigger] inner[k], "a"@),
    ensures
        nav_after(pre + inner).in_a,
        nav_after(pre + inner).current_title == nav_after(pre).current_title + texts_in(inner),
        nav_after(pre + inner).current_href == nav_after(pre).current_href,
        nav_after(pre + inner).entries == nav_after(pre).entries,
        (forall|k: int| 0 <= k < inner.len() ==> !tags_element(#[trigger] inner[k], "ol"@)) ==> nav_after(
            pre + inner,
        ).depth == nav_after(pre).depth && nav_after(pre + inner).ol_depth == nav_after(pre).ol_depth,
    decreases inner.len(),
{
    reveal_strlit("nav");
    reveal_strlit("ol");
    reveal_strlit("a");
    if inner.len() == 0 {
        assert(pre + inner =~= pre);
    } else {
        let front = inner.drop_last();
        assert forall|k: int| 0 <= k < front.len() implies !tags_element(#[trigger] front[k], "a"@) by {
            assert(front[k] == inner[k]);
        }
        lemma_nav_inside_a(pre, front);
        assert((pre + inner).drop_last() =~= pre + front);
        assert((pre + inner).last() == inner.last());
        assert(!tags_element(inner.last(), "a"@));
        let s = nav_after(pre + front);
        assert(nav_after(pre + inner) == nav_step(s, inner.last()));
        assert(texts_in(inner) == texts_in(front) + match inner.last() {
            XmlEventView::Text(t) => t,
            _ => Seq::<char>::empty(),
        });
        if forall|k: int| 0 <= k < inner.len() ==> !tags_element(#[trigger] inner[k], "ol"@) {
            assert forall|k: int| 0 <= k < front.len() implies !tags_element(#[trigger] front[k], "ol"@) by {
                assert(front[k] == inner[k]);
            }
            assert(!tags_element(inner[inner.len() - 1], "ol"@));
        }
        match inner.last() {
            XmlEventView::Text(t) => {
                assert(nav_after(pre).current_title + texts_in(inner) =~= nav_after(pre).current_title
                    + texts_in(front) + t);
            },
            _ => {
                assert(texts_in(inner) =~= texts_in(front));
            },
        }
    }
}

/// The title of a table-of-contents entry is all the text of its link:
/// inside the table of contents, a link whose content holds no other link
/// adds one entry after those before it, titled by every text of its
/// content joined in order (inline markup such as `<em>` included), and
/// pointing at the link's last `href` (or the one before, when it has none).
pub proof fn lemma_nav_entry_title(
    pre: Seq<XmlEventView>,
    attrs: Seq<(Seq<char>, Seq<char>)>,
    inner: Seq<XmlEventView>,
)
    requires
        toc_open(pre),
        forall|k: int| 0 <= k < inner.len() ==> !tags_element(#[trigger] inner[k], "a"@),
    ensures
        ({
            let ev = pre.push(XmlEventView::Start("a"@, attrs)) + inner.push(XmlEventView::End("a"@));
            &&& nav_after(ev).entries.len() == nav_after(pre).entries.len() + 1
            &&& nav_after(ev).entries.drop_last() == nav_after(pre).entries
            &&& nav_after(ev).entries.last().title == texts_in(inner)
            &&& nav_after(ev).entries.last().href == match last_attr(attrs, "href"@) {
                Some(h) => h,
                None => nav_after(pre).current_href,
            }
            &&& nav_after(ev).entries.last().children.len() == 0
        }),
{
    reveal_strlit("nav");
    reveal_strlit("ol");
    reveal_strlit("a");
    lemma_nav_open_counts(pre);
    let p1 = pre.push(XmlEventView::Start("a"@, attrs));
    assert(p1.drop_last() == pre);
    assert(nav_after(p1) == nav_step(nav_after(pre), XmlEventView::Start("a"@, attrs)));
    assert(nav_after(pre).in_nav_toc);
    assert("a"@.len() == 1);
    assert("nav"@.len() == 3);
    assert("ol"@.len() == 2);
    assert("a"@ != "nav"@ && "a"@ != "ol"@);
    assert(nav_after(p1).in_a && nav_after(p1).current_title == Seq::<char>::empty());
    lemma_nav_inside_a(p1, inner);
    let ev = pre.push(XmlEventView::Start("a"@, attrs)) + inner.push(XmlEventView::End("a"@));
    assert(ev == (p1 + inner).push(XmlEventView::End("a"@)));
    assert(ev.drop_last() == p1 + inner);
    assert(Seq::<char>::empty() + texts_in(inner) =~= texts_in(inner));
    assert(nav_after(ev) == nav_step(nav_after(p1 + inner), XmlEventView::End("a"@)));
}

/// The level of a table-of-contents entry follows the nesting of its lists:
/// a link that opens the content of a new `ol` list (no other link or list
/// tag between) gets the level of the number of lists open around it, less
/// one; an entry inside a list nested in another has level 1.
pub proof fn lemma_nav_entry_level(
    pre: Seq<XmlEventView>,
    ol_attrs: Seq<(Seq<char>, Seq<char>)>,
    a_attrs: Seq<(Seq<char>, Seq<char>)>,
    inner: Seq<XmlEventView>,
)
    requires
        toc_open(pre),
        lists_open(pre) < u32::MAX,
        forall|k: int| 0 <= k < inner.len() ==> !tags_element(#[trigger] inner[k], "a"@) && !tags_element(
            inner[k],
            "ol"@,
        ),
    ensures
        ({
            let ev = pre.push(XmlEventView::Start("ol"@, ol_attrs)).push(XmlEventView::Start("a"@, a_attrs)) + inner.push(
                XmlEventView::End("a"@),
            );
            &&& nav_after(ev).entries.len() == nav_after(pre).entries.len() + 1
            &&& nav_after(ev).entries.last().level + 1 == lists_open(ev.drop_last())
            &&& lists_open(ev.drop_last()) == lists_open(pre) + 1
        }),
{
    reveal_strlit("nav");
    reveal_strlit("ol");
    reveal_strlit("a");
    assert("a"@.len() == 1 && "nav"@.len() == 3 && "ol"@.len() == 2);
    lemma_nav_open_counts(pre);
    let p0 = pre.push(XmlEventView::Start("ol"@, ol_attrs));
    assert(p0.drop_last() == pre);
    assert(nav_after(p0) == nav_step(nav_after(pre), XmlEventView::Start("ol"@, ol_attrs)));
    let p1 = p0.push(XmlEventView::Start("a"@, a_attrs));
    assert(p1.drop_last() == p0);
    lemma_nav_open_counts(p0);
    assert(nav_after(p1) == nav_step(nav_after(p0), XmlEventView::Start("a"@, a_attrs)));
    assert forall|k: int| 0 <= k < inner.len() implies !tags_element(#[trigger] inner[k], "a"@) by {}
    assert forall|k: int| 0 <= k < inner.len() implies !tags_element(#[trigger] inner[k], "ol"@) by {}
    lemma_nav_inside_a(p1, inner);
    let ev = p1 + inner.push(XmlEventView::End("a"@));
    assert(ev == (p1 + inner).push(XmlEventView::End("a"@)));
    assert(ev.drop_last() == p1 + inner);
    lemma_nav_open_counts(p1 + inner);
    assert(nav_after(ev) == nav_step(nav_after(p1 + inner), XmlEventView::End("a"@)));
}

struct NavState {
    in_nav_toc: bool,
    current_href: String,
    in_a: bool,
    current_title: String,
    depth: u32,
    ol_depth: u32,
    entries: Vec<TocEntry>,
}

impl NavState {
    spec fn view(&self) -> NavView {
        NavView {
            in_nav_toc: self.in_nav_toc,
            current_href: self.current_href@,
            in_a: self.in_a,
            current_title: self.current_title@,
            depth: self.depth,
            ol_depth: self.ol_depth,
            entries: toc_views(self.entries@),
        }
    }
}

fn marks_toc_exec(attrs: &Vec<(String, String)>) -> (b: bool)
    ensures
        b == marks_toc(attrs_view(attrs@)),
{
    let ghost av = attrs_view(attrs@);
    let mut k: usize = 0;
    while k < attrs.len()
        invariant
            k <= attrs.len(),
            av == attrs_view(attrs@),
            forall|j: int| 0 <= j < k ==> !(contains_seq(av[j].0, "type"@) && av[j].1 == "toc"@),
        decreases attrs.len() - k,
    {
        assert(av[k as int] == (attrs@[k as int].0@, attrs@[k as int].1@));
        let key = chars_of(attrs[k].0.as_str());
        let val = chars_of(attrs[k].1.as_str());
        if contains_str(&key, "type") && vec_eq_str(&val, "toc") {
            return true;
        }
        k = k + 1;
    }
    false
}

fn is_str(a: &String, b: &str) -> (r: bool)
    ensures
        r == (a@ == b@),
{
    let v = chars_of(a.as_str());
    vec_eq_str(&v, b)
}

/// Reads the table of contents of an EPUB 3 navigation document from its events.
pub fn nav_toc(events: &Vec<XmlEvent>) -> (entries: Vec<TocEntry>)
    ensures
        toc_views(entries@) == nav_after(events_view(events@)).entries,
{
    let mut s = NavState {
        in_nav_toc: false,
        current_href: String::new(),
        in_a: false,
        current_title: String::new(),
        depth: 0,
        ol_depth: 0,
        entries: Vec::new(),
    };
    assert(toc_views(s.entries@) == Seq::<TocView>::empty());
    let mut k: usize = 0;
    while k < events.len()
        invariant
            k <= events.len(),
            s.view() == nav_after(events_view(events@.subrange(0, k as int))),
        decreases events.len() - k,
    {
        let ghost pre = events_view(events@.subrange(0, k as int));
        let ghost post = events_view(events@.subrange(0, k + 1));
        assert(post.drop_last() == pre);
        assert(post.last() == event_view(events@[k as int]));
        let ghost before = s.view();
        match &events[k] {
            XmlEvent::Start((name, attrs)) => {
                if is_str(name, "nav") {
                    if marks_toc_exec(attrs) {
                        s.in_nav_toc = true;
                    }
                } else if s.in_nav_toc && is_str(name, "ol") {
                    s.ol_depth = sat_inc_exec(s.ol_depth);
                    s.depth = sat_dec_exec(s.ol_depth);
                } else if s.in_nav_toc && is_str(name, "a") {
                    s.in_a = true;
                    s.current_title = String::new();
                    match find_last_attr(attrs, "href") {
                        Some(h) => {
                            s.current_href = h;
                        },
                        None => {},
                    }
                }
            },
            XmlEvent::Text(t) => {
                if s.in_a {
                    s.current_title.append(t.as_str());
                }
            },
            XmlEvent::End(name) => {
                if is_str(name, "nav") && s.in_nav_toc {
                    s.in_nav_toc = false;
                } else if is_str(name, "ol") && s.in_nav_toc {
                    s.ol_depth = sat_dec_exec(s.ol_depth);
                } else if is_str(name, "a") && s.in_a {
                    s.in_a = false;
                    let entry = TocEntry {
                        title: s.current_title.clone(),
                        href: s.current_href.clone(),
                        level: s.depth,
                        children: Vec::new(),
                    };
                    assert(toc_views(entry.children@) == Seq::<TocView>::empty());
                    proof {
                        lemma_toc_views_push(s.entries@, entry);
                    }
                    s.entries.push(entry);
                }
            },
            _ => {},
        }
        assert(s.view() == nav_step(before, event_view(events@[k as int])));
        k = k + 1;
    }
    assert(events@.subrange(0, events@.len() as int) == events@);
    s.entries
}


// ----- the EPUB 2 NCX document -----

/// Whether a qualified name is `local` or ends in `:local`.
pub open spec fn is_named(name: Seq<char>, local: Seq<char>) -> bool {
    name == local || (name.len() > local.len() && name[name.len() - local.len() - 1] == ':'
        && name.subrange(name.len() - local.len(), name.len() as int) == local)
}

fn is_named_exec(name: &String, local: &str) -> (b: bool)
    ensures
        b == is_named(name@, local@),
{
    let v = chars_of(name.as_str());
    let l = chars_of(local);
    if vec_eq_str(&v, local) {
        return true;
    }
    if v.len() > l.len() {
        let cut = v.len() - l.len();
        let colon = v[cut - 1] == ':';
        let tail = crate::text::range_eq_str(&v, cut, v.len(), local);
        return colon && tail;
    }
    false
}

/// The state of reading an NCX document: a stack of sibling lists (the
/// innermost open `navPoint` on top), and the current title and target.
pub struct NcxView {
    pub stack: Seq<Seq<TocView>>,
    pub current_title: Seq<char>,
    pub current_href: Seq<char>,
    pub in_text: bool,
    pub depth: u32,
}

pub open spec fn ncx_start() -> NcxView {
    NcxView {
        stack: seq![Seq::empty()],
        current_title: Seq::empty(),
        current_href: Seq::empty(),
        in_text: false,
        depth: 0,
    }
}

/// One step of reading an NCX document: each `navPoint` becomes an entry
/// titled by its last `text` and targeting its last `content` source, at its
/// nesting depth, with the entries nested in it as children.
pub open spec fn ncx_step(s: NcxView, e: XmlEventView) -> NcxView {
    match e {
        XmlEventView::Start(name, _) => if is_named(name, "navPoint"@) {
            NcxView {
                depth: sat_inc(s.depth),
                stack: s.stack.push(Seq::empty()),
                current_title: Seq::empty(),
                current_href: Seq::empty(),
                ..s
            }
        } else if is_named(name, "text"@) {
            NcxView { in_text: true, ..s }
        } else {
            s
        },
        XmlEventView::Empty(name, attrs) => if is_named(name, "content"@) {
            NcxView {
                current_href: match last_attr(attrs, "src"@) {
                    Some(h) => h,
                    None => s.current_href,
                },
                ..s
            }
        } else {
            s
        },
        XmlEventView::Text(t) => if s.in_text { NcxView { current_title: t, ..s } } else { s },
        XmlEventView::End(name) => if is_named(name, "text"@) {
            NcxView { in_text: false, ..s }
        } else if is_named(name, "navPoint"@) {
            let children = if s.stack.len() > 0 { s.stack.last() } else { Seq::empty() };
            let rest = if s.stack.len() > 0 { s.stack.drop_last() } else { s.stack };
            let d = sat_dec(s.depth);
            let entry = TocView { title: s.current_title, href: s.current_href, level: d, children };
            NcxView {
                depth: d,
                stack: if rest.len() > 0 { rest.update(rest.len() - 1, rest.last().push(entry)) } else { rest },
                ..s
            }
        } else {
            s
        },
        _ => s,
    }
}

pub open spec fn ncx_after(events: Seq<XmlEventView>) -> NcxView
    decreases events.len(),
{
    if events.len() == 0 {
        ncx_start()
    } else {
        ncx_step(ncx_after(events.drop_last()), events.last())
    }
}

/// The entries an NCX document gives: the outermost sibling list left open.
pub open spec fn ncx_entries(s: NcxView) -> Seq<TocView> {
    if s.stack.len() > 0 { s.stack.last() } else { Seq::empty() }
}

pub open spec fn stack_view(v: Seq<Vec<TocEntry>>) -> Seq<Seq<TocView>> {
    v.map_values(|l: Vec<TocEntry>| toc_views(l@))
}

/// Reads the table of contents of an NCX document from its events.
pub fn ncx_toc(events: &Vec<XmlEvent>) -> (entries: Vec<TocEntry>)
    ensures
        toc_views(entries@) == ncx_entries(ncx_after(events_view(events@))),
{
    let mut stack: Vec<Vec<TocEntry>> = Vec::new();
    stack.push(Vec::new());
    let mut current_title = String::new();
    let mut current_href = String::new();
    let mut in_text = false;
    let mut depth: u32 = 0;
    assert(stack_view(stack@) == seq![Seq::<TocView>::empty()]);
    let mut k: usize = 0;
    while k < events.len()
        invariant
            k <= events.len(),
            (NcxView { stack: stack_view(stack@), current_title: current_title@, current_href: current_href@, in_text, depth })
                == ncx_after(events_view(events@.subrange(0, k as int))),
        decreases events.len() - k,
    {
        let ghost pre = events_view(events@.subrange(0, k as int));
        let ghost post = events_view(events@.subrange(0, k + 1));
        assert(post.drop_last() == pre);
        assert(post.last() == event_view(events@[k as int]));
        let ghost before = NcxView {
            stack: stack_view(stack@),
            current_title: current_title@,
            current_href: current_href@,
            in_text,
            depth,
        };
        match &events[k] {
            XmlEvent::Start((name, _)) => {
                if is_named_exec(name, "navPoint") {
                    depth = sat_inc_exec(depth);
                    stack.push(Vec::new());
                    assert(stack_view(stack@) == before.stack.push(Seq::<TocView>::empty()));
                    current_title = String::new();
                    current_href = String::new();
                } else if is_named_exec(name, "text") {
                    in_text = true;
                }
            },
            XmlEvent::Empty((name, attrs)) => {
                if is_named_exec(name, "content") {
                    match find_last_attr(attrs, "src") {
                        Some(h) => {
                            current_href = h;
                        },
                        None => {},
                    }
                }
            },
            XmlEvent::Text(t) => {
                if in_text {
                    current_title = t.clone();
                }
            },
            XmlEvent::End(name) => {
                if is_named_exec(name, "text") {
                    in_text = false;
                } else if is_named_exec(name, "navPoint") {
                    let children = match stack.pop() {
                        Some(c) => c,
                        None => Vec::new(),
                    };
                    assert(toc_views(children@) == (if before.stack.len() > 0 { before.stack.last() } else { Seq::<TocView>::empty() }));
                    assert(stack_view(stack@) == (if before.stack.len() > 0 { before.stack.drop_last() } else { before.stack }));
                    depth = sat_dec_exec(depth);
                    let entry = TocEntry {
                        title: current_title.clone(),
                        href: current_href.clone(),
                        level: depth,
                        children,
                    };
                    let ghost rest = stack_view(stack@);
                    match stack.pop() {
                        Some(mut parent) => {
                            proof {
                                lemma_toc_views_push(parent@, entry);
                            }
                            let ghost pv = toc_views(parent@);
                            parent.push(entry);
                            stack.push(parent);
                            assert(stack_view(stack@) == rest.update(rest.len() - 1, pv.push(toc_view(entry))));
                        },
                        None => {},
                    }
                }
            },
            _ => {},
        }
        assert((NcxView { stack: stack_view(stack@), current_title: current_title@, current_href: current_href@, in_text, depth })
            == ncx_step(before, event_view(events@[k as int])));
        k = k + 1;
    }
    assert(events@.subrange(0, events@.len() as int) == events@);
    match stack.pop() {
        Some(top) => top,
        None => Vec::new(),
    }
}

} // verus!
