//! The package document (OPF) of an EPUB: metadata, manifest and spine,
//! read in one pass over its XML events.
use vstd::prelude::*;
use crate::epub_paths::{local_name, local_name_of};
use crate::xml::{attrs_view, event_view, events_view, XmlEvent, XmlEventView};

verus! {

/// A manifest item: id, href, media type and properties.
#[derive(Debug, Clone)]
pub struct ManifestItem {
    pub id: String,
    pub href: String,
    pub media_type: String,
    pub properties: String,
}

/// What the OPF holds, once read.
#[derive(Debug)]
pub struct OpfData {
    pub in_metadata: bool,
    pub in_manifest: bool,
    pub in_spine: bool,
    pub current_tag: String,
    pub title: String,
    pub authors: Vec<String>,
    pub language: Option<String>,
    pub publish_date: Option<String>,
    pub identifier: String,
    pub cover_meta_id: Option<String>,
    pub toc_id: Option<String>,
    /// Manifest items, one per id, in order of first appearance.
    pub manifest: Vec<ManifestItem>,
    /// Spine item idrefs in order.
    pub spine_idrefs: Vec<String>,
}

pub struct ItemView {
    pub id: Seq<char>,
    pub href: Seq<char>,
    pub media_type: Seq<char>,
    pub properties: Seq<char>,
}

/// The OPF reading state as plain values.
pub struct OpfView {
    pub in_metadata: bool,
    pub in_manifest: bool,
    pub in_spine: bool,
    pub current_tag: Seq<char>,
    pub title: Seq<char>,
    pub authors: Seq<Seq<char>>,
    pub language: Option<Seq<char>>,
    pub publish_date: Option<Seq<char>>,
    pub identifier: Seq<char>,
    pub cover_meta_id: Option<Seq<char>>,
    pub toc_id: Option<Seq<char>>,
    pub manifest: Seq<ItemView>,
    pub spine_idrefs: Seq<Seq<char>>,
}

pub open spec fn opt_str(o: Option<String>) -> Option<Seq<char>> {
    match o {
        Some(s) => Some(s@),
        None => None,
    }
}

pub open spec fn strs(v: Seq<String>) -> Seq<Seq<char>> {
    v.map_values(|s: String| s@)
}

pub open spec fn item_view(i: ManifestItem) -> ItemView {
    ItemView { id: i.id@, href: i.href@, media_type: i.media_type@, properties: i.properties@ }
}

pub open spec fn items_view(v: Seq<ManifestItem>) -> Seq<ItemView> {
    v.map_values(|i: ManifestItem| item_view(i))
}

impl OpfData {
    pub open spec fn view(&self) -> OpfView {
        OpfView {
            in_metadata: self.in_metadata,
            in_manifest: self.in_manifest,
            in_spine: self.in_spine,
            current_tag: self.current_tag@,
            title: self.title@,
            authors: strs(self.authors@),
            language: opt_str(self.language),
            publish_date: opt_str(self.publish_date),
            identifier: self.identifier@,
            cover_meta_id: opt_str(self.cover_meta_id),
            toc_id: opt_str(self.toc_id),
            manifest: items_view(self.manifest@),
            spine_idrefs: strs(self.spine_idrefs@),
        }
    }
}

/// The value of the last attribute named `key`, if any.
pub open spec fn last_attr(attrs: Seq<(Seq<char>, Seq<char>)>, key: Seq<char>) -> Option<Seq<char>>
    decreases attrs.len(),
{
    if attrs.len() == 0 {
        None
    } else if attrs.last().0 == key {
        Some(attrs.last().1)
    } else {
        last_attr(attrs.drop_last(), key)
    }
}

/// The values of the attributes named `key`, in order.
pub open spec fn attr_values(attrs: Seq<(Seq<char>, Seq<char>)>, key: Seq<char>) -> Seq<Seq<char>>
    decreases attrs.len(),
{
    if attrs.len() == 0 {
        Seq::empty()
    } else if attrs.last().0 == key {
        attr_values(attrs.drop_last(), key).push(attrs.last().1)
    } else {
        attr_values(attrs.drop_last(), key)
    }
}

/// Whether some attribute named `key` has the value `value`.
pub open spec fn has_attr(attrs: Seq<(Seq<char>, Seq<char>)>, key: Seq<char>, value: Seq<char>) -> bool {
    exists|i: int| 0 <= i < attrs.len() && attrs[i].0 == key && attrs[i].1 == value
}

/// The index of the item with this id, or -1.
pub open spec fn item_index(m: Seq<ItemView>, id: Seq<char>) -> int
    decreases m.len(),
{
    if m.len() == 0 {
        -1
    } else if m.last().id == id {
        m.len() - 1
    } else {
        item_index(m.drop_last(), id)
    }
}

/// The manifest after recording an item: it replaces the item with the same
/// id, or is added at the end.
pub open spec fn manifest_insert(m: Seq<ItemView>, it: ItemView) -> Seq<ItemView> {
    let i = item_index(m, it.id);
    if i >= 0 { m.update(i, it) } else { m.push(it) }
}

pub open spec fn or_empty(o: Option<Seq<char>>) -> Seq<char> {
    match o {
        Some(s) => s,
        None => Seq::empty(),
    }
}

/// One step of reading the OPF.
pub open spec fn opf_step(s: OpfView, e: XmlEventView) -> OpfView {
    match e {
        XmlEventView::Start(name, attrs) => {
            let tag = local_name(name);
            let s1 = if tag == "metadata"@ {
                OpfView { in_metadata: true, ..s }
            } else if tag == "manifest"@ {
                OpfView { in_manifest: true, ..s }
            } else if tag == "spine"@ {
                OpfView {
                    in_spine: true,
                    toc_id: match last_attr(attrs, "toc"@) {
                        Some(v) => Some(v),
                        None => s.toc_id,
                    },
                    ..s
                }
            } else {
                s
            };
            if s1.in_metadata { OpfView { current_tag: tag, ..s1 } } else { s1 }
        },
        XmlEventView::Text(t) => if s.in_metadata {
            if s.current_tag == "title"@ {
                OpfView { title: t, ..s }
            } else if s.current_tag == "creator"@ {
                OpfView { authors: s.authors.push(t), ..s }
            } else if s.current_tag == "language"@ {
                OpfView { language: Some(t), ..s }
            } else if s.current_tag == "date"@ {
                OpfView { publish_date: Some(t), ..s }
            } else if s.current_tag == "identifier"@ && s.identifier.len() == 0 {
                OpfView { identifier: t, ..s }
            } else {
                s
            }
        } else {
            s
        },
        XmlEventView::Empty(name, attrs) => {
            let tag = local_name(name);
            if s.in_metadata && tag == "meta"@ {
                if has_attr(attrs, "name"@, "cover"@) {
                    OpfView { cover_meta_id: last_attr(attrs, "content"@), ..s }
                } else {
                    s
                }
            } else if s.in_manifest && tag == "item"@ {
                let it = ItemView {
                    id: or_empty(last_attr(attrs, "id"@)),
                    href: or_empty(last_attr(attrs, "href"@)),
                    media_type: or_empty(last_attr(attrs, "media-type"@)),
                    properties: or_empty(last_attr(attrs, "properties"@)),
                };
                OpfView { manifest: manifest_insert(s.manifest, it), ..s }
            } else if s.in_spine && tag == "itemref"@ {
                OpfView { spine_idrefs: s.spine_idrefs + attr_values(attrs, "idref"@), ..s }
            } else {
                s
            }
        },
        XmlEventView::End(name) => {
            let tag = local_name(name);
            let s1 = if tag == "metadata"@ {
                OpfView { in_metadata: false, ..s }
            } else if tag == "manifest"@ {
                OpfView { in_manifest: false, ..s }
            } else if tag == "spine"@ {
                OpfView { in_spine: false, ..s }
            } else {
                s
            };
            OpfView { current_tag: Seq::empty(), ..s1 }
        },
        XmlEventView::Other => s,
    }
}

/// The reading state before any event.
pub open spec fn opf_start() -> OpfView {
    OpfView {
        in_metadata: false,
        in_manifest: false,
        in_spine: false,
        current_tag: Seq::empty(),
        title: Seq::empty(),
        authors: Seq::empty(),
        language: None,
        publish_date: None,
        identifier: Seq::empty(),
        cover_meta_id: None,
        toc_id: None,
        manifest: Seq::empty(),
        spine_idrefs: Seq::empty(),
    }
}

/// The reading state after the given events.
pub open spec fn opf_after(events: Seq<XmlEventView>) -> OpfView
    decreases events.len(),
{
    if events.len() == 0 {
        opf_start()
    } else {
        opf_step(opf_after(events.drop_last()), events.last())
    }
}

// ----- the authors law -----

/// Whether the package's `metadata` element is open after these events: the
/// latest start or end of an element named `metadata` is a start.
pub open spec fn metadata_open(ev: Seq<XmlEventView>) -> bool
    decreases ev.len(),
{
    if ev.len() == 0 {
        false
    } else {
        let rest = metadata_open(ev.drop_last());
        match ev.last() {
            XmlEventView::Start(n, _) => if local_name(n) == "metadata"@ { true } else { rest },
            XmlEventView::End(n) => if local_name(n) == "metadata"@ { false } else { rest },
            _ => rest,
        }
    }
}

/// The local name of the element that the latest start or end tag opened:
/// none when that tag is an end tag or there is none.
pub open spec fn open_element(ev: Seq<XmlEventView>) -> Option<Seq<char>>
    decreases ev.len(),
{
    if ev.len() == 0 {
        None
    } else {
        match ev.last() {
            XmlEventView::Start(n, _) => Some(local_name(n)),
            XmlEventView::End(_) => None,
            _ => open_element(ev.drop_last()),
        }
    }
}

/// The texts that stand directly inside a `creator` element of the
/// metadata, in document order.
pub open spec fn creator_texts(ev: Seq<XmlEventView>) -> Seq<Seq<char>>
    decreases ev.len(),
{
    if ev.len() == 0 {
        Seq::empty()
    } else {
        let pre = ev.drop_last();
        let here = match ev.last() {
            XmlEventView::Text(t) => if metadata_open(pre) && open_element(pre) == Some("creator"@) {
                seq![t]
            } else {
                Seq::empty()
            },
            _ => Seq::empty(),
        };
        creator_texts(pre) + here
    }
}

/// Every author is kept: after the package's events, the authors are
/// exactly the texts of the metadata's `creator` elements, in document order
/// (two creators give two authors).
pub proof fn lemma_opf_authors(ev: Seq<XmlEventView>)
    ensures
        opf_after(ev).authors == creator_texts(ev),
        opf_after(ev).in_metadata == metadata_open(ev),
        metadata_open(ev) ==> opf_after(ev).current_tag == (match open_element(ev) {
            Some(x) => x,
            None => Seq::empty(),
        }),
    decreases ev.len(),
{
    reveal_strlit("creator");
    reveal_strlit("title");
    reveal_strlit("language");
    reveal_strlit("date");
    reveal_strlit("identifier");
    if ev.len() > 0 {
        let pre = ev.drop_last();
        lemma_opf_authors(pre);
        let s = opf_after(pre);
        let e = ev.last();
        assert(opf_after(ev) == opf_step(s, e));
        match e {
            XmlEventView::Text(t) => {
                if metadata_open(pre) && open_element(pre) == Some("creator"@) {
                    assert(s.current_tag == "creator"@);
                    assert(creator_texts(ev) == creator_texts(pre) + seq![t]);
                } else {
                    if s.in_metadata {
                        match open_element(pre) {
                            Some(x) => assert(x != "creator"@),
                            None => assert(Seq::<char>::empty().len() != "creator"@.len()),
                        }
                        assert(s.current_tag != "creator"@);
                    }
                    assert(creator_texts(ev) == creator_texts(pre) + Seq::<Seq<char>>::empty());
                }
            },
            _ => {
                assert(creator_texts(ev) == creator_texts(pre) + Seq::<Seq<char>>::empty());
            },
        }
    }
}

// ----- attribute helpers -----

/// The value of the last attribute named `key`.
pub fn find_last_attr(attrs: &Vec<(String, String)>, key: &str) -> (r: Option<String>)
    ensures
        opt_str(r) == last_attr(attrs_view(attrs@), key@),
{
    let mut k = attrs.len();
    assert(attrs@.subrange(0, k as int) == attrs@);
    while k > 0
        invariant
            k <= attrs.len(),
            last_attr(attrs_view(attrs@), key@) == last_attr(attrs_view(attrs@.subrange(0, k as int)), key@),
        decreases k,
    {
        let ghost pre = attrs_view(attrs@.subrange(0, k as int));
        assert(attrs_view(attrs@.subrange(0, k - 1)) == pre.drop_last());
        if str_eq(&attrs[k - 1].0, key) {
            return Some(attrs[k - 1].1.clone());
        }
        k = k - 1;
    }
    None
}

fn str_eq(a: &String, b: &str) -> (r: bool)
    ensures
        r == (a@ == b@),
{
    let v = crate::text::chars_of(a.as_str());
    crate::text::vec_eq_str(&v, b)
}


/// Whether some attribute named `key` has the value `value`.
pub fn has_attr_value(attrs: &Vec<(String, String)>, key: &str, value: &str) -> (b: bool)
    ensures
        b == has_attr(attrs_view(attrs@), key@, value@),
{
    let ghost av = attrs_view(attrs@);
    let mut k: usize = 0;
    while k < attrs.len()
        invariant
            k <= attrs.len(),
            av == attrs_view(attrs@),
            forall|j: int| 0 <= j < k ==> !(av[j].0 == key@ && av[j].1 == value@),
        decreases attrs.len() - k,
    {
        assert(av[k as int] == (attrs@[k as int].0@, attrs@[k as int].1@));
        if str_eq(&attrs[k].0, key) && str_eq(&attrs[k].1, value) {
            return true;
        }
        k = k + 1;
    }
    false
}

/// Appends the values of the attributes named `key`, in order.
fn push_attr_values(out: &mut Vec<String>, attrs: &Vec<(String, String)>, key: &str)
    ensures
        strs(final(out)@) == strs(old(out)@) + attr_values(attrs_view(attrs@), key@),
{
    let ghost start = strs(out@);
    let mut k: usize = 0;
    while k < attrs.len()
        invariant
            k <= attrs.len(),
            strs(out@) == start + attr_values(attrs_view(attrs@.subrange(0, k as int)), key@),
        decreases attrs.len() - k,
    {
        let ghost pre = attrs_view(attrs@.subrange(0, k as int));
        let ghost post = attrs_view(attrs@.subrange(0, k + 1));
        assert(post.drop_last() == pre);
        assert(post.last() == (attrs@[k as int].0@, attrs@[k as int].1@));
        if str_eq(&attrs[k].0, key) {
            let ghost before = out@;
            out.push(attrs[k].1.clone());
            assert(strs(out@) == strs(before).push(attrs@[k as int].1@));
            assert(start + attr_values(pre, key@).push(attrs@[k as int].1@) == (start + attr_values(pre, key@)).push(
                attrs@[k as int].1@,
            ));
        }
        k = k + 1;
    }
    assert(attrs@.subrange(0, attrs@.len() as int) == attrs@);
}

fn or_empty_exec(o: Option<String>) -> (s: String)
    ensures
        s@ == or_empty(opt_str(o)),
{
    match o {
        Some(v) => v,
        None => String::new(),
    }
}

/// Records an item in the manifest: replaces the item with the same id, or
/// adds it at the end.
fn insert_item(m: &mut Vec<ManifestItem>, it: ManifestItem)
    ensures
        items_view(final(m)@) == manifest_insert(items_view(old(m)@), item_view(it)),
{
    let ghost mv = items_view(m@);
    let mut k = m.len();
    assert(items_view(m@.subrange(0, k as int)) == mv);
    while k > 0
        invariant
            k <= m.len(),
            mv == items_view(m@),
            mv == items_view(old(m)@),
            item_index(mv, it.id@) == item_index(items_view(m@.subrange(0, k as int)), it.id@),
        decreases k,
    {
        let ghost pre = items_view(m@.subrange(0, k as int));
        assert(items_view(m@.subrange(0, k - 1)) == pre.drop_last());
        assert(pre.last() == item_view(m@[k - 1]));
        if str_eq(&m[k - 1].id, it.id.as_str()) {
            let ghost idx = k - 1;
            assert(item_index(mv, it.id@) == idx);
            assert(manifest_insert(mv, item_view(it)) == mv.update(idx as int, item_view(it)));
            m.set(k - 1, it);
            assert(items_view(m@) == mv.update(idx as int, item_view(it)));
            return;
        }
        k = k - 1;
    }
    assert(item_index(mv, it.id@) == -1);
    m.push(it);
    assert(items_view(m@) == mv.push(item_view(it)));
}

impl OpfData {
    /// The reading state before any event.
    pub fn start() -> (d: Self)
        ensures
            d.view() == opf_start(),
    {
        let d = OpfData {
            in_metadata: false,
            in_manifest: false,
            in_spine: false,
            current_tag: String::new(),
            title: String::new(),
            authors: Vec::new(),
            language: None,
            publish_date: None,
            identifier: String::new(),
            cover_meta_id: None,
            toc_id: None,
            manifest: Vec::new(),
            spine_idrefs: Vec::new(),
        };
        assert(strs(d.authors@) == Seq::<Seq<char>>::empty());
        assert(strs(d.spine_idrefs@) == Seq::<Seq<char>>::empty());
        assert(items_view(d.manifest@) == Seq::<ItemView>::empty());
        d
    }

    /// Takes in one event of the OPF.
    pub fn step(&mut self, e: &XmlEvent)
        ensures
            final(self).view() == opf_step(old(self).view(), event_view(*e)),
    {
        match e {
            XmlEvent::Start((name, attrs)) => {
                let tag = local_name_of(name.as_str());
                if str_eq(&tag, "metadata") {
                    self.in_metadata = true;
                } else if str_eq(&tag, "manifest") {
                    self.in_manifest = true;
                } else if str_eq(&tag, "spine") {
                    self.in_spine = true;
                    match find_last_attr(attrs, "toc") {
                        Some(v) => {
                            self.toc_id = Some(v);
                        },
                        None => {},
                    }
                }
                if self.in_metadata {
                    self.current_tag = tag;
                }
            },
            XmlEvent::Text(t) => {
                if self.in_metadata {
                    if str_eq(&self.current_tag, "title") {
                        self.title = t.clone();
                    } else if str_eq(&self.current_tag, "creator") {
                        self.authors.push(t.clone());
                        proof {
                            assert(strs(self.authors@) == strs(old(self).authors@).push(t@));
                        }
                    } else if str_eq(&self.current_tag, "language") {
                        self.language = Some(t.clone());
                    } else if str_eq(&self.current_tag, "date") {
                        self.publish_date = Some(t.clone());
                    } else if str_eq(&self.current_tag, "identifier") && self.identifier.as_str().is_empty() {
                        self.identifier = t.clone();
                    }
                }
            },
            XmlEvent::Empty((name, attrs)) => {
                let tag = local_name_of(name.as_str());
                if self.in_metadata && str_eq(&tag, "meta") {
                    if has_attr_value(attrs, "name", "cover") {
                        self.cover_meta_id = find_last_attr(attrs, "content");
                    }
                } else if self.in_manifest && str_eq(&tag, "item") {
                    let it = ManifestItem {
                        id: or_empty_exec(find_last_attr(attrs, "id")),
                        href: or_empty_exec(find_last_attr(attrs, "href")),
                        media_type: or_empty_exec(find_last_attr(attrs, "media-type")),
                        properties: or_empty_exec(find_last_attr(attrs, "properties")),
                    };
                    insert_item(&mut self.manifest, it);
                } else if self.in_spine && str_eq(&tag, "itemref") {
                    push_attr_values(&mut self.spine_idrefs, attrs, "idref");
                }
            },
            XmlEvent::End(name) => {
                let tag = local_name_of(name.as_str());
                if str_eq(&tag, "metadata") {
                    self.in_metadata = false;
                } else if str_eq(&tag, "manifest") {
                    self.in_manifest = false;
                } else if str_eq(&tag, "spine") {
                    self.in_spine = false;
                }
                self.current_tag = String::new();
            },
            XmlEvent::Other => {},
        }
    }
}

/// Reads the OPF from its events.
pub fn read_opf(events: &Vec<XmlEvent>) -> (d: OpfData)
    ensures
        d.view() == opf_after(events_view(events@)),
{
    let mut d = OpfData::start();
    let mut k: usize = 0;
    while k < events.len()
        invariant
            k <= events.len(),
            d.view() == opf_after(events_view(events@.subrange(0, k as int))),
        decreases events.len() - k,
    {
        let ghost pre = events_view(events@.subrange(0, k as int));
        let ghost post = events_view(events@.subrange(0, k + 1));
        assert(post.drop_last() == pre);
        assert(post.last() == event_view(events@[k as int]));
        d.step(&events[k]);
        k = k + 1;
    }
    assert(events@.subrange(0, events@.len() as int) == events@);
    d
}

} // verus!
