//! What an EPUB's container and package documents give: the package
//! document's path, the spine, the table of contents' path, the cover and
//! the book's metadata.
use vstd::prelude::*;
use crate::opf::{item_index, items_view, strs, ItemView, ManifestItem, OpfData, OpfView};
use crate::parse_error::{concat_str, ParseError};
use crate::text::{chars_of, contains_seq, contains_str, vec_eq_str};
use crate::types::{BookFormat, BookMetadata};
use crate::xml::{attrs_view, events_view, XmlEvent, XmlEventView};

verus! {

// ----- the container document -----

/// The value of the first `full-path` attribute of the first `rootfile`
/// element that has one.
pub open spec fn rootfile_of(events: Seq<XmlEventView>) -> Option<Seq<char>>
    decreases events.len(),
{
    if events.len() == 0 {
        None
    } else {
        match rootfile_of(events.drop_last()) {
            Some(p) => Some(p),
            None => match events.last() {
                XmlEventView::Start(name, attrs) => if name == "rootfile"@ { first_attr(attrs, "full-path"@) } else { None },
                XmlEventView::Empty(name, attrs) => if name == "rootfile"@ { first_attr(attrs, "full-path"@) } else { None },
                _ => None,
            },
        }
    }
}

/// The value of the first attribute named `key`, if any.
pub open spec fn first_attr(attrs: Seq<(Seq<char>, Seq<char>)>, key: Seq<char>) -> Option<Seq<char>>
    decreases attrs.len(),
{
    if attrs.len() == 0 {
        None
    } else if attrs[0].0 == key {
        Some(attrs[0].1)
    } else {
        first_attr(attrs.drop_first(), key)
    }
}

fn is_str(a: &String, b: &str) -> (r: bool)
    ensures
        r == (a@ == b@),
{
    let v = chars_of(a.as_str());
    vec_eq_str(&v, b)
}

fn find_first_attr(attrs: &Vec<(String, String)>, key: &str) -> (r: Option<String>)
    ensures
        crate::opf::opt_str(r) == first_attr(attrs_view(attrs@), key@),
{
    let mut k: usize = 0;
    assert(attrs@.subrange(0, attrs@.len() as int) == attrs@);
    while k < attrs.len()
        invariant
            k <= attrs.len(),
            first_attr(attrs_view(attrs@), key@) == first_attr(attrs_view(attrs@.subrange(k as int, attrs@.len() as int)), key@),
        decreases attrs.len() - k,
    {
        let ghost cur = attrs_view(attrs@.subrange(k as int, attrs@.len() as int));
        assert(cur.drop_first() == attrs_view(attrs@.subrange(k + 1, attrs@.len() as int)));
        assert(cur[0] == (attrs@[k as int].0@, attrs@[k as int].1@));
        if is_str(&attrs[k].0, key) {
            return Some(attrs[k].1.clone());
        }
        k = k + 1;
    }
    None
}

/// The path of the package document named by a container document's events.
pub fn rootfile_path(events: &Vec<XmlEvent>) -> (r: Option<String>)
    ensures
        crate::opf::opt_str(r) == rootfile_of(events_view(events@)),
{
    let mut k: usize = 0;
    while k < events.len()
        invariant
            k <= events.len(),
            rootfile_of(events_view(events@.subrange(0, k as int))) is None,
        decreases events.len() - k,
    {
        let ghost pre = events_view(events@.subrange(0, k as int));
        let ghost post = events_view(events@.subrange(0, k + 1));
        assert(post.drop_last() == pre);
        assert(post.last() == crate::xml::event_view(events@[k as int]));
        let found = match &events[k] {
            XmlEvent::Start((name, attrs)) => if is_str(name, "rootfile") { find_first_attr(attrs, "full-path") } else { None },
            XmlEvent::Empty((name, attrs)) => if is_str(name, "rootfile") { find_first_attr(attrs, "full-path") } else { None },
            _ => None,
        };
        if found.is_some() {
            proof {
                assert(rootfile_of(post) == crate::opf::opt_str(found));
                assert(events_view(events@).subrange(0, k + 1) == post);
                lemma_rootfile_prefix(events_view(events@), k as int + 1);
            }
            return found;
        }
        k = k + 1;
    }
    assert(events@.subrange(0, events@.len() as int) == events@);
    None
}

/// Once a prefix names the package document, the whole does too.
proof fn lemma_rootfile_prefix(all: Seq<XmlEventView>, n: int)
    requires
        0 <= n <= all.len(),
        rootfile_of(all.subrange(0, n)) is Some,
    ensures
        rootfile_of(all) == rootfile_of(all.subrange(0, n)),
    decreases all.len() - n,
{
    if n < all.len() {
        assert(all.subrange(0, n + 1).drop_last() == all.subrange(0, n));
        lemma_rootfile_prefix(all, n + 1);
    } else {
        assert(all.subrange(0, n) == all);
    }
}


// ----- what the package document gives -----

/// The archive paths of the spine: each idref's manifest href under the OPF
/// base, in order; idrefs without a manifest item are left out.
pub open spec fn spine_paths_of(m: Seq<ItemView>, idrefs: Seq<Seq<char>>, base: Seq<char>) -> Seq<Seq<char>>
    decreases idrefs.len(),
{
    if idrefs.len() == 0 {
        Seq::empty()
    } else {
        let rest = spine_paths_of(m, idrefs.drop_last(), base);
        let i = item_index(m, idrefs.last());
        if i >= 0 { rest.push(base + m[i].href) } else { rest }
    }
}

/// Every spine path is a manifest item's href under the OPF base, and the
/// spine has at most one path per idref.
pub proof fn lemma_spine_paths_from_manifest(m: Seq<ItemView>, idrefs: Seq<Seq<char>>, base: Seq<char>)
    ensures
        spine_paths_of(m, idrefs, base).len() <= idrefs.len(),
        forall|k: int|
            0 <= k < spine_paths_of(m, idrefs, base).len() ==> exists|i: int|
                0 <= i < m.len() && #[trigger] spine_paths_of(m, idrefs, base)[k] == base + m[i].href,
    decreases idrefs.len(),
{
    if idrefs.len() > 0 {
        lemma_spine_paths_from_manifest(m, idrefs.drop_last(), base);
        let rest = spine_paths_of(m, idrefs.drop_last(), base);
        let all = spine_paths_of(m, idrefs, base);
        let i = item_index(m, idrefs.last());
        lemma_item_index_bounds(m, idrefs.last());
        assert forall|k: int| 0 <= k < all.len() implies exists|j: int|
            0 <= j < m.len() && #[trigger] all[k] == base + m[j].href by {
            if k < rest.len() {
                assert(all[k] == rest[k]);
            } else {
                assert(all[k] == base + m[i].href);
            }
        }
    }
}

pub proof fn lemma_item_index_bounds(m: Seq<ItemView>, id: Seq<char>)
    ensures
        -1 <= item_index(m, id) < m.len(),
        item_index(m, id) >= 0 ==> m[item_index(m, id)].id == id,
    decreases m.len(),
{
    if m.len() > 0 && m.last().id != id {
        lemma_item_index_bounds(m.drop_last(), id);
    }
}

/// The index of the manifest item with this id, if any.
fn find_item(m: &Vec<ManifestItem>, id: &String) -> (r: Option<usize>)
    ensures
        match r {
            Some(i) => i == item_index(items_view(m@), id@) && i < m.len(),
            None => item_index(items_view(m@), id@) == -1,
        },
{
    proof {
        lemma_item_index_bounds(items_view(m@), id@);
    }
    let mut k = m.len();
    assert(items_view(m@.subrange(0, k as int)) == items_view(m@));
    while k > 0
        invariant
            k <= m.len(),
            item_index(items_view(m@), id@) == item_index(items_view(m@.subrange(0, k as int)), id@),
        decreases k,
    {
        let ghost pre = items_view(m@.subrange(0, k as int));
        assert(items_view(m@.subrange(0, k - 1)) == pre.drop_last());
        assert(pre.last() == crate::opf::item_view(m@[k - 1]));
        if m[k - 1].id == *id {
            return Some(k - 1);
        }
        k = k - 1;
    }
    None
}

/// The archive paths of the spine.
pub fn spine_paths(data: &OpfData, base: &str) -> (r: Vec<String>)
    ensures
        strs(r@) == spine_paths_of(items_view(data.manifest@), strs(data.spine_idrefs@), base@),
{
    let ghost m = items_view(data.manifest@);
    let mut out: Vec<String> = Vec::new();
    let mut k: usize = 0;
    while k < data.spine_idrefs.len()
        invariant
            k <= data.spine_idrefs.len(),
            m == items_view(data.manifest@),
            strs(out@) == spine_paths_of(m, strs(data.spine_idrefs@.subrange(0, k as int)), base@),
        decreases data.spine_idrefs.len() - k,
    {
        let ghost pre = strs(data.spine_idrefs@.subrange(0, k as int));
        let ghost post = strs(data.spine_idrefs@.subrange(0, k + 1));
        assert(post.drop_last() == pre);
        match find_item(&data.manifest, &data.spine_idrefs[k]) {
            Some(i) => {
                let ghost before = out@;
                let path = concat_str(base, data.manifest[i].href.as_str());
                out.push(path);
                assert(strs(out@) == strs(before).push(base@ + m[i as int].href));
            },
            None => {},
        }
        k = k + 1;
    }
    assert(data.spine_idrefs@.subrange(0, data.spine_idrefs@.len() as int) == data.spine_idrefs@);
    out
}

pub open spec fn is_nav_item(it: ItemView) -> bool {
    contains_seq(it.properties, "nav"@)
}

pub open spec fn is_ncx_item(it: ItemView) -> bool {
    contains_seq(it.media_type, "application/x-dtbncx+xml"@)
}

pub open spec fn is_cover_item(it: ItemView, cover_id: Seq<char>) -> bool {
    it.id == cover_id || contains_seq(it.properties, "cover-image"@)
}

/// Which kind of manifest item is looked for.
pub enum ItemMark {
    Nav,
    Ncx,
    Cover(Seq<char>),
}

pub open spec fn marked(it: ItemView, mark: ItemMark) -> bool {
    match mark {
        ItemMark::Nav => is_nav_item(it),
        ItemMark::Ncx => is_ncx_item(it),
        ItemMark::Cover(id) => is_cover_item(it, id),
    }
}

/// The index of the first manifest item of that kind, or -1.
pub open spec fn first_marked_index(m: Seq<ItemView>, mark: ItemMark) -> int {
    if exists|i: int| 0 <= i < m.len() && marked(m[i], mark) {
        choose|i: int| 0 <= i < m.len() && marked(m[i], mark) && forall|j: int| 0 <= j < i ==> !marked(m[j], mark)
    } else {
        -1
    }
}

/// The archive path of the table of contents: the navigation document
/// (an item whose properties hold `nav`), else the spine's declared NCX
/// item, else any item of the NCX media type; among several candidates,
/// the first in the manifest.
pub open spec fn toc_path_of(m: Seq<ItemView>, toc_id: Option<Seq<char>>, base: Seq<char>) -> Option<Seq<char>> {
    let nav = first_marked_index(m, ItemMark::Nav);
    if nav >= 0 {
        Some(base + m[nav].href)
    } else if toc_id is Some && item_index(m, toc_id.unwrap()) >= 0 {
        Some(base + m[item_index(m, toc_id.unwrap())].href)
    } else {
        let ncx = first_marked_index(m, ItemMark::Ncx);
        if ncx >= 0 { Some(base + m[ncx].href) } else { None }
    }
}

/// The index of the first manifest item of that kind, or -1.
fn first_marked(m: &Vec<ManifestItem>, mark_kind: u8, cover_id: &str) -> (r: Option<usize>)
    ensures
        match r {
            Some(i) => i == first_marked_index(items_view(m@), mark_of(mark_kind, cover_id@)) && i < m.len(),
            None => first_marked_index(items_view(m@), mark_of(mark_kind, cover_id@)) == -1,
        },
{
    let ghost mv = items_view(m@);
    let ghost mark = mark_of(mark_kind, cover_id@);
    let mut k: usize = 0;
    while k < m.len()
        invariant
            k <= m.len(),
            mv == items_view(m@),
            mark == mark_of(mark_kind, cover_id@),
            forall|j: int| 0 <= j < k ==> !marked(#[trigger] mv[j], mark),
        decreases m.len() - k,
    {
        assert(mv[k as int] == crate::opf::item_view(m@[k as int]));
        let p = chars_of(m[k].properties.as_str());
        let hit = if mark_kind == 0 {
            contains_str(&p, "nav")
        } else if mark_kind == 1 {
            let t = chars_of(m[k].media_type.as_str());
            contains_str(&t, "application/x-dtbncx+xml")
        } else {
            is_str(&m[k].id, cover_id) || contains_str(&p, "cover-image")
        };
        if hit {
            proof {
                assert(marked(mv[k as int], mark));
                let c = choose|i: int|
                    0 <= i < mv.len() && marked(mv[i], mark) && forall|j: int| 0 <= j < i ==> !marked(mv[j], mark);
                assert(0 <= c < mv.len() && marked(mv[c], mark) && forall|j: int| 0 <= j < c ==> !marked(mv[j], mark));
                if c < k {
                    assert(!marked(mv[c], mark));
                } else if c > k {
                    assert(!marked(mv[k as int], mark));
                }
            }
            return Some(k);
        }
        k = k + 1;
    }
    None
}

/// The kind of item that a kind code names: 0 the navigation document, 1 an
/// NCX document, anything else the cover with the given id.
pub open spec fn mark_of(kind: u8, cover_id: Seq<char>) -> ItemMark {
    if kind == 0 { ItemMark::Nav } else if kind == 1 { ItemMark::Ncx } else { ItemMark::Cover(cover_id) }
}

/// The archive path of the table of contents, or `InvalidEpub` when the
/// manifest names none.
pub fn toc_path(data: &OpfData, base: &str) -> (r: Result<String, ParseError>)
    ensures
        match toc_path_of(items_view(data.manifest@), crate::opf::opt_str(data.toc_id), base@) {
            Some(p) => r matches Ok(s) && s@ == p,
            None => r matches Err(ParseError::InvalidEpub(msg)) && msg@ == "No TOC (NCX or NAV) found in manifest"@,
        },
{
    match first_marked(&data.manifest, 0, "") {
        Some(i) => return Ok(concat_str(base, data.manifest[i].href.as_str())),
        None => {},
    }
    match &data.toc_id {
        Some(id) => match find_item(&data.manifest, id) {
            Some(i) => return Ok(concat_str(base, data.manifest[i].href.as_str())),
            None => {},
        },
        None => {},
    }
    match first_marked(&data.manifest, 1, "") {
        Some(i) => return Ok(concat_str(base, data.manifest[i].href.as_str())),
        None => {},
    }
    Err(ParseError::InvalidEpub(String::from_str("No TOC (NCX or NAV) found in manifest")))
}

/// The metadata of an EPUB read from its package document: the OPF's
/// fields; its identifier, or the file's digest when it has none; the
/// file's digest and size.
pub open spec fn book_metadata_is(b: BookMetadata, v: OpfView, file_hash: Seq<char>, file_size: u64) -> bool {
    &&& b.id@ == (if v.identifier.len() == 0 { file_hash } else { v.identifier })
    &&& b.title@ == v.title
    &&& strs(b.authors@) == v.authors
    &&& crate::opf::opt_str(b.language) == v.language
    &&& crate::opf::opt_str(b.publish_date) == v.publish_date
    &&& crate::opf::opt_str(b.cover_image_ref) == v.cover_meta_id
    &&& b.format == BookFormat::Epub
    &&& b.file_hash matches Some(h) && h@ == file_hash
    &&& b.file_size == Some(file_size)
}

/// The metadata of an EPUB: the OPF's fields; its identifier, or the file's
/// digest when it has none; the file's digest and size.
pub fn book_metadata(data: &OpfData, file_hash: &String, file_size: u64) -> (b: BookMetadata)
    ensures
        book_metadata_is(b, data.view(), file_hash@, file_size),
{
    let id = if data.identifier.as_str().is_empty() { file_hash.clone() } else { data.identifier.clone() };
    let mut authors: Vec<String> = Vec::new();
    let mut k: usize = 0;
    while k < data.authors.len()
        invariant
            k <= data.authors.len(),
            strs(authors@) == strs(data.authors@.subrange(0, k as int)),
        decreases data.authors.len() - k,
    {
        let ghost before = authors@;
        authors.push(data.authors[k].clone());
        assert(strs(authors@) == strs(before).push(data.authors@[k as int]@));
        assert(strs(data.authors@.subrange(0, k + 1)) == strs(data.authors@.subrange(0, k as int)).push(
            data.authors@[k as int]@,
        ));
        k = k + 1;
    }
    assert(data.authors@.subrange(0, data.authors@.len() as int) == data.authors@);
    BookMetadata {
        id,
        title: data.title.clone(),
        authors,
        language: clone_opt(&data.language),
        publish_date: clone_opt(&data.publish_date),
        cover_image_ref: clone_opt(&data.cover_meta_id),
        format: BookFormat::Epub,
        file_hash: Some(file_hash.clone()),
        file_size: Some(file_size),
    }
}

fn clone_opt(o: &Option<String>) -> (r: Option<String>)
    ensures
        crate::opf::opt_str(r) == crate::opf::opt_str(*o),
{
    match o {
        Some(s) => Some(s.clone()),
        None => None,
    }
}

/// The manifest href of the cover: the first item whose id is the cover id
/// or whose properties hold `cover-image`.
pub fn cover_href(data: &OpfData, cover_id: &str) -> (r: Option<String>)
    ensures
        ({
            let m = items_view(data.manifest@);
            let i = first_marked_index(m, ItemMark::Cover(cover_id@));
            if i >= 0 { r matches Some(h) && h@ == m[i].href } else { r is None }
        }),
{
    match first_marked(&data.manifest, 2, cover_id) {
        Some(i) => Some(data.manifest[i].href.clone()),
        None => None,
    }
}

} // verus!
