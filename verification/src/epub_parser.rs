//! The EPUB parser: a ZIP archive, the package document it names, and what
//! is read from them on request (metadata, table of contents, spine, cover,
//! chapters, resources).
use vstd::prelude::*;
use std::io::Read;
use crate::dom::{dom_after, dom_from_events, dom_views, DomView};
use crate::epub_paths::{
    base_name, dir_prefix, dir_prefix_of, normalize_path, normalized, resolve_toc_href_in, string_views,
    toc_href_index,
};
use crate::epub::{
    book_metadata, book_metadata_is, cover_href, first_marked_index, rootfile_of, rootfile_path, spine_paths,
    spine_paths_of, toc_path, toc_path_of, ItemMark,
};
use crate::opf::{read_opf, strs, ItemView, OpfData, OpfView};
use crate::parse_error::{concat_str, ParseError};
use crate::server_rules::{hex_lower, sha256_digest, sha256_of, to_hex_lower};
use crate::text::{utf8_text, after_last, chars_of, lemma_after_last_char, range_eq_str, string_from_range, vec_eq_str};
use crate::toc::{nav_after, nav_toc, ncx_after, ncx_entries, ncx_toc, toc_views, TocView};
use crate::types::{BookMetadata, DomNode, TocEntry};
use crate::xml::{events_view, read_xml_events, xml_events_of};

verus! {

#[verifier::external_type_specification]
#[verifier::external_body]
#[verifier::reject_recursive_types(R)]
pub struct ExZipArchive<R>(zip::ZipArchive<R>);

#[verifier::external_type_specification]
#[verifier::external_body]
#[verifier::reject_recursive_types(T)]
pub struct ExCursor<T>(std::io::Cursor<T>);

/// What reading one member of an archive gives.
pub enum MemberRead {
    /// The member's bytes.
    Bytes(Seq<u8>),
    /// The member could not be opened, with the message.
    Missing(Seq<char>),
    /// The member was opened but could not be read, with the message.
    Unreadable(Seq<char>),
}

/// What an archive holds: for each name in its central directory, what
/// reading that member gives.
pub uninterp spec fn zip_members(a: zip::ZipArchive<std::io::Cursor<Vec<u8>>>) -> Map<Seq<char>, MemberRead>;

/// What reading the member `name` gives; a name the archive does not hold
/// is missing.
pub open spec fn read_in(members: Map<Seq<char>, MemberRead>, name: Seq<char>) -> MemberRead {
    if members.contains_key(name) {
        members[name]
    } else {
        MemberRead::Missing("specified file not found in archive"@)
    }
}

/// Why reading an archive member failed.
pub enum MemberError {
    /// The member could not be opened (`ZipArchive::by_name` failed), with the message.
    Missing(String),
    /// The member could not be read (`Read::read_to_end` failed), with the message.
    Unreadable(String),
}

pub open spec fn member_read_view(r: Result<Vec<u8>, MemberError>) -> MemberRead {
    match r {
        Ok(b) => MemberRead::Bytes(b@),
        Err(MemberError::Missing(m)) => MemberRead::Missing(m@),
        Err(MemberError::Unreadable(m)) => MemberRead::Unreadable(m@),
    }
}

/// What opening bytes as a ZIP archive gives: what the archive holds, or the
/// error's message.
pub uninterp spec fn zip_opened(data: Seq<u8>) -> Result<Map<Seq<char>, MemberRead>, Seq<char>>;

/// Opens a ZIP archive over the bytes (`zip::ZipArchive::new` on a cursor),
/// or gives the error's message when they are no ZIP archive. The contract
/// claims that the outcome, and what an opened archive holds, depend on the
/// bytes alone (both are named, not described).
#[verifier::external_body]
fn open_archive(data: Vec<u8>) -> (r: Result<zip::ZipArchive<std::io::Cursor<Vec<u8>>>, String>)
    ensures
        match r {
            Ok(a) => zip_opened(data@) == Ok::<Map<Seq<char>, MemberRead>, Seq<char>>(zip_members(a)),
            Err(m) => zip_opened(data@) == Err::<Map<Seq<char>, MemberRead>, Seq<char>>(m@),
        },
{
    zip::ZipArchive::new(std::io::Cursor::new(data)).map_err(|e| e.to_string())
}

/// Reads the member with this name (`ZipArchive::by_name`, then
/// `read_to_end`). The contract claims that the outcome is what the archive
/// holds under that name; that a name not in the archive gives
/// `FileNotFound`, whose message is "specified file not found in archive";
/// and that reading leaves what the archive holds unchanged (each read
/// seeks to the member's own offset).
#[verifier::external_body]
fn read_member(archive: &mut zip::ZipArchive<std::io::Cursor<Vec<u8>>>, name: &str) -> (r: Result<Vec<u8>, MemberError>)
    ensures
        member_read_view(r) == read_in(zip_members(*old(archive)), name@),
        zip_members(*final(archive)) == zip_members(*old(archive)),
{
    let mut buf = Vec::new();
    match archive.by_name(name) {
        Err(e) => Err(MemberError::Missing(e.to_string())),
        Ok(mut f) => match f.read_to_end(&mut buf) {
            Ok(_) => Ok(buf),
            Err(e) => Err(MemberError::Unreadable(e.to_string())),
        },
    }
}

// ----- reading members -----

/// Whether `e` is the error of a failed read of member `name`.
pub open spec fn read_failure(name: Seq<char>, m: MemberRead, e: ParseError) -> bool {
    match m {
        MemberRead::Bytes(_) => false,
        MemberRead::Missing(msg) => e matches ParseError::InvalidEpub(s) && s@ == "File not found in archive: "@ + name
            + ": "@ + msg,
        MemberRead::Unreadable(msg) => e matches ParseError::IoError(s) && s@ == "Failed to read "@ + name + ": "@
            + msg,
    }
}

/// The text of a member: its bytes decoded, when it reads and they are UTF-8.
pub open spec fn member_text(members: Map<Seq<char>, MemberRead>, name: Seq<char>) -> Option<Seq<char>> {
    match read_in(members, name) {
        MemberRead::Bytes(b) => if vstd::utf8::valid_utf8(b) {
            Some(vstd::utf8::decode_utf8(b))
        } else {
            None
        },
        _ => None,
    }
}

/// Whether `e` is the error of reading member `name` as text, where that
/// fails: the read's error, or for bytes that are no UTF-8 an `InvalidEpub`
/// error whose message begins "Invalid UTF-8 in {what}: ".
pub open spec fn text_failure(members: Map<Seq<char>, MemberRead>, name: Seq<char>, what: Seq<char>, e: ParseError) -> bool {
    match read_in(members, name) {
        MemberRead::Bytes(b) => !vstd::utf8::valid_utf8(b) && (e matches ParseError::InvalidEpub(s) && ("Invalid UTF-8 in "@
            + what + ": "@).is_prefix_of(s@)),
        m => read_failure(name, m, e),
    }
}

/// Reads a member of the archive, turning a failure into the parser's error.
fn read_archive_file(archive: &mut zip::ZipArchive<std::io::Cursor<Vec<u8>>>, path: &str) -> (r: Result<Vec<u8>, ParseError>)
    ensures
        zip_members(*final(archive)) == zip_members(*old(archive)),
        match read_in(zip_members(*old(archive)), path@) {
            MemberRead::Bytes(b) => r matches Ok(v) && v@ == b,
            m => r matches Err(e) && read_failure(path@, m, e),
        },
{
    match read_member(archive, path) {
        Ok(b) => Ok(b),
        Err(MemberError::Missing(m)) => {
            let a = concat_str("File not found in archive: ", path);
            let b = concat_str(a.as_str(), ": ");
            Err(ParseError::InvalidEpub(concat_str(b.as_str(), m.as_str())))
        },
        Err(MemberError::Unreadable(m)) => {
            let a = concat_str("Failed to read ", path);
            let b = concat_str(a.as_str(), ": ");
            Err(ParseError::IoError(concat_str(b.as_str(), m.as_str())))
        },
    }
}

/// Reads a member of the archive as UTF-8 text; `what` names it in the
/// error for bytes that are no UTF-8.
fn read_archive_text(archive: &mut zip::ZipArchive<std::io::Cursor<Vec<u8>>>, path: &str, what: &str) -> (r: Result<String, ParseError>)
    ensures
        zip_members(*final(archive)) == zip_members(*old(archive)),
        match member_text(zip_members(*old(archive)), path@) {
            Some(t) => r matches Ok(s) && s@ == t,
            None => r matches Err(e) && text_failure(zip_members(*old(archive)), path@, what@, e),
        },
{
    let bytes = match read_archive_file(archive, path) {
        Ok(b) => b,
        Err(e) => return Err(e),
    };
    match utf8_text(bytes) {
        Ok(s) => Ok(s),
        Err(m) => {
            let a = concat_str("Invalid UTF-8 in ", what);
            let b = concat_str(a.as_str(), ": ");
            let msg = concat_str(b.as_str(), m.as_str());
            assert(b@.is_prefix_of(msg@));
            Err(ParseError::InvalidEpub(msg))
        },
    }
}

// ----- the container and package documents -----

/// The path of the package document that the archive's container document
/// names.
pub open spec fn opf_location(members: Map<Seq<char>, MemberRead>) -> Option<Seq<char>> {
    match member_text(members, "META-INF/container.xml"@) {
        Some(t) => rootfile_of(xml_events_of(t, true).0),
        None => None,
    }
}

/// Whether `e` is the error of locating the package document, where that
/// fails.
pub open spec fn location_failure(members: Map<Seq<char>, MemberRead>, e: ParseError) -> bool {
    match member_text(members, "META-INF/container.xml"@) {
        None => text_failure(members, "META-INF/container.xml"@, "container.xml"@, e),
        Some(t) => rootfile_of(xml_events_of(t, true).0) is None && (match xml_events_of(t, true).1 {
            Some(m) => e matches ParseError::InvalidXml(s) && s@ == "container.xml: "@ + m,
            None => e matches ParseError::InvalidEpub(s) && s@ == "No rootfile found in container.xml"@,
        }),
    }
}

/// The package document read from the archive, when it reads, is UTF-8 and
/// is well-formed XML.
pub open spec fn opf_of(members: Map<Seq<char>, MemberRead>, path: Seq<char>) -> Option<OpfView> {
    match member_text(members, path) {
        Some(t) => if xml_events_of(t, true).1 is None {
            Some(crate::opf::opf_after(xml_events_of(t, true).0))
        } else {
            None
        },
        None => None,
    }
}

/// Whether `e` is the error of reading the package document, where that
/// fails.
pub open spec fn opf_failure(members: Map<Seq<char>, MemberRead>, path: Seq<char>, e: ParseError) -> bool {
    match member_text(members, path) {
        None => text_failure(members, path, "OPF"@, e),
        Some(t) => match xml_events_of(t, true).1 {
            Some(m) => e matches ParseError::InvalidXml(s) && s@ == "OPF: "@ + m,
            None => false,
        },
    }
}

// ----- what is read from a book -----

/// Whether a path names an NCX document (it ends in `.ncx`).
pub open spec fn is_ncx_path(p: Seq<char>) -> bool {
    ".ncx"@.is_suffix_of(p)
}

/// The table of contents: read from the document that `toc_path_of`
/// names, as NCX when its path ends in `.ncx`, else as a navigation
/// document; none when that document is missing, unreadable, no UTF-8 or
/// malformed.
pub open spec fn toc_of(members: Map<Seq<char>, MemberRead>, base: Seq<char>, v: OpfView) -> Option<Seq<TocView>> {
    match toc_path_of(v.manifest, v.toc_id, base) {
        None => None,
        Some(tp) => match member_text(members, tp) {
            None => None,
            Some(t) => if xml_events_of(t, true).1 is Some {
                None
            } else if is_ncx_path(tp) {
                Some(ncx_entries(ncx_after(xml_events_of(t, true).0)))
            } else {
                Some(nav_after(xml_events_of(t, true).0).entries)
            },
        },
    }
}

/// Whether `e` is the error of reading the table of contents, where that fails.
pub open spec fn toc_failure(members: Map<Seq<char>, MemberRead>, base: Seq<char>, v: OpfView, e: ParseError) -> bool {
    match toc_path_of(v.manifest, v.toc_id, base) {
        None => e matches ParseError::InvalidEpub(s) && s@ == "No TOC (NCX or NAV) found in manifest"@,
        Some(tp) => match member_text(members, tp) {
            None => text_failure(members, tp, "TOC"@, e),
            Some(t) => match xml_events_of(t, true).1 {
                Some(m) => e matches ParseError::InvalidXml(s) && s@ == (if is_ncx_path(tp) {
                    "NCX: "@
                } else {
                    "NAV: "@
                }) + m,
                None => false,
            },
        },
    }
}

/// Whether `r` is what parsing an XHTML text into DOM nodes gives: the body's
/// top-level nodes when the text is well-formed XML, else `InvalidXml` with
/// the reader's message.
pub open spec fn xhtml_result(text: Seq<char>, r: Result<Vec<DomNode>, ParseError>) -> bool {
    match xml_events_of(text, false).1 {
        None => r matches Ok(nodes) && dom_views(nodes@) == dom_after(xml_events_of(text, false).0).roots,
        Some(m) => r matches Err(ParseError::InvalidXml(s)) && s@ == "XHTML content: "@ + m,
    }
}

/// The archive path of the cover: the first manifest item whose id is the
/// cover id or whose properties hold `cover-image`, under the OPF base.
pub open spec fn cover_path_of(v: OpfView, base: Seq<char>, cover_id: Seq<char>) -> Option<Seq<char>> {
    let i = first_marked_index(v.manifest, ItemMark::Cover(cover_id));
    if i >= 0 {
        Some(base + v.manifest[i].href)
    } else {
        None
    }
}

/// The bytes of the first of these members that reads, if any does.
pub open spec fn first_readable(members: Map<Seq<char>, MemberRead>, cands: Seq<Seq<char>>) -> Option<Seq<u8>>
    decreases cands.len(),
{
    if cands.len() == 0 {
        None
    } else {
        match read_in(members, cands[0]) {
            MemberRead::Bytes(b) => Some(b),
            _ => first_readable(members, cands.drop_first()),
        }
    }
}

/// Where a resource href is looked for first: as given, under the OPF base,
/// and under the OPF base with `.` and `..` resolved when that differs.
pub open spec fn direct_candidates(base: Seq<char>, href: Seq<char>) -> Seq<Seq<char>> {
    if normalized(base + href) != base + href {
        seq![href, base + href, normalized(base + href)]
    } else {
        seq![href, base + href]
    }
}

/// Where a resource href is looked for last: each manifest item whose last
/// path segment is that of the href, under the OPF base, in manifest order.
pub open spec fn manifest_candidates(items: Seq<ItemView>, base: Seq<char>, href: Seq<char>) -> Seq<Seq<char>>
    decreases items.len(),
{
    if items.len() == 0 {
        Seq::empty()
    } else {
        let rest = manifest_candidates(items.drop_last(), base, href);
        if base_name(items.last().href) == base_name(href) {
            rest.push(base + items.last().href)
        } else {
            rest
        }
    }
}

/// Whether a path ends in `.ncx`.
fn ends_with_ncx(p: &String) -> (b: bool)
    ensures
        b == is_ncx_path(p@),
{
    let v = chars_of(p.as_str());
    proof {
        reveal_strlit(".ncx");
    }
    if v.len() < 4 {
        false
    } else {
        range_eq_str(&v, v.len() - 4, v.len(), ".ncx")
    }
}

/// The archive paths of the manifest items whose last path segment is that
/// of `href`.
fn manifest_paths(d: &OpfData, base: &str, href: &str) -> (r: Vec<String>)
    ensures
        strs(r@) == manifest_candidates(d.view().manifest, base@, href@),
{
    let h = chars_of(href);
    let a = after_last(&h, '/');
    proof {
        lemma_after_last_char(h@, '/', h@.len() as int);
    }
    let name = string_from_range(&h, a, h.len());
    let ghost items = d.view().manifest;
    let mut out: Vec<String> = Vec::new();
    let mut k: usize = 0;
    while k < d.manifest.len()
        invariant
            k <= d.manifest.len(),
            items == d.view().manifest,
            name@ == base_name(href@),
            strs(out@) == manifest_candidates(items.subrange(0, k as int), base@, href@),
        decreases d.manifest.len() - k,
    {
        assert(items.subrange(0, k + 1).drop_last() == items.subrange(0, k as int));
        assert(items.subrange(0, k + 1).last() == items[k as int]);
        let p = chars_of(d.manifest[k].href.as_str());
        let b = after_last(&p, '/');
        proof {
            lemma_after_last_char(p@, '/', p@.len() as int);
        }
        if range_eq_str(&p, b, p.len(), name.as_str()) {
            let ghost before = out@;
            out.push(concat_str(base, d.manifest[k].href.as_str()));
            assert(strs(out@) == strs(before).push(base@ + items[k as int].href));
        }
        k = k + 1;
    }
    assert(items.subrange(0, d.manifest@.len() as int) == items);
    out
}

/// Whether two strings hold the same text.
fn same_text(a: &String, b: &String) -> (r: bool)
    ensures
        r == (a@ == b@),
{
    let v = chars_of(a.as_str());
    vec_eq_str(&v, b.as_str())
}

/// Parse XHTML content into a list of DOM nodes: the top-level nodes of the
/// document's body.
pub fn parse_xhtml_to_dom(xhtml: &str) -> (r: Result<Vec<DomNode>, ParseError>)
    ensures
        xhtml_result(xhtml@, r),
{
    let (events, err) = read_xml_events(xhtml, false);
    match err {
        Some(m) => Err(ParseError::InvalidXml(concat_str("XHTML content: ", m.as_str()))),
        None => Ok(dom_from_events(&events)),
    }
}

/// Parser over an EPUB archive.
#[derive(Debug)]
pub struct EpubParser {
    archive: zip::ZipArchive<std::io::Cursor<Vec<u8>>>,
    opf_path: String,
    opf_base: String,
    file_hash: String,
    file_size: u64,
    opf_cache: Option<OpfData>,
}

impl EpubParser {
    /// What the archive holds.
    pub closed spec fn members(&self) -> Map<Seq<char>, MemberRead> {
        zip_members(self.archive)
    }

    /// The path of the package document within the archive.
    pub closed spec fn opf_path_view(&self) -> Seq<char> {
        self.opf_path@
    }

    /// The directory of the package document, with its trailing `/`.
    pub closed spec fn opf_base_view(&self) -> Seq<char> {
        self.opf_base@
    }

    /// The lower-case hex SHA-256 digest of the file.
    pub closed spec fn hash_view(&self) -> Seq<char> {
        self.file_hash@
    }

    /// The file's size in bytes.
    pub closed spec fn size_view(&self) -> u64 {
        self.file_size
    }

    /// The package document read so far, if it has been.
    pub closed spec fn cache_view(&self) -> Option<OpfView> {
        match self.opf_cache {
            Some(d) => Some(d.view()),
            None => None,
        }
    }

    /// The parser's invariant: the package document is the one the
    /// container names, its base is its directory, and a cached reading is
    /// what the archive gives.
    pub closed spec fn wf(&self) -> bool {
        &&& opf_location(self.members()) == Some(self.opf_path@)
        &&& self.opf_base@ == dir_prefix(self.opf_path@)
        &&& (self.opf_cache is Some ==> self.cache_view() == opf_of(self.members(), self.opf_path@))
    }

    /// Same archive, package document, digest and size.
    pub open spec fn same_book(&self, other: &Self) -> bool {
        &&& self.members() == other.members()
        &&& self.opf_path_view() == other.opf_path_view()
        &&& self.opf_base_view() == other.opf_base_view()
        &&& self.hash_view() == other.hash_view()
        &&& self.size_view() == other.size_view()
    }

    /// The parser over an opened archive: it locates the package document
    /// through `META-INF/container.xml`.
    pub fn from_archive(archive: zip::ZipArchive<std::io::Cursor<Vec<u8>>>, file_hash: String, file_size: u64) -> (r: Result<Self, ParseError>)
        ensures
            match opf_location(zip_members(archive)) {
                Some(p) => r matches Ok(q) && q.wf() && q.members() == zip_members(archive) && q.opf_path_view() == p
                    && q.hash_view() == file_hash@ && q.size_view() == file_size && q.cache_view() is None,
                None => r matches Err(e) && location_failure(zip_members(archive), e),
            },
    {
        let mut archive = archive;
        let text = match read_archive_text(&mut archive, "META-INF/container.xml", "container.xml") {
            Ok(t) => t,
            Err(e) => return Err(e),
        };
        let (events, err) = read_xml_events(text.as_str(), true);
        match rootfile_path(&events) {
            Some(path) => {
                let base = dir_prefix_of(path.as_str());
                Ok(EpubParser { archive, opf_path: path, opf_base: base, file_hash, file_size, opf_cache: None })
            },
            None => match err {
                Some(m) => Err(ParseError::InvalidXml(concat_str("container.xml: ", m.as_str()))),
                None => Err(ParseError::InvalidEpub(String::from_str("No rootfile found in container.xml"))),
            },
        }
    }

    /// Create a parser from the raw bytes of an EPUB file: it records the
    /// file's SHA-256 digest and size, opens the ZIP archive and locates the
    /// package document.
    pub fn new(data: Vec<u8>) -> (r: Result<Self, ParseError>)
        ensures
            data@.len() == 0 ==> r matches Err(ParseError::EmptyContent),
            data@.len() > 0 ==> match zip_opened(data@) {
                Err(m) => r matches Err(ParseError::InvalidZip(s)) && s@ == m,
                Ok(members) => match opf_location(members) {
                    Some(path) => r matches Ok(p) && p.wf() && p.members() == members && p.opf_path_view() == path
                        && p.hash_view() == hex_lower(sha256_of(data@)) && p.size_view() == data@.len()
                        && p.cache_view() is None,
                    None => r matches Err(e) && location_failure(members, e),
                },
            },
    {
        if data.len() == 0 {
            return Err(ParseError::EmptyContent);
        }
        let digest = sha256_digest(data.as_slice());
        let file_hash = to_hex_lower(digest.as_slice());
        let file_size = data.len() as u64;
        let archive = match open_archive(data) {
            Ok(a) => a,
            Err(m) => return Err(ParseError::InvalidZip(m)),
        };
        Self::from_archive(archive, file_hash, file_size)
    }

    /// Reads the package document once; later calls find it read.
    fn ensure_opf_cache(&mut self) -> (r: Result<(), ParseError>)
        requires
            old(self).wf(),
        ensures
            final(self).wf(),
            final(self).same_book(old(self)),
            match opf_of(old(self).members(), old(self).opf_path_view()) {
                Some(v) => r is Ok && final(self).cache_view() == Some(v),
                None => r matches Err(e) && opf_failure(old(self).members(), old(self).opf_path_view(), e),
            },
    {
        if self.opf_cache.is_some() {
            return Ok(());
        }
        let path = self.opf_path.clone();
        let text = match read_archive_text(&mut self.archive, path.as_str(), "OPF") {
            Ok(t) => t,
            Err(e) => return Err(e),
        };
        let (events, err) = read_xml_events(text.as_str(), true);
        match err {
            Some(m) => return Err(ParseError::InvalidXml(concat_str("OPF: ", m.as_str()))),
            None => {},
        }
        let d = read_opf(&events);
        self.opf_cache = Some(d);
        Ok(())
    }

    /// Extract book metadata from the package document.
    pub fn parse_metadata(&mut self) -> (r: Result<BookMetadata, ParseError>)
        requires
            old(self).wf(),
        ensures
            final(self).wf(),
            final(self).same_book(old(self)),
            match opf_of(old(self).members(), old(self).opf_path_view()) {
                Some(v) => r matches Ok(b) && book_metadata_is(b, v, old(self).hash_view(), old(self).size_view()),
                None => r matches Err(e) && opf_failure(old(self).members(), old(self).opf_path_view(), e),
            },
    {
        match self.ensure_opf_cache() {
            Ok(()) => {},
            Err(e) => return Err(e),
        }
        let d = self.opf_cache.as_ref().unwrap();
        Ok(book_metadata(d, &self.file_hash, self.file_size))
    }

    /// Parse the table of contents from the NCX or navigation document.
    pub fn parse_toc(&mut self) -> (r: Result<Vec<TocEntry>, ParseError>)
        requires
            old(self).wf(),
        ensures
            final(self).wf(),
            final(self).same_book(old(self)),
            match opf_of(old(self).members(), old(self).opf_path_view()) {
                Some(v) => match toc_of(old(self).members(), old(self).opf_base_view(), v) {
                    Some(t) => r matches Ok(es) && toc_views(es@) == t,
                    None => r matches Err(e) && toc_failure(old(self).members(), old(self).opf_base_view(), v, e),
                },
                None => r matches Err(e) && opf_failure(old(self).members(), old(self).opf_path_view(), e),
            },
    {
        match self.ensure_opf_cache() {
            Ok(()) => {},
            Err(e) => return Err(e),
        }
        let tp = match toc_path(self.opf_cache.as_ref().unwrap(), self.opf_base.as_str()) {
            Ok(p) => p,
            Err(e) => return Err(e),
        };
        let text = match read_archive_text(&mut self.archive, tp.as_str(), "TOC") {
            Ok(t) => t,
            Err(e) => return Err(e),
        };
        let (events, err) = read_xml_events(text.as_str(), true);
        let ncx = ends_with_ncx(&tp);
        match err {
            Some(m) => {
                let ctx = if ncx { "NCX: " } else { "NAV: " };
                return Err(ParseError::InvalidXml(concat_str(ctx, m.as_str())));
            },
            None => {},
        }
        if ncx {
            Ok(ncx_toc(&events))
        } else {
            Ok(nav_toc(&events))
        }
    }

    /// The spine: the archive paths of the content documents in reading order.
    pub fn get_spine(&mut self) -> (r: Result<Vec<String>, ParseError>)
        requires
            old(self).wf(),
        ensures
            final(self).wf(),
            final(self).same_book(old(self)),
            match opf_of(old(self).members(), old(self).opf_path_view()) {
                Some(v) => r matches Ok(ps) && strs(ps@) == spine_paths_of(v.manifest, v.spine_idrefs, old(self).opf_base_view()),
                None => r matches Err(e) && opf_failure(old(self).members(), old(self).opf_path_view(), e),
            },
    {
        match self.ensure_opf_cache() {
            Ok(()) => {},
            Err(e) => return Err(e),
        }
        Ok(spine_paths(self.opf_cache.as_ref().unwrap(), self.opf_base.as_str()))
    }

    /// The bytes of the cover image: the manifest item with the cover id, or
    /// the first marked `cover-image`.
    pub fn get_cover_image(&mut self, cover_id: &str) -> (r: Result<Vec<u8>, ParseError>)
        requires
            old(self).wf(),
        ensures
            final(self).wf(),
            final(self).same_book(old(self)),
            match opf_of(old(self).members(), old(self).opf_path_view()) {
                Some(v) => match cover_path_of(v, old(self).opf_base_view(), cover_id@) {
                    Some(cp) => match read_in(old(self).members(), cp) {
                        MemberRead::Bytes(b) => r matches Ok(x) && x@ == b,
                        m => r matches Err(e) && read_failure(cp, m, e),
                    },
                    None => r matches Err(ParseError::InvalidEpub(s)) && s@ == "Cover item '"@ + cover_id@
                        + "' not found in manifest"@,
                },
                None => r matches Err(e) && opf_failure(old(self).members(), old(self).opf_path_view(), e),
            },
    {
        match self.ensure_opf_cache() {
            Ok(()) => {},
            Err(e) => return Err(e),
        }
        match cover_href(self.opf_cache.as_ref().unwrap(), cover_id) {
            Some(h) => {
                let path = concat_str(self.opf_base.as_str(), h.as_str());
                read_archive_file(&mut self.archive, path.as_str())
            },
            None => {
                let a = concat_str("Cover item '", cover_id);
                Err(ParseError::InvalidEpub(concat_str(a.as_str(), "' not found in manifest")))
            },
        }
    }

    /// Parse one XHTML content document of the archive into a DOM tree.
    pub fn parse_chapter(&mut self, path: &str) -> (r: Result<Vec<DomNode>, ParseError>)
        requires
            old(self).wf(),
        ensures
            final(self).wf(),
            final(self).same_book(old(self)),
            final(self).cache_view() == old(self).cache_view(),
            match member_text(old(self).members(), path@) {
                Some(t) => xhtml_result(t, r),
                None => r matches Err(e) && text_failure(old(self).members(), path@, "chapter"@, e),
            },
    {
        let text = match read_archive_text(&mut self.archive, path, "chapter") {
            Ok(t) => t,
            Err(e) => return Err(e),
        };
        parse_xhtml_to_dom(text.as_str())
    }

    /// Read a resource (image, stylesheet, font) of the book: the href as
    /// given, under the OPF base, normalized under the OPF base, and finally
    /// any manifest item with the same file name.
    pub fn get_resource(&mut self, href: &str) -> (r: Result<Vec<u8>, ParseError>)
        requires
            old(self).wf(),
        ensures
            final(self).wf(),
            final(self).same_book(old(self)),
            href@.len() == 0 ==> (r matches Err(ParseError::InvalidEpub(s)) && s@ == "Empty resource href"@),
            href@.len() > 0 ==> match first_readable(old(self).members(), direct_candidates(old(self).opf_base_view(), href@)) {
                Some(b) => r matches Ok(x) && x@ == b,
                None => match opf_of(old(self).members(), old(self).opf_path_view()) {
                    None => r matches Err(e) && opf_failure(old(self).members(), old(self).opf_path_view(), e),
                    Some(v) => match first_readable(old(self).members(), manifest_candidates(v.manifest, old(self).opf_base_view(), href@)) {
                        Some(b) => r matches Ok(x) && x@ == b,
                        None => r matches Err(ParseError::InvalidEpub(s)) && s@ == "Resource not found in archive: "@ + href@,
                    },
                },
            },
    {
        let ghost members = self.members();
        let ghost base = self.opf_base@;
        let hv = chars_of(href);
        if hv.len() == 0 {
            return Err(ParseError::InvalidEpub(String::from_str("Empty resource href")));
        }
        let ghost direct = direct_candidates(base, href@);
        match read_archive_file(&mut self.archive, href) {
            Ok(b) => return Ok(b),
            Err(_) => {},
        }
        assert(first_readable(members, direct) == first_readable(members, direct.drop_first()));
        let with_base = concat_str(self.opf_base.as_str(), href);
        match read_archive_file(&mut self.archive, with_base.as_str()) {
            Ok(b) => {
                assert(direct.drop_first()[0] == with_base@);
                assert(first_readable(members, direct.drop_first()) == Some(b@));
                return Ok(b);
            },
            Err(_) => {},
        }
        assert(first_readable(members, direct.drop_first()) == first_readable(
            members,
            direct.drop_first().drop_first(),
        ));
        let norm = normalize_path(with_base.as_str());
        if !same_text(&norm, &with_base) {
            let ghost rest = direct.drop_first().drop_first();
            match read_archive_file(&mut self.archive, norm.as_str()) {
                Ok(b) => {
                    assert(rest[0] == norm@);
                    assert(first_readable(members, rest) == Some(b@));
                    return Ok(b);
                },
                Err(_) => {},
            }
            assert(rest.drop_first().len() == 0);
            assert(first_readable(members, rest) == first_readable(members, rest.drop_first()));
        } else {
            assert(direct.drop_first().drop_first().len() == 0);
        }
        assert(first_readable(members, direct) is None);
        match self.ensure_opf_cache() {
            Ok(()) => {},
            Err(e) => return Err(e),
        }
        let cands = manifest_paths(self.opf_cache.as_ref().unwrap(), self.opf_base.as_str(), href);
        let ghost cv = strs(cands@);
        let ghost before = *self;
        let ghost v = opf_of(members, before.opf_path_view()).unwrap();
        assert(cv == manifest_candidates(v.manifest, base, href@));
        let mut k: usize = 0;
        assert(cv.subrange(0, cv.len() as int) == cv);
        while k < cands.len()
            invariant
                k <= cands.len(),
                cv == strs(cands@),
                href@.len() > 0,
                members == old(self).members(),
                base == old(self).opf_base_view(),
                before.same_book(old(self)),
                direct == direct_candidates(base, href@),
                first_readable(members, direct) is None,
                opf_of(members, old(self).opf_path_view()) == Some(v),
                cv == manifest_candidates(v.manifest, base, href@),
                self.wf(),
                self.same_book(&before),
                first_readable(members, cv) == first_readable(members, cv.subrange(k as int, cv.len() as int)),
            decreases cands.len() - k,
        {
            let ghost tail = cv.subrange(k as int, cv.len() as int);
            assert(tail.drop_first() == cv.subrange(k + 1, cv.len() as int));
            assert(tail[0] == cands@[k as int]@);
            match read_archive_file(&mut self.archive, cands[k].as_str()) {
                Ok(b) => {
                    assert(first_readable(members, tail) == Some(b@));
                    return Ok(b);
                },
                Err(_) => {},
            }
            k = k + 1;
        }
        assert(cv.subrange(cv.len() as int, cv.len() as int).len() == 0);
        let a = concat_str("Resource not found in archive: ", href);
        Err(ParseError::InvalidEpub(a))
    }

    /// Resolve a TOC entry href to a spine index, or -1 when none matches.
    pub fn resolve_toc_href(&mut self, href: &str) -> (r: Result<i32, ParseError>)
        requires
            old(self).wf(),
        ensures
            final(self).wf(),
            final(self).same_book(old(self)),
            match opf_of(old(self).members(), old(self).opf_path_view()) {
                Some(v) => r matches Ok(i) && i == toc_href_index(
                    spine_paths_of(v.manifest, v.spine_idrefs, old(self).opf_base_view()),
                    old(self).opf_base_view(),
                    href@,
                ) as i32,
                None => r matches Err(e) && opf_failure(old(self).members(), old(self).opf_path_view(), e),
            },
    {
        match self.ensure_opf_cache() {
            Ok(()) => {},
            Err(e) => return Err(e),
        }
        let spine = spine_paths(self.opf_cache.as_ref().unwrap(), self.opf_base.as_str());
        assert(string_views(spine@) == strs(spine@));
        Ok(resolve_toc_href_in(&spine, self.opf_base.as_str(), href))
    }
}

} // verus!
