//! Data types shared across the reader: book metadata, table of contents,
//! the platform-independent DOM tree, CFI anchors, bookmarks, annotations
//! and preferences.
use vstd::prelude::*;

verus! {

/// Metadata extracted from a book file (EPUB, TXT, etc.).
#[derive(Debug, Clone, PartialEq)]
pub struct BookMetadata {
    /// Unique identifier for the book.
    pub id: String,
    /// Book title.
    pub title: String,
    /// List of authors.
    pub authors: Vec<String>,
    /// Language code (e.g., "en", "zh").
    pub language: Option<String>,
    /// Publication date as ISO 8601 string.
    pub publish_date: Option<String>,
    /// Reference to the cover image within the book.
    pub cover_image_ref: Option<String>,
    /// Book format.
    pub format: BookFormat,
    /// SHA-256 hash of the book file.
    pub file_hash: Option<String>,
    /// File size in bytes.
    pub file_size: Option<u64>,
}

/// Supported book formats.
#[derive(Debug, Clone, Copy, PartialEq, Eq, Structural)]
pub enum BookFormat {
    Epub,
    Txt,
}

/// The display name of a format: `epub` or `txt`.
pub open spec fn format_name(f: BookFormat) -> Seq<char> {
    match f {
        BookFormat::Epub => seq!['e', 'p', 'u', 'b'],
        BookFormat::Txt => seq!['t', 'x', 't'],
    }
}

impl BookFormat {
    /// The format's display name, `"epub"` or `"txt"`.
    pub fn to_string(&self) -> (s: String)
        ensures
            s@ == format_name(*self),
    {
        match self {
            BookFormat::Epub => {
                let s = String::from_str("epub");
                proof {
                    reveal_strlit("epub");
                }
                s
            },
            BookFormat::Txt => {
                let s = String::from_str("txt");
                proof {
                    reveal_strlit("txt");
                }
                s
            },
        }
    }
}

/// A single entry in the table of contents.
#[derive(Debug, PartialEq)]
pub struct TocEntry {
    /// Chapter/section title.
    pub title: String,
    /// Reference to the content file or anchor.
    pub href: String,
    /// Nesting level (0 = top level).
    pub level: u32,
    /// Child entries for nested TOC.
    pub children: Vec<TocEntry>,
}

/// A node in the platform-independent DOM tree.
#[derive(Debug, PartialEq)]
pub struct DomNode {
    /// The type of this node.
    pub node_type: NodeType,
    /// CFI anchor for precise positioning.
    pub cfi_anchor: Option<String>,
    /// Text content (for text nodes).
    pub text: Option<String>,
    /// Attributes (e.g., src for images, href for links).
    pub attributes: Vec<(String, String)>,
    /// Child nodes.
    pub children: Vec<DomNode>,
}

/// Types of DOM nodes supported by the parser.
#[derive(Debug, Clone, Copy, PartialEq, Eq, Structural)]
pub enum NodeType {
    Document,
    Heading { level: u8 },
    Paragraph,
    Text,
    Image,
    Link,
    List { ordered: bool },
    ListItem,
    Emphasis,
    Strong,
    Code,
    BlockQuote,
    Table,
    TableRow,
    TableCell,
    LineBreak,
    Span,
}

/// A Content Fragment Identifier for precise book positioning.
#[derive(Debug, Clone, PartialEq, Eq, Hash)]
pub struct CfiAnchor {
    /// The CFI string (e.g., "/6/4[chap01]!/4/2/1:0").
    pub cfi: String,
}

impl CfiAnchor {
    /// An anchor holding the given CFI text.
    pub fn new(cfi: &str) -> (a: Self)
        ensures
            a.cfi@ == cfi@,
    {
        CfiAnchor { cfi: String::from_str(cfi) }
    }
}

/// A bookmark placed by the user.
#[derive(Debug, Clone, PartialEq)]
pub struct Bookmark {
    /// Unique bookmark identifier.
    pub id: String,
    /// Book identifier.
    pub book_id: String,
    /// CFI position of the bookmark.
    pub cfi_position: String,
    /// Optional user-provided title.
    pub title: Option<String>,
    /// Creation timestamp (HLC).
    pub created_at: u64,
}

/// Whether `s` has the shape of a hyphenated UUID: 36 characters with
/// hyphens at positions 8, 13, 18 and 23.
pub open spec fn uuid_shaped(s: Seq<char>) -> bool {
    &&& s.len() == 36
    &&& s[8] == '-'
    &&& s[13] == '-'
    &&& s[18] == '-'
    &&& s[23] == '-'
}

/// A fresh random (version 4) UUID in its hyphenated lower-case text form
/// (`uuid::Uuid::new_v4()` then `to_string()`). The uuid crate formats every
/// UUID as 36 characters with hyphens at positions 8, 13, 18 and 23; which
/// UUID comes out is chance and is not stated.
#[verifier::external_body]
pub(crate) fn new_uuid_string() -> (s: String)
    ensures
        uuid_shaped(s@),
{
    uuid::Uuid::new_v4().to_string()
}

impl Bookmark {
    /// A new bookmark with a fresh random id, no title and a zero timestamp.
    pub fn new(book_id: &str, cfi_position: &str) -> (b: Self)
        ensures
            uuid_shaped(b.id@),
            b.book_id@ == book_id@,
            b.cfi_position@ == cfi_position@,
            b.title is None,
            b.created_at == 0,
    {
        Bookmark {
            id: new_uuid_string(),
            book_id: String::from_str(book_id),
            cfi_position: String::from_str(cfi_position),
            title: None,
            created_at: 0,
        }
    }
}

/// A highlight/annotation created by the user.
#[derive(Debug, Clone, PartialEq)]
pub struct Annotation {
    /// Unique annotation identifier.
    pub id: String,
    /// Book identifier.
    pub book_id: String,
    /// CFI start position.
    pub cfi_start: String,
    /// CFI end position.
    pub cfi_end: String,
    /// Highlight color as RGBA (e.g., "#FFFF00FF").
    pub color_rgba: String,
    /// Optional note text.
    pub note: Option<String>,
    /// Creation timestamp (HLC).
    pub created_at: u64,
}

impl Annotation {
    /// A new annotation with a fresh random id, no note and a zero timestamp.
    pub fn new(book_id: &str, cfi_start: &str, cfi_end: &str, color_rgba: &str) -> (a: Self)
        ensures
            uuid_shaped(a.id@),
            a.book_id@ == book_id@,
            a.cfi_start@ == cfi_start@,
            a.cfi_end@ == cfi_end@,
            a.color_rgba@ == color_rgba@,
            a.note is None,
            a.created_at == 0,
    {
        Annotation {
            id: new_uuid_string(),
            book_id: String::from_str(book_id),
            cfi_start: String::from_str(cfi_start),
            cfi_end: String::from_str(cfi_end),
            color_rgba: String::from_str(color_rgba),
            note: None,
            created_at: 0,
        }
    }
}

/// A user preference stored as a key-value pair.
#[derive(Debug, Clone, PartialEq)]
pub struct UserPreference {
    /// Preference key (e.g., "font_size", "theme").
    pub key: String,
    /// Preference value as JSON string.
    pub value: String,
    /// HLC timestamp of last update.
    pub hlc_timestamp: u64,
}

} // verus!
