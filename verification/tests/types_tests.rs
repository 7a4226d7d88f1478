use subreader::state_error::{StateError, StorageError};
use std::collections::HashSet;

use subreader::types::{Annotation, BookFormat, Bookmark, CfiAnchor};

#[test]
fn test_bookmark_creation() {
    let bm = Bookmark::new("book-1", "/6/4!/4/2:0");
    assert_eq!(bm.book_id, "book-1");
    assert_eq!(bm.cfi_position, "/6/4!/4/2:0");
    assert!(bm.title.is_none());
}

#[test]
fn test_annotation_creation() {
    let ann = Annotation::new("book-1", "/6/4!/4/2:0", "/6/4!/4/2:10", "#FFFF00FF");
    assert_eq!(ann.book_id, "book-1");
    assert_eq!(ann.color_rgba, "#FFFF00FF");
}

#[test]
fn test_cfi_anchor_new() {
    let anchor = CfiAnchor::new("/6/4[chap01]!/4/2/1:0");
    assert_eq!(anchor.cfi, "/6/4[chap01]!/4/2/1:0");
    let anchor2 = CfiAnchor::new(&String::from("/6/8!/4/2:5"));
    assert_eq!(anchor2.cfi, "/6/8!/4/2:5");
}

#[test]
fn test_cfi_anchor_equality_and_hash() {
    let a1 = CfiAnchor::new("/6/4!/4/2:0");
    let a2 = CfiAnchor::new("/6/4!/4/2:0");
    let a3 = CfiAnchor::new("/6/8!/4/2:0");
    assert_eq!(a1, a2);
    assert_ne!(a1, a3);
    let mut set = HashSet::new();
    set.insert(a1.clone());
    set.insert(a2.clone());
    assert_eq!(set.len(), 1);
    set.insert(a3);
    assert_eq!(set.len(), 2);
}

#[test]
fn test_book_format_display() {
    assert_eq!(BookFormat::Epub.to_string(), "epub");
    assert_eq!(BookFormat::Txt.to_string(), "txt");
}

#[test]
fn test_bookmark_new_generates_unique_ids() {
    let bm1 = Bookmark::new("book-1", "/6/4!/4/2:0");
    let bm2 = Bookmark::new("book-1", "/6/4!/4/2:0");
    assert_ne!(bm1.id, bm2.id);
}

#[test]
fn test_annotation_new_generates_unique_ids() {
    let ann1 = Annotation::new("book-1", "/6/4:0", "/6/4:10", "#FF0000FF");
    let ann2 = Annotation::new("book-1", "/6/4:0", "/6/4:10", "#FF0000FF");
    assert_ne!(ann1.id, ann2.id);
}

#[test]
fn new_ids_have_uuid_shape() {
    let bm = Bookmark::new("b", "c");
    let id: Vec<char> = bm.id.chars().collect();
    assert_eq!(id.len(), 36);
    for i in [8, 13, 18, 23] {
        assert_eq!(id[i], '-');
    }
    assert_eq!(bm.created_at, 0);
}

#[test]
fn state_error_messages() {
    assert_eq!(StorageError::NotFound("book".into()).message(), "Record not found: book");
    assert_eq!(StorageError::Sqlite("busy".into()).message(), "SQLite error: busy");
    assert_eq!(
        StateError::from_storage(StorageError::DatabaseLocked("x".into())).message(),
        "Storage error: Database locked: x"
    );
    assert_eq!(StateError::Serialization("bad".into()).message(), "Serialization error: bad");
}
