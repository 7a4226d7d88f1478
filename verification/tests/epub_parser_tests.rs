use std::io::{Cursor, Write};

use subreader::epub_parser::{parse_xhtml_to_dom, EpubParser};
use subreader::parse_error::ParseError;
use subreader::types::{BookFormat, NodeType};
use zip::write::SimpleFileOptions;
use zip::ZipWriter;

fn zip_of(files: &[(&str, &[u8])]) -> Vec<u8> {
    let mut zip = ZipWriter::new(Cursor::new(Vec::new()));
    let options = SimpleFileOptions::default();
    for (name, data) in files {
        zip.start_file(*name, options).unwrap();
        zip.write_all(data).unwrap();
    }
    zip.finish().unwrap().into_inner()
}

const CONTAINER: &[u8] = br#"<?xml version="1.0" encoding="UTF-8"?>
<container version="1.0" xmlns="urn:oasis:names:tc:opendocument:xmlns:container">
  <rootfiles>
    <rootfile full-path="OEBPS/content.opf" media-type="application/oebps-package+xml"/>
  </rootfiles>
</container>"#;

fn create_test_epub() -> Vec<u8> {
    zip_of(&[
        ("mimetype", b"application/epub+zip"),
        ("META-INF/container.xml", CONTAINER),
        (
            "OEBPS/content.opf",
            br#"<?xml version="1.0" encoding="UTF-8"?>
<package xmlns="http://www.idpf.org/2007/opf" version="3.0" unique-identifier="uid">
  <metadata xmlns:dc="http://purl.org/dc/elements/1.1/">
    <dc:title>Test Book</dc:title>
    <dc:creator>Test Author</dc:creator>
    <dc:language>en</dc:language>
    <dc:identifier id="uid">test-isbn-123</dc:identifier>
    <dc:date>2024-01-01</dc:date>
  </metadata>
  <manifest>
    <item id="nav" href="nav.xhtml" media-type="application/xhtml+xml" properties="nav"/>
    <item id="chap01" href="chapter01.xhtml" media-type="application/xhtml+xml"/>
  </manifest>
  <spine>
    <itemref idref="chap01"/>
  </spine>
</package>"#,
        ),
        (
            "OEBPS/nav.xhtml",
            br#"<?xml version="1.0" encoding="UTF-8"?>
<html xmlns="http://www.w3.org/1999/xhtml" xmlns:epub="http://www.idpf.org/2007/ops">
<head><title>Navigation</title></head>
<body>
  <nav epub:type="toc">
    <ol>
      <li><a href="chapter01.xhtml">Chapter 1: Introduction</a></li>
    </ol>
  </nav>
</body>
</html>"#,
        ),
        (
            "OEBPS/chapter01.xhtml",
            br#"<?xml version="1.0" encoding="UTF-8"?>
<html xmlns="http://www.w3.org/1999/xhtml">
<head><title>Chapter 1</title></head>
<body>
  <h1>Chapter 1: Introduction</h1>
  <p>This is the first paragraph of the test book.</p>
  <p>This is the <em>second</em> paragraph with <strong>formatting</strong>.</p>
</body>
</html>"#,
        ),
    ])
}

fn create_test_epub_with_images() -> Vec<u8> {
    let fake_png: &[u8] = b"FAKE_PNG_DATA_FOR_TESTING";
    let fake_jpg: &[u8] = b"FAKE_JPG_DATA_FOR_TESTING";
    zip_of(&[
        ("mimetype", b"application/epub+zip"),
        ("META-INF/container.xml", CONTAINER),
        (
            "OEBPS/content.opf",
            br#"<?xml version="1.0" encoding="UTF-8"?>
<package xmlns="http://www.idpf.org/2007/opf" version="3.0" unique-identifier="uid">
  <metadata xmlns:dc="http://purl.org/dc/elements/1.1/">
    <dc:title>Image Test Book</dc:title>
    <dc:identifier id="uid">test-img-001</dc:identifier>
    <dc:language>en</dc:language>
  </metadata>
  <manifest>
    <item id="nav" href="nav.xhtml" media-type="application/xhtml+xml" properties="nav"/>
    <item id="chap01" href="text/chapter01.xhtml" media-type="application/xhtml+xml"/>
    <item id="img_direct" href="images/direct.png" media-type="image/png"/>
    <item id="img_cover" href="images/cover.jpg" media-type="image/jpeg"/>
    <item id="img_unique" href="images/unique_name.png" media-type="image/png"/>
  </manifest>
  <spine>
    <itemref idref="chap01"/>
  </spine>
</package>"#,
        ),
        (
            "OEBPS/nav.xhtml",
            br#"<?xml version="1.0" encoding="UTF-8"?>
<html xmlns="http://www.w3.org/1999/xhtml" xmlns:epub="http://www.idpf.org/2007/ops">
<head><title>Nav</title></head>
<body>
  <nav epub:type="toc"><ol><li><a href="text/chapter01.xhtml">Ch 1</a></li></ol></nav>
</body>
</html>"#,
        ),
        (
            "OEBPS/text/chapter01.xhtml",
            br#"<?xml version="1.0" encoding="UTF-8"?>
<html xmlns="http://www.w3.org/1999/xhtml">
<head><title>Chapter 1</title></head>
<body>
  <h1>Chapter 1</h1>
  <p>Text with image:</p>
  <img src="../images/direct.png" alt="test"/>
</body>
</html>"#,
        ),
        ("OEBPS/images/direct.png", fake_png),
        ("OEBPS/images/cover.jpg", fake_jpg),
        ("OEBPS/images/unique_name.png", fake_png),
    ])
}

#[test]
fn test_parse_xhtml_simple() {
    let xhtml = r#"<?xml version="1.0" encoding="UTF-8"?>
<html xmlns="http://www.w3.org/1999/xhtml">
<head><title>Test</title></head>
<body>
  <h1>Chapter 1</h1>
  <p>Hello, <em>world</em>!</p>
</body>
</html>"#;

    let nodes = parse_xhtml_to_dom(xhtml).unwrap();
    assert!(!nodes.is_empty());
    assert_eq!(nodes[0].node_type, NodeType::Heading { level: 1 });
    assert_eq!(nodes[1].node_type, NodeType::Paragraph);
}

#[test]
fn test_parse_xhtml_with_attributes() {
    let xhtml = r#"<?xml version="1.0" encoding="UTF-8"?>
<html xmlns="http://www.w3.org/1999/xhtml">
<head><title>Test</title></head>
<body>
  <p>Click <a href="http://example.com">here</a></p>
  <img src="image.png" alt="test"/>
</body>
</html>"#;

    let nodes = parse_xhtml_to_dom(xhtml).unwrap();
    assert!(!nodes.is_empty());
}

#[test]
fn test_parse_xhtml_empty_body() {
    let xhtml = r#"<?xml version="1.0" encoding="UTF-8"?>
<html xmlns="http://www.w3.org/1999/xhtml">
<head><title>Test</title></head>
<body>
</body>
</html>"#;

    let nodes = parse_xhtml_to_dom(xhtml).unwrap();
    assert!(nodes.is_empty());
}

#[test]
fn xhtml_nodes_carry_cfi_text_and_attributes() {
    let xhtml = r#"<html><body><p>Hi <em>there</em></p><img src="a.png"/></body></html>"#;
    let nodes = parse_xhtml_to_dom(xhtml).unwrap();
    assert_eq!(nodes.len(), 2);
    assert_eq!(nodes[0].cfi_anchor.as_deref(), Some("/2"));
    assert_eq!(nodes[0].children.len(), 2);
    assert_eq!(nodes[0].children[0].node_type, NodeType::Text);
    assert_eq!(nodes[0].children[0].text.as_deref(), Some("Hi "));
    assert_eq!(nodes[0].children[0].cfi_anchor.as_deref(), Some("/2"));
    assert_eq!(nodes[0].children[1].node_type, NodeType::Emphasis);
    assert_eq!(nodes[0].children[1].cfi_anchor.as_deref(), Some("/4"));
    assert_eq!(nodes[0].children[1].children[0].cfi_anchor.as_deref(), Some("/4/2"));
    assert_eq!(nodes[1].node_type, NodeType::Image);
    assert_eq!(nodes[1].cfi_anchor.as_deref(), Some("/2"));
    assert_eq!(nodes[1].attributes, vec![("src".to_string(), "a.png".to_string())]);
}

#[test]
fn malformed_xhtml_is_invalid_xml() {
    match parse_xhtml_to_dom("<html><body><p>x</q></body></html>") {
        Err(ParseError::InvalidXml(msg)) => assert!(msg.starts_with("XHTML content: ")),
        other => panic!("unexpected {:?}", other),
    }
}

#[test]
fn test_epub_parser_empty_data() {
    let result = EpubParser::new(vec![]);
    assert!(result.is_err());
    assert!(matches!(result.unwrap_err(), ParseError::EmptyContent));
}

#[test]
fn test_epub_parser_invalid_zip() {
    let result = EpubParser::new(vec![1, 2, 3, 4]);
    assert!(result.is_err());
    assert!(matches!(result.unwrap_err(), ParseError::InvalidZip(_)));
}

#[test]
fn test_epub_parse_metadata() {
    let epub_data = create_test_epub();
    let mut parser = EpubParser::new(epub_data).unwrap();
    let metadata = parser.parse_metadata().unwrap();

    assert_eq!(metadata.title, "Test Book");
    assert_eq!(metadata.authors, vec!["Test Author"]);
    assert_eq!(metadata.language, Some("en".to_string()));
    assert_eq!(metadata.publish_date, Some("2024-01-01".to_string()));
    assert_eq!(metadata.format, BookFormat::Epub);
    assert!(metadata.file_hash.is_some());
    assert!(metadata.file_size.is_some());
}

#[test]
fn metadata_records_identifier_digest_and_size() {
    let epub_data = create_test_epub();
    let size = epub_data.len() as u64;
    let mut parser = EpubParser::new(epub_data).unwrap();
    let metadata = parser.parse_metadata().unwrap();
    assert_eq!(metadata.id, "test-isbn-123");
    assert_eq!(metadata.file_size, Some(size));
    let hash = metadata.file_hash.unwrap();
    assert_eq!(hash.len(), 64);
    assert!(hash.chars().all(|c| c.is_ascii_hexdigit() && !c.is_ascii_uppercase()));
}

#[test]
fn test_epub_parse_toc() {
    let epub_data = create_test_epub();
    let mut parser = EpubParser::new(epub_data).unwrap();
    let toc = parser.parse_toc().unwrap();

    assert!(!toc.is_empty());
    assert_eq!(toc[0].title, "Chapter 1: Introduction");
    assert_eq!(toc[0].href, "chapter01.xhtml");
}

#[test]
fn test_epub_get_spine() {
    let epub_data = create_test_epub();
    let mut parser = EpubParser::new(epub_data).unwrap();
    let spine = parser.get_spine().unwrap();

    assert_eq!(spine.len(), 1);
    assert!(spine[0].contains("chapter01.xhtml"));
}

#[test]
fn test_epub_parse_chapter() {
    let epub_data = create_test_epub();
    let mut parser = EpubParser::new(epub_data).unwrap();
    let spine = parser.get_spine().unwrap();
    let nodes = parser.parse_chapter(&spine[0]).unwrap();

    assert!(!nodes.is_empty());
    assert!(nodes.len() >= 3);
    assert_eq!(nodes[0].node_type, NodeType::Heading { level: 1 });
    assert_eq!(nodes[1].node_type, NodeType::Paragraph);
    assert_eq!(nodes[2].node_type, NodeType::Paragraph);
    for node in &nodes {
        assert!(node.cfi_anchor.is_some());
    }
}

#[test]
fn test_resolve_toc_href_exact_match() {
    let epub_data = create_test_epub();
    let mut parser = EpubParser::new(epub_data).unwrap();
    let idx = parser.resolve_toc_href("chapter01.xhtml").unwrap();
    assert_eq!(idx, 0);
}

#[test]
fn test_resolve_toc_href_with_fragment() {
    let epub_data = create_test_epub();
    let mut parser = EpubParser::new(epub_data).unwrap();
    let idx = parser.resolve_toc_href("chapter01.xhtml#section2").unwrap();
    assert_eq!(idx, 0);
}

#[test]
fn test_resolve_toc_href_no_match() {
    let epub_data = create_test_epub();
    let mut parser = EpubParser::new(epub_data).unwrap();
    let idx = parser.resolve_toc_href("nonexistent.xhtml").unwrap();
    assert_eq!(idx, -1);
}

#[test]
fn test_resolve_toc_href_empty_string() {
    let epub_data = create_test_epub();
    let mut parser = EpubParser::new(epub_data).unwrap();
    let idx = parser.resolve_toc_href("").unwrap();
    assert_eq!(idx, -1);
}

#[test]
fn test_resolve_toc_href_fragment_only() {
    let epub_data = create_test_epub();
    let mut parser = EpubParser::new(epub_data).unwrap();
    let idx = parser.resolve_toc_href("#section1").unwrap();
    assert_eq!(idx, -1);
}

#[test]
fn test_get_resource_strategy1_direct_path() {
    let epub_data = create_test_epub_with_images();
    let mut parser = EpubParser::new(epub_data).unwrap();
    let data = parser.get_resource("OEBPS/images/direct.png").unwrap();
    assert_eq!(data, b"FAKE_PNG_DATA_FOR_TESTING");
}

#[test]
fn test_get_resource_strategy2_opf_base_prefix() {
    let epub_data = create_test_epub_with_images();
    let mut parser = EpubParser::new(epub_data).unwrap();
    let data = parser.get_resource("images/cover.jpg").unwrap();
    assert_eq!(data, b"FAKE_JPG_DATA_FOR_TESTING");
}

#[test]
fn test_get_resource_strategy3_relative_path_normalization() {
    let epub_data = create_test_epub_with_images();
    let mut parser = EpubParser::new(epub_data).unwrap();
    let data = parser.get_resource("text/../images/direct.png").unwrap();
    assert_eq!(data, b"FAKE_PNG_DATA_FOR_TESTING");
}

#[test]
fn test_get_resource_strategy4_filename_match() {
    let epub_data = create_test_epub_with_images();
    let mut parser = EpubParser::new(epub_data).unwrap();
    let data = parser.get_resource("unique_name.png").unwrap();
    assert_eq!(data, b"FAKE_PNG_DATA_FOR_TESTING");
}

#[test]
fn test_get_resource_not_found() {
    let epub_data = create_test_epub_with_images();
    let mut parser = EpubParser::new(epub_data).unwrap();
    let result = parser.get_resource("nonexistent_image.png");
    assert!(result.is_err());
    match result.unwrap_err() {
        ParseError::InvalidEpub(msg) => {
            assert!(msg.contains("Resource not found"));
        }
        other => panic!("Expected InvalidEpub, got: {:?}", other),
    }
}

#[test]
fn test_get_resource_empty_href() {
    let epub_data = create_test_epub_with_images();
    let mut parser = EpubParser::new(epub_data).unwrap();
    let result = parser.get_resource("");
    assert!(result.is_err());
    match result.unwrap_err() {
        ParseError::InvalidEpub(msg) => {
            assert!(msg.contains("Empty resource href"));
        }
        other => panic!("Expected InvalidEpub, got: {:?}", other),
    }
}

#[test]
fn test_get_resource_multiple_strategies_fallthrough() {
    let epub_data = create_test_epub_with_images();
    let mut parser = EpubParser::new(epub_data).unwrap();
    let data = parser.get_resource("images/cover.jpg").unwrap();
    assert_eq!(data, b"FAKE_JPG_DATA_FOR_TESTING");
}

#[test]
fn resource_error_names_the_href() {
    let mut parser = EpubParser::new(create_test_epub_with_images()).unwrap();
    match parser.get_resource("x/missing.gif") {
        Err(ParseError::InvalidEpub(msg)) => assert_eq!(msg, "Resource not found in archive: x/missing.gif"),
        other => panic!("unexpected {:?}", other),
    }
}

#[test]
fn missing_container_is_reported() {
    let data = zip_of(&[("mimetype", b"application/epub+zip")]);
    match EpubParser::new(data) {
        Err(ParseError::InvalidEpub(msg)) => assert_eq!(
            msg,
            "File not found in archive: META-INF/container.xml: specified file not found in archive"
        ),
        other => panic!("unexpected {:?}", other.map(|_| ())),
    }
}

#[test]
fn container_without_rootfile_is_reported() {
    let data = zip_of(&[("META-INF/container.xml", b"<container><rootfiles/></container>")]);
    match EpubParser::new(data) {
        Err(ParseError::InvalidEpub(msg)) => assert_eq!(msg, "No rootfile found in container.xml"),
        other => panic!("unexpected {:?}", other.map(|_| ())),
    }
}

#[test]
fn container_not_utf8_is_reported() {
    let data = zip_of(&[("META-INF/container.xml", &[0x3c, 0xff, 0xfe])]);
    match EpubParser::new(data) {
        Err(ParseError::InvalidEpub(msg)) => assert!(msg.starts_with("Invalid UTF-8 in container.xml: ")),
        other => panic!("unexpected {:?}", other.map(|_| ())),
    }
}

#[test]
fn missing_opf_fails_each_request() {
    let data = zip_of(&[("META-INF/container.xml", CONTAINER)]);
    let mut parser = EpubParser::new(data).unwrap();
    match parser.parse_metadata() {
        Err(ParseError::InvalidEpub(msg)) => assert_eq!(
            msg,
            "File not found in archive: OEBPS/content.opf: specified file not found in archive"
        ),
        other => panic!("unexpected {:?}", other),
    }
    assert!(parser.get_spine().is_err());
}

#[test]
fn cover_image_by_id_and_missing_cover() {
    let mut parser = EpubParser::new(create_test_epub_with_images()).unwrap();
    assert_eq!(parser.get_cover_image("img_cover").unwrap(), b"FAKE_JPG_DATA_FOR_TESTING");
    match parser.get_cover_image("nope") {
        Err(ParseError::InvalidEpub(msg)) => assert_eq!(msg, "Cover item 'nope' not found in manifest"),
        other => panic!("unexpected {:?}", other),
    }
}

#[test]
fn ncx_toc_is_read_when_no_nav() {
    let data = zip_of(&[
        ("META-INF/container.xml", CONTAINER),
        (
            "OEBPS/content.opf",
            br#"<package><metadata><dc:title>N</dc:title></metadata>
<manifest><item id="ncx" href="toc.ncx" media-type="application/x-dtbncx+xml"/>
<item id="c1" href="c1.xhtml" media-type="application/xhtml+xml"/></manifest>
<spine toc="ncx"><itemref idref="c1"/></spine></package>"#,
        ),
        (
            "OEBPS/toc.ncx",
            br#"<ncx><navMap>
<navPoint id="p1"><navLabel><text>One</text></navLabel><content src="c1.xhtml"/>
<navPoint id="p2"><navLabel><text>One.A</text></navLabel><content src="c1.xhtml#a"/></navPoint>
</navPoint></navMap></ncx>"#,
        ),
    ]);
    let mut parser = EpubParser::new(data).unwrap();
    let toc = parser.parse_toc().unwrap();
    // The outer point ends after its child, and takes the last title and
    // href read.
    assert_eq!(toc.len(), 1);
    assert_eq!(toc[0].title, "One.A");
    assert_eq!(toc[0].href, "c1.xhtml#a");
    assert_eq!(toc[0].level, 0);
    assert_eq!(toc[0].children.len(), 1);
    assert_eq!(toc[0].children[0].title, "One.A");
    assert_eq!(toc[0].children[0].level, 1);
    assert_eq!(parser.resolve_toc_href("c1.xhtml#a").unwrap(), 0);
}

#[test]
fn no_toc_in_manifest_is_reported() {
    let data = zip_of(&[
        ("META-INF/container.xml", CONTAINER),
        ("OEBPS/content.opf", b"<package><manifest/><spine/></package>"),
    ]);
    let mut parser = EpubParser::new(data).unwrap();
    match parser.parse_toc() {
        Err(ParseError::InvalidEpub(msg)) => assert_eq!(msg, "No TOC (NCX or NAV) found in manifest"),
        other => panic!("unexpected {:?}", other),
    }
    let meta = parser.parse_metadata().unwrap();
    assert_eq!(meta.id, meta.file_hash.unwrap());
}

fn create_pipeline_epub() -> Vec<u8> {
    zip_of(&[
        ("mimetype", b"application/epub+zip"),
        ("META-INF/container.xml", CONTAINER),
        (
            "OEBPS/content.opf",
            br#"<?xml version="1.0" encoding="UTF-8"?>
<package xmlns="http://www.idpf.org/2007/opf" version="3.0" unique-identifier="uid">
  <metadata xmlns:dc="http://purl.org/dc/elements/1.1/">
    <dc:title>Integration Test Book</dc:title>
    <dc:creator>Test Author</dc:creator>
    <dc:language>en</dc:language>
    <dc:identifier id="uid">integration-test-001</dc:identifier>
    <dc:date>2024-06-15</dc:date>
  </metadata>
  <manifest>
    <item id="nav" href="nav.xhtml" media-type="application/xhtml+xml" properties="nav"/>
    <item id="chap01" href="chapter01.xhtml" media-type="application/xhtml+xml"/>
    <item id="chap02" href="chapter02.xhtml" media-type="application/xhtml+xml"/>
  </manifest>
  <spine>
    <itemref idref="chap01"/>
    <itemref idref="chap02"/>
  </spine>
</package>"#,
        ),
        (
            "OEBPS/nav.xhtml",
            br#"<?xml version="1.0" encoding="UTF-8"?>
<html xmlns="http://www.w3.org/1999/xhtml" xmlns:epub="http://www.idpf.org/2007/ops">
<head><title>Navigation</title></head>
<body>
  <nav epub:type="toc">
    <ol>
      <li><a href="chapter01.xhtml">Chapter 1: Getting Started</a></li>
      <li><a href="chapter02.xhtml">Chapter 2: Advanced Topics</a></li>
    </ol>
  </nav>
</body>
</html>"#,
        ),
        (
            "OEBPS/chapter01.xhtml",
            br#"<?xml version="1.0" encoding="UTF-8"?>
<html xmlns="http://www.w3.org/1999/xhtml">
<head><title>Chapter 1</title></head>
<body>
  <h1>Chapter 1: Getting Started</h1>
  <p>Welcome to the integration test book. This is the first paragraph.</p>
  <p>This paragraph contains <em>emphasized</em> and <strong>bold</strong> text.</p>
  <blockquote>This is a blockquote for testing.</blockquote>
</body>
</html>"#,
        ),
        (
            "OEBPS/chapter02.xhtml",
            br#"<?xml version="1.0" encoding="UTF-8"?>
<html xmlns="http://www.w3.org/1999/xhtml">
<head><title>Chapter 2</title></head>
<body>
  <h1>Chapter 2: Advanced Topics</h1>
  <p>This chapter covers advanced topics.</p>
  <ul>
    <li>Item one</li>
    <li>Item two</li>
    <li>Item three</li>
  </ul>
  <p>End of chapter 2.</p>
</body>
</html>"#,
        ),
    ])
}

#[test]
fn test_epub_full_pipeline() {
    let epub_data = create_pipeline_epub();
    let mut parser = EpubParser::new(epub_data).unwrap();

    let metadata = parser.parse_metadata().unwrap();
    assert_eq!(metadata.title, "Integration Test Book");
    assert_eq!(metadata.authors, vec!["Test Author"]);
    assert_eq!(metadata.language, Some("en".to_string()));
    assert!(metadata.file_hash.is_some());

    let toc = parser.parse_toc().unwrap();
    assert_eq!(toc.len(), 2);
    assert_eq!(toc[0].title, "Chapter 1: Getting Started");
    assert_eq!(toc[1].title, "Chapter 2: Advanced Topics");

    let spine = parser.get_spine().unwrap();
    assert_eq!(spine.len(), 2);

    for path in &spine {
        let nodes = parser.parse_chapter(path).unwrap();
        assert!(!nodes.is_empty());
        for node in &nodes {
            assert!(node.cfi_anchor.is_some());
        }
    }

    let ch1_nodes = parser.parse_chapter(&spine[0]).unwrap();
    assert_eq!(ch1_nodes[0].node_type, NodeType::Heading { level: 1 });
    assert_eq!(ch1_nodes[1].node_type, NodeType::Paragraph);
    assert_eq!(ch1_nodes[2].node_type, NodeType::Paragraph);
    assert_eq!(ch1_nodes[3].node_type, NodeType::BlockQuote);

    let ch2_nodes = parser.parse_chapter(&spine[1]).unwrap();
    let has_list = ch2_nodes.iter().any(|n| matches!(n.node_type, NodeType::List { .. }));
    assert!(has_list);
}

#[test]
fn toc_hrefs_resolve_to_spine_entries() {
    let mut parser = EpubParser::new(create_pipeline_epub()).unwrap();
    assert_eq!(parser.resolve_toc_href("chapter02.xhtml#x").unwrap(), 1);
    assert_eq!(parser.resolve_toc_href("/OEBPS/chapter01.xhtml").unwrap(), -1);
    assert_eq!(parser.resolve_toc_href("chapter01.xhtml").unwrap(), 0);
}
