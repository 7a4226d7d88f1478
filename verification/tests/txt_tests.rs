use subreader::parse_error::ParseError;
use subreader::txt::{split_into_paragraphs, TxtParser};
use subreader::types::NodeType;

#[test]
fn test_parse_utf8() {
    let content = "Hello, world!\n\nThis is a test.\n\nThird paragraph.";
    let data = content.as_bytes();
    let (nodes, enc) = TxtParser::parse(data).unwrap();
    assert_eq!(enc.encoding_name, "UTF-8");
    assert!(!enc.had_replacements);
    assert_eq!(nodes.len(), 3);
    assert_eq!(nodes[0].node_type, NodeType::Paragraph);
    let text = nodes[0].children[0].text.as_ref().unwrap();
    assert_eq!(text, "Hello, world!");
}

#[test]
fn test_parse_utf8_with_bom() {
    let mut data = vec![0xEF, 0xBB, 0xBF];
    data.extend_from_slice(b"Hello with BOM\n\nSecond paragraph");
    let (nodes, enc) = TxtParser::parse(&data).unwrap();
    assert_eq!(enc.encoding_name, "UTF-8");
    assert_eq!(nodes.len(), 2);
}

#[test]
fn test_parse_utf16le() {
    let text = "Hi\n\nBye";
    let mut data = vec![0xFF, 0xFE];
    for ch in text.encode_utf16() {
        data.extend_from_slice(&ch.to_le_bytes());
    }
    let (nodes, enc) = TxtParser::parse(&data).unwrap();
    assert_eq!(enc.encoding_name, "UTF-16LE");
    assert_eq!(nodes.len(), 2);
}

#[test]
fn test_parse_utf16be() {
    let text = "Hello\n\nWorld";
    let mut data = vec![0xFE, 0xFF];
    for ch in text.encode_utf16() {
        data.extend_from_slice(&ch.to_be_bytes());
    }
    let (nodes, enc) = TxtParser::parse(&data).unwrap();
    assert_eq!(enc.encoding_name, "UTF-16BE");
    assert_eq!(nodes.len(), 2);
}

#[test]
fn test_parse_gbk() {
    let (encoded, _, _) = encoding_rs::GBK.encode("你好\n\n世界");
    let (nodes, enc) = TxtParser::parse(&encoded).unwrap();
    assert!(!enc.encoding_name.is_empty());
    assert!(nodes.len() >= 1);
}

#[test]
fn test_parse_empty() {
    let result = TxtParser::parse(&[]);
    assert!(result.is_err());
    assert!(matches!(result.unwrap_err(), ParseError::EmptyContent));
}

#[test]
fn test_split_paragraphs_basic() {
    let content = "First paragraph.\n\nSecond paragraph.\n\nThird paragraph.";
    let nodes = TxtParser::split_paragraphs(content);
    assert_eq!(nodes.len(), 3);
}

#[test]
fn test_split_paragraphs_windows_newlines() {
    let content = "First paragraph.\r\n\r\nSecond paragraph.\r\n\r\nThird.";
    let nodes = TxtParser::split_paragraphs(content);
    assert_eq!(nodes.len(), 3);
}

#[test]
fn test_split_paragraphs_single() {
    let content = "Just one paragraph with no breaks.";
    let nodes = TxtParser::split_paragraphs(content);
    assert_eq!(nodes.len(), 1);
}

#[test]
fn test_split_paragraphs_empty_lines() {
    let content = "\n\n\nSome text\n\n\n\nMore text\n\n\n";
    let nodes = TxtParser::split_paragraphs(content);
    assert_eq!(nodes.len(), 2);
}

#[test]
fn test_cfi_anchors_sequential() {
    let content = "Para 1\n\nPara 2\n\nPara 3";
    let nodes = TxtParser::split_paragraphs(content);
    assert_eq!(nodes[0].cfi_anchor.as_ref().unwrap(), "/2");
    assert_eq!(nodes[1].cfi_anchor.as_ref().unwrap(), "/4");
    assert_eq!(nodes[2].cfi_anchor.as_ref().unwrap(), "/6");
}

#[test]
fn test_chunked_parsing() {
    let content = "First chunk paragraph.\n\nSecond chunk paragraph.\n\nThird.";
    let data = content.as_bytes();
    let (nodes, enc) = TxtParser::parse_chunked(data, 16).unwrap();
    assert_eq!(enc.encoding_name, "UTF-8");
    assert!(!nodes.is_empty());
}

#[test]
fn test_large_content() {
    let paragraph = "This is a test paragraph with some content. ".repeat(100);
    let content = (0..100).map(|_| paragraph.as_str()).collect::<Vec<_>>().join("\n\n");
    let data = content.as_bytes();
    let (nodes, _) = TxtParser::parse(data).unwrap();
    assert_eq!(nodes.len(), 100);
}

#[test]
fn test_replacement_characters() {
    let data = vec![0xFF, 0xFE, 0x48, 0x00, 0x69, 0x00];
    let (nodes, enc) = TxtParser::parse(&data).unwrap();
    assert_eq!(enc.encoding_name, "UTF-16LE");
    assert!(!nodes.is_empty());
}

#[test]
fn segments_leave_out_the_breaks() {
    let parts = split_into_paragraphs("  a\nb\n\n \n\nc  \r\n");
    assert_eq!(parts, vec!["  a\nb", "c  \r\n"]);
    let parts = split_into_paragraphs("\n\n\n");
    assert!(parts.is_empty());
    let parts = split_into_paragraphs("x\r\ny");
    assert_eq!(parts, vec!["x\r\ny"]);
    let parts = split_into_paragraphs("x\n\ry");
    assert_eq!(parts, vec!["x", "y"]);
    let parts = split_into_paragraphs("x\r\n\r\ny");
    assert_eq!(parts, vec!["x", "y"]);
}

#[test]
fn single_line_break_keeps_one_paragraph() {
    let nodes = TxtParser::split_paragraphs("Line one\r\nLine two");
    assert_eq!(nodes.len(), 1);
    assert_eq!(nodes[0].cfi_anchor.as_deref(), Some("/2"));
    assert_eq!(nodes[0].children[0].text.as_deref(), Some("Line one\r\nLine two"));
    let nodes = TxtParser::split_paragraphs("a\nb\rc");
    assert_eq!(nodes.len(), 1);
    assert_eq!(nodes[0].children[0].text.as_deref(), Some("a\nb\rc"));
}

#[test]
fn empty_lines_around_paragraphs_are_dropped() {
    let nodes = TxtParser::split_paragraphs("\n\n\nSome text\n\n\n\nMore text\n\n\n");
    let texts: Vec<&str> = nodes.iter().map(|n| n.children[0].text.as_deref().unwrap()).collect();
    assert_eq!(texts, vec!["Some text", "More text"]);
    let nodes = TxtParser::split_paragraphs("A.\r\n\r\nB.\r\n\r\nC.");
    let texts: Vec<&str> = nodes.iter().map(|n| n.children[0].text.as_deref().unwrap()).collect();
    assert_eq!(texts, vec!["A.", "B.", "C."]);
}

#[test]
fn paragraph_text_is_trimmed_unicode_whitespace() {
    let nodes = TxtParser::split_paragraphs("\u{3000}Lead\u{a0}\n\n\tTab ");
    assert_eq!(nodes.len(), 2);
    assert_eq!(nodes[0].children[0].text.as_deref(), Some("Lead"));
    assert_eq!(nodes[1].children[0].text.as_deref(), Some("Tab"));
    assert_eq!(nodes[1].cfi_anchor.as_deref(), Some("/4"));
    assert_eq!(nodes[0].children[0].node_type, NodeType::Text);
    assert!(nodes[0].children[0].cfi_anchor.is_none());
}

#[test]
fn bom_utf8_reports_replacements() {
    let data = vec![0xEF, 0xBB, 0xBF, b'o', b'k', 0xFF];
    let enc = TxtParser::detect_and_decode(&data).unwrap();
    assert_eq!(enc.encoding_name, "UTF-8");
    assert_eq!(enc.content, "ok\u{FFFD}");
    assert!(enc.had_replacements);
    assert!(TxtParser::detect_bom(b"plain").is_none());
}

#[test]
fn bom_utf8_with_encoded_replacement_char_reports_none() {
    let data = vec![0xEF, 0xBB, 0xBF, 0xEF, 0xBF, 0xBD];
    let enc = TxtParser::detect_and_decode(&data).unwrap();
    assert_eq!(enc.encoding_name, "UTF-8");
    assert_eq!(enc.content, "\u{FFFD}");
    assert!(!enc.had_replacements);
}

#[test]
fn chunked_parse_of_empty_input_fails() {
    assert!(matches!(TxtParser::parse_chunked(&[], 8), Err(ParseError::EmptyContent)));
    let (nodes, enc) = TxtParser::parse_chunked(b"one\n\ntwo", 3).unwrap();
    assert_eq!(enc.content, "one\n\ntwo");
    assert_eq!(nodes.len(), 2);
    assert!(matches!(TxtParser::parse_chunked(&[], 0), Err(ParseError::EmptyContent)));
}

#[test]
fn chunked_parse_keeps_characters_split_by_chunks() {
    // The detection sample is the first chunk, so the text opens with ASCII
    // and the chunk sizes tried keep the sample within it; the multibyte
    // characters further on straddle chunk boundaries for many of them.
    let content = "Plain opening words\n\ncaf\u{e9} na\u{ef}ve \u{4f60}\u{597d}";
    for size in 1..=21 {
        let (nodes, enc) = TxtParser::parse_chunked(content.as_bytes(), size).unwrap();
        assert_eq!(enc.content, content);
        assert!(!enc.had_replacements);
        assert_eq!(nodes.len(), 2);
    }
}

#[test]
fn parse_error_messages() {
    assert_eq!(ParseError::EmptyContent.message(), "Empty content");
    assert_eq!(ParseError::InvalidEpub("x".into()).message(), "Invalid EPUB file: x");
    assert_eq!(
        ParseError::FileTooLarge { size: 12, max: 10 }.message(),
        "File too large: 12 bytes (max: 10 bytes)"
    );
    assert_eq!(ParseError::DrmProtected.message(), "DRM-protected content detected");
}

#[test]
fn test_txt_full_pipeline() {
    let content = "Chapter 1\n\nFirst paragraph.\n\nSecond paragraph.\n\nChapter 2\n\nMore content.";
    let data = content.as_bytes();
    let (nodes, encoding) = TxtParser::parse(data).unwrap();
    assert_eq!(encoding.encoding_name, "UTF-8");
    assert!(!encoding.had_replacements);
    assert_eq!(nodes.len(), 5);
    for (i, node) in nodes.iter().enumerate() {
        assert_eq!(node.node_type, NodeType::Paragraph);
        assert!(node.cfi_anchor.is_some());
        let expected_cfi = format!("/{}", (i as u32 + 1) * 2);
        assert_eq!(node.cfi_anchor.as_ref().unwrap(), &expected_cfi);
    }
}

#[test]
fn valid_utf8_decodes_to_its_text() {
    let enc = TxtParser::detect_and_decode("caf\u{e9} ok\n\nzwei".as_bytes()).unwrap();
    assert_eq!(enc.content, "caf\u{e9} ok\n\nzwei");
    assert!(!enc.had_replacements);
    let mut data = vec![0xEF, 0xBB, 0xBF];
    data.extend_from_slice("na\u{ef}ve".as_bytes());
    let enc = TxtParser::detect_and_decode(&data).unwrap();
    assert_eq!(enc.content, "na\u{ef}ve");
}
