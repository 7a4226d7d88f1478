use subreader::epub_paths::{
    build_cfi, dir_prefix_of, local_name_of, normalize_path, resolve_toc_href_in, tag_to_node_type,
};
use subreader::types::NodeType;

#[test]
fn test_tag_to_node_type() {
    assert_eq!(tag_to_node_type("p"), NodeType::Paragraph);
    assert_eq!(tag_to_node_type("h1"), NodeType::Heading { level: 1 });
    assert_eq!(tag_to_node_type("h3"), NodeType::Heading { level: 3 });
    assert_eq!(tag_to_node_type("img"), NodeType::Image);
    assert_eq!(tag_to_node_type("a"), NodeType::Link);
    assert_eq!(tag_to_node_type("ul"), NodeType::List { ordered: false });
    assert_eq!(tag_to_node_type("ol"), NodeType::List { ordered: true });
    assert_eq!(tag_to_node_type("em"), NodeType::Emphasis);
    assert_eq!(tag_to_node_type("strong"), NodeType::Strong);
    assert_eq!(tag_to_node_type("code"), NodeType::Code);
    assert_eq!(tag_to_node_type("blockquote"), NodeType::BlockQuote);
    assert_eq!(tag_to_node_type("table"), NodeType::Table);
    assert_eq!(tag_to_node_type("div"), NodeType::Span);
}

#[test]
fn tag_names_are_case_insensitive() {
    assert_eq!(tag_to_node_type("H2"), NodeType::Heading { level: 2 });
    assert_eq!(tag_to_node_type("TD"), NodeType::TableCell);
    assert_eq!(tag_to_node_type("BLOC\u{212A}QUOTE"), NodeType::BlockQuote);
    assert_eq!(tag_to_node_type("Image"), NodeType::Image);
    assert_eq!(tag_to_node_type("br"), NodeType::LineBreak);
    assert_eq!(tag_to_node_type("\u{130}"), NodeType::Span);
}

#[test]
fn test_build_cfi() {
    assert_eq!(build_cfi(&[0]), "/2");
    assert_eq!(build_cfi(&[0, 1]), "/2");
    assert_eq!(build_cfi(&[0, 2]), "/4");
    assert_eq!(build_cfi(&[0, 1, 3]), "/2/6");
}

#[test]
fn cfi_of_empty_stack_and_large_counters() {
    assert_eq!(build_cfi(&[]), "/2");
    assert_eq!(build_cfi(&[9, 4_000_000_000]), "/8000000000");
}

#[test]
fn test_normalize_path_simple() {
    assert_eq!(normalize_path("OEBPS/images/photo.png"), "OEBPS/images/photo.png");
}

#[test]
fn test_normalize_path_with_dot() {
    assert_eq!(normalize_path("OEBPS/./images/photo.png"), "OEBPS/images/photo.png");
}

#[test]
fn test_normalize_path_with_dotdot() {
    assert_eq!(normalize_path("OEBPS/text/../images/photo.png"), "OEBPS/images/photo.png");
}

#[test]
fn test_normalize_path_multiple_dotdot() {
    assert_eq!(normalize_path("OEBPS/text/sub/../../images/photo.png"), "OEBPS/images/photo.png");
}

#[test]
fn test_normalize_path_consecutive_slashes() {
    assert_eq!(normalize_path("OEBPS//images///photo.png"), "OEBPS/images/photo.png");
}

#[test]
fn test_normalize_path_dotdot_at_root() {
    assert_eq!(normalize_path("../images/photo.png"), "images/photo.png");
}

#[test]
fn test_normalize_path_only_dotdot() {
    assert_eq!(normalize_path(".."), "");
}

#[test]
fn test_normalize_path_empty() {
    assert_eq!(normalize_path(""), "");
}

#[test]
fn test_normalize_path_only_dots() {
    assert_eq!(normalize_path("./././."), "");
}

#[test]
fn test_normalize_path_trailing_slash() {
    assert_eq!(normalize_path("OEBPS/images/"), "OEBPS/images");
}

#[test]
fn test_normalize_path_complex() {
    assert_eq!(normalize_path("OEBPS/text/chapter/../sub/./../../images/cover.jpg"), "OEBPS/images/cover.jpg");
}

fn spine() -> Vec<String> {
    vec!["OEBPS/chapter1.xhtml".to_string(), "OEBPS/text/chapter2.xhtml".to_string()]
}

#[test]
fn spine_href_exact_match() {
    assert_eq!(resolve_toc_href_in(&spine(), "OEBPS/", "chapter1.xhtml"), 0);
}

#[test]
fn spine_href_with_fragment() {
    assert_eq!(resolve_toc_href_in(&spine(), "OEBPS/", "chapter1.xhtml#section1"), 0);
}

#[test]
fn spine_href_no_match() {
    assert_eq!(resolve_toc_href_in(&spine(), "OEBPS/", "nonexistent.xhtml"), -1);
}

#[test]
fn spine_href_empty_string() {
    assert_eq!(resolve_toc_href_in(&spine(), "OEBPS/", ""), -1);
}

#[test]
fn spine_href_fragment_only() {
    assert_eq!(resolve_toc_href_in(&spine(), "OEBPS/", "#section1"), -1);
}

#[test]
fn toc_href_falls_back_to_base_name_and_absolute() {
    assert_eq!(resolve_toc_href_in(&spine(), "OEBPS/", "chapter2.xhtml"), 1);
    assert_eq!(resolve_toc_href_in(&spine(), "", "/OEBPS/chapter1.xhtml"), -1);
    let abs = vec!["/x/a.xhtml".to_string()];
    assert_eq!(resolve_toc_href_in(&abs, "OEBPS/", "/x/a.xhtml#p"), 0);
}

#[test]
fn names_and_bases() {
    assert_eq!(local_name_of("dc:title"), "title");
    assert_eq!(local_name_of("title"), "title");
    assert_eq!(local_name_of("a:b:c"), "c");
    assert_eq!(dir_prefix_of("OEBPS/content.opf"), "OEBPS/");
    assert_eq!(dir_prefix_of("content.opf"), "");
    assert_eq!(dir_prefix_of("a/b/c.opf"), "a/b/");
}

#[test]
fn normalizing_twice_changes_nothing() {
    for p in ["OEBPS/text/../images/./photo.png", "../a//b/", "./././.", "", "a/../..", "x/y/z"] {
        let once = normalize_path(p);
        assert_eq!(normalize_path(&once), once);
    }
}

#[test]
fn tag_case_does_not_matter() {
    for t in ["P", "H2", "Img", "BLOCKQUOTE", "\u{212A}bd", "Span"] {
        assert_eq!(tag_to_node_type(t), tag_to_node_type(&t.to_lowercase()));
    }
}
