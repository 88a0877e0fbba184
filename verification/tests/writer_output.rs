use rustdoc_markdown::writer::HeaderLevel;
use rustdoc_markdown::writer::MarkdownWriter;

#[test]
fn bold_wraps_text() {
    let mut w = MarkdownWriter::new();
    w.bold("hi");
    assert_eq!(w.output(), "**hi**");
}

#[test]
fn bold_empty_is_noop() {
    let mut w = MarkdownWriter::new();
    w.bold("");
    assert_eq!(w.output(), "");
}

#[test]
fn header_levels() {
    let mut w = MarkdownWriter::new();
    w.header(HeaderLevel::One, "Title");
    assert_eq!(w.output(), "# Title");
    let mut w6 = MarkdownWriter::new();
    w6.header(HeaderLevel::Six, "Deep");
    assert_eq!(w6.output(), "###### Deep");
}

#[test]
fn header_text_is_not_escaped() {
    let mut w = MarkdownWriter::new();
    w.header(HeaderLevel::Two, "a*b");
    assert_eq!(w.output(), "## a*b");
}

#[test]
fn escaping_marks_every_special_character() {
    let mut w = MarkdownWriter::new();
    w.write_escaped_raw("a*b(c)_[d]#+-!~`{}<>\\");
    assert_eq!(w.output(), "a\\*b\\(c\\)\\_\\[d\\]\\#\\+\\-\\!\\~\\`\\{\\}\\<\\>\\\\");
}

#[test]
fn escaping_is_identity_without_specials() {
    let mut w = MarkdownWriter::new();
    w.write_escaped("hello world, nothing special here.");
    assert_eq!(w.output(), "hello world, nothing special here.");
}

#[test]
fn hyperlink_kept_verbatim_specials_around_it_escaped() {
    let mut w = MarkdownWriter::new();
    w.write_escaped("see https://example.com/a_b (really)!");
    assert_eq!(w.output(), "see https://example.com/a_b \\(really\\)\\!");
    assert!(w.output().contains("https://example.com/a_b"));
}

#[test]
fn link_with_destination_escapes_text_only() {
    let mut w = MarkdownWriter::new();
    w.link("a*b", "https://example.com");
    assert_eq!(w.output(), "[a\\*b]https://example.com");
}

#[test]
fn link_empty_text_is_noop() {
    let mut w = MarkdownWriter::new();
    w.link("", "https://example.com");
    assert_eq!(w.output(), "");
}

#[test]
fn link_empty_destination_writes_escaped_text_without_brackets() {
    let mut w = MarkdownWriter::new();
    w.link("a*b", "");
    assert_eq!(w.output(), "a\\*b");
}

#[test]
fn anchor_percent_encodes_name() {
    let mut w = MarkdownWriter::new();
    w.anchor("hello world");
    assert_eq!(w.output(), "<a name=\"hello%20world\"></a>");
}

#[test]
fn anchor_header_combines_anchor_newline_header() {
    let mut w = MarkdownWriter::new();
    w.anchor_header(HeaderLevel::Three, "Structs", "structs");
    assert_eq!(w.output(), "<a name=\"structs\"></a>\n### Structs");
}

#[test]
fn newline_and_newlines() {
    let mut w = MarkdownWriter::new();
    w.newline();
    w.newlines(3);
    w.newlines(0);
    assert_eq!(w.output(), "\n\n\n\n");
}

#[test]
fn legacy_code_block_trims_and_reindents() {
    let mut w = MarkdownWriter::new();
    w.legacy_code_block("  fn x() {\n    body\n}  \n");
    assert_eq!(w.output(), "\tfn x() {\n\t    body\n\t}");
}

#[test]
fn fenced_code_block_with_language() {
    let mut w = MarkdownWriter::new();
    w.fenced_code_block("let x = 1;", Some("rust"));
    assert_eq!(w.output(), "```rust\nlet x = 1;\n```");
}

#[test]
fn fenced_code_block_without_language() {
    let mut w = MarkdownWriter::new();
    w.fenced_code_block("raw", None);
    assert_eq!(w.output(), "```\nraw\n```");
}

#[test]
fn writer_accumulates_in_order() {
    let mut w = MarkdownWriter::new();
    w.header(HeaderLevel::One, "Doc");
    w.newlines(2);
    w.bold("name");
    w.newline();
    w.fenced_code_block("pub struct S", Some("rust"));
    assert_eq!(w.output(), "# Doc\n\n**name**\n```rust\npub struct S\n```");
}

#[test]
fn several_hyperlinks_in_one_text_all_kept() {
    let mut w = MarkdownWriter::new();
    w.write_escaped("see https://a.io/x_y and https://b.io/p+q now!");
    assert_eq!(w.output(), "see https://a.io/x_y and https://b.io/p+q now\\!");
}

#[test]
fn legacy_code_block_trims_unicode_white_space() {
    let mut w = MarkdownWriter::new();
    w.legacy_code_block("\u{3000}\u{2028}code\u{a0} ");
    assert_eq!(w.output(), "\tcode");
}

#[test]
fn legacy_code_block_of_blank_code_writes_nothing() {
    let mut w = MarkdownWriter::new();
    w.legacy_code_block("  \n\t ");
    assert_eq!(w.output(), "");
}
