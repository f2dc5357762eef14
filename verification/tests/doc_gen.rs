use dustdoc::{generate_markdown, markdown_to_html, parse_str};

#[test]
fn parse_and_generate_basic() {
    let src = r#"//! Module description.

/// A simple forge.
forge MyForge {
    /// The answer.
    answer: Int,
}

/// Creates a value.
process make_value() -> MyForge {
    // body omitted
}
 "#;
    let module = parse_str(src);
    // one inner doc and two items
    assert_eq!(module.module_docs.len(), 1);
    assert_eq!(module.items.len(), 2);
    // verify names
    assert_eq!(module.items[0].name, "MyForge");
    assert_eq!(module.items[1].name, "make_value");
    // verify docs
    assert!(module.items[0].docs[0].contains("A simple forge"));
    let md = generate_markdown(&module, "test.dust");
    // markdown contains heading and code fences
    assert!(md.contains("# Documentation for `test.dust`"));
    assert!(md.contains("## forge `MyForge`"));
    assert!(md.contains("```dpl"));
    // convert to html just to ensure the function executes
    let html = markdown_to_html(&md);
    // Check for actual HTML output format
    assert!(html.contains("<h2>forge"));
}

#[test]
fn parse_block_docs() {
    let src = r#"/*!
This module exposes an API.
*/
/**
Multi‑line doc comment for a shape.

It has multiple paragraphs.
*/
shape Widget {}
"#;
    let module = parse_str(src);
    assert_eq!(module.module_docs.len(), 1);
    assert_eq!(module.items.len(), 1);
    assert_eq!(module.items[0].kind, "shape");
    assert!(module.items[0].docs[0].contains("Multi‑line doc comment"));
}

#[test]
fn empty_input_yields_empty_module() {
    let module = parse_str("");
    assert_eq!(module.module_docs.len(), 0);
    assert_eq!(module.items.len(), 0);
}

#[test]
fn every_line_kind_is_handled() {
    // one line of each class: module block doc, item block doc, module line
    // doc, item line doc, plain comment, blank, code
    let src = "/*! module block */\n/** item block */\n//! module line\n/// item line\n// plain\n\nforge F {\n";
    let module = parse_str(src);
    assert_eq!(module.module_docs, vec!["module block", "module line"]);
    assert_eq!(module.items.len(), 1);
    assert_eq!(module.items[0].docs, vec!["item block", "item line"]);
    assert_eq!(module.items[0].kind, "forge");
    assert_eq!(module.items[0].name, "F");
}

#[test]
fn undocumented_declaration_makes_no_item() {
    let src = "forge Plain {\n}\nprocess run() {\n}\n";
    let module = parse_str(src);
    assert_eq!(module.items.len(), 0);
    assert_eq!(module.module_docs.len(), 0);
}

#[test]
fn docs_persist_across_undocumented_code() {
    // the doc lines survive two intervening unrecognised code lines and are
    // consumed by the next recognised declaration
    let src = "/// Doc one.\n/// Doc two.\nlet x = 1;\ny += 2;\nbind target {\n";
    let module = parse_str(src);
    assert_eq!(module.module_docs.len(), 0);
    assert_eq!(module.items.len(), 1);
    assert_eq!(module.items[0].kind, "bind");
    assert_eq!(module.items[0].name, "target");
    assert_eq!(module.items[0].docs, vec!["Doc one.", "Doc two."]);
}

#[test]
fn trailing_docs_flush_to_module() {
    let src = "forge F {\n}\n/// Orphan doc.\n";
    let module = parse_str(src);
    assert_eq!(module.items.len(), 0);
    assert_eq!(module.module_docs, vec!["Orphan doc."]);
}

#[test]
fn unterminated_block_comment_flushes_at_eof() {
    let one = parse_str("/*!\nstill open module doc");
    assert_eq!(one.module_docs, vec!["still open module doc"]);
    let other = parse_str("/**\nstill open item doc");
    assert_eq!(other.module_docs, vec!["still open item doc"]);
    assert_eq!(other.items.len(), 0);
}

#[test]
fn round_trip_two_items() {
    let src = "//! Module description.\n/// A simple forge.\nforge MyForge {\n/// Creates a value.\nprocess make_value() -> MyForge {\n";
    let module = parse_str(src);
    assert_eq!(module.module_docs.len(), 1);
    assert_eq!(module.module_docs[0], "Module description.");
    assert_eq!(module.items.len(), 2);
    assert_eq!(module.items[0].name, "MyForge");
    assert_eq!(module.items[1].name, "make_value");
    assert!(module.items[0].docs[0].contains("A simple forge"));
}

#[test]
fn one_line_and_multi_line_block_agree() {
    let one = parse_str("/*! The module text. */\n");
    let multi = parse_str("/*!\nThe module text.\n*/\n");
    assert_eq!(one.module_docs, multi.module_docs);
    assert_eq!(one.module_docs, vec!["The module text."]);
    let item_one = parse_str("/** An item text. */\nshape S {}\n");
    let item_multi = parse_str("/**\nAn item text.\n*/\nshape S {}\n");
    assert_eq!(item_one.items[0].docs, item_multi.items[0].docs);
    assert_eq!(item_one.items[0].docs, vec!["An item text."]);
}

#[test]
fn block_comment_stars_are_stripped() {
    let src = "/*!\n * First line.\n * Second line.\n */\n";
    let module = parse_str(src);
    assert_eq!(module.module_docs, vec!["First line.", "Second line."]);
}

#[test]
fn unsafe_marker_sets_flag() {
    let src = "/// Dangerous.\nunsafe process poke() {\n/// Safe.\nprocess peek() {\n";
    let module = parse_str(src);
    assert_eq!(module.items.len(), 2);
    assert!(module.items[0].is_unsafe);
    assert_eq!(module.items[0].kind, "unsafe");
    assert_eq!(module.items[0].name, "process");
    assert!(!module.items[1].is_unsafe);
}

#[test]
fn unsafe_flag_regardless_of_following_keyword() {
    let src = "/// A.\nunsafe alloc buffer {\n/// B.\nunsafe mmio_write port {\n";
    let module = parse_str(src);
    assert_eq!(module.items.len(), 2);
    assert!(module.items[0].is_unsafe);
    assert!(module.items[1].is_unsafe);
}

#[test]
fn unsafe_flag_needs_whole_token() {
    // a line that merely begins with the letters "unsafe" is recognised as a
    // declaration, but the flag is set only when "unsafe" is the whole first
    // token
    let src = "/// A.\nunsafely named {\n";
    let module = parse_str(src);
    assert_eq!(module.items.len(), 1);
    assert_eq!(module.items[0].kind, "unsafely");
    assert!(!module.items[0].is_unsafe);
}

#[test]
fn name_trailing_punctuation_is_stripped() {
    let src = "/// Doc.\nprocess make_value() -> T {\n";
    let module = parse_str(src);
    assert_eq!(module.items[0].name, "make_value");
    assert_eq!(module.items[0].signature, "process make_value() -> T {");
}

#[test]
fn generic_thread_type_is_recognised() {
    let src = "/// A worker handle.\nThread<Int> worker = spawn run;\n";
    let module = parse_str(src);
    assert_eq!(module.items.len(), 1);
    assert_eq!(module.items[0].kind, "Thread<Int>");
    assert_eq!(module.items[0].name, "worker");
}

#[test]
fn keyword_must_match_whole_token() {
    // "forgery" contains the keyword "forge" but is not a declaration
    let src = "/// Doc.\nforgery F {\nMemory m;\n";
    let module = parse_str(src);
    assert_eq!(module.items.len(), 0);
    // the doc line is still pending at end of input, so it lands in the
    // module docs
    assert_eq!(module.module_docs, vec!["Doc."]);
}

#[test]
fn resource_type_declaration_and_note() {
    let src = "/// A lock.\nMutex m = mutex_new();\n/// A lock type.\ntype Mutex {\n";
    let module = parse_str(src);
    assert_eq!(module.items.len(), 2);
    assert_eq!(module.items[0].kind, "Mutex");
    assert_eq!(module.items[1].name, "Mutex");
    let md = generate_markdown(&module, "locks.dust");
    assert!(md.contains("## Mutex `m`"));
    // the note follows the item whose *name* is a resource type
    assert!(md.contains("## type `Mutex`"));
    assert!(md.contains("*Resource type (v0.2)*"));
}

#[test]
fn markdown_names_file_and_items() {
    let src = "/// Doc.\nforge MyForge {\n";
    let module = parse_str(src);
    let md = generate_markdown(&module, "test.dust");
    assert!(md.starts_with("# Documentation for `test.dust`"));
    assert!(md.contains("## forge `MyForge`"));
    assert!(md.contains("```dpl\nforge MyForge {\n```"));
}

#[test]
fn unsafe_badge_in_markdown() {
    let src = "/// Dangerous.\nunsafe free ptr;\n";
    let module = parse_str(src);
    let md = generate_markdown(&module, "x.dust");
    assert!(md.contains("## unsafe `free` **(unsafe)**"));
}

#[test]
fn html_conversion_produces_h2() {
    let html = markdown_to_html("## forge `MyForge`\n\nSome text.\n");
    assert!(html.contains("<h2>"));
    assert!(html.contains("forge"));
}

#[test]
fn carriage_returns_are_stripped() {
    let src = "//! First.\r\n//! Second.\r\n";
    let module = parse_str(src);
    assert_eq!(module.module_docs, vec!["First.", "Second."]);
}

#[test]
fn module_docs_render_as_paragraph() {
    let src = "//! Intro line.\n";
    let module = parse_str(src);
    let md = generate_markdown(&module, "m.dust");
    assert_eq!(md, "# Documentation for `m.dust`\n\nIntro line.\n\n");
}
