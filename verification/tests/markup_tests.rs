use kak_markup::markup::LanguageString;
use kak_markup::markup::MarkedString;
use kak_markup::markup::MarkupTag;
use kak_markup::markup::ParseEvent;
use kak_markup::markup::escape_brace;
use kak_markup::markup::marked_string_to_kakoune_markup;
use kak_markup::markup::markdown_to_kakoune_markup;
use kak_markup::transpile::transpile_events;

#[test]
fn escape_brace_escapes_opening_braces() {
    assert_eq!(escape_brace("a{b"), "a\\{b");
    assert_eq!(escape_brace("{{"), "\\{\\{");
    assert_eq!(escape_brace("no braces"), "no braces");
    assert_eq!(escape_brace("closing } stays"), "closing } stays");
    assert_eq!(escape_brace(""), "");
}

#[test]
fn bold_text_switches_and_restores_default() {
    assert_eq!(
        markdown_to_kakoune_markup("**bold**"),
        "{+b@default}bold{default}"
    );
}

#[test]
fn emphasis_nested_in_strong_restores_strong_scope() {
    assert_eq!(
        markdown_to_kakoune_markup("**a *b* c**"),
        "{+b@default}a {+i@+b@default}b{+b@default} c{default}"
    );
}

#[test]
fn ordered_list_counts_from_declared_start() {
    let markup = markdown_to_kakoune_markup("1. a\n2. b");
    assert_eq!(markup, "{bullet}1 {default}a\n  {bullet}2 {default}b");
}

#[test]
fn ordered_list_markers_follow_counter_not_source_numbers() {
    let markup = markdown_to_kakoune_markup("1. a\n1. b\n7. c");
    assert!(markup.contains("{bullet}1 "));
    assert!(markup.contains("{bullet}2 "));
    assert!(markup.contains("{bullet}3 "));
    assert!(!markup.contains("{bullet}7 "));
}

#[test]
fn nested_ordered_list_counts_independently() {
    let events = vec![
        ParseEvent::Start(MarkupTag::List(Some(3))),
        ParseEvent::Start(MarkupTag::Item),
        ParseEvent::Text(String::from("a")),
        ParseEvent::Start(MarkupTag::List(Some(1))),
        ParseEvent::Start(MarkupTag::Item),
        ParseEvent::Text(String::from("b")),
        ParseEvent::End(MarkupTag::Item),
        ParseEvent::Start(MarkupTag::Item),
        ParseEvent::Text(String::from("c")),
        ParseEvent::End(MarkupTag::Item),
        ParseEvent::End(MarkupTag::List(Some(1))),
        ParseEvent::End(MarkupTag::Item),
        ParseEvent::Start(MarkupTag::Item),
        ParseEvent::Text(String::from("d")),
        ParseEvent::End(MarkupTag::Item),
        ParseEvent::End(MarkupTag::List(Some(3))),
    ];
    let markup = transpile_events(&events);
    // The outer list keeps its own counter (3 then 4) while the inner list
    // starts at 1, at a deeper indent.
    assert_eq!(
        markup,
        "{bullet}3 {default}a\n    {bullet}1 {default}b\n    {bullet}2 {default}c\n  {bullet}4 {default}d"
    );
}

#[test]
fn unordered_list_uses_dashes() {
    assert_eq!(
        markdown_to_kakoune_markup("- a\n- b"),
        "{bullet}- {default}a\n  {bullet}- {default}b"
    );
}

#[test]
fn link_renders_only_its_text() {
    let markup = markdown_to_kakoune_markup("[click](https://example.com)");
    assert_eq!(markup, "{link}click{default}");
    assert!(!markup.contains("example.com"));
}

#[test]
fn heading_keeps_markdown_marker_and_header_face() {
    assert_eq!(
        markdown_to_kakoune_markup("# Title"),
        "{header}# Title{default}"
    );
    assert_eq!(
        markdown_to_kakoune_markup("### Deep"),
        "{header}### Deep{default}"
    );
}

#[test]
fn inline_code_wraps_in_mono_and_restores() {
    assert_eq!(markdown_to_kakoune_markup("`x`"), "{mono}x{default}");
}

#[test]
fn code_block_uses_block_face() {
    assert_eq!(
        markdown_to_kakoune_markup("```\ncode\n```"),
        "{block}code"
    );
}

#[test]
fn inline_code_inside_link_restores_link_face() {
    assert_eq!(
        markdown_to_kakoune_markup("[`code` link](https://example.com)"),
        "{link}{mono}code{link} link{default}"
    );
}

#[test]
fn block_quote_gets_quote_markers() {
    assert_eq!(markdown_to_kakoune_markup("> quote"), "> quote");
}

#[test]
fn block_quote_marks_later_paragraphs_once() {
    let markup = markdown_to_kakoune_markup("> a\n>\n> b");
    assert_eq!(markup, "> a\n>\n> b");
}

#[test]
fn literal_brace_in_text_is_escaped_in_output() {
    assert_eq!(
        markdown_to_kakoune_markup("brace { here"),
        "brace \\{ here"
    );
}

#[test]
fn rule_renders_as_comment_dashes() {
    assert_eq!(
        markdown_to_kakoune_markup("a\n\n---\n\nb"),
        "a\n\n{comment}---{default}\n\nb"
    );
}

#[test]
fn empty_markdown_renders_empty() {
    assert_eq!(markdown_to_kakoune_markup(""), "");
}

#[test]
fn image_is_dropped_silently() {
    assert_eq!(markdown_to_kakoune_markup("![alt](img.png)"), "alt");
}

#[test]
fn marked_string_markdown_is_transpiled() {
    let ms = MarkedString::Markdown(String::from("**b**"));
    assert_eq!(marked_string_to_kakoune_markup(&ms), "{+b@default}b{default}");
}

#[test]
fn marked_language_string_passes_verbatim() {
    let ms = MarkedString::LanguageString(LanguageString {
        language: String::from("rust"),
        value: String::from("fn main() {}"),
    });
    assert_eq!(marked_string_to_kakoune_markup(&ms), "fn main() {}");
}

#[test]
fn plaintext_drops_language_tag() {
    let ms = MarkedString::LanguageString(LanguageString {
        language: String::from("rust"),
        value: String::from("let x;"),
    });
    assert_eq!(ms.plaintext(), "let x;");
    let md = MarkedString::Markdown(String::from("text"));
    assert_eq!(md.plaintext(), "text");
}

#[test]
fn soft_break_is_space_in_prose_and_newline_in_quote() {
    assert_eq!(markdown_to_kakoune_markup("a\nb"), "a b");
    assert_eq!(markdown_to_kakoune_markup("> a\n> b"), "> a\n> b");
}

#[test]
fn nested_scopes_close_in_order_and_end_at_default() {
    let markup = markdown_to_kakoune_markup("**[x](https://example.com)**");
    assert_eq!(markup, "{+b@default}{link}x{+b@default}{default}");
}

#[test]
fn ordered_list_renders_large_start_number() {
    assert_eq!(
        markdown_to_kakoune_markup("999999999. x"),
        "{bullet}999999999 {default}x"
    );
}
