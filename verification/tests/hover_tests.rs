use kak_markup::editor::editor_escape;
use kak_markup::editor::editor_quote;
use kak_markup::hover::Diagnostic;
use kak_markup::hover::DiagnosticSeverity;
use kak_markup::hover::HoverContents;
use kak_markup::hover::KakounePosition;
use kak_markup::hover::MarkupContent;
use kak_markup::hover::MarkupKind;
use kak_markup::hover::Position;
use kak_markup::hover::Range;
use kak_markup::hover::assemble;
use kak_markup::hover::editor_hover_command;
use kak_markup::hover::filter_applicable;
use kak_markup::hover::format_diagnostics;
use kak_markup::hover::hover_contents_to_markup;
use kak_markup::markup::MarkedString;

fn range(start: (u32, u32), end: (u32, u32)) -> Range {
    Range {
        start: Position { line: start.0, character: start.1 },
        end: Position { line: end.0, character: end.1 },
    }
}

fn diag(r: Range, severity: Option<DiagnosticSeverity>, message: &str) -> Diagnostic {
    Diagnostic { range: r, severity, message: String::from(message) }
}

#[test]
fn single_line_containment_applies() {
    let ds = vec![diag(range((5, 8), (5, 12)), Some(DiagnosticSeverity::Error), "oops")];
    let hit = filter_applicable(Position { line: 5, character: 10 }, &ds);
    assert_eq!(hit.len(), 1);
    assert_eq!(hit[0].message, "oops");
}

#[test]
fn other_line_does_not_apply() {
    let ds = vec![diag(range((5, 8), (5, 12)), Some(DiagnosticSeverity::Error), "oops")];
    let hit = filter_applicable(Position { line: 6, character: 0 }, &ds);
    assert_eq!(hit.len(), 0);
}

#[test]
fn line_strictly_inside_multiline_range_applies() {
    let ds = vec![diag(range((1, 4), (3, 2)), None, "m")];
    let hit = filter_applicable(Position { line: 2, character: 99 }, &ds);
    assert_eq!(hit.len(), 1);
}

#[test]
fn start_line_applies_when_character_at_or_after_start() {
    let ds = vec![diag(range((5, 8), (7, 0)), None, "m")];
    assert_eq!(filter_applicable(Position { line: 5, character: 8 }, &ds).len(), 1);
    assert_eq!(filter_applicable(Position { line: 7, character: 0 }, &ds).len(), 1);
    assert_eq!(filter_applicable(Position { line: 8, character: 0 }, &ds).len(), 0);
}

#[test]
fn filter_keeps_input_order() {
    let ds = vec![
        diag(range((1, 0), (9, 0)), None, "first"),
        diag(range((0, 0), (0, 1)), None, "missed"),
        diag(range((2, 0), (9, 0)), None, "second"),
    ];
    let hit = filter_applicable(Position { line: 3, character: 0 }, &ds);
    assert_eq!(hit.len(), 2);
    assert_eq!(hit[0].message, "first");
    assert_eq!(hit[1].message, "second");
}

#[test]
fn severities_map_to_their_faces() {
    let cases = vec![
        (Some(DiagnosticSeverity::Error), "• {InfoDiagnosticError}e"),
        (Some(DiagnosticSeverity::Warning), "• {InfoDiagnosticWarning}e"),
        (Some(DiagnosticSeverity::Information), "• {InfoDiagnosticInformation}e"),
        (Some(DiagnosticSeverity::Hint), "• {InfoDiagnosticHint}e"),
        (None, "• {InfoDefault}e"),
    ];
    for (severity, expected) in cases {
        let ds = vec![diag(range((0, 0), (0, 1)), severity, "e")];
        assert_eq!(format_diagnostics(&ds), expected);
    }
}

#[test]
fn diagnostic_lines_join_and_continuations_indent() {
    let ds = vec![
        diag(range((0, 0), (0, 1)), Some(DiagnosticSeverity::Error), "one\ntwo"),
        diag(range((0, 0), (0, 1)), None, "three"),
    ];
    assert_eq!(
        format_diagnostics(&ds),
        "• {InfoDiagnosticError}one\n  two\n• {InfoDefault}three"
    );
}

#[test]
fn diagnostic_message_is_trimmed_and_escaped() {
    let ds = vec![diag(range((0, 0), (0, 1)), None, "  pad {x}  ")];
    assert_eq!(format_diagnostics(&ds), "• {InfoDefault}pad \\{x}");
}

#[test]
fn empty_message_diagnostics_are_dropped() {
    let ds = vec![
        diag(range((0, 0), (0, 1)), None, ""),
        diag(range((0, 0), (0, 1)), None, "kept"),
    ];
    assert_eq!(format_diagnostics(&ds), "• {InfoDefault}kept");
}

#[test]
fn array_with_one_empty_block_has_no_separator() {
    let contents = HoverContents::Array(vec![
        MarkedString::Markdown(String::from("")),
        MarkedString::Markdown(String::from("hi")),
    ]);
    let markup = hover_contents_to_markup(&contents);
    assert_eq!(markup, "hi");
    assert!(!markup.contains("---"));
}

#[test]
fn array_with_two_blocks_gets_one_separator() {
    let contents = HoverContents::Array(vec![
        MarkedString::Markdown(String::from("a")),
        MarkedString::Markdown(String::from("b")),
    ]);
    assert_eq!(
        hover_contents_to_markup(&contents),
        "a\n{InfoRule}---{InfoDefault}\nb"
    );
}

#[test]
fn markup_plaintext_passes_through_unchanged() {
    let contents = HoverContents::Markup(MarkupContent {
        kind: MarkupKind::PlainText,
        value: String::from("raw {not markup}"),
    });
    assert_eq!(hover_contents_to_markup(&contents), "raw {not markup}");
}

#[test]
fn markup_markdown_is_transpiled() {
    let contents = HoverContents::Markup(MarkupContent {
        kind: MarkupKind::Markdown,
        value: String::from("**b**"),
    });
    assert_eq!(hover_contents_to_markup(&contents), "{+b@default}b{default}");
}

#[test]
fn assemble_nothing_to_display_returns_none() {
    let pos = KakounePosition { line: 1, column: 1 };
    assert!(assemble(&None, &vec![], pos).is_none());
}

#[test]
fn assemble_empty_content_and_empty_messages_returns_none() {
    let pos = KakounePosition { line: 1, column: 1 };
    let contents = Some(HoverContents::Markup(MarkupContent {
        kind: MarkupKind::Markdown,
        value: String::from(""),
    }));
    let ds = vec![diag(range((0, 0), (0, 1)), None, "")];
    assert!(assemble(&contents, &ds, pos).is_none());
}

#[test]
fn assemble_builds_show_hover_command() {
    let pos = KakounePosition { line: 3, column: 7 };
    let contents = Some(HoverContents::Markup(MarkupContent {
        kind: MarkupKind::PlainText,
        value: String::from("hello"),
    }));
    let cmd = assemble(&contents, &vec![], pos).unwrap();
    assert_eq!(cmd, "lsp-show-hover 3.7 %§hello§ %§§");
}

#[test]
fn assemble_escapes_payload_delimiter() {
    let pos = KakounePosition { line: 1, column: 2 };
    let ds = vec![diag(range((0, 0), (0, 1)), None, "x§y")];
    let cmd = assemble(&None, &ds, pos).unwrap();
    assert_eq!(cmd, "lsp-show-hover 1.2 %§§ %§• {InfoDefault}x\\§y§");
}

#[test]
fn editor_hover_command_filters_then_assembles() {
    let cursor = Position { line: 5, character: 10 };
    let shown = KakounePosition { line: 6, column: 11 };
    let ds = vec![
        diag(range((5, 8), (5, 12)), Some(DiagnosticSeverity::Error), "oops"),
        diag(range((9, 0), (9, 1)), Some(DiagnosticSeverity::Warning), "far away"),
    ];
    let cmd = editor_hover_command(cursor, shown, &None, &ds).unwrap();
    assert_eq!(cmd, "lsp-show-hover 6.11 %§§ %§• {InfoDiagnosticError}oops§");
}

#[test]
fn editor_hover_command_none_when_nothing_applies() {
    let cursor = Position { line: 0, character: 0 };
    let shown = KakounePosition { line: 1, column: 1 };
    let ds = vec![diag(range((9, 0), (9, 1)), None, "far away")];
    assert!(editor_hover_command(cursor, shown, &None, &ds).is_none());
}

#[test]
fn editor_escape_doubles_single_quotes() {
    assert_eq!(editor_escape("it's"), "it''s");
    assert_eq!(editor_escape("none"), "none");
}

#[test]
fn editor_quote_wraps_and_escapes() {
    assert_eq!(editor_quote("a'b"), "'a''b'");
    assert_eq!(editor_quote(""), "''");
}

#[test]
fn diagnostic_message_unicode_whitespace_is_trimmed() {
    let ds = vec![diag(range((0, 0), (0, 1)), None, "\u{a0}\t pad \n\u{a0}")];
    assert_eq!(format_diagnostics(&ds), "• {InfoDefault}pad");
}

#[test]
fn assemble_escapes_delimiter_in_body_too() {
    let pos = KakounePosition { line: 10, column: 20 };
    let contents = Some(HoverContents::Markup(MarkupContent {
        kind: MarkupKind::PlainText,
        value: String::from("a§b"),
    }));
    let cmd = assemble(&contents, &vec![], pos).unwrap();
    assert_eq!(cmd, "lsp-show-hover 10.20 %§a\\§b§ %§§");
}
