//! Hover display: the diagnostic overlap filter and the rendering of
//! diagnostic bullet lines.

use vstd::prelude::*;
use vstd::string::StrSliceExecFns;
use vstd::string::StringExecFns;

use crate::markup::MarkedString;
use crate::markup::escape_brace;
use crate::markup::escaped;
use crate::markup::marked_markup_of;
use crate::markup::marked_string_to_kakoune_markup;
use crate::markup::markdown_to_kakoune_markup;
use crate::markup::markup_of;
use crate::text::dec_of;
use crate::text::push_char;
use crate::text::push_u64_decimal;
use crate::text::trim_str;
use crate::text::trimmed;

verus! {

/// A zero-based position of the tooling protocol: line and character
/// offset within the line.
#[derive(Clone, Copy, PartialEq, Eq, Structural, Debug)]
pub struct Position {
    pub line: u32,
    pub character: u32,
}

/// The region of a document between two positions.
#[derive(Clone, Copy, PartialEq, Eq, Structural, Debug)]
pub struct Range {
    pub start: Position,
    pub end: Position,
}

/// The reported weight of a diagnostic.
#[derive(Clone, Copy, PartialEq, Eq, Structural, Debug)]
pub enum DiagnosticSeverity {
    Error,
    Warning,
    Information,
    Hint,
}

/// One diagnostic record: where it applies, how severe it is, and its
/// message.
#[verifier::ext_equal]
pub struct Diagnostic {
    pub range: Range,
    pub severity: Option<DiagnosticSeverity>,
    pub message: String,
}

/// Whether a diagnostic range applies to the cursor.  The four conditions
/// overlap on purpose; the exact check is kept rather than simplified to a
/// single containment test, because the two differ on ranges that span
/// several lines.
pub open spec fn diagnostic_applies(cursor: Position, r: Range) -> bool {
    ||| (r.start.line < cursor.line && cursor.line < r.end.line)
    ||| (r.start.line == cursor.line && cursor.line == r.end.line && r.start.character
        <= cursor.character && cursor.character <= r.end.character)
    ||| (r.start.line == cursor.line && cursor.line <= r.end.line && r.start.character
        <= cursor.character)
    ||| (r.start.line <= cursor.line && r.end.line == cursor.line && cursor.character
        <= r.end.character)
}

/// The overlap check, one range at a time.
pub fn range_applies(cursor: Position, r: &Range) -> (b: bool)
    ensures
        b == diagnostic_applies(cursor, *r),
{
    (r.start.line < cursor.line && cursor.line < r.end.line) || (r.start.line == cursor.line
        && cursor.line == r.end.line && r.start.character <= cursor.character && cursor.character
        <= r.end.character) || (r.start.line == cursor.line && cursor.line <= r.end.line
        && r.start.character <= cursor.character) || (r.start.line <= cursor.line && r.end.line
        == cursor.line && cursor.character <= r.end.character)
}

/// The diagnostics whose range applies to the cursor, in input order.
pub open spec fn applicable_of(cursor: Position, ds: Seq<Diagnostic>) -> Seq<Diagnostic>
    decreases ds.len(),
{
    if ds.len() == 0 {
        Seq::empty()
    } else {
        let rest = applicable_of(cursor, ds.drop_last());
        if diagnostic_applies(cursor, ds.last().range) {
            rest.push(ds.last())
        } else {
            rest
        }
    }
}

fn clone_diagnostic(d: &Diagnostic) -> (r: Diagnostic)
    ensures
        r == *d,
{
    let r = Diagnostic { range: d.range, severity: d.severity, message: d.message.clone() };
    proof {
        assert(r =~= *d);
    }
    r
}

/// The overlap filter: which diagnostics apply to the cursor.  The result
/// keeps the input order.
pub fn filter_applicable(cursor: Position, diagnostics: &Vec<Diagnostic>) -> (r: Vec<Diagnostic>)
    ensures
        r@ == applicable_of(cursor, diagnostics@),
{
    let mut r: Vec<Diagnostic> = Vec::new();
    proof {
        assert(diagnostics@.take(0) =~= Seq::<Diagnostic>::empty());
    }
    let mut i: usize = 0;
    while i < diagnostics.len()
        invariant
            0 <= i <= diagnostics@.len(),
            r@ == applicable_of(cursor, diagnostics@.take(i as int)),
        decreases diagnostics@.len() - i,
    {
        if range_applies(cursor, &diagnostics[i].range) {
            r.push(clone_diagnostic(&diagnostics[i]));
        }
        proof {
            assert(diagnostics@.take(i + 1).drop_last() =~= diagnostics@.take(i as int));
            assert(diagnostics@.take(i + 1).last() == diagnostics@[i as int]);
        }
        i = i + 1;
    }
    proof {
        assert(diagnostics@.take(diagnostics@.len() as int) =~= diagnostics@);
    }
    r
}

/// The display face of a severity; a diagnostic without one gets the
/// default face.
pub open spec fn severity_face(s: Option<DiagnosticSeverity>) -> Seq<char> {
    match s {
        Some(DiagnosticSeverity::Error) => "InfoDiagnosticError"@,
        Some(DiagnosticSeverity::Warning) => "InfoDiagnosticWarning"@,
        Some(DiagnosticSeverity::Information) => "InfoDiagnosticInformation"@,
        Some(DiagnosticSeverity::Hint) => "InfoDiagnosticHint"@,
        None => "InfoDefault"@,
    }
}

fn severity_face_str(s: &Option<DiagnosticSeverity>) -> (r: &'static str)
    ensures
        r@ == severity_face(*s),
{
    match s {
        Some(DiagnosticSeverity::Error) => "InfoDiagnosticError",
        Some(DiagnosticSeverity::Warning) => "InfoDiagnosticWarning",
        Some(DiagnosticSeverity::Information) => "InfoDiagnosticInformation",
        Some(DiagnosticSeverity::Hint) => "InfoDiagnosticHint",
        None => "InfoDefault",
    }
}

/// A message character in a bullet line: a line break is followed by two
/// spaces, indenting continuation lines to the bullet's level.
pub open spec fn break_char(c: char) -> Seq<char> {
    if c == '\n' {
        seq!['\n', ' ', ' ']
    } else {
        seq![c]
    }
}

/// The message with its continuation lines indented.
pub open spec fn indented_breaks(s: Seq<char>) -> Seq<char>
    decreases s.len(),
{
    if s.len() == 0 {
        Seq::empty()
    } else {
        indented_breaks(s.drop_last()) + break_char(s.last())
    }
}

fn push_indented_breaks(out: &mut String, s: &str)
    ensures
        final(out)@ == old(out)@ + indented_breaks(s@),
{
    let n: usize = s.unicode_len();
    proof {
        assert(s@.take(0) =~= Seq::<char>::empty());
        assert(out@ =~= out@ + indented_breaks(s@.take(0)));
    }
    let mut i: usize = 0;
    while i < n
        invariant
            n == s@.len(),
            0 <= i <= n,
            out@ == old(out)@ + indented_breaks(s@.take(i as int)),
        decreases n - i,
    {
        let c = s.get_char(i);
        if c == '\n' {
            push_char(out, '\n');
            push_char(out, ' ');
            push_char(out, ' ');
        } else {
            push_char(out, c);
        }
        proof {
            assert(s@.take(i + 1).drop_last() =~= s@.take(i as int));
            assert(out@ =~= old(out)@ + (indented_breaks(s@.take(i as int)) + break_char(
                s@[i as int],
            )));
        }
        i = i + 1;
    }
    proof {
        assert(s@.take(n as int) =~= s@);
    }
}

/// One rendered diagnostic line: a bullet, the severity face, and the
/// trimmed, brace-escaped message with continuation lines indented.
pub open spec fn bullet_of(d: Diagnostic) -> Seq<char> {
    "• {"@ + severity_face(d.severity) + "}"@ + indented_breaks(escaped(trimmed(d.message@)))
}

/// The newline-joined bullet lines of the diagnostics that carry a
/// non-empty message; empty-message diagnostics are dropped.
pub open spec fn diagnostics_text(ds: Seq<Diagnostic>) -> Seq<char>
    decreases ds.len(),
{
    if ds.len() == 0 {
        Seq::empty()
    } else {
        let rest = diagnostics_text(ds.drop_last());
        let d = ds.last();
        if d.message@.len() == 0 {
            rest
        } else if rest.len() == 0 {
            bullet_of(d)
        } else {
            rest + "\n"@ + bullet_of(d)
        }
    }
}

/// Renders the (already filtered) diagnostics as bullet lines.
pub fn format_diagnostics(diagnostics: &Vec<Diagnostic>) -> (r: String)
    ensures
        r@ == diagnostics_text(diagnostics@),
{
    let mut out = String::new();
    proof {
        assert(diagnostics@.take(0) =~= Seq::<Diagnostic>::empty());
    }
    let mut i: usize = 0;
    while i < diagnostics.len()
        invariant
            0 <= i <= diagnostics@.len(),
            out@ == diagnostics_text(diagnostics@.take(i as int)),
        decreases diagnostics@.len() - i,
    {
        let d = &diagnostics[i];
        proof {
            assert(diagnostics@.take(i + 1).drop_last() =~= diagnostics@.take(i as int));
            assert(diagnostics@.take(i + 1).last() == diagnostics@[i as int]);
        }
        if !d.message.as_str().is_empty() {
            if !out.as_str().is_empty() {
                out.append("\n");
            }
            let ghost joined = out@;
            out.append("• {");
            let face = severity_face_str(&d.severity);
            out.append(face);
            out.append("}");
            let trimmed_message = trim_str(d.message.as_str());
            let escaped_message = escape_brace(trimmed_message.as_str());
            push_indented_breaks(&mut out, escaped_message.as_str());
            proof {
                assert(out@ =~= joined + bullet_of(diagnostics@[i as int]));
            }
        }
        i = i + 1;
    }
    proof {
        assert(diagnostics@.take(diagnostics@.len() as int) =~= diagnostics@);
    }
    out
}

/// The kind of a markup-typed content string.
#[derive(Clone, Copy, PartialEq, Eq, Structural, Debug)]
pub enum MarkupKind {
    Markdown,
    PlainText,
}

/// A markup-typed content string.
pub struct MarkupContent {
    pub kind: MarkupKind,
    pub value: String,
}

/// The content of a hover answer: one block, an ordered array of blocks,
/// or one markup-typed string.
pub enum HoverContents {
    Scalar(MarkedString),
    Array(Vec<MarkedString>),
    Markup(MarkupContent),
}

/// The separator line written between two non-empty blocks of an Array
/// variant.
pub open spec fn block_separator() -> Seq<char> {
    "\n{InfoRule}---{InfoDefault}\n"@
}

/// The rendering of an Array variant: each block transpiled on its own,
/// empty results dropped, the rest joined with the separator rule.
pub open spec fn joined_blocks(blocks: Seq<MarkedString>) -> Seq<char>
    decreases blocks.len(),
{
    if blocks.len() == 0 {
        Seq::empty()
    } else {
        let rest = joined_blocks(blocks.drop_last());
        let b = marked_markup_of(blocks.last());
        if b.len() == 0 {
            rest
        } else if rest.len() == 0 {
            b
        } else {
            rest + block_separator() + b
        }
    }
}

/// How many blocks of an array render non-empty.
pub open spec fn nonempty_blocks(blocks: Seq<MarkedString>) -> nat
    decreases blocks.len(),
{
    if blocks.len() == 0 {
        0
    } else {
        nonempty_blocks(blocks.drop_last()) + (if marked_markup_of(blocks.last()).len() > 0 {
            1 as nat
        } else {
            0 as nat
        })
    }
}

proof fn lemma_all_blocks_empty(blocks: Seq<MarkedString>)
    requires
        nonempty_blocks(blocks) == 0,
    ensures
        joined_blocks(blocks).len() == 0,
        forall|i: int| 0 <= i < blocks.len() ==> marked_markup_of(blocks[i]).len() == 0,
    decreases blocks.len(),
{
    if blocks.len() > 0 {
        lemma_all_blocks_empty(blocks.drop_last());
        assert(forall|i: int|
            0 <= i < blocks.len() - 1 ==> blocks[i] == blocks.drop_last()[i]);
    }
}

/// Separators appear only between two non-empty results: when at most one
/// block of an array renders non-empty, the rendered array is that block's
/// markup alone, or empty.
pub proof fn lemma_lone_block_renders_bare(blocks: Seq<MarkedString>)
    requires
        nonempty_blocks(blocks) <= 1,
    ensures
        nonempty_blocks(blocks) == 0 ==> joined_blocks(blocks).len() == 0,
        forall|i: int|
            0 <= i < blocks.len() && marked_markup_of(blocks[i]).len() > 0 ==> joined_blocks(
                blocks,
            ) == marked_markup_of(blocks[i]),
    decreases blocks.len(),
{
    if blocks.len() == 0 {
        lemma_all_blocks_empty(blocks);
    } else {
        let rest = blocks.drop_last();
        let b = marked_markup_of(blocks.last());
        assert(forall|i: int| 0 <= i < blocks.len() - 1 ==> blocks[i] == rest[i]);
        if b.len() == 0 {
            lemma_lone_block_renders_bare(rest);
            if nonempty_blocks(blocks) == 0 {
                lemma_all_blocks_empty(blocks);
            }
        } else {
            lemma_all_blocks_empty(rest);
            assert(joined_blocks(blocks) == b);
        }
    }
}

/// Renders a whole content variant into markup.
pub fn hover_contents_to_markup(contents: &HoverContents) -> (r: String)
    ensures
        r@ == contents_markup_of(*contents),
{
    match contents {
        HoverContents::Scalar(ms) => marked_string_to_kakoune_markup(ms),
        HoverContents::Array(blocks) => {
            let mut out = String::new();
            proof {
                assert(blocks@.take(0) =~= Seq::<MarkedString>::empty());
            }
            let mut i: usize = 0;
            while i < blocks.len()
                invariant
                    0 <= i <= blocks@.len(),
                    out@ == joined_blocks(blocks@.take(i as int)),
                decreases blocks@.len() - i,
            {
                proof {
                    assert(blocks@.take(i + 1).drop_last() =~= blocks@.take(i as int));
                    assert(blocks@.take(i + 1).last() == blocks@[i as int]);
                }
                let b = marked_string_to_kakoune_markup(&blocks[i]);
                if !b.as_str().is_empty() {
                    if !out.as_str().is_empty() {
                        out.append("\n{InfoRule}---{InfoDefault}\n");
                    }
                    out.append(b.as_str());
                }
                i = i + 1;
            }
            proof {
                assert(blocks@.take(blocks@.len() as int) =~= blocks@);
            }
            out
        },
        HoverContents::Markup(mc) => match mc.kind {
            MarkupKind::Markdown => markdown_to_kakoune_markup(mc.value.as_str()),
            MarkupKind::PlainText => mc.value.clone(),
        },
    }
}

/// The markup each content variant renders to.
pub open spec fn contents_markup_of(c: HoverContents) -> Seq<char> {
    match c {
        HoverContents::Scalar(ms) => marked_markup_of(ms),
        HoverContents::Array(v) => joined_blocks(v@),
        HoverContents::Markup(mc) => match mc.kind {
            MarkupKind::Markdown => markup_of(mc.value@),
            MarkupKind::PlainText => mc.value@,
        },
    }
}

/// The body shown for an optional hover content: absent content renders
/// empty.
pub open spec fn body_of(contents: Option<HoverContents>) -> Seq<char> {
    match contents {
        Option::None => Seq::empty(),
        Option::Some(c) => contents_markup_of(c),
    }
}

/// A Kakoune-side cursor position: one-based line and column.
#[derive(Clone, Copy, PartialEq, Eq, Structural, Debug)]
pub struct KakounePosition {
    pub line: u32,
    pub column: u32,
}

/// How one character is embedded in the command payload: a literal
/// occurrence of the payload delimiter is escaped with a backslash.
pub open spec fn section_char(c: char) -> Seq<char> {
    if c == '§' {
        seq!['\\', '§']
    } else {
        seq![c]
    }
}

/// The payload with every delimiter occurrence escaped.
pub open spec fn section_escaped(s: Seq<char>) -> Seq<char>
    decreases s.len(),
{
    if s.len() == 0 {
        Seq::empty()
    } else {
        section_escaped(s.drop_last()) + section_char(s.last())
    }
}

fn push_section_escaped(out: &mut String, s: &str)
    ensures
        final(out)@ == old(out)@ + section_escaped(s@),
{
    let n: usize = s.unicode_len();
    proof {
        assert(s@.take(0) =~= Seq::<char>::empty());
        assert(out@ =~= out@ + section_escaped(s@.take(0)));
    }
    let mut i: usize = 0;
    while i < n
        invariant
            n == s@.len(),
            0 <= i <= n,
            out@ == old(out)@ + section_escaped(s@.take(i as int)),
        decreases n - i,
    {
        let c = s.get_char(i);
        if c == '§' {
            push_char(out, '\\');
            push_char(out, '§');
        } else {
            push_char(out, c);
        }
        proof {
            assert(s@.take(i + 1).drop_last() =~= s@.take(i as int));
            assert(out@ =~= old(out)@ + (section_escaped(s@.take(i as int)) + section_char(
                s@[i as int],
            )));
        }
        i = i + 1;
    }
    proof {
        assert(s@.take(n as int) =~= s@);
    }
}

/// The editor command that displays a hover: the cursor position, then the
/// body and the diagnostics text, each escaped against the payload
/// delimiter.
pub open spec fn hover_command_of(p: KakounePosition, body: Seq<char>, diags: Seq<char>) -> Seq<
    char,
> {
    "lsp-show-hover "@ + dec_of(p.line as nat) + "."@ + dec_of(p.column as nat) + " %§"@
        + section_escaped(body) + "§ %§"@ + section_escaped(diags) + "§"@
}

/// Composes the rendered content and the (already filtered) diagnostics
/// into the final display command.  `None` means nothing is to be
/// displayed and no editor command should be issued.
pub fn assemble(contents: &Option<HoverContents>, diagnostics: &Vec<Diagnostic>, cursor: KakounePosition) -> (r: Option<
    String,
>)
    ensures
        r is None <==> (body_of(*contents).len() == 0 && diagnostics_text(diagnostics@).len()
            == 0),
        r matches Some(cmd) ==> cmd@ == hover_command_of(
            cursor,
            body_of(*contents),
            diagnostics_text(diagnostics@),
        ),
{
    let body: String = match contents {
        Option::None => String::new(),
        Option::Some(c) => hover_contents_to_markup(c),
    };
    let diags: String = format_diagnostics(diagnostics);
    if body.as_str().is_empty() && diags.as_str().is_empty() {
        return None;
    }
    let mut cmd: String = "lsp-show-hover ".to_owned();
    push_u64_decimal(&mut cmd, cursor.line as u64);
    cmd.append(".");
    push_u64_decimal(&mut cmd, cursor.column as u64);
    cmd.append(" %§");
    push_section_escaped(&mut cmd, body.as_str());
    cmd.append("§ %§");
    push_section_escaped(&mut cmd, diags.as_str());
    cmd.append("§");
    Some(cmd)
}

/// The whole hover pipeline on plain values: filters the diagnostics for
/// the protocol-side cursor, renders the content, and builds the display
/// command for the editor-side position; `None` when there is nothing to
/// show.
pub fn editor_hover_command(
    cursor: Position,
    display_position: KakounePosition,
    contents: &Option<HoverContents>,
    diagnostics: &Vec<Diagnostic>,
) -> (r: Option<String>)
    ensures
        r is None <==> (body_of(*contents).len() == 0 && diagnostics_text(
            applicable_of(cursor, diagnostics@),
        ).len() == 0),
        r matches Some(cmd) ==> cmd@ == hover_command_of(
            display_position,
            body_of(*contents),
            diagnostics_text(applicable_of(cursor, diagnostics@)),
        ),
{
    let applicable = filter_applicable(cursor, diagnostics);
    assemble(contents, &applicable, display_position)
}

} // verus!
