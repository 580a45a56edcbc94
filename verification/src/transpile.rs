//! The stateful Markdown-to-markup transpiler.
//!
//! The machine consumes a stream of structural parse events while driving a
//! style-scope stack and a list-nesting stack, and emits Kakoune face
//! directives.  Its behaviour is pinned by the specification functions
//! `step` and `run`; `transpile_events` is the executable mirror.

use vstd::prelude::*;
use vstd::string::StrSliceExecFns;
use vstd::string::StringExecFns;

use crate::markup::MarkupTag;
use crate::markup::ParseEvent;
use crate::markup::escaped;
use crate::text::dec_of;
use crate::text::push_u64_decimal;
use crate::text::trim_str;
use crate::text::trimmed;

verus! {

/// The transpiler's whole state: the output emitted so far, the style-scope
/// stack, the list-nesting stack, and the three context flags.
#[verifier::ext_equal]
pub struct TState {
    pub out: Seq<char>,
    pub faces: Seq<Seq<char>>,
    pub lists: Seq<Option<u64>>,
    pub in_code: bool,
    pub in_quote: bool,
    pub quote_text: bool,
}

pub open spec fn init_state() -> TState {
    TState {
        out: Seq::empty(),
        faces: Seq::empty(),
        lists: Seq::empty(),
        in_code: false,
        in_quote: false,
        quote_text: false,
    }
}

/// The active base face: the top of the scope stack, or "default" when the
/// stack is empty.
pub open spec fn base_face(faces: Seq<Seq<char>>) -> Seq<char> {
    if faces.len() == 0 {
        "default"@
    } else {
        faces.last()
    }
}

/// Removing the top face; on an empty stack this is a no-op.
pub open spec fn popped(faces: Seq<Seq<char>>) -> Seq<Seq<char>> {
    if faces.len() == 0 {
        faces
    } else {
        faces.drop_last()
    }
}

/// `n` levels of list indentation: two spaces per level.
pub open spec fn indent(n: nat) -> Seq<char>
    decreases n,
{
    if n == 0 {
        Seq::empty()
    } else {
        indent((n - 1) as nat) + "  "@
    }
}

/// `n` repetitions of the heading marker.
pub open spec fn hashes(n: nat) -> Seq<char>
    decreases n,
{
    if n == 0 {
        Seq::empty()
    } else {
        hashes((n - 1) as nat) + "#"@
    }
}

/// The counter written back after rendering an ordered item; the increment
/// stops at the largest representable ordinal.
pub open spec fn next_counter(item: Option<u64>) -> Option<u64> {
    match item {
        Some(n) => if n < u64::MAX {
            Some((n + 1) as u64)
        } else {
            Some(n)
        },
        None => None,
    }
}

/// The bullet marker of one list item: its ordinal, or a dash.
pub open spec fn item_marker(item: Option<u64>) -> Seq<char> {
    match item {
        Some(n) => dec_of(n as nat),
        None => "-"@,
    }
}

/// One transition of the transpiler on one parse event.
pub open spec fn step(s: TState, e: ParseEvent) -> TState {
    match e {
        ParseEvent::Start(tag) => match tag {
            MarkupTag::Paragraph => TState {
                out: if s.in_quote && s.quote_text {
                    s.out + ">\n"@
                } else {
                    s.out + "\n"@
                },
                ..s
            },
            MarkupTag::Heading(level) => TState {
                out: s.out + "\n{header}"@ + hashes(level as nat) + " "@,
                faces: s.faces.push("header"@),
                ..s
            },
            MarkupTag::BlockQuote => TState { in_quote: true, ..s },
            MarkupTag::CodeBlock => TState {
                out: s.out + "\n{block}"@,
                faces: s.faces.push("block"@),
                in_code: true,
                ..s
            },
            MarkupTag::List(start) => TState { lists: s.lists.push(start), ..s },
            MarkupTag::Item => {
                if s.lists.len() == 0 {
                    s
                } else {
                    let item = s.lists.last();
                    TState {
                        out: s.out + "\n"@ + indent(s.lists.len()) + "{bullet}"@ + item_marker(
                            item,
                        ) + " {"@ + base_face(s.faces) + "}"@,
                        lists: s.lists.drop_last().push(next_counter(item)),
                        ..s
                    }
                }
            },
            MarkupTag::Emphasis => TState {
                out: s.out + "{+i@"@ + base_face(s.faces) + "}"@,
                faces: s.faces.push("+i@"@ + base_face(s.faces)),
                ..s
            },
            MarkupTag::Strong => TState {
                out: s.out + "{+b@"@ + base_face(s.faces) + "}"@,
                faces: s.faces.push("+b@"@ + base_face(s.faces)),
                ..s
            },
            MarkupTag::Strikethrough => TState {
                out: s.out + "{+s@"@ + base_face(s.faces) + "}"@,
                faces: s.faces.push("+s@"@ + base_face(s.faces)),
                ..s
            },
            MarkupTag::Link => TState {
                out: s.out + "{link}"@,
                faces: s.faces.push("link"@),
                ..s
            },
            MarkupTag::Image => s,
            MarkupTag::Other => s,
        },
        ParseEvent::End(tag) => match tag {
            MarkupTag::Paragraph => TState { out: s.out + "\n"@, ..s },
            MarkupTag::Heading(_) => TState {
                out: s.out + "{"@ + base_face(popped(s.faces)) + "}"@ + "\n"@,
                faces: popped(s.faces),
                ..s
            },
            MarkupTag::BlockQuote => TState { in_quote: false, quote_text: false, ..s },
            MarkupTag::CodeBlock => TState {
                out: s.out + "{"@ + base_face(popped(s.faces)) + "}"@,
                faces: popped(s.faces),
                in_code: false,
                ..s
            },
            MarkupTag::List(_) => {
                if s.lists.len() == 0 {
                    s
                } else {
                    TState {
                        out: if s.lists.len() == 1 {
                            s.out + "\n"@
                        } else {
                            s.out
                        },
                        lists: s.lists.drop_last(),
                        ..s
                    }
                }
            },
            MarkupTag::Item => s,
            MarkupTag::Emphasis | MarkupTag::Strong | MarkupTag::Strikethrough
                | MarkupTag::Link => TState {
                out: s.out + "{"@ + base_face(popped(s.faces)) + "}"@,
                faces: popped(s.faces),
                ..s
            },
            MarkupTag::Image => s,
            MarkupTag::Other => s,
        },
        ParseEvent::Text(t) => {
            if s.in_quote {
                TState { out: s.out + "> "@ + escaped(t@), quote_text: true, ..s }
            } else {
                TState { out: s.out + escaped(t@), ..s }
            }
        },
        ParseEvent::Code(c) => TState {
            out: s.out + "{mono}"@ + escaped(c@) + "{"@ + base_face(s.faces) + "}"@,
            ..s
        },
        ParseEvent::Html(h) => TState { out: s.out + escaped(h@), ..s },
        ParseEvent::FootnoteReference => s,
        ParseEvent::SoftBreak => TState {
            out: if s.in_quote || s.in_code {
                s.out + "\n"@
            } else {
                s.out + " "@
            },
            ..s
        },
        ParseEvent::HardBreak => TState { out: s.out + "\n"@, ..s },
        ParseEvent::Rule => TState {
            out: s.out + "\n{comment}---{"@ + base_face(s.faces) + "}\n"@,
            ..s
        },
        ParseEvent::TaskListMarker => s,
    }
}

/// Whether one event can be taken without underflowing the list stack; an
/// item or list end outside an open list is a contract violation of the
/// upstream parser.
pub open spec fn step_ok(s: TState, e: ParseEvent) -> bool {
    match e {
        ParseEvent::Start(MarkupTag::Item) => s.lists.len() > 0,
        ParseEvent::End(MarkupTag::List(_)) => s.lists.len() > 0,
        _ => true,
    }
}

/// The state after consuming the whole stream.
pub open spec fn run(s: TState, events: Seq<ParseEvent>) -> TState
    decreases events.len(),
{
    if events.len() == 0 {
        s
    } else {
        run(step(s, events[0]), events.drop_first())
    }
}

/// Whether every event of the stream can be taken in order.
pub open spec fn run_ok(s: TState, events: Seq<ParseEvent>) -> bool
    decreases events.len(),
{
    events.len() == 0 || (step_ok(s, events[0]) && run_ok(step(s, events[0]), events.drop_first()))
}

/// The variants of the structural tags, with their data dropped: what the
/// nesting discipline of a parse stream is stated over.
pub enum TagKind {
    Paragraph,
    Heading,
    BlockQuote,
    CodeBlock,
    List,
    Item,
    Emphasis,
    Strong,
    Strikethrough,
    Link,
    Image,
    Other,
}

pub open spec fn kind_of(t: MarkupTag) -> TagKind {
    match t {
        MarkupTag::Paragraph => TagKind::Paragraph,
        MarkupTag::Heading(_) => TagKind::Heading,
        MarkupTag::BlockQuote => TagKind::BlockQuote,
        MarkupTag::CodeBlock => TagKind::CodeBlock,
        MarkupTag::List(_) => TagKind::List,
        MarkupTag::Item => TagKind::Item,
        MarkupTag::Emphasis => TagKind::Emphasis,
        MarkupTag::Strong => TagKind::Strong,
        MarkupTag::Strikethrough => TagKind::Strikethrough,
        MarkupTag::Link => TagKind::Link,
        MarkupTag::Image => TagKind::Image,
        MarkupTag::Other => TagKind::Other,
    }
}

/// The tags that push a style scope at their start and pop it at their end.
pub open spec fn scoped_kind(k: TagKind) -> bool {
    match k {
        TagKind::Heading => true,
        TagKind::CodeBlock => true,
        TagKind::Emphasis => true,
        TagKind::Strong => true,
        TagKind::Strikethrough => true,
        TagKind::Link => true,
        _ => false,
    }
}

/// How many of the open tags push a style scope.
pub open spec fn count_scoped(open: Seq<TagKind>) -> nat
    decreases open.len(),
{
    if open.len() == 0 {
        0
    } else {
        count_scoped(open.drop_last()) + (if scoped_kind(open.last()) {
            1 as nat
        } else {
            0 as nat
        })
    }
}

/// How many of the open tags are lists.
pub open spec fn count_list(open: Seq<TagKind>) -> nat
    decreases open.len(),
{
    if open.len() == 0 {
        0
    } else {
        count_list(open.drop_last()) + (if open.last() == TagKind::List {
            1 as nat
        } else {
            0 as nat
        })
    }
}

/// Well-formedness of the rest of a stream, given the tags already open:
/// every end event closes the innermost open tag, items start only inside
/// an open list, and every open tag is closed before the stream ends.
pub open spec fn wf_from(events: Seq<ParseEvent>, open: Seq<TagKind>) -> bool
    decreases events.len(),
{
    if events.len() == 0 {
        open.len() == 0
    } else {
        let rest = events.drop_first();
        match events[0] {
            ParseEvent::Start(t) => (kind_of(t) != TagKind::Item || count_list(open) > 0)
                && wf_from(rest, open.push(kind_of(t))),
            ParseEvent::End(t) => open.len() > 0 && open.last() == kind_of(t) && wf_from(
                rest,
                open.drop_last(),
            ),
            _ => wf_from(rest, open),
        }
    }
}

/// A well-formed parse stream, as a conforming Markdown parser emits it.
pub open spec fn wf_events(events: Seq<ParseEvent>) -> bool {
    wf_from(events, Seq::empty())
}

pub open spec fn is_scope_push(e: ParseEvent) -> bool {
    match e {
        ParseEvent::Start(t) => scoped_kind(kind_of(t)),
        _ => false,
    }
}

pub open spec fn is_scope_pop(e: ParseEvent) -> bool {
    match e {
        ParseEvent::End(t) => scoped_kind(kind_of(t)),
        _ => false,
    }
}

/// How many events of the stream push a style scope.
pub open spec fn scope_pushes(events: Seq<ParseEvent>) -> nat
    decreases events.len(),
{
    if events.len() == 0 {
        0
    } else {
        (if is_scope_push(events[0]) {
            1 as nat
        } else {
            0 as nat
        }) + scope_pushes(events.drop_first())
    }
}

/// How many events of the stream pop a style scope.
pub open spec fn scope_pops(events: Seq<ParseEvent>) -> nat
    decreases events.len(),
{
    if events.len() == 0 {
        0
    } else {
        (if is_scope_pop(events[0]) {
            1 as nat
        } else {
            0 as nat
        }) + scope_pops(events.drop_first())
    }
}

proof fn lemma_wf_run(events: Seq<ParseEvent>, open: Seq<TagKind>, s: TState)
    requires
        wf_from(events, open),
        s.faces.len() == count_scoped(open),
        s.lists.len() == count_list(open),
    ensures
        run_ok(s, events),
        run(s, events).faces.len() == 0,
        run(s, events).lists.len() == 0,
        scope_pushes(events) + count_scoped(open) == scope_pops(events),
    decreases events.len(),
{
    if events.len() == 0 {
    } else {
        let e = events[0];
        let rest = events.drop_first();
        let s2 = step(s, e);
        match e {
            ParseEvent::Start(t) => {
                let open2 = open.push(kind_of(t));
                assert(open2.drop_last() =~= open);
                assert(count_scoped(open2) == count_scoped(open) + (if scoped_kind(kind_of(t)) {
                    1 as nat
                } else {
                    0 as nat
                }));
                assert(count_list(open2) == count_list(open) + (if kind_of(t) == TagKind::List {
                    1 as nat
                } else {
                    0 as nat
                }));
                assert(s2.faces.len() == count_scoped(open2));
                assert(s2.lists.len() == count_list(open2));
                lemma_wf_run(rest, open2, s2);
            },
            ParseEvent::End(t) => {
                let open2 = open.drop_last();
                assert(count_scoped(open) == count_scoped(open2) + (if scoped_kind(open.last()) {
                    1 as nat
                } else {
                    0 as nat
                }));
                assert(count_list(open) == count_list(open2) + (if open.last() == TagKind::List {
                    1 as nat
                } else {
                    0 as nat
                }));
                assert(s2.faces.len() == count_scoped(open2));
                assert(s2.lists.len() == count_list(open2));
                lemma_wf_run(rest, open2, s2);
            },
            _ => {
                assert(s2.faces == s.faces);
                assert(s2.lists == s.lists);
                lemma_wf_run(rest, open, s2);
            },
        }
    }
}

/// Over a well-formed event stream the transpiler pushes exactly as many
/// style scopes as it pops, and both of its stacks are empty once the
/// stream ends: no scope is left open in the final output, and the machine
/// never underflows a stack along the way.
pub proof fn lemma_balanced_events_close_all_scopes(events: Seq<ParseEvent>)
    requires
        wf_events(events),
    ensures
        scope_pushes(events) == scope_pops(events),
        run(init_state(), events).faces.len() == 0,
        run(init_state(), events).lists.len() == 0,
        run_ok(init_state(), events),
{
    lemma_wf_run(events, Seq::empty(), init_state());
}

/// The trailing no-op restoration of the default face, dropped by the
/// post-processing pass.
pub open spec fn strip_default_suffix(s: Seq<char>) -> Seq<char> {
    if s.len() >= 9 && s.subrange(s.len() - 9, s.len() as int) == "{default}"@ {
        s.take(s.len() - 9)
    } else {
        s
    }
}

/// The final markup of a stream: the machine's output, with a trailing
/// default-face tag stripped and surrounding whitespace trimmed.
pub open spec fn render_events(events: Seq<ParseEvent>) -> Seq<char> {
    trimmed(strip_default_suffix(run(init_state(), events).out))
}

/// The executable transpiler: output string, scope stack, list stack and
/// context flags, mirroring `TState`.
pub struct Transpiler {
    out: String,
    faces: Vec<String>,
    lists: Vec<Option<u64>>,
    in_code: bool,
    in_quote: bool,
    quote_text: bool,
}

/// The views of the faces on the scope stack.
pub open spec fn face_views(faces: Seq<String>) -> Seq<Seq<char>> {
    faces.map_values(|f: String| f@)
}

impl View for Transpiler {
    type V = TState;

    closed spec fn view(&self) -> TState {
        TState {
            out: self.out@,
            faces: face_views(self.faces@),
            lists: self.lists@,
            in_code: self.in_code,
            in_quote: self.in_quote,
            quote_text: self.quote_text,
        }
    }
}

impl Transpiler {
    pub fn new() -> (r: Transpiler)
        ensures
            r@ == init_state(),
    {
        let r = Transpiler {
            out: String::new(),
            faces: Vec::new(),
            lists: Vec::new(),
            in_code: false,
            in_quote: false,
            quote_text: false,
        };
        proof {
            assert(face_views(r.faces@) =~= Seq::<Seq<char>>::empty());
            assert(r@ =~= init_state());
        }
        r
    }

    /// The active base face as a fresh string.
    fn current_base(&self) -> (r: String)
        ensures
            r@ == base_face(self@.faces),
    {
        if self.faces.len() == 0 {
            "default".to_owned()
        } else {
            let f = self.faces[self.faces.len() - 1].clone();
            proof {
                assert(face_views(self.faces@).last() == self.faces@.last()@);
            }
            f
        }
    }

    /// Pops the top face (a no-op on an empty stack) and appends the tag of
    /// the face that becomes active.
    fn emit_restored_face(&mut self)
        ensures
            final(self)@ == (TState {
                out: old(self)@.out + "{"@ + base_face(popped(old(self)@.faces)) + "}"@,
                faces: popped(old(self)@.faces),
                ..old(self)@
            }),
    {
        if self.faces.len() > 0 {
            self.faces.pop();
            proof {
                assert(face_views(self.faces@) =~= face_views(old(self).faces@).drop_last());
            }
        }
        self.out.append("{");
        let base = self.current_base();
        self.out.append(base.as_str());
        self.out.append("}");
        proof {
            assert(self@ =~~= (TState {
                out: old(self)@.out + "{"@ + base_face(popped(old(self)@.faces)) + "}"@,
                faces: popped(old(self)@.faces),
                ..old(self)@
            }));
        }
    }

    /// Applies one event to the state, emitting its markup.
    pub fn apply(&mut self, e: &ParseEvent)
        requires
            step_ok(old(self)@, *e),
        ensures
            final(self)@ == step(old(self)@, *e),
    {
        match e {
            ParseEvent::Start(tag) => match tag {
                MarkupTag::Paragraph => {
                    if self.in_quote && self.quote_text {
                        self.out.append(">\n");
                    } else {
                        self.out.append("\n");
                    }
                },
                MarkupTag::Heading(level) => {
                    self.faces.push("header".to_owned());
                    self.out.append("\n{header}");
                    let n: usize = *level as usize;
                    proof {
                        assert(face_views(self.faces@) =~= old(self)@.faces.push("header"@));
                        assert(self.out@ =~= old(self)@.out + "\n{header}"@ + hashes(0));
                    }
                    let mut k: usize = 0;
                    while k < n
                        invariant
                            k <= n,
                            self.out@ == old(self)@.out + "\n{header}"@ + hashes(k as nat),
                            face_views(self.faces@) == old(self)@.faces.push("header"@),
                            self.lists == old(self).lists,
                            self.in_code == old(self).in_code,
                            self.in_quote == old(self).in_quote,
                            self.quote_text == old(self).quote_text,
                        decreases n - k,
                    {
                        self.out.append("#");
                        proof {
                            assert(self.out@ =~= old(self)@.out + "\n{header}"@ + hashes(
                                (k + 1) as nat,
                            ));
                        }
                        k = k + 1;
                    }
                    self.out.append(" ");
                    proof {
                        assert(hashes(n as nat) == hashes(*level as nat));
                        assert(self@ =~~= step(old(self)@, *e));
                    }
                },
                MarkupTag::BlockQuote => {
                    self.in_quote = true;
                },
                MarkupTag::CodeBlock => {
                    self.in_code = true;
                    self.faces.push("block".to_owned());
                    self.out.append("\n{block}");
                    proof {
                        assert(face_views(self.faces@) =~= old(self)@.faces.push("block"@));
                        assert(self@ =~~= step(old(self)@, *e));
                    }
                },
                MarkupTag::List(start) => {
                    self.lists.push(*start);
                },
                MarkupTag::Item => {
                    let base = self.current_base();
                    let level: usize = self.lists.len();
                    let item = self.lists.pop().unwrap();
                    self.out.append("\n");
                    proof {
                        assert(self.lists@ =~= old(self).lists@.drop_last());
                        assert(self.out@ =~= old(self)@.out + "\n"@ + indent(0));
                    }
                    let mut k: usize = 0;
                    while k < level
                        invariant
                            k <= level,
                            self.out@ == old(self)@.out + "\n"@ + indent(k as nat),
                            self.faces == old(self).faces,
                            self.lists@ == old(self).lists@.drop_last(),
                            self.in_code == old(self).in_code,
                            self.in_quote == old(self).in_quote,
                            self.quote_text == old(self).quote_text,
                        decreases level - k,
                    {
                        self.out.append("  ");
                        proof {
                            assert(self.out@ =~= old(self)@.out + "\n"@ + indent((k + 1) as nat));
                        }
                        k = k + 1;
                    }
                    self.out.append("{bullet}");
                    match item {
                        Some(num) => {
                            push_u64_decimal(&mut self.out, num);
                            if num < u64::MAX {
                                self.lists.push(Some(num + 1));
                            } else {
                                self.lists.push(Some(num));
                            }
                        },
                        None => {
                            self.out.append("-");
                            self.lists.push(None);
                        },
                    }
                    self.out.append(" {");
                    self.out.append(base.as_str());
                    self.out.append("}");
                    proof {
                        assert(self.out@ == old(self)@.out + "\n"@ + indent(
                            old(self)@.lists.len(),
                        ) + "{bullet}"@ + item_marker(old(self)@.lists.last()) + " {"@ + base_face(
                            old(self)@.faces,
                        ) + "}"@);
                        assert(self.lists@ =~= old(self)@.lists.drop_last().push(
                            next_counter(old(self)@.lists.last()),
                        ));
                        assert(self@ =~~= step(old(self)@, *e));
                    }
                },
                MarkupTag::Emphasis => {
                    self.push_composite_face("{+i@", "+i@");
                },
                MarkupTag::Strong => {
                    self.push_composite_face("{+b@", "+b@");
                },
                MarkupTag::Strikethrough => {
                    self.push_composite_face("{+s@", "+s@");
                },
                MarkupTag::Link => {
                    self.faces.push("link".to_owned());
                    self.out.append("{link}");
                    proof {
                        assert(face_views(self.faces@) =~= old(self)@.faces.push("link"@));
                        assert(self@ =~~= step(old(self)@, *e));
                    }
                },
                MarkupTag::Image => {},
                MarkupTag::Other => {},
            },
            ParseEvent::End(tag) => match tag {
                MarkupTag::Paragraph => {
                    self.out.append("\n");
                },
                MarkupTag::Heading(_) => {
                    self.emit_restored_face();
                    self.out.append("\n");
                    proof {
                        assert(self@ =~~= step(old(self)@, *e));
                    }
                },
                MarkupTag::BlockQuote => {
                    self.in_quote = false;
                    self.quote_text = false;
                },
                MarkupTag::CodeBlock => {
                    self.in_code = false;
                    self.emit_restored_face();
                    proof {
                        assert(self@ =~~= step(old(self)@, *e));
                    }
                },
                MarkupTag::List(_) => {
                    self.lists.pop();
                    if self.lists.len() == 0 {
                        self.out.append("\n");
                    }
                    proof {
                        assert(self@ =~~= step(old(self)@, *e));
                    }
                },
                MarkupTag::Item => {},
                MarkupTag::Emphasis | MarkupTag::Strong | MarkupTag::Strikethrough
                    | MarkupTag::Link => {
                    self.emit_restored_face();
                    proof {
                        assert(self@ =~~= step(old(self)@, *e));
                    }
                },
                MarkupTag::Image => {},
                MarkupTag::Other => {},
            },
            ParseEvent::Text(t) => {
                if self.in_quote {
                    self.quote_text = true;
                    self.out.append("> ");
                }
                self.push_escaped_string(t);
                proof {
                    assert(self@ =~~= step(old(self)@, *e));
                }
            },
            ParseEvent::Code(c) => {
                self.out.append("{mono}");
                self.push_escaped_string(c);
                self.out.append("{");
                let base = self.current_base();
                self.out.append(base.as_str());
                self.out.append("}");
                proof {
                    assert(self@ =~~= step(old(self)@, *e));
                }
            },
            ParseEvent::Html(h) => {
                self.push_escaped_string(h);
                proof {
                    assert(self@ =~~= step(old(self)@, *e));
                }
            },
            ParseEvent::FootnoteReference => {},
            ParseEvent::SoftBreak => {
                if self.in_quote || self.in_code {
                    self.out.append("\n");
                } else {
                    self.out.append(" ");
                }
            },
            ParseEvent::HardBreak => {
                self.out.append("\n");
            },
            ParseEvent::Rule => {
                self.out.append("\n{comment}---{");
                let base = self.current_base();
                self.out.append(base.as_str());
                self.out.append("}\n");
                proof {
                    assert(old(self)@.out + "\n{comment}---{"@ + base_face(old(self)@.faces)
                        + "}\n"@ == self@.out);
                    assert(self@ =~~= step(old(self)@, *e));
                }
            },
            ParseEvent::TaskListMarker => {},
        }
        proof {
            assert(self@ =~~= step(old(self)@, *e));
        }
    }

    /// Emits a composite emphasis tag over the current base face and pushes
    /// the composite scope name.
    fn push_composite_face(&mut self, open_tag: &str, prefix: &str)
        ensures
            final(self)@ == (TState {
                out: old(self)@.out + open_tag@ + base_face(old(self)@.faces) + "}"@,
                faces: old(self)@.faces.push(prefix@ + base_face(old(self)@.faces)),
                ..old(self)@
            }),
    {
        let base = self.current_base();
        self.out.append(open_tag);
        self.out.append(base.as_str());
        self.out.append("}");
        let mut composite = prefix.to_owned();
        composite.append(base.as_str());
        self.faces.push(composite);
        proof {
            assert(face_views(self.faces@) =~= old(self)@.faces.push(
                prefix@ + base_face(old(self)@.faces),
            ));
            assert(self@ =~~= (TState {
                out: old(self)@.out + open_tag@ + base_face(old(self)@.faces) + "}"@,
                faces: old(self)@.faces.push(prefix@ + base_face(old(self)@.faces)),
                ..old(self)@
            }));
        }
    }

    /// Appends the brace-escaped text.
    fn push_escaped_string(&mut self, t: &String)
        ensures
            final(self)@ == (TState { out: old(self)@.out + escaped(t@), ..old(self)@ }),
    {
        let e = crate::markup::escape_brace(t.as_str());
        self.out.append(e.as_str());
        proof {
            assert(self@ =~~= (TState { out: old(self)@.out + escaped(t@), ..old(self)@ }));
        }
    }

    /// Post-processing: strips one trailing default-face tag, then trims
    /// surrounding whitespace.
    fn finish(self) -> (r: String)
        ensures
            r@ == trimmed(strip_default_suffix(self@.out)),
    {
        let s = self.out.as_str();
        let n: usize = s.unicode_len();
        let has_suffix: bool = if n >= 9 {
            let tail: String = s.substring_char(n - 9, n).to_owned();
            let pat: String = "{default}".to_owned();
            tail == pat
        } else {
            false
        };
        if has_suffix {
            let body = s.substring_char(0, n - 9);
            proof {
                assert(body@ =~= strip_default_suffix(s@));
            }
            trim_str(body)
        } else {
            trim_str(s)
        }
    }
}

/// Transpiles a whole event stream: runs the machine over the events in
/// order and applies the post-processing pass.
pub fn transpile_events(events: &Vec<ParseEvent>) -> (r: String)
    requires
        run_ok(init_state(), events@),
    ensures
        r@ == render_events(events@),
{
    let mut t = Transpiler::new();
    let ghost all = events@;
    proof {
        assert(all.skip(0) =~= all);
    }
    let mut i: usize = 0;
    while i < events.len()
        invariant
            events@ == all,
            i <= all.len(),
            run(t@, all.skip(i as int)) == run(init_state(), all),
            run_ok(t@, all.skip(i as int)),
        decreases all.len() - i,
    {
        proof {
            assert(all.skip(i as int)[0] == all[i as int]);
            assert(all.skip(i as int).drop_first() =~= all.skip(i as int + 1));
        }
        t.apply(&events[i]);
        i = i + 1;
    }
    proof {
        assert(all.skip(all.len() as int) =~= Seq::<ParseEvent>::empty());
    }
    t.finish()
}

} // verus!
