//! The event-to-tree transformer. The meaning of a render is given by a
//! small-step model: a state of open frames (one per open scope), the
//! finished top-level forest, and the render context; each event maps
//! the state forward. The executable renderer is proved to compute
//! exactly that model, closing still-open scopes when the events run
//! out and counting every malformed-stream recovery.
use vstd::prelude::*;

use crate::context::{Context, ContextView, TableState};
use crate::escape::{attr_escaped, body_escaped, href_escaped};
use crate::event::{
    Alignment, BlockQuoteKind, CodeBlockKind, Event, EventView, HeadingLevel, LinkType, Tag,
    TagEnd, TagView,
};
use crate::node::{nodes_view, DocumentNode, NodeView};
use crate::escape::{escape_href, escape_html, escape_html_body};
use crate::event::{opt_string_view, strings_view};
use crate::node::{lemma_nodes_view_concat, lemma_nodes_view_singleton};
use crate::strutil::{first_token, join_strings, spec_first_token, spec_join};
use vstd::string::StrSliceExecFns;
use vstd::string::StringExecFns;

verus! {

broadcast use vstd::std_specs::vec::group_vec_axioms;

/// What a start event resolves to before its children are known: the
/// node constructor and its already-escaped attributes. The two
/// transparent kinds produce no node of their own; their children are
/// spliced into the surrounding scope.
#[derive(Debug)]
pub enum Builder {
    Paragraph,
    Heading { level: HeadingLevel, id: Option<String>, classes: Option<String> },
    BlockQuote { class: Option<String> },
    CodeBlock { language_class: Option<String> },
    HtmlBlock,
    OrderedList { start: Option<u64> },
    UnorderedList,
    Item,
    FootnoteDefinition { id: String, number: usize },
    DefinitionList,
    DefinitionListTitle,
    DefinitionListDefinition,
    Table,
    TableHead,
    TableRow,
    TableHeadCell { style: Option<String> },
    TableBodyCell { style: Option<String> },
    Emphasis,
    Strong,
    Strikethrough,
    Subscript,
    Superscript,
    Link { href: String, title: Option<String> },
    Image { src: String, title: Option<String> },
    MetadataBlock,
}

/// Mathematical mirror of `Builder`.
pub enum BuilderView {
    Paragraph,
    Heading { level: HeadingLevel, id: Option<Seq<char>>, classes: Option<Seq<char>> },
    BlockQuote { class: Option<Seq<char>> },
    CodeBlock { language_class: Option<Seq<char>> },
    HtmlBlock,
    OrderedList { start: Option<u64> },
    UnorderedList,
    Item,
    FootnoteDefinition { id: Seq<char>, number: nat },
    DefinitionList,
    DefinitionListTitle,
    DefinitionListDefinition,
    Table,
    TableHead,
    TableRow,
    TableHeadCell { style: Option<Seq<char>> },
    TableBodyCell { style: Option<Seq<char>> },
    Emphasis,
    Strong,
    Strikethrough,
    Subscript,
    Superscript,
    Link { href: Seq<char>, title: Option<Seq<char>> },
    Image { src: Seq<char>, title: Option<Seq<char>> },
    MetadataBlock,
}

pub open spec fn builder_view(b: Builder) -> BuilderView {
    match b {
        Builder::Paragraph => BuilderView::Paragraph,
        Builder::Heading { level, id, classes } => BuilderView::Heading {
            level,
            id: crate::event::opt_string_view(id),
            classes: crate::event::opt_string_view(classes),
        },
        Builder::BlockQuote { class } => BuilderView::BlockQuote {
            class: crate::event::opt_string_view(class),
        },
        Builder::CodeBlock { language_class } => BuilderView::CodeBlock {
            language_class: crate::event::opt_string_view(language_class),
        },
        Builder::HtmlBlock => BuilderView::HtmlBlock,
        Builder::OrderedList { start } => BuilderView::OrderedList { start },
        Builder::UnorderedList => BuilderView::UnorderedList,
        Builder::Item => BuilderView::Item,
        Builder::FootnoteDefinition { id, number } => BuilderView::FootnoteDefinition {
            id: id@,
            number: number as nat,
        },
        Builder::DefinitionList => BuilderView::DefinitionList,
        Builder::DefinitionListTitle => BuilderView::DefinitionListTitle,
        Builder::DefinitionListDefinition => BuilderView::DefinitionListDefinition,
        Builder::Table => BuilderView::Table,
        Builder::TableHead => BuilderView::TableHead,
        Builder::TableRow => BuilderView::TableRow,
        Builder::TableHeadCell { style } => BuilderView::TableHeadCell {
            style: crate::event::opt_string_view(style),
        },
        Builder::TableBodyCell { style } => BuilderView::TableBodyCell {
            style: crate::event::opt_string_view(style),
        },
        Builder::Emphasis => BuilderView::Emphasis,
        Builder::Strong => BuilderView::Strong,
        Builder::Strikethrough => BuilderView::Strikethrough,
        Builder::Subscript => BuilderView::Subscript,
        Builder::Superscript => BuilderView::Superscript,
        Builder::Link { href, title } => BuilderView::Link {
            href: href@,
            title: crate::event::opt_string_view(title),
        },
        Builder::Image { src, title } => BuilderView::Image {
            src: src@,
            title: crate::event::opt_string_view(title),
        },
        Builder::MetadataBlock => BuilderView::MetadataBlock,
    }
}

/// One open scope: its resolved start data and the children collected
/// so far.
pub struct Frame {
    pub builder: Builder,
    pub children: Vec<DocumentNode>,
}

/// Mathematical mirror of `Frame`.
#[verifier::ext_equal]
pub struct FrameView {
    pub builder: BuilderView,
    pub children: Seq<NodeView>,
}

pub open spec fn frame_view(f: Frame) -> FrameView {
    FrameView { builder: builder_view(f.builder), children: nodes_view(f.children@) }
}

pub open spec fn frames_view(fs: Seq<Frame>) -> Seq<FrameView> {
    Seq::new(fs.len(), |i: int| frame_view(fs[i]))
}

/// The whole state of a render in flight.
#[verifier::ext_equal]
pub struct StateView {
    pub stack: Seq<FrameView>,
    pub done: Seq<NodeView>,
    pub ctx: ContextView,
}

/// The class name attached to a block quote of the given alert kind.
pub open spec fn spec_alert_class(k: BlockQuoteKind) -> Seq<char> {
    match k {
        BlockQuoteKind::Note => "markdown-alert-note"@,
        BlockQuoteKind::Tip => "markdown-alert-tip"@,
        BlockQuoteKind::Important => "markdown-alert-important"@,
        BlockQuoteKind::Warning => "markdown-alert-warning"@,
        BlockQuoteKind::Caution => "markdown-alert-caution"@,
    }
}

/// The style a table cell receives: a pure function of the column
/// alignments and the cell's index in its row.
pub open spec fn spec_cell_style(aligns: Seq<Alignment>, i: nat) -> Option<Seq<char>> {
    if i < aligns.len() {
        match aligns[i as int] {
            Alignment::Left => Option::Some("text-align: left"@),
            Alignment::Center => Option::Some("text-align: center"@),
            Alignment::Right => Option::Some("text-align: right"@),
            Alignment::Unset => Option::None,
        }
    } else {
        Option::None
    }
}

/// First position of `x` in `s`; meaningful only when `s` contains `x`.
pub open spec fn spec_first_index(s: Seq<Seq<char>>, x: Seq<char>) -> int
    decreases s.len(),
{
    if s.len() == 0 {
        0
    } else if s[0] == x {
        0
    } else {
        1 + spec_first_index(s.drop_first(), x)
    }
}

/// The ordinal a footnote name receives: its position in the
/// first-sight order plus one, or one past the names seen so far when
/// the name is new.
pub open spec fn footnote_ordinal(numbers: Seq<Seq<char>>, name: Seq<char>) -> nat {
    if numbers.contains(name) {
        (spec_first_index(numbers, name) + 1) as nat
    } else {
        numbers.len() + 1
    }
}

/// The footnote order after a definition of `name` has been seen.
pub open spec fn footnote_insert(numbers: Seq<Seq<char>>, name: Seq<char>) -> Seq<Seq<char>> {
    if numbers.contains(name) {
        numbers
    } else {
        numbers.push(name)
    }
}

/// The class attribute of a heading: its classes, each
/// attribute-escaped, joined by single spaces; no attribute at all when
/// there are no classes.
pub open spec fn spec_classes_attr(classes: Seq<Seq<char>>) -> Option<Seq<char>> {
    if classes.len() == 0 {
        Option::None
    } else {
        Option::Some(
            spec_join(Seq::new(classes.len(), |i: int| attr_escaped(classes[i])), seq![' ']),
        )
    }
}

/// An optional title attribute: an empty title is suppressed entirely.
pub open spec fn spec_opt_title(title: Seq<char>) -> Option<Seq<char>> {
    if title.len() == 0 {
        Option::None
    } else {
        Option::Some(title)
    }
}

/// The language class of a fenced code block: none when the info
/// string's first token is empty, otherwise `language-` followed by the
/// escaped token.
pub open spec fn spec_language_class(info: Seq<char>) -> Option<Seq<char>> {
    if spec_first_token(info).len() == 0 {
        Option::None
    } else {
        Option::Some("language-"@ + attr_escaped(spec_first_token(info)))
    }
}

/// The frame a start event opens, resolved against the context as it
/// stood when the event was drawn.
pub open spec fn start_builder(t: TagView, c: ContextView) -> BuilderView {
    match t {
        TagView::Paragraph => BuilderView::Paragraph,
        TagView::Heading { level, id, classes } => BuilderView::Heading {
            level,
            id: match id {
                Option::Some(s) => Option::Some(attr_escaped(s)),
                Option::None => Option::None,
            },
            classes: spec_classes_attr(classes),
        },
        TagView::BlockQuote { kind } => BuilderView::BlockQuote {
            class: match kind {
                Option::Some(k) => Option::Some(spec_alert_class(k)),
                Option::None => Option::None,
            },
        },
        TagView::CodeBlockIndented => BuilderView::CodeBlock { language_class: Option::None },
        TagView::CodeBlockFenced { info } => BuilderView::CodeBlock {
            language_class: spec_language_class(info),
        },
        TagView::HtmlBlock => BuilderView::HtmlBlock,
        TagView::List { start } => match start {
            Option::None => BuilderView::UnorderedList,
            Option::Some(n) => BuilderView::OrderedList {
                start: if n == 1 {
                    Option::None
                } else {
                    Option::Some(n)
                },
            },
        },
        TagView::Item => BuilderView::Item,
        TagView::FootnoteDefinition { name } => BuilderView::FootnoteDefinition {
            id: attr_escaped(name),
            number: footnote_ordinal(c.numbers, name),
        },
        TagView::DefinitionList => BuilderView::DefinitionList,
        TagView::DefinitionListTitle => BuilderView::DefinitionListTitle,
        TagView::DefinitionListDefinition => BuilderView::DefinitionListDefinition,
        TagView::Table { alignments } => BuilderView::Table,
        TagView::TableHead => BuilderView::TableHead,
        TagView::TableRow => BuilderView::TableRow,
        TagView::TableCell => {
            let style = spec_cell_style(c.table_alignments, c.table_cell_index);
            match c.table_state {
                TableState::Head => BuilderView::TableHeadCell { style },
                TableState::Body => BuilderView::TableBodyCell { style },
            }
        },
        TagView::Emphasis => BuilderView::Emphasis,
        TagView::Strong => BuilderView::Strong,
        TagView::Strikethrough => BuilderView::Strikethrough,
        TagView::Link { link_type, dest_url, title } => BuilderView::Link {
            href: if link_type == LinkType::Email {
                "mailto:"@ + href_escaped(dest_url)
            } else {
                href_escaped(dest_url)
            },
            title: spec_opt_title(title),
        },
        TagView::Subscript => BuilderView::Subscript,
        TagView::Superscript => BuilderView::Superscript,
        TagView::Image { dest_url, title } => BuilderView::Image {
            src: href_escaped(dest_url),
            title: spec_opt_title(title),
        },
        TagView::MetadataBlock => BuilderView::MetadataBlock,
    }
}

/// The context after a start event's side effects.
pub open spec fn start_ctx(t: TagView, c: ContextView) -> ContextView {
    match t {
        TagView::FootnoteDefinition { name } => ContextView {
            numbers: footnote_insert(c.numbers, name),
            ..c
        },
        TagView::Table { alignments } => ContextView { table_alignments: alignments, ..c },
        TagView::TableHead => ContextView {
            table_state: TableState::Head,
            table_cell_index: 0,
            ..c
        },
        TagView::TableRow => ContextView { table_cell_index: 0, ..c },
        TagView::MetadataBlock => ContextView { in_non_writing_block: true, ..c },
        _ => c,
    }
}

/// The context after an end event's side effects: closing a table head
/// flips to body phase, closing a cell advances the cell index, closing
/// a metadata block lifts suppression.
pub open spec fn end_ctx(t: TagEnd, c: ContextView) -> ContextView {
    match t {
        TagEnd::TableHead => ContextView { table_state: TableState::Body, ..c },
        TagEnd::TableCell => ContextView { table_cell_index: c.table_cell_index + 1, ..c },
        TagEnd::MetadataBlock => ContextView { in_non_writing_block: false, ..c },
        _ => c,
    }
}

/// What closing a frame contributes to the surrounding scope: one node
/// owning the collected children, or — for the two transparent kinds —
/// the children themselves.
pub open spec fn close_builder(b: BuilderView, children: Seq<NodeView>) -> Seq<NodeView> {
    match b {
        BuilderView::HtmlBlock => children,
        BuilderView::MetadataBlock => children,
        BuilderView::Paragraph => seq![NodeView::Paragraph { children }],
        BuilderView::Heading { level, id, classes } => seq![
            NodeView::Heading { level, id, classes, children },
        ],
        BuilderView::BlockQuote { class } => seq![NodeView::BlockQuote { class, children }],
        BuilderView::CodeBlock { language_class } => seq![
            NodeView::CodeBlock { language_class, children },
        ],
        BuilderView::OrderedList { start } => seq![NodeView::OrderedList { start, children }],
        BuilderView::UnorderedList => seq![NodeView::UnorderedList { children }],
        BuilderView::Item => seq![NodeView::Item { children }],
        BuilderView::FootnoteDefinition { id, number } => seq![
            NodeView::FootnoteDefinition { id, number, children },
        ],
        BuilderView::DefinitionList => seq![NodeView::DefinitionList { children }],
        BuilderView::DefinitionListTitle => seq![NodeView::DefinitionListTitle { children }],
        BuilderView::DefinitionListDefinition => seq![
            NodeView::DefinitionListDefinition { children },
        ],
        BuilderView::Table => seq![NodeView::Table { children }],
        BuilderView::TableHead => seq![NodeView::TableHead { children }],
        BuilderView::TableRow => seq![NodeView::TableRow { children }],
        BuilderView::TableHeadCell { style } => seq![NodeView::TableHeadCell { style, children }],
        BuilderView::TableBodyCell { style } => seq![NodeView::TableBodyCell { style, children }],
        BuilderView::Emphasis => seq![NodeView::Emphasis { children }],
        BuilderView::Strong => seq![NodeView::Strong { children }],
        BuilderView::Strikethrough => seq![NodeView::Strikethrough { children }],
        BuilderView::Subscript => seq![NodeView::Subscript { children }],
        BuilderView::Superscript => seq![NodeView::Superscript { children }],
        BuilderView::Link { href, title } => seq![NodeView::Link { href, title, children }],
        BuilderView::Image { src, title } => seq![NodeView::Image { src, title, children }],
    }
}

/// The nodes a leaf event emits: none while text is suppressed, at most
/// one otherwise. A footnote reference shows one past the count of
/// names seen so far — the literal order-of-encounter count, which can
/// diverge from the definition's ordinal when a reference precedes its
/// definition.
pub open spec fn leaf_nodes(ev: EventView, c: ContextView) -> Seq<NodeView> {
    match ev {
        EventView::Text { text } => {
            if c.in_non_writing_block {
                Seq::empty()
            } else {
                seq![NodeView::Text { text: body_escaped(text) }]
            }
        },
        EventView::Code { text } => seq![NodeView::InlineCode { text: body_escaped(text) }],
        EventView::InlineMath { text } => seq![NodeView::InlineMath { text: attr_escaped(text) }],
        EventView::DisplayMath { text } => seq![
            NodeView::DisplayMath { text: attr_escaped(text) },
        ],
        EventView::Html { html } => seq![NodeView::HtmlPassthrough { html }],
        EventView::InlineHtml { html } => seq![NodeView::HtmlPassthrough { html }],
        EventView::FootnoteReference { name } => seq![
            NodeView::FootnoteReference {
                href: seq!['#'] + href_escaped(name),
                number: c.numbers.len() + 1,
            },
        ],
        EventView::SoftBreak => seq![NodeView::SoftBreak],
        EventView::HardBreak => seq![NodeView::HardBreak],
        EventView::Rule => seq![NodeView::HorizontalRule],
        EventView::TaskListMarker { checked } => seq![NodeView::TaskListMarker { checked }],
        EventView::Start { .. } => Seq::empty(),
        EventView::End { .. } => Seq::empty(),
    }
}

/// Where emitted nodes change the stack: appended to the children of
/// the innermost open scope, if one is open.
pub open spec fn emit_stack(stack: Seq<FrameView>, ns: Seq<NodeView>) -> Seq<FrameView> {
    if stack.len() == 0 {
        stack
    } else {
        stack.update(
            stack.len() - 1,
            FrameView {
                builder: stack.last().builder,
                children: stack.last().children + ns,
            },
        )
    }
}

/// Where emitted nodes change the finished forest: appended there only
/// when no scope is open.
pub open spec fn emit_done(stack: Seq<FrameView>, done: Seq<NodeView>, ns: Seq<NodeView>) -> Seq<
    NodeView,
> {
    if stack.len() == 0 {
        done + ns
    } else {
        done
    }
}

/// Nodes land in the children of the innermost open scope, or in the
/// finished forest when no scope is open.
pub open spec fn emit(s: StateView, ns: Seq<NodeView>) -> StateView {
    StateView {
        stack: emit_stack(s.stack, ns),
        done: emit_done(s.stack, s.done, ns),
        ctx: s.ctx,
    }
}

/// One event moves the state forward: a start opens a frame, an end
/// closes the innermost frame (an end with no open frame only records
/// an anomaly), a leaf emits its nodes.
pub open spec fn step(s: StateView, ev: EventView) -> StateView {
    match ev {
        EventView::Start { tag } => StateView {
            stack: s.stack.push(
                FrameView { builder: start_builder(tag, s.ctx), children: Seq::empty() },
            ),
            done: s.done,
            ctx: start_ctx(tag, s.ctx),
        },
        EventView::End { tag } => {
            let c2 = end_ctx(tag, s.ctx);
            if s.stack.len() == 0 {
                StateView { ctx: ContextView { anomalies: c2.anomalies + 1, ..c2 }, ..s }
            } else {
                let top = s.stack.last();
                emit(
                    StateView { stack: s.stack.drop_last(), done: s.done, ctx: c2 },
                    close_builder(top.builder, top.children),
                )
            }
        },
        _ => emit(s, leaf_nodes(ev, s.ctx)),
    }
}

/// The state after a whole event sequence.
pub open spec fn run(s: StateView, evs: Seq<EventView>) -> StateView
    decreases evs.len(),
{
    if evs.len() == 0 {
        s
    } else {
        run(step(s, evs[0]), evs.drop_first())
    }
}

/// Scopes still open when the events ran out are closed implicitly,
/// innermost first, each recorded as one anomaly; their end-of-scope
/// context effects do not fire, because no end event was drawn.
pub open spec fn finish(s: StateView) -> StateView
    decreases s.stack.len(),
{
    if s.stack.len() == 0 {
        s
    } else {
        let top = s.stack.last();
        let popped = emit(
            StateView {
                stack: s.stack.drop_last(),
                done: s.done,
                ctx: ContextView { anomalies: s.ctx.anomalies + 1, ..s.ctx },
            },
            close_builder(top.builder, top.children),
        );
        finish(popped)
    }
}

/// The complete meaning of one render call: run every event from the
/// given context, then close what is still open. The resulting `done`
/// is the output forest; the resulting `ctx` is the context handed
/// back, its `anomalies` counting the malformed-stream recoveries.
pub open spec fn render_spec(evs: Seq<EventView>, c: ContextView) -> StateView {
    finish(run(StateView { stack: Seq::empty(), done: Seq::empty(), ctx: c }, evs))
}

/// Room the context needs so that none of its counters can overflow
/// while `n` more events are processed.
pub open spec fn ctx_fits(c: ContextView, n: nat) -> bool {
    &&& c.numbers.len() + n <= usize::MAX
    &&& c.table_cell_index + n <= usize::MAX
    &&& c.anomalies + n <= usize::MAX
}

// ---------------------------------------------------------------------
// Facts about the model that the executable renderer and the laws use.
// ---------------------------------------------------------------------

pub proof fn lemma_run_push(s: StateView, pre: Seq<EventView>, e: EventView)
    ensures
        run(s, pre.push(e)) == step(run(s, pre), e),
    decreases pre.len(),
{
    if pre.len() == 0 {
        assert(pre.push(e)[0] == e);
        assert(pre.push(e).drop_first() =~= Seq::<EventView>::empty());
    } else {
        assert(pre.push(e)[0] == pre[0]);
        assert(pre.push(e).drop_first() =~= pre.drop_first().push(e));
        lemma_run_push(step(s, pre[0]), pre.drop_first(), e);
    }
}

/// One step grows every context counter by at most one, and the stack
/// by at most one frame.
pub proof fn lemma_step_bounds(s: StateView, e: EventView)
    ensures
        step(s, e).ctx.numbers.len() <= s.ctx.numbers.len() + 1,
        step(s, e).ctx.table_cell_index <= s.ctx.table_cell_index + 1,
        step(s, e).ctx.anomalies <= s.ctx.anomalies + 1,
        step(s, e).stack.len() <= s.stack.len() + 1,
        step(s, e).ctx.anomalies + step(s, e).stack.len() <= s.ctx.anomalies + s.stack.len() + 1,
{
}

pub proof fn lemma_first_index_found(s: Seq<Seq<char>>, x: Seq<char>, j: int)
    requires
        0 <= j < s.len(),
        s[j] == x,
        forall|k: int| 0 <= k < j ==> s[k] != x,
    ensures
        s.contains(x),
        spec_first_index(s, x) == j,
    decreases j,
{
    assert(s.contains(x)) by {
        assert(s[j] == x);
    }
    if j > 0 {
        assert(s[0] != x);
        assert forall|k: int| 0 <= k < j - 1 implies s.drop_first()[k] != x by {
            assert(s.drop_first()[k] == s[k + 1]);
        }
        assert(s.drop_first()[j - 1] == x);
        lemma_first_index_found(s.drop_first(), x, j - 1);
    }
}

// ---------------------------------------------------------------------
// The executable renderer.
// ---------------------------------------------------------------------

fn copy_alignments(src: &Vec<Alignment>) -> (r: Vec<Alignment>)
    ensures
        r@ == src@,
{
    let mut r: Vec<Alignment> = Vec::new();
    let mut i: usize = 0;
    while i < src.len()
        invariant
            0 <= i <= src@.len(),
            r@ == src@.take(i as int),
        decreases src@.len() - i,
    {
        r.push(src[i]);
        proof {
            assert(src@.take(i as int).push(src@[i as int]) =~= src@.take(i as int + 1));
        }
        i = i + 1;
    }
    proof {
        assert(src@.take(src@.len() as int) =~= src@);
    }
    r
}

/// The style of the cell about to open, read off the current context.
fn cell_style_of(cx: &Context) -> (r: Option<String>)
    ensures
        opt_string_view(r) == spec_cell_style(cx@.table_alignments, cx@.table_cell_index),
{
    if cx.table_cell_index < cx.table_alignments.len() {
        match cx.table_alignments[cx.table_cell_index] {
            Alignment::Left => Option::Some(String::from_str("text-align: left")),
            Alignment::Center => Option::Some(String::from_str("text-align: center")),
            Alignment::Right => Option::Some(String::from_str("text-align: right")),
            Alignment::Unset => Option::None,
        }
    } else {
        Option::None
    }
}

/// The heading class attribute: every class escaped, joined by spaces.
fn classes_attr_of(classes: &Vec<String>) -> (r: Option<String>)
    ensures
        opt_string_view(r) == spec_classes_attr(strings_view(classes@)),
{
    let mut escaped: Vec<String> = Vec::new();
    let mut i: usize = 0;
    while i < classes.len()
        invariant
            0 <= i <= classes@.len(),
            escaped@.len() == i,
            forall|k: int| 0 <= k < i ==> escaped@[k]@ == attr_escaped(classes@[k]@),
        decreases classes@.len() - i,
    {
        escaped.push(escape_html(classes[i].as_str()));
        i = i + 1;
    }
    let r = join_strings(&escaped, " ");
    proof {
        reveal_strlit(" ");
        assert(" "@ =~= seq![' ']);
        let cs = strings_view(classes@);
        assert(strings_view(escaped@) =~= Seq::new(cs.len(), |k: int| attr_escaped(cs[k])));
    }
    r
}

/// The language class of a fenced code block's info string.
fn language_class_of(info: &str) -> (r: Option<String>)
    ensures
        opt_string_view(r) == spec_language_class(info@),
{
    let lang = first_token(info);
    if lang.as_str().is_empty() {
        Option::None
    } else {
        let escaped = escape_html(lang.as_str());
        let mut out = String::from_str("language-");
        out.append(escaped.as_str());
        Option::Some(out)
    }
}

/// Looks the footnote name up, assigning the next ordinal on first
/// sight and remembering the name.
fn footnote_number(cx: &mut Context, name: &String) -> (num: usize)
    requires
        old(cx)@.numbers.len() < usize::MAX,
    ensures
        num as nat == footnote_ordinal(old(cx)@.numbers, name@),
        final(cx)@ == (ContextView { numbers: footnote_insert(old(cx)@.numbers, name@), ..old(
            cx,
        )@ }),
{
    let ghost numbers = cx@.numbers;
    let mut j: usize = 0;
    while j < cx.numbers.len()
        invariant
            0 <= j <= cx.numbers@.len(),
            *cx == *old(cx),
            numbers == cx@.numbers,
            forall|k: int| 0 <= k < j ==> numbers[k] != name@,
        decreases cx.numbers@.len() - j,
    {
        if cx.numbers[j] == *name {
            proof {
                lemma_first_index_found(numbers, name@, j as int);
            }
            return j + 1;
        }
        j = j + 1;
    }
    proof {
        assert(!numbers.contains(name@));
    }
    let num = cx.numbers.len() + 1;
    cx.numbers.push(name.clone());
    proof {
        assert(final(cx)@.numbers =~= numbers.push(name@));
        assert(final(cx)@ =~= (ContextView {
            numbers: footnote_insert(old(cx)@.numbers, name@),
            ..old(cx)@
        }));
    }
    num
}

/// Resolves a start event: applies its context side effects and builds
/// the frame's constructor data, all attributes escaped here, at the
/// point the data crosses into markup.
fn start_frame(tag: &Tag, cx: &mut Context) -> (b: Builder)
    requires
        old(cx)@.numbers.len() < usize::MAX,
    ensures
        builder_view(b) == start_builder(tag@, old(cx)@),
        final(cx)@ == start_ctx(tag@, old(cx)@),
{
    match tag {
        Tag::Paragraph => Builder::Paragraph,
        Tag::Heading { level, id, classes } => {
            let eid = match id {
                Option::Some(s) => Option::Some(escape_html(s.as_str())),
                Option::None => Option::None,
            };
            Builder::Heading { level: *level, id: eid, classes: classes_attr_of(classes) }
        },
        Tag::BlockQuote { kind } => {
            let class = match kind {
                Option::Some(BlockQuoteKind::Note) => Option::Some(
                    String::from_str("markdown-alert-note"),
                ),
                Option::Some(BlockQuoteKind::Tip) => Option::Some(
                    String::from_str("markdown-alert-tip"),
                ),
                Option::Some(BlockQuoteKind::Important) => Option::Some(
                    String::from_str("markdown-alert-important"),
                ),
                Option::Some(BlockQuoteKind::Warning) => Option::Some(
                    String::from_str("markdown-alert-warning"),
                ),
                Option::Some(BlockQuoteKind::Caution) => Option::Some(
                    String::from_str("markdown-alert-caution"),
                ),
                Option::None => Option::None,
            };
            Builder::BlockQuote { class }
        },
        Tag::CodeBlock { kind } => match kind {
            CodeBlockKind::Indented => Builder::CodeBlock { language_class: Option::None },
            CodeBlockKind::Fenced { info } => Builder::CodeBlock {
                language_class: language_class_of(info.as_str()),
            },
        },
        Tag::HtmlBlock => Builder::HtmlBlock,
        Tag::List { start } => match start {
            Option::None => Builder::UnorderedList,
            Option::Some(n) => {
                if *n == 1 {
                    Builder::OrderedList { start: Option::None }
                } else {
                    Builder::OrderedList { start: Option::Some(*n) }
                }
            },
        },
        Tag::Item => Builder::Item,
        Tag::FootnoteDefinition { name } => {
            let id = escape_html(name.as_str());
            let number = footnote_number(cx, name);
            Builder::FootnoteDefinition { id, number }
        },
        Tag::DefinitionList => Builder::DefinitionList,
        Tag::DefinitionListTitle => Builder::DefinitionListTitle,
        Tag::DefinitionListDefinition => Builder::DefinitionListDefinition,
        Tag::Table { alignments } => {
            cx.table_alignments = copy_alignments(alignments);
            proof {
                assert(cx@ =~= start_ctx(tag@, old(cx)@));
            }
            Builder::Table
        },
        Tag::TableHead => {
            cx.table_state = TableState::Head;
            cx.table_cell_index = 0;
            proof {
                assert(cx@ =~= start_ctx(tag@, old(cx)@));
            }
            Builder::TableHead
        },
        Tag::TableRow => {
            cx.table_cell_index = 0;
            proof {
                assert(cx@ =~= start_ctx(tag@, old(cx)@));
            }
            Builder::TableRow
        },
        Tag::TableCell => {
            let style = cell_style_of(cx);
            match cx.table_state {
                TableState::Head => Builder::TableHeadCell { style },
                TableState::Body => Builder::TableBodyCell { style },
            }
        },
        Tag::Emphasis => Builder::Emphasis,
        Tag::Strong => Builder::Strong,
        Tag::Strikethrough => Builder::Strikethrough,
        Tag::Link { link_type, dest_url, title } => {
            let href = match link_type {
                LinkType::Email => {
                    let mut h = String::from_str("mailto:");
                    h.append(escape_href(dest_url.as_str()).as_str());
                    h
                },
                _ => escape_href(dest_url.as_str()),
            };
            let t = if title.as_str().is_empty() {
                Option::None
            } else {
                Option::Some(title.clone())
            };
            Builder::Link { href, title: t }
        },
        Tag::Subscript => Builder::Subscript,
        Tag::Superscript => Builder::Superscript,
        Tag::Image { dest_url, title } => {
            let src = escape_href(dest_url.as_str());
            let t = if title.as_str().is_empty() {
                Option::None
            } else {
                Option::Some(title.clone())
            };
            Builder::Image { src, title: t }
        },
        Tag::MetadataBlock => {
            cx.in_non_writing_block = true;
            proof {
                assert(cx@ =~= start_ctx(tag@, old(cx)@));
            }
            Builder::MetadataBlock
        },
    }
}

/// Closes one frame: wraps the collected children in the frame's node,
/// or hands them through unchanged for the transparent kinds.
fn close_frame(f: Frame) -> (r: Vec<DocumentNode>)
    ensures
        nodes_view(r@) == close_builder(builder_view(f.builder), nodes_view(f.children@)),
{
    let Frame { builder, children } = f;
    let node = match builder {
        Builder::HtmlBlock => {
            return children;
        },
        Builder::MetadataBlock => {
            return children;
        },
        Builder::Paragraph => DocumentNode::Paragraph { children },
        Builder::Heading { level, id, classes } => DocumentNode::Heading {
            level,
            id,
            classes,
            children,
        },
        Builder::BlockQuote { class } => DocumentNode::BlockQuote { class, children },
        Builder::CodeBlock { language_class } => DocumentNode::CodeBlock {
            language_class,
            children,
        },
        Builder::OrderedList { start } => DocumentNode::OrderedList { start, children },
        Builder::UnorderedList => DocumentNode::UnorderedList { children },
        Builder::Item => DocumentNode::Item { children },
        Builder::FootnoteDefinition { id, number } => DocumentNode::FootnoteDefinition {
            id,
            number,
            children,
        },
        Builder::DefinitionList => DocumentNode::DefinitionList { children },
        Builder::DefinitionListTitle => DocumentNode::DefinitionListTitle { children },
        Builder::DefinitionListDefinition => DocumentNode::DefinitionListDefinition { children },
        Builder::Table => DocumentNode::Table { children },
        Builder::TableHead => DocumentNode::TableHead { children },
        Builder::TableRow => DocumentNode::TableRow { children },
        Builder::TableHeadCell { style } => DocumentNode::TableHeadCell { style, children },
        Builder::TableBodyCell { style } => DocumentNode::TableBodyCell { style, children },
        Builder::Emphasis => DocumentNode::Emphasis { children },
        Builder::Strong => DocumentNode::Strong { children },
        Builder::Strikethrough => DocumentNode::Strikethrough { children },
        Builder::Subscript => DocumentNode::Subscript { children },
        Builder::Superscript => DocumentNode::Superscript { children },
        Builder::Link { href, title } => DocumentNode::Link { href, title, children },
        Builder::Image { src, title } => DocumentNode::Image { src, title, children },
    };
    let mut out: Vec<DocumentNode> = Vec::new();
    out.push(node);
    proof {
        assert(out@ =~= seq![node]);
        lemma_nodes_view_singleton(node);
    }
    out
}

/// The nodes a leaf event emits, under the current context.
fn leaf_nodes_exec(ev: &Event, cx: &Context) -> (r: Vec<DocumentNode>)
    requires
        cx@.numbers.len() < usize::MAX,
    ensures
        nodes_view(r@) == leaf_nodes(ev@, cx@),
{
    let mut out: Vec<DocumentNode> = Vec::new();
    let node: DocumentNode = match ev {
        Event::Text { text } => {
            if cx.in_non_writing_block {
                return out;
            }
            DocumentNode::Text { text: escape_html_body(text.as_str()) }
        },
        Event::Code { text } => DocumentNode::InlineCode {
            text: escape_html_body(text.as_str()),
        },
        Event::InlineMath { text } => DocumentNode::InlineMath {
            text: escape_html(text.as_str()),
        },
        Event::DisplayMath { text } => DocumentNode::DisplayMath {
            text: escape_html(text.as_str()),
        },
        Event::Html { html } => DocumentNode::HtmlPassthrough { html: html.clone() },
        Event::InlineHtml { html } => DocumentNode::HtmlPassthrough { html: html.clone() },
        Event::FootnoteReference { name } => {
            let mut href = String::from_str("#");
            href.append(escape_href(name.as_str()).as_str());
            proof {
                reveal_strlit("#");
                assert("#"@ =~= seq!['#']);
            }
            DocumentNode::FootnoteReference { href, number: cx.numbers.len() + 1 }
        },
        Event::SoftBreak => DocumentNode::SoftBreak,
        Event::HardBreak => DocumentNode::HardBreak,
        Event::Rule => DocumentNode::HorizontalRule,
        Event::TaskListMarker { checked } => DocumentNode::TaskListMarker { checked: *checked },
        Event::Start { .. } => {
            return out;
        },
        Event::End { .. } => {
            return out;
        },
    };
    out.push(node);
    proof {
        assert(out@ =~= seq![node]);
        lemma_nodes_view_singleton(node);
    }
    out
}

/// Appends freshly produced nodes where they belong: to the children
/// of the innermost open frame, or to the finished forest.
fn emit_nodes(stack: &mut Vec<Frame>, done: &mut Vec<DocumentNode>, ns: Vec<DocumentNode>)
    ensures
        frames_view(final(stack)@) == emit_stack(frames_view(old(stack)@), nodes_view(ns@)),
        nodes_view(final(done)@) == emit_done(
            frames_view(old(stack)@),
            nodes_view(old(done)@),
            nodes_view(ns@),
        ),
{
    let ghost ns0 = ns@;
    let mut ns = ns;
    if stack.len() == 0 {
        proof {
            lemma_nodes_view_concat(done@, ns@);
        }
        done.append(&mut ns);
    } else {
        let mut f = match stack.pop() {
            Option::Some(f) => f,
            Option::None => {
                return;
            },
        };
        proof {
            lemma_nodes_view_concat(f.children@, ns@);
        }
        f.children.append(&mut ns);
        stack.push(f);
        proof {
            assert(frames_view(final(stack)@) =~~= emit_stack(
                frames_view(old(stack)@),
                nodes_view(ns0),
            ));
        }
    }
}

/// Processes one event against the live state.
fn step_one(stack: &mut Vec<Frame>, done: &mut Vec<DocumentNode>, cx: &mut Context, ev: &Event)
    requires
        ctx_fits(old(cx)@, 1),
    ensures
        ({
            let s1 = step(
                StateView {
                    stack: frames_view(old(stack)@),
                    done: nodes_view(old(done)@),
                    ctx: old(cx)@,
                },
                ev@,
            );
            &&& frames_view(final(stack)@) == s1.stack
            &&& nodes_view(final(done)@) == s1.done
            &&& final(cx)@ == s1.ctx
        }),
{
    match ev {
        Event::Start { tag } => {
            let b = start_frame(tag, cx);
            let children: Vec<DocumentNode> = Vec::new();
            proof {
                assert(nodes_view(children@) =~= Seq::<NodeView>::empty());
            }
            stack.push(Frame { builder: b, children });
            proof {
                assert(frames_view(final(stack)@) =~~= frames_view(old(stack)@).push(
                    FrameView {
                        builder: start_builder(tag@, old(cx)@),
                        children: Seq::<NodeView>::empty(),
                    },
                ));
            }
        },
        Event::End { tag } => {
            match tag {
                TagEnd::TableHead => {
                    cx.table_state = TableState::Body;
                },
                TagEnd::TableCell => {
                    cx.table_cell_index = cx.table_cell_index + 1;
                },
                TagEnd::MetadataBlock => {
                    cx.in_non_writing_block = false;
                },
                _ => {},
            }
            proof {
                assert(cx@ =~= end_ctx(*tag, old(cx)@));
            }
            if stack.len() == 0 {
                cx.anomalies = cx.anomalies + 1;
                proof {
                    assert(cx@ =~= (ContextView {
                        anomalies: end_ctx(*tag, old(cx)@).anomalies + 1,
                        ..end_ctx(*tag, old(cx)@)
                    }));
                }
            } else {
                let f = match stack.pop() {
                    Option::Some(f) => f,
                    Option::None => {
                        return;
                    },
                };
                proof {
                    assert(frame_view(f) == frames_view(old(stack)@).last());
                    assert(frames_view(stack@) =~= frames_view(old(stack)@).drop_last());
                }
                let ns = close_frame(f);
                emit_nodes(stack, done, ns);
            }
        },
        _ => {
            let ns = leaf_nodes_exec(ev, cx);
            emit_nodes(stack, done, ns);
        },
    }
}

/// Renders a whole event sequence against the given context: the
/// reconstructed forest of document nodes. The result and the context
/// afterwards are exactly the model's; scopes still open at the end of
/// the events are closed implicitly and each counted in
/// `anomalies`, as is every end marker that found no open scope.
pub fn render(events: &Vec<Event>, cx: &mut Context) -> (nodes: Vec<DocumentNode>)
    requires
        ctx_fits(old(cx)@, events@.len()),
    ensures
        ({
            let s = render_spec(crate::event::events_view(events@), old(cx)@);
            &&& nodes_view(nodes@) == s.done
            &&& final(cx)@ == s.ctx
        }),
{
    let ghost evs = crate::event::events_view(events@);
    let ghost init = StateView { stack: Seq::empty(), done: Seq::empty(), ctx: old(cx)@ };
    let mut stack: Vec<Frame> = Vec::new();
    let mut done: Vec<DocumentNode> = Vec::new();
    proof {
        assert(frames_view(stack@) =~= init.stack);
        assert(nodes_view(done@) =~= init.done);
        assert(evs.take(0) =~= Seq::<EventView>::empty());
    }
    let mut i: usize = 0;
    while i < events.len()
        invariant
            0 <= i <= events@.len(),
            evs == crate::event::events_view(events@),
            evs.len() == events@.len(),
            init == (StateView { stack: Seq::empty(), done: Seq::empty(), ctx: old(cx)@ }),
            ({
                let s = run(init, evs.take(i as int));
                &&& frames_view(stack@) == s.stack
                &&& nodes_view(done@) == s.done
                &&& cx@ == s.ctx
            }),
            ctx_fits(cx@, (events@.len() - i) as nat),
            cx@.anomalies + stack@.len() + (events@.len() - i) <= usize::MAX,
        decreases events@.len() - i,
    {
        let ghost s_pre = run(init, evs.take(i as int));
        proof {
            assert(ctx_fits(cx@, 1));
            lemma_step_bounds(s_pre, evs[i as int]);
        }
        step_one(&mut stack, &mut done, cx, &events[i]);
        proof {
            assert(evs.take(i as int).push(evs[i as int]) =~= evs.take(i as int + 1));
            lemma_run_push(init, evs.take(i as int), evs[i as int]);
            assert(events@[i as int]@ == evs[i as int]);
        }
        i = i + 1;
    }
    proof {
        assert(evs.take(evs.len() as int) =~= evs);
    }
    while stack.len() > 0
        invariant
            evs == crate::event::events_view(events@),
            init == (StateView { stack: Seq::empty(), done: Seq::empty(), ctx: old(cx)@ }),
            finish(
                StateView {
                    stack: frames_view(stack@),
                    done: nodes_view(done@),
                    ctx: cx@,
                },
            ) == finish(run(init, evs)),
            cx@.anomalies + stack@.len() <= usize::MAX,
        decreases stack@.len(),
    {
        let ghost s_pre = StateView {
            stack: frames_view(stack@),
            done: nodes_view(done@),
            ctx: cx@,
        };
        cx.anomalies = cx.anomalies + 1;
        let f = match stack.pop() {
            Option::Some(f) => f,
            Option::None => {
                return done;
            },
        };
        proof {
            assert(frame_view(f) == s_pre.stack.last());
            assert(frames_view(stack@) =~= s_pre.stack.drop_last());
            assert(cx@ =~= (ContextView { anomalies: s_pre.ctx.anomalies + 1, ..s_pre.ctx }));
        }
        let ns = close_frame(f);
        emit_nodes(&mut stack, &mut done, ns);
    }
    proof {
        let s_end = StateView { stack: frames_view(stack@), done: nodes_view(done@), ctx: cx@ };
        assert(s_end.stack.len() == 0);
        assert(finish(s_end) == s_end);
    }
    done
}
} // verus!
