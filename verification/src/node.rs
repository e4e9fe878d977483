//! The output vocabulary: an ordered forest of typed document-tree
//! nodes, one constructor per HTML-structural concept. A node owns its
//! children and never points back at its parent.
use vstd::prelude::*;

verus! {

broadcast use vstd::std_specs::vec::group_vec_axioms;

/// A node of the reconstructed document tree.
#[derive(Debug, PartialEq, Eq)]
pub enum DocumentNode {
    Paragraph { children: Vec<DocumentNode> },
    Heading {
        level: crate::event::HeadingLevel,
        id: Option<String>,
        classes: Option<String>,
        children: Vec<DocumentNode>,
    },
    BlockQuote { class: Option<String>, children: Vec<DocumentNode> },
    CodeBlock { language_class: Option<String>, children: Vec<DocumentNode> },
    OrderedList { start: Option<u64>, children: Vec<DocumentNode> },
    UnorderedList { children: Vec<DocumentNode> },
    Item { children: Vec<DocumentNode> },
    FootnoteDefinition { id: String, number: usize, children: Vec<DocumentNode> },
    DefinitionList { children: Vec<DocumentNode> },
    DefinitionListTitle { children: Vec<DocumentNode> },
    DefinitionListDefinition { children: Vec<DocumentNode> },
    Table { children: Vec<DocumentNode> },
    TableHead { children: Vec<DocumentNode> },
    TableRow { children: Vec<DocumentNode> },
    TableHeadCell { style: Option<String>, children: Vec<DocumentNode> },
    TableBodyCell { style: Option<String>, children: Vec<DocumentNode> },
    Emphasis { children: Vec<DocumentNode> },
    Strong { children: Vec<DocumentNode> },
    Strikethrough { children: Vec<DocumentNode> },
    Subscript { children: Vec<DocumentNode> },
    Superscript { children: Vec<DocumentNode> },
    Link { href: String, title: Option<String>, children: Vec<DocumentNode> },
    Image { src: String, title: Option<String>, children: Vec<DocumentNode> },
    Text { text: String },
    InlineCode { text: String },
    InlineMath { text: String },
    DisplayMath { text: String },
    HtmlPassthrough { html: String },
    FootnoteReference { href: String, number: usize },
    SoftBreak,
    HardBreak,
    HorizontalRule,
    TaskListMarker { checked: bool },
}

/// Mathematical mirror of `DocumentNode`: strings as character
/// sequences, children as sequences, counters as naturals.
pub enum NodeView {
    Paragraph { children: Seq<NodeView> },
    Heading {
        level: crate::event::HeadingLevel,
        id: Option<Seq<char>>,
        classes: Option<Seq<char>>,
        children: Seq<NodeView>,
    },
    BlockQuote { class: Option<Seq<char>>, children: Seq<NodeView> },
    CodeBlock { language_class: Option<Seq<char>>, children: Seq<NodeView> },
    OrderedList { start: Option<u64>, children: Seq<NodeView> },
    UnorderedList { children: Seq<NodeView> },
    Item { children: Seq<NodeView> },
    FootnoteDefinition { id: Seq<char>, number: nat, children: Seq<NodeView> },
    DefinitionList { children: Seq<NodeView> },
    DefinitionListTitle { children: Seq<NodeView> },
    DefinitionListDefinition { children: Seq<NodeView> },
    Table { children: Seq<NodeView> },
    TableHead { children: Seq<NodeView> },
    TableRow { children: Seq<NodeView> },
    TableHeadCell { style: Option<Seq<char>>, children: Seq<NodeView> },
    TableBodyCell { style: Option<Seq<char>>, children: Seq<NodeView> },
    Emphasis { children: Seq<NodeView> },
    Strong { children: Seq<NodeView> },
    Strikethrough { children: Seq<NodeView> },
    Subscript { children: Seq<NodeView> },
    Superscript { children: Seq<NodeView> },
    Link { href: Seq<char>, title: Option<Seq<char>>, children: Seq<NodeView> },
    Image { src: Seq<char>, title: Option<Seq<char>>, children: Seq<NodeView> },
    Text { text: Seq<char> },
    InlineCode { text: Seq<char> },
    InlineMath { text: Seq<char> },
    DisplayMath { text: Seq<char> },
    HtmlPassthrough { html: Seq<char> },
    FootnoteReference { href: Seq<char>, number: nat },
    SoftBreak,
    HardBreak,
    HorizontalRule,
    TaskListMarker { checked: bool },
}

/// Deep view of one node.
pub open spec fn node_view(n: DocumentNode) -> NodeView
    decreases n,
{
    match n {
        DocumentNode::Paragraph { children } => NodeView::Paragraph {
            children: nodes_view(children@),
        },
        DocumentNode::Heading { level, id, classes, children } => NodeView::Heading {
            level,
            id: crate::event::opt_string_view(id),
            classes: crate::event::opt_string_view(classes),
            children: nodes_view(children@),
        },
        DocumentNode::BlockQuote { class, children } => NodeView::BlockQuote {
            class: crate::event::opt_string_view(class),
            children: nodes_view(children@),
        },
        DocumentNode::CodeBlock { language_class, children } => NodeView::CodeBlock {
            language_class: crate::event::opt_string_view(language_class),
            children: nodes_view(children@),
        },
        DocumentNode::OrderedList { start, children } => NodeView::OrderedList {
            start,
            children: nodes_view(children@),
        },
        DocumentNode::UnorderedList { children } => NodeView::UnorderedList {
            children: nodes_view(children@),
        },
        DocumentNode::Item { children } => NodeView::Item { children: nodes_view(children@) },
        DocumentNode::FootnoteDefinition { id, number, children } => NodeView::FootnoteDefinition {
            id: id@,
            number: number as nat,
            children: nodes_view(children@),
        },
        DocumentNode::DefinitionList { children } => NodeView::DefinitionList {
            children: nodes_view(children@),
        },
        DocumentNode::DefinitionListTitle { children } => NodeView::DefinitionListTitle {
            children: nodes_view(children@),
        },
        DocumentNode::DefinitionListDefinition { children } => NodeView::DefinitionListDefinition {
            children: nodes_view(children@),
        },
        DocumentNode::Table { children } => NodeView::Table { children: nodes_view(children@) },
        DocumentNode::TableHead { children } => NodeView::TableHead {
            children: nodes_view(children@),
        },
        DocumentNode::TableRow { children } => NodeView::TableRow {
            children: nodes_view(children@),
        },
        DocumentNode::TableHeadCell { style, children } => NodeView::TableHeadCell {
            style: crate::event::opt_string_view(style),
            children: nodes_view(children@),
        },
        DocumentNode::TableBodyCell { style, children } => NodeView::TableBodyCell {
            style: crate::event::opt_string_view(style),
            children: nodes_view(children@),
        },
        DocumentNode::Emphasis { children } => NodeView::Emphasis {
            children: nodes_view(children@),
        },
        DocumentNode::Strong { children } => NodeView::Strong { children: nodes_view(children@) },
        DocumentNode::Strikethrough { children } => NodeView::Strikethrough {
            children: nodes_view(children@),
        },
        DocumentNode::Subscript { children } => NodeView::Subscript {
            children: nodes_view(children@),
        },
        DocumentNode::Superscript { children } => NodeView::Superscript {
            children: nodes_view(children@),
        },
        DocumentNode::Link { href, title, children } => NodeView::Link {
            href: href@,
            title: crate::event::opt_string_view(title),
            children: nodes_view(children@),
        },
        DocumentNode::Image { src, title, children } => NodeView::Image {
            src: src@,
            title: crate::event::opt_string_view(title),
            children: nodes_view(children@),
        },
        DocumentNode::Text { text } => NodeView::Text { text: text@ },
        DocumentNode::InlineCode { text } => NodeView::InlineCode { text: text@ },
        DocumentNode::InlineMath { text } => NodeView::InlineMath { text: text@ },
        DocumentNode::DisplayMath { text } => NodeView::DisplayMath { text: text@ },
        DocumentNode::HtmlPassthrough { html } => NodeView::HtmlPassthrough { html: html@ },
        DocumentNode::FootnoteReference { href, number } => NodeView::FootnoteReference {
            href: href@,
            number: number as nat,
        },
        DocumentNode::SoftBreak => NodeView::SoftBreak,
        DocumentNode::HardBreak => NodeView::HardBreak,
        DocumentNode::HorizontalRule => NodeView::HorizontalRule,
        DocumentNode::TaskListMarker { checked } => NodeView::TaskListMarker { checked },
    }
}

/// Deep view of an ordered sequence of nodes.
pub open spec fn nodes_view(ns: Seq<DocumentNode>) -> Seq<NodeView>
    decreases ns,
{
    if ns.len() == 0 {
        Seq::empty()
    } else {
        seq![node_view(ns[0])] + nodes_view(ns.drop_first())
    }
}

pub proof fn lemma_nodes_view_len(ns: Seq<DocumentNode>)
    ensures
        nodes_view(ns).len() == ns.len(),
    decreases ns.len(),
{
    if ns.len() > 0 {
        lemma_nodes_view_len(ns.drop_first());
    }
}

pub proof fn lemma_nodes_view_index(ns: Seq<DocumentNode>, i: int)
    requires
        0 <= i < ns.len(),
    ensures
        nodes_view(ns).len() == ns.len(),
        nodes_view(ns)[i] == node_view(ns[i]),
    decreases ns.len(),
{
    lemma_nodes_view_len(ns);
    if i > 0 {
        lemma_nodes_view_index(ns.drop_first(), i - 1);
    }
}

pub proof fn lemma_nodes_view_singleton(n: DocumentNode)
    ensures
        nodes_view(seq![n]) == seq![node_view(n)],
{
    assert(seq![n].drop_first() =~= Seq::<DocumentNode>::empty());
    assert(nodes_view(Seq::<DocumentNode>::empty()) =~= Seq::<NodeView>::empty());
    assert(seq![n][0] == n);
    assert(nodes_view(seq![n]) =~= seq![node_view(n)]);
}

pub proof fn lemma_nodes_view_concat(a: Seq<DocumentNode>, b: Seq<DocumentNode>)
    ensures
        nodes_view(a + b) == nodes_view(a) + nodes_view(b),
    decreases a.len(),
{
    if a.len() == 0 {
        assert(a + b =~= b);
        assert(nodes_view(a) + nodes_view(b) =~= nodes_view(b));
    } else {
        assert((a + b).drop_first() =~= a.drop_first() + b);
        lemma_nodes_view_concat(a.drop_first(), b);
        assert(nodes_view(a + b) =~= nodes_view(a) + nodes_view(b));
    }
}

} // verus!
