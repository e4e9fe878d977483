//! The laws the renderer obeys, stated over the model in `render` and
//! proved once for all inputs.
use vstd::prelude::*;

use crate::context::ContextView;
use crate::escape::{body_escaped, href_escaped};
use crate::event::{EventView, LinkType, TagEnd, TagView};
use crate::node::NodeView;
use crate::context::TableState;
use crate::render::{
    close_builder, emit, end_ctx, footnote_ordinal, leaf_nodes, run,
    spec_cell_style, spec_first_index, spec_opt_title, start_builder, start_ctx, step,
    BuilderView, FrameView, StateView,
};

verus! {

// ---------------------------------------------------------------------
// Link and title resolution.
// ---------------------------------------------------------------------

/// An email link always resolves to a `mailto:` href before the
/// escaped destination; every other link type uses the escaped
/// destination verbatim, with nothing prepended. An empty title never
/// materialises a title attribute; a non-empty one always does.
pub proof fn lemma_link_resolution(lt: LinkType, dest: Seq<char>, title: Seq<char>, c: ContextView)
    ensures
        lt == LinkType::Email ==> start_builder(
            TagView::Link { link_type: lt, dest_url: dest, title },
            c,
        ) == (BuilderView::Link {
            href: "mailto:"@ + href_escaped(dest),
            title: spec_opt_title(title),
        }),
        lt != LinkType::Email ==> start_builder(
            TagView::Link { link_type: lt, dest_url: dest, title },
            c,
        ) == (BuilderView::Link { href: href_escaped(dest), title: spec_opt_title(title) }),
        title.len() == 0 ==> spec_opt_title(title) == Option::<Seq<char>>::None,
        title.len() > 0 ==> spec_opt_title(title) == Option::Some(title),
{
}

/// An image's source is always the escaped destination, and its empty
/// title is suppressed the same way a link's is.
pub proof fn lemma_image_resolution(dest: Seq<char>, title: Seq<char>, c: ContextView)
    ensures
        start_builder(TagView::Image { dest_url: dest, title }, c) == (BuilderView::Image {
            src: href_escaped(dest),
            title: spec_opt_title(title),
        }),
{
}

// ---------------------------------------------------------------------
// Footnote numbering.
// ---------------------------------------------------------------------

/// Pairwise-distinct footnote names.
pub open spec fn distinct_names(ns: Seq<Seq<char>>) -> bool {
    forall|i: int, j: int| 0 <= i < j < ns.len() ==> ns[i] != ns[j]
}

pub proof fn lemma_first_index_props(s: Seq<Seq<char>>, x: Seq<char>)
    requires
        s.contains(x),
    ensures
        0 <= spec_first_index(s, x) < s.len(),
        s[spec_first_index(s, x)] == x,
        forall|k: int| 0 <= k < spec_first_index(s, x) ==> s[k] != x,
    decreases s.len(),
{
    if s.len() > 0 && s[0] != x {
        assert(s.drop_first().contains(x)) by {
            let w = choose|w: int| 0 <= w < s.len() && s[w] == x;
            assert(s.drop_first()[w - 1] == x);
        }
        lemma_first_index_props(s.drop_first(), x);
        let fi = spec_first_index(s, x);
        assert(s[fi] == s.drop_first()[fi - 1]);
        assert forall|k: int| 0 <= k < fi implies s[k] != x by {
            if k > 0 {
                assert(s.drop_first()[k - 1] != x);
            }
        }
    }
}

/// The k-th distinct footnote name, counted in order of first sight,
/// carries ordinal k plus one: ordinals are strictly increasing in the
/// order the definitions were first encountered.
pub proof fn lemma_footnote_ordinal_is_position(ns: Seq<Seq<char>>, k: int)
    requires
        distinct_names(ns),
        0 <= k < ns.len(),
    ensures
        footnote_ordinal(ns, ns[k]) == k + 1,
{
    crate::render::lemma_first_index_found(ns, ns[k], k);
}

/// One step never forgets a footnote name, never reorders them, and
/// keeps them distinct.
pub proof fn lemma_step_numbers(s: StateView, e: EventView)
    ensures
        s.ctx.numbers.is_prefix_of(step(s, e).ctx.numbers),
        distinct_names(s.ctx.numbers) ==> distinct_names(step(s, e).ctx.numbers),
{
    let ns = s.ctx.numbers;
    let ns2 = step(s, e).ctx.numbers;
    match e {
        EventView::Start { tag: TagView::FootnoteDefinition { name } } => {
            if ns.contains(name) {
                assert(ns.is_prefix_of(ns2));
            } else {
                assert(ns2 == ns.push(name));
                assert(ns =~= ns2.subrange(0, ns.len() as int));
                if distinct_names(ns) {
                    assert forall|i: int, j: int| 0 <= i < j < ns2.len() implies ns2[i]
                        != ns2[j] by {
                        if j == ns.len() as int {
                            assert(ns2[j] == name);
                            assert(ns2[i] == ns[i]);
                            assert(!ns.contains(name));
                        }
                    }
                }
            }
        },
        _ => {
            assert(ns2 == ns);
            assert(ns.is_prefix_of(ns2));
        },
    }
}

/// A whole run only appends footnote names and keeps them distinct.
pub proof fn lemma_run_numbers(s: StateView, evs: Seq<EventView>)
    ensures
        s.ctx.numbers.is_prefix_of(run(s, evs).ctx.numbers),
        distinct_names(s.ctx.numbers) ==> distinct_names(run(s, evs).ctx.numbers),
    decreases evs.len(),
{
    if evs.len() == 0 {
        assert(s.ctx.numbers.is_prefix_of(s.ctx.numbers));
    } else {
        lemma_step_numbers(s, evs[0]);
        lemma_run_numbers(step(s, evs[0]), evs.drop_first());
        let a = s.ctx.numbers;
        let b = step(s, evs[0]).ctx.numbers;
        let c = run(s, evs).ctx.numbers;
        assert(a =~= b.subrange(0, a.len() as int));
        assert(b =~= c.subrange(0, b.len() as int));
        assert(a =~= c.subrange(0, a.len() as int));
    }
}

/// Once a name has received its ordinal, no later events change it:
/// the ordinal a footnote definition shows is stable for the rest of
/// the render.
pub proof fn lemma_footnote_ordinal_stable(s: StateView, evs: Seq<EventView>, name: Seq<char>)
    requires
        s.ctx.numbers.contains(name),
    ensures
        run(s, evs).ctx.numbers.contains(name),
        footnote_ordinal(run(s, evs).ctx.numbers, name) == footnote_ordinal(s.ctx.numbers, name),
{
    lemma_run_numbers(s, evs);
    let a = s.ctx.numbers;
    let b = run(s, evs).ctx.numbers;
    lemma_first_index_props(a, name);
    let fi = spec_first_index(a, name);
    assert(b.subrange(0, a.len() as int) =~= a);
    assert forall|k: int| 0 <= k < fi implies b[k] != name by {
        assert(b[k] == a[k]);
    }
    assert(b[fi] == a[fi]);
    crate::render::lemma_first_index_found(b, name, fi);
}

// ---------------------------------------------------------------------
// Metadata-block suppression.
// ---------------------------------------------------------------------

/// A text event drawn while suppression is on changes nothing at all:
/// no node reaches the tree, no context field moves.
pub proof fn lemma_suppressed_text_dropped(s: StateView, text: Seq<char>)
    requires
        s.ctx.in_non_writing_block,
    ensures
        step(s, EventView::Text { text }) == s,
{
    assert(leaf_nodes(EventView::Text { text }, s.ctx) =~= Seq::<NodeView>::empty());
    if s.stack.len() == 0 {
        assert(s.done + Seq::<NodeView>::empty() =~= s.done);
        assert(step(s, EventView::Text { text }) =~~= s);
    } else {
        let top = s.stack.last();
        assert(top.children + Seq::<NodeView>::empty() =~= top.children);
        assert(s.stack.update(
            s.stack.len() - 1,
            FrameView { builder: top.builder, children: top.children },
        ) =~~= s.stack);
        assert(step(s, EventView::Text { text }) =~~= s);
    }
}

/// A text event drawn while suppression is off emits exactly the
/// body-escaped text node.
pub proof fn lemma_text_emitted(s: StateView, text: Seq<char>)
    requires
        !s.ctx.in_non_writing_block,
    ensures
        step(s, EventView::Text { text }) == emit(
            s,
            seq![NodeView::Text { text: body_escaped(text) }],
        ),
{
}

/// Suppression is scope-local: it switches on when a metadata block
/// opens and off exactly when one ends.
pub proof fn lemma_suppression_boundaries(c: ContextView)
    ensures
        start_ctx(TagView::MetadataBlock, c).in_non_writing_block,
        !crate::render::end_ctx(TagEnd::MetadataBlock, c).in_non_writing_block,
{
}

/// The events with no metadata-block end marker among them.
pub open spec fn no_metadata_end(evs: Seq<EventView>) -> bool {
    forall|i: int| 0 <= i < evs.len() ==> evs[i] != (EventView::End { tag: TagEnd::MetadataBlock })
}

/// The same events with every text run removed.
pub open spec fn drop_texts(evs: Seq<EventView>) -> Seq<EventView>
    decreases evs.len(),
{
    if evs.len() == 0 {
        Seq::empty()
    } else if evs[0] is Text {
        drop_texts(evs.drop_first())
    } else {
        seq![evs[0]] + drop_texts(evs.drop_first())
    }
}

/// While inside a metadata-block scope — suppression on, and no end of
/// one among the events — the text runs might as well not be there:
/// the render state ends up exactly as if they had been removed, so no
/// suppressed text ever appears in the output tree, and suppression is
/// still on afterwards.
pub proof fn lemma_suppression_scope(s: StateView, evs: Seq<EventView>)
    requires
        s.ctx.in_non_writing_block,
        no_metadata_end(evs),
    ensures
        run(s, evs) == run(s, drop_texts(evs)),
        run(s, evs).ctx.in_non_writing_block,
    decreases evs.len(),
{
    if evs.len() == 0 {
    } else {
        let e = evs[0];
        let rest = evs.drop_first();
        assert(no_metadata_end(rest)) by {
            assert forall|i: int| 0 <= i < rest.len() implies rest[i] != (EventView::End {
                tag: TagEnd::MetadataBlock,
            }) by {
                assert(rest[i] == evs[i + 1]);
            }
        }
        if e is Text {
            let t = e->Text_text;
            lemma_suppressed_text_dropped(s, t);
            lemma_suppression_scope(s, rest);
        } else {
            let s1 = step(s, e);
            assert(s1.ctx.in_non_writing_block) by {
                assert(e != (EventView::End { tag: TagEnd::MetadataBlock }));
            }
            lemma_suppression_scope(s1, rest);
            let dt = seq![e] + drop_texts(rest);
            assert(dt[0] == e);
            assert(dt.drop_first() =~= drop_texts(rest));
        }
    }
}


/// A whole metadata-block scope, start to end: while it is open every
/// text run is dropped — the scope's effect is exactly that of the
/// same events with the texts removed — and the moment it closes,
/// suppression is off again.
pub proof fn lemma_metadata_block_suppresses(s: StateView, inner: Seq<EventView>)
    requires
        no_metadata_end(inner),
    ensures
        ({
            let s1 = step(s, EventView::Start { tag: TagView::MetadataBlock });
            let s2 = run(s1, inner);
            let s3 = step(s2, EventView::End { tag: TagEnd::MetadataBlock });
            &&& s2 == run(s1, drop_texts(inner))
            &&& !s3.ctx.in_non_writing_block
        }),
{
    let s1 = step(s, EventView::Start { tag: TagView::MetadataBlock });
    assert(s1.ctx.in_non_writing_block);
    lemma_suppression_scope(s1, inner);
}

// ---------------------------------------------------------------------
// Composing runs.
// ---------------------------------------------------------------------

pub proof fn lemma_run_one(s: StateView, e: EventView)
    ensures
        run(s, seq![e]) == step(s, e),
{
    assert(seq![e][0] == e);
    assert(seq![e].drop_first() =~= Seq::<EventView>::empty());
    assert(run(step(s, e), Seq::<EventView>::empty()) == step(s, e));
}

pub proof fn lemma_run_concat(s: StateView, a: Seq<EventView>, b: Seq<EventView>)
    ensures
        run(s, a + b) == run(run(s, a), b),
    decreases a.len(),
{
    if a.len() == 0 {
        assert(a + b =~= b);
    } else {
        assert((a + b)[0] == a[0]);
        assert((a + b).drop_first() =~= a.drop_first() + b);
        lemma_run_concat(step(s, a[0]), a.drop_first(), b);
    }
}

// ---------------------------------------------------------------------
// Table state across a row.
// ---------------------------------------------------------------------

/// Events that leave the table bookkeeping — captured alignments,
/// head-or-body phase, cell index — untouched.
pub open spec fn table_neutral(e: EventView) -> bool {
    match e {
        EventView::Start { tag } => match tag {
            TagView::Table { .. } => false,
            TagView::TableHead => false,
            TagView::TableRow => false,
            _ => true,
        },
        EventView::End { tag } => match tag {
            TagEnd::TableHead => false,
            TagEnd::TableCell => false,
            _ => true,
        },
        _ => true,
    }
}

pub open spec fn all_table_neutral(evs: Seq<EventView>) -> bool {
    forall|i: int| 0 <= i < evs.len() ==> table_neutral(#[trigger] evs[i])
}

pub proof fn lemma_step_table_neutral(s: StateView, e: EventView)
    requires
        table_neutral(e),
    ensures
        step(s, e).ctx.table_alignments == s.ctx.table_alignments,
        step(s, e).ctx.table_state == s.ctx.table_state,
        step(s, e).ctx.table_cell_index == s.ctx.table_cell_index,
{
}

pub proof fn lemma_run_table_neutral(s: StateView, evs: Seq<EventView>)
    requires
        all_table_neutral(evs),
    ensures
        run(s, evs).ctx.table_alignments == s.ctx.table_alignments,
        run(s, evs).ctx.table_state == s.ctx.table_state,
        run(s, evs).ctx.table_cell_index == s.ctx.table_cell_index,
    decreases evs.len(),
{
    if evs.len() > 0 {
        lemma_step_table_neutral(s, evs[0]);
        assert(all_table_neutral(evs.drop_first())) by {
            assert forall|i: int| 0 <= i < evs.drop_first().len() implies table_neutral(
                #[trigger] evs.drop_first()[i],
            ) by {
                assert(evs.drop_first()[i] == evs[i + 1]);
            }
        }
        lemma_run_table_neutral(step(s, evs[0]), evs.drop_first());
    }
}

/// One table cell as events: its start, its body, its end.
pub open spec fn cell_block(body: Seq<EventView>) -> Seq<EventView> {
    seq![EventView::Start { tag: TagView::TableCell }] + body + seq![
        EventView::End { tag: TagEnd::TableCell },
    ]
}

/// A row's cells, one block per cell body.
pub open spec fn row_cells_events(bodies: Seq<Seq<EventView>>) -> Seq<EventView>
    decreases bodies.len(),
{
    if bodies.len() == 0 {
        Seq::empty()
    } else {
        cell_block(bodies[0]) + row_cells_events(bodies.drop_first())
    }
}

pub open spec fn all_bodies_neutral(bodies: Seq<Seq<EventView>>) -> bool {
    forall|k: int| 0 <= k < bodies.len() ==> all_table_neutral(#[trigger] bodies[k])
}

/// The table bookkeeping a step with an end marker leaves behind is
/// what `end_ctx` says, whether or not a scope was open.
pub proof fn lemma_step_end_ctx(s: StateView, tag: TagEnd)
    ensures
        step(s, EventView::End { tag }).ctx.table_alignments == end_ctx(
            tag,
            s.ctx,
        ).table_alignments,
        step(s, EventView::End { tag }).ctx.table_state == end_ctx(tag, s.ctx).table_state,
        step(s, EventView::End { tag }).ctx.table_cell_index == end_ctx(
            tag,
            s.ctx,
        ).table_cell_index,
{
}

/// Walking one row's cells advances the cell index by exactly one per
/// cell and touches neither the captured alignments nor the phase; the
/// j-th cell of the row opens with cell index j positions past where
/// the row started.
pub proof fn lemma_row_cells_ctx(s: StateView, bodies: Seq<Seq<EventView>>)
    requires
        all_bodies_neutral(bodies),
    ensures
        run(s, row_cells_events(bodies)).ctx.table_alignments == s.ctx.table_alignments,
        run(s, row_cells_events(bodies)).ctx.table_state == s.ctx.table_state,
        run(s, row_cells_events(bodies)).ctx.table_cell_index == s.ctx.table_cell_index
            + bodies.len(),
        forall|j: int|
            0 <= j < bodies.len() ==> ({
                let cj = run(s, row_cells_events(#[trigger] bodies.take(j))).ctx;
                &&& cj.table_alignments == s.ctx.table_alignments
                &&& cj.table_state == s.ctx.table_state
                &&& cj.table_cell_index == s.ctx.table_cell_index + j
            }),
    decreases bodies.len(),
{
    if bodies.len() == 0 {
        assert(bodies.take(0) =~= bodies);
    } else {
        let start_ev = EventView::Start { tag: TagView::TableCell };
        let end_ev = EventView::End { tag: TagEnd::TableCell };
        let s1 = step(s, start_ev);
        let s2 = run(s1, bodies[0]);
        let s3 = step(s2, end_ev);
        lemma_run_table_neutral(s1, bodies[0]);
        lemma_step_end_ctx(s2, TagEnd::TableCell);
        assert(s3.ctx.table_cell_index == s.ctx.table_cell_index + 1);
        assert(run(s, cell_block(bodies[0])) == s3) by {
            lemma_run_concat(
                s,
                seq![start_ev] + bodies[0],
                seq![end_ev],
            );
            lemma_run_concat(s, seq![start_ev], bodies[0]);
            assert((seq![start_ev] + bodies[0]) + seq![end_ev] =~= cell_block(bodies[0]));
            lemma_run_one(s, start_ev);
            lemma_run_one(s2, end_ev);
        }
        assert(all_bodies_neutral(bodies.drop_first())) by {
            assert forall|k: int| 0 <= k < bodies.drop_first().len() implies all_table_neutral(
                #[trigger] bodies.drop_first()[k],
            ) by {
                assert(bodies.drop_first()[k] == bodies[k + 1]);
            }
        }
        lemma_row_cells_ctx(s3, bodies.drop_first());
        lemma_run_concat(s, cell_block(bodies[0]), row_cells_events(bodies.drop_first()));
        assert forall|j: int| 0 <= j < bodies.len() implies ({
            let cj = run(s, row_cells_events(#[trigger] bodies.take(j))).ctx;
            &&& cj.table_alignments == s.ctx.table_alignments
            &&& cj.table_state == s.ctx.table_state
            &&& cj.table_cell_index == s.ctx.table_cell_index + j
        }) by {
            if j == 0 {
                assert(bodies.take(0) =~= Seq::<Seq<EventView>>::empty());
                assert(row_cells_events(bodies.take(0)) =~= Seq::<EventView>::empty());
            } else {
                assert(bodies.take(j)[0] == bodies[0]);
                assert(bodies.take(j).drop_first() =~= bodies.drop_first().take(j - 1));
                assert(row_cells_events(bodies.take(j)) == cell_block(bodies[0])
                    + row_cells_events(bodies.drop_first().take(j - 1)));
                lemma_run_concat(
                    s,
                    cell_block(bodies[0]),
                    row_cells_events(bodies.drop_first().take(j - 1)),
                );
            }
        }
    }
}

/// A table row start resets the cell index to zero, so the cell styles
/// of a row depend only on the captured alignments and each cell's
/// position: rows of equal width reuse the same style per column.
pub proof fn lemma_row_cell_styles(s: StateView, bodies: Seq<Seq<EventView>>)
    requires
        all_bodies_neutral(bodies),
        s.ctx.table_cell_index == 0,
    ensures
        forall|j: int|
            0 <= j < bodies.len() ==> ({
                let cj = run(s, row_cells_events(#[trigger] bodies.take(j))).ctx;
                start_builder(TagView::TableCell, cj) == (match s.ctx.table_state {
                    TableState::Head => BuilderView::TableHeadCell {
                        style: spec_cell_style(s.ctx.table_alignments, j as nat),
                    },
                    TableState::Body => BuilderView::TableBodyCell {
                        style: spec_cell_style(s.ctx.table_alignments, j as nat),
                    },
                })
            }),
{
    lemma_row_cells_ctx(s, bodies);
}

/// Opening a row resets the cell index; closing a table head flips the
/// phase to body, exactly once, when that end marker is drawn.
pub proof fn lemma_row_and_phase_transitions(c: crate::context::ContextView)
    ensures
        start_ctx(TagView::TableRow, c).table_cell_index == 0,
        start_ctx(TagView::TableHead, c).table_cell_index == 0,
        start_ctx(TagView::TableHead, c).table_state == TableState::Head,
        end_ctx(TagEnd::TableHead, c).table_state == TableState::Body,
{
}

// ---------------------------------------------------------------------
// Well-nested scopes: structural round trip.
// ---------------------------------------------------------------------

/// How one event changes the nesting depth.
pub open spec fn event_depth_delta(e: EventView) -> int {
    match e {
        EventView::Start { .. } => 1,
        EventView::End { .. } => -1,
        _ => 0,
    }
}

/// The net nesting depth of an event sequence.
pub open spec fn net_depth(evs: Seq<EventView>) -> int
    decreases evs.len(),
{
    if evs.len() == 0 {
        0
    } else {
        event_depth_delta(evs[0]) + net_depth(evs.drop_first())
    }
}

/// No prefix closes more scopes than it opened.
pub open spec fn never_below(evs: Seq<EventView>) -> bool {
    forall|j: int| 0 <= j <= evs.len() ==> net_depth(#[trigger] evs.take(j)) >= 0
}

/// A well-nested sequence: no prefix dips below its start, and every
/// opened scope is closed.
pub open spec fn balanced(evs: Seq<EventView>) -> bool {
    never_below(evs) && net_depth(evs) == 0
}

proof fn lemma_take_shift(evs: Seq<EventView>, j: int)
    requires
        evs.len() > 0,
        0 <= j < evs.len(),
    ensures
        evs.take(j + 1).drop_first() =~= evs.drop_first().take(j),
        evs.take(j + 1)[0] == evs[0],
        net_depth(evs.take(j + 1)) == event_depth_delta(evs[0]) + net_depth(
            evs.drop_first().take(j),
        ),
{
    assert(evs.take(j + 1).drop_first() =~= evs.drop_first().take(j));
}

/// While a run never dips below depth `b` of the current stack, every
/// frame strictly below `b` is untouched, the frame at `b - 1` keeps
/// its builder and only gains children at its end, and the finished
/// forest is untouched; the stack ends at its starting height plus the
/// events' net depth.
pub proof fn lemma_run_scoped(s: StateView, evs: Seq<EventView>, b: int)
    requires
        1 <= b <= s.stack.len(),
        forall|j: int| 0 <= j <= evs.len() ==> s.stack.len() + net_depth(#[trigger] evs.take(j))
            >= b,
    ensures
        run(s, evs).stack.len() == s.stack.len() + net_depth(evs),
        forall|k: int| 0 <= k < b - 1 ==> run(s, evs).stack[k] == s.stack[k],
        run(s, evs).stack[b - 1].builder == s.stack[b - 1].builder,
        s.stack[b - 1].children.is_prefix_of(run(s, evs).stack[b - 1].children),
        run(s, evs).done == s.done,
    decreases evs.len(),
{
    if evs.len() == 0 {
        assert(evs.take(0) =~= evs);
        assert(s.stack[b - 1].children.is_prefix_of(s.stack[b - 1].children));
    } else {
        let e = evs[0];
        let s1 = step(s, e);
        let rest = evs.drop_first();
        assert(evs.take(1) =~= seq![e]);
        assert(seq![e][0] == e);
        assert(seq![e].drop_first() =~= Seq::<EventView>::empty());
        assert(net_depth(Seq::<EventView>::empty()) == 0);
        assert(net_depth(evs.take(1)) == event_depth_delta(e));
        assert(s.stack.len() + event_depth_delta(e) >= b);
        assert forall|j: int| 0 <= j <= rest.len() implies s1.stack.len() + net_depth(
            #[trigger] rest.take(j),
        ) >= b by {
            lemma_take_shift(evs, j);
            assert(s.stack.len() + net_depth(evs.take(j + 1)) >= b);
        }
        // One step keeps the protected frames intact.
        match e {
            EventView::Start { tag } => {
                assert(s1.stack.len() == s.stack.len() + 1);
                assert(s1.done == s.done);
                assert forall|k: int| 0 <= k < b implies s1.stack[k] == s.stack[k] by {}
            },
            EventView::End { tag } => {
                assert(s.stack.len() >= b + 1);
                let top = s.stack.last();
                let ns = close_builder(top.builder, top.children);
                assert(s1.stack.len() == s.stack.len() - 1);
                assert(s1.done == s.done);
                assert forall|k: int| 0 <= k < b - 1 implies s1.stack[k] == s.stack[k] by {}
                if b - 1 == s1.stack.len() - 1 {
                    assert(s1.stack[b - 1].builder == s.stack[b - 1].builder);
                    assert(s1.stack[b - 1].children == s.stack[b - 1].children + ns);
                    assert(s.stack[b - 1].children =~= (s.stack[b - 1].children + ns).subrange(
                        0,
                        s.stack[b - 1].children.len() as int,
                    ));
                } else {
                    assert(s1.stack[b - 1] == s.stack[b - 1]);
                }
                assert(s.stack[b - 1].children.is_prefix_of(s1.stack[b - 1].children));
            },
            _ => {
                let ns = leaf_nodes(e, s.ctx);
                assert(s1.stack.len() == s.stack.len());
                assert(s1.done == s.done);
                assert forall|k: int| 0 <= k < b - 1 implies s1.stack[k] == s.stack[k] by {}
                if b - 1 == s.stack.len() - 1 {
                    assert(s1.stack[b - 1].builder == s.stack[b - 1].builder);
                    assert(s1.stack[b - 1].children == s.stack[b - 1].children + ns);
                    assert(s.stack[b - 1].children =~= (s.stack[b - 1].children + ns).subrange(
                        0,
                        s.stack[b - 1].children.len() as int,
                    ));
                } else {
                    assert(s1.stack[b - 1] == s.stack[b - 1]);
                }
                assert(s.stack[b - 1].children.is_prefix_of(s1.stack[b - 1].children));
            },
        }
        lemma_run_scoped(s1, rest, b);
        assert(run(s, evs) == run(s1, rest));
        assert forall|k: int| 0 <= k < b - 1 implies run(s, evs).stack[k] == s.stack[k] by {
            assert(run(s1, rest).stack[k] == s1.stack[k]);
            assert(s1.stack[k] == s.stack[k]);
        }
        lemma_prefix_trans(
            s.stack[b - 1].children,
            s1.stack[b - 1].children,
            run(s1, rest).stack[b - 1].children,
        );
    }
}

proof fn lemma_prefix_trans(a: Seq<NodeView>, b: Seq<NodeView>, c: Seq<NodeView>)
    requires
        a.is_prefix_of(b),
        b.is_prefix_of(c),
    ensures
        a.is_prefix_of(c),
{
    assert(a =~= c.subrange(0, a.len() as int));
}

/// Every emitted node's children are exactly the nodes produced
/// between its start and its matching end. Processing one whole scope
/// — a start, balanced inner events, the matching end — from any state
/// emits, at the surrounding nesting level, exactly what closing the
/// scope's frame gives: the node built from the start tag (resolved
/// against the context at the start) whose children are precisely the
/// nodes the inner events produced at the scope's own level. Every
/// surrounding frame and the already-finished forest are untouched.
pub proof fn lemma_scope_round_trip(
    s: StateView,
    t: TagView,
    inner: Seq<EventView>,
    e: TagEnd,
)
    requires
        balanced(inner),
    ensures
        ({
            let s1 = step(s, EventView::Start { tag: t });
            let s2 = run(s1, inner);
            let s3 = step(s2, EventView::End { tag: e });
            &&& s2.stack.len() == s1.stack.len()
            &&& s2.stack.drop_last() =~= s.stack
            &&& s2.stack.last().builder == start_builder(t, s.ctx)
            &&& s2.done == s.done
            &&& s3 == emit(
                StateView { stack: s.stack, done: s.done, ctx: end_ctx(e, s2.ctx) },
                close_builder(start_builder(t, s.ctx), s2.stack.last().children),
            )
            &&& run(s, seq![EventView::Start { tag: t }] + inner + seq![
                EventView::End { tag: e },
            ]) == s3
        }),
{
    let start_ev = EventView::Start { tag: t };
    let end_ev = EventView::End { tag: e };
    let s1 = step(s, start_ev);
    let s2 = run(s1, inner);
    let s3 = step(s2, end_ev);
    let b = s1.stack.len() as int;
    assert forall|j: int| 0 <= j <= inner.len() implies s1.stack.len() + net_depth(
        #[trigger] inner.take(j),
    ) >= b by {
        assert(net_depth(inner.take(j)) >= 0);
    }
    lemma_run_scoped(s1, inner, b);
    assert(inner.take(inner.len() as int) =~= inner);
    assert(s2.stack.len() == b);
    assert forall|k: int| 0 <= k < s.stack.len() implies s2.stack.drop_last()[k]
        == s.stack[k] by {
        assert(s2.stack[k] == s1.stack[k]);
        assert(s1.stack[k] == s.stack[k]);
    }
    assert(s2.stack.drop_last() =~= s.stack);
    assert(s2.stack.last().builder == s1.stack[b - 1].builder);
    assert(s3 == emit(
        StateView { stack: s2.stack.drop_last(), done: s2.done, ctx: end_ctx(e, s2.ctx) },
        close_builder(s2.stack.last().builder, s2.stack.last().children),
    ));
    lemma_run_concat(s, seq![start_ev] + inner, seq![end_ev]);
    lemma_run_concat(s, seq![start_ev], inner);
    lemma_run_one(s, start_ev);
    lemma_run_one(s2, end_ev);
    assert((seq![start_ev] + inner) + seq![end_ev] =~= seq![start_ev] + inner + seq![end_ev]);
}

/// As long as no prefix of the events closes more scopes than it has
/// opened, every end marker finds its scope: nothing is recovered
/// from, and the anomaly count never moves.
pub proof fn lemma_wellnested_no_anomalies(s: StateView, evs: Seq<EventView>)
    requires
        forall|j: int| 0 <= j <= evs.len() ==> s.stack.len() + net_depth(#[trigger] evs.take(j))
            >= 0,
    ensures
        run(s, evs).stack.len() == s.stack.len() + net_depth(evs),
        run(s, evs).ctx.anomalies == s.ctx.anomalies,
    decreases evs.len(),
{
    if evs.len() == 0 {
        assert(evs.take(0) =~= evs);
    } else {
        let e = evs[0];
        let s1 = step(s, e);
        let rest = evs.drop_first();
        assert(evs.take(1) =~= seq![e]);
        assert(seq![e][0] == e);
        assert(seq![e].drop_first() =~= Seq::<EventView>::empty());
        assert(net_depth(Seq::<EventView>::empty()) == 0);
        assert(s.stack.len() + event_depth_delta(e) >= 0);
        assert forall|j: int| 0 <= j <= rest.len() implies s1.stack.len() + net_depth(
            #[trigger] rest.take(j),
        ) >= 0 by {
            lemma_take_shift(evs, j);
            assert(s.stack.len() + net_depth(evs.take(j + 1)) >= 0);
        }
        match e {
            EventView::Start { tag } => {
                assert(s1.stack.len() == s.stack.len() + 1);
                assert(s1.ctx.anomalies == s.ctx.anomalies);
            },
            EventView::End { tag } => {
                assert(s.stack.len() >= 1);
                assert(s1.stack.len() == s.stack.len() - 1);
                assert(s1.ctx.anomalies == s.ctx.anomalies);
            },
            _ => {
                assert(s1.stack.len() == s.stack.len());
                assert(s1.ctx.anomalies == s.ctx.anomalies);
            },
        }
        lemma_wellnested_no_anomalies(s1, rest);
    }
}

/// A fully balanced event stream renders cleanly: nothing is left to
/// close implicitly, the output forest is exactly what the events
/// produced, and the render reports exactly as many anomalies as the
/// context already carried, none of its own.
pub proof fn lemma_balanced_render_clean(evs: Seq<EventView>, c: ContextView)
    requires
        balanced(evs),
    ensures
        crate::render::render_spec(evs, c) == run(
            StateView { stack: Seq::empty(), done: Seq::empty(), ctx: c },
            evs,
        ),
        crate::render::render_spec(evs, c).ctx.anomalies == c.anomalies,
{
    let init = StateView { stack: Seq::empty(), done: Seq::empty(), ctx: c };
    assert forall|j: int| 0 <= j <= evs.len() implies init.stack.len() + net_depth(
        #[trigger] evs.take(j),
    ) >= 0 by {}
    lemma_wellnested_no_anomalies(init, evs);
    let fin = run(init, evs);
    assert(fin.stack.len() == 0);
    assert(crate::render::finish(fin) == fin);
}
} // verus!
