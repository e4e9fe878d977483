//! The render context: mutable state threaded through one whole
//! transformation that no single event determines on its own. One
//! context serves exactly one render call.
use vstd::prelude::*;

verus! {

/// Whether table cells currently belong to the head or the body of the
/// table being rendered.
#[derive(Debug, Clone, Copy, PartialEq, Eq)]
pub enum TableState {
    Head,
    Body,
}

/// Mathematical mirror of `Context`.
#[verifier::ext_equal]
pub struct ContextView {
    pub numbers: Seq<Seq<char>>,
    pub table_state: TableState,
    pub table_alignments: Seq<crate::event::Alignment>,
    pub table_cell_index: nat,
    pub in_non_writing_block: bool,
    pub anomalies: nat,
}

/// The mutable render state. `numbers` holds the footnote names in
/// order of first sight; a name's ordinal is its position plus one.
/// `anomalies` counts the malformed-stream recoveries (an unmatched end
/// marker, or a scope still open when the events ran out).
#[derive(Debug)]
pub struct Context {
    pub numbers: Vec<String>,
    pub table_state: TableState,
    pub table_alignments: Vec<crate::event::Alignment>,
    pub table_cell_index: usize,
    pub in_non_writing_block: bool,
    pub anomalies: usize,
}

impl View for Context {
    type V = ContextView;

    open spec fn view(&self) -> ContextView {
        ContextView {
            numbers: crate::event::strings_view(self.numbers@),
            table_state: self.table_state,
            table_alignments: self.table_alignments@,
            table_cell_index: self.table_cell_index as nat,
            in_non_writing_block: self.in_non_writing_block,
            anomalies: self.anomalies as nat,
        }
    }
}

/// The state a fresh context starts in.
pub open spec fn initial_context() -> ContextView {
    ContextView {
        numbers: Seq::empty(),
        table_state: TableState::Head,
        table_alignments: Seq::empty(),
        table_cell_index: 0,
        in_non_writing_block: false,
        anomalies: 0,
    }
}

impl Context {
    /// A fresh context: head phase, no alignments, cell index zero, no
    /// footnotes seen, not suppressing, no anomalies recorded.
    pub fn new() -> (r: Context)
        ensures
            r@ == initial_context(),
    {
        let r = Context {
            table_state: TableState::Head,
            table_alignments: Vec::new(),
            table_cell_index: 0,
            numbers: Vec::new(),
            in_non_writing_block: false,
            anomalies: 0,
        };
        proof {
            assert(r@.numbers =~= initial_context().numbers);
            assert(r@.table_alignments =~= initial_context().table_alignments);
            assert(r@ =~= initial_context());
        }
        r
    }
}

} // verus!
