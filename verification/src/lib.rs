//! A verified Markdown event-to-tree renderer with its supporting data
//! model: a transformer that consumes the flat event sequence of a
//! CommonMark-compatible lexer and reconstructs the nested document
//! tree, threading table state, footnote numbering and metadata-block
//! suppression through the whole pass.
pub mod context;
pub mod escape;
pub mod event;
pub mod laws;
pub mod node;
pub mod props;
pub mod render;
pub mod strutil;

pub use context::{Context, ContextView, TableState};
pub use event::{
    Alignment, BlockQuoteKind, CodeBlockKind, Event, EventView, HeadingLevel, LinkType, Tag,
    TagEnd, TagView,
};
pub use node::{DocumentNode, NodeView};
pub use render::render;
