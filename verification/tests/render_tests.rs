use md_tree::{
    Alignment, BlockQuoteKind, CodeBlockKind, Context, Event, HeadingLevel, LinkType, Tag, TagEnd,
};
use md_tree::DocumentNode;
use md_tree::render::render;

fn start(tag: Tag) -> Event {
    Event::Start { tag }
}

fn end(tag: TagEnd) -> Event {
    Event::End { tag }
}

fn text(s: &str) -> Event {
    Event::Text { text: s.to_string() }
}

fn run_events(events: Vec<Event>) -> (Vec<DocumentNode>, Context) {
    let mut cx = Context::new();
    let nodes = render(&events, &mut cx);
    (nodes, cx)
}

#[test]
fn heading_and_paragraph_with_escaped_text() {
    let events = vec![
        start(Tag::Heading { level: HeadingLevel::H2, id: None, classes: vec![] }),
        text("Intro"),
        end(TagEnd::Heading),
        start(Tag::Paragraph),
        text("a & b"),
        end(TagEnd::Paragraph),
    ];
    let (nodes, cx) = run_events(events);
    assert_eq!(nodes.len(), 2);
    match &nodes[0] {
        DocumentNode::Heading { level, id, classes, children } => {
            assert_eq!(*level, HeadingLevel::H2);
            assert_eq!(*id, None);
            assert_eq!(*classes, None);
            assert_eq!(children.len(), 1);
            assert_eq!(children[0], DocumentNode::Text { text: "Intro".to_string() });
        }
        other => panic!("expected heading, got {:?}", other),
    }
    match &nodes[1] {
        DocumentNode::Paragraph { children } => {
            assert_eq!(children.len(), 1);
            assert_eq!(children[0], DocumentNode::Text { text: "a &amp; b".to_string() });
        }
        other => panic!("expected paragraph, got {:?}", other),
    }
    assert_eq!(cx.anomalies, 0);
}

#[test]
fn footnote_definitions_get_increasing_ordinals() {
    let events = vec![
        start(Tag::FootnoteDefinition { name: "a".to_string() }),
        end(TagEnd::FootnoteDefinition),
        start(Tag::FootnoteDefinition { name: "b".to_string() }),
        end(TagEnd::FootnoteDefinition),
    ];
    let (nodes, _) = run_events(events);
    assert_eq!(nodes.len(), 2);
    match &nodes[0] {
        DocumentNode::FootnoteDefinition { id, number, children } => {
            assert_eq!(id, "a");
            assert_eq!(*number, 1);
            assert!(children.is_empty());
        }
        other => panic!("expected footnote definition, got {:?}", other),
    }
    match &nodes[1] {
        DocumentNode::FootnoteDefinition { number, .. } => assert_eq!(*number, 2),
        other => panic!("expected footnote definition, got {:?}", other),
    }
}

#[test]
fn repeated_footnote_definition_keeps_its_ordinal() {
    let events = vec![
        start(Tag::FootnoteDefinition { name: "a".to_string() }),
        end(TagEnd::FootnoteDefinition),
        start(Tag::FootnoteDefinition { name: "b".to_string() }),
        end(TagEnd::FootnoteDefinition),
        start(Tag::FootnoteDefinition { name: "a".to_string() }),
        end(TagEnd::FootnoteDefinition),
    ];
    let (nodes, _) = run_events(events);
    match &nodes[2] {
        DocumentNode::FootnoteDefinition { number, .. } => assert_eq!(*number, 1),
        other => panic!("expected footnote definition, got {:?}", other),
    }
}

#[test]
fn footnote_reference_shows_count_so_far_plus_one() {
    let events = vec![
        start(Tag::Paragraph),
        Event::FootnoteReference { name: "x&y".to_string() },
        end(TagEnd::Paragraph),
    ];
    let (nodes, _) = run_events(events);
    match &nodes[0] {
        DocumentNode::Paragraph { children } => match &children[0] {
            DocumentNode::FootnoteReference { href, number } => {
                assert_eq!(href, "#x&amp;y");
                assert_eq!(*number, 1);
            }
            other => panic!("expected footnote reference, got {:?}", other),
        },
        other => panic!("expected paragraph, got {:?}", other),
    }
}

#[test]
fn table_alignments_apply_per_column_in_head_and_body() {
    let cell = |body: Vec<Event>| {
        let mut evs = vec![start(Tag::TableCell)];
        evs.extend(body);
        evs.push(end(TagEnd::TableCell));
        evs
    };
    let mut events = vec![
        start(Tag::Table { alignments: vec![Alignment::Left, Alignment::Right] }),
        start(Tag::TableHead),
    ];
    events.extend(cell(vec![text("h1")]));
    events.extend(cell(vec![text("h2")]));
    events.push(end(TagEnd::TableHead));
    events.push(start(Tag::TableRow));
    events.extend(cell(vec![text("b1")]));
    events.extend(cell(vec![text("b2")]));
    events.push(end(TagEnd::TableRow));
    events.push(end(TagEnd::Table));

    let (nodes, cx) = run_events(events);
    assert_eq!(nodes.len(), 1);
    let children = match &nodes[0] {
        DocumentNode::Table { children } => children,
        other => panic!("expected table, got {:?}", other),
    };
    match &children[0] {
        DocumentNode::TableHead { children } => {
            match &children[0] {
                DocumentNode::TableHeadCell { style, .. } => {
                    assert_eq!(style.as_deref(), Some("text-align: left"))
                }
                other => panic!("expected head cell, got {:?}", other),
            }
            match &children[1] {
                DocumentNode::TableHeadCell { style, .. } => {
                    assert_eq!(style.as_deref(), Some("text-align: right"))
                }
                other => panic!("expected head cell, got {:?}", other),
            }
        }
        other => panic!("expected table head, got {:?}", other),
    }
    match &children[1] {
        DocumentNode::TableRow { children } => {
            match &children[0] {
                DocumentNode::TableBodyCell { style, .. } => {
                    assert_eq!(style.as_deref(), Some("text-align: left"))
                }
                other => panic!("expected body cell, got {:?}", other),
            }
            match &children[1] {
                DocumentNode::TableBodyCell { style, .. } => {
                    assert_eq!(style.as_deref(), Some("text-align: right"))
                }
                other => panic!("expected body cell, got {:?}", other),
            }
        }
        other => panic!("expected table row, got {:?}", other),
    }
    assert_eq!(cx.anomalies, 0);
}

#[test]
fn third_column_without_alignment_gets_no_style() {
    let events = vec![
        start(Tag::Table { alignments: vec![Alignment::Unset] }),
        start(Tag::TableHead),
        start(Tag::TableCell),
        end(TagEnd::TableCell),
        start(Tag::TableCell),
        end(TagEnd::TableCell),
        end(TagEnd::TableHead),
        end(TagEnd::Table),
    ];
    let (nodes, _) = run_events(events);
    let children = match &nodes[0] {
        DocumentNode::Table { children } => children,
        other => panic!("expected table, got {:?}", other),
    };
    let cells = match &children[0] {
        DocumentNode::TableHead { children } => children,
        other => panic!("expected table head, got {:?}", other),
    };
    for cell in cells {
        match cell {
            DocumentNode::TableHeadCell { style, .. } => assert_eq!(*style, None),
            other => panic!("expected head cell, got {:?}", other),
        }
    }
}

#[test]
fn unmatched_end_yields_no_node_and_one_anomaly() {
    let events = vec![end(TagEnd::Paragraph), start(Tag::Paragraph), text("ok"), end(
        TagEnd::Paragraph,
    )];
    let (nodes, cx) = run_events(events);
    assert_eq!(nodes.len(), 1);
    assert!(matches!(nodes[0], DocumentNode::Paragraph { .. }));
    assert_eq!(cx.anomalies, 1);
}

#[test]
fn exhausted_stream_closes_open_scopes_and_counts_them() {
    let events = vec![start(Tag::Paragraph), start(Tag::Emphasis), text("deep")];
    let (nodes, cx) = run_events(events);
    assert_eq!(nodes.len(), 1);
    match &nodes[0] {
        DocumentNode::Paragraph { children } => match &children[0] {
            DocumentNode::Emphasis { children } => {
                assert_eq!(children[0], DocumentNode::Text { text: "deep".to_string() })
            }
            other => panic!("expected emphasis, got {:?}", other),
        },
        other => panic!("expected paragraph, got {:?}", other),
    }
    assert_eq!(cx.anomalies, 2);
}

#[test]
fn metadata_block_suppresses_text_only_inside() {
    let events = vec![
        start(Tag::Paragraph),
        text("before"),
        end(TagEnd::Paragraph),
        start(Tag::MetadataBlock),
        text("hidden"),
        Event::Rule,
        end(TagEnd::MetadataBlock),
        start(Tag::Paragraph),
        text("after"),
        end(TagEnd::Paragraph),
    ];
    let (nodes, cx) = run_events(events);
    // the metadata block itself is transparent: its non-text leaves pass
    assert_eq!(nodes.len(), 3);
    match &nodes[0] {
        DocumentNode::Paragraph { children } => {
            assert_eq!(children[0], DocumentNode::Text { text: "before".to_string() })
        }
        other => panic!("expected paragraph, got {:?}", other),
    }
    assert_eq!(nodes[1], DocumentNode::HorizontalRule);
    match &nodes[2] {
        DocumentNode::Paragraph { children } => {
            assert_eq!(children[0], DocumentNode::Text { text: "after".to_string() })
        }
        other => panic!("expected paragraph, got {:?}", other),
    }
    assert_eq!(cx.anomalies, 0);
}

#[test]
fn email_link_gets_mailto_prefix_and_other_links_do_not() {
    let events = vec![
        start(Tag::Link {
            link_type: LinkType::Email,
            dest_url: "who@example.com".to_string(),
            title: "".to_string(),
        }),
        end(TagEnd::Link),
        start(Tag::Link {
            link_type: LinkType::Plain,
            dest_url: "https://example.com/a b".to_string(),
            title: "site".to_string(),
        }),
        end(TagEnd::Link),
    ];
    let (nodes, _) = run_events(events);
    match &nodes[0] {
        DocumentNode::Link { href, title, .. } => {
            assert_eq!(href, "mailto:who@example.com");
            assert_eq!(*title, None);
        }
        other => panic!("expected link, got {:?}", other),
    }
    match &nodes[1] {
        DocumentNode::Link { href, title, .. } => {
            assert_eq!(href, "https://example.com/a%20b");
            assert_eq!(title.as_deref(), Some("site"));
        }
        other => panic!("expected link, got {:?}", other),
    }
}

#[test]
fn image_source_is_href_escaped_and_empty_title_suppressed() {
    let events = vec![
        start(Tag::Image { dest_url: "img/pic 1.png".to_string(), title: "".to_string() }),
        end(TagEnd::Image),
    ];
    let (nodes, _) = run_events(events);
    match &nodes[0] {
        DocumentNode::Image { src, title, .. } => {
            assert_eq!(src, "img/pic%201.png");
            assert_eq!(*title, None);
        }
        other => panic!("expected image, got {:?}", other),
    }
}

#[test]
fn heading_id_and_classes_are_attribute_escaped() {
    let events = vec![
        start(Tag::Heading {
            level: HeadingLevel::H1,
            id: Some("a\"b".to_string()),
            classes: vec!["x<y".to_string(), "z".to_string()],
        }),
        end(TagEnd::Heading),
    ];
    let (nodes, _) = run_events(events);
    match &nodes[0] {
        DocumentNode::Heading { id, classes, .. } => {
            assert_eq!(id.as_deref(), Some("a&quot;b"));
            assert_eq!(classes.as_deref(), Some("x&lt;y z"));
        }
        other => panic!("expected heading, got {:?}", other),
    }
}

#[test]
fn code_block_language_comes_from_first_info_token() {
    let events = vec![
        start(Tag::CodeBlock { kind: CodeBlockKind::Fenced { info: "rust ignore".to_string() } }),
        text("let x;"),
        end(TagEnd::CodeBlock),
        start(Tag::CodeBlock { kind: CodeBlockKind::Fenced { info: "".to_string() } }),
        end(TagEnd::CodeBlock),
        start(Tag::CodeBlock { kind: CodeBlockKind::Indented }),
        end(TagEnd::CodeBlock),
    ];
    let (nodes, _) = run_events(events);
    match &nodes[0] {
        DocumentNode::CodeBlock { language_class, children } => {
            assert_eq!(language_class.as_deref(), Some("language-rust"));
            assert_eq!(children[0], DocumentNode::Text { text: "let x;".to_string() });
        }
        other => panic!("expected code block, got {:?}", other),
    }
    for node in &nodes[1..] {
        match node {
            DocumentNode::CodeBlock { language_class, .. } => assert_eq!(*language_class, None),
            other => panic!("expected code block, got {:?}", other),
        }
    }
}

#[test]
fn list_start_attribute_only_when_not_one() {
    let events = vec![
        start(Tag::List { start: None }),
        end(TagEnd::List),
        start(Tag::List { start: Some(1) }),
        end(TagEnd::List),
        start(Tag::List { start: Some(3) }),
        end(TagEnd::List),
    ];
    let (nodes, _) = run_events(events);
    assert!(matches!(nodes[0], DocumentNode::UnorderedList { .. }));
    assert!(matches!(nodes[1], DocumentNode::OrderedList { start: None, .. }));
    assert!(matches!(nodes[2], DocumentNode::OrderedList { start: Some(3), .. }));
}

#[test]
fn block_quote_kinds_map_to_alert_classes() {
    let events = vec![
        start(Tag::BlockQuote { kind: Some(BlockQuoteKind::Warning) }),
        end(TagEnd::BlockQuote),
        start(Tag::BlockQuote { kind: None }),
        end(TagEnd::BlockQuote),
    ];
    let (nodes, _) = run_events(events);
    match &nodes[0] {
        DocumentNode::BlockQuote { class, .. } => {
            assert_eq!(class.as_deref(), Some("markdown-alert-warning"))
        }
        other => panic!("expected block quote, got {:?}", other),
    }
    match &nodes[1] {
        DocumentNode::BlockQuote { class, .. } => assert_eq!(*class, None),
        other => panic!("expected block quote, got {:?}", other),
    }
}

#[test]
fn inline_leaves_render_their_nodes() {
    let events = vec![
        start(Tag::Paragraph),
        Event::Code { text: "1<2".to_string() },
        Event::InlineMath { text: "x<y".to_string() },
        Event::Html { html: "<b>raw</b>".to_string() },
        Event::SoftBreak,
        Event::HardBreak,
        Event::TaskListMarker { checked: true },
        end(TagEnd::Paragraph),
    ];
    let (nodes, _) = run_events(events);
    match &nodes[0] {
        DocumentNode::Paragraph { children } => {
            assert_eq!(children[0], DocumentNode::InlineCode { text: "1&lt;2".to_string() });
            assert_eq!(children[1], DocumentNode::InlineMath { text: "x&lt;y".to_string() });
            assert_eq!(children[2], DocumentNode::HtmlPassthrough {
                html: "<b>raw</b>".to_string()
            });
            assert_eq!(children[3], DocumentNode::SoftBreak);
            assert_eq!(children[4], DocumentNode::HardBreak);
            assert_eq!(children[5], DocumentNode::TaskListMarker { checked: true });
        }
        other => panic!("expected paragraph, got {:?}", other),
    }
}

#[test]
fn nesting_depth_matches_tree_depth() {
    let events = vec![
        start(Tag::List { start: None }),
        start(Tag::Item),
        start(Tag::Emphasis),
        text("deep"),
        end(TagEnd::Emphasis),
        text("shallow"),
        end(TagEnd::Item),
        end(TagEnd::List),
    ];
    let (nodes, cx) = run_events(events);
    assert_eq!(nodes.len(), 1);
    match &nodes[0] {
        DocumentNode::UnorderedList { children } => match &children[0] {
            DocumentNode::Item { children } => {
                assert_eq!(children.len(), 2);
                match &children[0] {
                    DocumentNode::Emphasis { children } => {
                        assert_eq!(children[0], DocumentNode::Text { text: "deep".to_string() })
                    }
                    other => panic!("expected emphasis, got {:?}", other),
                }
                assert_eq!(children[1], DocumentNode::Text { text: "shallow".to_string() });
            }
            other => panic!("expected item, got {:?}", other),
        },
        other => panic!("expected list, got {:?}", other),
    }
    assert_eq!(cx.anomalies, 0);
}

#[test]
fn html_block_is_transparent() {
    let events = vec![
        start(Tag::HtmlBlock),
        Event::Html { html: "<hr/>".to_string() },
        end(TagEnd::HtmlBlock),
    ];
    let (nodes, _) = run_events(events);
    assert_eq!(nodes.len(), 1);
    assert_eq!(nodes[0], DocumentNode::HtmlPassthrough { html: "<hr/>".to_string() });
}

#[test]
fn empty_stream_renders_an_empty_forest() {
    let (nodes, cx) = run_events(vec![]);
    assert!(nodes.is_empty());
    assert_eq!(cx.anomalies, 0);
    assert!(cx.numbers.is_empty());
}
