use markdown2mrkdwn::{Block, Mrkdwn, Node};

fn item(text: &str) -> Node {
    Node::ListItem(
        None,
        vec![Node::Paragraph(vec![Node::Text(text.to_string())])],
    )
}

fn checked_item(checked: bool, text: &str) -> Node {
    Node::ListItem(
        Some(checked),
        vec![Node::Paragraph(vec![Node::Text(text.to_string())])],
    )
}

#[test]
fn empty_document_is_parse_error() {
    assert!(Mrkdwn::from(vec![]).mrkdwnify().is_err());
    assert!(Mrkdwn::from(vec![]).blockify().is_err());
    assert!(Mrkdwn::from(vec![]).blocks_stringify().is_err());
}

#[test]
fn thematic_break_flat_is_ten_dashes() {
    let out = Mrkdwn::from(vec![Node::ThematicBreak]).mrkdwnify().unwrap();
    assert_eq!(out, "----------");
}

#[test]
fn thematic_break_wire_is_one_divider() {
    let out = Mrkdwn::from(vec![Node::ThematicBreak])
        .blocks_stringify()
        .unwrap();
    assert_eq!(out, r#"{ "blocks": [{"type":"divider"}] }"#);
}

#[test]
fn two_item_list_flat() {
    let doc = vec![Node::List(false, vec![item("First"), item("Second")])];
    let out = Mrkdwn::from(doc).mrkdwnify().unwrap();
    assert_eq!(out, "\u{2022}   First\\n\u{2022}   Second");
}

#[test]
fn escaping_applies_in_order() {
    let doc = vec![
        Node::Paragraph(vec![Node::Text("a\"b&c".to_string())]),
        Node::Paragraph(vec![Node::Text("d".to_string())]),
    ];
    let out = Mrkdwn::from(doc).mrkdwnify().unwrap();
    assert_eq!(out, "a\\\"b&amp;c\\nd");
}

#[test]
fn angle_brackets_stay_unescaped() {
    let doc = vec![Node::Paragraph(vec![Node::Text("a < b > c".to_string())])];
    let out = Mrkdwn::from(doc).mrkdwnify().unwrap();
    assert_eq!(out, "a < b > c");
}

#[test]
fn heading_depth_one_couples_with_divider() {
    let doc = vec![
        Node::Heading(1, vec![Node::Text("A".to_string())]),
        Node::Heading(2, vec![Node::Text("B".to_string())]),
    ];
    let blocks = Mrkdwn::from(doc).blockify().unwrap();
    assert_eq!(
        blocks,
        vec![
            Block::Header("A".to_string()),
            Block::Divider,
            Block::Header("B".to_string()),
        ]
    );
}

#[test]
fn nested_lists_indent_four_spaces_per_level() {
    let level3 = Node::List(false, vec![item("Third")]);
    let level2 = Node::List(
        false,
        vec![Node::ListItem(
            None,
            vec![
                Node::Paragraph(vec![Node::Text("Second".to_string())]),
                level3,
            ],
        )],
    );
    let level1 = Node::List(
        false,
        vec![Node::ListItem(
            None,
            vec![
                Node::Paragraph(vec![Node::Text("First".to_string())]),
                level2,
            ],
        )],
    );
    let second_list = Node::List(false, vec![item("Fourth")]);
    let out = Mrkdwn::from(vec![level1, second_list]).mrkdwnify().unwrap();
    assert_eq!(
        out,
        "\u{2022}   First\\n    \u{2022}   Second\\n        \u{2022}   Third\\n\\n\\n\u{2022}   Fourth"
    );
}

#[test]
fn sibling_ordered_lists_both_restart_at_one() {
    let doc = vec![
        Node::List(true, vec![item("A"), item("B")]),
        Node::List(true, vec![item("C")]),
    ];
    let out = Mrkdwn::from(doc).mrkdwnify().unwrap();
    assert_eq!(out, "1.  A\\n2.  B\\n\\n1.  C");
}

#[test]
fn task_decorations_share_their_width() {
    let doc = vec![Node::List(
        false,
        vec![
            checked_item(false, "A"),
            checked_item(true, "B"),
            item("C"),
        ],
    )];
    let out = Mrkdwn::from(doc).mrkdwnify().unwrap();
    assert_eq!(out, "\u{2610}   A\\n\u{2611}   B\\n\u{2022}   C");
}

#[test]
fn unsupported_node_is_invisible_between_siblings() {
    let with_unsupported = vec![
        Node::Paragraph(vec![
            Node::Text("a".to_string()),
            Node::Unsupported,
            Node::Text("b".to_string()),
        ]),
    ];
    let out = Mrkdwn::from(with_unsupported).mrkdwnify().unwrap();
    assert_eq!(out, "ab");
}

#[test]
fn unsupported_top_level_node_becomes_empty_section() {
    let blocks = Mrkdwn::from(vec![Node::Unsupported]).blockify().unwrap();
    assert_eq!(blocks, vec![Block::Section("".to_string())]);
}

#[test]
fn header_wire_text_is_json_quoted() {
    let doc = vec![Node::Heading(
        1,
        vec![Node::Text("Say \"hi\"".to_string())],
    )];
    let out = Mrkdwn::from(doc).blocks_stringify().unwrap();
    assert_eq!(
        out,
        r#"{ "blocks": [{"text":{"emoji":true,"text":"Say \"hi\"","type":"plain_text"},"type":"header"},{"type":"divider"}] }"#
    );
}

#[test]
fn section_wire_text_is_json_quoted() {
    let doc = vec![Node::Paragraph(vec![Node::Text("a\nb".to_string())])];
    let out = Mrkdwn::from(doc).blocks_stringify().unwrap();
    assert_eq!(
        out,
        r#"{ "blocks": [{"text":{"text":"a\nb\n","type":"mrkdwn"},"type":"section"}] }"#
    );
}

#[test]
fn node_templates_render_as_mapped() {
    let cases: Vec<(Node, &str)> = vec![
        (Node::Break, ""),
        (Node::Code("x".to_string()), "```\\nx\\n```"),
        (
            Node::Delete(vec![Node::Text("x".to_string())]),
            "~x~",
        ),
        (
            Node::Emphasis(vec![Node::Text("x".to_string())]),
            "_x_",
        ),
        (
            Node::Heading(3, vec![Node::Text("x".to_string())]),
            "*x*",
        ),
        (Node::InlineCode("x".to_string()), "`x`"),
        (
            Node::Link("u".to_string(), vec![Node::Text("x".to_string())]),
            "<u|x>",
        ),
        (
            Node::BlockQuote(vec![Node::Text("x".to_string())]),
            "> x",
        ),
        (
            Node::Strong(vec![Node::Text("x".to_string())]),
            "*x*",
        ),
        (Node::Text("x".to_string()), "x"),
    ];
    for (node, expected) in cases {
        let out = Mrkdwn::from(vec![node]).mrkdwnify().unwrap();
        assert_eq!(out, expected);
    }
}

#[test]
fn block_to_text_lines() {
    assert_eq!(
        Block::Header("T".to_string()).to_text(),
        "Header: T"
    );
    assert_eq!(Block::Divider.to_text(), "----------");
    assert_eq!(
        Block::Section("S".to_string()).to_text(),
        "Section: S"
    );
}

#[test]
fn surround_with_concatenates() {
    assert_eq!(Mrkdwn::surround_with("b", "a", "c"), "abc");
}

#[test]
fn unicode_whitespace_is_trimmed() {
    let doc = vec![Node::Paragraph(vec![Node::Text(
        "\u{a0}\u{3000}a\t".to_string(),
    )])];
    let out = Mrkdwn::from(doc).mrkdwnify().unwrap();
    assert_eq!(out, "a");
}

#[test]
fn one_trailing_literal_newline_is_stripped() {
    let doc = vec![Node::Paragraph(vec![Node::Text("x\\n".to_string())])];
    let out = Mrkdwn::from(doc).mrkdwnify().unwrap();
    assert_eq!(out, "x");

    let doc = vec![Node::Paragraph(vec![Node::Text("x\\n\\n".to_string())])];
    let out = Mrkdwn::from(doc).mrkdwnify().unwrap();
    assert_eq!(out, "x\\n");
}

#[test]
fn list_child_that_is_no_item_degrades() {
    let doc = vec![Node::List(false, vec![Node::Text("odd".to_string())])];
    let out = Mrkdwn::from(doc).mrkdwnify().unwrap();
    assert_eq!(out, "\u{2022}");
}

#[test]
fn numbering_goes_past_nine() {
    let items: Vec<Node> = (1..=12).map(|k: i32| item(&k.to_string())).collect();
    let doc = vec![Node::List(true, items)];
    let out = Mrkdwn::from(doc).mrkdwnify().unwrap();
    assert!(out.starts_with("1.  1\\n2.  2\\n"));
    assert!(out.ends_with("11.  11\\n12.  12"));
}
