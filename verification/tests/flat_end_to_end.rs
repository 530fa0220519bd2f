use markdown2mrkdwn::{Mrkdwn, Node};
use markdown::mdast::Node as M;

fn convert(n: &M) -> Node {
    match n {
        M::Blockquote(x) => Node::BlockQuote(convert_all(&x.children)),
        M::Break(_) => Node::Break,
        M::Code(x) => Node::Code(x.value.clone()),
        M::Delete(x) => Node::Delete(convert_all(&x.children)),
        M::Emphasis(x) => Node::Emphasis(convert_all(&x.children)),
        M::Heading(x) => Node::Heading(x.depth, convert_all(&x.children)),
        M::InlineCode(x) => Node::InlineCode(x.value.clone()),
        M::Link(x) => Node::Link(x.url.clone(), convert_all(&x.children)),
        M::List(x) => Node::List(x.ordered, convert_all(&x.children)),
        M::ListItem(x) => Node::ListItem(x.checked, convert_all(&x.children)),
        M::Paragraph(x) => Node::Paragraph(convert_all(&x.children)),
        M::Strong(x) => Node::Strong(convert_all(&x.children)),
        M::Text(x) => Node::Text(x.value.clone()),
        M::ThematicBreak(_) => Node::ThematicBreak,
        _ => Node::Unsupported,
    }
}

fn convert_all(nodes: &[markdown::mdast::Node]) -> Vec<Node> {
    nodes.iter().map(convert).collect()
}

fn mrkdwnify(text: &str) -> String {
    let root = markdown::to_mdast(text, &markdown::ParseOptions::gfm()).unwrap();
    let nodes = convert_all(root.children().unwrap());
    Mrkdwn::from(nodes).mrkdwnify().unwrap()
}

#[test]
fn flat_escaping1() {
    assert_eq!(mrkdwnify("&"), "&amp;");
}

#[test]
fn flat_escaping2() {
    assert_eq!(mrkdwnify("\""), "\\\"");
}

#[test]
fn flat_emphasis() {
    assert_eq!(mrkdwnify("*emphasis*"), "_emphasis_");
}

#[test]
fn flat_italic() {
    assert_eq!(mrkdwnify("_italic_"), "_italic_");
}

#[test]
fn flat_bold() {
    assert_eq!(mrkdwnify("**bold**"), "*bold*");
}

#[test]
fn flat_strikethrough() {
    assert_eq!(mrkdwnify("~~strikethrough~~"), "~strikethrough~");
}

#[test]
fn flat_line_breaks() {
    assert_eq!(
        mrkdwnify("This is a line of text.\nAnd this is another one."),
        "This is a line of text.\\nAnd this is another one."
    );
}

#[test]
fn flat_blockquotes() {
    assert_eq!(
        mrkdwnify("This is unquoted.\n> This is quoted."),
        "This is unquoted.\\n> This is quoted."
    );
}

#[test]
fn flat_inline_code() {
    assert_eq!(
        mrkdwnify("This is `**inline code**`."),
        "This is `**inline code**`."
    );
}

#[test]
fn flat_code_blocks() {
    assert_eq!(
        mrkdwnify("```\nconsole.log('Hello, mrkdwn!')\n```"),
        "```\\nconsole.log('Hello, mrkdwn!')\\n```"
    );
}

#[test]
fn flat_headings() {
    assert_eq!(
        mrkdwnify("# Heading 1\n## Heading 2\n### Heading 3"),
        "*Heading 1*\\n\\n*Heading 2*\\n\\n*Heading 3*"
    );
}

#[test]
fn flat_link() {
    assert_eq!(
        mrkdwnify("[Slack](https://slack.com/)"),
        "<https://slack.com/|Slack>"
    );
}

#[test]
fn flat_lists() {
    assert_eq!(
        mrkdwnify("- First\n- Second\n- Third"),
        "\u{2022}   First\\n\u{2022}   Second\\n\u{2022}   Third"
    );
}

#[test]
fn flat_ordered_lists() {
    assert_eq!(
        mrkdwnify("1. First\n1. Second\n1. Third"),
        "1.  First\\n2.  Second\\n3.  Third"
    );
}

#[test]
fn flat_nested_lists() {
    assert_eq!(
        mrkdwnify("- First\n    - Second\n        - Third\n    - Fourth\n        - Fifth\n        - Sixth\n- Seventh"),
        "\u{2022}   First\\n    \u{2022}   Second\\n        \u{2022}   Third\\n    \u{2022}   Fourth\\n        \u{2022}   Fifth\\n        \u{2022}   Sixth\\n\\n\u{2022}   Seventh"
    );
}

#[test]
fn flat_thematic_breaks() {
    assert_eq!(mrkdwnify("---"), "----------");
}

#[test]
fn flat_task_lists() {
    assert_eq!(
        mrkdwnify("- [ ] First\n- [x] Second\n- [ ] Third"),
        "\u{2610}   First\\n\u{2611}   Second\\n\u{2610}   Third"
    );
}

#[test]
fn flat_long_text() {
    let input = r#"# Heading 1
## Heading 2
### Heading 3

Hello, ~~Markdown~~ **mrkdwn**! and _markdown_.

`mrkdwn` is text formatting markup style in [Slack](https://slack.com/).

---

- First
    - Second
        - Third
    - Fourth
        - Fifth
        - Sixth
- Seventh


1. Ordered list 1
    - Ordered list 1-1
        - Ordered list 1-2
1. Ordered list 2
    1. Ordered list 2-1
    1. Ordered list 2-2
1. Ordered list 3

> *This is blockquote.*

```
console.log('Hello, mrkdwn!')
```

Another paragraph.
"#;
    assert_eq!(
        mrkdwnify(input),
        "*Heading 1*\\n\\n*Heading 2*\\n\\n*Heading 3*\\n\\nHello, ~Markdown~ *mrkdwn*! and _markdown_.\\n`mrkdwn` is text formatting markup style in <https://slack.com/|Slack>.\\n\\n----------\\n\u{2022}   First\\n    \u{2022}   Second\\n        \u{2022}   Third\\n    \u{2022}   Fourth\\n        \u{2022}   Fifth\\n        \u{2022}   Sixth\\n\\n\u{2022}   Seventh\\n\\n1.  Ordered list 1\\n    \u{2022}   Ordered list 1-1\\n        \u{2022}   Ordered list 1-2\\n\\n2.  Ordered list 2\\n    1.  Ordered list 2-1\\n    2.  Ordered list 2-2\\n\\n3.  Ordered list 3\\n\\n> _This is blockquote._\\n```\\nconsole.log('Hello, mrkdwn!')\\n```\\nAnother paragraph."
    );
}
