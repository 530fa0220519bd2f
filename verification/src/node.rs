use vstd::prelude::*;

verus! {

/// One node of a parsed Markdown document tree.
///
/// The tree is the input of the renderer and of the block segmenter. Every
/// construct the converter knows how to render has a variant of its own;
/// every other construct a parser may produce (tables, images, footnotes,
/// embedded HTML, math, front matter, definitions) is represented by
/// `Unsupported`, which renders to the empty string rather than failing.
#[derive(Debug, PartialEq, Eq)]
pub enum Node {
    /// A block quote with its child nodes.
    BlockQuote(Vec<Node>),
    /// A hard line break.
    Break,
    /// A fenced code block with its verbatim contents.
    Code(String),
    /// Struck-through content.
    Delete(Vec<Node>),
    /// Emphasised (italic) content.
    Emphasis(Vec<Node>),
    /// A heading: its depth (1 for a document title) and its inline content.
    Heading(u8, Vec<Node>),
    /// An inline code span with its verbatim contents.
    InlineCode(String),
    /// A link: its destination URL and its inline content.
    Link(String, Vec<Node>),
    /// A list: whether it is ordered, and its items.
    List(bool, Vec<Node>),
    /// A list item: its checkbox state (`None` when it is no task) and its
    /// child nodes.
    ListItem(Option<bool>, Vec<Node>),
    /// A paragraph with its inline content.
    Paragraph(Vec<Node>),
    /// Strong (bold) content.
    Strong(Vec<Node>),
    /// Verbatim text.
    Text(String),
    /// A thematic break (horizontal rule).
    ThematicBreak,
    /// Any construct the converter does not support; it renders to nothing.
    Unsupported,
}

/// The child nodes of `n`: the children of every container variant, and the
/// empty sequence for leaf variants, which have none.
pub open spec fn spec_children(n: Node) -> Seq<Node> {
    match n {
        Node::BlockQuote(k) => k@,
        Node::Delete(k) => k@,
        Node::Emphasis(k) => k@,
        Node::Heading(_depth, k) => k@,
        Node::Link(_url, k) => k@,
        Node::List(_ordered, k) => k@,
        Node::ListItem(_checked, k) => k@,
        Node::Paragraph(k) => k@,
        Node::Strong(k) => k@,
        _ => Seq::empty(),
    }
}

/// The checkbox state of `n`: its own state for a list item, `None` for
/// every other variant.
pub open spec fn spec_checked(n: Node) -> Option<bool> {
    match n {
        Node::ListItem(checked, _k) => checked,
        _ => None,
    }
}

impl Node {
    /// The checkbox state of this node, if it is a list item that has one.
    pub fn checked(&self) -> (r: Option<bool>)
        ensures
            r == spec_checked(*self),
    {
        match self {
            Node::ListItem(checked, _k) => *checked,
            _ => None,
        }
    }
}

} // verus!
