use vstd::prelude::*;
use vstd::string::StringExecFns;

use crate::mrkdwn::Mrkdwn;
use crate::node::{spec_checked, spec_children, Node};
use crate::strings::{
    collapse_newlines, decimal_string, indent_string, spec_collapse, spec_decimal, spec_indent,
};

verus! {

/// The list nesting depth one level further in; it saturates at the
/// machine limit instead of wrapping.
pub open spec fn spec_bump(depth: nat) -> nat {
    if depth < usize::MAX as nat {
        depth + 1
    } else {
        depth
    }
}

/// The decoration put before a list item: its one-based position for an
/// ordered list, else a checkbox or a bullet, each padded to four
/// characters wide.
pub open spec fn spec_prefix(ordered: bool, pos: nat, item: Node) -> Seq<char> {
    if ordered {
        spec_decimal(pos) + ".  "@
    } else {
        match spec_checked(item) {
            Option::None => "\u{2022}   "@,
            Option::Some(true) => "\u{2611}   "@,
            Option::Some(false) => "\u{2610}   "@,
        }
    }
}

/// The rendering of a sequence of sibling nodes: each node's rendering,
/// concatenated in document order with no separator.
pub open spec fn spec_render(nodes: Seq<Node>, depth: nat) -> Seq<char>
    decreases nodes, 0int,
{
    if nodes.len() == 0 {
        Seq::empty()
    } else {
        spec_render_node(nodes[0], depth) + spec_render(nodes.drop_first(), depth)
    }
}

/// The node-to-syntax mapping of the target dialect, applied recursively;
/// a construct outside the supported set renders to the empty sequence.
pub open spec fn spec_render_node(n: Node, depth: nat) -> Seq<char>
    decreases n, 2int,
{
    match n {
        Node::BlockQuote(k) => "> "@ + spec_render(k@, depth),
        Node::Break => "\n"@,
        Node::Code(v) => "```\n"@ + v@ + "\n```\n"@,
        Node::Delete(k) => "~"@ + spec_render(k@, depth) + "~"@,
        Node::Emphasis(k) => "_"@ + spec_render(k@, depth) + "_"@,
        Node::Heading(_depth, k) => "*"@ + spec_render(k@, depth) + "*\n\n"@,
        Node::InlineCode(v) => "`"@ + v@ + "`"@,
        Node::Link(url, k) => "<"@ + url@ + "|"@ + spec_render(k@, depth) + ">"@,
        Node::List(ordered, items) => spec_collapse(spec_items(items@, ordered, 1, depth))
            + "\n"@,
        Node::ListItem(_checked, k) => spec_render(k@, depth),
        Node::Paragraph(k) => spec_render(k@, depth) + "\n"@,
        Node::Strong(k) => "*"@ + spec_render(k@, depth) + "*"@,
        Node::Text(v) => v@,
        Node::ThematicBreak => "\n----------\n"@,
        Node::Unsupported => Seq::empty(),
    }
}

/// The lines of a list's items before the final newline clean-up: each
/// item on a line of its own, indented four spaces per enclosing list,
/// decorated, its children rendered one nesting level further in.
pub open spec fn spec_items(items: Seq<Node>, ordered: bool, pos: nat, depth: nat) -> Seq<char>
    decreases items, 1int,
    via spec_items_decreases
{
    if items.len() == 0 {
        Seq::empty()
    } else {
        spec_indent(depth) + spec_prefix(ordered, pos, items[0]) + spec_render(
            spec_children(items[0]),
            spec_bump(depth),
        ) + "\n"@ + spec_items(items.drop_first(), ordered, pos + 1, depth)
    }
}

#[via_fn]
proof fn spec_items_decreases(items: Seq<Node>, ordered: bool, pos: nat, depth: nat) {
    if items.len() > 0 {
        lemma_children_smaller(items);
    }
}

/// The child sequence of the first node of `items` sits below `items` in
/// the well-founded order that recursion descends along.
proof fn lemma_children_smaller(items: Seq<Node>)
    requires
        items.len() > 0,
    ensures
        decreases_to!(items => spec_children(items[0])),
{
    assert(decreases_to!(items => items[0]));
    match items[0] {
        Node::BlockQuote(f) => {
            assert(decreases_to!(items[0] => f));
            assert(decreases_to!(f => f@));
        },
        Node::Delete(f) => {
            assert(decreases_to!(items[0] => f));
            assert(decreases_to!(f => f@));
        },
        Node::Emphasis(f) => {
            assert(decreases_to!(items[0] => f));
            assert(decreases_to!(f => f@));
        },
        Node::Heading(_d, f) => {
            assert(decreases_to!(items[0] => f));
            assert(decreases_to!(f => f@));
        },
        Node::Link(_u, f) => {
            assert(decreases_to!(items[0] => f));
            assert(decreases_to!(f => f@));
        },
        Node::List(_o, f) => {
            assert(decreases_to!(items[0] => f));
            assert(decreases_to!(f => f@));
        },
        Node::ListItem(_c, f) => {
            assert(decreases_to!(items[0] => f));
            assert(decreases_to!(f => f@));
        },
        Node::Paragraph(f) => {
            assert(decreases_to!(items[0] => f));
            assert(decreases_to!(f => f@));
        },
        Node::Strong(f) => {
            assert(decreases_to!(items[0] => f));
            assert(decreases_to!(f => f@));
        },
        _ => {
            vstd::seq::axiom_seq_len_decreases(items, spec_children(items[0]));
        },
    }
}

/// The list nesting depth one level further in, saturating.
fn next_depth(depth: usize) -> (r: usize)
    ensures
        r as nat == spec_bump(depth as nat),
{
    if depth < usize::MAX {
        depth + 1
    } else {
        depth
    }
}

/// Renders a sequence of sibling nodes at the given list nesting depth.
pub fn render_nodes(nodes: &Vec<Node>, depth: usize) -> (r: String)
    ensures
        r@ == spec_render(nodes@, depth as nat),
    decreases nodes@, 3int,
{
    let mut out = String::new();
    let mut i: usize = 0;
    proof {
        assert(nodes@.skip(0) =~= nodes@);
    }
    while i < nodes.len()
        invariant
            i <= nodes.len(),
            spec_render(nodes@, depth as nat) =~= out@ + spec_render(
                nodes@.skip(i as int),
                depth as nat,
            ),
        decreases nodes@.len() - i,
    {
        let piece = render_node(&nodes[i], depth);
        out.append(piece.as_str());
        proof {
            assert(nodes@.skip(i as int).drop_first() =~= nodes@.skip(i + 1));
            assert(nodes@.skip(i as int)[0] == nodes@[i as int]);
            assert(spec_render(nodes@, depth as nat) =~= out@ + spec_render(
                nodes@.skip(i + 1),
                depth as nat,
            ));
        }
        i = i + 1;
    }
    proof {
        assert(nodes@.skip(nodes@.len() as int) =~= Seq::<Node>::empty());
        assert(out@ + Seq::<char>::empty() =~= out@);
    }
    out
}

/// Renders one node by the node-to-syntax mapping.
pub fn render_node(n: &Node, depth: usize) -> (r: String)
    ensures
        r@ == spec_render_node(*n, depth as nat),
    decreases *n, 2int,
{
    proof {
        reveal_strlit("");
    }
    match n {
        Node::BlockQuote(k) => {
            let inner = render_nodes(k, depth);
            let r = Mrkdwn::surround_with(inner.as_str(), "> ", "");
            proof {
                assert(r@ =~= spec_render_node(*n, depth as nat));
            }
            r
        },
        Node::Break => String::from_str("\n"),
        Node::Code(v) => Mrkdwn::surround_with(v.as_str(), "```\n", "\n```\n"),
        Node::Delete(k) => {
            let inner = render_nodes(k, depth);
            Mrkdwn::surround_with(inner.as_str(), "~", "~")
        },
        Node::Emphasis(k) => {
            let inner = render_nodes(k, depth);
            Mrkdwn::surround_with(inner.as_str(), "_", "_")
        },
        Node::Heading(_d, k) => {
            let inner = render_nodes(k, depth);
            Mrkdwn::surround_with(inner.as_str(), "*", "*\n\n")
        },
        Node::InlineCode(v) => Mrkdwn::surround_with(v.as_str(), "`", "`"),
        Node::Link(url, k) => {
            let mut r = String::from_str("<");
            r.append(url.as_str());
            r.append("|");
            let inner = render_nodes(k, depth);
            r.append(inner.as_str());
            r.append(">");
            proof {
                assert(r@ =~= spec_render_node(*n, depth as nat));
            }
            r
        },
        Node::List(ordered, items) => render_list(*ordered, items, depth),
        Node::ListItem(_c, k) => render_nodes(k, depth),
        Node::Paragraph(k) => {
            let inner = render_nodes(k, depth);
            let r = Mrkdwn::surround_with(inner.as_str(), "", "\n");
            proof {
                assert(r@ =~= spec_render_node(*n, depth as nat));
            }
            r
        },
        Node::Strong(k) => {
            let inner = render_nodes(k, depth);
            Mrkdwn::surround_with(inner.as_str(), "*", "*")
        },
        Node::Text(v) => String::from_str(v.as_str()),
        Node::ThematicBreak => String::from_str("\n----------\n"),
        Node::Unsupported => String::new(),
    }
}

/// Renders the children of one node, and nothing of the node itself; a
/// leaf node has none and renders to the empty string.
fn render_children(n: &Node, depth: usize) -> (r: String)
    ensures
        r@ == spec_render(spec_children(*n), depth as nat),
    decreases *n, 0int,
{
    match n {
        Node::BlockQuote(k) => render_nodes(k, depth),
        Node::Delete(k) => render_nodes(k, depth),
        Node::Emphasis(k) => render_nodes(k, depth),
        Node::Heading(_d, k) => render_nodes(k, depth),
        Node::Link(_u, k) => render_nodes(k, depth),
        Node::List(_o, k) => render_nodes(k, depth),
        Node::ListItem(_c, k) => render_nodes(k, depth),
        Node::Paragraph(k) => render_nodes(k, depth),
        Node::Strong(k) => render_nodes(k, depth),
        _ => String::new(),
    }
}

/// Renders a whole list: one decorated line per item, doubled newlines
/// collapsed, one trailing newline appended.
fn render_list(ordered: bool, items: &Vec<Node>, depth: usize) -> (r: String)
    ensures
        r@ == spec_collapse(spec_items(items@, ordered, 1, depth as nat)) + "\n"@,
    decreases items@, 1int,
{
    let mut acc = String::new();
    let mut i: usize = 0;
    proof {
        assert(items@.skip(0) =~= items@);
    }
    while i < items.len()
        invariant
            i <= items.len(),
            spec_items(items@, ordered, 1, depth as nat) =~= acc@ + spec_items(
                items@.skip(i as int),
                ordered,
                (i + 1) as nat,
                depth as nat,
            ),
        decreases items@.len() - i,
    {
        let ghost pre = acc@;
        let ind = indent_string(depth);
        acc.append(ind.as_str());
        let item = &items[i];
        if ordered {
            let num = decimal_string(i + 1);
            acc.append(num.as_str());
            acc.append(".  ");
        } else {
            match item.checked() {
                Option::None => acc.append("\u{2022}   "),
                Option::Some(true) => acc.append("\u{2611}   "),
                Option::Some(false) => acc.append("\u{2610}   "),
            }
        }
        let body = render_children(item, next_depth(depth));
        acc.append(body.as_str());
        acc.append("\n");
        proof {
            assert(items@.skip(i as int).drop_first() =~= items@.skip(i + 1));
            assert(items@.skip(i as int)[0] == items@[i as int]);
            assert(acc@ =~= pre + (spec_indent(depth as nat) + spec_prefix(
                ordered,
                (i + 1) as nat,
                items@[i as int],
            ) + spec_render(spec_children(items@[i as int]), spec_bump(depth as nat)) + "\n"@));
            assert(spec_items(items@, ordered, 1, depth as nat) =~= acc@ + spec_items(
                items@.skip(i + 1),
                ordered,
                (i + 2) as nat,
                depth as nat,
            ));
        }
        i = i + 1;
    }
    proof {
        assert(items@.skip(items@.len() as int) =~= Seq::<Node>::empty());
        assert(acc@ + Seq::<char>::empty() =~= acc@);
        assert(acc@ =~= spec_items(items@, ordered, 1, depth as nat));
    }
    let collapsed = collapse_newlines(acc.as_str());
    let mut r = collapsed;
    r.append("\n");
    r
}

} // verus!
