use vstd::prelude::*;

use crate::block::{spec_blocks, spec_node_blocks, BlockModel};
use crate::escape::{spec_escape, spec_escape_char, spec_escape_pipeline, spec_replace, spec_strip, spec_trim};
use crate::node::{spec_checked, Node};
use crate::render::{spec_items, spec_prefix, spec_render, spec_render_node};
use crate::strings::{spec_decimal, spec_indent};

verus! {

/// One replacement pass distributes over concatenation.
proof fn lemma_replace_concat(a: Seq<char>, b: Seq<char>, from: char, to: Seq<char>)
    ensures
        spec_replace(a + b, from, to) == spec_replace(a, from, to) + spec_replace(b, from, to),
    decreases a.len(),
{
    if a.len() == 0 {
        assert(a + b =~= b);
        assert(spec_replace(a, from, to) + spec_replace(b, from, to) =~= spec_replace(b, from, to));
    } else {
        lemma_replace_concat(a.drop_first(), b, from, to);
        assert((a + b)[0] == a[0]);
        assert((a + b).drop_first() =~= a.drop_first() + b);
        assert(spec_replace(a + b, from, to) =~= spec_replace(a, from, to) + spec_replace(
            b,
            from,
            to,
        ));
    }
}

/// A replacement pass leaves a text without the sought character as it is.
proof fn lemma_replace_absent(s: Seq<char>, from: char, to: Seq<char>)
    requires
        forall|i: int| 0 <= i < s.len() ==> s[i] != from,
    ensures
        spec_replace(s, from, to) == s,
    decreases s.len(),
{
    if s.len() == 0 {
        assert(spec_replace(s, from, to) =~= s);
    } else {
        lemma_replace_absent(s.drop_first(), from, to);
        assert(spec_replace(s, from, to) =~= s);
    }
}

/// Escaping applies the three replacements in their stated order.
///
/// The escaped form of any text equals the result of replacing `"` by
/// `\"`, then `&` by `&amp;`, then each newline by the two-character
/// literal `\n`, pass after pass over the whole text; no later pass
/// touches what an earlier one produced.
pub proof fn lemma_escape_order(s: Seq<char>)
    ensures
        spec_escape(s) == spec_replace(
            spec_replace(spec_replace(s, '"', "\\\""@), '&', "&amp;"@),
            '\n',
            "\\n"@,
        ),
    decreases s.len(),
{
    reveal_strlit("\\\"");
    reveal_strlit("&amp;");
    reveal_strlit("\\n");
    if s.len() == 0 {
        assert(spec_replace(s, '"', "\\\""@) =~= Seq::<char>::empty());
        assert(spec_replace(spec_replace(s, '"', "\\\""@), '&', "&amp;"@)
            =~= Seq::<char>::empty());
        assert(spec_escape(s) =~= spec_replace(
            spec_replace(spec_replace(s, '"', "\\\""@), '&', "&amp;"@),
            '\n',
            "\\n"@,
        ));
    } else {
        let c = s[0];
        let t = s.drop_first();
        lemma_escape_order(t);
        let h1: Seq<char> = if c == '"' {
            "\\\""@
        } else {
            seq![c]
        };
        assert(spec_replace(s, '"', "\\\""@) == h1 + spec_replace(t, '"', "\\\""@));
        lemma_replace_concat(h1, spec_replace(t, '"', "\\\""@), '&', "&amp;"@);
        let h2 = spec_replace(h1, '&', "&amp;"@);
        lemma_replace_concat(
            h2,
            spec_replace(spec_replace(t, '"', "\\\""@), '&', "&amp;"@),
            '\n',
            "\\n"@,
        );
        let h3 = spec_replace(h2, '\n', "\\n"@);
        if c == '"' {
            assert(forall|i: int| 0 <= i < h1.len() ==> h1[i] != '&');
            lemma_replace_absent(h1, '&', "&amp;"@);
            assert(forall|i: int| 0 <= i < h2.len() ==> h2[i] != '\n');
            lemma_replace_absent(h2, '\n', "\\n"@);
            assert(h3 == spec_escape_char(c));
        } else if c == '&' {
            assert(h1 =~= seq![c]);
            assert(h1.drop_first() =~= Seq::<char>::empty());
            assert(spec_replace(Seq::<char>::empty(), '&', "&amp;"@) == Seq::<char>::empty());
            assert(h2 =~= "&amp;"@ + Seq::<char>::empty());
            assert(h2 =~= "&amp;"@);
            assert(forall|i: int| 0 <= i < h2.len() ==> h2[i] != '\n');
            lemma_replace_absent(h2, '\n', "\\n"@);
            assert(h3 == spec_escape_char(c));
        } else if c == '\n' {
            assert(h1 =~= seq![c]);
            lemma_replace_absent(h1, '&', "&amp;"@);
            assert(h2 == h1);
            assert(h2.drop_first() =~= Seq::<char>::empty());
            assert(spec_replace(Seq::<char>::empty(), '\n', "\\n"@) == Seq::<char>::empty());
            assert(h3 =~= "\\n"@ + Seq::<char>::empty());
            assert(h3 =~= "\\n"@);
            assert(h3 == spec_escape_char(c));
        } else {
            assert(h1 =~= seq![c]);
            lemma_replace_absent(h1, '&', "&amp;"@);
            assert(h2 == h1);
            lemma_replace_absent(h2, '\n', "\\n"@);
            assert(h3 == spec_escape_char(c));
        }
        assert(spec_escape(s) =~= spec_escape_char(c) + spec_escape(t));
        assert(spec_replace(spec_replace(spec_replace(s, '"', "\\\""@), '&', "&amp;"@), '\n',
            "\\n"@,
        ) =~= h3 + spec_replace(
            spec_replace(spec_replace(t, '"', "\\\""@), '&', "&amp;"@),
            '\n',
            "\\n"@,
        ));
        assert(spec_escape(s) =~= spec_replace(
            spec_replace(spec_replace(s, '"', "\\\""@), '&', "&amp;"@),
            '\n',
            "\\n"@,
        ));
    }
}

/// The whole flat pipeline applies its stages in their stated order:
/// first the trimming of both ends, then the `"`, `&` and newline
/// replacement passes one after the other, then the dropping of one
/// final literal `\n`.
pub proof fn lemma_pipeline_order(s: Seq<char>)
    ensures
        spec_escape_pipeline(s) == spec_strip(
            spec_replace(
                spec_replace(spec_replace(spec_trim(s), '"', "\\\""@), '&', "&amp;"@),
                '\n',
                "\\n"@,
            ),
        ),
{
    lemma_escape_order(spec_trim(s));
}

/// Rendering distributes over sibling sequences: what one sibling
/// renders to never depends on its neighbours, and the nesting depth a
/// sibling sees is the one its own ancestors set — a list leaves the
/// depth of everything after it unchanged.
pub proof fn lemma_render_concat(a: Seq<Node>, b: Seq<Node>, depth: nat)
    ensures
        spec_render(a + b, depth) == spec_render(a, depth) + spec_render(b, depth),
    decreases a.len(),
{
    if a.len() == 0 {
        assert(a + b =~= b);
        assert(spec_render(a, depth) + spec_render(b, depth) =~= spec_render(b, depth));
    } else {
        lemma_render_concat(a.drop_first(), b, depth);
        assert((a + b)[0] == a[0]);
        assert((a + b).drop_first() =~= a.drop_first() + b);
        assert(spec_render(a + b, depth) =~= spec_render(a, depth) + spec_render(b, depth));
    }
}

/// Block segmentation distributes over sibling sequences.
pub proof fn lemma_blocks_concat(a: Seq<Node>, b: Seq<Node>)
    ensures
        spec_blocks(a + b) == spec_blocks(a) + spec_blocks(b),
    decreases a.len(),
{
    if a.len() == 0 {
        assert(a + b =~= b);
        assert(spec_blocks(a) + spec_blocks(b) =~= spec_blocks(b));
    } else {
        lemma_blocks_concat(a.drop_first(), b);
        assert((a + b)[0] == a[0]);
        assert((a + b).drop_first() =~= a.drop_first() + b);
        assert(spec_blocks(a + b) =~= spec_blocks(a) + spec_blocks(b));
    }
}

/// A depth-one heading always yields a header immediately followed by a
/// divider in the block sequence, wherever it stands in the document; a
/// heading of any other depth yields a header alone.
pub proof fn lemma_heading_divider_coupling(pre: Seq<Node>, d: u8, kids: Vec<Node>, post: Seq<
    Node,
>)
    ensures
        d == 1 ==> spec_blocks(pre + seq![Node::Heading(d, kids)] + post) == spec_blocks(pre)
            + seq![
            BlockModel::Header(spec_render(kids@, 0)),
            BlockModel::Divider,
        ] + spec_blocks(post),
        d != 1 ==> spec_blocks(pre + seq![Node::Heading(d, kids)] + post) == spec_blocks(pre)
            + seq![BlockModel::Header(spec_render(kids@, 0))] + spec_blocks(post),
{
    lemma_blocks_concat(pre + seq![Node::Heading(d, kids)], post);
    lemma_blocks_concat(pre, seq![Node::Heading(d, kids)]);
    let one = seq![Node::Heading(d, kids)];
    assert(one.drop_first() =~= Seq::<Node>::empty());
    assert(spec_blocks(Seq::<Node>::empty()) == Seq::<BlockModel>::empty());
    assert(spec_blocks(one) =~= spec_node_blocks(Node::Heading(d, kids)) + Seq::<
        BlockModel,
    >::empty());
    assert(spec_blocks(one) =~= spec_node_blocks(Node::Heading(d, kids)));
    if d == 1 {
        assert((pre + one + post) =~= (pre + one) + post);
        assert(spec_blocks(pre + one + post) =~= spec_blocks(pre) + seq![
            BlockModel::Header(spec_render(kids@, 0)),
            BlockModel::Divider,
        ] + spec_blocks(post));
    } else {
        assert((pre + one + post) =~= (pre + one) + post);
        assert(spec_blocks(pre + one + post) =~= spec_blocks(pre) + seq![
            BlockModel::Header(spec_render(kids@, 0)),
        ] + spec_blocks(post));
    }
}

/// List indentation is depth-relative: the item lines of a list open
/// with four spaces for each enclosing list, and nothing more.
pub proof fn lemma_indentation_depth_relative(
    items: Seq<Node>,
    ordered: bool,
    pos: nat,
    depth: nat,
)
    requires
        items.len() > 0,
    ensures
        spec_indent(depth).len() == 4 * depth,
        forall|i: int| 0 <= i < 4 * depth ==> spec_indent(depth)[i] == ' ',
        spec_items(items, ordered, pos, depth).take((4 * depth) as int) == spec_indent(depth),
{
    let line = spec_indent(depth) + spec_prefix(ordered, pos, items[0]) + spec_render(
        crate::node::spec_children(items[0]),
        crate::render::spec_bump(depth),
    ) + "\n"@;
    assert(spec_items(items, ordered, pos, depth) == line + spec_items(
        items.drop_first(),
        ordered,
        pos + 1,
        depth,
    ));
    assert(spec_items(items, ordered, pos, depth).take((4 * depth) as int) =~= spec_indent(depth));
}

/// Ordered numbering restarts at one for every list: two ordered lists
/// standing side by side render independently, and each opens its first
/// item line, right after the indentation, with the number one.
pub proof fn lemma_ordered_numbering_restarts(v1: Vec<Node>, v2: Vec<Node>, depth: nat)
    requires
        v1@.len() > 0,
        v2@.len() > 0,
    ensures
        spec_render(seq![Node::List(true, v1), Node::List(true, v2)], depth) == spec_render_node(
            Node::List(true, v1),
            depth,
        ) + spec_render_node(Node::List(true, v2), depth),
        spec_items(v1@, true, 1, depth).skip((4 * depth) as int).take(4) == spec_decimal(1) + ".  "@,
        spec_items(v2@, true, 1, depth).skip((4 * depth) as int).take(4) == spec_decimal(1) + ".  "@,
{
    reveal_strlit(".  ");
    let two = seq![Node::List(true, v1), Node::List(true, v2)];
    assert(two.drop_first() =~= seq![Node::List(true, v2)]);
    assert(two.drop_first().drop_first() =~= Seq::<Node>::empty());
    assert(spec_render(Seq::<Node>::empty(), depth) == Seq::<char>::empty());
    assert(two.drop_first()[0] == Node::List(true, v2));
    assert(spec_render(two.drop_first(), depth) =~= spec_render_node(Node::List(true, v2), depth)
        + Seq::<char>::empty());
    assert(spec_render(two, depth) =~= spec_render_node(Node::List(true, v1), depth)
        + spec_render_node(Node::List(true, v2), depth));
    lemma_first_ordered_line(v1@, depth);
    lemma_first_ordered_line(v2@, depth);
}

/// The first item line of an ordered list opens, after its indentation,
/// with the decoration of position one.
proof fn lemma_first_ordered_line(items: Seq<Node>, depth: nat)
    requires
        items.len() > 0,
    ensures
        spec_items(items, true, 1, depth).skip((4 * depth) as int).take(4) == spec_decimal(1)
            + ".  "@,
{
    reveal_strlit(".  ");
    let line = spec_indent(depth) + spec_prefix(true, 1, items[0]) + spec_render(
        crate::node::spec_children(items[0]),
        crate::render::spec_bump(depth),
    ) + "\n"@;
    assert(spec_items(items, true, 1, depth) == line + spec_items(
        items.drop_first(),
        true,
        2,
        depth,
    ));
    assert(spec_prefix(true, 1, items[0]) == spec_decimal(1) + ".  "@);
    assert(spec_decimal(1).len() == 1);
    assert((spec_decimal(1) + ".  "@).len() == 4);
    assert(spec_items(items, true, 1, depth).skip((4 * depth) as int).take(4) =~= spec_decimal(1)
        + ".  "@);
}

/// Task-list decoration: an unchecked task opens its line with an empty
/// checkbox, a checked one with a marked checkbox, a plain item with a
/// bullet — and all three decorations are four characters wide with the
/// same three trailing spaces.
pub proof fn lemma_task_decoration(item: Node, pos: nat)
    ensures
        spec_checked(item) is None ==> spec_prefix(false, pos, item) == "\u{2022}   "@,
        spec_checked(item) == Some(true) ==> spec_prefix(false, pos, item) == "\u{2611}   "@,
        spec_checked(item) == Some(false) ==> spec_prefix(false, pos, item) == "\u{2610}   "@,
        spec_prefix(false, pos, item).len() == 4,
        spec_prefix(false, pos, item).skip(1) == "   "@,
{
    reveal_strlit("\u{2022}   ");
    reveal_strlit("\u{2611}   ");
    reveal_strlit("\u{2610}   ");
    reveal_strlit("   ");
    match spec_checked(item) {
        Option::None => {
            assert(spec_prefix(false, pos, item).skip(1) =~= "   "@);
        },
        Option::Some(true) => {
            assert(spec_prefix(false, pos, item).skip(1) =~= "   "@);
        },
        Option::Some(false) => {
            assert(spec_prefix(false, pos, item).skip(1) =~= "   "@);
        },
    }
}

/// An unsupported node renders to nothing and leaves its siblings'
/// rendering exactly as it would have been without it: it neither fails
/// nor shifts what stands around it.
pub proof fn lemma_unsupported_invisible(pre: Seq<Node>, post: Seq<Node>, depth: nat)
    ensures
        spec_render_node(Node::Unsupported, depth) == Seq::<char>::empty(),
        spec_render(pre + seq![Node::Unsupported] + post, depth) == spec_render(pre + post, depth),
{
    let one = seq![Node::Unsupported];
    lemma_render_concat(pre + one, post, depth);
    lemma_render_concat(pre, one, depth);
    lemma_render_concat(pre, post, depth);
    assert(one.drop_first() =~= Seq::<Node>::empty());
    assert(spec_render(Seq::<Node>::empty(), depth) == Seq::<char>::empty());
    assert(one[0] == Node::Unsupported);
    assert(spec_render_node(Node::Unsupported, depth) == Seq::<char>::empty());
    assert(spec_render(one, depth) =~= Seq::<char>::empty());
    assert((pre + one + post) =~= (pre + one) + post);
    assert(spec_render(pre + one, depth) =~= spec_render(pre, depth));
    assert(spec_render(pre + one + post, depth) =~= spec_render(pre + post, depth));
}

} // verus!
