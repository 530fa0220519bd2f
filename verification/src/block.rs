use vstd::prelude::*;
use vstd::string::StringExecFns;

use crate::node::Node;
use crate::render::{render_node, render_nodes, spec_render, spec_render_node};

verus! {

/// One block of the structured message layout: a header, a divider, or a
/// section of dialect text.
#[derive(Debug, Clone, PartialEq, Eq)]
pub enum Block {
    Header(String),
    Divider,
    Section(String),
}

/// The mathematical value of a block: the same three shapes, with the text
/// as a character sequence.
pub enum BlockModel {
    Header(Seq<char>),
    Divider,
    Section(Seq<char>),
}

impl View for Block {
    type V = BlockModel;

    open spec fn view(&self) -> BlockModel {
        match self {
            Block::Header(t) => BlockModel::Header(t@),
            Block::Divider => BlockModel::Divider,
            Block::Section(t) => BlockModel::Section(t@),
        }
    }
}

impl DeepView for Block {
    type V = BlockModel;

    open spec fn deep_view(&self) -> BlockModel {
        self@
    }
}

/// The one-line description of a block.
pub open spec fn spec_block_text(b: BlockModel) -> Seq<char> {
    match b {
        BlockModel::Header(t) => "Header: "@ + t,
        BlockModel::Divider => "----------"@,
        BlockModel::Section(t) => "Section: "@ + t,
    }
}

impl Block {
    /// Writes the block as one line of plain text.
    pub fn to_text(&self) -> (r: String)
        ensures
            r@ == spec_block_text(self@),
    {
        match self {
            Block::Header(t) => {
                let mut s = String::from_str("Header: ");
                s.append(t.as_str());
                s
            },
            Block::Divider => String::from_str("----------"),
            Block::Section(t) => {
                let mut s = String::from_str("Section: ");
                s.append(t.as_str());
                s
            },
        }
    }
}

/// The blocks one top-level node turns into: a depth-1 heading becomes a
/// header with a divider after it, any other heading a header alone, a
/// thematic break a divider, and every other node one section whose text
/// is the node's own rendering.
pub open spec fn spec_node_blocks(n: Node) -> Seq<BlockModel> {
    match n {
        Node::Heading(d, k) => if d == 1 {
            seq![BlockModel::Header(spec_render(k@, 0)), BlockModel::Divider]
        } else {
            seq![BlockModel::Header(spec_render(k@, 0))]
        },
        Node::ThematicBreak => seq![BlockModel::Divider],
        _ => seq![BlockModel::Section(spec_render_node(n, 0))],
    }
}

/// The block sequence of a whole document: the blocks of each top-level
/// node, flattened in document order.
pub open spec fn spec_blocks(nodes: Seq<Node>) -> Seq<BlockModel>
    decreases nodes.len(),
{
    if nodes.len() == 0 {
        Seq::empty()
    } else {
        spec_node_blocks(nodes[0]) + spec_blocks(nodes.drop_first())
    }
}

/// Segments the top-level nodes of a document into blocks.
pub fn blocks_of_nodes(nodes: &Vec<Node>) -> (r: Vec<Block>)
    ensures
        r.deep_view() == spec_blocks(nodes@),
{
    let mut out: Vec<Block> = Vec::new();
    let mut i: usize = 0;
    proof {
        assert(nodes@.skip(0) =~= nodes@);
        assert(out.deep_view() =~= Seq::<BlockModel>::empty());
    }
    while i < nodes.len()
        invariant
            i <= nodes.len(),
            spec_blocks(nodes@) =~= out.deep_view() + spec_blocks(nodes@.skip(i as int)),
        decreases nodes@.len() - i,
    {
        let ghost pre = out.deep_view();
        let n = &nodes[i];
        match n {
            Node::Heading(d, k) => {
                let text = render_nodes(k, 0);
                out.push(Block::Header(text));
                if *d == 1 {
                    out.push(Block::Divider);
                }
            },
            Node::ThematicBreak => {
                out.push(Block::Divider);
            },
            _ => {
                let text = render_node(n, 0);
                out.push(Block::Section(text));
            },
        }
        proof {
            assert(out.deep_view() =~= pre + spec_node_blocks(nodes@[i as int]));
            assert(nodes@.skip(i as int).drop_first() =~= nodes@.skip(i + 1));
            assert(nodes@.skip(i as int)[0] == nodes@[i as int]);
            assert(spec_blocks(nodes@) =~= out.deep_view() + spec_blocks(nodes@.skip(i + 1)));
        }
        i = i + 1;
    }
    proof {
        assert(nodes@.skip(nodes@.len() as int) =~= Seq::<Node>::empty());
        assert(out.deep_view() + Seq::<BlockModel>::empty() =~= out.deep_view());
    }
    out
}

/// The JSON text of the characters `s` as a JSON string value. It is left
/// unwritten here: the serializer defines it, and the converter only
/// carries it through unchanged.
pub uninterp spec fn json_string_of(s: Seq<char>) -> Seq<char>;

/// Relies on `serde_json::to_string` on a string slice: the JSON text of a
/// string depends on its characters alone, and serializing a string slice
/// cannot fail.
#[verifier::external_body]
fn json_quote(s: &str) -> (r: String)
    ensures
        r@ == json_string_of(s@),
{
    match serde_json::to_string(s) {
        Ok(r) => r,
        Err(_) => String::new(),
    }
}

/// The wire record of one block, fields in serializer order.
pub open spec fn spec_wire_block(b: BlockModel) -> Seq<char> {
    match b {
        BlockModel::Header(t) => "{\"text\":{\"emoji\":true,\"text\":"@ + json_string_of(t)
            + ",\"type\":\"plain_text\"},\"type\":\"header\"}"@,
        BlockModel::Divider => "{\"type\":\"divider\"}"@,
        BlockModel::Section(t) => "{\"text\":{\"text\":"@ + json_string_of(t)
            + ",\"type\":\"mrkdwn\"},\"type\":\"section\"}"@,
    }
}

/// The wire records of the blocks after the first, each preceded by a
/// comma.
pub open spec fn spec_wire_tail(bs: Seq<BlockModel>) -> Seq<char>
    decreases bs.len(),
{
    if bs.len() == 0 {
        Seq::empty()
    } else {
        ","@ + spec_wire_block(bs[0]) + spec_wire_tail(bs.drop_first())
    }
}

/// The comma-separated wire records of all the blocks.
pub open spec fn spec_wire_list(bs: Seq<BlockModel>) -> Seq<char> {
    if bs.len() == 0 {
        Seq::empty()
    } else {
        spec_wire_block(bs[0]) + spec_wire_tail(bs.drop_first())
    }
}

/// The whole wire document: one object whose `blocks` key holds the array
/// of block records in emission order.
pub open spec fn spec_wire(bs: Seq<BlockModel>) -> Seq<char> {
    "{ \"blocks\": ["@ + spec_wire_list(bs) + "] }"@
}

/// Writes the wire record of one block.
fn wire_block(b: &Block) -> (r: String)
    ensures
        r@ == spec_wire_block(b@),
{
    match b {
        Block::Header(t) => {
            let mut s = String::from_str("{\"text\":{\"emoji\":true,\"text\":");
            let q = json_quote(t.as_str());
            s.append(q.as_str());
            s.append(",\"type\":\"plain_text\"},\"type\":\"header\"}");
            s
        },
        Block::Divider => String::from_str("{\"type\":\"divider\"}"),
        Block::Section(t) => {
            let mut s = String::from_str("{\"text\":{\"text\":");
            let q = json_quote(t.as_str());
            s.append(q.as_str());
            s.append(",\"type\":\"mrkdwn\"},\"type\":\"section\"}");
            s
        },
    }
}

/// Writes the whole wire document for a block sequence.
pub fn wire_string(blocks: &Vec<Block>) -> (r: String)
    ensures
        r@ == spec_wire(blocks.deep_view()),
{
    let ghost dv = blocks.deep_view();
    let mut out = String::from_str("{ \"blocks\": [");
    if blocks.len() > 0 {
        let first = wire_block(&blocks[0]);
        out.append(first.as_str());
        let mut i: usize = 1;
        proof {
            assert(dv[0] == blocks[0int]@);
            assert(dv.drop_first().take(0) =~= Seq::<BlockModel>::empty());
            assert(out@ =~= "{ \"blocks\": ["@ + spec_wire_block(dv[0]) + spec_wire_tail(
                dv.drop_first().take(0),
            ));
        }
        while i < blocks.len()
            invariant
                1 <= i <= blocks.len(),
                dv == blocks.deep_view(),
                dv.len() == blocks@.len(),
                out@ =~= "{ \"blocks\": ["@ + spec_wire_block(dv[0]) + spec_wire_tail(
                    dv.drop_first().take(i - 1),
                ),
            decreases blocks@.len() - i,
        {
            out.append(",");
            let piece = wire_block(&blocks[i]);
            out.append(piece.as_str());
            proof {
                lemma_wire_tail_take(dv.drop_first(), i - 1);
                assert(dv.drop_first()[i - 1] == dv[i as int]);
                assert(dv[i as int] == blocks[i as int]@);
                assert(out@ =~= "{ \"blocks\": ["@ + spec_wire_block(dv[0]) + spec_wire_tail(
                    dv.drop_first().take(i as int),
                ));
            }
            i = i + 1;
        }
        proof {
            assert(dv.drop_first().take(i - 1) =~= dv.drop_first());
        }
    }
    out.append("] }");
    proof {
        if blocks@.len() == 0 {
            assert(dv.len() == 0);
        }
        assert(out@ =~= spec_wire(dv));
    }
    out
}

/// Taking one more block into the comma-separated tail appends that
/// block's record after a comma.
proof fn lemma_wire_tail_take(s: Seq<BlockModel>, j: int)
    requires
        0 <= j < s.len(),
    ensures
        spec_wire_tail(s.take(j + 1)) =~= spec_wire_tail(s.take(j)) + ","@ + spec_wire_block(s[j]),
    decreases j,
{
    if j == 0 {
        assert(s.take(0) =~= Seq::<BlockModel>::empty());
        assert(s.take(1)[0] == s[0]);
        assert(s.take(1).drop_first() =~= Seq::<BlockModel>::empty());
        assert(spec_wire_tail(s.take(1)) =~= Seq::<char>::empty() + ","@ + spec_wire_block(s[0]));
    } else {
        lemma_wire_tail_take(s.drop_first(), j - 1);
        assert(s.take(j + 1)[0] == s[0]);
        assert(s.take(j)[0] == s[0]);
        assert(s.take(j + 1).drop_first() =~= s.drop_first().take(j));
        assert(s.take(j).drop_first() =~= s.drop_first().take(j - 1));
        assert(s.drop_first()[j - 1] == s[j]);
        assert(spec_wire_tail(s.take(j + 1)) =~= spec_wire_tail(s.take(j)) + ","@
            + spec_wire_block(s[j]));
    }
}

} // verus!
