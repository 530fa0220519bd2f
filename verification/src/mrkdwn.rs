use vstd::prelude::*;
use vstd::string::StringExecFns;

use crate::block::{blocks_of_nodes, spec_blocks, spec_wire, wire_string, Block};
use crate::escape::{
    escape_text, spec_escape_pipeline, strip_final_newline_literal, trim_ws,
};
use crate::node::Node;
use crate::render::{render_nodes, spec_render};

verus! {

/// The flat output shape for a whole document: the rendering of its
/// top-level nodes, passed through the escaping pipeline.
pub open spec fn spec_mrkdwnify(nodes: Seq<Node>) -> Seq<char> {
    spec_escape_pipeline(spec_render(nodes, 0))
}

/// The one recoverable error of the converter: the input could not be
/// parsed into a document tree, or the parsed document has no children.
#[derive(Debug, Clone, Copy, PartialEq, Eq)]
pub struct ParseError;

/// A parsed Markdown document held for conversion into the target dialect.
///
/// The document is a sequence of top-level nodes; it is borrowed only for
/// the duration of each conversion and never changed by one.
pub struct Mrkdwn {
    nodes: Vec<Node>,
}

impl View for Mrkdwn {
    type V = Seq<Node>;

    closed spec fn view(&self) -> Seq<Node> {
        self.nodes@
    }
}

impl Mrkdwn {
    /// Wraps a parsed document for conversion.
    pub fn from(nodes: Vec<Node>) -> (r: Mrkdwn)
        ensures
            r@ == nodes@,
    {
        Mrkdwn { nodes }
    }

    /// Puts `prefix` before and `suffix` after `s`.
    pub fn surround_with(s: &str, prefix: &str, suffix: &str) -> (r: String)
        ensures
            r@ == prefix@ + s@ + suffix@,
    {
        let mut r = String::from_str(prefix);
        r.append(s);
        r.append(suffix);
        r
    }

    /// Converts the document into the flat escaped string of the target
    /// dialect. It fails exactly on a document with no children.
    pub fn mrkdwnify(&self) -> (r: Result<String, ParseError>)
        ensures
            match r {
                Ok(s) => self@.len() > 0 && s@ == spec_mrkdwnify(self@),
                Err(_) => self@.len() == 0,
            },
    {
        if self.nodes.len() == 0 {
            return Err(ParseError);
        }
        let flat = render_nodes(&self.nodes, 0);
        let trimmed = trim_ws(flat.as_str());
        let escaped = escape_text(trimmed.as_str());
        let stripped = strip_final_newline_literal(escaped.as_str());
        Ok(stripped)
    }

    /// Segments the document into blocks of the structured message
    /// layout. It fails exactly on a document with no children.
    pub fn blockify(&self) -> (r: Result<Vec<Block>, ParseError>)
        ensures
            match r {
                Ok(bs) => self@.len() > 0 && bs.deep_view() == spec_blocks(self@),
                Err(_) => self@.len() == 0,
            },
    {
        if self.nodes.len() == 0 {
            return Err(ParseError);
        }
        Ok(blocks_of_nodes(&self.nodes))
    }

    /// Converts the document into the wire text of the structured message
    /// layout: one JSON object whose `blocks` array holds the blocks in
    /// emission order. It fails exactly on a document with no children.
    pub fn blocks_stringify(&self) -> (r: Result<String, ParseError>)
        ensures
            match r {
                Ok(s) => self@.len() > 0 && s@ == spec_wire(spec_blocks(self@)),
                Err(_) => self@.len() == 0,
            },
    {
        let blocks = match self.blockify() {
            Ok(b) => b,
            Err(e) => {
                return Err(e);
            },
        };
        Ok(wire_string(&blocks))
    }
}

} // verus!
