//! The indented listing of a syntax tree: one line for each node, in pre-order.

use crate::node::{NodeModel, SyntaxNode};
use crate::text::{
    decimal, indentation, node_text, push_decimal, push_indentation, span_text, strings,
};
use vstd::prelude::*;

verus! {

/// Mathematical model of one line of the listing.
pub struct LineModel {
    /// Nesting depth of the node; the root of a listing has depth 0.
    pub depth: nat,
    /// Grammar category label of the node.
    pub kind: Seq<char>,
    /// Zero-based line of the node's first byte.
    pub row: nat,
    /// Zero-based column of the node's first byte.
    pub column: nat,
    /// Text that the node spans, with newlines escaped.
    pub text: Seq<char>,
}

/// One line of the listing, before it is written out.
#[derive(Debug, PartialEq, Eq)]
pub struct RenderedLine {
    /// Nesting depth of the node; the root of a listing has depth 0.
    pub depth: usize,
    /// Grammar category label of the node.
    pub kind: String,
    /// Zero-based line of the node's first byte.
    pub row: usize,
    /// Zero-based column of the node's first byte.
    pub column: usize,
    /// Text that the node spans, with newlines escaped.
    pub text: String,
}

impl View for RenderedLine {
    type V = LineModel;

    open spec fn view(&self) -> LineModel {
        LineModel {
            depth: self.depth as nat,
            kind: self.kind@,
            row: self.row as nat,
            column: self.column as nat,
            text: self.text@,
        }
    }
}

/// Models of the lines in `lines`, in the same order.
pub open spec fn line_models(lines: Seq<RenderedLine>) -> Seq<LineModel> {
    lines.map_values(|line: RenderedLine| line@)
}

impl LineModel {
    /// The line as it is written: indentation, kind, position and text.
    pub open spec fn formatted(self) -> Seq<char> {
        indentation(self.depth) + self.kind + " (line "@ + decimal(self.row) + ", column "@
            + decimal(self.column) + "): "@ + self.text
    }
}

impl RenderedLine {
    /// Writes the line out: `<indent><kind> (line <row>, column <column>): <text>`.
    pub fn format(&self) -> (out: String)
        ensures
            out@ == self@.formatted(),
    {
        let mut out = String::new();
        push_indentation(&mut out, self.depth);
        out.append(self.kind.as_str());
        out.append(" (line ");
        push_decimal(&mut out, self.row);
        out.append(", column ");
        push_decimal(&mut out, self.column);
        out.append("): ");
        out.append(self.text.as_str());
        assert(out@ =~= self@.formatted());
        out
    }
}

/// The line that the listing holds for `node` at nesting depth `depth`.
pub open spec fn line_of(node: NodeModel, source: Seq<u8>, depth: nat) -> LineModel {
    LineModel {
        depth,
        kind: node.kind,
        row: node.row,
        column: node.column,
        text: span_text(source, node.start, node.end),
    }
}

/// The listing of the subtree under `node`: the node's own line, then the listings
/// of its children from left to right, each one level deeper.
pub open spec fn lines_of(node: NodeModel, source: Seq<u8>, depth: nat) -> Seq<LineModel>
    decreases node, 1nat,
{
    seq![line_of(node, source, depth)] + lines_of_slots(node.children, source, depth + 1)
}

/// The listings of the nodes in `slots` one after the other, at nesting depth
/// `depth`; an empty slot contributes nothing.
pub open spec fn lines_of_slots(slots: Seq<Option<NodeModel>>, source: Seq<u8>, depth: nat) -> Seq<
    LineModel,
>
    decreases slots, 0nat,
{
    if slots.len() == 0 {
        Seq::empty()
    } else {
        lines_of_slots(slots.drop_last(), source, depth) + match slots.last() {
            Some(child) => lines_of(child, source, depth),
            None => Seq::empty(),
        }
    }
}

/// Appends the listing of the subtree under `node` to `out`, with `node` itself at
/// nesting depth `depth`.
pub fn render_node(node: &SyntaxNode, source: &[u8], depth: usize, out: &mut Vec<RenderedLine>)
    requires
        node@.fits(source@.len(), depth as nat),
    ensures
        line_models(final(out)@) == line_models(old(out)@) + lines_of(
            node@,
            source@,
            depth as nat,
        ),
    decreases node,
{
    proof {
        node.lemma_view_children();
        node@.lemma_fits_children(source@.len(), depth as nat);
    }
    let line = RenderedLine {
        depth,
        kind: node.kind.clone(),
        row: node.row,
        column: node.column,
        text: node_text(source, node.start_byte, node.end_byte),
    };
    assert(line@ == line_of(node@, source@, depth as nat));
    out.push(line);
    assert(line_models(out@) =~= line_models(old(out)@) + seq![
        line_of(node@, source@, depth as nat),
    ]);
    let mut i: usize = 0;
    while i < node.children.len()
        invariant
            i <= node.children.len(),
            node@.fits(source@.len(), depth as nat),
            node@.children.len() == node.children@.len(),
            forall|j: int|
                0 <= j < node.children@.len() ==> #[trigger] node@.children[j]
                    == crate::node::slot_model(node.children@[j]),
            line_models(out@) == line_models(old(out)@) + seq![
                line_of(node@, source@, depth as nat),
            ] + lines_of_slots(node@.children.take(i as int), source@, depth as nat + 1),
        decreases node.children.len() - i,
    {
        proof {
            let done = node@.children.take(i as int + 1);
            assert(done.drop_last() == node@.children.take(i as int));
            assert(done.last() == node@.children[i as int]);
        }
        match &node.children[i] {
            Some(child) => {
                assert(node@.children[i as int] == Some(child@));
                assert(child@.fits(source@.len(), depth as nat + 1));
                render_node(child, source, depth + 1, out);
            },
            None => {},
        }
        i += 1;
    }
    proof {
        assert(node@.children.take(node@.children.len() as int) == node@.children);
    }
}

/// The listing of the tree under `root` against `source`, with `root` at depth 0.
/// There is a listing exactly where the tree fits the buffer.
pub fn render(root: &SyntaxNode, source: &[u8]) -> (lines: Option<Vec<RenderedLine>>)
    ensures
        lines is Some <==> root@.fits(source@.len(), 0),
        lines is Some ==> line_models(lines->Some_0@) == lines_of(root@, source@, 0),
{
    if !root.fits(source.len(), 0) {
        return None;
    }
    let mut lines: Vec<RenderedLine> = Vec::new();
    render_node(root, source, 0, &mut lines);
    assert(line_models(lines@) =~= lines_of(root@, source@, 0));
    Some(lines)
}

/// Each of `lines` as it is written.
pub open spec fn formatted_lines(lines: Seq<LineModel>) -> Seq<Seq<char>> {
    lines.map_values(|line: LineModel| line.formatted())
}

/// Writes out each of `lines`, in the same order.
pub fn format_lines(lines: &Vec<RenderedLine>) -> (out: Vec<String>)
    ensures
        strings(out@) == formatted_lines(line_models(lines@)),
{
    let mut out: Vec<String> = Vec::new();
    let mut i: usize = 0;
    while i < lines.len()
        invariant
            i <= lines.len(),
            out@.len() == i,
            forall|j: int| 0 <= j < i ==> (#[trigger] out@[j])@ == lines@[j]@.formatted(),
        decreases lines.len() - i,
    {
        out.push(lines[i].format());
        i += 1;
    }
    assert(strings(out@) =~= formatted_lines(line_models(lines@)));
    out
}

/// The written listing of the tree under `root` against `source`: one string for
/// each node, in pre-order. There is a listing exactly where the tree fits the
/// buffer.
pub fn listing(root: &SyntaxNode, source: &[u8]) -> (out: Option<Vec<String>>)
    ensures
        out is Some <==> root@.fits(source@.len(), 0),
        out is Some ==> strings(out->Some_0@) == formatted_lines(lines_of(root@, source@, 0)),
{
    match render(root, source) {
        Some(lines) => Some(format_lines(&lines)),
        None => None,
    }
}

} // verus!
