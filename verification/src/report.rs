//! The complete output for one tree: a header, the listing, the S-expression.

use crate::node::{NodeModel, SyntaxNode};
use crate::render::{formatted_lines, lines_of, listing};
use crate::text::strings;
use vstd::prelude::*;

verus! {

/// Mathematical model of a syntax tree.
pub struct TreeModel {
    /// The root node, with everything below it.
    pub root: NodeModel,
    /// The tree's own S-expression.
    pub sexp: Seq<char>,
}

/// A syntax tree: its nodes, and the S-expression that the parsing engine gave for
/// its shape.
#[derive(Debug, PartialEq, Eq)]
pub struct SyntaxTree {
    /// The root node, with everything below it.
    pub root: SyntaxNode,
    /// The tree's own S-expression.
    pub sexp: String,
}

impl View for SyntaxTree {
    type V = TreeModel;

    open spec fn view(&self) -> TreeModel {
        TreeModel { root: self.root@, sexp: self.sexp@ }
    }
}

/// What the standard library's `Debug` formatting of a string slice writes for the
/// characters `text`: the text in double quotes, with the characters escaped that
/// `Debug` escapes.
pub uninterp spec fn debug_quoted(text: Seq<char>) -> Seq<char>;

/// `Debug` formatting of a string slice by the standard library, as `format!` with
/// `{:?}` applies it. What it writes depends on the characters of the text alone.
#[verifier::external_body]
fn quote(text: &str) -> (out: String)
    ensures
        out@ == debug_quoted(text@),
{
    format!("{:?}", text)
}

/// The line that stands above the listing.
pub open spec fn header() -> Seq<char> {
    "Tree structure:"@
}

/// The complete output for `tree` against `source`: the header, one line for each
/// node in pre-order, and the quoted S-expression.
pub open spec fn report_of(tree: TreeModel, source: Seq<u8>) -> Seq<Seq<char>> {
    seq![header()] + formatted_lines(lines_of(tree.root, source, 0)) + seq![
        debug_quoted(tree.sexp),
    ]
}

/// The complete output for `tree` against `source`, line by line. There is one
/// exactly where the tree fits the buffer.
pub fn report(tree: &SyntaxTree, source: &[u8]) -> (out: Option<Vec<String>>)
    ensures
        out is Some <==> tree@.root.fits(source@.len(), 0),
        out is Some ==> strings(out->Some_0@) == report_of(tree@, source@),
{
    match listing(&tree.root, source) {
        Some(lines) => {
            let mut out: Vec<String> = Vec::new();
            out.push(String::from_str("Tree structure:"));
            let ghost head = out@;
            let mut lines = lines;
            let ghost body = lines@;
            out.append(&mut lines);
            out.push(quote(tree.sexp.as_str()));
            assert(strings(out@) =~= report_of(tree@, source@)) by {
                assert(out@ == head + body + seq![out@.last()]);
                assert(strings(body) == formatted_lines(lines_of(tree@.root, source@, 0)));
                assert(strings(out@).len() == report_of(tree@, source@).len());
                assert forall|k: int| 0 <= k < out@.len() implies strings(out@)[k] == report_of(
                    tree@,
                    source@,
                )[k] by {
                    if 1 <= k < out@.len() - 1 {
                        assert(out@[k] == body[k - 1]);
                        assert(strings(body)[k - 1] == body[k - 1]@);
                    }
                }
            }
            Some(out)
        },
        None => None,
    }
}

/// Repeatability of the S-expression: the last line of the output is the quoted
/// S-expression of the tree, so it is the same for every run on the same tree,
/// whatever the listing above it holds.
pub proof fn sexp_line_is_repeatable(tree: TreeModel, first: Seq<u8>, second: Seq<u8>)
    ensures
        report_of(tree, first).last() == debug_quoted(tree.sexp),
        report_of(tree, first).last() == report_of(tree, second).last(),
{
}

} // verus!
