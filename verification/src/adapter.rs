//! Reading a parsed tree out of the `tree_sitter` parsing engine.

use crate::node::{slot_model, NodeModel, SyntaxNode};
use crate::report::{report, report_of, SyntaxTree, TreeModel};
use crate::text::strings;
use vstd::prelude::*;
use vstd::string::StringSliceAdditionalSpecFns;

verus! {

/// `tree_sitter::Node`: a handle on one node of a parsed tree.
#[verifier::external_type_specification]
#[verifier::external_body]
pub struct ExNode<'tree>(tree_sitter::Node<'tree>);

/// `tree_sitter::Tree`: a parsed tree, which owns all of its nodes.
#[verifier::external_type_specification]
#[verifier::external_body]
pub struct ExTree(tree_sitter::Tree);

/// `tree_sitter::Parser`: the parsing engine.
#[verifier::external_type_specification]
#[verifier::external_body]
pub struct ExParser(tree_sitter::Parser);

/// `tree_sitter::Language`: a grammar that the engine can parse by.
#[verifier::external_type_specification]
#[verifier::external_body]
pub struct ExLanguage(tree_sitter::Language);

/// `tree_sitter::LanguageError`: why the engine refused a grammar.
#[verifier::external_type_specification]
#[verifier::external_body]
pub struct ExLanguageError(tree_sitter::LanguageError);

/// What the engine's tree holds under `node`: the node's label, start position
/// and byte span, and under each of its child slots either nothing or the same
/// of the child. A node is a handle on a tree that does not change while the
/// handle lives, so each of the node's methods below reads its part of this.
pub uninterp spec fn subtree(node: tree_sitter::Node) -> NodeModel;

/// The S-expression that the engine writes for the subtree under `node`.
pub uninterp spec fn sexp_of(node: tree_sitter::Node) -> Seq<char>;

/// What the engine's tree holds: everything under its root node, and the root's
/// S-expression.
pub uninterp spec fn tree_model(tree: tree_sitter::Tree) -> TreeModel;

/// `tree_sitter::Node::kind`: the node's grammar category label, which is the
/// label that the tree holds for the node.
pub assume_specification<'tree>[ tree_sitter::Node::<'tree>::kind ](
    node: &tree_sitter::Node<'tree>,
) -> (kind: &'static str)
    ensures
        kind@ == subtree(*node).kind,
;

/// `tree_sitter::Node::start_byte`: the byte offset at which the node starts, as
/// the tree holds it for the node.
pub assume_specification<'tree>[ tree_sitter::Node::<'tree>::start_byte ](
    node: &tree_sitter::Node<'tree>,
) -> (start: usize)
    ensures
        start == subtree(*node).start,
;

/// `tree_sitter::Node::end_byte`: the byte offset at which the node ends, as the
/// tree holds it for the node.
pub assume_specification<'tree>[ tree_sitter::Node::<'tree>::end_byte ](
    node: &tree_sitter::Node<'tree>,
) -> (end: usize)
    ensures
        end == subtree(*node).end,
;

/// `tree_sitter::Node::child_count`: the number of child slots that the tree
/// holds for the node.
pub assume_specification<'tree>[ tree_sitter::Node::<'tree>::child_count ](
    node: &tree_sitter::Node<'tree>,
) -> (count: usize)
    ensures
        count == subtree(*node).children.len(),
;

/// `tree_sitter::Node::child`: for a slot number below the node's child count,
/// the child that the tree holds in that slot, or nothing where the slot is
/// empty. Nothing is claimed for other slot numbers.
pub assume_specification<'tree>[ tree_sitter::Node::<'tree>::child ](
    node: &tree_sitter::Node<'tree>,
    i: usize,
) -> (child: Option<tree_sitter::Node<'tree>>)
    ensures
        i < subtree(*node).children.len() ==> match child {
            Some(found) => subtree(*node).children[i as int] == Some(subtree(found)),
            None => subtree(*node).children[i as int] is None,
        },
;

/// `tree_sitter::Node::to_sexp`: the S-expression of the subtree under the node.
/// It depends on the node alone; nothing else is claimed of the string.
pub assume_specification<'tree>[ tree_sitter::Node::<'tree>::to_sexp ](
    node: &tree_sitter::Node<'tree>,
) -> (sexp: String)
    ensures
        sexp@ == sexp_of(*node),
;

/// `tree_sitter::Tree::root_node`: the root node of the tree. What the tree holds
/// is what it holds under this node, with this node's S-expression.
pub assume_specification<'tree>[ tree_sitter::Tree::root_node ](
    tree: &'tree tree_sitter::Tree,
) -> (root: tree_sitter::Node<'tree>)
    ensures
        subtree(root) == tree_model(*tree).root,
        sexp_of(root) == tree_model(*tree).sexp,
;

/// `tree_sitter::Parser::new`: a parser with no grammar assigned yet.
pub assume_specification[ tree_sitter::Parser::new ]() -> tree_sitter::Parser
;

/// `tree_sitter::Parser::set_language`: assigns a grammar to the parser, or refuses
/// it. Nothing is claimed of which of the two happens.
pub assume_specification[ tree_sitter::Parser::set_language ](
    parser: &mut tree_sitter::Parser,
    language: &tree_sitter::Language,
) -> Result<(), tree_sitter::LanguageError>
;

/// `tree_sitter::Parser::parse` on a text, with no earlier tree to start from.
/// Nothing is claimed of whether there is a tree, nor of the tree.
#[verifier::external_body]
fn parse_text(parser: &mut tree_sitter::Parser, text: &str) -> (tree: Option<tree_sitter::Tree>) {
    parser.parse(text, None)
}

/// Row and column of `tree_sitter::Node::start_position`, both zero-based, as the
/// tree holds them for the node.
#[verifier::external_body]
fn start_position(node: &tree_sitter::Node) -> (position: (usize, usize))
    ensures
        position.0 == subtree(*node).row,
        position.1 == subtree(*node).column,
{
    let point = node.start_position();
    (point.row, point.column)
}

/// Copies the subtree under `node` into plain data, with `node` at nesting depth
/// `depth`. There is a copy exactly where the depth of every node in the subtree
/// can be counted in a `usize`, and it then holds what the tree holds under `node`.
pub fn capture_node(node: tree_sitter::Node, depth: usize) -> (captured: Option<SyntaxNode>)
    ensures
        captured is Some <==> subtree(node).nests_within(depth as nat),
        captured is Some ==> captured->Some_0@ == subtree(node),
    decreases usize::MAX - depth,
{
    let (row, column) = start_position(&node);
    let count = node.child_count();
    let mut children: Vec<Option<SyntaxNode>> = Vec::new();
    let mut i: usize = 0;
    while i < count
        invariant
            i <= count,
            count == subtree(node).children.len(),
            children@.len() == i,
            forall|j: int|
                0 <= j < i ==> slot_model(#[trigger] children@[j]) == subtree(node).children[j],
            forall|j: int|
                0 <= j < i && subtree(node).children[j] is Some
                    ==> (#[trigger] subtree(node).children[j])->Some_0.nests_within(
                    depth as nat + 1,
                ),
        decreases count - i,
    {
        match node.child(i) {
            Some(child) => {
                assert(subtree(node).children[i as int] == Some(subtree(child)));
                if depth == usize::MAX {
                    assert(!subtree(child).nests_within(depth as nat + 1));
                    return None;
                }
                match capture_node(child, depth + 1) {
                    Some(captured) => {
                        children.push(Some(captured));
                    },
                    None => {
                        return None;
                    },
                }
            },
            None => {
                children.push(None);
            },
        }
        i += 1;
    }
    let captured = SyntaxNode {
        kind: String::from_str(node.kind()),
        row,
        column,
        start_byte: node.start_byte(),
        end_byte: node.end_byte(),
        children,
    };
    proof {
        captured.lemma_view_children();
        assert(captured@.children =~= subtree(node).children);
    }
    Some(captured)
}

/// Copies a parsed tree into plain data, with its S-expression. There is a copy
/// exactly where the depth of every node of the tree can be counted in a `usize`,
/// and it then holds what the tree holds.
pub fn capture_tree(tree: &tree_sitter::Tree) -> (captured: Option<SyntaxTree>)
    ensures
        captured is Some <==> tree_model(*tree).root.nests_within(0),
        captured is Some ==> captured->Some_0@ == tree_model(*tree),
{
    let root = tree.root_node();
    match capture_node(root, 0) {
        Some(node) => Some(SyntaxTree { root: node, sexp: root.to_sexp() }),
        None => None,
    }
}

/// The parsing engine refused the grammar.
#[derive(Debug, PartialEq, Eq)]
pub struct GrammarLoadError {
    /// What the engine said of the grammar.
    pub cause: tree_sitter::LanguageError,
}

/// What the engine's answer to a grammar means for the run: it goes on where the
/// engine took the grammar, and fails with the engine's reason where it did not.
pub fn grammar_loaded(answer: Result<(), tree_sitter::LanguageError>) -> (loaded: Result<
    (),
    GrammarLoadError,
>)
    ensures
        answer is Ok ==> loaded is Ok,
        answer is Err ==> loaded == Err::<(), GrammarLoadError>(
            GrammarLoadError { cause: answer->Err_0 },
        ),
{
    match answer {
        Ok(()) => Ok(()),
        Err(cause) => Err(GrammarLoadError { cause }),
    }
}

/// Parses `source` by the grammar `language` and copies the tree into plain data.
/// Fails where the engine refuses the grammar; yields nothing where the engine
/// gives no tree, or one that nests deeper than a `usize` can count. A tree that
/// comes back holds what one of the engine's trees holds.
pub fn parse(language: &tree_sitter::Language, source: &str) -> (parsed: Result<
    Option<SyntaxTree>,
    GrammarLoadError,
>)
    ensures
        parsed is Ok && parsed->Ok_0 is Some ==> parsed->Ok_0->Some_0@.root.nests_within(0),
        parsed is Ok && parsed->Ok_0 is Some ==> exists|tree: tree_sitter::Tree|
            parsed->Ok_0->Some_0@ == #[trigger] tree_model(tree),
{
    let mut parser = tree_sitter::Parser::new();
    match grammar_loaded(parser.set_language(language)) {
        Ok(()) => {},
        Err(error) => {
            return Err(error);
        },
    }
    match parse_text(&mut parser, source) {
        Some(tree) => Ok(capture_tree(&tree)),
        None => Ok(None),
    }
}

/// Parses `source` by the grammar `language` and gives the complete output for
/// the tree, line by line. Fails where the engine refuses the grammar; yields
/// nothing where there is no tree that fits `source`. Output that comes back is
/// the complete output for what one of the engine's trees holds.
pub fn inspect(language: &tree_sitter::Language, source: &str) -> (out: Result<
    Option<Vec<String>>,
    GrammarLoadError,
>)
    ensures
        out is Ok && out->Ok_0 is Some ==> exists|tree: tree_sitter::Tree|
            (#[trigger] tree_model(tree)).root.fits(source.spec_bytes().len(), 0) && strings(
                out->Ok_0->Some_0@,
            ) == report_of(tree_model(tree), source.spec_bytes()),
{
    match parse(language, source) {
        Ok(Some(tree)) => Ok(report(&tree, source.as_bytes())),
        Ok(None) => Ok(None),
        Err(error) => Err(error),
    }
}

} // verus!
