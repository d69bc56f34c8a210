//! Syntax nodes: the plain-data form of a concrete syntax tree.

use vstd::prelude::*;

verus! {

/// Mathematical model of a syntax node and of the subtree below it.
pub struct NodeModel {
    /// Grammar category label.
    pub kind: Seq<char>,
    /// Zero-based line of the node's first byte.
    pub row: nat,
    /// Zero-based column of the node's first byte.
    pub column: nat,
    /// Byte offset at which the node's span starts.
    pub start: nat,
    /// Byte offset just past the node's span.
    pub end: nat,
    /// Child slots in left-to-right order; an empty slot holds `None`.
    pub children: Seq<Option<NodeModel>>,
}

/// One node of a syntax tree, together with the subtree below it.
#[derive(Debug, PartialEq, Eq)]
pub struct SyntaxNode {
    /// Grammar category label.
    pub kind: String,
    /// Zero-based line of the node's first byte.
    pub row: usize,
    /// Zero-based column of the node's first byte.
    pub column: usize,
    /// Byte offset at which the node's span starts.
    pub start_byte: usize,
    /// Byte offset just past the node's span.
    pub end_byte: usize,
    /// Child slots in left-to-right order; an empty slot holds `None`.
    pub children: Vec<Option<SyntaxNode>>,
}

/// Models of the slots in `slots`, in the same order.
pub open spec fn slot_models(slots: Seq<Option<SyntaxNode>>) -> Seq<Option<NodeModel>>
    decreases slots,
{
    Seq::new(
        slots.len(),
        |i: int|
            if 0 <= i < slots.len() {
                match slots[i] {
                    Some(child) => Some(child.view()),
                    None => None,
                }
            } else {
                None
            },
    )
}

/// Model of one child slot.
pub open spec fn slot_model(slot: Option<SyntaxNode>) -> Option<NodeModel> {
    match slot {
        Some(child) => Some(child@),
        None => None,
    }
}

impl View for SyntaxNode {
    type V = NodeModel;

    open spec fn view(&self) -> NodeModel
        decreases self,
    {
        NodeModel {
            kind: self.kind@,
            row: self.row as nat,
            column: self.column as nat,
            start: self.start_byte as nat,
            end: self.end_byte as nat,
            children: slot_models(self.children@),
        }
    }
}

impl NodeModel {
    /// True when the depth of every node in the subtree can be counted in a `usize`,
    /// with this node at nesting depth `depth`.
    pub open spec fn nests_within(self, depth: nat) -> bool
        decreases self,
    {
        &&& depth <= usize::MAX
        &&& forall|i: int|
            0 <= i < self.children.len() && self.children[i] is Some
                ==> (#[trigger] self.children[i])->Some_0.nests_within(depth + 1)
    }

    /// True when every span in the subtree lies inside a buffer of `len` bytes.
    pub open spec fn spans_within(self, len: nat) -> bool
        decreases self,
    {
        &&& self.start <= self.end <= len
        &&& forall|i: int|
            0 <= i < self.children.len() && self.children[i] is Some
                ==> (#[trigger] self.children[i])->Some_0.spans_within(len)
    }

    /// True when the subtree can be listed against a buffer of `len` bytes with this
    /// node at nesting depth `depth`.
    pub open spec fn fits(self, len: nat, depth: nat) -> bool {
        self.spans_within(len) && self.nests_within(depth)
    }

    /// A subtree that fits starts with a node whose span lies inside the buffer, and
    /// each of its children fits one level deeper.
    pub proof fn lemma_fits_children(self, len: nat, depth: nat)
        requires
            self.fits(len, depth),
        ensures
            self.start <= self.end <= len,
            depth <= usize::MAX,
            forall|i: int|
                0 <= i < self.children.len() && self.children[i] is Some
                    ==> (#[trigger] self.children[i])->Some_0.fits(len, depth + 1),
    {
    }
}

impl SyntaxNode {
    /// The model of a node has one child slot for each slot of the node, and each
    /// holds the model of what the node's slot holds.
    pub proof fn lemma_view_children(self)
        ensures
            self@.kind == self.kind@,
            self@.row == self.row,
            self@.column == self.column,
            self@.start == self.start_byte,
            self@.end == self.end_byte,
            self@.children.len() == self.children@.len(),
            forall|i: int|
                0 <= i < self.children@.len() ==> #[trigger] self@.children[i] == slot_model(
                    self.children@[i],
                ),
    {
        reveal_with_fuel(slot_models, 2);
        assert(self@.children == slot_models(self.children@));
    }

    /// Tells whether the subtree can be listed against a buffer of `len` bytes with
    /// this node at nesting depth `depth`.
    pub fn fits(&self, len: usize, depth: usize) -> (ok: bool)
        ensures
            ok == self@.fits(len as nat, depth as nat),
        decreases self,
    {
        if !(self.start_byte <= self.end_byte && self.end_byte <= len) {
            return false;
        }
        proof {
            self.lemma_view_children();
        }
        let mut i: usize = 0;
        while i < self.children.len()
            invariant
                i <= self.children.len(),
                self@.children.len() == self.children@.len(),
                forall|j: int|
                    0 <= j < self.children@.len() ==> #[trigger] self@.children[j]
                        == slot_model(self.children@[j]),
                self.start_byte <= self.end_byte <= len,
                forall|j: int|
                    0 <= j < i && self@.children[j] is Some
                        ==> (#[trigger] self@.children[j])->Some_0.fits(
                        len as nat,
                        depth as nat + 1,
                    ),
            decreases self.children.len() - i,
        {
            match &self.children[i] {
                Some(child) => {
                    assert(self@.children[i as int] == Some(child@));
                    if depth == usize::MAX {
                        assert(!child@.fits(len as nat, depth as nat + 1));
                        return false;
                    }
                    if !child.fits(len, depth + 1) {
                        return false;
                    }
                },
                None => {},
            }
            i += 1;
        }
        true
    }
}

} // verus!
