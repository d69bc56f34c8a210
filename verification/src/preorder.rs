//! Where each node's line stands in the listing: before the lines of its
//! descendants, after the lines of everything under its earlier siblings.

use crate::node::NodeModel;
use crate::render::{line_of, lines_of, lines_of_slots, LineModel};
use crate::text::{escape_newlines, placeholder, span_bytes};
use vstd::prelude::*;
use vstd::utf8::valid_utf8;

verus! {

/// Number of nodes in the subtree under `node`, `node` itself included.
pub open spec fn count(node: NodeModel) -> nat
    decreases node, 1nat,
{
    1 + count_slots(node.children)
}

/// Number of nodes in the subtrees that `slots` hold.
pub open spec fn count_slots(slots: Seq<Option<NodeModel>>) -> nat
    decreases slots, 0nat,
{
    if slots.len() == 0 {
        0
    } else {
        count_slots(slots.drop_last()) + match slots.last() {
            Some(child) => count(child),
            None => 0,
        }
    }
}

/// True when `path`, read as slot numbers from `node` downwards, leads to a node.
pub open spec fn has_path(node: NodeModel, path: Seq<int>) -> bool
    decreases path.len(),
{
    path.len() == 0 || {
        &&& 0 <= path[0] < node.children.len()
        &&& node.children[path[0]] is Some
        &&& has_path(node.children[path[0]]->Some_0, path.drop_first())
    }
}

/// The node that `path` leads to from `node`.
pub open spec fn node_at(node: NodeModel, path: Seq<int>) -> NodeModel
    recommends
        has_path(node, path),
    decreases path.len(),
{
    if path.len() == 0 {
        node
    } else {
        node_at(node.children[path[0]]->Some_0, path.drop_first())
    }
}

/// Index, in the listing of `node`, of the line of the node that `path` leads to.
pub open spec fn position(node: NodeModel, path: Seq<int>) -> nat
    recommends
        has_path(node, path),
    decreases path.len(),
{
    if path.len() == 0 {
        0
    } else {
        1 + count_slots(node.children.take(path[0])) + position(
            node.children[path[0]]->Some_0,
            path.drop_first(),
        )
    }
}

/// The path from `node` to the node whose line stands at index `index` of the
/// listing of `node`.
pub open spec fn path_to(node: NodeModel, index: nat) -> Seq<int>
    recommends
        index < count(node),
    decreases node, 1nat,
{
    if index == 0 {
        Seq::empty()
    } else {
        path_in_slots(node.children, (index - 1) as nat)
    }
}

/// The path, starting with a slot number of `slots`, to the node whose line stands
/// at index `index` of the listing of `slots`.
pub open spec fn path_in_slots(slots: Seq<Option<NodeModel>>, index: nat) -> Seq<int>
    recommends
        index < count_slots(slots),
    decreases slots, 0nat,
{
    if slots.len() == 0 {
        Seq::empty()
    } else if index < count_slots(slots.drop_last()) {
        path_in_slots(slots.drop_last(), index)
    } else {
        match slots.last() {
            Some(child) => seq![slots.len() - 1] + path_to(
                child,
                (index - count_slots(slots.drop_last())) as nat,
            ),
            None => Seq::empty(),
        }
    }
}

/// The listing of a subtree has one line for each of its nodes.
pub proof fn lemma_listing_len(node: NodeModel, source: Seq<u8>, depth: nat)
    ensures
        lines_of(node, source, depth).len() == count(node),
    decreases node, 1nat,
{
    lemma_slots_listing_len(node.children, source, depth + 1);
}

/// The listing of a row of slots has one line for each node under them.
pub proof fn lemma_slots_listing_len(slots: Seq<Option<NodeModel>>, source: Seq<u8>, depth: nat)
    ensures
        lines_of_slots(slots, source, depth).len() == count_slots(slots),
    decreases slots, 0nat,
{
    if slots.len() > 0 {
        lemma_slots_listing_len(slots.drop_last(), source, depth);
        match slots.last() {
            Some(child) => lemma_listing_len(child, source, depth),
            None => {},
        }
    }
}

/// Taking one more slot adds the nodes under that slot to the count.
pub proof fn lemma_count_next_slot(slots: Seq<Option<NodeModel>>, i: int)
    requires
        0 <= i < slots.len(),
    ensures
        count_slots(slots.take(i + 1)) == count_slots(slots.take(i)) + match slots[i] {
            Some(child) => count(child),
            None => 0,
        },
{
    assert(slots.take(i + 1).drop_last() == slots.take(i));
    assert(slots.take(i + 1).last() == slots[i]);
}

/// A longer prefix of the slots holds at least as many nodes as a shorter one.
pub proof fn lemma_count_prefix(slots: Seq<Option<NodeModel>>, i: int, j: int)
    requires
        0 <= i <= j <= slots.len(),
    ensures
        count_slots(slots.take(i)) <= count_slots(slots.take(j)),
    decreases j - i,
{
    if i < j {
        lemma_count_prefix(slots, i, j - 1);
        lemma_count_next_slot(slots, j - 1);
    }
}

/// In the listing of a row of slots, the lines of the subtree in slot `i` stand
/// together, right after the lines of everything in the slots before it.
pub proof fn lemma_slot_window(
    slots: Seq<Option<NodeModel>>,
    source: Seq<u8>,
    depth: nat,
    i: int,
)
    requires
        0 <= i < slots.len(),
        slots[i] is Some,
    ensures
        count_slots(slots.take(i)) + count(slots[i]->Some_0) <= count_slots(slots),
        lines_of_slots(slots, source, depth).subrange(
            count_slots(slots.take(i)) as int,
            (count_slots(slots.take(i)) + count(slots[i]->Some_0)) as int,
        ) == lines_of(slots[i]->Some_0, source, depth),
    decreases slots.len(),
{
    let child = slots[i]->Some_0;
    let init = slots.drop_last();
    let before = lines_of_slots(init, source, depth);
    let all = lines_of_slots(slots, source, depth);
    lemma_slots_listing_len(slots, source, depth);
    lemma_slots_listing_len(init, source, depth);
    lemma_listing_len(child, source, depth);
    if i == slots.len() - 1 {
        assert(slots.take(i) == init);
        assert(all == before + lines_of(child, source, depth));
        assert(all.subrange(before.len() as int, (before.len() + count(child)) as int) == lines_of(
            child,
            source,
            depth,
        ));
    } else {
        lemma_slot_window(init, source, depth, i);
        assert(init.take(i) == slots.take(i));
        let from = count_slots(slots.take(i)) as int;
        let to = from + count(child);
        assert(all.subrange(from, to) == before.subrange(from, to));
    }
}

/// In the listing of a subtree, the lines of the subtree that `path` leads to stand
/// together, starting at the position of the node that `path` leads to, and they
/// are that subtree's own listing, as many levels deeper as `path` is long.
pub proof fn lemma_subtree_window(node: NodeModel, source: Seq<u8>, depth: nat, path: Seq<int>)
    requires
        has_path(node, path),
    ensures
        position(node, path) + count(node_at(node, path)) <= count(node),
        lines_of(node, source, depth).subrange(
            position(node, path) as int,
            (position(node, path) + count(node_at(node, path))) as int,
        ) == lines_of(node_at(node, path), source, depth + path.len()),
    decreases path.len(),
{
    let all = lines_of(node, source, depth);
    lemma_listing_len(node, source, depth);
    if path.len() == 0 {
        assert(all.subrange(0, all.len() as int) == all);
    } else {
        let i = path[0];
        let child = node.children[i]->Some_0;
        let rest = path.drop_first();
        let below = lines_of_slots(node.children, source, depth + 1);
        let under = lines_of(child, source, depth + 1);
        let offset = count_slots(node.children.take(i)) as int;
        lemma_subtree_window(child, source, depth + 1, rest);
        lemma_slot_window(node.children, source, depth + 1, i);
        lemma_slots_listing_len(node.children, source, depth + 1);
        lemma_listing_len(child, source, depth + 1);
        let from = position(child, rest) as int;
        let to = from + count(node_at(child, rest));
        assert(all == seq![line_of(node, source, depth)] + below);
        assert(below.subrange(offset, offset + count(child)) == under);
        assert(all.subrange(1 + offset + from, 1 + offset + to) == under.subrange(from, to)) by {
            assert forall|k: int| 0 <= k < to - from implies all.subrange(
                1 + offset + from,
                1 + offset + to,
            )[k] == under.subrange(from, to)[k] by {
                assert(under[from + k] == below.subrange(offset, offset + count(child))[from + k]);
            }
        }
    }
}

/// A path in two parts leads first to the node at the end of the upper part and
/// from there on by the lower part; the positions add up.
pub proof fn lemma_path_parts(node: NodeModel, upper: Seq<int>, lower: Seq<int>)
    requires
        has_path(node, upper + lower),
    ensures
        has_path(node, upper),
        has_path(node_at(node, upper), lower),
        node_at(node, upper + lower) == node_at(node_at(node, upper), lower),
        position(node, upper + lower) == position(node, upper) + position(
            node_at(node, upper),
            lower,
        ),
    decreases upper.len(),
{
    let path = upper + lower;
    if upper.len() == 0 {
        assert(path == lower);
    } else {
        assert(path[0] == upper[0]);
        assert(path.drop_first() == upper.drop_first() + lower);
        lemma_path_parts(node.children[upper[0]]->Some_0, upper.drop_first(), lower);
    }
}

/// The line of the node that a path leads to stands at that node's position, and
/// it holds the node's own kind, start position and text, at a nesting depth that
/// is the depth of the listing's first node plus the length of the path.
pub proof fn line_at_position(node: NodeModel, source: Seq<u8>, depth: nat, path: Seq<int>)
    requires
        has_path(node, path),
    ensures
        position(node, path) < lines_of(node, source, depth).len(),
        lines_of(node, source, depth)[position(node, path) as int] == line_of(
            node_at(node, path),
            source,
            depth + path.len(),
        ),
{
    let from = position(node, path) as int;
    let target = node_at(node, path);
    lemma_listing_len(node, source, depth);
    lemma_subtree_window(node, source, depth, path);
    assert(lines_of(node, source, depth).subrange(from, from + count(target))[0] == lines_of(
        target,
        source,
        depth + path.len(),
    )[0]);
}

/// Every index of the listing of a row of slots is the position of a node under
/// one of the slots.
pub proof fn lemma_path_in_slots(slots: Seq<Option<NodeModel>>, index: nat)
    requires
        index < count_slots(slots),
    ensures
        ({
            let path = path_in_slots(slots, index);
            &&& path.len() > 0
            &&& 0 <= path[0] < slots.len()
            &&& slots[path[0]] is Some
            &&& has_path(slots[path[0]]->Some_0, path.drop_first())
            &&& count_slots(slots.take(path[0])) + position(
                slots[path[0]]->Some_0,
                path.drop_first(),
            ) == index
        }),
    decreases slots, 0nat,
{
    let init = slots.drop_last();
    let path = path_in_slots(slots, index);
    if index < count_slots(init) {
        lemma_path_in_slots(init, index);
        assert(init.take(path[0]) == slots.take(path[0]));
    } else {
        let child = slots.last()->Some_0;
        let rest = path_to(child, (index - count_slots(init)) as nat);
        line_has_a_node(child, (index - count_slots(init)) as nat);
        assert(path.drop_first() == rest);
        assert(slots.take(slots.len() - 1) == init);
    }
}

/// One line for each node, and no other: every index of the listing is the
/// position of a node of the tree.
pub proof fn line_has_a_node(node: NodeModel, index: nat)
    requires
        index < count(node),
    ensures
        has_path(node, path_to(node, index)),
        position(node, path_to(node, index)) == index,
    decreases node, 1nat,
{
    if index > 0 {
        lemma_path_in_slots(node.children, (index - 1) as nat);
    }
}

/// Pre-order, downwards: the line of a node stands strictly before the line of each
/// of its descendants, and every descendant's line stands among the lines of the
/// node's own subtree.
pub proof fn node_precedes_descendants(node: NodeModel, upper: Seq<int>, lower: Seq<int>)
    requires
        has_path(node, upper + lower),
        lower.len() > 0,
    ensures
        position(node, upper) < position(node, upper + lower),
        position(node, upper + lower) < position(node, upper) + count(node_at(node, upper)),
{
    lemma_path_parts(node, upper, lower);
    lemma_subtree_window(node_at(node, upper), Seq::empty(), 0, lower);
}

/// Pre-order, sideways: every line of the subtree under an earlier sibling stands
/// strictly before the line of a later sibling.
pub proof fn earlier_subtree_precedes_sibling(
    node: NodeModel,
    parent: Seq<int>,
    earlier: int,
    below: Seq<int>,
    later: int,
)
    requires
        has_path(node, parent.push(earlier) + below),
        has_path(node, parent.push(later)),
        earlier < later,
    ensures
        position(node, parent.push(earlier) + below) < position(node, parent.push(later)),
{
    let first = seq![earlier] + below;
    let second = seq![later];
    assert(parent.push(earlier) + below == parent + first);
    assert(parent.push(later) == parent + second);
    lemma_path_parts(node, parent, first);
    lemma_path_parts(node, parent, second);
    let base = node_at(node, parent);
    let child = base.children[earlier]->Some_0;
    assert(first.drop_first() == below);
    assert(second.drop_first() == Seq::<int>::empty());
    lemma_subtree_window(child, Seq::empty(), 0, below);
    lemma_count_next_slot(base.children, earlier);
    lemma_count_prefix(base.children, earlier + 1, later);
}

/// Indentation: the first line of a listing has the depth that the listing starts
/// at, and the line of a child is exactly one level deeper than its parent's.
pub proof fn child_is_one_level_deeper(
    node: NodeModel,
    source: Seq<u8>,
    depth: nat,
    parent: Seq<int>,
    slot: int,
)
    requires
        has_path(node, parent.push(slot)),
    ensures
        lines_of(node, source, depth)[0].depth == depth,
        has_path(node, parent),
        lines_of(node, source, depth)[position(node, parent.push(slot)) as int].depth
            == lines_of(node, source, depth)[position(node, parent) as int].depth + 1,
{
    assert(parent.push(slot) == parent + seq![slot]);
    lemma_path_parts(node, parent, seq![slot]);
    line_at_position(node, source, depth, parent);
    line_at_position(node, source, depth, parent.push(slot));
}

/// Text containment: the text in a node's line is made of exactly the bytes of the
/// buffer between the node's span start and end; decoded with newlines escaped
/// where those bytes are valid UTF-8, the placeholder where they are not.
pub proof fn text_is_span(node: NodeModel, source: Seq<u8>, depth: nat, path: Seq<int>)
    requires
        has_path(node, path),
    ensures
        ({
            let target = node_at(node, path);
            let bytes = source.subrange(target.start as int, target.end as int);
            let text = lines_of(node, source, depth)[position(node, path) as int].text;
            &&& valid_utf8(bytes) ==> text == escape_newlines(vstd::utf8::decode_utf8(bytes))
            &&& !valid_utf8(bytes) ==> text == placeholder()
        }),
{
    line_at_position(node, source, depth, path);
}

/// Isolation of a span that does not decode: the listing still has one line for
/// each node of the tree, the line of the node with the bad span holds the
/// placeholder and is otherwise as for any node, and the line of every node,
/// whichever path leads to it, is what that node alone determines.
pub proof fn undecodable_span_is_isolated(
    node: NodeModel,
    source: Seq<u8>,
    depth: nat,
    bad: Seq<int>,
    other: Seq<int>,
)
    requires
        has_path(node, bad),
        has_path(node, other),
        !valid_utf8(span_bytes(source, node_at(node, bad).start, node_at(node, bad).end)),
    ensures
        lines_of(node, source, depth).len() == count(node),
        lines_of(node, source, depth)[position(node, bad) as int] == (LineModel {
            text: placeholder(),
            ..line_of(node_at(node, bad), source, depth + bad.len())
        }),
        lines_of(node, source, depth)[position(node, other) as int] == line_of(
            node_at(node, other),
            source,
            depth + other.len(),
        ),
{
    lemma_listing_len(node, source, depth);
    line_at_position(node, source, depth, bad);
    line_at_position(node, source, depth, other);
}

} // verus!
