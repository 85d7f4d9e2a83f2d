//! Finding the workspaces of a snapshot and the windows of a workspace.
use vstd::prelude::*;
use crate::config::Config;
use crate::label::{label_text, resolve};
use crate::node::{LayoutNode, LookupError, NodeKind, pointees, texts};

verus! {

/// The workspaces among `children`, in order.
pub open spec fn workspaces_among(children: Seq<LayoutNode>) -> Seq<LayoutNode>
    decreases children.len(),
{
    if children.len() == 0 {
        Seq::empty()
    } else {
        let before = workspaces_among(children.drop_last());
        if children.last().kind == NodeKind::Workspace {
            before.push(children.last())
        } else {
            before
        }
    }
}

/// The workspaces directly under the nodes of `outputs`: those of the first
/// output, then those of the second, and so on.
pub open spec fn workspaces_under(outputs: Seq<LayoutNode>) -> Seq<LayoutNode>
    decreases outputs.len(),
{
    if outputs.len() == 0 {
        Seq::empty()
    } else {
        workspaces_under(outputs.drop_last()) + workspaces_among(outputs.last().nodes@)
    }
}

/// The nodes found from the sibling list `level`, in the order of discovery:
/// the siblings themselves in their order, then what is found from the
/// children of the last sibling, then from those of the one before it, down to
/// the first. Only tiled children are followed.
pub open spec fn discovered(level: Seq<LayoutNode>) -> Seq<LayoutNode>
    decreases level, level.len() + 1,
{
    level + discovered_below(level, level.len())
}

/// What is found from the children of the first `count` nodes of `level`, the
/// last of them first.
pub open spec fn discovered_below(level: Seq<LayoutNode>, count: nat) -> Seq<LayoutNode>
    decreases level, count,
{
    if count == 0 || count > level.len() {
        Seq::empty()
    } else {
        discovered(level[count - 1].nodes@) + discovered_below(level, (count - 1) as nat)
    }
}

/// The classes of the nodes of `nodes` that have one, in order. A node
/// without a class contributes nothing.
pub open spec fn classes_of(nodes: Seq<LayoutNode>) -> Seq<Seq<char>>
    decreases nodes.len(),
{
    if nodes.len() == 0 {
        Seq::empty()
    } else {
        let before = classes_of(nodes.drop_last());
        match nodes.last().class() {
            Some(class) => before.push(class),
            None => before,
        }
    }
}

/// The label of each class of `classes`, in order.
pub open spec fn labels_for(classes: Seq<Seq<char>>, config: &Config) -> Seq<Seq<char>> {
    Seq::new(classes.len(), |i: int| label_text(classes[i], config))
}

/// The nodes found in `workspace`: those found from its tiled children, then
/// those found from its floating children.
pub open spec fn workspace_nodes(workspace: &LayoutNode) -> Seq<LayoutNode> {
    discovered(workspace.nodes@) + discovered(workspace.floating_nodes@)
}

/// The classes of the windows of `workspace`, in the order of discovery.
pub open spec fn workspace_classes(workspace: &LayoutNode) -> Seq<Seq<char>> {
    classes_of(workspace_nodes(workspace))
}

/// The labels of the windows of `workspace`, in the order of discovery.
pub open spec fn workspace_labels(workspace: &LayoutNode, config: &Config) -> Seq<Seq<char>> {
    labels_for(workspace_classes(workspace), config)
}

/// The sibling lists that the references of `stack` point to, in order.
pub open spec fn levels(stack: Seq<&Vec<LayoutNode>>) -> Seq<Seq<LayoutNode>> {
    Seq::new(stack.len(), |i: int| stack[i]@)
}

/// The lists of tiled children of the first `count` nodes of `level`.
pub open spec fn child_levels(level: Seq<LayoutNode>, count: nat) -> Seq<Seq<LayoutNode>> {
    Seq::new(count, |i: int| level[i].nodes@)
}

/// What a walk finds that starts with the sibling lists of `stack` still to
/// visit and takes the last of them first.
pub open spec fn pending(stack: Seq<Seq<LayoutNode>>) -> Seq<LayoutNode>
    decreases stack.len(),
{
    if stack.len() == 0 {
        Seq::empty()
    } else {
        discovered(stack.last()) + pending(stack.drop_last())
    }
}

/// Child lists put on top of a stack are walked before the stack below them,
/// the list of the last sibling first.
proof fn lemma_pending_child_levels(base: Seq<Seq<LayoutNode>>, level: Seq<LayoutNode>, count: nat)
    requires
        count <= level.len(),
    ensures
        pending(base + child_levels(level, count)) == discovered_below(level, count) + pending(base),
    decreases count,
{
    if count == 0 {
        assert(base + child_levels(level, 0) =~= base);
        assert(discovered_below(level, 0) + pending(base) =~= pending(base));
    } else {
        let shorter = (count - 1) as nat;
        let stack = base + child_levels(level, count);
        assert(stack.last() == level[count - 1].nodes@);
        assert(stack.drop_last() =~= base + child_levels(level, shorter));
        lemma_pending_child_levels(base, level, shorter);
        assert(pending(stack) =~= discovered_below(level, count) + pending(base));
    }
}

/// The classes of a list with one more node at its end.
proof fn lemma_classes_of_push(nodes: Seq<LayoutNode>, node: LayoutNode)
    ensures
        classes_of(nodes.push(node)) == match node.class() {
            Some(class) => classes_of(nodes).push(class),
            None => classes_of(nodes),
        },
{
    assert(nodes.push(node).drop_last() =~= nodes);
}

/// Finds the workspaces of a snapshot: the children of kind workspace of the
/// children of `tree`, in the order of the snapshot.
pub fn get_workspaces(tree: &LayoutNode) -> (found: Vec<&LayoutNode>)
    ensures
        pointees(found@) == workspaces_under(tree.nodes@),
{
    let mut found: Vec<&LayoutNode> = Vec::new();
    let mut i: usize = 0;
    assert(tree.nodes@.take(0) =~= Seq::empty());
    assert(pointees(found@) =~= Seq::empty());
    while i < tree.nodes.len()
        invariant
            i <= tree.nodes@.len(),
            pointees(found@) == workspaces_under(tree.nodes@.take(i as int)),
        decreases tree.nodes@.len() - i,
    {
        let output = &tree.nodes[i];
        let ghost before = pointees(found@);
        let mut j: usize = 0;
        assert(output.nodes@.take(0) =~= Seq::empty());
        assert(before + workspaces_among(output.nodes@.take(0)) =~= before);
        while j < output.nodes.len()
            invariant
                j <= output.nodes@.len(),
                pointees(found@) == before + workspaces_among(output.nodes@.take(j as int)),
            decreases output.nodes@.len() - j,
        {
            let child = &output.nodes[j];
            assert(output.nodes@.take(j + 1).drop_last() =~= output.nodes@.take(j as int));
            assert(output.nodes@.take(j + 1).last() == *child);
            if child.kind == NodeKind::Workspace {
                let ghost so_far = pointees(found@);
                found.push(child);
                assert(pointees(found@) =~= so_far.push(*child));
                assert(pointees(found@) =~= before + workspaces_among(output.nodes@.take(j + 1)));
            }
            j = j + 1;
        }
        assert(output.nodes@.take(j as int) =~= output.nodes@);
        assert(tree.nodes@.take(i + 1).drop_last() =~= tree.nodes@.take(i as int));
        i = i + 1;
    }
    assert(tree.nodes@.take(i as int) =~= tree.nodes@);
    found
}

/// Walks the sibling lists of `stack`, the last first, and returns every node
/// met on the way: a list's nodes in their order, the lists of their tiled
/// children being put on the stack in the same order.
pub fn get_window_nodes<'a>(stack: Vec<&'a Vec<LayoutNode>>) -> (found: Vec<&'a LayoutNode>)
    ensures
        pointees(found@) == pending(levels(stack@)),
{
    let mut stack = stack;
    let mut found: Vec<&LayoutNode> = Vec::new();
    let ghost target = pending(levels(stack@));
    assert(pointees(found@) + target =~= target);
    while stack.len() > 0
        invariant
            pointees(found@) + pending(levels(stack@)) == target,
        decreases target.len() - found@.len(), stack@.len(),
    {
        let ghost above = levels(stack@);
        let ghost seen = pointees(found@);
        let next = stack.pop().unwrap();
        let ghost base = levels(stack@);
        assert(above.last() == next@);
        assert(above.drop_last() =~= base);
        assert(pending(above) == next@ + discovered_below(next@, next@.len()) + pending(base));
        let mut j: usize = 0;
        assert(levels(stack@) =~= base + child_levels(next@, 0));
        assert(seen + next@.take(0) =~= seen);
        while j < next.len()
            invariant
                j <= next@.len(),
                levels(stack@) == base + child_levels(next@, j as nat),
                pointees(found@) == seen + next@.take(j as int),
            decreases next@.len() - j,
        {
            let node = &next[j];
            let ghost lower = levels(stack@);
            let ghost so_far = pointees(found@);
            stack.push(&node.nodes);
            found.push(node);
            assert(levels(stack@) =~= lower.push(node.nodes@));
            assert(pointees(found@) =~= so_far.push(*node));
            assert(levels(stack@) =~= base + child_levels(next@, (j + 1) as nat));
            assert(pointees(found@) =~= seen + next@.take(j + 1));
            j = j + 1;
        }
        proof {
            assert(next@.take(j as int) =~= next@);
            lemma_pending_child_levels(base, next@, next@.len());
            assert(pointees(found@) + pending(levels(stack@)) =~= seen + pending(above));
        }
    }
    assert(pending(levels(stack@)) =~= Seq::empty());
    assert(pointees(found@) + pending(levels(stack@)) =~= pointees(found@));
    found
}

/// The label of the window that `node` stands for, or `MissingInformation`
/// where the node names no class.
pub fn get_class(node: &LayoutNode, config: &Config) -> (label: Result<String, LookupError>)
    ensures
        match label {
            Ok(text) => node.class() is Some && text@ == label_text(node.class()->0, config),
            Err(e) => node.class() is None && e == LookupError::MissingInformation,
        },
{
    match node.window_class() {
        Some(class) => Ok(resolve(class.as_str(), config)),
        None => Err(LookupError::MissingInformation),
    }
}

/// Finds the nodes of `workspace`: one walk from its tiled children, one from
/// its floating children, the second put behind the first.
fn find_workspace_nodes(workspace: &LayoutNode) -> (found: Vec<&LayoutNode>)
    ensures
        pointees(found@) == workspace_nodes(workspace),
{
    let mut floating = get_window_nodes(vec![&workspace.floating_nodes]);
    let mut found = get_window_nodes(vec![&workspace.nodes]);
    proof {
        let tiled_stack = seq![workspace.nodes@];
        let floating_stack = seq![workspace.floating_nodes@];
        assert(levels(seq![&workspace.nodes]) =~= tiled_stack);
        assert(levels(seq![&workspace.floating_nodes]) =~= floating_stack);
        reveal_with_fuel(pending, 2);
        assert(pending(tiled_stack) =~= discovered(workspace.nodes@));
        assert(pending(floating_stack) =~= discovered(workspace.floating_nodes@));
    }
    found.append(&mut floating);
    assert(pointees(found@) =~= workspace_nodes(workspace));
    found
}

/// Collects the classes of the windows of `workspace`, in the order of
/// discovery. A node without a class is passed over.
pub fn collect_classes(workspace: &LayoutNode) -> (classes: Vec<String>)
    ensures
        texts(classes@) == workspace_classes(workspace),
{
    let window_nodes = find_workspace_nodes(workspace);
    let ghost all = workspace_nodes(workspace);
    let mut classes: Vec<String> = Vec::new();
    let mut i: usize = 0;
    assert(all.take(0) =~= Seq::empty());
    assert(texts(classes@) =~= Seq::empty());
    while i < window_nodes.len()
        invariant
            i <= window_nodes@.len(),
            pointees(window_nodes@) == all,
            texts(classes@) == classes_of(all.take(i as int)),
        decreases window_nodes@.len() - i,
    {
        let node = window_nodes[i];
        proof {
            assert(all.take(i + 1) =~= all.take(i as int).push(*node));
            lemma_classes_of_push(all.take(i as int), *node);
        }
        match node.window_class() {
            Some(class) => {
                let ghost before = texts(classes@);
                classes.push(class.clone());
                assert(texts(classes@) =~= before.push(class@));
            },
            None => {},
        }
        i = i + 1;
    }
    assert(all.take(i as int) =~= all);
    classes
}

/// Collects the labels of the windows of `workspace`: the label of each class
/// that `collect_classes` finds, in the same order.
pub fn get_classes(workspace: &LayoutNode, config: &Config) -> (labels: Vec<String>)
    ensures
        texts(labels@) == workspace_labels(workspace, config),
{
    let window_nodes = find_workspace_nodes(workspace);
    let ghost all = workspace_nodes(workspace);
    let mut labels: Vec<String> = Vec::new();
    let mut i: usize = 0;
    assert(all.take(0) =~= Seq::empty());
    assert(texts(labels@) =~= labels_for(classes_of(all.take(0)), config));
    while i < window_nodes.len()
        invariant
            i <= window_nodes@.len(),
            pointees(window_nodes@) == all,
            texts(labels@) == labels_for(classes_of(all.take(i as int)), config),
        decreases window_nodes@.len() - i,
    {
        let node = window_nodes[i];
        proof {
            assert(all.take(i + 1) =~= all.take(i as int).push(*node));
            lemma_classes_of_push(all.take(i as int), *node);
        }
        match get_class(node, config) {
            Ok(label) => {
                let ghost before = texts(labels@);
                labels.push(label);
                assert(texts(labels@) =~= before.push(label@));
                assert(texts(labels@) =~= labels_for(classes_of(all.take(i + 1)), config));
            },
            Err(_) => {},
        }
        i = i + 1;
    }
    assert(all.take(i as int) =~= all);
    labels
}

} // verus!
