//! The tree of graphic items inside a graphic: removing, inserting and
//! moving items as the element tree view asks for.

use vstd::multiset::Multiset;
use vstd::prelude::*;

use crate::drop_position::{
    first_index, ids_distinct, insert_at_position, insertion_index, is_first_index, keys_of,
    position_of, sits_at, DropPosition, Keyed,
};

verus! {

/// The kind of a graphic item. Cells are leaves; every other kind holds a
/// list of child items.
#[derive(Clone, Copy, Debug, PartialEq, Eq, Structural)]
pub enum ItemKind {
    Root,
    Cell,
    ClipArea,
    DriverTable,
    EntryContext,
}

impl ItemKind {
    /// Whether the element tree shows an item of this kind as a directory,
    /// which can be opened and holds children: every kind but a cell.
    pub fn shows_as_directory(&self) -> (r: bool)
        ensures
            r == (*self != ItemKind::Cell),
    {
        match self {
            ItemKind::Cell => false,
            _ => true,
        }
    }
}

/// A graphic item with its children.
pub struct GraphicItem {
    pub id: u128,
    pub kind: ItemKind,
    pub items: Vec<GraphicItem>,
}

/// The mathematical value of a graphic item.
pub struct ItemTree {
    pub id: u128,
    pub kind: ItemKind,
    pub children: Seq<ItemTree>,
}

pub open spec fn tree_of(item: GraphicItem) -> ItemTree
    decreases item,
{
    ItemTree { id: item.id, kind: item.kind, children: trees_of(item.items@) }
}

pub open spec fn trees_of(items: Seq<GraphicItem>) -> Seq<ItemTree>
    decreases items,
{
    if items.len() == 0 {
        Seq::empty()
    } else {
        seq![tree_of(items[0])] + trees_of(items.drop_first())
    }
}

pub open spec fn contains_id(t: ItemTree, id: u128) -> bool
    decreases t,
{
    t.id == id || contains_in(t.children, id)
}

pub open spec fn contains_in(s: Seq<ItemTree>, id: u128) -> bool
    decreases s,
{
    if s.len() == 0 {
        false
    } else {
        contains_id(s[0], id) || contains_in(s.drop_first(), id)
    }
}


/// The ids of a sequence of trees, in order.
pub open spec fn tree_ids(s: Seq<ItemTree>) -> Seq<u128> {
    s.map_values(|t: ItemTree| t.id)
}

/// `t` with `children` in place of its children.
pub open spec fn with_children(t: ItemTree, children: Seq<ItemTree>) -> ItemTree {
    ItemTree { id: t.id, kind: t.kind, children }
}

/// Removing the item `id` from the tree `t`: the first node in pre-order
/// (cells excluded, as they hold nothing) that has a child `id` loses its
/// first such child. Gives the new tree and the removed item, if any.
pub open spec fn remove_tree(t: ItemTree, id: u128) -> (ItemTree, Option<ItemTree>)
    decreases t,
{
    if t.kind == ItemKind::Cell {
        (t, None)
    } else {
        match first_index(tree_ids(t.children), id) {
            Some(k) => (with_children(t, t.children.remove(k)), Some(t.children[k])),
            None => {
                let (cs, r) = remove_in(t.children, id);
                (with_children(t, cs), r)
            },
        }
    }
}

/// Removing the item `id` from the first tree of `s` that has it.
pub open spec fn remove_in(s: Seq<ItemTree>, id: u128) -> (Seq<ItemTree>, Option<ItemTree>)
    decreases s,
{
    if s.len() == 0 {
        (s, None)
    } else {
        let (c, r) = remove_tree(s[0], id);
        if r is Some {
            (seq![c] + s.drop_first(), r)
        } else {
            let (rest, r2) = remove_in(s.drop_first(), id);
            (seq![s[0]] + rest, r2)
        }
    }
}

/// Inserting `e` at `pos` among the children of the first node in
/// pre-order whose id is `target`. A cell found there takes nothing, and
/// the search does not look inside cells. Gives the new tree and whether a
/// node `target` was found.
pub open spec fn insert_tree(t: ItemTree, target: u128, pos: DropPosition, e: ItemTree) -> (ItemTree, bool)
    decreases t,
{
    if t.id == target {
        if t.kind == ItemKind::Cell {
            (t, true)
        } else {
            (with_children(t, t.children.insert(insertion_index(tree_ids(t.children), pos), e)), true)
        }
    } else if t.kind == ItemKind::Cell {
        (t, false)
    } else {
        let (cs, found) = insert_in(t.children, target, pos, e);
        (with_children(t, cs), found)
    }
}

/// Inserting into the first tree of `s` that has a node `target`.
pub open spec fn insert_in(s: Seq<ItemTree>, target: u128, pos: DropPosition, e: ItemTree) -> (Seq<ItemTree>, bool)
    decreases s,
{
    if s.len() == 0 {
        (s, false)
    } else {
        let (c, found) = insert_tree(s[0], target, pos, e);
        if found {
            (seq![c] + s.drop_first(), true)
        } else {
            let (rest, f2) = insert_in(s.drop_first(), target, pos, e);
            (seq![s[0]] + rest, f2)
        }
    }
}

pub open spec fn tree_opt(r: Option<GraphicItem>) -> Option<ItemTree> {
    match r {
        Some(x) => Some(tree_of(x)),
        None => None,
    }
}

impl Keyed for GraphicItem {
    open spec fn key(&self) -> u128 {
        self.id
    }

    fn id(&self) -> (r: u128) {
        self.id
    }
}

proof fn lemma_trees_of(s: Seq<GraphicItem>)
    ensures
        trees_of(s) == s.map_values(|x: GraphicItem| tree_of(x)),
    decreases s.len(),
{
    if s.len() > 0 {
        lemma_trees_of(s.drop_first());
    }
    assert(trees_of(s) =~= s.map_values(|x: GraphicItem| tree_of(x)));
}

proof fn lemma_tree_ids(s: Seq<GraphicItem>)
    ensures
        tree_ids(trees_of(s)) == keys_of(s),
        trees_of(s).len() == s.len(),
{
    lemma_trees_of(s);
    assert(tree_ids(trees_of(s)) =~= keys_of(s));
}

proof fn lemma_remove_none(t: ItemTree, id: u128)
    ensures
        remove_tree(t, id).1 is None ==> remove_tree(t, id).0 == t,
    decreases t,
{
    if t.kind != ItemKind::Cell && first_index(tree_ids(t.children), id) is None {
        lemma_remove_in_none(t.children, id);
    }
}

proof fn lemma_remove_in_none(s: Seq<ItemTree>, id: u128)
    ensures
        remove_in(s, id).1 is None ==> remove_in(s, id).0 == s,
    decreases s,
{
    if s.len() > 0 {
        lemma_remove_none(s[0], id);
        lemma_remove_in_none(s.drop_first(), id);
        assert(seq![s[0]] + s.drop_first() =~= s);
    }
}

proof fn lemma_remove_in_skip(s: Seq<ItemTree>, id: u128, i: int)
    requires
        0 <= i <= s.len(),
        forall|j: int| 0 <= j < i ==> (#[trigger] remove_tree(s[j], id)).1 is None,
    ensures
        remove_in(s, id) == (s.take(i) + remove_in(s.skip(i), id).0, remove_in(s.skip(i), id).1),
    decreases i,
{
    if i == 0 {
        assert(s.skip(0) =~= s);
        assert(s.take(0) + remove_in(s.skip(0), id).0 =~= remove_in(s, id).0);
    } else {
        let t = s.drop_first();
        assert forall|j: int| 0 <= j < i - 1 implies (#[trigger] remove_tree(t[j], id)).1 is None by {
            assert(t[j] == s[j + 1]);
        }
        lemma_remove_in_skip(t, id, i - 1);
        assert(t.skip(i - 1) =~= s.skip(i));
        assert(remove_tree(s[0], id).1 is None);
        lemma_remove_none(s[0], id);
        assert(s.take(i) =~= seq![s[0]] + t.take(i - 1));
    }
}

/// The number of nodes of a tree.
pub open spec fn tree_size(t: ItemTree) -> nat
    decreases t,
{
    1 + trees_size(t.children)
}

pub open spec fn trees_size(s: Seq<ItemTree>) -> nat
    decreases s,
{
    if s.len() == 0 {
        0
    } else {
        tree_size(s[0]) + trees_size(s.drop_first())
    }
}

proof fn lemma_child_smaller(s: Seq<ItemTree>, i: int)
    requires
        0 <= i < s.len(),
    ensures
        tree_size(s[i]) <= trees_size(s),
    decreases s.len(),
{
    if i > 0 {
        lemma_child_smaller(s.drop_first(), i - 1);
    }
}

/// Removes the item `id` from the tree below `node` and gives it back: the
/// first node in pre-order that holds it as a child loses it.
pub fn remove_element(node: &mut GraphicItem, id: u128) -> (r: Option<GraphicItem>)
    ensures
        tree_of(*final(node)) == remove_tree(tree_of(*old(node)), id).0,
        tree_opt(r) == remove_tree(tree_of(*old(node)), id).1,
    decreases tree_size(tree_of(*old(node))),
{
    let ghost t0 = tree_of(*node);
    proof {
        lemma_tree_ids(node.items@);
        lemma_trees_of(node.items@);
    }
    if let ItemKind::Cell = node.kind {
        return None;
    }
    if let Some(k) = position_of(&node.items, id) {
        let removed = node.items.remove(k);
        proof {
            lemma_trees_of(node.items@);
            assert(trees_of(node.items@) =~= t0.children.remove(k as int));
        }
        return Some(removed);
    }
    let ghost s = t0.children;
    let mut i: usize = 0;
    while i < node.items.len()
        invariant
            0 <= i <= node.items.len(),
            node.id == old(node).id,
            node.kind == old(node).kind,
            t0 == tree_of(*old(node)),
            t0.kind != ItemKind::Cell,
            first_index(tree_ids(t0.children), id) is None,
            s == t0.children,
            s == trees_of(node.items@),
            s.len() == node.items.len(),
            forall|j: int| 0 <= j < i ==> (#[trigger] remove_tree(s[j], id)).1 is None,
        decreases node.items.len() - i,
    {
        proof {
            lemma_trees_of(node.items@);
            lemma_child_smaller(s, i as int);
        }
        let mut child = node.items.remove(i);
        assert(tree_of(child) == s[i as int]);
        let r = remove_element(&mut child, id);
        node.items.insert(i, child);
        proof {
            lemma_trees_of(node.items@);
        }
        if r.is_some() {
            proof {
                lemma_remove_in_skip(s, id, i as int);
                let sk = s.skip(i as int);
                assert(sk[0] == s[i as int]);
                assert(sk.drop_first() =~= s.skip(i + 1));
                assert(trees_of(node.items@) =~= s.take(i as int) + (seq![tree_of(child)] + s.skip(i + 1)));
            }
            return r;
        }
        proof {
            lemma_remove_none(s[i as int], id);
            assert(trees_of(node.items@) =~= s);
        }
        i = i + 1;
    }
    proof {
        lemma_remove_in_skip(s, id, s.len() as int);
        assert(s.take(s.len() as int) =~= s);
        assert(s.skip(s.len() as int) =~= Seq::<ItemTree>::empty());
        assert(tree_of(*node) =~= t0);
    }
    None
}

proof fn lemma_insert_not_found(t: ItemTree, target: u128, pos: DropPosition, e: ItemTree)
    ensures
        !insert_tree(t, target, pos, e).1 ==> insert_tree(t, target, pos, e).0 == t,
    decreases t,
{
    if t.id != target && t.kind != ItemKind::Cell {
        lemma_insert_in_not_found(t.children, target, pos, e);
    }
}

proof fn lemma_insert_in_not_found(s: Seq<ItemTree>, target: u128, pos: DropPosition, e: ItemTree)
    ensures
        !insert_in(s, target, pos, e).1 ==> insert_in(s, target, pos, e).0 == s,
    decreases s,
{
    if s.len() > 0 {
        lemma_insert_not_found(s[0], target, pos, e);
        lemma_insert_in_not_found(s.drop_first(), target, pos, e);
        assert(seq![s[0]] + s.drop_first() =~= s);
    }
}

proof fn lemma_insert_in_skip(s: Seq<ItemTree>, target: u128, pos: DropPosition, e: ItemTree, i: int)
    requires
        0 <= i <= s.len(),
        forall|j: int| 0 <= j < i ==> !(#[trigger] insert_tree(s[j], target, pos, e)).1,
    ensures
        insert_in(s, target, pos, e) == (
            s.take(i) + insert_in(s.skip(i), target, pos, e).0,
            insert_in(s.skip(i), target, pos, e).1,
        ),
    decreases i,
{
    if i == 0 {
        assert(s.skip(0) =~= s);
        assert(s.take(0) + insert_in(s.skip(0), target, pos, e).0 =~= insert_in(s, target, pos, e).0);
    } else {
        let t = s.drop_first();
        assert forall|j: int| 0 <= j < i - 1 implies !(#[trigger] insert_tree(t[j], target, pos, e)).1 by {
            assert(t[j] == s[j + 1]);
        }
        lemma_insert_in_skip(t, target, pos, e, i - 1);
        assert(t.skip(i - 1) =~= s.skip(i));
        assert(!insert_tree(s[0], target, pos, e).1);
        lemma_insert_not_found(s[0], target, pos, e);
        assert(s.take(i) =~= seq![s[0]] + t.take(i - 1));
    }
}

/// Inserts `element` below `node` as `insert_tree` says; gives the element
/// back when no node `target` is there.
fn insert_below(node: &mut GraphicItem, target: u128, position: DropPosition, element: GraphicItem) -> (r: Option<GraphicItem>)
    ensures
        tree_of(*final(node)) == insert_tree(tree_of(*old(node)), target, position, tree_of(element)).0,
        insert_tree(tree_of(*old(node)), target, position, tree_of(element)).1 <==> r is None,
        r matches Some(x) ==> x == element,
    decreases tree_size(tree_of(*old(node))),
{
    let ghost t0 = tree_of(*node);
    let ghost e = tree_of(element);
    proof {
        lemma_tree_ids(node.items@);
        lemma_trees_of(node.items@);
    }
    if node.id == target {
        if let ItemKind::Cell = node.kind {
            return None;
        }
        insert_at_position(&mut node.items, position, element);
        proof {
            lemma_trees_of(node.items@);
            assert(trees_of(node.items@) =~= t0.children.insert(
                insertion_index(tree_ids(t0.children), position),
                e,
            ));
        }
        return None;
    }
    if let ItemKind::Cell = node.kind {
        return Some(element);
    }
    let ghost s = t0.children;
    let mut pending = element;
    let mut i: usize = 0;
    while i < node.items.len()
        invariant
            0 <= i <= node.items.len(),
            node.id == old(node).id,
            node.id != target,
            node.kind == old(node).kind,
            t0 == tree_of(*old(node)),
            t0.kind != ItemKind::Cell,
            pending == element,
            e == tree_of(element),
            s == t0.children,
            s == trees_of(node.items@),
            s.len() == node.items.len(),
            forall|j: int| 0 <= j < i ==> !(#[trigger] insert_tree(s[j], target, position, e)).1,
        decreases node.items.len() - i,
    {
        proof {
            lemma_trees_of(node.items@);
            lemma_child_smaller(s, i as int);
        }
        let mut child = node.items.remove(i);
        assert(tree_of(child) == s[i as int]);
        let r = insert_below(&mut child, target, position, pending);
        node.items.insert(i, child);
        proof {
            lemma_trees_of(node.items@);
        }
        match r {
            None => {
                proof {
                    lemma_insert_in_skip(s, target, position, e, i as int);
                    let sk = s.skip(i as int);
                    assert(sk[0] == s[i as int]);
                    assert(sk.drop_first() =~= s.skip(i + 1));
                    assert(trees_of(node.items@) =~= s.take(i as int) + (seq![tree_of(child)] + s.skip(i + 1)));
                }
                return None;
            },
            Some(back) => {
                pending = back;
            },
        }
        proof {
            lemma_insert_not_found(s[i as int], target, position, e);
            assert(trees_of(node.items@) =~= s);
        }
        i = i + 1;
    }
    proof {
        lemma_insert_in_skip(s, target, position, e, s.len() as int);
        assert(s.take(s.len() as int) =~= s);
        assert(s.skip(s.len() as int) =~= Seq::<ItemTree>::empty());
        assert(tree_of(*node) =~= t0);
    }
    Some(pending)
}

/// Inserts `element` at `position` among the children of the first node
/// in pre-order whose id is `target`. Where that node is a cell, or there
/// is no such node, the element is dropped and the tree stays as it was.
pub fn insert_element(root: &mut GraphicItem, target: u128, position: DropPosition, element: GraphicItem)
    ensures
        tree_of(*final(root)) == insert_tree(tree_of(*old(root)), target, position, tree_of(element)).0,
{
    let _ = insert_below(root, target, position, element);
}

/// Moves the item `source` to `position` below the node `target`, as the
/// element tree view asks on a drop: the item is removed first and then
/// inserted into the tree that is left. Returns whether an item was
/// removed.
pub fn move_element(root: &mut GraphicItem, source: u128, target: u128, position: DropPosition) -> (moved: bool)
    ensures
        ({
            let (rest, removed) = remove_tree(tree_of(*old(root)), source);
            match removed {
                Some(e) => moved && tree_of(*final(root)) == insert_tree(rest, target, position, e).0,
                None => !moved && tree_of(*final(root)) == tree_of(*old(root)),
            }
        }),
{
    let ghost t0 = tree_of(*root);
    proof {
        lemma_remove_none(t0, source);
    }
    match remove_element(root, source) {
        Some(element) => {
            insert_element(root, target, position, element);
            true
        },
        None => false,
    }
}

proof fn lemma_contains_in(s: Seq<ItemTree>, x: u128)
    ensures
        contains_in(s, x) <==> exists|i: int| 0 <= i < s.len() && #[trigger] contains_id(s[i], x),
    decreases s.len(),
{
    if s.len() > 0 {
        let rest = s.drop_first();
        lemma_contains_in(rest, x);
        if exists|i: int| 0 <= i < s.len() && #[trigger] contains_id(s[i], x) {
            let i = choose|i: int| 0 <= i < s.len() && #[trigger] contains_id(s[i], x);
            if i > 0 {
                assert(rest[i - 1] == s[i]);
                assert(contains_id(rest[i - 1], x));
                assert(contains_in(rest, x));
            }
            assert(contains_in(s, x));
        }
        if contains_in(s, x) {
            if contains_id(s[0], x) {
            } else {
                assert(contains_in(rest, x));
                let i = choose|i: int| 0 <= i < rest.len() && #[trigger] contains_id(rest[i], x);
                assert(rest[i] == s[i + 1]);
                assert(contains_id(s[i + 1], x));
            }
        }
    }
}

proof fn lemma_no_child_with_id(s: Seq<ItemTree>, x: u128)
    requires
        !contains_in(s, x),
    ensures
        first_index(tree_ids(s), x) is None,
{
    lemma_contains_in(s, x);
    if exists|i: int| is_first_index(tree_ids(s), x, i) {
        let i = choose|i: int| is_first_index(tree_ids(s), x, i);
        assert(contains_id(s[i], x));
    }
}

proof fn lemma_remove_absent(t: ItemTree, x: u128)
    requires
        !contains_id(t, x),
    ensures
        remove_tree(t, x) == (t, Option::<ItemTree>::None),
    decreases t,
{
    if t.kind != ItemKind::Cell {
        lemma_no_child_with_id(t.children, x);
        lemma_remove_in_absent(t.children, x);
    }
}

proof fn lemma_remove_in_absent(s: Seq<ItemTree>, x: u128)
    requires
        !contains_in(s, x),
    ensures
        remove_in(s, x) == (s, Option::<ItemTree>::None),
    decreases s,
{
    if s.len() > 0 {
        lemma_remove_absent(s[0], x);
        lemma_remove_in_absent(s.drop_first(), x);
        assert(seq![s[0]] + s.drop_first() =~= s);
    }
}

proof fn lemma_insert_keeps_root(t: ItemTree, target: u128, pos: DropPosition, e: ItemTree)
    ensures
        insert_tree(t, target, pos, e).0.id == t.id,
        insert_tree(t, target, pos, e).0.kind == t.kind,
{
}

proof fn lemma_insert_in_keeps_ids(s: Seq<ItemTree>, target: u128, pos: DropPosition, e: ItemTree)
    ensures
        tree_ids(insert_in(s, target, pos, e).0) == tree_ids(s),
    decreases s.len(),
{
    if s.len() > 0 {
        lemma_insert_keeps_root(s[0], target, pos, e);
        lemma_insert_in_keeps_ids(s.drop_first(), target, pos, e);
        let r = insert_in(s, target, pos, e).0;
        let (c, found) = insert_tree(s[0], target, pos, e);
        if found {
            assert(tree_ids(r) =~= tree_ids(s));
        } else {
            let rest = insert_in(s.drop_first(), target, pos, e).0;
            assert(tree_ids(r) =~= seq![s[0].id] + tree_ids(rest));
            assert(tree_ids(s) =~= seq![s[0].id] + tree_ids(s.drop_first()));
        }
    } else {
        assert(tree_ids(insert_in(s, target, pos, e).0) =~= tree_ids(s));
    }
}

/// An insert is undone by removing the inserted item by its id: when `e`'s
/// id occurs nowhere in `t`, inserting `e` and then removing that id gives
/// back `t`, together with `e` itself unless the insert placed nothing
/// (no node `target`, or a cell there), in which case the tree never
/// changed.
pub proof fn law_remove_undoes_insert(t: ItemTree, target: u128, pos: DropPosition, e: ItemTree)
    requires
        !contains_id(t, e.id),
    ensures
        ({
            let t1 = insert_tree(t, target, pos, e).0;
            let (t2, r) = remove_tree(t1, e.id);
            &&& t2 == t
            &&& (r == Some(e) || (r is None && t1 == t))
        }),
    decreases t,
{
    let t1 = insert_tree(t, target, pos, e).0;
    if t.id == target {
        if t.kind == ItemKind::Cell {
            lemma_remove_absent(t, e.id);
        } else {
            let cs = t.children;
            let k = insertion_index(tree_ids(cs), pos);
            crate::drop_position::lemma_insertion_index_bounds(tree_ids(cs), pos);
            let cs1 = cs.insert(k, e);
            lemma_contains_in(cs, e.id);
            assert(is_first_index(tree_ids(cs1), e.id, k)) by {
                assert forall|j: int| 0 <= j < k implies tree_ids(cs1)[j] != e.id by {
                    assert(cs1[j] == cs[j]);
                    if cs[j].id == e.id {
                        assert(contains_id(cs[j], e.id));
                    }
                }
            }
            crate::drop_position::lemma_first_index_unique(tree_ids(cs1), e.id, k);
            assert(cs1.remove(k) =~= cs);
            assert(t == with_children(t, cs));
        }
    } else if t.kind == ItemKind::Cell {
        lemma_remove_absent(t, e.id);
    } else {
        let s = t.children;
        lemma_insert_in_keeps_ids(s, target, pos, e);
        lemma_no_child_with_id(s, e.id);
        law_remove_undoes_insert_in(s, target, pos, e);
        lemma_insert_in_not_found(s, target, pos, e);
        assert(t == with_children(t, s));
    }
}

proof fn law_remove_undoes_insert_in(s: Seq<ItemTree>, target: u128, pos: DropPosition, e: ItemTree)
    requires
        !contains_in(s, e.id),
    ensures
        ({
            let s1 = insert_in(s, target, pos, e).0;
            let (s2, r) = remove_in(s1, e.id);
            &&& s2 == s
            &&& (r == Some(e) || (r is None && s1 == s))
        }),
    decreases s,
{
    if s.len() > 0 {
        let c = s[0];
        let rest = s.drop_first();
        assert(seq![c] + rest =~= s);
        let (c1, found) = insert_tree(c, target, pos, e);
        law_remove_undoes_insert(c, target, pos, e);
        if found {
            let s1 = seq![c1] + rest;
            assert(s1[0] == c1);
            assert(s1.drop_first() =~= rest);
            if remove_tree(c1, e.id).1 is None {
                lemma_remove_in_absent(rest, e.id);
            }
        } else {
            lemma_insert_not_found(c, target, pos, e);
            lemma_remove_absent(c, e.id);
            law_remove_undoes_insert_in(rest, target, pos, e);
            let rest1 = insert_in(rest, target, pos, e).0;
            let s1 = seq![c] + rest1;
            assert(s1[0] == c);
            assert(s1.drop_first() =~= rest1);
        }
    }
}

/// The ids of all nodes of a tree, each as often as it occurs.
pub open spec fn node_ids(t: ItemTree) -> Multiset<u128>
    decreases t,
{
    Multiset::singleton(t.id).add(node_ids_in(t.children))
}

/// The ids of all nodes of a sequence of trees.
pub open spec fn node_ids_in(s: Seq<ItemTree>) -> Multiset<u128>
    decreases s,
{
    if s.len() == 0 {
        Multiset::empty()
    } else {
        node_ids(s[0]).add(node_ids_in(s.drop_first()))
    }
}

proof fn lemma_node_ids_concat(a: Seq<ItemTree>, b: Seq<ItemTree>)
    ensures
        node_ids_in(a + b) == node_ids_in(a).add(node_ids_in(b)),
    decreases a.len(),
{
    broadcast use vstd::multiset::group_multiset_axioms;

    if a.len() == 0 {
        assert(a + b =~= b);
        assert(node_ids_in(a).add(node_ids_in(b)) =~= node_ids_in(b));
    } else {
        lemma_node_ids_concat(a.drop_first(), b);
        assert((a + b).drop_first() =~= a.drop_first() + b);
        assert((a + b)[0] == a[0]);
        assert(node_ids_in(a + b) =~= node_ids_in(a).add(node_ids_in(b)));
    }
}

proof fn lemma_node_ids_single(t: ItemTree)
    ensures
        node_ids_in(seq![t]) == node_ids(t),
{
    broadcast use vstd::multiset::group_multiset_axioms;

    assert(seq![t].drop_first() =~= Seq::<ItemTree>::empty());
    assert(seq![t][0] == t);
    assert(node_ids_in(Seq::<ItemTree>::empty()) == Multiset::<u128>::empty());
    assert(node_ids_in(seq![t]) =~= node_ids(t));
}

/// Removing the child at `k` takes exactly its nodes out.
proof fn lemma_node_ids_remove(s: Seq<ItemTree>, k: int)
    requires
        0 <= k < s.len(),
    ensures
        node_ids_in(s) == node_ids_in(s.remove(k)).add(node_ids(s[k])),
{
    broadcast use vstd::multiset::group_multiset_axioms;

    let a = s.take(k);
    let b = s.skip(k + 1);
    assert(s =~= a + (seq![s[k]] + b));
    assert(s.remove(k) =~= a + b);
    lemma_node_ids_concat(a, seq![s[k]] + b);
    lemma_node_ids_concat(seq![s[k]], b);
    lemma_node_ids_concat(a, b);
    lemma_node_ids_single(s[k]);
    assert(node_ids_in(s) =~= node_ids_in(s.remove(k)).add(node_ids(s[k])));
}

/// Inserting a child at `k` brings exactly its nodes in.
proof fn lemma_node_ids_insert(s: Seq<ItemTree>, k: int, e: ItemTree)
    requires
        0 <= k <= s.len(),
    ensures
        node_ids_in(s.insert(k, e)) == node_ids_in(s).add(node_ids(e)),
{
    broadcast use vstd::multiset::group_multiset_axioms;

    let a = s.take(k);
    let b = s.skip(k);
    assert(s =~= a + b);
    assert(s.insert(k, e) =~= a + (seq![e] + b));
    lemma_node_ids_concat(a, seq![e] + b);
    lemma_node_ids_concat(seq![e], b);
    lemma_node_ids_concat(a, b);
    lemma_node_ids_single(e);
    assert(node_ids_in(s.insert(k, e)) =~= node_ids_in(s).add(node_ids(e)));
}

proof fn lemma_remove_ids(t: ItemTree, id: u128)
    ensures
        remove_tree(t, id).1 matches Some(r) ==> node_ids(t) == node_ids(remove_tree(t, id).0).add(node_ids(r)),
    decreases t,
{
    broadcast use vstd::multiset::group_multiset_axioms;

    if t.kind != ItemKind::Cell {
        let cs = t.children;
        match first_index(tree_ids(cs), id) {
            Some(k) => {
                assert(is_first_index(tree_ids(cs), id, k));
                lemma_node_ids_remove(cs, k);
                assert(node_ids(t) =~= node_ids(with_children(t, cs.remove(k))).add(node_ids(cs[k])));
            },
            None => {
                lemma_remove_in_ids(cs, id);
                let (cs2, r) = remove_in(cs, id);
                if let Some(x) = r {
                    assert(node_ids(t) =~= node_ids(with_children(t, cs2)).add(node_ids(x)));
                }
            },
        }
    }
}

proof fn lemma_remove_in_ids(s: Seq<ItemTree>, id: u128)
    ensures
        remove_in(s, id).1 matches Some(r) ==> node_ids_in(s) == node_ids_in(remove_in(s, id).0).add(node_ids(r)),
    decreases s,
{
    broadcast use vstd::multiset::group_multiset_axioms;

    if s.len() > 0 {
        let rest = s.drop_first();
        let (c, r) = remove_tree(s[0], id);
        lemma_remove_ids(s[0], id);
        lemma_node_ids_single(c);
        if let Some(x) = r {
            lemma_node_ids_concat(seq![c], rest);
            assert(node_ids_in(s) =~= node_ids_in(seq![c] + rest).add(node_ids(x)));
        } else {
            lemma_remove_in_ids(rest, id);
            let (rest2, r2) = remove_in(rest, id);
            lemma_node_ids_single(s[0]);
            lemma_node_ids_concat(seq![s[0]], rest2);
            if let Some(x) = r2 {
                assert(node_ids_in(s) =~= node_ids_in(seq![s[0]] + rest2).add(node_ids(x)));
            }
        }
    }
}

proof fn lemma_insert_ids(t: ItemTree, target: u128, pos: DropPosition, e: ItemTree)
    ensures
        insert_tree(t, target, pos, e).0 == t
            || node_ids(insert_tree(t, target, pos, e).0) == node_ids(t).add(node_ids(e)),
    decreases t,
{
    broadcast use vstd::multiset::group_multiset_axioms;

    let cs = t.children;
    if t.id == target {
        if t.kind != ItemKind::Cell {
            let k = insertion_index(tree_ids(cs), pos);
            crate::drop_position::lemma_insertion_index_bounds(tree_ids(cs), pos);
            lemma_node_ids_insert(cs, k, e);
            assert(node_ids(insert_tree(t, target, pos, e).0) =~= node_ids(t).add(node_ids(e)));
        }
    } else if t.kind != ItemKind::Cell {
        lemma_insert_in_ids(cs, target, pos, e);
        let cs1 = insert_in(cs, target, pos, e).0;
        if cs1 == cs {
            assert(t == with_children(t, cs));
        } else {
            assert(node_ids(insert_tree(t, target, pos, e).0) =~= node_ids(t).add(node_ids(e)));
        }
    }
}

proof fn lemma_insert_in_ids(s: Seq<ItemTree>, target: u128, pos: DropPosition, e: ItemTree)
    ensures
        insert_in(s, target, pos, e).0 == s
            || node_ids_in(insert_in(s, target, pos, e).0) == node_ids_in(s).add(node_ids(e)),
    decreases s,
{
    broadcast use vstd::multiset::group_multiset_axioms;

    if s.len() > 0 {
        let rest = s.drop_first();
        assert(seq![s[0]] + rest =~= s);
        let (c, found) = insert_tree(s[0], target, pos, e);
        lemma_insert_ids(s[0], target, pos, e);
        lemma_node_ids_single(s[0]);
        lemma_node_ids_concat(seq![s[0]], rest);
        if found {
            lemma_node_ids_single(c);
            lemma_node_ids_concat(seq![c], rest);
            if c != s[0] {
                assert(node_ids_in(seq![c] + rest) =~= node_ids_in(s).add(node_ids(e)));
            }
        } else {
            lemma_insert_in_ids(rest, target, pos, e);
            let rest1 = insert_in(rest, target, pos, e).0;
            lemma_node_ids_concat(seq![s[0]], rest1);
            if rest1 != rest {
                assert(node_ids_in(seq![s[0]] + rest1) =~= node_ids_in(s).add(node_ids(e)));
            }
        }
    }
}

/// A move keeps every node of the tree: the item that is taken out comes
/// back with all its nodes, unless nothing takes it (no node `target` in
/// what is left, or a cell there), in which case exactly the moved item's
/// nodes leave the tree. A move of an id that is not a child anywhere
/// changes nothing.
pub proof fn law_move_keeps_nodes(t: ItemTree, source: u128, target: u128, pos: DropPosition)
    ensures
        ({
            let (rest, removed) = remove_tree(t, source);
            match removed {
                Some(e) => {
                    let t1 = insert_tree(rest, target, pos, e).0;
                    ||| node_ids(t1) == node_ids(t)
                    ||| (t1 == rest && node_ids(t) == node_ids(rest).add(node_ids(e)))
                },
                None => rest == t,
            }
        }),
{
    broadcast use vstd::multiset::group_multiset_axioms;

    lemma_remove_none(t, source);
    lemma_remove_ids(t, source);
    let (rest, removed) = remove_tree(t, source);
    if let Some(e) = removed {
        lemma_insert_ids(rest, target, pos, e);
    }
}

/// No id occurs twice among the nodes of `t`.
pub open spec fn distinct_tree(t: ItemTree) -> bool
    decreases t,
{
    &&& !contains_in(t.children, t.id)
    &&& disjoint_seq(t.children)
    &&& distinct_in(t.children)
}

/// No id occurs in two different trees of `s`.
pub open spec fn disjoint_seq(s: Seq<ItemTree>) -> bool {
    forall|i: int, j: int, id: u128|
        0 <= i < j < s.len() && #[trigger] contains_id(s[i], id) ==> !#[trigger] contains_id(s[j], id)
}

/// No id occurs twice within any tree of `s`.
pub open spec fn distinct_in(s: Seq<ItemTree>) -> bool
    decreases s,
{
    s.len() == 0 || (distinct_tree(s[0]) && distinct_in(s.drop_first()))
}

/// In `t`, the item `x` is a child of the node `p`, at the place among
/// `p`'s children that `pos` describes. Like removing and inserting, this
/// looks at no node inside a cell.
pub open spec fn child_sits_at(t: ItemTree, p: u128, x: u128, pos: DropPosition) -> bool
    decreases t,
{
    &&& t.kind != ItemKind::Cell
    &&& {
        ||| (t.id == p && exists|k: int| #[trigger] sits_at(tree_ids(t.children), k, pos) && t.children[k].id == x)
        ||| child_sits_in(t.children, p, x, pos)
    }
}

/// `child_sits_at` holds of some tree of `s`.
pub open spec fn child_sits_in(s: Seq<ItemTree>, p: u128, x: u128, pos: DropPosition) -> bool
    decreases s,
{
    s.len() > 0 && (child_sits_at(s[0], p, x, pos) || child_sits_in(s.drop_first(), p, x, pos))
}

proof fn lemma_distinct_in(s: Seq<ItemTree>, i: int)
    requires
        distinct_in(s),
        0 <= i < s.len(),
    ensures
        distinct_tree(s[i]),
    decreases s.len(),
{
    if i > 0 {
        lemma_distinct_in(s.drop_first(), i - 1);
    }
}

proof fn lemma_child_sits_in(s: Seq<ItemTree>, p: u128, x: u128, pos: DropPosition)
    requires
        child_sits_in(s, p, x, pos),
    ensures
        exists|i: int| 0 <= i < s.len() && #[trigger] child_sits_at(s[i], p, x, pos),
    decreases s.len(),
{
    if !child_sits_at(s[0], p, x, pos) {
        lemma_child_sits_in(s.drop_first(), p, x, pos);
        let i = choose|i: int| 0 <= i < s.len() - 1 && #[trigger] child_sits_at(s.drop_first()[i], p, x, pos);
        assert(s.drop_first()[i] == s[i + 1]);
    } else {
        assert(child_sits_at(s[0], p, x, pos));
    }
}

proof fn lemma_child_sits_contains(t: ItemTree, p: u128, x: u128, pos: DropPosition)
    requires
        child_sits_at(t, p, x, pos),
    ensures
        contains_id(t, p),
        contains_in(t.children, x),
    decreases t,
{
    let cs = t.children;
    lemma_contains_in(cs, x);
    lemma_contains_in(cs, p);
    if t.id == p && exists|k: int| #[trigger] sits_at(tree_ids(cs), k, pos) && cs[k].id == x {
        let k = choose|k: int| #[trigger] sits_at(tree_ids(cs), k, pos) && cs[k].id == x;
        assert(contains_id(cs[k], x));
    } else {
        lemma_child_sits_in(cs, p, x, pos);
        let i = choose|i: int| 0 <= i < cs.len() && #[trigger] child_sits_at(cs[i], p, x, pos);
        lemma_child_sits_contains(cs[i], p, x, pos);
        assert(contains_id(cs[i], x));
        assert(contains_id(cs[i], p));
    }
}

proof fn lemma_insert_absent(t: ItemTree, target: u128, pos: DropPosition, e: ItemTree)
    requires
        !contains_id(t, target),
    ensures
        !insert_tree(t, target, pos, e).1,
    decreases t,
{
    if t.kind != ItemKind::Cell {
        lemma_insert_in_absent(t.children, target, pos, e);
    }
}

proof fn lemma_insert_in_absent(s: Seq<ItemTree>, target: u128, pos: DropPosition, e: ItemTree)
    requires
        !contains_in(s, target),
    ensures
        !insert_in(s, target, pos, e).1,
    decreases s,
{
    if s.len() > 0 {
        lemma_insert_absent(s[0], target, pos, e);
        lemma_insert_in_absent(s.drop_first(), target, pos, e);
    }
}

/// Two different children of a node without repeated ids share no id.
proof fn lemma_children_disjoint(t: ItemTree, i: int, j: int, id: u128)
    requires
        distinct_tree(t),
        0 <= i < t.children.len(),
        0 <= j < t.children.len(),
        i != j,
        contains_id(t.children[i], id),
    ensures
        !contains_id(t.children[j], id),
{
    if i > j && contains_id(t.children[j], id) {
        assert(!contains_id(t.children[i], id));
    }
}

/// A remove is undone by inserting the removed item where it was: when no
/// id occurs twice in `t` and `x` sits among the children of `p` at the
/// place `pos` describes (first, last, right after or right before a
/// sibling), removing `x` takes it out, and inserting it below `p` at
/// `pos` gives back `t`.
pub proof fn law_insert_undoes_remove(t: ItemTree, p: u128, x: u128, pos: DropPosition)
    requires
        distinct_tree(t),
        child_sits_at(t, p, x, pos),
    ensures
        ({
            let (rest, removed) = remove_tree(t, x);
            &&& removed is Some
            &&& insert_tree(rest, p, pos, removed.unwrap()) == (t, true)
        }),
    decreases t,
{
    let cs = t.children;
    if t.id == p {
        if child_sits_in(cs, p, x, pos) {
            lemma_child_sits_in(cs, p, x, pos);
            let i = choose|i: int| 0 <= i < cs.len() && #[trigger] child_sits_at(cs[i], p, x, pos);
            lemma_child_sits_contains(cs[i], p, x, pos);
            lemma_contains_in(cs, p);
            assert(false);
        }
        let k = choose|k: int| #[trigger] sits_at(tree_ids(cs), k, pos) && cs[k].id == x;
        let ids = tree_ids(cs);
        assert(ids_distinct(ids)) by {
            assert forall|a: int, b: int| 0 <= a < b < ids.len() implies ids[a] != ids[b] by {
                assert(contains_id(cs[a], cs[a].id));
                if ids[a] == ids[b] {
                    assert(contains_id(cs[b], cs[a].id));
                    lemma_children_disjoint(t, a, b, cs[a].id);
                }
            }
        }
        assert(ids[k] == x);
        assert forall|j: int| 0 <= j < k implies ids[j] != x by {
            assert(ids[j] != ids[k]);
        }
        assert(is_first_index(ids, x, k));
        crate::drop_position::lemma_first_index_unique(ids, x, k);
        assert(tree_ids(cs.remove(k)) =~= ids.remove(k));
        crate::drop_position::lemma_insertion_index_of_removed(ids, k, pos);
        assert(cs.remove(k).insert(k, cs[k]) =~= cs);
        assert(t == with_children(t, cs));
    } else {
        lemma_child_sits_in(cs, p, x, pos);
        let i = choose|i: int| 0 <= i < cs.len() && #[trigger] child_sits_at(cs[i], p, x, pos);
        let c = cs[i];
        lemma_child_sits_contains(c, p, x, pos);
        assert(contains_id(c, x));
        lemma_distinct_in(cs, i);
        law_insert_undoes_remove(c, p, x, pos);
        let (rest_c, removed) = remove_tree(c, x);
        let e = removed.unwrap();

        // `x` is no direct child of `t`.
        if exists|m: int| is_first_index(tree_ids(cs), x, m) {
            let m = choose|m: int| is_first_index(tree_ids(cs), x, m);
            assert(cs[m].id == x);
            assert(contains_id(cs[m], x));
            if m == i {
                assert(contains_in(c.children, c.id));
            } else {
                lemma_children_disjoint(t, i, m, x);
            }
        }
        assert(first_index(tree_ids(cs), x) is None);

        // Removing reaches child `i` first.
        assert forall|j: int| 0 <= j < i implies (#[trigger] remove_tree(cs[j], x)).1 is None by {
            lemma_children_disjoint(t, i, j, x);
            lemma_remove_absent(cs[j], x);
        }
        lemma_remove_in_skip(cs, x, i);
        let sk = cs.skip(i);
        assert(sk[0] == c);
        assert(sk.drop_first() =~= cs.skip(i + 1));
        let cs2 = cs.take(i) + (seq![rest_c] + cs.skip(i + 1));
        assert(remove_in(cs, x) == (cs2, Some(e)));
        assert(remove_tree(t, x) == (with_children(t, cs2), Some(e)));

        // Inserting reaches child `i` first as well.
        assert forall|j: int| 0 <= j < i implies !(#[trigger] insert_tree(cs2[j], p, pos, e)).1 by {
            assert(cs2[j] == cs[j]);
            lemma_children_disjoint(t, i, j, p);
            lemma_insert_absent(cs[j], p, pos, e);
        }
        lemma_insert_in_skip(cs2, p, pos, e, i);
        let sk2 = cs2.skip(i);
        assert(sk2 =~= seq![rest_c] + cs.skip(i + 1));
        assert(sk2[0] == rest_c);
        assert(sk2.drop_first() =~= cs.skip(i + 1));
        assert(insert_in(sk2, p, pos, e) == (seq![c] + cs.skip(i + 1), true));
        assert(cs2.take(i) =~= cs.take(i));
        assert(cs.take(i) + (seq![c] + cs.skip(i + 1)) =~= cs);
        assert(t == with_children(t, cs));
    }
}

/// The name of a graphic was edited to `new_name`: the root item of its
/// tree is renamed with it, so the two names stay the same.
pub fn rename_graphic(graphic_name: &mut String, root_name: &mut String, new_name: String)
    ensures
        final(graphic_name)@ == new_name@,
        final(root_name)@ == new_name@,
{
    *root_name = new_name.clone();
    *graphic_name = new_name;
}

/// The root item of a graphic was edited: the graphic takes the root's
/// name, so the two names stay the same.
pub fn follow_root_name(graphic_name: &mut String, root_name: &String)
    ensures
        final(graphic_name)@ == root_name@,
{
    *graphic_name = root_name.clone();
}

/// Cells hold no items, anywhere in `t`.
pub open spec fn cells_are_leaves(t: ItemTree) -> bool
    decreases t,
{
    &&& (t.kind == ItemKind::Cell ==> t.children.len() == 0)
    &&& cells_are_leaves_in(t.children)
}

/// Cells hold no items, anywhere in the trees of `s`.
pub open spec fn cells_are_leaves_in(s: Seq<ItemTree>) -> bool
    decreases s,
{
    s.len() == 0 || (cells_are_leaves(s[0]) && cells_are_leaves_in(s.drop_first()))
}

proof fn lemma_leaves_all(s: Seq<ItemTree>)
    ensures
        cells_are_leaves_in(s) <==> forall|i: int| 0 <= i < s.len() ==> #[trigger] cells_are_leaves(s[i]),
    decreases s.len(),
{
    if s.len() > 0 {
        let r = s.drop_first();
        lemma_leaves_all(r);
        if forall|i: int| 0 <= i < s.len() ==> #[trigger] cells_are_leaves(s[i]) {
            assert forall|i: int| 0 <= i < r.len() implies #[trigger] cells_are_leaves(r[i]) by {
                assert(r[i] == s[i + 1]);
            }
            assert(cells_are_leaves(s[0]));
            assert(cells_are_leaves_in(s));
        }
        if cells_are_leaves_in(s) {
            assert forall|i: int| 0 <= i < s.len() implies #[trigger] cells_are_leaves(s[i]) by {
                if i > 0 {
                    assert(s[i] == r[i - 1]);
                }
            }
        }
    }
}

proof fn lemma_leaves_cons(a: ItemTree, b: Seq<ItemTree>)
    ensures
        cells_are_leaves_in(seq![a] + b) <==> cells_are_leaves(a) && cells_are_leaves_in(b),
{
    assert((seq![a] + b)[0] == a);
    assert((seq![a] + b).drop_first() =~= b);
}

proof fn lemma_remove_keeps_leaves(t: ItemTree, x: u128)
    requires
        cells_are_leaves(t),
    ensures
        cells_are_leaves(remove_tree(t, x).0),
        remove_tree(t, x).1 matches Some(e) ==> cells_are_leaves(e),
    decreases t,
{
    if t.kind != ItemKind::Cell {
        let cs = t.children;
        lemma_leaves_all(cs);
        match first_index(tree_ids(cs), x) {
            Some(k) => {
                assert(is_first_index(tree_ids(cs), x, k));
                let cs2 = cs.remove(k);
                assert(cells_are_leaves(cs[k]));
                assert forall|i: int| 0 <= i < cs2.len() implies #[trigger] cells_are_leaves(cs2[i]) by {
                    if i < k {
                        assert(cs2[i] == cs[i]);
                    } else {
                        assert(cs2[i] == cs[i + 1]);
                    }
                }
                lemma_leaves_all(cs2);
            },
            None => {
                lemma_remove_in_keeps_leaves(cs, x);
            },
        }
    }
}

proof fn lemma_remove_in_keeps_leaves(s: Seq<ItemTree>, x: u128)
    requires
        cells_are_leaves_in(s),
    ensures
        cells_are_leaves_in(remove_in(s, x).0),
        remove_in(s, x).1 matches Some(e) ==> cells_are_leaves(e),
    decreases s,
{
    if s.len() > 0 {
        let rest = s.drop_first();
        let (c, r) = remove_tree(s[0], x);
        lemma_remove_keeps_leaves(s[0], x);
        if r is Some {
            lemma_leaves_cons(c, rest);
        } else {
            lemma_remove_in_keeps_leaves(rest, x);
            lemma_leaves_cons(s[0], remove_in(rest, x).0);
        }
    }
}

proof fn lemma_insert_keeps_leaves(t: ItemTree, target: u128, pos: DropPosition, e: ItemTree)
    requires
        cells_are_leaves(t),
        cells_are_leaves(e),
    ensures
        cells_are_leaves(insert_tree(t, target, pos, e).0),
    decreases t,
{
    let cs = t.children;
    if t.id == target {
        if t.kind != ItemKind::Cell {
            let k = insertion_index(tree_ids(cs), pos);
            crate::drop_position::lemma_insertion_index_bounds(tree_ids(cs), pos);
            let cs2 = cs.insert(k, e);
            lemma_leaves_all(cs);
            assert forall|i: int| 0 <= i < cs2.len() implies #[trigger] cells_are_leaves(cs2[i]) by {
                if i < k {
                    assert(cs2[i] == cs[i]);
                } else if i > k {
                    assert(cs2[i] == cs[i - 1]);
                }
            }
            lemma_leaves_all(cs2);
        }
    } else if t.kind != ItemKind::Cell {
        lemma_insert_in_keeps_leaves(cs, target, pos, e);
    }
}

proof fn lemma_insert_in_keeps_leaves(s: Seq<ItemTree>, target: u128, pos: DropPosition, e: ItemTree)
    requires
        cells_are_leaves_in(s),
        cells_are_leaves(e),
    ensures
        cells_are_leaves_in(insert_in(s, target, pos, e).0),
    decreases s,
{
    if s.len() > 0 {
        let rest = s.drop_first();
        let (c, found) = insert_tree(s[0], target, pos, e);
        lemma_insert_keeps_leaves(s[0], target, pos, e);
        if found {
            lemma_leaves_cons(c, rest);
        } else {
            lemma_insert_in_keeps_leaves(rest, target, pos, e);
            lemma_leaves_cons(s[0], insert_in(rest, target, pos, e).0);
        }
    }
}

/// Removing, inserting and moving keep a graphic well formed: when cells
/// hold no items in `t` (and in the inserted item `e`), they hold none
/// after removing `x` (nor in the removed item), after inserting `e`, and
/// after moving `source`.
pub proof fn law_edits_keep_cells_leaves(t: ItemTree, x: u128, target: u128, pos: DropPosition, e: ItemTree)
    requires
        cells_are_leaves(t),
        cells_are_leaves(e),
    ensures
        cells_are_leaves(remove_tree(t, x).0),
        remove_tree(t, x).1 matches Some(r) ==> cells_are_leaves(r),
        cells_are_leaves(insert_tree(t, target, pos, e).0),
        remove_tree(t, x).1 matches Some(r) ==> cells_are_leaves(insert_tree(remove_tree(t, x).0, target, pos, r).0),
{
    lemma_remove_keeps_leaves(t, x);
    lemma_insert_keeps_leaves(t, target, pos, e);
    if let Some(r) = remove_tree(t, x).1 {
        lemma_insert_keeps_leaves(remove_tree(t, x).0, target, pos, r);
    }
}

/// The node `target` is one that removing and inserting reach: a node
/// that is no cell, not inside a cell.
pub open spec fn holds_node(t: ItemTree, target: u128) -> bool
    decreases t,
{
    &&& t.kind != ItemKind::Cell
    &&& (t.id == target || holds_node_in(t.children, target))
}

/// `holds_node` holds of some tree of `s`.
pub open spec fn holds_node_in(s: Seq<ItemTree>, target: u128) -> bool
    decreases s,
{
    s.len() > 0 && (holds_node(s[0], target) || holds_node_in(s.drop_first(), target))
}

proof fn lemma_holds_node_in(s: Seq<ItemTree>, target: u128)
    requires
        holds_node_in(s, target),
    ensures
        exists|i: int| 0 <= i < s.len() && #[trigger] holds_node(s[i], target),
    decreases s.len(),
{
    if !holds_node(s[0], target) {
        lemma_holds_node_in(s.drop_first(), target);
        let i = choose|i: int| 0 <= i < s.len() - 1 && #[trigger] holds_node(s.drop_first()[i], target);
        assert(s.drop_first()[i] == s[i + 1]);
    } else {
        assert(holds_node(s[0], target));
    }
}

proof fn lemma_holds_contains(t: ItemTree, target: u128)
    requires
        holds_node(t, target),
    ensures
        contains_id(t, target),
    decreases t,
{
    if t.id != target {
        lemma_holds_node_in(t.children, target);
        let i = choose|i: int| 0 <= i < t.children.len() && #[trigger] holds_node(t.children[i], target);
        lemma_holds_contains(t.children[i], target);
        lemma_contains_in(t.children, target);
    }
}

/// With no id twice, an item inserted below a node that the search
/// reaches is placed, and brings exactly its own nodes.
proof fn lemma_insert_into_held(t: ItemTree, target: u128, pos: DropPosition, e: ItemTree)
    requires
        distinct_tree(t),
        holds_node(t, target),
    ensures
        insert_tree(t, target, pos, e).1,
        node_ids(insert_tree(t, target, pos, e).0) == node_ids(t).add(node_ids(e)),
    decreases t,
{
    broadcast use vstd::multiset::group_multiset_axioms;

    let cs = t.children;
    if t.id == target {
        let k = insertion_index(tree_ids(cs), pos);
        crate::drop_position::lemma_insertion_index_bounds(tree_ids(cs), pos);
        lemma_node_ids_insert(cs, k, e);
        assert(node_ids(insert_tree(t, target, pos, e).0) =~= node_ids(t).add(node_ids(e)));
    } else {
        lemma_holds_node_in(cs, target);
        let i = choose|i: int| 0 <= i < cs.len() && #[trigger] holds_node(cs[i], target);
        let c = cs[i];
        lemma_holds_contains(c, target);
        lemma_distinct_in(cs, i);
        lemma_insert_into_held(c, target, pos, e);
        let c1 = insert_tree(c, target, pos, e).0;
        assert forall|j: int| 0 <= j < i implies !(#[trigger] insert_tree(cs[j], target, pos, e)).1 by {
            lemma_children_disjoint(t, i, j, target);
            lemma_insert_absent(cs[j], target, pos, e);
        }
        lemma_insert_in_skip(cs, target, pos, e, i);
        let sk = cs.skip(i);
        assert(sk[0] == c);
        assert(sk.drop_first() =~= cs.skip(i + 1));
        let cs1 = cs.take(i) + (seq![c1] + cs.skip(i + 1));
        assert(insert_in(cs, target, pos, e) == (cs1, true));
        // the nodes
        assert(cs =~= cs.take(i) + (seq![c] + cs.skip(i + 1)));
        lemma_node_ids_concat(cs.take(i), seq![c] + cs.skip(i + 1));
        lemma_node_ids_concat(seq![c], cs.skip(i + 1));
        lemma_node_ids_concat(cs.take(i), seq![c1] + cs.skip(i + 1));
        lemma_node_ids_concat(seq![c1], cs.skip(i + 1));
        lemma_node_ids_single(c);
        lemma_node_ids_single(c1);
        assert(node_ids_in(cs1) =~= node_ids_in(cs).add(node_ids(e)));
        assert(node_ids(insert_tree(t, target, pos, e).0) =~= node_ids(t).add(node_ids(e)));
    }
}

proof fn lemma_distinct_all(s: Seq<ItemTree>)
    requires
        forall|i: int| 0 <= i < s.len() ==> #[trigger] distinct_tree(s[i]),
    ensures
        distinct_in(s),
    decreases s.len(),
{
    if s.len() > 0 {
        let r = s.drop_first();
        assert forall|i: int| 0 <= i < r.len() implies #[trigger] distinct_tree(r[i]) by {
            assert(r[i] == s[i + 1]);
        }
        lemma_distinct_all(r);
        assert(distinct_tree(s[0]));
    }
}

proof fn lemma_disjoint_cons(a: ItemTree, b: Seq<ItemTree>)
    ensures
        disjoint_seq(seq![a] + b) <==> (disjoint_seq(b) && forall|id: u128| #[trigger] contains_id(a, id) ==> !contains_in(b, id)),
{
    let s = seq![a] + b;
    assert(s[0] == a);
    assert forall|k: int| 0 <= k < b.len() implies s[k + 1] == b[k] by {}
    if disjoint_seq(s) {
        assert forall|i: int, j: int, id: u128|
            0 <= i < j < b.len() && #[trigger] contains_id(b[i], id) implies !#[trigger] contains_id(b[j], id) by {
            assert(s[i + 1] == b[i]);
            assert(s[j + 1] == b[j]);
            assert(contains_id(s[i + 1], id));
        }
        assert forall|id: u128| #[trigger] contains_id(a, id) implies !contains_in(b, id) by {
            lemma_contains_in(b, id);
            if contains_in(b, id) {
                let k = choose|k: int| 0 <= k < b.len() && #[trigger] contains_id(b[k], id);
                assert(s[k + 1] == b[k]);
                assert(contains_id(s[0], id));
            }
        }
    }
    if disjoint_seq(b) && forall|id: u128| #[trigger] contains_id(a, id) ==> !contains_in(b, id) {
        assert forall|i: int, j: int, id: u128|
            0 <= i < j < s.len() && #[trigger] contains_id(s[i], id) implies !#[trigger] contains_id(s[j], id) by {
            assert(s[j] == b[j - 1]);
            if i == 0 {
                lemma_contains_in(b, id);
                if contains_id(s[j], id) {
                    assert(contains_id(b[j - 1], id));
                }
            } else {
                assert(s[i] == b[i - 1]);
            }
        }
    }
}

proof fn lemma_distinct_cons(a: ItemTree, b: Seq<ItemTree>)
    ensures
        distinct_in(seq![a] + b) <==> distinct_tree(a) && distinct_in(b),
{
    assert((seq![a] + b)[0] == a);
    assert((seq![a] + b).drop_first() =~= b);
}

/// Removing keeps ids distinct and adds no id.
proof fn lemma_remove_keeps_distinct(t: ItemTree, x: u128)
    requires
        distinct_tree(t),
    ensures
        distinct_tree(remove_tree(t, x).0),
        forall|id: u128| #[trigger] contains_id(remove_tree(t, x).0, id) ==> contains_id(t, id),
    decreases t,
{
    let cs = t.children;
    if t.kind != ItemKind::Cell {
        match first_index(tree_ids(cs), x) {
            Some(k) => {
                assert(is_first_index(tree_ids(cs), x, k));
                let cs2 = cs.remove(k);
                assert forall|i: int| 0 <= i < cs2.len() implies cs2[i] == cs[if i < k { i } else { i + 1 }] by {}
                assert forall|id: u128| #[trigger] contains_in(cs2, id) implies contains_in(cs, id) by {
                    lemma_contains_in(cs2, id);
                    lemma_contains_in(cs, id);
                    let i = choose|i: int| 0 <= i < cs2.len() && #[trigger] contains_id(cs2[i], id);
                    let m = if i < k { i } else { i + 1 };
                    assert(contains_id(cs[m], id));
                }
                assert forall|i: int, j: int, id: u128|
                    0 <= i < j < cs2.len() && #[trigger] contains_id(cs2[i], id) implies !#[trigger] contains_id(cs2[j], id) by {
                    let mi = if i < k { i } else { i + 1 };
                    let mj = if j < k { j } else { j + 1 };
                    assert(cs2[i] == cs[mi]);
                    assert(cs2[j] == cs[mj]);
                    lemma_children_disjoint(t, mi, mj, id);
                }
                assert forall|i: int| 0 <= i < cs2.len() implies #[trigger] distinct_tree(cs2[i]) by {
                    let mi = if i < k { i } else { i + 1 };
                    assert(cs2[i] == cs[mi]);
                    lemma_distinct_in(cs, mi);
                }
                lemma_distinct_all(cs2);
                assert(!contains_in(cs2, t.id));
                assert(remove_tree(t, x).0 == with_children(t, cs2));
                assert forall|id: u128| #[trigger] contains_id(remove_tree(t, x).0, id) implies contains_id(t, id) by {
                    assert(contains_id(with_children(t, cs2), id) == (t.id == id || contains_in(cs2, id)));
                }
            },
            None => {
                lemma_remove_in_keeps_distinct(cs, x);
                let cs2 = remove_in(cs, x).0;
                assert(!contains_in(cs2, t.id));
                assert(remove_tree(t, x).0 == with_children(t, cs2));
                assert forall|id: u128| #[trigger] contains_id(remove_tree(t, x).0, id) implies contains_id(t, id) by {
                    assert(contains_id(with_children(t, cs2), id) == (t.id == id || contains_in(cs2, id)));
                }
            },
        }
    }
}

proof fn lemma_remove_in_keeps_distinct(s: Seq<ItemTree>, x: u128)
    requires
        disjoint_seq(s),
        distinct_in(s),
    ensures
        disjoint_seq(remove_in(s, x).0),
        distinct_in(remove_in(s, x).0),
        forall|id: u128| #[trigger] contains_in(remove_in(s, x).0, id) ==> contains_in(s, id),
    decreases s,
{
    if s.len() > 0 {
        let a = s[0];
        let rest = s.drop_first();
        assert(s =~= seq![a] + rest);
        lemma_disjoint_cons(a, rest);
        lemma_distinct_cons(a, rest);
        let (c, r) = remove_tree(a, x);
        lemma_remove_keeps_distinct(a, x);
        if r is Some {
            let s2 = seq![c] + rest;
            lemma_disjoint_cons(c, rest);
            lemma_distinct_cons(c, rest);
            assert forall|id: u128| #[trigger] contains_in(s2, id) implies contains_in(s, id) by {
                assert(s2[0] == c);
                assert(s2.drop_first() =~= rest);
                assert(contains_in(s2, id) == (contains_id(c, id) || contains_in(rest, id)));
                if contains_id(c, id) {
                    assert(contains_id(remove_tree(a, x).0, id));
                    assert(contains_id(a, id));
                }
                assert(contains_in(s, id) == (contains_id(a, id) || contains_in(rest, id)));
            }
        } else {
            lemma_remove_in_keeps_distinct(rest, x);
            let rest2 = remove_in(rest, x).0;
            let s2 = seq![a] + rest2;
            lemma_disjoint_cons(a, rest2);
            lemma_distinct_cons(a, rest2);
            assert forall|id: u128| #[trigger] contains_in(s2, id) implies contains_in(s, id) by {
                assert(s2[0] == a);
                assert(s2.drop_first() =~= rest2);
                assert(contains_in(s2, id) == (contains_id(a, id) || contains_in(rest2, id)));
                assert(contains_in(s, id) == (contains_id(a, id) || contains_in(rest, id)));
            }
        }
    }
}

/// A move to a node that is still there keeps every node: when no id
/// occurs twice in `t`, the item `source` is taken out, and the node
/// `target` is, in what is left, a node that is no cell and not inside a
/// cell (so not inside the moved item), then the item is placed below
/// `target` and the tree has the same nodes as before.
pub proof fn law_move_to_present_target_keeps_nodes(t: ItemTree, source: u128, target: u128, pos: DropPosition)
    requires
        distinct_tree(t),
        remove_tree(t, source).1 is Some,
        holds_node(remove_tree(t, source).0, target),
    ensures
        ({
            let (rest, removed) = remove_tree(t, source);
            let (t1, placed) = insert_tree(rest, target, pos, removed.unwrap());
            &&& placed
            &&& node_ids(t1) == node_ids(t)
        }),
{
    broadcast use vstd::multiset::group_multiset_axioms;

    let (rest, removed) = remove_tree(t, source);
    lemma_remove_keeps_distinct(t, source);
    lemma_remove_ids(t, source);
    lemma_insert_into_held(rest, target, pos, removed.unwrap());
}

/// Where an item added from the context menu of an item goes: next to a
/// cell, in the cell's parent (the nil id when the cell has none); at the
/// end of the children of any other item.
pub open spec fn context_menu_target_spec(kind: ItemKind, id: u128, parent: Option<u128>) -> (u128, DropPosition) {
    if kind == ItemKind::Cell {
        (match parent { Some(p) => p, None => 0 }, DropPosition::After(id))
    } else {
        (id, DropPosition::Last)
    }
}

/// The target and position of an item added from the context menu of the
/// item `id` of kind `kind`, whose parent in the tree view is `parent`.
pub fn context_menu_target(kind: ItemKind, id: u128, parent: Option<u128>) -> (r: (u128, DropPosition))
    ensures
        r == context_menu_target_spec(kind, id, parent),
{
    match kind {
        ItemKind::Cell => (parent.unwrap_or(0), DropPosition::After(id)),
        _ => (id, DropPosition::Last),
    }
}

/// An item added from the context menu of a cell goes right after the
/// cell in its parent (the nil id without one); from the menu of any other
/// item it goes last among that item's children.
pub proof fn law_context_menu_adds_after_cells_or_into_containers(kind: ItemKind, id: u128, parent: u128)
    ensures
        kind == ItemKind::Cell ==> context_menu_target_spec(kind, id, Some(parent)) == (parent, DropPosition::After(id)),
        kind == ItemKind::Cell ==> context_menu_target_spec(kind, id, None) == (0u128, DropPosition::After(id)),
        kind != ItemKind::Cell ==> context_menu_target_spec(kind, id, Some(parent)) == (id, DropPosition::Last),
        kind != ItemKind::Cell ==> context_menu_target_spec(kind, id, None) == (id, DropPosition::Last),
{
}

} // verus!
