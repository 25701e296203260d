use timing_tower::drop_position::DropPosition;
use timing_tower::graphic_tree::{
    context_menu_target, follow_root_name, insert_element, move_element, remove_element,
    rename_graphic, GraphicItem, ItemKind,
};

fn cell(id: u128) -> GraphicItem {
    GraphicItem { id, kind: ItemKind::Cell, items: Vec::new() }
}

fn node(id: u128, kind: ItemKind, items: Vec<GraphicItem>) -> GraphicItem {
    GraphicItem { id, kind, items }
}

/// Root 1 holds cell 2, clip area 3 (with cells 4 and 5) and cell 6.
fn sample() -> GraphicItem {
    node(
        1,
        ItemKind::Root,
        vec![cell(2), node(3, ItemKind::ClipArea, vec![cell(4), cell(5)]), cell(6)],
    )
}

fn ids(items: &Vec<GraphicItem>) -> Vec<u128> {
    items.iter().map(|i| i.id).collect()
}

#[test]
fn remove_direct_child() {
    let mut root = sample();
    let removed = remove_element(&mut root, 6).expect("cell 6 is a child of the root");
    assert_eq!(removed.id, 6);
    assert_eq!(ids(&root.items), vec![2, 3]);
}

#[test]
fn remove_nested_child_keeps_its_subtree_out() {
    let mut root = sample();
    let removed = remove_element(&mut root, 5).expect("cell 5 is in the clip area");
    assert_eq!(removed.id, 5);
    assert_eq!(ids(&root.items), vec![2, 3, 6]);
    assert_eq!(ids(&root.items[1].items), vec![4]);
}

#[test]
fn remove_subtree_returns_it_whole() {
    let mut root = sample();
    let removed = remove_element(&mut root, 3).expect("clip area 3 is a child of the root");
    assert_eq!(removed.kind, ItemKind::ClipArea);
    assert_eq!(ids(&removed.items), vec![4, 5]);
    assert_eq!(ids(&root.items), vec![2, 6]);
}

#[test]
fn remove_unknown_id_changes_nothing() {
    let mut root = sample();
    assert!(remove_element(&mut root, 99).is_none());
    assert_eq!(ids(&root.items), vec![2, 3, 6]);
    assert_eq!(ids(&root.items[1].items), vec![4, 5]);
}

#[test]
fn remove_root_itself_is_not_possible() {
    let mut root = sample();
    assert!(remove_element(&mut root, 1).is_none());
    assert_eq!(ids(&root.items), vec![2, 3, 6]);
}

#[test]
fn insert_first_last_before_after() {
    let mut root = sample();
    insert_element(&mut root, 1, DropPosition::First, cell(10));
    assert_eq!(ids(&root.items), vec![10, 2, 3, 6]);
    insert_element(&mut root, 1, DropPosition::Last, cell(11));
    assert_eq!(ids(&root.items), vec![10, 2, 3, 6, 11]);
    insert_element(&mut root, 1, DropPosition::Before(3), cell(12));
    assert_eq!(ids(&root.items), vec![10, 2, 12, 3, 6, 11]);
    insert_element(&mut root, 1, DropPosition::After(3), cell(13));
    assert_eq!(ids(&root.items), vec![10, 2, 12, 3, 13, 6, 11]);
}

#[test]
fn insert_next_to_unknown_id_goes_last() {
    let mut root = sample();
    insert_element(&mut root, 3, DropPosition::After(77), cell(14));
    assert_eq!(ids(&root.items[1].items), vec![4, 5, 14]);
    insert_element(&mut root, 3, DropPosition::Before(78), cell(15));
    assert_eq!(ids(&root.items[1].items), vec![4, 5, 14, 15]);
}

#[test]
fn insert_into_cell_or_unknown_target_drops_the_element() {
    let mut root = sample();
    insert_element(&mut root, 4, DropPosition::Last, cell(16));
    insert_element(&mut root, 42, DropPosition::Last, cell(17));
    assert_eq!(ids(&root.items), vec![2, 3, 6]);
    assert_eq!(ids(&root.items[1].items), vec![4, 5]);
    assert!(root.items[1].items[0].items.is_empty());
}

#[test]
fn move_into_clip_area() {
    let mut root = sample();
    assert!(move_element(&mut root, 2, 3, DropPosition::First));
    assert_eq!(ids(&root.items), vec![3, 6]);
    assert_eq!(ids(&root.items[0].items), vec![2, 4, 5]);
}

#[test]
fn move_out_of_clip_area_after_a_sibling() {
    let mut root = sample();
    assert!(move_element(&mut root, 4, 1, DropPosition::After(6)));
    assert_eq!(ids(&root.items), vec![2, 3, 6, 4]);
    assert_eq!(ids(&root.items[1].items), vec![5]);
}

#[test]
fn move_unknown_source_changes_nothing() {
    let mut root = sample();
    assert!(!move_element(&mut root, 50, 1, DropPosition::First));
    assert_eq!(ids(&root.items), vec![2, 3, 6]);
}

#[test]
fn move_to_missing_target_loses_the_item() {
    let mut root = sample();
    assert!(move_element(&mut root, 6, 60, DropPosition::Last));
    assert_eq!(ids(&root.items), vec![2, 3]);
}

#[test]
fn remove_undoes_insert_on_a_sample_tree() {
    let mut root = sample();
    insert_element(&mut root, 3, DropPosition::Before(5), node(20, ItemKind::DriverTable, vec![cell(21)]));
    assert_eq!(ids(&root.items[1].items), vec![4, 20, 5]);
    let removed = remove_element(&mut root, 20).expect("just inserted");
    assert_eq!(removed.id, 20);
    assert_eq!(ids(&removed.items), vec![21]);
    assert_eq!(ids(&root.items), vec![2, 3, 6]);
    assert_eq!(ids(&root.items[1].items), vec![4, 5]);
}

#[test]
fn context_menu_of_cell_adds_next_to_it() {
    assert_eq!(context_menu_target(ItemKind::Cell, 5, Some(3)), (3, DropPosition::After(5)));
    assert_eq!(context_menu_target(ItemKind::Cell, 5, None), (0, DropPosition::After(5)));
}

#[test]
fn context_menu_of_container_adds_at_its_end() {
    for kind in [ItemKind::Root, ItemKind::ClipArea, ItemKind::DriverTable, ItemKind::EntryContext] {
        assert_eq!(context_menu_target(kind, 8, Some(1)), (8, DropPosition::Last));
    }
}

#[test]
fn insert_undoes_remove_at_each_place() {
    let original = sample();
    let cases = [
        (4, 3, DropPosition::First),
        (5, 3, DropPosition::Last),
        (5, 3, DropPosition::After(4)),
        (4, 3, DropPosition::Before(5)),
        (3, 1, DropPosition::After(2)),
        (2, 1, DropPosition::First),
        (6, 1, DropPosition::Last),
    ];
    for (x, p, pos) in cases {
        let mut g = sample();
        let e = remove_element(&mut g, x).expect("x is a child");
        insert_element(&mut g, p, pos, e);
        assert_eq!(ids(&g.items), ids(&original.items));
        assert_eq!(ids(&g.items[1].items), ids(&original.items[1].items));
    }
}

#[test]
fn graphic_and_root_names_stay_the_same() {
    let mut name = String::from("Tower");
    let mut root = String::from("Tower");
    rename_graphic(&mut name, &mut root, String::from("Leaderboard"));
    assert_eq!(name, "Leaderboard");
    assert_eq!(root, "Leaderboard");
    let edited_root = String::from("Gaps");
    follow_root_name(&mut name, &edited_root);
    assert_eq!(name, "Gaps");
}

fn all_ids(item: &GraphicItem, out: &mut Vec<u128>) {
    out.push(item.id);
    for child in &item.items {
        all_ids(child, out);
    }
}

#[test]
fn move_to_present_target_keeps_every_node() {
    for (source, target, pos) in [
        (2, 3, DropPosition::Last),
        (4, 1, DropPosition::First),
        (3, 1, DropPosition::After(6)),
        (5, 3, DropPosition::Before(4)),
    ] {
        let mut root = sample();
        let mut before = Vec::new();
        all_ids(&root, &mut before);
        assert!(move_element(&mut root, source, target, pos));
        let mut after = Vec::new();
        all_ids(&root, &mut after);
        before.sort();
        after.sort();
        assert_eq!(before, after);
    }
}

#[test]
fn only_cells_show_as_leaves() {
    assert!(!ItemKind::Cell.shows_as_directory());
    assert!(ItemKind::Root.shows_as_directory());
    assert!(ItemKind::ClipArea.shows_as_directory());
    assert!(ItemKind::DriverTable.shows_as_directory());
    assert!(ItemKind::EntryContext.shows_as_directory());
}

#[test]
fn edits_keep_cells_empty() {
    let mut root = sample();
    insert_element(&mut root, 3, DropPosition::Last, node(30, ItemKind::EntryContext, vec![cell(31)]));
    move_element(&mut root, 31, 2, DropPosition::Last);
    remove_element(&mut root, 4);
    fn check(item: &GraphicItem) {
        if item.kind == ItemKind::Cell {
            assert!(item.items.is_empty());
        }
        item.items.iter().for_each(check);
    }
    check(&root);
}
