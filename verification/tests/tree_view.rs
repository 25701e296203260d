use timing_tower::drop_position::DropPosition;
use timing_tower::tree_view::{
    dir_open_after, get_drop_position, DirectoryState, DropQuarter, TreeViewAction,
    TreeViewBuilder2,
};

#[test]
fn drop_position_top_goes_before_row() {
    assert_eq!(get_drop_position(5, true, true, Some(1), DropQuarter::Top), Some((1, DropPosition::Before(5))));
    assert_eq!(get_drop_position(5, true, true, None, DropQuarter::Top), Some((5, DropPosition::Last)));
    assert_eq!(get_drop_position(5, false, false, None, DropQuarter::Top), None);
}

#[test]
fn drop_position_middle_goes_into_directory() {
    assert_eq!(get_drop_position(5, true, false, Some(1), DropQuarter::MiddleTop), Some((5, DropPosition::Last)));
    assert_eq!(get_drop_position(5, true, false, Some(1), DropQuarter::MiddleBottom), Some((5, DropPosition::Last)));
    assert_eq!(get_drop_position(5, false, false, Some(1), DropQuarter::MiddleTop), Some((1, DropPosition::Before(5))));
    assert_eq!(get_drop_position(5, false, false, Some(1), DropQuarter::MiddleBottom), Some((1, DropPosition::After(5))));
    assert_eq!(get_drop_position(5, false, false, None, DropQuarter::MiddleTop), None);
    assert_eq!(get_drop_position(5, false, false, None, DropQuarter::MiddleBottom), None);
}

#[test]
fn drop_position_bottom_of_open_directory_goes_first() {
    assert_eq!(get_drop_position(5, true, true, Some(1), DropQuarter::Bottom), Some((5, DropPosition::First)));
    assert_eq!(get_drop_position(5, true, false, Some(1), DropQuarter::Bottom), Some((1, DropPosition::After(5))));
    assert_eq!(get_drop_position(5, true, false, None, DropQuarter::Bottom), Some((5, DropPosition::Last)));
    assert_eq!(get_drop_position(5, false, false, None, DropQuarter::Bottom), None);
}

#[test]
fn directory_toggles() {
    assert!(dir_open_after(false, true, false));
    assert!(!dir_open_after(true, true, false));
    assert!(!dir_open_after(true, false, true));
    assert!(dir_open_after(true, true, true));
    assert!(!dir_open_after(false, false, false));
}

#[test]
fn closed_directory_hides_its_content() {
    let mut b = TreeViewBuilder2::new(None, true);
    b.drag(9);
    assert!(b.current_dir_is_open());
    assert_eq!(b.dir(1, true, false, false, false, false, None), Some((None, true)));
    assert_eq!(b.dir(2, false, false, false, false, false, None), Some((None, false)));
    assert!(!b.current_dir_is_open());
    assert_eq!(b.dir(3, true, true, false, false, false, Some(DropQuarter::Top)), None);
    assert_eq!(b.leaf(4, true, false, Some(DropQuarter::Top)), None);
    assert_eq!(b.selected(), None);
    assert!(!b.current_dir_is_open());
    assert_eq!(b.close_dir(), Some(DirectoryState { id: 3, is_open: false, drop_forbidden: true }));
    assert_eq!(b.close_dir(), Some(DirectoryState { id: 2, is_open: false, drop_forbidden: false }));
    assert!(b.current_dir_is_open());
    assert_eq!(b.close_dir(), Some(DirectoryState { id: 1, is_open: true, drop_forbidden: false }));
    assert_eq!(b.close_dir(), None);
}

#[test]
fn dragged_directory_refuses_drops_inside() {
    let mut b = TreeViewBuilder2::new(None, true);
    assert_eq!(b.dir(1, true, false, false, false, false, None), Some((None, true)));
    assert!(!b.current_dir_drop_forbidden());
    assert_eq!(b.dir(2, true, false, true, false, false, Some(DropQuarter::MiddleTop)), Some((None, true)));
    assert!(b.is_dragged(2));
    assert!(b.current_dir_drop_forbidden());
    assert_eq!(b.dir(3, true, false, false, false, false, None), Some((None, true)));
    assert!(b.current_dir_drop_forbidden());
    assert_eq!(b.leaf(4, false, false, Some(DropQuarter::Top)), Some(None));
    assert_eq!(b.hover_for_drop(4, false, false, Some(DropQuarter::Top)), None);
}

#[test]
fn directory_rows_toggle_and_select_on_icon() {
    let mut b = TreeViewBuilder2::new(None, false);
    assert_eq!(b.dir(1, true, false, false, true, false, None), Some((None, false)));
    assert_eq!(b.selected(), None);
    b.close_dir();
    assert_eq!(b.dir(1, false, false, false, false, true, None), Some((None, true)));
    assert_eq!(b.selected(), Some(1));
    b.close_dir();
    assert_eq!(b.dir(2, true, false, false, true, true, None), Some((None, true)));
}

#[test]
fn drag_and_drop_yields_move_action() {
    let mut b = TreeViewBuilder2::new(Some(9), true);
    assert_eq!(b.dir(1, true, false, false, false, false, None), Some((None, true)));
    assert_eq!(b.leaf(7, false, true, Some(DropQuarter::Top)), Some(None));
    assert_eq!(b.leaf(9, false, false, Some(DropQuarter::Top)), Some(None));
    assert_eq!(b.leaf(5, false, false, None), Some(None));
    assert_eq!(b.leaf(5, false, false, Some(DropQuarter::Bottom)), Some(Some((1, DropPosition::After(5)))));
    assert!(!b.drop_marks_current_dir());
    assert_eq!(b.finish(false), None);
    assert_eq!(
        b.finish(true),
        Some(TreeViewAction::Drop { node_to_remove: 7, receiver_node: 1, position: DropPosition::After(5) })
    );
    assert!(b.dragging());
    assert_eq!(b.selected(), Some(9));
}

#[test]
fn clicked_row_is_selected_and_takes_no_drop() {
    let mut b = TreeViewBuilder2::new(None, true);
    b.drag(7);
    assert_eq!(b.leaf(5, true, false, Some(DropQuarter::Top)), Some(None));
    assert_eq!(b.selected(), Some(5));
    assert_eq!(b.leaf(6, false, false, Some(DropQuarter::Top)), Some(None));
    assert_eq!(b.finish(true), None);
}

#[test]
fn no_drop_without_drag_in_last_frame() {
    let mut b = TreeViewBuilder2::new(None, false);
    b.drag(7);
    assert_eq!(b.hover_for_drop(5, true, true, Some(DropQuarter::MiddleTop)), None);
    assert_eq!(b.finish(true), None);
}

#[test]
fn drop_into_directory_marks_it() {
    let mut b = TreeViewBuilder2::new(None, true);
    b.drag(7);
    assert_eq!(b.dir(1, true, false, false, false, false, Some(DropQuarter::MiddleTop)), Some((Some((1, DropPosition::Last)), true)));
    assert!(b.drop_marks_current_dir());
}

#[test]
fn selection_changes_on_click() {
    let mut b = TreeViewBuilder2::new(None, false);
    assert!(!b.is_selected(3));
    b.select(3);
    assert!(b.is_selected(3));
    assert_eq!(b.selected(), Some(3));
    assert!(!b.dragging());
}
