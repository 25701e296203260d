use timing_tower::drop_position::DropPosition;
use timing_tower::focus::random_focus_entry;
use timing_tower::popup::{closes_after_show, Popup};
use timing_tower::selection::{SelectionManager, SelectionState};
use timing_tower::style_items::{
    context_menu_message, drop_allowed, drop_allowed_between, handle_tree_action, insert_target,
    scene_tree_drop_allowed, shows_as_directory, MenuButton, MenuMessage, NewItem, StyleItemKind,
    TreeAction, TreeMessage,
};
use timing_tower::tabs::Tab;

const KINDS: [StyleItemKind; 8] = [
    StyleItemKind::Style,
    StyleItemKind::Asset,
    StyleItemKind::AssetFolder,
    StyleItemKind::Variable,
    StyleItemKind::VariableFolder,
    StyleItemKind::Scene,
    StyleItemKind::Graphic,
    StyleItemKind::GraphicFolder,
];

#[test]
fn tab_titles() {
    assert_eq!(Tab::SceneView.title(), "Scene view");
    assert_eq!(Tab::Dashboard.title(), "Dashboard");
    assert_eq!(Tab::StyleItems.title(), "Style");
    assert_eq!(Tab::GraphicEditor.title(), "Component");
    assert_eq!(Tab::GraphicItemEditor.title(), "Element");
    assert_eq!(Tab::UndoRedo.title(), "Undo/Redo");
}

#[test]
fn tab_behaviour() {
    assert!(!Tab::SceneView.clear_background());
    assert!(Tab::Dashboard.clear_background());
    assert!(Tab::UndoRedo.clear_background());
    assert!(!Tab::StyleItems.closeable());
    assert_eq!(Tab::GraphicEditor.scroll_bars(), [false, false]);
}

#[test]
fn folders_take_their_own_sort() {
    assert!(drop_allowed(StyleItemKind::VariableFolder, StyleItemKind::Variable));
    assert!(drop_allowed(StyleItemKind::VariableFolder, StyleItemKind::VariableFolder));
    assert!(drop_allowed(StyleItemKind::AssetFolder, StyleItemKind::Asset));
    assert!(drop_allowed(StyleItemKind::GraphicFolder, StyleItemKind::Graphic));
    assert!(!drop_allowed(StyleItemKind::AssetFolder, StyleItemKind::Variable));
    assert!(!drop_allowed(StyleItemKind::Variable, StyleItemKind::Variable));
    assert!(!drop_allowed(StyleItemKind::Style, StyleItemKind::GraphicFolder));
    let allowed = KINDS
        .iter()
        .flat_map(|t| KINDS.iter().map(move |d| (*t, *d)))
        .filter(|(t, d)| drop_allowed(*t, *d))
        .count();
    assert_eq!(allowed, 6);
}

#[test]
fn unknown_items_refuse_drops() {
    assert!(drop_allowed_between(Some(StyleItemKind::AssetFolder), Some(StyleItemKind::Asset)));
    assert!(!drop_allowed_between(None, Some(StyleItemKind::Asset)));
    assert!(!drop_allowed_between(Some(StyleItemKind::AssetFolder), None));
}

#[test]
fn scene_takes_graphics_in_the_earlier_tree() {
    assert!(scene_tree_drop_allowed(StyleItemKind::Scene, StyleItemKind::Graphic));
    assert!(!scene_tree_drop_allowed(StyleItemKind::GraphicFolder, StyleItemKind::Graphic));
    assert!(scene_tree_drop_allowed(StyleItemKind::AssetFolder, StyleItemKind::AssetFolder));
}

#[test]
fn new_style_items_go_into_folders_or_next_to_items() {
    assert_eq!(insert_target(StyleItemKind::AssetFolder, 4, Some(1)), Some((4, DropPosition::Last)));
    assert_eq!(insert_target(StyleItemKind::VariableFolder, 4, None), Some((4, DropPosition::Last)));
    assert_eq!(insert_target(StyleItemKind::Variable, 5, Some(4)), Some((4, DropPosition::After(5))));
    assert_eq!(insert_target(StyleItemKind::Graphic, 6, Some(2)), Some((2, DropPosition::After(6))));
    assert_eq!(insert_target(StyleItemKind::Style, 1, None), None);
    assert_eq!(insert_target(StyleItemKind::Scene, 3, Some(1)), None);
}

#[test]
fn popup_opens_closes_and_toggles() {
    let open = Popup::new().should_open(true).frame(false);
    assert!(open.shown && open.open_call && !open.close_call && open.opening);
    let stays = Popup::new().frame(true);
    assert!(stays.shown && !stays.close_call);
    let closed = Popup::new().should_close(true).frame(true);
    assert!(!closed.shown && closed.close_call);
    let not_open = Popup::new().should_close(true).frame(false);
    assert!(!not_open.shown && !not_open.close_call);
    let toggled_on = Popup::new().should_toggle(true).frame(false);
    assert!(toggled_on.shown);
    let toggled_off = Popup::new().should_toggle(true).should_open(true).frame(true);
    assert!(!toggled_off.shown && toggled_off.close_call);
}

#[test]
fn popup_closes_on_escape_or_outside_click() {
    let opening = Popup::new().should_open(true).frame(false);
    let kept = Popup::new().frame(true);
    assert!(closes_after_show(kept, true, false, false));
    assert!(closes_after_show(kept, false, true, false));
    assert!(!closes_after_show(opening, false, true, false));
    assert!(closes_after_show(opening, false, false, true));
    assert!(!closes_after_show(kept, false, false, false));
}

#[test]
fn selection_is_remembered_per_style_item() {
    let mut m = SelectionManager::default();
    assert_eq!(m.selected(), None);
    assert!(m.selected_state().is_none());
    assert!(m.selected_state_mut().is_none());
    m.set_selected(10);
    assert_eq!(m.selected(), Some(10));
    assert_eq!(*m.selected_state().unwrap(), SelectionState::default());
    m.selected_state_mut().unwrap().graphic_item = Some(3);
    m.set_selected(20);
    assert_eq!(m.selected_state().unwrap().graphic_item, None);
    m.selected_state_mut().unwrap().graphic_state = Some(8);
    m.set_selected(10);
    assert_eq!(m.selected_state().unwrap().graphic_item, Some(3));
    assert_eq!(m.selected_state().unwrap().graphic_state, None);
    m.set_selected(20);
    assert_eq!(m.selected_state().unwrap().graphic_state, Some(8));
}

#[test]
fn random_focus_picks_an_entry_of_the_session() {
    assert_eq!(random_focus_entry(None), None);
    assert_eq!(random_focus_entry(Some(&vec![])), None);
    assert_eq!(random_focus_entry(Some(&vec![12])), Some(12));
    let entries = vec![3, 5, 8, 13];
    for _ in 0..20 {
        let e = random_focus_entry(Some(&entries)).expect("a session with entries");
        assert!(entries.contains(&e));
    }
}

#[test]
fn folders_and_containers_show_as_directories() {
    assert!(shows_as_directory(StyleItemKind::Style));
    assert!(shows_as_directory(StyleItemKind::Scene));
    assert!(shows_as_directory(StyleItemKind::AssetFolder));
    assert!(!shows_as_directory(StyleItemKind::Asset));
    assert!(!shows_as_directory(StyleItemKind::Variable));
    assert!(!shows_as_directory(StyleItemKind::Graphic));
}

#[test]
fn context_menu_buttons_create_their_items() {
    assert_eq!(
        context_menu_message(StyleItemKind::Asset, 5, Some(2), MenuButton::AddFont),
        Some(MenuMessage::Insert { target: 2, position: DropPosition::After(5), node: NewItem::Font })
    );
    assert_eq!(
        context_menu_message(StyleItemKind::AssetFolder, 2, Some(1), MenuButton::AddGroup),
        Some(MenuMessage::Insert { target: 2, position: DropPosition::Last, node: NewItem::AssetFolder })
    );
    assert_eq!(context_menu_message(StyleItemKind::AssetFolder, 2, Some(1), MenuButton::AddFont), None);
    assert_eq!(
        context_menu_message(StyleItemKind::VariableFolder, 3, None, MenuButton::AddGroup),
        Some(MenuMessage::Insert { target: 3, position: DropPosition::Last, node: NewItem::VariableFolder })
    );
    assert_eq!(
        context_menu_message(StyleItemKind::Variable, 7, Some(3), MenuButton::AddGroup),
        Some(MenuMessage::Insert { target: 3, position: DropPosition::After(7), node: NewItem::Variable })
    );
    assert_eq!(
        context_menu_message(StyleItemKind::GraphicFolder, 4, None, MenuButton::AddGraphic),
        Some(MenuMessage::Insert { target: 4, position: DropPosition::Last, node: NewItem::Graphic })
    );
    assert_eq!(context_menu_message(StyleItemKind::Graphic, 8, Some(4), MenuButton::AddImage), None);
    assert_eq!(context_menu_message(StyleItemKind::Graphic, 8, Some(4), MenuButton::Delete), Some(MenuMessage::Remove(8)));
    assert_eq!(context_menu_message(StyleItemKind::Style, 1, None, MenuButton::Delete), None);
    assert_eq!(context_menu_message(StyleItemKind::Scene, 9, Some(1), MenuButton::AddGraphic), None);
}

#[test]
fn tree_actions_become_messages() {
    assert_eq!(handle_tree_action(TreeAction::SetSelected(Some(4)), None, None), (true, Some(TreeMessage::Select(4))));
    assert_eq!(handle_tree_action(TreeAction::SetSelected(None), None, None), (true, None));
    let drag = TreeAction::Drag { source: 5, target: 2, position: DropPosition::Last };
    assert_eq!(handle_tree_action(drag, Some(StyleItemKind::AssetFolder), Some(StyleItemKind::Asset)), (true, None));
    assert_eq!(handle_tree_action(drag, Some(StyleItemKind::AssetFolder), Some(StyleItemKind::Graphic)), (false, None));
    let mv = TreeAction::Move { source: 5, target: 2, position: DropPosition::After(3) };
    let msg = Some(TreeMessage::Move { source: 5, target: 2, position: DropPosition::After(3) });
    assert_eq!(handle_tree_action(mv, Some(StyleItemKind::AssetFolder), Some(StyleItemKind::Asset)), (true, msg));
    assert_eq!(handle_tree_action(mv, None, Some(StyleItemKind::Asset)), (false, msg));
}

#[test]
fn selected_item_always_has_an_inner_selection() {
    let mut m = SelectionManager::default();
    assert_eq!(m.selected_state().is_some(), m.selected().is_some());
    for id in [3, 4, 3, 5] {
        m.set_selected(id);
        assert_eq!(m.selected_state().is_some(), m.selected().is_some());
        assert!(m.selected_state_mut().is_some());
    }
}
