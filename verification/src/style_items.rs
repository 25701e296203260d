//! The style item tree of the editor: which item may be dropped into which.

use vstd::prelude::*;

use crate::drop_position::DropPosition;

verus! {

/// The kinds of item in a style definition's tree.
#[derive(Clone, Copy, Debug, PartialEq, Eq, Structural)]
pub enum StyleItemKind {
    Style,
    Asset,
    AssetFolder,
    Variable,
    VariableFolder,
    Scene,
    Graphic,
    GraphicFolder,
}

/// The style item tree takes a drop of `dragged` into `target` when both
/// are variables, assets or graphics, the target is a folder of that sort,
/// and the dragged item is an item or a folder of the same sort.
pub open spec fn drop_allowed_spec(target: StyleItemKind, dragged: StyleItemKind) -> bool {
    ||| target == StyleItemKind::VariableFolder && (dragged == StyleItemKind::VariableFolder || dragged == StyleItemKind::Variable)
    ||| target == StyleItemKind::AssetFolder && (dragged == StyleItemKind::AssetFolder || dragged == StyleItemKind::Asset)
    ||| target == StyleItemKind::GraphicFolder && (dragged == StyleItemKind::GraphicFolder || dragged == StyleItemKind::Graphic)
}

/// Whether the style item tree shows a drop of `dragged` into `target` as
/// allowed.
pub fn drop_allowed(target: StyleItemKind, dragged: StyleItemKind) -> (r: bool)
    ensures
        r == drop_allowed_spec(target, dragged),
{
    match (target, dragged) {
        (StyleItemKind::VariableFolder, StyleItemKind::VariableFolder) => true,
        (StyleItemKind::VariableFolder, StyleItemKind::Variable) => true,
        (StyleItemKind::AssetFolder, StyleItemKind::AssetFolder) => true,
        (StyleItemKind::AssetFolder, StyleItemKind::Asset) => true,
        (StyleItemKind::GraphicFolder, StyleItemKind::GraphicFolder) => true,
        (StyleItemKind::GraphicFolder, StyleItemKind::Graphic) => true,
        _ => false,
    }
}

/// The same decision when the two items are looked up by id first: an id
/// that is not in the tree refuses the drop.
pub fn drop_allowed_between(target: Option<StyleItemKind>, dragged: Option<StyleItemKind>) -> (r: bool)
    ensures
        r == match (target, dragged) {
            (Some(t), Some(d)) => drop_allowed_spec(t, d),
            _ => false,
        },
{
    match (target, dragged) {
        (Some(t), Some(d)) => drop_allowed(t, d),
        _ => false,
    }
}

/// The drop rule of a style tree that keeps its graphics in the scene
/// rather than in graphic folders: the scene takes graphics, and variable
/// and asset folders take their own sort.
pub fn scene_tree_drop_allowed(target: StyleItemKind, dragged: StyleItemKind) -> (r: bool)
    ensures
        r == (
            (target == StyleItemKind::VariableFolder && (dragged == StyleItemKind::VariableFolder || dragged == StyleItemKind::Variable))
            || (target == StyleItemKind::AssetFolder && (dragged == StyleItemKind::AssetFolder || dragged == StyleItemKind::Asset))
            || (target == StyleItemKind::Scene && dragged == StyleItemKind::Graphic)
        ),
{
    match (target, dragged) {
        (StyleItemKind::VariableFolder, StyleItemKind::VariableFolder) => true,
        (StyleItemKind::VariableFolder, StyleItemKind::Variable) => true,
        (StyleItemKind::AssetFolder, StyleItemKind::AssetFolder) => true,
        (StyleItemKind::AssetFolder, StyleItemKind::Asset) => true,
        (StyleItemKind::Scene, StyleItemKind::Graphic) => true,
        _ => false,
    }
}

/// Only folders take drops, and every folder keeps to its own sort: a drop
/// never mixes variables, assets and graphics, and nothing is dropped into
/// an item that is not a folder.
pub proof fn law_drops_stay_in_their_folder_sort(target: StyleItemKind, dragged: StyleItemKind)
    ensures
        drop_allowed_spec(target, dragged) ==> match target {
            StyleItemKind::VariableFolder => dragged == StyleItemKind::Variable || dragged == StyleItemKind::VariableFolder,
            StyleItemKind::AssetFolder => dragged == StyleItemKind::Asset || dragged == StyleItemKind::AssetFolder,
            StyleItemKind::GraphicFolder => dragged == StyleItemKind::Graphic || dragged == StyleItemKind::GraphicFolder,
            _ => false,
        },
{
}

/// Where an item added from the context menu of a style item goes: into a
/// folder as its last item; next to a variable, asset or graphic, in that
/// item's parent. The style and the scene have no such menu.
pub open spec fn insert_target_spec(kind: StyleItemKind, id: u128, parent: Option<u128>) -> Option<(u128, DropPosition)> {
    match kind {
        StyleItemKind::AssetFolder | StyleItemKind::VariableFolder | StyleItemKind::GraphicFolder =>
            Some((id, DropPosition::Last)),
        StyleItemKind::Asset | StyleItemKind::Variable | StyleItemKind::Graphic =>
            Some((parent.unwrap(), DropPosition::After(id))),
        _ => None,
    }
}

/// The target and position of an item added from the context menu of the
/// style item `id` of kind `kind`, whose parent in the tree view is
/// `parent`. A variable, asset or graphic always has a parent there.
pub fn insert_target(kind: StyleItemKind, id: u128, parent: Option<u128>) -> (r: Option<(u128, DropPosition)>)
    requires
        (kind == StyleItemKind::Asset || kind == StyleItemKind::Variable || kind == StyleItemKind::Graphic)
            ==> parent is Some,
    ensures
        r == insert_target_spec(kind, id, parent),
{
    match kind {
        StyleItemKind::AssetFolder | StyleItemKind::VariableFolder | StyleItemKind::GraphicFolder =>
            Some((id, DropPosition::Last)),
        StyleItemKind::Asset | StyleItemKind::Variable | StyleItemKind::Graphic =>
            Some((parent.unwrap(), DropPosition::After(id))),
        _ => None,
    }
}

/// Whether the tree view shows a style item as a directory, which can be
/// opened and may hold children, rather than as a leaf.
pub fn shows_as_directory(kind: StyleItemKind) -> (r: bool)
    ensures
        r == !(kind == StyleItemKind::Asset || kind == StyleItemKind::Variable || kind == StyleItemKind::Graphic),
{
    match kind {
        StyleItemKind::Asset | StyleItemKind::Variable | StyleItemKind::Graphic => false,
        _ => true,
    }
}

/// A button of a style item's context menu.
#[derive(Clone, Copy, Debug, PartialEq, Eq, Structural)]
pub enum MenuButton {
    AddImage,
    AddFont,
    AddGroup,
    AddVariable,
    AddGraphic,
    Delete,
}

/// The kind of item that an "add" button creates.
#[derive(Clone, Copy, Debug, PartialEq, Eq, Structural)]
pub enum NewItem {
    Image,
    Font,
    AssetFolder,
    Variable,
    VariableFolder,
    Graphic,
}

/// What a click on a context menu button asks of the style.
#[derive(Clone, Copy, Debug, PartialEq, Eq, Structural)]
pub enum MenuMessage {
    /// Insert a new item at `position` below `target` and select it.
    Insert { target: u128, position: DropPosition, node: NewItem },
    /// Remove the item.
    Remove(u128),
}

/// The item that `button` in the context menu of an item of kind `kind`
/// creates, or `None` when that menu has no such "add" button. An asset
/// offers images, fonts and groups, an asset folder images and groups; a
/// variable and a variable folder offer variables and groups, where the
/// group button of a variable creates a variable; graphics and graphic
/// folders offer graphics. The style and the scene have no menu.
pub open spec fn menu_new_item(kind: StyleItemKind, button: MenuButton) -> Option<NewItem> {
    match (kind, button) {
        (StyleItemKind::Asset, MenuButton::AddImage) => Some(NewItem::Image),
        (StyleItemKind::Asset, MenuButton::AddFont) => Some(NewItem::Font),
        (StyleItemKind::Asset, MenuButton::AddGroup) => Some(NewItem::AssetFolder),
        (StyleItemKind::AssetFolder, MenuButton::AddImage) => Some(NewItem::Image),
        (StyleItemKind::AssetFolder, MenuButton::AddGroup) => Some(NewItem::AssetFolder),
        (StyleItemKind::Variable, MenuButton::AddVariable) => Some(NewItem::Variable),
        (StyleItemKind::Variable, MenuButton::AddGroup) => Some(NewItem::Variable),
        (StyleItemKind::VariableFolder, MenuButton::AddVariable) => Some(NewItem::Variable),
        (StyleItemKind::VariableFolder, MenuButton::AddGroup) => Some(NewItem::VariableFolder),
        (StyleItemKind::Graphic, MenuButton::AddGraphic) => Some(NewItem::Graphic),
        (StyleItemKind::GraphicFolder, MenuButton::AddGraphic) => Some(NewItem::Graphic),
        _ => None,
    }
}

/// Whether the context menu of an item of kind `kind` has a delete button:
/// every kind that has a menu.
pub open spec fn menu_has_delete(kind: StyleItemKind) -> bool {
    kind != StyleItemKind::Style && kind != StyleItemKind::Scene
}

/// The message of a click on `button` in the context menu of the style
/// item `id` of kind `kind`, whose parent in the tree view is `parent`:
/// a new item goes where `insert_target` says, delete removes the item,
/// and a button the menu does not have gives nothing.
pub fn context_menu_message(kind: StyleItemKind, id: u128, parent: Option<u128>, button: MenuButton) -> (r: Option<MenuMessage>)
    requires
        (kind == StyleItemKind::Asset || kind == StyleItemKind::Variable || kind == StyleItemKind::Graphic)
            ==> parent is Some,
    ensures
        r == if button == MenuButton::Delete {
            if menu_has_delete(kind) { Some(MenuMessage::Remove(id)) } else { None }
        } else {
            match (menu_new_item(kind, button), insert_target_spec(kind, id, parent)) {
                (Some(node), Some((target, position))) => Some(MenuMessage::Insert { target, position, node }),
                _ => None,
            }
        },
{
    if let MenuButton::Delete = button {
        return match kind {
            StyleItemKind::Style | StyleItemKind::Scene => None,
            _ => Some(MenuMessage::Remove(id)),
        };
    }
    let node = match (kind, button) {
        (StyleItemKind::Asset, MenuButton::AddImage) => NewItem::Image,
        (StyleItemKind::Asset, MenuButton::AddFont) => NewItem::Font,
        (StyleItemKind::Asset, MenuButton::AddGroup) => NewItem::AssetFolder,
        (StyleItemKind::AssetFolder, MenuButton::AddImage) => NewItem::Image,
        (StyleItemKind::AssetFolder, MenuButton::AddGroup) => NewItem::AssetFolder,
        (StyleItemKind::Variable, MenuButton::AddVariable) => NewItem::Variable,
        (StyleItemKind::Variable, MenuButton::AddGroup) => NewItem::Variable,
        (StyleItemKind::VariableFolder, MenuButton::AddVariable) => NewItem::Variable,
        (StyleItemKind::VariableFolder, MenuButton::AddGroup) => NewItem::VariableFolder,
        (StyleItemKind::Graphic, MenuButton::AddGraphic) => NewItem::Graphic,
        (StyleItemKind::GraphicFolder, MenuButton::AddGraphic) => NewItem::Graphic,
        _ => return None,
    };
    match insert_target(kind, id, parent) {
        Some((target, position)) => Some(MenuMessage::Insert { target, position, node }),
        None => None,
    }
}

/// An action that the style item tree view reports for a frame.
#[derive(Clone, Copy, Debug, PartialEq, Eq, Structural)]
pub enum TreeAction {
    /// The selection changed.
    SetSelected(Option<u128>),
    /// `source` was dropped at `position` below `target`.
    Move { source: u128, target: u128, position: DropPosition },
    /// `source` is dragged over `position` below `target`.
    Drag { source: u128, target: u128, position: DropPosition },
}

/// What the editor is asked to do about a tree view action.
#[derive(Clone, Copy, Debug, PartialEq, Eq, Structural)]
pub enum TreeMessage {
    Select(u128),
    Move { source: u128, target: u128, position: DropPosition },
}

/// Whether the drop marker stays shown, and the message, for a tree view
/// action, given the kinds of the drop target and of the dragged item as
/// looked up in the style (`None` when the id is not there). A selection
/// of an item is passed on; a drag or a drop keeps its marker only where
/// `drop_allowed_between` allows it; a drop is passed on as a move
/// whether or not it is allowed, and the style decides.
pub fn handle_tree_action(action: TreeAction, target_kind: Option<StyleItemKind>, dragged_kind: Option<StyleItemKind>) -> (r: (bool, Option<TreeMessage>))
    ensures
        r == match action {
            TreeAction::SetSelected(Some(id)) => (true, Some(TreeMessage::Select(id))),
            TreeAction::SetSelected(None) => (true, None),
            TreeAction::Move { source, target, position } => (
                match (target_kind, dragged_kind) {
                    (Some(t), Some(d)) => drop_allowed_spec(t, d),
                    _ => false,
                },
                Some(TreeMessage::Move { source, target, position }),
            ),
            TreeAction::Drag { .. } => (
                match (target_kind, dragged_kind) {
                    (Some(t), Some(d)) => drop_allowed_spec(t, d),
                    _ => false,
                },
                None,
            ),
        },
{
    match action {
        TreeAction::SetSelected(Some(id)) => (true, Some(TreeMessage::Select(id))),
        TreeAction::SetSelected(None) => (true, None),
        TreeAction::Move { source, target, position } => {
            let allowed = drop_allowed_between(target_kind, dragged_kind);
            (allowed, Some(TreeMessage::Move { source, target, position }))
        },
        TreeAction::Drag { .. } => (drop_allowed_between(target_kind, dragged_kind), None),
    }
}

/// What each "add" button creates, whichever menu it stands in: "add
/// image" always an image, "add font" always a font, "add variable" always
/// a variable, "add graphic" always a graphic; "add group" a folder of the
/// menu's sort (a variable's group button creates a variable); delete
/// creates nothing. Image buttons stand in the menus of assets and asset
/// folders, the font button in an asset's, variable buttons in those of
/// variables and variable folders, graphic buttons in those of graphics and
/// graphic folders.
pub proof fn law_menu_buttons_create_their_items(kind: StyleItemKind)
    ensures
        menu_new_item(kind, MenuButton::AddImage) == if kind == StyleItemKind::Asset || kind == StyleItemKind::AssetFolder {
            Some(NewItem::Image)
        } else {
            None::<NewItem>
        },
        menu_new_item(kind, MenuButton::AddFont) == if kind == StyleItemKind::Asset { Some(NewItem::Font) } else { None::<NewItem> },
        menu_new_item(kind, MenuButton::AddVariable) == if kind == StyleItemKind::Variable || kind == StyleItemKind::VariableFolder {
            Some(NewItem::Variable)
        } else {
            None::<NewItem>
        },
        menu_new_item(kind, MenuButton::AddGraphic) == if kind == StyleItemKind::Graphic || kind == StyleItemKind::GraphicFolder {
            Some(NewItem::Graphic)
        } else {
            None::<NewItem>
        },
        menu_new_item(kind, MenuButton::AddGroup) == if kind == StyleItemKind::Asset || kind == StyleItemKind::AssetFolder {
            Some(NewItem::AssetFolder)
        } else if kind == StyleItemKind::VariableFolder {
            Some(NewItem::VariableFolder)
        } else if kind == StyleItemKind::Variable {
            Some(NewItem::Variable)
        } else {
            None::<NewItem>
        },
        menu_new_item(kind, MenuButton::Delete) is None,
{
}

/// A new style item goes into a folder as its last item, or right after
/// an asset, variable or graphic in that item's parent; the style and the
/// scene take none.
pub proof fn law_new_items_go_into_folders_or_after_items(kind: StyleItemKind, id: u128, parent: u128)
    ensures
        (kind == StyleItemKind::AssetFolder || kind == StyleItemKind::VariableFolder || kind == StyleItemKind::GraphicFolder)
            ==> insert_target_spec(kind, id, Some(parent)) == Some((id, DropPosition::Last)),
        (kind == StyleItemKind::Asset || kind == StyleItemKind::Variable || kind == StyleItemKind::Graphic)
            ==> insert_target_spec(kind, id, Some(parent)) == Some((parent, DropPosition::After(id))),
        (kind == StyleItemKind::Style || kind == StyleItemKind::Scene) ==> insert_target_spec(kind, id, Some(parent)) is None,
{
}

/// A drop is allowed exactly when the target is a folder and the dragged
/// item is an item or a folder of the folder's own sort.
pub proof fn law_drop_allowed_exactly_within_sort(target: StyleItemKind, dragged: StyleItemKind)
    ensures
        drop_allowed_spec(target, dragged) <==> {
            ||| target == StyleItemKind::AssetFolder && (dragged == StyleItemKind::Asset || dragged == StyleItemKind::AssetFolder)
            ||| target == StyleItemKind::VariableFolder && (dragged == StyleItemKind::Variable || dragged == StyleItemKind::VariableFolder)
            ||| target == StyleItemKind::GraphicFolder && (dragged == StyleItemKind::Graphic || dragged == StyleItemKind::GraphicFolder)
        },
{
}

} // verus!
