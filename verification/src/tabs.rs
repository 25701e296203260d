//! The tabs of the editor's dock area.

use vstd::prelude::*;

verus! {

/// A tab of the editor.
#[derive(Clone, Copy, Debug, PartialEq, Eq, Structural)]
pub enum Tab {
    SceneView,
    Dashboard,
    StyleItems,
    GraphicEditor,
    GraphicItemEditor,
    UndoRedo,
}

/// The title shown on a tab.
pub open spec fn tab_title(tab: Tab) -> Seq<char> {
    match tab {
        Tab::SceneView => "Scene view"@,
        Tab::Dashboard => "Dashboard"@,
        Tab::StyleItems => "Style"@,
        Tab::GraphicEditor => "Component"@,
        Tab::GraphicItemEditor => "Element"@,
        Tab::UndoRedo => "Undo/Redo"@,
    }
}

impl Tab {
    pub fn title(&self) -> (r: &'static str)
        ensures
            r@ == tab_title(*self),
    {
        match self {
            Tab::SceneView => "Scene view",
            Tab::Dashboard => "Dashboard",
            Tab::StyleItems => "Style",
            Tab::GraphicEditor => "Component",
            Tab::GraphicItemEditor => "Element",
            Tab::UndoRedo => "Undo/Redo",
        }
    }

    /// Every tab but the scene view paints its background; the scene view
    /// lets the rendered scene show through.
    pub fn clear_background(&self) -> (r: bool)
        ensures
            r == (*self != Tab::SceneView),
    {
        match self {
            Tab::SceneView => false,
            _ => true,
        }
    }

    /// No tab can be closed.
    pub fn closeable(&self) -> (r: bool)
        ensures
            !r,
    {
        false
    }

    /// No tab shows scroll bars, horizontal or vertical.
    pub fn scroll_bars(&self) -> (r: [bool; 2])
        ensures
            !r[0] && !r[1],
    {
        [false, false]
    }
}

} // verus!
