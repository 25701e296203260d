//! Verified core of the timing tower editor and renderer: value and asset
//! types, the editor's selection and tree-editing logic, the tree view's
//! drop decisions, and the renderer's bookkeeping of cells and frames.

pub mod asset_paths;
pub mod cell_batching;
pub mod cell_manager;
pub mod drop_position;
pub mod focus;
pub mod graphic_states;
pub mod graphic_tree;
pub mod ids;
pub mod popup;
pub mod remote;
pub mod renderer;
pub mod style_items;
pub mod tabs;
pub mod selection;
pub mod tree_view;
pub mod value_store;
pub mod value_types;
