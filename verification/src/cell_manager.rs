//! The renderer's record of the cells and clip areas that it created for
//! the ids in style commands.

use std::collections::HashMap;

use vstd::prelude::*;

verus! {

broadcast use vstd::std_specs::hash::group_hash_axioms;

/// The entities and the render texture that make up a clip area.
#[derive(Clone, Copy, Debug, PartialEq, Eq, Structural)]
pub struct ClipArea {
    /// The cell that shows the clip area's texture.
    pub cell: u64,
    /// The image that the clip area's camera renders into.
    pub texture: u64,
    /// The camera that renders the clip area's content.
    pub camera: u64,
}

/// Maps the ids of style commands to the entities created for them.
pub struct CellManager {
    cells: HashMap<u128, u64>,
    clip_areas: HashMap<u128, ClipArea>,
}

/// What is removed for an id: its cell and its clip area, where there are.
#[derive(Clone, Copy, Debug, PartialEq, Eq, Structural)]
pub struct Removed {
    pub cell: Option<u64>,
    pub clip_area: Option<ClipArea>,
}

impl CellManager {
    pub closed spec fn cells_view(&self) -> Map<u128, u64> {
        self.cells@
    }

    pub closed spec fn clip_areas_view(&self) -> Map<u128, ClipArea> {
        self.clip_areas@
    }

    /// The cell created for `id`, if any. A style command for an id with
    /// no cell yet has one created (`insert_cell`) before it is styled.
    pub fn cell(&self, id: u128) -> (r: Option<u64>)
        ensures
            r == (if self.cells_view().contains_key(id) { Some(self.cells_view()[id]) } else { None }),
    {
        match self.cells.get(&id) {
            Some(e) => Some(*e),
            None => None,
        }
    }

    /// Records the cell created for `id`.
    pub fn insert_cell(&mut self, id: u128, entity: u64)
        ensures
            final(self).cells_view() == old(self).cells_view().insert(id, entity),
            final(self).clip_areas_view() == old(self).clip_areas_view(),
    {
        self.cells.insert(id, entity);
    }

    /// The clip area created for `id`, if any.
    pub fn clip_area(&self, id: u128) -> (r: Option<ClipArea>)
        ensures
            r == (if self.clip_areas_view().contains_key(id) { Some(self.clip_areas_view()[id]) } else { None }),
    {
        match self.clip_areas.get(&id) {
            Some(c) => Some(*c),
            None => None,
        }
    }

    /// Records the clip area created for `id`.
    pub fn insert_clip_area(&mut self, id: u128, clip_area: ClipArea)
        ensures
            final(self).clip_areas_view() == old(self).clip_areas_view().insert(id, clip_area),
            final(self).cells_view() == old(self).cells_view(),
    {
        self.clip_areas.insert(id, clip_area);
    }

    /// A remove command: forgets the cell and the clip area of `id` and
    /// gives back what is to be despawned.
    pub fn remove(&mut self, id: u128) -> (r: Removed)
        ensures
            final(self).cells_view() == old(self).cells_view().remove(id),
            final(self).clip_areas_view() == old(self).clip_areas_view().remove(id),
            r.cell == (if old(self).cells_view().contains_key(id) { Some(old(self).cells_view()[id]) } else { None }),
            r.clip_area == (if old(self).clip_areas_view().contains_key(id) {
                Some(old(self).clip_areas_view()[id])
            } else {
                None
            }),
    {
        let cell = self.cells.remove(&id);
        let clip_area = self.clip_areas.remove(&id);
        Removed { cell, clip_area }
    }
}

/// The kinds of style command that the controller sends for an id.
#[derive(Clone, Copy, Debug, PartialEq, Eq, Structural)]
pub enum StyleCommandKind {
    /// Style the cell of the id.
    Style,
    /// Style the clip area of the id.
    ClipArea,
    /// Remove what was made for the id.
    Remove,
}

/// What the renderer does for one style command.
#[derive(Clone, Copy, Debug, PartialEq, Eq, Structural)]
pub enum CellStep {
    /// Send the style to this existing cell.
    Restyle(u64),
    /// Spawn a cell, record it with `insert_cell`, and style it.
    SpawnCell,
    /// Style this existing clip area.
    RestyleClipArea(ClipArea),
    /// Create a clip area, record it with `insert_clip_area`, and style it.
    SpawnClipArea,
    /// Despawn what was removed.
    Despawn(Removed),
}

/// The step for a command of kind `kind` for `id`, given the recorded
/// cells and clip areas: a style reuses the cell of the id or asks for a
/// new one, and likewise for clip areas; a remove hands back what there was.
pub open spec fn step_spec(cells: Map<u128, u64>, clip_areas: Map<u128, ClipArea>, id: u128, kind: StyleCommandKind) -> CellStep {
    match kind {
        StyleCommandKind::Style => if cells.contains_key(id) {
            CellStep::Restyle(cells[id])
        } else {
            CellStep::SpawnCell
        },
        StyleCommandKind::ClipArea => if clip_areas.contains_key(id) {
            CellStep::RestyleClipArea(clip_areas[id])
        } else {
            CellStep::SpawnClipArea
        },
        StyleCommandKind::Remove => CellStep::Despawn(Removed {
            cell: if cells.contains_key(id) { Some(cells[id]) } else { None },
            clip_area: if clip_areas.contains_key(id) { Some(clip_areas[id]) } else { None },
        }),
    }
}

impl CellManager {
    /// Decides the step for one style command of kind `kind` for `id`. A
    /// remove forgets the id at once; a new cell or clip area is recorded by
    /// the caller once it has spawned it.
    pub fn step(&mut self, id: u128, kind: StyleCommandKind) -> (r: CellStep)
        ensures
            r == step_spec(old(self).cells_view(), old(self).clip_areas_view(), id, kind),
            kind == StyleCommandKind::Remove ==> {
                &&& final(self).cells_view() == old(self).cells_view().remove(id)
                &&& final(self).clip_areas_view() == old(self).clip_areas_view().remove(id)
            },
            kind != StyleCommandKind::Remove ==> {
                &&& final(self).cells_view() == old(self).cells_view()
                &&& final(self).clip_areas_view() == old(self).clip_areas_view()
            },
    {
        match kind {
            StyleCommandKind::Style => match self.cell(id) {
                Some(e) => CellStep::Restyle(e),
                None => CellStep::SpawnCell,
            },
            StyleCommandKind::ClipArea => match self.clip_area(id) {
                Some(c) => CellStep::RestyleClipArea(c),
                None => CellStep::SpawnClipArea,
            },
            StyleCommandKind::Remove => CellStep::Despawn(self.remove(id)),
        }
    }
}

impl Default for CellManager {
    /// No cells and no clip areas.
    fn default() -> (r: Self)
        ensures
            r.cells_view() == Map::<u128, u64>::empty(),
            r.clip_areas_view() == Map::<u128, ClipArea>::empty(),
    {
        CellManager { cells: HashMap::new(), clip_areas: HashMap::new() }
    }
}

/// The render layer of a clip area's camera: the layer named by the style,
/// or no layer at all for layer 0.
pub fn clip_camera_layer(render_layer: u8) -> (r: Option<u8>)
    ensures
        r == (if render_layer > 0 { Some(render_layer) } else { None }),
{
    if render_layer > 0 {
        Some(render_layer)
    } else {
        None
    }
}

/// A remove command takes back what was recorded: when `m1` is `m0` with a
/// cell recorded for `id`, and `m2` is `m1` after removing `id`, the removal
/// hands that cell back and `m2` holds the cells of `m0` without `id`.
pub proof fn law_remove_returns_inserted(m0: CellManager, m1: CellManager, m2: CellManager, id: u128, entity: u64)
    requires
        m1.cells_view() == m0.cells_view().insert(id, entity),
        m2.cells_view() == m1.cells_view().remove(id),
    ensures
        m1.cells_view().contains_key(id) && m1.cells_view()[id] == entity,
        m2.cells_view() == m0.cells_view().remove(id),
        !m2.cells_view().contains_key(id),
{
    assert(m2.cells_view() =~= m0.cells_view().remove(id));
}

/// A cell is made once per id and then reused: once the cell spawned for
/// a first style command of `id` is recorded, every later style command of
/// `id` restyles that cell, until a remove command for `id`.
pub proof fn law_spawned_cell_is_reused(cells: Map<u128, u64>, clip_areas: Map<u128, ClipArea>, id: u128, entity: u64)
    ensures
        !cells.contains_key(id) ==> step_spec(cells, clip_areas, id, StyleCommandKind::Style) == CellStep::SpawnCell,
        step_spec(cells.insert(id, entity), clip_areas, id, StyleCommandKind::Style) == CellStep::Restyle(entity),
        step_spec(cells.insert(id, entity).remove(id), clip_areas, id, StyleCommandKind::Style) == CellStep::SpawnCell,
{
}

/// What each command does for an id: a style command restyles the cell
/// recorded for the id or, without one, asks for a new cell; a clip area
/// command does the same with the clip area; a remove command hands back
/// the cell and the clip area recorded for the id, where there are.
pub proof fn law_step_for_each_command(cells: Map<u128, u64>, clip_areas: Map<u128, ClipArea>, id: u128)
    ensures
        cells.contains_key(id) ==> step_spec(cells, clip_areas, id, StyleCommandKind::Style) == CellStep::Restyle(cells[id]),
        !cells.contains_key(id) ==> step_spec(cells, clip_areas, id, StyleCommandKind::Style) == CellStep::SpawnCell,
        clip_areas.contains_key(id) ==> step_spec(cells, clip_areas, id, StyleCommandKind::ClipArea)
            == CellStep::RestyleClipArea(clip_areas[id]),
        !clip_areas.contains_key(id) ==> step_spec(cells, clip_areas, id, StyleCommandKind::ClipArea) == CellStep::SpawnClipArea,
        step_spec(cells, clip_areas, id, StyleCommandKind::Remove) matches CellStep::Despawn(r)
            && (r.cell is Some <==> cells.contains_key(id))
            && (r.clip_area is Some <==> clip_areas.contains_key(id))
            && (r.cell matches Some(c) ==> c == cells[id])
            && (r.clip_area matches Some(c) ==> c == clip_areas[id]),
{
}

} // verus!
