//! The decisions of the tree view widget while it lays out one frame: which
//! rows are shown, which directories may take a drop, where a drop goes,
//! and the action that a finished drag and drop yields.

use vstd::prelude::*;

use crate::drop_position::DropPosition;

verus! {

/// A directory that is open for children while the tree is laid out.
#[derive(Clone, Copy, Debug, PartialEq, Eq, Structural)]
pub struct DirectoryState {
    /// Id of the directory node.
    pub id: u128,
    /// Whether the directory is expanded.
    pub is_open: bool,
    /// Whether dropping is refused into this directory and everything in
    /// it (it is dragged itself, or lies in a dragged directory).
    pub drop_forbidden: bool,
}

/// Which quarter of a row the pointer is over, from top to bottom.
#[derive(Clone, Copy, Debug, PartialEq, Eq, Structural)]
pub enum DropQuarter {
    Top,
    MiddleTop,
    MiddleBottom,
    Bottom,
}

/// What the tree view asks its owner to do once a frame is laid out.
#[derive(Clone, Copy, Debug, PartialEq, Eq, Structural)]
pub enum TreeViewAction {
    Drop { node_to_remove: u128, receiver_node: u128, position: DropPosition },
}

/// Where a drop over a row goes, given the quarter of the row under the
/// pointer, whether the row takes children (`drop_on_allowed`), whether it
/// is open, and the directory it stands in.
pub open spec fn drop_position_for(
    id: u128,
    drop_on_allowed: bool,
    is_open: bool,
    parent: Option<u128>,
    quarter: DropQuarter,
) -> Option<(u128, DropPosition)> {
    match quarter {
        DropQuarter::Top => match parent {
            Some(p) => Some((p, DropPosition::Before(id))),
            None => if drop_on_allowed { Some((id, DropPosition::Last)) } else { None },
        },
        DropQuarter::MiddleTop => if drop_on_allowed {
            Some((id, DropPosition::Last))
        } else {
            match parent {
                Some(p) => Some((p, DropPosition::Before(id))),
                None => None,
            }
        },
        DropQuarter::MiddleBottom => if drop_on_allowed {
            Some((id, DropPosition::Last))
        } else {
            match parent {
                Some(p) => Some((p, DropPosition::After(id))),
                None => None,
            }
        },
        DropQuarter::Bottom => if drop_on_allowed && is_open {
            Some((id, DropPosition::First))
        } else {
            match parent {
                Some(p) => Some((p, DropPosition::After(id))),
                None => if drop_on_allowed { Some((id, DropPosition::Last)) } else { None },
            }
        },
    }
}

/// A directory stack is consistent: inside a closed directory every
/// directory is closed, and inside a directory that refuses drops every
/// directory refuses them.
pub open spec fn stack_consistent(stack: Seq<DirectoryState>) -> bool {
    forall|i: int, j: int|
        0 <= i < j < stack.len() ==> {
            &&& (!(#[trigger] stack[i]).is_open ==> !(#[trigger] stack[j]).is_open)
            &&& (stack[i].drop_forbidden ==> stack[j].drop_forbidden)
        }
}

/// The state of the tree view while one frame is laid out.
pub struct TreeViewBuilder2 {
    stack: Vec<DirectoryState>,
    selected: Option<u128>,
    drag: Option<u128>,
    drop: Option<(u128, DropPosition)>,
    was_dragged_last_frame: bool,
}

impl TreeViewBuilder2 {
    pub closed spec fn stack_view(&self) -> Seq<DirectoryState> {
        self.stack@
    }

    pub closed spec fn selected_view(&self) -> Option<u128> {
        self.selected
    }

    pub closed spec fn drag_view(&self) -> Option<u128> {
        self.drag
    }

    pub closed spec fn drop_view(&self) -> Option<(u128, DropPosition)> {
        self.drop
    }

    pub closed spec fn was_dragged_view(&self) -> bool {
        self.was_dragged_last_frame
    }

    /// Every builder keeps its directory stack consistent.
    #[verifier::type_invariant]
    pub open spec fn wf(&self) -> bool {
        stack_consistent(self.stack_view())
    }

    /// The innermost directory, if any.
    pub open spec fn current_dir_spec(&self) -> Option<DirectoryState> {
        if self.stack_view().len() == 0 {
            None
        } else {
            Some(self.stack_view().last())
        }
    }

    pub open spec fn current_dir_is_open_spec(&self) -> bool {
        match self.current_dir_spec() {
            Some(d) => d.is_open,
            None => true,
        }
    }

    pub open spec fn current_dir_drop_forbidden_spec(&self) -> bool {
        match self.current_dir_spec() {
            Some(d) => d.drop_forbidden,
            None => false,
        }
    }

    /// Starts laying out a frame with the selection and drag flag kept from
    /// the last one.
    pub fn new(selected: Option<u128>, was_dragged_last_frame: bool) -> (r: Self)
        ensures
            r.stack_view() == Seq::<DirectoryState>::empty(),
            r.selected_view() == selected,
            r.drag_view() is None,
            r.drop_view() is None,
            r.was_dragged_view() == was_dragged_last_frame,
    {
        TreeViewBuilder2 { stack: Vec::new(), selected, drag: None, drop: None, was_dragged_last_frame }
    }

    fn current_dir(&self) -> (r: Option<DirectoryState>)
        ensures
            r == self.current_dir_spec(),
    {
        if self.stack.len() == 0 {
            None
        } else {
            Some(self.stack[self.stack.len() - 1])
        }
    }

    /// Rows are shown only while every enclosing directory is open.
    pub fn current_dir_is_open(&self) -> (r: bool)
        ensures
            r == self.current_dir_is_open_spec(),
    {
        match self.current_dir() {
            Some(dir) => dir.is_open,
            None => true,
        }
    }

    pub fn current_dir_drop_forbidden(&self) -> (r: bool)
        ensures
            r == self.current_dir_drop_forbidden_spec(),
    {
        match self.current_dir() {
            Some(dir) => dir.drop_forbidden,
            None => false,
        }
    }

    pub fn is_selected(&self, id: u128) -> (r: bool)
        ensures
            r == (self.selected_view() == Some(id)),
    {
        match self.selected {
            Some(s) => s == id,
            None => false,
        }
    }

    pub fn is_dragged(&self, id: u128) -> (r: bool)
        ensures
            r == (self.drag_view() == Some(id)),
    {
        match self.drag {
            Some(d) => d == id,
            None => false,
        }
    }

    /// The parent directory of rows laid out now.
    pub open spec fn parent_spec(&self) -> Option<u128> {
        match self.current_dir_spec() {
            Some(d) => Some(d.id),
            None => None,
        }
    }

    /// The drop place that hovering the row `id` gives in this state.
    pub open spec fn hover_spec(&self, id: u128, drop_on_allowed: bool, is_open: bool, quarter: Option<DropQuarter>) -> Option<(u128, DropPosition)> {
        hover_decision(
            self.current_dir_drop_forbidden_spec(),
            self.parent_spec(),
            self.drag_view(),
            self.was_dragged_view(),
            self.selected_view(),
            id,
            drop_on_allowed,
            is_open,
            quarter,
        )
    }

    /// The drop place that the row `id` gives once this frame's click and
    /// drag on it are taken into account.
    pub open spec fn row_spec(&self, id: u128, drop_on_allowed: bool, is_open: bool, clicked: bool, dragged: bool, quarter: Option<DropQuarter>) -> Option<(u128, DropPosition)> {
        hover_decision(
            self.current_dir_drop_forbidden_spec(),
            self.parent_spec(),
            if dragged { Some(id) } else { self.drag_view() },
            self.was_dragged_view(),
            if clicked { Some(id) } else { self.selected_view() },
            id,
            drop_on_allowed,
            is_open,
            quarter,
        )
    }

    /// A click on a row, or on the open/close icon of a directory, selects it.
    pub fn select(&mut self, id: u128)
        ensures
            final(self).selected_view() == Some(id),
            final(self).stack_view() == old(self).stack_view(),
            final(self).drag_view() == old(self).drag_view(),
            final(self).drop_view() == old(self).drop_view(),
            final(self).was_dragged_view() == old(self).was_dragged_view(),
    {
        proof { use_type_invariant(&*self); }
        self.selected = Some(id);
    }

    /// A row that is dragged by the primary button, or released from such
    /// a drag, becomes the dragged node.
    pub fn drag(&mut self, id: u128)
        ensures
            final(self).drag_view() == Some(id),
            final(self).stack_view() == old(self).stack_view(),
            final(self).selected_view() == old(self).selected_view(),
            final(self).drop_view() == old(self).drop_view(),
            final(self).was_dragged_view() == old(self).was_dragged_view(),
    {
        proof { use_type_invariant(&*self); }
        self.drag = Some(id);
    }

    /// Pushes a directory onto the stack; its row is shown when the current
    /// directory is open. Then it is open as `is_open` says, and it refuses
    /// drops when its parent does or when it is the dragged node itself.
    /// Inside a closed directory it is closed and refuses drops.
    fn push_dir(&mut self, id: u128, is_open: bool) -> (shown: bool)
        ensures
            shown == old(self).current_dir_is_open_spec(),
            final(self).stack_view() == old(self).stack_view().push(
                if shown {
                    DirectoryState {
                        id,
                        is_open,
                        drop_forbidden: old(self).current_dir_drop_forbidden_spec() || old(self).drag_view() == Some(id),
                    }
                } else {
                    DirectoryState { id, is_open: false, drop_forbidden: true }
                },
            ),
            final(self).selected_view() == old(self).selected_view(),
            final(self).drag_view() == old(self).drag_view(),
            final(self).drop_view() == old(self).drop_view(),
            final(self).was_dragged_view() == old(self).was_dragged_view(),
    {
        proof { use_type_invariant(&*self); }
        let shown = self.current_dir_is_open();
        let dir = if !shown {
            DirectoryState { id, is_open: false, drop_forbidden: true }
        } else {
            let drop_forbidden = self.current_dir_drop_forbidden() || self.is_dragged(id);
            DirectoryState { id, is_open, drop_forbidden }
        };
        let mut stack: Vec<DirectoryState> = Vec::new();
        std::mem::swap(&mut stack, &mut self.stack);
        let ghost old_stack = stack@;
        stack.push(dir);
        assert forall|i: int, j: int| 0 <= i < j < stack@.len() implies {
            &&& (!(#[trigger] stack@[i]).is_open ==> !(#[trigger] stack@[j]).is_open)
            &&& (stack@[i].drop_forbidden ==> stack@[j].drop_forbidden)
        } by {
            assert(stack@[i] == old_stack[i]);
            if j < old_stack.len() {
                assert(stack@[j] == old_stack[j]);
            } else if old_stack.len() > 0 {
                let last = old_stack.len() - 1;
                if i < last {
                    assert(stack_consistent(old_stack));
                    assert(!old_stack[i].is_open ==> !old_stack[last].is_open);
                }
            }
        }
        self.stack = stack;
        shown
    }

    /// Lays out the row of `id`, with the interaction of this frame: a
    /// click selects the row, a drag by the primary button makes it the
    /// dragged node, and then hovering it for a drop decides as
    /// `hover_for_drop` says.
    fn row(&mut self, id: u128, drop_on_allowed: bool, is_open: bool, clicked: bool, dragged: bool, quarter: Option<DropQuarter>) -> (r: Option<(u128, DropPosition)>)
        ensures
            r == old(self).row_spec(id, drop_on_allowed, is_open, clicked, dragged, quarter),
            final(self).stack_view() == old(self).stack_view(),
            final(self).selected_view() == if clicked { Some(id) } else { old(self).selected_view() },
            final(self).drag_view() == if dragged { Some(id) } else { old(self).drag_view() },
            final(self).drop_view() == if r is Some { r } else { old(self).drop_view() },
            final(self).was_dragged_view() == old(self).was_dragged_view(),
    {
        if clicked {
            self.select(id);
        }
        if dragged {
            self.drag(id);
        }
        self.hover_for_drop(id, drop_on_allowed, is_open, quarter)
    }

    /// Lays out the leaf `id`. Inside a closed directory it is not shown and
    /// nothing changes (`None`). Otherwise a click selects it, a drag makes
    /// it the dragged node, and hovering it may mark a drop next to it, as
    /// `hover_for_drop` says for a row that takes no children: the result
    /// is `Some` of that drop place.
    pub fn leaf(&mut self, id: u128, clicked: bool, dragged: bool, quarter: Option<DropQuarter>) -> (r: Option<Option<(u128, DropPosition)>>)
        ensures
            !old(self).current_dir_is_open_spec() ==> r is None && *final(self) == *old(self),
            old(self).current_dir_is_open_spec() ==> {
                &&& r == Some(old(self).row_spec(id, false, false, clicked, dragged, quarter))
                &&& final(self).stack_view() == old(self).stack_view()
                &&& final(self).selected_view() == if clicked { Some(id) } else { old(self).selected_view() }
                &&& final(self).drag_view() == if dragged { Some(id) } else { old(self).drag_view() }
                &&& final(self).drop_view() == if r.unwrap() is Some { r.unwrap() } else { old(self).drop_view() }
                &&& final(self).was_dragged_view() == old(self).was_dragged_view()
            },
    {
        if !self.current_dir_is_open() {
            return None;
        }
        Some(self.row(id, false, false, clicked, dragged, quarter))
    }

    /// Lays out the directory `id`, which was open (`is_open`) in the last
    /// frame, and enters it. Inside a closed directory it is not shown: it
    /// is entered closed and refusing drops, and nothing else changes
    /// (`None`). Otherwise its row is laid out as for a leaf, but it takes
    /// children; a double click on the row and a click on its icon each
    /// toggle it, and a click on the icon selects it. It is then entered,
    /// refusing drops when the current directory does or when it is the
    /// dragged node. Gives the drop place of its row and whether it is open.
    pub fn dir(
        &mut self,
        id: u128,
        is_open: bool,
        clicked: bool,
        dragged: bool,
        double_clicked: bool,
        icon_clicked: bool,
        quarter: Option<DropQuarter>,
    ) -> (r: Option<(Option<(u128, DropPosition)>, bool)>)
        ensures
            !old(self).current_dir_is_open_spec() ==> {
                &&& r is None
                &&& final(self).stack_view() == old(self).stack_view().push(
                    DirectoryState { id, is_open: false, drop_forbidden: true },
                )
                &&& final(self).selected_view() == old(self).selected_view()
                &&& final(self).drag_view() == old(self).drag_view()
                &&& final(self).drop_view() == old(self).drop_view()
                &&& final(self).was_dragged_view() == old(self).was_dragged_view()
            },
            old(self).current_dir_is_open_spec() ==> {
                let drop = old(self).row_spec(id, true, is_open, clicked, dragged, quarter);
                let open = is_open != (double_clicked != icon_clicked);
                let drag = if dragged { Some(id) } else { old(self).drag_view() };
                &&& r == Some((drop, open))
                &&& final(self).stack_view() == old(self).stack_view().push(
                    DirectoryState {
                        id,
                        is_open: open,
                        drop_forbidden: old(self).current_dir_drop_forbidden_spec() || drag == Some(id),
                    },
                )
                &&& final(self).selected_view() == if clicked || icon_clicked { Some(id) } else { old(self).selected_view() }
                &&& final(self).drag_view() == drag
                &&& final(self).drop_view() == if drop is Some { drop } else { old(self).drop_view() }
                &&& final(self).was_dragged_view() == old(self).was_dragged_view()
            },
    {
        if !self.current_dir_is_open() {
            self.push_dir(id, false);
            return None;
        }
        let drop = self.row(id, true, is_open, clicked, dragged, quarter);
        let open = dir_open_after(is_open, double_clicked, icon_clicked);
        if icon_clicked {
            self.select(id);
        }
        self.push_dir(id, open);
        Some((drop, open))
    }

    /// Whether closing the current directory must mark a drop at its end.
    pub fn drop_marks_current_dir(&self) -> (r: bool)
        ensures
            r == match self.current_dir_spec() {
                Some(d) => self.drop_view() == Some((d.id, DropPosition::Last)),
                None => false,
            },
    {
        match self.current_dir() {
            Some(dir) => match self.drop {
                Some((parent, DropPosition::Last)) => parent == dir.id,
                _ => false,
            },
            None => false,
        }
    }

    /// Leaves the current directory.
    pub fn close_dir(&mut self) -> (closed: Option<DirectoryState>)
        ensures
            closed == old(self).current_dir_spec(),
            final(self).stack_view() == if old(self).stack_view().len() == 0 {
                old(self).stack_view()
            } else {
                old(self).stack_view().drop_last()
            },
            final(self).selected_view() == old(self).selected_view(),
            final(self).drag_view() == old(self).drag_view(),
            final(self).drop_view() == old(self).drop_view(),
            final(self).was_dragged_view() == old(self).was_dragged_view(),
    {
        proof { use_type_invariant(&*self); }
        let mut stack: Vec<DirectoryState> = Vec::new();
        std::mem::swap(&mut stack, &mut self.stack);
        let ghost old_stack = stack@;
        let closed = stack.pop();
        assert forall|i: int, j: int| 0 <= i < j < stack@.len() implies {
            &&& (!(#[trigger] stack@[i]).is_open ==> !(#[trigger] stack@[j]).is_open)
            &&& (stack@[i].drop_forbidden ==> stack@[j].drop_forbidden)
        } by {
            assert(stack@[i] == old_stack[i]);
            assert(stack@[j] == old_stack[j]);
        }
        self.stack = stack;
        closed
    }

    /// The pointer hovers the row `id` in the quarter `quarter` (none when
    /// it is not over the row): the drop place is `hover_spec`, and a drop
    /// place found is kept for the frame.
    pub fn hover_for_drop(&mut self, id: u128, drop_on_allowed: bool, is_open: bool, quarter: Option<DropQuarter>) -> (r: Option<(u128, DropPosition)>)
        ensures
            r == old(self).hover_spec(id, drop_on_allowed, is_open, quarter),
            final(self).drop_view() == if r is Some { r } else { old(self).drop_view() },
            final(self).stack_view() == old(self).stack_view(),
            final(self).selected_view() == old(self).selected_view(),
            final(self).drag_view() == old(self).drag_view(),
            final(self).was_dragged_view() == old(self).was_dragged_view(),
    {
        proof { use_type_invariant(&*self); }
        if self.current_dir_drop_forbidden() {
            return None;
        }
        if self.is_dragged(id) {
            return None;
        }
        if !self.was_dragged_last_frame {
            return None;
        }
        if self.is_selected(id) {
            return None;
        }
        let q = match quarter {
            Some(q) => q,
            None => return None,
        };
        let parent = match self.current_dir() {
            Some(dir) => Some(dir.id),
            None => None,
        };
        let pos = get_drop_position(id, drop_on_allowed, is_open, parent, q);
        if pos.is_some() {
            self.drop = pos;
        }
        pos
    }

    /// The action of the frame: when the pointer was released while a node
    /// was dragged over a drop place, that node is to be dropped there.
    pub fn finish(&self, pointer_released: bool) -> (r: Option<TreeViewAction>)
        ensures
            r == (match (self.drag_view(), self.drop_view()) {
                (Some(n), Some((receiver, position))) => if pointer_released {
                    Some(TreeViewAction::Drop { node_to_remove: n, receiver_node: receiver, position })
                } else {
                    None
                },
                _ => None,
            }),
    {
        if pointer_released {
            if let (Some(node_to_remove), Some((receiver_node, position))) = (self.drag, self.drop) {
                return Some(TreeViewAction::Drop { node_to_remove, receiver_node, position });
            }
        }
        None
    }

    /// Whether the next frame starts with a drag in progress.
    pub fn dragging(&self) -> (r: bool)
        ensures
            r == self.drag_view() is Some,
    {
        self.drag.is_some()
    }

    /// The selection to keep for the next frame.
    pub fn selected(&self) -> (r: Option<u128>)
        ensures
            r == self.selected_view(),
    {
        self.selected
    }
}

/// The drop place that hovering the row `id` gives: none inside a
/// directory that refuses drops (`forbidden`), on the dragged row, on the
/// selected row, when nothing was dragged in the last frame, or when the
/// pointer is not over the row; otherwise where `drop_position_for` says,
/// with `parent` as the directory the row stands in.
pub open spec fn hover_decision(
    forbidden: bool,
    parent: Option<u128>,
    drag: Option<u128>,
    was_dragged: bool,
    selected: Option<u128>,
    id: u128,
    drop_on_allowed: bool,
    is_open: bool,
    quarter: Option<DropQuarter>,
) -> Option<(u128, DropPosition)> {
    if forbidden || drag == Some(id) || !was_dragged || selected == Some(id) {
        None
    } else {
        match quarter {
            None => None,
            Some(q) => drop_position_for(id, drop_on_allowed, is_open, parent, q),
        }
    }
}

/// Where a drop over the row `id` goes (see `drop_position_for`).
pub fn get_drop_position(id: u128, drop_on_allowed: bool, is_open: bool, parent: Option<u128>, quarter: DropQuarter) -> (r: Option<(u128, DropPosition)>)
    ensures
        r == drop_position_for(id, drop_on_allowed, is_open, parent, quarter),
{
    match quarter {
        DropQuarter::Top => {
            if let Some(p) = parent {
                return Some((p, DropPosition::Before(id)));
            }
            if drop_on_allowed {
                return Some((id, DropPosition::Last));
            }
            None
        },
        DropQuarter::MiddleTop => {
            if drop_on_allowed {
                return Some((id, DropPosition::Last));
            }
            if let Some(p) = parent {
                return Some((p, DropPosition::Before(id)));
            }
            None
        },
        DropQuarter::MiddleBottom => {
            if drop_on_allowed {
                return Some((id, DropPosition::Last));
            }
            if let Some(p) = parent {
                return Some((p, DropPosition::After(id)));
            }
            None
        },
        DropQuarter::Bottom => {
            if drop_on_allowed && is_open {
                return Some((id, DropPosition::First));
            }
            if let Some(p) = parent {
                return Some((p, DropPosition::After(id)));
            }
            if drop_on_allowed {
                return Some((id, DropPosition::Last));
            }
            None
        },
    }
}

/// Whether a directory is open after its row was interacted with: a double
/// click on the row and a click on its icon each toggle it.
pub fn dir_open_after(open: bool, double_clicked: bool, icon_clicked: bool) -> (r: bool)
    ensures
        r == (open != (double_clicked != icon_clicked)),
{
    let mut open = open;
    if double_clicked {
        open = !open;
    }
    if icon_clicked {
        open = !open;
    }
    open
}

/// A drop goes either into the hovered row itself, which must then take
/// children, or next to it into the directory it stands in; and a drop
/// into the row itself at its front happens only when the row is open.
pub proof fn law_drop_goes_into_row_or_parent(
    id: u128,
    drop_on_allowed: bool,
    is_open: bool,
    parent: Option<u128>,
    quarter: DropQuarter,
)
    ensures
        match drop_position_for(id, drop_on_allowed, is_open, parent, quarter) {
            Some((target, pos)) => {
                ||| (target == id && drop_on_allowed && (pos == DropPosition::Last || (pos == DropPosition::First && is_open)))
                ||| (parent == Some(target) && (pos == DropPosition::Before(id) || pos == DropPosition::After(id)))
            },
            None => !drop_on_allowed && parent is None,
        },
{
}

/// Leaving a directory undoes entering it: when the stack of one state is
/// that of another with a directory pushed, closing that directory gives
/// the first stack back.
pub proof fn law_close_undoes_enter(before: TreeViewBuilder2, entered: TreeViewBuilder2, dir: DirectoryState)
    requires
        entered.stack_view() == before.stack_view().push(dir),
    ensures
        entered.stack_view().len() > 0,
        entered.stack_view().drop_last() == before.stack_view(),
        entered.current_dir_spec() == Some(dir),
{
    assert(entered.stack_view().drop_last() =~= before.stack_view());
}

/// Collapsing and dragging reach every depth: below a closed directory no
/// row is shown, and below a directory that refuses drops none is taken,
/// however deep the current directory lies.
pub proof fn law_collapse_and_refusal_reach_all_depths(b: TreeViewBuilder2, i: int)
    requires
        b.wf(),
        0 <= i < b.stack_view().len(),
    ensures
        !b.stack_view()[i].is_open ==> !b.current_dir_is_open_spec(),
        b.stack_view()[i].drop_forbidden ==> b.current_dir_drop_forbidden_spec(),
{
    let last = b.stack_view().len() - 1;
    if i < last {
        assert(!b.stack_view()[i].is_open ==> !b.stack_view()[last].is_open);
    }
}

/// Where each quarter of a row puts a drop. The top quarter of a row in a
/// directory `p` always puts it right before the row, whatever the row
/// takes; the bottom quarter puts it first into an open row that takes
/// children, and otherwise right after the row. The two middle quarters
/// put it last into a row that takes children, and otherwise before (upper
/// middle) or after (lower middle) the row. A row in no directory takes a
/// drop only into itself, and only when it takes children: first when its
/// bottom quarter is hovered while it is open, else last.
pub proof fn law_drop_place_by_quarter(id: u128, drop_on_allowed: bool, is_open: bool, parent: Option<u128>)
    ensures
        parent matches Some(p) ==> drop_position_for(id, drop_on_allowed, is_open, parent, DropQuarter::Top)
            == Some((p, DropPosition::Before(id))),
        parent matches Some(p) ==> drop_position_for(id, drop_on_allowed, is_open, parent, DropQuarter::Bottom)
            == if drop_on_allowed && is_open { Some((id, DropPosition::First)) } else { Some((p, DropPosition::After(id))) },
        drop_on_allowed ==> drop_position_for(id, drop_on_allowed, is_open, parent, DropQuarter::MiddleTop)
            == Some((id, DropPosition::Last)),
        drop_on_allowed ==> drop_position_for(id, drop_on_allowed, is_open, parent, DropQuarter::MiddleBottom)
            == Some((id, DropPosition::Last)),
        !drop_on_allowed ==> (parent matches Some(p) ==> drop_position_for(id, drop_on_allowed, is_open, parent, DropQuarter::MiddleTop)
            == Some((p, DropPosition::Before(id)))),
        !drop_on_allowed ==> (parent matches Some(p) ==> drop_position_for(id, drop_on_allowed, is_open, parent, DropQuarter::MiddleBottom)
            == Some((p, DropPosition::After(id)))),
        parent is None ==> forall|q: DropQuarter| #[trigger] drop_position_for(id, drop_on_allowed, is_open, parent, q)
            == if !drop_on_allowed {
                None
            } else if q == DropQuarter::Bottom && is_open {
                Some((id, DropPosition::First))
            } else {
                Some((id, DropPosition::Last))
            },
{
}

/// A drop is never taken on the dragged row, on the selected row, inside a
/// directory that refuses drops, when nothing was dragged in the last
/// frame, or when the pointer is not over the row; every drop taken is a
/// place next to the row in its directory or inside the row itself.
pub proof fn law_hover_refusals(
    forbidden: bool,
    parent: Option<u128>,
    drag: Option<u128>,
    was_dragged: bool,
    selected: Option<u128>,
    id: u128,
    drop_on_allowed: bool,
    is_open: bool,
    quarter: Option<DropQuarter>,
)
    ensures
        drag == Some(id) ==> hover_decision(forbidden, parent, drag, was_dragged, selected, id, drop_on_allowed, is_open, quarter) is None,
        selected == Some(id) ==> hover_decision(forbidden, parent, drag, was_dragged, selected, id, drop_on_allowed, is_open, quarter) is None,
        forbidden ==> hover_decision(forbidden, parent, drag, was_dragged, selected, id, drop_on_allowed, is_open, quarter) is None,
        !was_dragged ==> hover_decision(forbidden, parent, drag, was_dragged, selected, id, drop_on_allowed, is_open, quarter) is None,
        quarter is None ==> hover_decision(forbidden, parent, drag, was_dragged, selected, id, drop_on_allowed, is_open, quarter) is None,
        (!forbidden && drag != Some(id) && was_dragged && selected != Some(id))
            ==> (quarter matches Some(q) ==> hover_decision(forbidden, parent, drag, was_dragged, selected, id, drop_on_allowed, is_open, quarter)
                == drop_position_for(id, drop_on_allowed, is_open, parent, q)),
{
}

} // verus!
