//! Which style item is selected in the editor, and what is selected inside
//! each style item.

use std::collections::HashMap;
use std::collections::hash_map::Entry;

use vstd::prelude::*;

verus! {

broadcast use vstd::std_specs::hash::group_hash_axioms;

/// What is selected inside one style item: a graphic item and a state.
#[derive(Clone, Copy, Debug, PartialEq, Eq, Structural)]
pub struct SelectionState {
    pub graphic_item: Option<u128>,
    pub graphic_state: Option<u128>,
}

impl Default for SelectionState {
    fn default() -> (r: Self)
        ensures
            r == empty_selection(),
    {
        SelectionState { graphic_item: None, graphic_state: None }
    }
}

/// Nothing selected.
pub open spec fn empty_selection() -> SelectionState {
    SelectionState { graphic_item: None, graphic_state: None }
}

/// The selected style item and, for each style item that was ever
/// selected, what is selected inside it.
pub struct SelectionManager {
    states: HashMap<u128, SelectionState>,
    selected: Option<u128>,
}

impl SelectionManager {
    pub closed spec fn states_view(&self) -> Map<u128, SelectionState> {
        self.states@
    }

    pub closed spec fn selected_view(&self) -> Option<u128> {
        self.selected
    }

    /// The manager holds an inner selection for its selected style item.
    /// The default manager has this property and every method keeps it.
    pub open spec fn wf(&self) -> bool {
        self.selected_view() matches Some(id) ==> self.states_view().contains_key(id)
    }

    /// What `selected_state` gives: the selection inside the selected style
    /// item.
    pub open spec fn selected_state_spec(&self) -> Option<SelectionState> {
        match self.selected_view() {
            Some(id) => if self.states_view().contains_key(id) {
                Some(self.states_view()[id])
            } else {
                None
            },
            None => None,
        }
    }

    /// Selects the style item `style_id`; its inner selection is kept, or
    /// starts empty the first time it is selected.
    pub fn set_selected(&mut self, style_id: u128)
        ensures
            final(self).selected_view() == Some(style_id),
            final(self).states_view() == if old(self).states_view().contains_key(style_id) {
                old(self).states_view()
            } else {
                old(self).states_view().insert(style_id, empty_selection())
            },
            final(self).wf(),
    {
        if !self.states.contains_key(&style_id) {
            self.states.insert(style_id, SelectionState::default());
        }
        self.selected = Some(style_id);
        proof {
            if old(self).states_view().contains_key(style_id) {
                assert(self.states_view() =~= old(self).states_view());
            }
        }
    }

    /// The selection inside the selected style item.
    pub fn selected_state(&self) -> (r: Option<&SelectionState>)
        ensures
            self.wf() ==> (r is Some <==> self.selected_view() is Some),
            match r {
                Some(s) => self.selected_state_spec() == Some(*s),
                None => self.selected_state_spec() is None,
            },
    {
        match self.selected {
            Some(id) => self.states.get(&id),
            None => None,
        }
    }

    /// The selection inside the selected style item, for changing it.
    pub fn selected_state_mut(&mut self) -> (r: Option<&mut SelectionState>)
        ensures
            old(self).wf() ==> (r is Some <==> old(self).selected_view() is Some),
            old(self).wf() ==> final(self).wf(),
            match r {
                Some(s) => {
                    &&& old(self).selected_state_spec() == Some(*s)
                    &&& final(self).selected_view() == old(self).selected_view()
                    &&& final(self).states_view() == old(self).states_view().insert(
                        old(self).selected_view().unwrap(),
                        *final(s),
                    )
                },
                None => {
                    &&& old(self).selected_state_spec() is None
                    &&& *final(self) == *old(self)
                },
            },
    {
        match self.selected {
            Some(id) => {
                if !self.states.contains_key(&id) {
                    return None;
                }
                match self.states.entry(id) {
                    Entry::Occupied(o) => Some(o.into_mut()),
                    Entry::Vacant(_) => None,
                }
            },
            None => None,
        }
    }

    /// The selected style item.
    pub fn selected(&self) -> (r: Option<u128>)
        ensures
            r == self.selected_view(),
    {
        self.selected
    }
}

impl Default for SelectionManager {
    /// A manager with nothing selected.
    fn default() -> (r: Self)
        ensures
            r.states_view() == Map::<u128, SelectionState>::empty(),
            r.selected_view() is None,
            r.wf(),
    {
        SelectionManager { states: HashMap::new(), selected: None }
    }
}

/// Selecting a style item makes its inner selection available, and
/// selecting it again later brings back what was selected inside it.
pub proof fn law_selection_is_remembered(m0: SelectionManager, m1: SelectionManager, id: u128)
    requires
        m1.selected_view() == Some(id),
        m1.states_view() == if m0.states_view().contains_key(id) {
            m0.states_view()
        } else {
            m0.states_view().insert(id, empty_selection())
        },
    ensures
        m1.selected_state_spec() == Some(
            if m0.states_view().contains_key(id) { m0.states_view()[id] } else { empty_selection() },
        ),
{
}

/// For every manager reachable from the default one by selecting and
/// editing (all of which keep `wf`), the selection inside the selected
/// style item is there exactly when a style item is selected.
pub proof fn law_selected_item_has_state(m: SelectionManager)
    requires
        m.wf(),
    ensures
        m.selected_state_spec() is Some <==> m.selected_view() is Some,
{
}

} // verus!
