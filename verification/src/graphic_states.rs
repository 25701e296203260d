//! The states of a graphic: a list that the state tree view reorders, and
//! the state that is selected for each graphic.

use std::collections::HashMap;

use vstd::prelude::*;

use crate::drop_position::{
    first_index, insert_at_position, insertion_index, keys_of, position_of, DropPosition, Keyed,
};
use crate::ids::{new_uuid, UUID_V4_BITS, UUID_VERSION_MASK};

verus! {

broadcast use vstd::std_specs::hash::group_hash_axioms;

/// The fixed id of the template row of the state tree. The template is no
/// state of the list: it stands first and cannot be moved.
pub const TEMPLATE_ID: u128 = 0x3bd691e6_4a87_4082_89da_31a7cfb3967cu128;

/// A named state of a graphic.
pub struct GraphicState {
    pub id: u128,
    pub name: String,
}

impl Keyed for GraphicState {
    open spec fn key(&self) -> u128 {
        self.id
    }

    fn id(&self) -> (r: u128) {
        self.id
    }
}

/// The list `s` after the state `source` is dropped at `pos`: the first
/// state with that id leaves its place and is inserted at `pos` in the list
/// that is left. A drop next to the template row puts it first. Nothing
/// moves when `source` is the template or not in the list.
pub open spec fn states_after_move(s: Seq<GraphicState>, source: u128, pos: DropPosition) -> Seq<GraphicState> {
    if source == TEMPLATE_ID {
        s
    } else {
        match first_index(keys_of(s), source) {
            None => s,
            Some(i) => {
                let rest = s.remove(i);
                let k = match pos {
                    DropPosition::After(id) => if id == TEMPLATE_ID { 0 } else { insertion_index(keys_of(rest), pos) },
                    DropPosition::Before(id) => if id == TEMPLATE_ID { 0 } else { insertion_index(keys_of(rest), pos) },
                    _ => insertion_index(keys_of(rest), pos),
                };
                rest.insert(k, s[i])
            },
        }
    }
}

/// Whether a drop of `source` moves a state.
pub open spec fn state_moves(s: Seq<GraphicState>, source: u128) -> bool {
    source != TEMPLATE_ID && first_index(keys_of(s), source) is Some
}

/// Moves the state `source` to `position` as the state tree view asks on a
/// drop; returns whether a state moved.
pub fn move_state(states: &mut Vec<GraphicState>, source: u128, position: DropPosition) -> (moved: bool)
    ensures
        moved == state_moves(old(states)@, source),
        final(states)@ == states_after_move(old(states)@, source, position),
{
    if source == TEMPLATE_ID {
        return false;
    }
    match position_of(states, source) {
        None => false,
        Some(source_idx) => {
            let state = states.remove(source_idx);
            match position {
                DropPosition::After(id) if id == TEMPLATE_ID => states.insert(0, state),
                DropPosition::Before(id) if id == TEMPLATE_ID => states.insert(0, state),
                _ => insert_at_position(states, position, state),
            }
            true
        },
    }
}

/// A drag of `source` may show a drop marker unless it is the template.
pub fn drag_allowed(source: u128) -> (r: bool)
    ensures
        r == (source != TEMPLATE_ID),
{
    source != TEMPLATE_ID
}

/// Appends a new state called "new state" with a fresh random id.
pub fn add_state(states: &mut Vec<GraphicState>)
    ensures
        final(states)@.len() == old(states)@.len() + 1,
        final(states)@.drop_last() == old(states)@,
        final(states)@.last().name@ == "new state"@,
        final(states)@.last().id & UUID_VERSION_MASK == UUID_V4_BITS,
{
    let id = new_uuid();
    states.push(GraphicState { id, name: String::from_str("new state") });
    assert(states@.drop_last() =~= old(states)@);
}

/// Moving a state reorders the list and keeps every state: the states
/// after the move are those before, each as often.
pub proof fn law_move_keeps_states(s: Seq<GraphicState>, source: u128, pos: DropPosition)
    ensures
        states_after_move(s, source, pos).to_multiset() == s.to_multiset(),
        states_after_move(s, source, pos).len() == s.len(),
{
    broadcast use vstd::seq_lib::to_multiset_remove, vstd::seq_lib::to_multiset_insert, vstd::multiset::group_multiset_axioms;

    if source != TEMPLATE_ID {
        if let Some(i) = first_index(keys_of(s), source) {
            let ks = keys_of(s);
            let ki = choose|k: int| crate::drop_position::is_first_index(ks, source, k);
            assert(crate::drop_position::is_first_index(ks, source, ki));
            let rest = s.remove(i);
            crate::drop_position::lemma_insertion_index_bounds(keys_of(rest), pos);
            let k = match pos {
                DropPosition::After(id) => if id == TEMPLATE_ID { 0 } else { insertion_index(keys_of(rest), pos) },
                DropPosition::Before(id) => if id == TEMPLATE_ID { 0 } else { insertion_index(keys_of(rest), pos) },
                _ => insertion_index(keys_of(rest), pos),
            };
            assert(rest.insert(k, s[i]).to_multiset() == rest.to_multiset().insert(s[i]));
            assert(rest.to_multiset() == s.to_multiset().remove(s[i]));
            assert(s.to_multiset().count(s[i]) > 0) by {
                vstd::seq_lib::to_multiset_contains(s, s[i]);
                assert(s.contains(s[i]));
            }
            assert(s.to_multiset().remove(s[i]).insert(s[i]) =~= s.to_multiset());
        }
    }
}

/// A moved state lands where the drop says and nothing else moves: when
/// `source` is a state of the list other than the template, the first
/// state with that id is taken out and put back at one place `k` of the
/// result, the other states keep their order, and `k` is first, last,
/// right before or right after the first state with the named id in what
/// is left. Next to the template it lands first; next to an id that is not
/// left it lands last.
pub proof fn law_moved_state_lands_at_its_place(s: Seq<GraphicState>, source: u128, pos: DropPosition)
    requires
        source != TEMPLATE_ID,
        keys_of(s).contains(source),
    ensures
        first_index(keys_of(s), source) is Some,
        ({
            let i = first_index(keys_of(s), source).unwrap();
            let rest = s.remove(i);
            let r = states_after_move(s, source, pos);
            &&& r.len() == s.len()
            &&& exists|k: int|
                0 <= k < r.len() && #[trigger] r[k] == s[i] && r.remove(k) == rest && (
                    match pos {
                        DropPosition::First => k == 0,
                        DropPosition::Last => k == r.len() - 1,
                        DropPosition::Before(y) => if y == TEMPLATE_ID {
                            k == 0
                        } else if keys_of(rest).contains(y) {
                            &&& k + 1 < r.len()
                            &&& r[k + 1].id == y
                            &&& forall|j: int| 0 <= j < k ==> r[j].id != y
                        } else {
                            k == r.len() - 1
                        },
                        DropPosition::After(y) => if y == TEMPLATE_ID {
                            k == 0
                        } else if keys_of(rest).contains(y) {
                            &&& k > 0
                            &&& r[k - 1].id == y
                            &&& forall|j: int| 0 <= j < k - 1 ==> r[j].id != y
                        } else {
                            k == r.len() - 1
                        },
                    }
                )
        }),
{
    crate::drop_position::lemma_contains_first_index(keys_of(s), source);
    let i = first_index(keys_of(s), source).unwrap();
    let rest = s.remove(i);
    let ks = keys_of(rest);
    crate::drop_position::lemma_insertion_index_bounds(ks, pos);
    let k = match pos {
        DropPosition::After(id) => if id == TEMPLATE_ID { 0 } else { insertion_index(ks, pos) },
        DropPosition::Before(id) => if id == TEMPLATE_ID { 0 } else { insertion_index(ks, pos) },
        _ => insertion_index(ks, pos),
    };
    let r = rest.insert(k, s[i]);
    assert(r == states_after_move(s, source, pos));
    assert(r.remove(k) =~= rest);
    assert(r[k] == s[i]);
    match pos {
        DropPosition::Before(y) => {
            if y != TEMPLATE_ID {
                crate::drop_position::lemma_contains_first_index(ks, y);
                if ks.contains(y) {
                    let j = first_index(ks, y).unwrap();
                    assert(ks[j] == rest[j].id);
                    assert(r[k + 1] == rest[j]);
                    assert forall|jj: int| 0 <= jj < k implies r[jj].id != y by {
                        assert(r[jj] == rest[jj]);
                        assert(ks[jj] == rest[jj].id);
                    }
                }
            }
        },
        DropPosition::After(y) => {
            if y != TEMPLATE_ID {
                crate::drop_position::lemma_contains_first_index(ks, y);
                if ks.contains(y) {
                    let j = first_index(ks, y).unwrap();
                    assert(ks[j] == rest[j].id);
                    assert(r[k - 1] == rest[j]);
                    assert forall|jj: int| 0 <= jj < k - 1 implies r[jj].id != y by {
                        assert(r[jj] == rest[jj]);
                        assert(ks[jj] == rest[jj].id);
                    }
                }
            }
        },
        _ => {},
    }
}

/// The state that is shown for each graphic, by graphic id. In the state
/// tree that this selection backs, the template row has the nil id; a
/// graphic without an entry shows its template.
pub struct GraphicStateSelection {
    states: HashMap<u128, u128>,
}

impl GraphicStateSelection {
    pub closed spec fn view_map(&self) -> Map<u128, u128> {
        self.states@
    }

    /// The selection after the row `state` of the state tree of `graphic`
    /// was selected: the template row clears the graphic's entry.
    pub open spec fn after_select(m: Map<u128, u128>, graphic: u128, state: u128) -> Map<u128, u128> {
        if state == 0 {
            m.remove(graphic)
        } else {
            m.insert(graphic, state)
        }
    }

    /// The row `state` of the state tree of `graphic` was selected.
    pub fn select(&mut self, graphic: u128, state: u128)
        ensures
            final(self).view_map() == Self::after_select(old(self).view_map(), graphic, state),
    {
        if state == 0 {
            self.states.remove(&graphic);
        } else {
            self.states.insert(graphic, state);
        }
    }

    /// The state shown for `graphic`, `None` for its template.
    pub fn selected(&self, graphic: u128) -> (r: Option<u128>)
        ensures
            r == (if self.view_map().contains_key(graphic) { Some(self.view_map()[graphic]) } else { None }),
    {
        match self.states.get(&graphic) {
            Some(s) => Some(*s),
            None => None,
        }
    }
}

impl Default for GraphicStateSelection {
    /// No graphic shows a state other than its template.
    fn default() -> (r: Self)
        ensures
            r.view_map() == Map::<u128, u128>::empty(),
    {
        GraphicStateSelection { states: HashMap::new() }
    }
}

/// The index of the state that the editor shows for editing: the first
/// state of the graphic whose id is the selected one.
pub fn selected_state_index(states: &Vec<GraphicState>, selected: Option<u128>) -> (r: Option<usize>)
    ensures
        r == match selected {
            None => None,
            Some(id) => match first_index(keys_of(states@), id) {
                None => None,
                Some(i) => Some(i as usize),
            },
        },
{
    match selected {
        None => None,
        Some(id) => position_of(states, id),
    }
}

/// What the state tree shows after a row is selected: the state of that
/// row, or the template (no entry) for the template row, and the other
/// graphics keep what they showed.
pub proof fn law_selected_state_is_shown(m: Map<u128, u128>, graphic: u128, state: u128, other: u128)
    requires
        other != graphic,
    ensures
        GraphicStateSelection::after_select(m, graphic, state).contains_key(graphic) <==> state != 0,
        state != 0 ==> GraphicStateSelection::after_select(m, graphic, state)[graphic] == state,
        GraphicStateSelection::after_select(m, graphic, state).contains_key(other) == m.contains_key(other),
        m.contains_key(other) ==> GraphicStateSelection::after_select(m, graphic, state)[other] == m[other],
{
}

} // verus!
