use timing_tower::drop_position::{insert_at_position, position_of, DropPosition};
use timing_tower::graphic_states::{
    add_state, drag_allowed, move_state, selected_state_index, GraphicState,
    GraphicStateSelection, TEMPLATE_ID,
};

fn state(id: u128, name: &str) -> GraphicState {
    GraphicState { id, name: String::from(name) }
}

fn sample() -> Vec<GraphicState> {
    vec![state(1, "a"), state(2, "b"), state(3, "c"), state(4, "d")]
}

fn ids(states: &Vec<GraphicState>) -> Vec<u128> {
    states.iter().map(|s| s.id).collect()
}

#[test]
fn position_of_finds_first_occurrence() {
    let v = vec![state(5, "x"), state(6, "y"), state(5, "z")];
    assert_eq!(position_of(&v, 5), Some(0));
    assert_eq!(position_of(&v, 6), Some(1));
    assert_eq!(position_of(&v, 7), None);
    assert_eq!(position_of(&Vec::<GraphicState>::new(), 5), None);
}

#[test]
fn insert_at_each_position() {
    let mut v = sample();
    insert_at_position(&mut v, DropPosition::First, state(10, "f"));
    assert_eq!(ids(&v), vec![10, 1, 2, 3, 4]);
    insert_at_position(&mut v, DropPosition::Last, state(11, "l"));
    assert_eq!(ids(&v), vec![10, 1, 2, 3, 4, 11]);
    insert_at_position(&mut v, DropPosition::After(2), state(12, "a2"));
    assert_eq!(ids(&v), vec![10, 1, 2, 12, 3, 4, 11]);
    insert_at_position(&mut v, DropPosition::Before(2), state(13, "b2"));
    assert_eq!(ids(&v), vec![10, 1, 13, 2, 12, 3, 4, 11]);
    insert_at_position(&mut v, DropPosition::Before(99), state(14, "missing"));
    assert_eq!(*ids(&v).last().unwrap(), 14);
}

#[test]
fn move_state_after_another() {
    let mut v = sample();
    assert!(move_state(&mut v, 1, DropPosition::After(3)));
    assert_eq!(ids(&v), vec![2, 3, 1, 4]);
}

#[test]
fn move_state_before_another() {
    let mut v = sample();
    assert!(move_state(&mut v, 4, DropPosition::Before(2)));
    assert_eq!(ids(&v), vec![1, 4, 2, 3]);
}

#[test]
fn move_state_first_and_last() {
    let mut v = sample();
    assert!(move_state(&mut v, 3, DropPosition::First));
    assert_eq!(ids(&v), vec![3, 1, 2, 4]);
    assert!(move_state(&mut v, 3, DropPosition::Last));
    assert_eq!(ids(&v), vec![1, 2, 4, 3]);
}

#[test]
fn move_state_next_to_template_goes_first() {
    let mut v = sample();
    assert!(move_state(&mut v, 4, DropPosition::After(TEMPLATE_ID)));
    assert_eq!(ids(&v), vec![4, 1, 2, 3]);
    assert!(move_state(&mut v, 3, DropPosition::Before(TEMPLATE_ID)));
    assert_eq!(ids(&v), vec![3, 4, 1, 2]);
}

#[test]
fn move_state_next_to_missing_state_goes_last() {
    let mut v = sample();
    assert!(move_state(&mut v, 1, DropPosition::After(42)));
    assert_eq!(ids(&v), vec![2, 3, 4, 1]);
}

#[test]
fn template_and_unknown_states_do_not_move() {
    let mut v = sample();
    assert!(!move_state(&mut v, TEMPLATE_ID, DropPosition::First));
    assert!(!move_state(&mut v, 77, DropPosition::First));
    assert_eq!(ids(&v), vec![1, 2, 3, 4]);
}

#[test]
fn moving_keeps_every_state() {
    let mut v = sample();
    move_state(&mut v, 2, DropPosition::Last);
    move_state(&mut v, 4, DropPosition::First);
    move_state(&mut v, 1, DropPosition::After(3));
    let mut sorted = ids(&v);
    sorted.sort();
    assert_eq!(sorted, vec![1, 2, 3, 4]);
    let mut names: Vec<String> = v.iter().map(|s| s.name.clone()).collect();
    names.sort();
    assert_eq!(names, vec!["a", "b", "c", "d"]);
}

#[test]
fn only_the_template_cannot_be_dragged() {
    assert!(!drag_allowed(TEMPLATE_ID));
    assert!(drag_allowed(1));
    assert!(drag_allowed(0));
}

#[test]
fn added_state_is_new_and_random() {
    let mut v = sample();
    add_state(&mut v);
    add_state(&mut v);
    assert_eq!(v.len(), 6);
    assert_eq!(ids(&v)[..4], [1, 2, 3, 4]);
    assert_eq!(v[4].name, "new state");
    assert_eq!(v[5].name, "new state");
    assert_eq!((v[4].id >> 76) & 0xF, 4);
    assert_eq!((v[4].id >> 62) & 0x3, 2);
    assert_ne!(v[4].id, v[5].id);
}

#[test]
fn state_selection_remembers_per_graphic() {
    let mut sel = GraphicStateSelection::default();
    assert_eq!(sel.selected(100), None);
    sel.select(100, 2);
    sel.select(200, 3);
    assert_eq!(sel.selected(100), Some(2));
    assert_eq!(sel.selected(200), Some(3));
    sel.select(100, 0);
    assert_eq!(sel.selected(100), None);
    assert_eq!(sel.selected(200), Some(3));
}

#[test]
fn selected_state_index_finds_the_state() {
    let v = sample();
    assert_eq!(selected_state_index(&v, Some(3)), Some(2));
    assert_eq!(selected_state_index(&v, Some(9)), None);
    assert_eq!(selected_state_index(&v, None), None);
}
