use timing_tower::asset_paths::WebAssetPathStore;
use timing_tower::cell_batching::{first_layer, group_by_layer, group_runs, TOTAL_LAYERS};
use timing_tower::cell_manager::{clip_camera_layer, CellManager, CellStep, ClipArea, Removed, StyleCommandKind};
use timing_tower::remote::{on_client_event, retain_connected, ClientEvent, ClientReaction, Connection};
use timing_tower::renderer::{on_ws_event, FrameCounter, WsEventKind, WsReaction};

#[test]
fn frame_counter_counts_and_rolls_over_each_second() {
    let mut c = FrameCounter::default();
    assert_eq!(c.last_count(), 0);
    c.inc();
    c.inc();
    c.inc();
    assert_eq!(c.last_count(), 0);
    c.end_second();
    assert_eq!(c.last_count(), 3);
    c.inc();
    c.end_second();
    assert_eq!(c.last_count(), 1);
    c.end_second();
    assert_eq!(c.last_count(), 0);
    assert!(c.can_inc());
}

#[test]
fn websocket_events() {
    assert_eq!(on_ws_event(false, WsEventKind::Opened), (true, WsReaction::SendOpened));
    assert_eq!(on_ws_event(true, WsEventKind::BinaryMessage), (true, WsReaction::Deliver));
    assert_eq!(on_ws_event(false, WsEventKind::BinaryMessage), (false, WsReaction::Deliver));
    assert_eq!(on_ws_event(true, WsEventKind::OtherMessage), (true, WsReaction::Log));
    assert_eq!(on_ws_event(true, WsEventKind::Error), (true, WsReaction::Log));
    assert_eq!(on_ws_event(true, WsEventKind::Closed), (false, WsReaction::Log));
}

#[test]
fn cell_manager_remembers_and_removes() {
    let mut m = CellManager::default();
    assert_eq!(m.cell(1), None);
    m.insert_cell(1, 100);
    m.insert_cell(2, 200);
    m.insert_cell(1, 101);
    assert_eq!(m.cell(1), Some(101));
    let clip = ClipArea { cell: 300, texture: 301, camera: 302 };
    m.insert_clip_area(3, clip);
    assert_eq!(m.clip_area(3), Some(clip));
    assert_eq!(m.clip_area(1), None);
    assert_eq!(m.remove(1), Removed { cell: Some(101), clip_area: None });
    assert_eq!(m.cell(1), None);
    assert_eq!(m.cell(2), Some(200));
    assert_eq!(m.remove(3), Removed { cell: None, clip_area: Some(clip) });
    assert_eq!(m.clip_area(3), None);
    assert_eq!(m.remove(3), Removed { cell: None, clip_area: None });
}

#[test]
fn clip_camera_renders_its_layer_or_nothing() {
    assert_eq!(clip_camera_layer(0), None);
    assert_eq!(clip_camera_layer(1), Some(1));
    assert_eq!(clip_camera_layer(31), Some(31));
}

#[test]
fn first_layer_of_masks() {
    assert_eq!(TOTAL_LAYERS, 32);
    assert_eq!(first_layer(0), None);
    assert_eq!(first_layer(1), Some(0));
    assert_eq!(first_layer(0b1010_0000), Some(5));
    assert_eq!(first_layer(0x8000_0000), Some(31));
}

#[test]
fn runs_of_equal_hashes() {
    assert_eq!(group_runs(&vec![]), vec![]);
    assert_eq!(group_runs(&vec![7]), vec![(0, 1)]);
    assert_eq!(group_runs(&vec![1, 1, 2, 2, 2, 1]), vec![(0, 2), (2, 5), (5, 6)]);
    assert_eq!(group_runs(&vec![3, 4, 5]), vec![(0, 1), (1, 2), (2, 3)]);
}

#[test]
fn remote_client_events() {
    assert_eq!(on_client_event(true, ClientEvent::Close), (false, ClientReaction::Ignore));
    assert_eq!(on_client_event(true, ClientEvent::Opened), (true, ClientReaction::SendCellStyle));
    assert_eq!(on_client_event(true, ClientEvent::CellStyle), (true, ClientReaction::Ignore));
    assert_eq!(on_client_event(true, ClientEvent::OtherMessage), (true, ClientReaction::Print));
    assert_eq!(on_client_event(true, ClientEvent::WouldBlock), (true, ClientReaction::Ignore));
    assert_eq!(on_client_event(true, ClientEvent::Error), (false, ClientReaction::LogError));
}

#[test]
fn disconnected_clients_are_dropped_in_order() {
    let mut clients = vec![
        Connection { connected: true, client: "a" },
        Connection { connected: false, client: "b" },
        Connection { connected: true, client: "c" },
        Connection { connected: false, client: "d" },
    ];
    retain_connected(&mut clients);
    let names: Vec<&str> = clients.iter().map(|c| c.client).collect();
    assert_eq!(names, vec!["a", "c"]);
    let mut none: Vec<Connection<u8>> = vec![Connection { connected: false, client: 1 }];
    retain_connected(&mut none);
    assert!(none.is_empty());
}

#[test]
fn asset_paths_are_replaced_by_the_last_start_message() {
    let mut store = WebAssetPathStore::default();
    assert!(store.get(1).is_none());
    assert!(!store.assets_received(vec![]));
    assert!(!store.assets_received(vec![None, None]));
    assert!(store.get(1).is_none());
    assert!(store.assets_received(vec![
        Some(vec![(9, String::from("old.png"))]),
        None,
        Some(vec![
            (1, String::from("flags/green.png")),
            (2, String::from("logo.png")),
            (1, String::from("flags/yellow.png")),
        ]),
        None,
    ]));
    assert!(store.get(9).is_none());
    assert_eq!(store.get(1).map(|s| s.as_str()), Some("flags/yellow.png"));
    assert_eq!(store.get(2).map(|s| s.as_str()), Some("logo.png"));
    assert!(!store.assets_received(vec![None]));
    assert_eq!(store.get(2).map(|s| s.as_str()), Some("logo.png"));
    assert!(store.assets_received(vec![Some(vec![(3, String::from("car.png"))])]));
    assert!(store.get(1).is_none());
    assert_eq!(store.get(3).map(|s| s.as_str()), Some("car.png"));
}

#[test]
fn style_commands_reuse_or_spawn_cells() {
    let mut m = CellManager::default();
    assert_eq!(m.step(1, StyleCommandKind::Style), CellStep::SpawnCell);
    m.insert_cell(1, 100);
    assert_eq!(m.step(1, StyleCommandKind::Style), CellStep::Restyle(100));
    assert_eq!(m.step(1, StyleCommandKind::Style), CellStep::Restyle(100));
    assert_eq!(m.step(1, StyleCommandKind::ClipArea), CellStep::SpawnClipArea);
    let clip = ClipArea { cell: 5, texture: 6, camera: 7 };
    m.insert_clip_area(1, clip);
    assert_eq!(m.step(1, StyleCommandKind::ClipArea), CellStep::RestyleClipArea(clip));
    assert_eq!(
        m.step(1, StyleCommandKind::Remove),
        CellStep::Despawn(Removed { cell: Some(100), clip_area: Some(clip) })
    );
    assert_eq!(m.step(1, StyleCommandKind::Style), CellStep::SpawnCell);
    assert_eq!(m.step(1, StyleCommandKind::Remove), CellStep::Despawn(Removed { cell: None, clip_area: None }));
}

#[test]
fn cells_are_grouped_by_lowest_layer() {
    let groups = group_by_layer(&vec![0b1, 0b110, 0, 0b100, 0b11, 0x8000_0000]);
    assert_eq!(groups.len(), 32);
    assert_eq!(groups[0], vec![0, 4]);
    assert_eq!(groups[1], vec![1]);
    assert_eq!(groups[2], vec![3]);
    assert_eq!(groups[31], vec![5]);
    assert_eq!(groups.iter().map(|g| g.len()).sum::<usize>(), 5);
    assert!(group_by_layer(&vec![]).iter().all(|g| g.is_empty()));
}
