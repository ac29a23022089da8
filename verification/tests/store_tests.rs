use swall_core::config::Rect;
use swall_core::position_store::PositionStore;

fn rect(x: u32, y: u32, w: u32, h: u32) -> Rect {
    Rect { x, y, width: w, height: h }
}

#[test]
fn test_read_of_unwritten_pid_is_none() {
    let store = PositionStore::new();
    assert_eq!(store.application_rect_by_pid(1), None);
    assert_eq!(store.application_rect_by_pid(0), None);
}

#[test]
fn test_write_then_read_until_remove() {
    let mut store = PositionStore::new();
    let r = rect(1, 2, 3, 4);
    store.set_application_position(7, r);
    assert_eq!(store.application_rect_by_pid(7), Some(r));
    // still there after unrelated writes
    store.set_application_position(8, rect(9, 9, 9, 9));
    assert_eq!(store.application_rect_by_pid(7), Some(r));
    // removed exactly once
    assert_eq!(store.remove_application_position(7), true);
    assert_eq!(store.application_rect_by_pid(7), None);
    assert_eq!(store.remove_application_position(7), false);
    // the other entry is untouched
    assert_eq!(store.application_rect_by_pid(8), Some(rect(9, 9, 9, 9)));
}

#[test]
fn test_write_replaces_previous_position() {
    let mut store = PositionStore::new();
    store.set_application_position(5, rect(0, 0, 10, 10));
    store.set_application_position(5, rect(20, 20, 5, 5));
    assert_eq!(store.application_rect_by_pid(5), Some(rect(20, 20, 5, 5)));
}

#[test]
fn test_surface_at_pos_picks_topmost() {
    let mut store = PositionStore::new();
    // pids listed back to front: 2 is rendered on top of 1
    store.set_application_position(1, rect(0, 0, 100, 100));
    store.set_application_position(2, rect(0, 0, 50, 50));
    let pids = vec![1, 2];
    assert_eq!(store.surface_at_pos(&pids, 10, 10), Some((2, rect(0, 0, 50, 50))));
    // outside the top surface, the one below wins
    assert_eq!(store.surface_at_pos(&pids, 80, 80), Some((1, rect(0, 0, 100, 100))));
    // outside both
    assert_eq!(store.surface_at_pos(&pids, 100, 100), None);
}

#[test]
fn test_surface_at_pos_skips_unregistered_pids() {
    let mut store = PositionStore::new();
    store.set_application_position(1, rect(0, 0, 100, 100));
    let pids = vec![1, 99];
    assert_eq!(store.surface_at_pos(&pids, 10, 10), Some((1, rect(0, 0, 100, 100))));
    let no_pids: Vec<u32> = vec![];
    assert_eq!(store.surface_at_pos(&no_pids, 10, 10), None);
}
