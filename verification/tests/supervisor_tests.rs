use swall_core::config::{AppConfig, Rect};
use swall_core::position_store::PositionStore;
use swall_core::supervisor::{send_screen_size, AppController, SpawnError, UnknownPidError};

fn rect(x: u32, y: u32, w: u32, h: u32) -> Rect {
    Rect { x, y, width: w, height: h }
}

fn cfg(exe: &str, area: Rect) -> AppConfig {
    AppConfig { executable: exe.to_string(), args: vec![], area }
}

#[test]
fn test_spawn_registers_position_and_process() {
    let mut ctl = AppController::new();
    let mut store = PositionStore::new();
    let c = cfg("demo", rect(0, 0, 100, 100));
    let r = ctl.spawn_process(&mut store, &c, Ok(41));
    assert_eq!(r, Ok(41));
    assert_eq!(store.application_rect_by_pid(41), Some(rect(0, 0, 100, 100)));
    let listing = ctl.list_processes();
    assert_eq!(listing.len(), 1);
    assert_eq!(listing[0].0, 41);
    assert_eq!(listing[0].1.executable, "demo");
}

#[test]
fn test_failed_spawn_registers_nothing() {
    let mut ctl = AppController::new();
    let mut store = PositionStore::new();
    let c = cfg("demo", rect(0, 0, 100, 100));
    let r = ctl.spawn_process(
        &mut store,
        &c,
        Err(SpawnError { message: "no such executable".to_string() }),
    );
    assert_eq!(r, Err(SpawnError { message: "no such executable".to_string() }));
    assert_eq!(store.application_rect_by_pid(41), None);
    assert_eq!(ctl.process_count(), 0);
}

#[test]
fn test_resize_updates_both_sides() {
    let mut ctl = AppController::new();
    let mut store = PositionStore::new();
    ctl.spawn_process(&mut store, &cfg("demo", rect(0, 0, 100, 100)), Ok(5)).unwrap();
    let r = ctl.resize_process(&mut store, 5, rect(10, 10, 50, 50));
    assert_eq!(r, Ok(5));
    assert_eq!(store.application_rect_by_pid(5), Some(rect(10, 10, 50, 50)));
    let listing = ctl.list_processes();
    assert_eq!(listing[0].1.area, rect(10, 10, 50, 50));
}

#[test]
fn test_resize_unknown_pid_changes_nothing() {
    let mut ctl = AppController::new();
    let mut store = PositionStore::new();
    ctl.spawn_process(&mut store, &cfg("demo", rect(0, 0, 100, 100)), Ok(5)).unwrap();
    let r = ctl.resize_process(&mut store, 6, rect(1, 1, 1, 1));
    assert_eq!(r, Err(UnknownPidError { pid: 6 }));
    assert_eq!(store.application_rect_by_pid(5), Some(rect(0, 0, 100, 100)));
    assert_eq!(store.application_rect_by_pid(6), None);
}

#[test]
fn test_kill_removes_both_sides() {
    let mut ctl = AppController::new();
    let mut store = PositionStore::new();
    ctl.spawn_process(&mut store, &cfg("demo", rect(0, 0, 100, 100)), Ok(5)).unwrap();
    assert_eq!(ctl.kill_process(&mut store, 5), Ok(()));
    assert_eq!(store.application_rect_by_pid(5), None);
    assert_eq!(ctl.process_count(), 0);
}

#[test]
fn test_kill_absent_pid_is_stable() {
    let mut ctl = AppController::new();
    let mut store = PositionStore::new();
    // killing a pid that was never there always yields the same error
    let first = ctl.kill_process(&mut store, 9);
    let second = ctl.kill_process(&mut store, 9);
    assert_eq!(first, Err(UnknownPidError { pid: 9 }));
    assert_eq!(second, first);
    // and the same holds after the pid existed once
    ctl.spawn_process(&mut store, &cfg("demo", rect(0, 0, 1, 1)), Ok(9)).unwrap();
    ctl.kill_process(&mut store, 9).unwrap();
    let third = ctl.kill_process(&mut store, 9);
    assert_eq!(third, Err(UnknownPidError { pid: 9 }));
}

#[test]
fn test_list_is_sorted_by_pid() {
    let mut ctl = AppController::new();
    let mut store = PositionStore::new();
    ctl.spawn_process(&mut store, &cfg("c", rect(2, 0, 1, 1)), Ok(30)).unwrap();
    ctl.spawn_process(&mut store, &cfg("a", rect(0, 0, 1, 1)), Ok(10)).unwrap();
    ctl.spawn_process(&mut store, &cfg("b", rect(1, 0, 1, 1)), Ok(20)).unwrap();
    let listing = ctl.list_processes();
    let pids: Vec<u32> = listing.iter().map(|e| e.0).collect();
    assert_eq!(pids, vec![10, 20, 30]);
    assert_eq!(listing[0].1.executable, "a");
    assert_eq!(listing[2].1.executable, "c");
}

#[test]
fn test_spawn_same_pid_replaces_entry() {
    // the system never reaps exited processes, so a reused pid
    // replaces the stale entry rather than duplicating it
    let mut ctl = AppController::new();
    let mut store = PositionStore::new();
    ctl.spawn_process(&mut store, &cfg("old", rect(0, 0, 1, 1)), Ok(5)).unwrap();
    ctl.spawn_process(&mut store, &cfg("new", rect(2, 2, 2, 2)), Ok(5)).unwrap();
    assert_eq!(ctl.process_count(), 1);
    let listing = ctl.list_processes();
    assert_eq!(listing[0].1.executable, "new");
    assert_eq!(store.application_rect_by_pid(5), Some(rect(2, 2, 2, 2)));
}

#[test]
fn test_send_screen_size_echoes() {
    assert_eq!(send_screen_size([4320, 1920]), [4320, 1920]);
}
