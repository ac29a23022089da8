use swall_core::config::{AppConfig, AppControllerCommand, Rect};
use swall_core::parse::{decode_command, decode_compositor_config};
use swall_core::position_store::PositionStore;
use swall_core::protocol::{
    apply_command, encode_response, error_response, finish_spawn, unknown_pid_message,
    AppControllerResponse,
};
use swall_core::supervisor::AppController;

fn rect(x: u32, y: u32, w: u32, h: u32) -> Rect {
    Rect { x, y, width: w, height: h }
}

fn sleep_config() -> AppConfig {
    AppConfig {
        executable: "sleep".to_string(),
        args: vec!["5".to_string()],
        area: rect(0, 0, 100, 100),
    }
}

const SPAWN_FRAME: &str = "{\"Spawn\":{\"config\":{\"area\":{\"height\":100,\"width\":100,\"x\":0,\"y\":0},\"args\":[\"5\"],\"executable\":\"sleep\"}}}";

#[test]
fn test_decode_list_and_screen_size() {
    assert_eq!(decode_command("\"List\""), Ok(AppControllerCommand::List));
    assert_eq!(decode_command("  \"ScreenSize\" \n"), Ok(AppControllerCommand::ScreenSize));
}

#[test]
fn test_decode_spawn() {
    let cmd = decode_command(SPAWN_FRAME).unwrap();
    assert_eq!(cmd, AppControllerCommand::Spawn { config: sleep_config() });
}

#[test]
fn test_decode_move_and_kill() {
    let cmd = decode_command(
        "{\"Move\":{\"pid\":7,\"rect\":{\"height\":50,\"width\":50,\"x\":10,\"y\":10}}}",
    )
    .unwrap();
    assert_eq!(cmd, AppControllerCommand::Move { pid: 7, rect: rect(10, 10, 50, 50) });
    let cmd = decode_command("{\"Kill\":{\"pid\":7}}").unwrap();
    assert_eq!(cmd, AppControllerCommand::Kill { pid: 7 });
}

#[test]
fn test_decode_allows_whitespace() {
    let cmd = decode_command(
        " { \"Kill\" : { \"pid\" : 12 } } ",
    )
    .unwrap();
    assert_eq!(cmd, AppControllerCommand::Kill { pid: 12 });
}

#[test]
fn test_decode_string_escapes() {
    let frame = "{\"Spawn\":{\"config\":{\"area\":{\"height\":1,\"width\":1,\"x\":0,\"y\":0},\"args\":[],\"executable\":\"a\\\"b\\\\c\\n\"}}}";
    let cmd = decode_command(frame).unwrap();
    match cmd {
        AppControllerCommand::Spawn { config } => {
            assert_eq!(config.executable, "a\"b\\c\n");
        },
        other => panic!("unexpected command {:?}", other),
    }
}

#[test]
fn test_decode_number_edges() {
    let ok = decode_command("{\"Kill\":{\"pid\":4294967295}}").unwrap();
    assert_eq!(ok, AppControllerCommand::Kill { pid: u32::MAX });
    // one past the range is a malformed frame
    assert!(decode_command("{\"Kill\":{\"pid\":4294967296}}").is_err());
    // leading zeros are refused, a lone zero is fine
    assert!(decode_command("{\"Kill\":{\"pid\":007}}").is_err());
    assert_eq!(decode_command("{\"Kill\":{\"pid\":0}}"), Ok(AppControllerCommand::Kill { pid: 0 }));
}

#[test]
fn test_malformed_frame_then_valid_frame() {
    // a malformed frame is answered with a failure response and the
    // connection keeps decoding further frames
    let bad = decode_command("this is not a frame");
    let msg = bad.unwrap_err();
    assert!(!msg.is_empty());
    let resp = encode_response(&error_response(msg));
    let v: serde_json::Value = serde_json::from_str(&resp).unwrap();
    assert_eq!(v.get("success").unwrap().as_bool(), Some(false));
    assert!(!v.get("error").unwrap().as_str().unwrap().is_empty());
    // the next, well-formed command still decodes
    assert_eq!(decode_command("\"List\""), Ok(AppControllerCommand::List));
}

#[test]
fn test_malformed_frames_varieties() {
    for bad in [
        "",
        "  ",
        "\"ListX\"",
        "\"List\" trailing",
        "{\"Spawn\":{}}",
        "{\"Move\":{\"pid\":1}}",
        "{\"Kill\":{\"pid\":-1}}",
        "{\"Kill\":{\"pid\":1.5}}",
        "{\"Kill\":{\"pid\":1}",
        "{\"Quit\":{}}",
    ] {
        let r = decode_command(bad);
        assert!(r.is_err(), "expected a decode failure for {:?}", bad);
        assert!(!r.unwrap_err().is_empty());
    }
}

#[test]
fn test_scenario_spawn_list_move_kill() {
    let mut ctl = AppController::new();
    let mut store = PositionStore::new();
    let screen = [4320u32, 1920u32];

    // Spawn -> {success:true, pid:P}
    let cmd = decode_command(SPAWN_FRAME).unwrap();
    let config = match cmd {
        AppControllerCommand::Spawn { config } => config,
        other => panic!("unexpected command {:?}", other),
    };
    let resp = finish_spawn(&mut ctl, &mut store, &config, Ok(77));
    assert!(resp.success);
    assert_eq!(resp.pid, Some(77));
    assert_eq!(resp.config.as_ref().unwrap().executable, "sleep");

    // List afterward includes (P, that config)
    let cmd = decode_command("\"List\"").unwrap();
    let resp = apply_command(&mut ctl, &mut store, &cmd, screen);
    assert!(resp.success);
    let listing = resp.process_ids.unwrap();
    assert_eq!(listing.len(), 1);
    assert_eq!(listing[0].0, 77);
    assert_eq!(listing[0].1, sleep_config());

    // Move -> {success:true, pid:P} and the position store agrees
    let cmd = decode_command(
        "{\"Move\":{\"pid\":77,\"rect\":{\"height\":50,\"width\":50,\"x\":10,\"y\":10}}}",
    )
    .unwrap();
    let resp = apply_command(&mut ctl, &mut store, &cmd, screen);
    assert!(resp.success);
    assert_eq!(resp.pid, Some(77));
    assert_eq!(store.application_rect_by_pid(77), Some(rect(10, 10, 50, 50)));

    // Kill -> {success:true}
    let cmd = decode_command("{\"Kill\":{\"pid\":77}}").unwrap();
    let resp = apply_command(&mut ctl, &mut store, &cmd, screen);
    assert!(resp.success);

    // subsequent Move on P fails and the store is unchanged
    let cmd = decode_command(
        "{\"Move\":{\"pid\":77,\"rect\":{\"height\":1,\"width\":1,\"x\":0,\"y\":0}}}",
    )
    .unwrap();
    let resp = apply_command(&mut ctl, &mut store, &cmd, screen);
    assert!(!resp.success);
    assert!(!resp.error.as_ref().unwrap().is_empty());
    assert_eq!(store.application_rect_by_pid(77), None);
}

#[test]
fn test_kill_failure_shape_is_stable() {
    let mut ctl = AppController::new();
    let mut store = PositionStore::new();
    let cmd = decode_command("{\"Kill\":{\"pid\":3}}").unwrap();
    let first = apply_command(&mut ctl, &mut store, &cmd, [1, 1]);
    let second = apply_command(&mut ctl, &mut store, &cmd, [1, 1]);
    assert!(!first.success && !second.success);
    assert_eq!(first.error, Some("unknown pid 3".to_string()));
    assert_eq!(second.error, first.error);
    assert_eq!(unknown_pid_message(3), "unknown pid 3");
}

#[test]
fn test_screen_size_response_text() {
    let mut ctl = AppController::new();
    let mut store = PositionStore::new();
    let cmd = decode_command("\"ScreenSize\"").unwrap();
    let resp = apply_command(&mut ctl, &mut store, &cmd, [4320, 1920]);
    let text = encode_response(&resp);
    assert_eq!(
        text,
        "{\"config\":null,\"error\":null,\"pid\":null,\"process_ids\":null,\"screen_height\":1920,\"screen_width\":4320,\"success\":true}"
    );
}

#[test]
fn test_spawn_response_text_and_cross_check() {
    let mut ctl = AppController::new();
    let mut store = PositionStore::new();
    let resp = finish_spawn(&mut ctl, &mut store, &sleep_config(), Ok(8));
    let text = encode_response(&resp);
    assert_eq!(
        text,
        "{\"config\":{\"area\":{\"height\":100,\"width\":100,\"x\":0,\"y\":0},\"args\":[\"5\"],\"executable\":\"sleep\"},\"error\":null,\"pid\":8,\"process_ids\":null,\"screen_height\":null,\"screen_width\":null,\"success\":true}"
    );
    // the canonical text is plain JSON: an outside parser reads the
    // same values back
    let v: serde_json::Value = serde_json::from_str(&text).unwrap();
    assert_eq!(v.get("pid").unwrap().as_u64(), Some(8));
    let c = v.get("config").unwrap();
    assert_eq!(c.get("executable").unwrap().as_str(), Some("sleep"));
    assert_eq!(c.get("area").unwrap().get("width").unwrap().as_u64(), Some(100));
    assert_eq!(c.get("args").unwrap().as_array().unwrap().len(), 1);
}

#[test]
fn test_list_response_text() {
    let mut ctl = AppController::new();
    let mut store = PositionStore::new();
    finish_spawn(&mut ctl, &mut store, &sleep_config(), Ok(2));
    let cmd = decode_command("\"List\"").unwrap();
    let resp = apply_command(&mut ctl, &mut store, &cmd, [1, 1]);
    let text = encode_response(&resp);
    assert_eq!(
        text,
        "{\"config\":null,\"error\":null,\"pid\":null,\"process_ids\":[[2,{\"area\":{\"height\":100,\"width\":100,\"x\":0,\"y\":0},\"args\":[\"5\"],\"executable\":\"sleep\"}]],\"screen_height\":null,\"screen_width\":null,\"success\":true}"
    );
}

#[test]
fn test_error_response_escapes_strings() {
    let resp = error_response("bad \"frame\"\n\\".to_string());
    let text = encode_response(&resp);
    assert_eq!(
        text,
        "{\"config\":null,\"error\":\"bad \\\"frame\\\"\\n\\\\\",\"pid\":null,\"process_ids\":null,\"screen_height\":null,\"screen_width\":null,\"success\":false}"
    );
    let v: serde_json::Value = serde_json::from_str(&text).unwrap();
    assert_eq!(v.get("error").unwrap().as_str(), Some("bad \"frame\"\n\\"));
}

#[test]
fn test_encode_then_decode_config_round_trip() {
    // what the encoder writes for a configuration, the decoder reads
    // back inside a spawn frame
    let config = AppConfig {
        executable: "app with spaces".to_string(),
        args: vec!["--flag".to_string(), "x y".to_string()],
        area: rect(7, 8, 9, 10),
    };
    let mut ctl = AppController::new();
    let mut store = PositionStore::new();
    let resp = finish_spawn(&mut ctl, &mut store, &config, Ok(1));
    let text = encode_response(&resp);
    // carve the config object back out of the response text
    let start = text.find("\"config\":").unwrap() + "\"config\":".len();
    let end = text.find(",\"error\"").unwrap();
    let frame = format!("{{\"Spawn\":{{\"config\":{}}}}}", &text[start..end]);
    let cmd = decode_command(&frame).unwrap();
    assert_eq!(cmd, AppControllerCommand::Spawn { config });
}

#[test]
fn test_spawn_failure_response() {
    let mut ctl = AppController::new();
    let mut store = PositionStore::new();
    let resp = finish_spawn(
        &mut ctl,
        &mut store,
        &sleep_config(),
        Err(swall_core::supervisor::SpawnError { message: "exec failed".to_string() }),
    );
    assert!(!resp.success);
    assert_eq!(resp.error, Some("exec failed".to_string()));
    assert_eq!(resp.pid, None);
    assert_eq!(store.application_rect_by_pid(8), None);
    // response struct shape is the failure shape
    let shaped = AppControllerResponse {
        success: false,
        pid: None,
        screen_width: None,
        screen_height: None,
        config: None,
        process_ids: None,
        error: Some("exec failed".to_string()),
    };
    assert_eq!(encode_response(&resp), encode_response(&shaped));
}

#[test]
fn test_decode_compositor_config() {
    let text = "{\"height\":1920,\"launch\":[{\"area\":{\"height\":100,\"width\":100,\"x\":0,\"y\":0},\"args\":[\"5\"],\"executable\":\"sleep\"}],\"width\":4320}";
    let config = decode_compositor_config(text).unwrap();
    assert_eq!(config.width, 4320);
    assert_eq!(config.height, 1920);
    assert_eq!(config.launch.len(), 1);
    assert_eq!(config.launch[0], sleep_config());
}

#[test]
fn test_decode_compositor_config_empty_launch() {
    let config = decode_compositor_config("{\"height\":2,\"launch\":[],\"width\":1}").unwrap();
    assert_eq!(config.width, 1);
    assert_eq!(config.height, 2);
    assert!(config.launch.is_empty());
}

#[test]
fn test_decode_compositor_config_bad_is_fatal_error() {
    for bad in ["", "{}", "{\"width\":1}", "{\"height\":2,\"launch\":[],\"width\":1} x"] {
        let r = decode_compositor_config(bad);
        assert!(r.is_err(), "expected a startup failure for {:?}", bad);
        assert!(!r.unwrap_err().is_empty());
    }
}

#[test]
fn test_decode_members_any_order() {
    // the field order of the data model's own description
    let frame = "{\"Spawn\":{\"config\":{\"executable\":\"sleep\",\"args\":[\"5\"],\"area\":{\"x\":0,\"y\":0,\"width\":100,\"height\":100}}}}";
    let cmd = decode_command(frame).unwrap();
    assert_eq!(cmd, AppControllerCommand::Spawn { config: sleep_config() });

    // a move with the rectangle first and rect members shuffled
    let frame = "{\"Move\":{\"rect\":{\"width\":50,\"x\":10,\"height\":50,\"y\":10},\"pid\":7}}";
    let cmd = decode_command(frame).unwrap();
    assert_eq!(cmd, AppControllerCommand::Move { pid: 7, rect: rect(10, 10, 50, 50) });
}

#[test]
fn test_decode_rejects_repeated_or_missing_members() {
    // a member may appear exactly once
    assert!(decode_command(
        "{\"Move\":{\"pid\":1,\"pid\":2,\"rect\":{\"height\":1,\"width\":1,\"x\":0,\"y\":0}}}"
    )
    .is_err());
    // a member may not be left out
    assert!(decode_command("{\"Move\":{\"pid\":1,\"rect\":{\"height\":1,\"width\":1,\"x\":0}}}")
        .is_err());
    // an unknown member is refused
    assert!(decode_command(
        "{\"Move\":{\"pid\":1,\"rect\":{\"height\":1,\"width\":1,\"x\":0,\"y\":0},\"z\":1}}"
    )
    .is_err());
}

#[test]
fn test_decode_unicode_escape() {
    let frame = "{\"Spawn\":{\"config\":{\"area\":{\"height\":1,\"width\":1,\"x\":0,\"y\":0},\"args\":[],\"executable\":\"a\\u0001b\\u00e9\"}}}";
    let cmd = decode_command(frame).unwrap();
    match cmd {
        AppControllerCommand::Spawn { config } => {
            assert_eq!(config.executable, "a\u{1}b\u{e9}");
        },
        other => panic!("unexpected command {:?}", other),
    }
    // uppercase hexadecimal digits are read too
    let upper = "{\"Spawn\":{\"config\":{\"area\":{\"height\":1,\"width\":1,\"x\":0,\"y\":0},\"args\":[],\"executable\":\"\\u00E9\"}}}";
    match decode_command(upper).unwrap() {
        AppControllerCommand::Spawn { config } => {
            assert_eq!(config.executable, "\u{e9}");
        },
        other => panic!("unexpected command {:?}", other),
    }
    // four hex digits are required, and only the low byte range
    let short = "{\"Spawn\":{\"config\":{\"area\":{\"height\":1,\"width\":1,\"x\":0,\"y\":0},\"args\":[],\"executable\":\"\\u001\"}}}";
    assert!(decode_command(short).is_err());
    let bmp = "{\"Spawn\":{\"config\":{\"area\":{\"height\":1,\"width\":1,\"x\":0,\"y\":0},\"args\":[],\"executable\":\"\\u1234\"}}}";
    assert!(decode_command(bmp).is_err());
}

#[test]
fn test_encode_escapes_control_characters() {
    let resp = error_response("a\u{1}b\u{1f}c".to_string());
    let text = encode_response(&resp);
    assert!(text.contains("a\\u0001b\\u001fc"));
    // the canonical text stays plain JSON even for control characters
    let v: serde_json::Value = serde_json::from_str(&text).unwrap();
    assert_eq!(v.get("error").unwrap().as_str(), Some("a\u{1}b\u{1f}c"));
}

#[test]
fn test_decode_compositor_config_any_order() {
    let text = "{\"width\":4320,\"height\":1920,\"launch\":[]}";
    let config = decode_compositor_config(text).unwrap();
    assert_eq!(config.width, 4320);
    assert_eq!(config.height, 1920);
    assert!(config.launch.is_empty());
    // repeated members are refused
    assert!(decode_compositor_config("{\"width\":1,\"width\":2,\"height\":3,\"launch\":[]}")
        .is_err());
}
