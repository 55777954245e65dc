use base64::Engine;
use diaryx_sync_extism::host_bridge::{
    delete_file, delete_file_reply, emit_event, emit_event_reply, file_exists, file_exists_reply,
    get_timestamp, http_request, http_request_reply, list_files, list_files_reply, log_message,
    read_file, read_file_reply, storage_get, storage_get_reply, storage_set, storage_set_reply,
    write_binary, write_binary_reply, write_file, write_file_reply, ws_request,
};
use diaryx_sync_extism::json::parse;

fn ok(s: &str) -> Result<String, String> {
    Ok(s.to_string())
}

fn err() -> Result<String, String> {
    Err("boom".to_string())
}

fn pair(a: &str, b: &str) -> (String, String) {
    (a.to_string(), b.to_string())
}

#[test]
fn inputs() {
    assert_eq!(log_message("warn", "m"), "{\"level\":\"warn\",\"message\":\"m\"}");
    assert_eq!(read_file("a\"b"), "{\"path\":\"a\\\"b\"}");
    assert_eq!(list_files("d"), "{\"prefix\":\"d\"}");
    assert_eq!(file_exists("p"), "{\"path\":\"p\"}");
    assert_eq!(write_file("p", "c"), "{\"content\":\"c\",\"path\":\"p\"}");
    assert_eq!(delete_file("p"), "{\"path\":\"p\"}");
    assert_eq!(write_binary("p", &[1, 2]), "{\"content\":\"AQI=\",\"path\":\"p\"}");
    assert_eq!(emit_event("{}"), "{}");
    assert_eq!(storage_get("k"), "{\"key\":\"k\"}");
    assert_eq!(storage_set("k", &[1, 2]), "{\"data\":\"AQI=\",\"key\":\"k\"}");
}

#[test]
fn failures_name_the_function() {
    assert_eq!(read_file_reply(err()).unwrap_err(), "host_read_file failed: boom");
    assert_eq!(list_files_reply(err()).unwrap_err(), "host_list_files failed: boom");
    assert_eq!(file_exists_reply(err()).unwrap_err(), "host_file_exists failed: boom");
    assert_eq!(write_file_reply(err()).unwrap_err(), "host_write_file failed: boom");
    assert_eq!(delete_file_reply(err()).unwrap_err(), "host_delete_file failed: boom");
    assert_eq!(write_binary_reply(err()).unwrap_err(), "host_write_binary failed: boom");
    assert_eq!(emit_event_reply(err()).unwrap_err(), "host_emit_event failed: boom");
    assert_eq!(storage_get_reply(err()).unwrap_err(), "host_storage_get failed: boom");
    assert_eq!(storage_set_reply(err()).unwrap_err(), "host_storage_set failed: boom");
    assert_eq!(get_timestamp(err()).unwrap_err(), "host_get_timestamp failed: boom");
    assert_eq!(ws_request(err()).unwrap_err(), "host_ws_request failed: boom");
    assert_eq!(http_request_reply(err()).unwrap_err(), "host_http_request failed: boom");
}

#[test]
fn replies() {
    assert_eq!(read_file_reply(ok("text")).unwrap(), "text");
    assert_eq!(list_files_reply(ok("[\"a\",\"b\"]")).unwrap(), vec!["a", "b"]);
    let bad = serde_json::from_str::<Vec<String>>("[1]").unwrap_err();
    assert_eq!(
        list_files_reply(ok("[1]")).unwrap_err(),
        format!("Failed to parse file list: {bad}")
    );
    assert!(file_exists_reply(ok("true")).unwrap());
    assert!(!file_exists_reply(ok(" false ")).unwrap());
    let bad = serde_json::from_str::<bool>("1").unwrap_err();
    assert_eq!(
        file_exists_reply(ok("1")).unwrap_err(),
        format!("Failed to parse exists result: {bad}")
    );
    assert!(write_file_reply(ok("")).is_ok());
    assert!(delete_file_reply(ok("")).is_ok());
    assert!(write_binary_reply(ok("")).is_ok());
    assert!(emit_event_reply(ok("")).is_ok());
    assert!(storage_set_reply(ok("")).is_ok());
    assert_eq!(ws_request(ok("x")).unwrap(), "x");
}

#[test]
fn timestamps() {
    assert_eq!(get_timestamp(ok(" 1700000000000\n")).unwrap(), 1_700_000_000_000);
    assert_eq!(get_timestamp(ok("+7")).unwrap(), 7);
    assert_eq!(get_timestamp(ok("18446744073709551615")).unwrap(), u64::MAX);
    for bad in ["", "x", "-1", "+", "1.5", "18446744073709551616"] {
        let e = bad.parse::<u64>().unwrap_err();
        assert_eq!(
            get_timestamp(ok(bad)).unwrap_err(),
            format!("Failed to parse timestamp: {e}")
        );
    }
}

#[test]
fn storage() {
    assert_eq!(storage_get_reply(ok("")).unwrap(), None);
    assert_eq!(storage_get_reply(ok("null")).unwrap(), None);
    assert_eq!(storage_get_reply(ok("{\"data\":\"\"}")).unwrap(), None);
    assert_eq!(storage_get_reply(ok("{\"data\":\"AQI=\"}")).unwrap(), Some(vec![1, 2]));
    assert_eq!(storage_get_reply(ok("AQI=")).unwrap(), Some(vec![1, 2]));
    // Four digits are a JSON document too, but not one that holds data.
    assert_eq!(
        storage_get_reply(ok("1234")).unwrap(),
        Some(base64::engine::general_purpose::STANDARD.decode("1234").unwrap())
    );
    for (text, encoded) in [("{\"data\":\"??\"}", "??"), ("{}", "{}"), ("??", "??")] {
        let e = base64::engine::general_purpose::STANDARD
            .decode(encoded)
            .unwrap_err();
        assert_eq!(
            storage_get_reply(ok(text)).unwrap_err(),
            format!("Failed to decode storage data: {e}")
        );
    }
}

#[test]
fn what_is_stored_is_loaded() {
    let data: Vec<u8> = (0..=255).collect();
    let input = parse(&storage_set("k", &data)).unwrap();
    let answer = format!("{{\"data\":\"{}\"}}", input.text("data").unwrap());
    assert_eq!(storage_get_reply(ok(&answer)).unwrap(), Some(data));
}

#[test]
fn http() {
    let input = http_request(
        "POST",
        "http://s",
        &[pair("b", "1"), pair("a", "2"), pair("b", "3")],
        Some(parse("{\"x\":[1]}").unwrap()),
    );
    assert_eq!(
        input,
        "{\"body\":\"{\\\"x\\\":[1]}\",\"headers\":{\"a\":\"2\",\"b\":\"3\"},\"method\":\"POST\",\"url\":\"http://s\"}"
    );
    let bare = http_request("GET", "u", &[], None);
    assert_eq!(bare, "{\"body\":null,\"headers\":{},\"method\":\"GET\",\"url\":\"u\"}");
    assert_eq!(
        http_request_reply(ok("{\"status\":200}")).unwrap().get("status").unwrap().as_u64(),
        Some(200)
    );
    let e = serde_json::from_str::<serde_json::Value>("{").unwrap_err();
    assert_eq!(
        http_request_reply(ok("{")).unwrap_err(),
        format!("Failed to parse host_http_request: {e}")
    );
}
