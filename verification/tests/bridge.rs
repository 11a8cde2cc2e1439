use cloudstream_win::json::quote;
use cloudstream_win::sidecar::{
    check_handshake, encode_request, handshake_ok, interpret_response, is_blank_line, java_command,
    BridgeError, BridgeResponse, PendingCalls, ReaderAction, ReaderEvent,
};
use cloudstream_win::text::str_eq;

#[test]
fn quote_matches_serde_json() {
    for s in ["", "plain", "q\"b\\s", "line\nfeed\r\t", "\u{1}\u{1f}\u{7f}", "\u{8}\u{c}", "ünï €"] {
        assert_eq!(quote(s), serde_json::to_string(s).unwrap());
    }
    assert_eq!(quote("a\u{1}b"), "\"a\\u0001b\"");
}

#[test]
fn request_line_is_exact_and_one_line() {
    let line = encode_request("id-1", "search", "gogo", "", "nar\nuto");
    assert_eq!(
        line,
        "{\"id\":\"id-1\",\"action\":\"search\",\"pluginId\":\"gogo\",\"pluginUrl\":\"\",\"arg\":\"nar\\nuto\"}\n"
    );
    assert_eq!(line.matches('\n').count(), 1);
    assert!(line.ends_with('\n'));
    let v: serde_json::Value = serde_json::from_str(line.trim_end()).unwrap();
    assert_eq!(v.get("arg").and_then(|a| a.as_str()), Some("nar\nuto"));
    assert_eq!(v.get("pluginId").and_then(|a| a.as_str()), Some("gogo"));
}

#[test]
fn ok_response_gives_result() {
    let r = BridgeResponse { id: "1".to_string(), ok: true, result: Some("[]".to_string()), error: None };
    assert_eq!(interpret_response("search", r).ok().unwrap(), "[]");
}

#[test]
fn ok_response_without_result_is_error() {
    let r = BridgeResponse { id: "1".to_string(), ok: true, result: None, error: None };
    let e = interpret_response("search", r).err().unwrap();
    assert!(matches!(e, BridgeError::MissingResult));
    assert_eq!(e.message(), "JVM returned ok=true but result field was null");
}

#[test]
fn error_response_carries_message() {
    let r = BridgeResponse { id: "1".to_string(), ok: false, result: Some("x".to_string()), error: Some("Plugin not found: g".to_string()) };
    let e = interpret_response("search", r).err().unwrap();
    assert_eq!(e.message(), "JVM bridge error in action='search': Plugin not found: g");
    let r = BridgeResponse { id: "1".to_string(), ok: false, result: None, error: None };
    let e = interpret_response("ping", r).err().unwrap();
    assert_eq!(e.message(), "JVM bridge error in action='ping': <no error message>");
}

#[test]
fn handshake_lines() {
    assert!(handshake_ok("{\"ready\":true}"));
    assert!(check_handshake("{\"ready\":true}\n").is_ok());
    let e = check_handshake("  Error: could not find main class \n").err().unwrap();
    assert!(matches!(e, BridgeError::BadHandshake(ref l) if l == "Error: could not find main class"));
    assert_eq!(e.message(), "JVM bridge sent unexpected handshake line: Error: could not find main class");
    assert!(!handshake_ok(""));
}

#[test]
fn java_command_prefers_bundled() {
    assert_eq!(java_command(Some("C:\\app\\jre\\bin\\java.exe".to_string())), "C:\\app\\jre\\bin\\java.exe");
    assert_eq!(java_command(None), "java");
}

#[test]
fn blank_lines_are_skipped() {
    assert!(is_blank_line(""));
    assert!(!is_blank_line(" "));
}

#[test]
fn pending_calls_deliver_once() {
    let mut p: PendingCalls<u32> = PendingCalls::new();
    p.register("a".to_string(), 1);
    p.register("b".to_string(), 2);
    assert_eq!(p.resolve("a"), Some(1));
    assert_eq!(p.resolve("a"), None);
    p.abandon("b");
    assert_eq!(p.resolve("b"), None);
    p.register("c".to_string(), 3);
    p.register("d".to_string(), 4);
    let rest = p.fail_all();
    assert_eq!(rest, vec![("c".to_string(), 3), ("d".to_string(), 4)]);
    assert_eq!(p.resolve("c"), None);
}

#[test]
fn bridge_error_messages() {
    assert_eq!(
        BridgeError::JarNotFound("/r/b.jar".to_string()).message(),
        "Bridge JAR not found at '/r/b.jar'.\nBuild it with:  cd cloudstream-bridge && ./gradlew deployToTauri"
    );
    assert_eq!(BridgeError::Timeout("search".to_string()).message(), "JVM call 'search' timed out after 60s");
    assert_eq!(BridgeError::ChannelDropped.message(), "JVM bridge response channel was dropped unexpectedly");
    assert_eq!(
        BridgeError::LaunchFailed("java".to_string(), "no such file".to_string()).message(),
        "Failed to launch JVM ('java') — is Java 11+ installed or bundled?\nno such file"
    );
    assert_eq!(BridgeError::WriteFailed("pipe".to_string()).message(), "JVM stdin write failed (process dead?): pipe");
    assert_eq!(BridgeError::FlushFailed("pipe".to_string()).message(), "JVM stdin flush failed: pipe");
    assert_eq!(BridgeError::NoHandshake("eof".to_string()).message(), "JVM bridge did not send handshake: eof");
    assert_eq!(BridgeError::ReaderFailed("x".to_string()).message(), "Failed to spawn reader thread: x");
    assert_eq!(BridgeError::Unavailable.message(), "JVM bridge is not running");
}

fn response(id: &str) -> BridgeResponse {
    BridgeResponse { id: id.to_string(), ok: true, result: Some(format!("r-{}", id)), error: None }
}

#[test]
fn reader_delivers_each_response_to_its_own_caller() {
    let mut p: PendingCalls<u32> = PendingCalls::new();
    p.register("a".to_string(), 1);
    p.register("b".to_string(), 2);
    p.register("c".to_string(), 3);
    assert!(matches!(p.on_reader_event(ReaderEvent::Blank), ReaderAction::Skip));
    assert!(matches!(p.on_reader_event(ReaderEvent::Malformed), ReaderAction::ReportMalformed));
    match p.on_reader_event(ReaderEvent::Response(response("b"))) {
        ReaderAction::Deliver(w, r) => {
            assert_eq!(w, 2);
            assert_eq!(r.id, "b");
            assert_eq!(r.result.as_deref(), Some("r-b"));
        }
        _ => panic!("response for b was not delivered"),
    }
    match p.on_reader_event(ReaderEvent::Response(response("b"))) {
        ReaderAction::ReportOrphan(id) => assert_eq!(id, "b"),
        _ => panic!("a second response for b reached a caller"),
    }
    match p.on_reader_event(ReaderEvent::Response(response("zz"))) {
        ReaderAction::ReportOrphan(id) => assert_eq!(id, "zz"),
        _ => panic!("a response nobody waits for reached a caller"),
    }
    match p.on_reader_event(ReaderEvent::Response(response("a"))) {
        ReaderAction::Deliver(w, _) => assert_eq!(w, 1),
        _ => panic!("response for a was not delivered"),
    }
    match p.on_reader_event(ReaderEvent::Closed) {
        ReaderAction::ReleaseAll(v) => assert_eq!(v, vec![("c".to_string(), 3)]),
        _ => panic!("closing did not release the callers"),
    }
    assert_eq!(p.resolve("c"), None);
    assert!(matches!(p.on_reader_event(ReaderEvent::Closed), ReaderAction::ReleaseAll(v) if v.is_empty()));
}

#[test]
fn calls_opened_together_get_their_own_responses() {
    let mut p: PendingCalls<u32> = PendingCalls::new();
    let (id1, _) = p.open_call(1, "search", "x", "", "q1");
    let (id2, _) = p.open_call(2, "search", "x", "", "q2");
    let (id3, _) = p.open_call(3, "load", "x", "", "q3");
    assert!(id1 != id2 && id2 != id3 && id1 != id3);
    assert_eq!(p.resolve(&id3), Some(3));
    assert_eq!(p.resolve(&id1), Some(1));
    assert_eq!(p.resolve(&id2), Some(2));
    assert_eq!(p.resolve(&id2), None);
}

#[test]
fn str_eq_compares_characters() {
    assert!(str_eq("", ""));
    assert!(str_eq("POST", "POST"));
    assert!(!str_eq("POST", "POS"));
    assert!(!str_eq("post", "POST"));
    assert!(str_eq("ünï", "ünï"));
}
