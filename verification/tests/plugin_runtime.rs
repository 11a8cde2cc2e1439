use cloudstream_win::commands::plugins::{
    install_from_source, install_native, native_failure, native_load_request, native_source,
    plugin_source, InstallNativePayload, InstallPluginPayload, NativeSource, PluginSource,
};
use cloudstream_win::js_host::{
    build_call_script, call_outcome, fetch_polyfill, fetch_request, fetch_response_json, http_method, request_headers,
    HttpMethod, JsSlot,
};
use cloudstream_win::plugin_runtime::{
    PluginCall, PluginError, PluginFunction, PluginInfo, PluginManager,
};

const README_HEADER: &str = r#"// @plugin-info {"id":"my-anime-site","name":"My Anime Site","version":"1.0.0","description":"Anime from mysite.com","author":"YourName","icon_url":null,"supported_types":["anime"],"is_builtin":false}

const BASE = "https://mysite.com/api";
async function search(query) { return "[]"; }
"#;

fn info(id: &str) -> PluginInfo {
    PluginInfo {
        id: id.to_string(),
        name: "N".to_string(),
        version: "1".to_string(),
        description: String::new(),
        author: String::new(),
        icon_url: None,
        supported_types: vec![],
    }
}

#[test]
fn header_of_documented_plugin_is_read() {
    let i = PluginManager::parse_plugin_info(README_HEADER).ok().unwrap();
    assert_eq!(i.id, "my-anime-site");
    assert_eq!(i.name, "My Anime Site");
    assert_eq!(i.version, "1.0.0");
    assert_eq!(i.description, "Anime from mysite.com");
    assert_eq!(i.author, "YourName");
    assert_eq!(i.icon_url, None);
    assert_eq!(i.supported_types, vec!["anime".to_string()]);
}

#[test]
fn header_fields_left_out_take_defaults() {
    let src = "// @plugin-info {\"icon_url\":\"http://x/i.png\",\"supported_types\":[\"movie\",3,null,\"show\"]}\n";
    let i = PluginManager::parse_plugin_info(src).ok().unwrap();
    assert_eq!(i.id, "unknown");
    assert_eq!(i.name, "Unknown");
    assert_eq!(i.version, "1.0.0");
    assert_eq!(i.description, "");
    assert_eq!(i.author, "");
    assert_eq!(i.icon_url, Some("http://x/i.png".to_string()));
    assert_eq!(i.supported_types, vec!["movie".to_string(), "show".to_string()]);
}

#[test]
fn header_with_non_string_fields_takes_defaults() {
    let src = "x\r\n// @plugin-info {\"id\":7,\"name\":null,\"supported_types\":\"anime\"}\r\nmore";
    let i = PluginManager::parse_plugin_info(src).ok().unwrap();
    assert_eq!(i.id, "unknown");
    assert_eq!(i.name, "Unknown");
    assert!(i.supported_types.is_empty());
}

#[test]
fn first_header_line_wins() {
    let src = "// @plugin-info {\"id\":\"first\"}\n// @plugin-info {\"id\":\"second\"}\n";
    let i = PluginManager::parse_plugin_info(src).ok().unwrap();
    assert_eq!(i.id, "first");
}

#[test]
fn missing_header_is_an_error() {
    let e = PluginManager::parse_plugin_info("function search(q) {}\n").err().unwrap();
    assert!(matches!(e, PluginError::MissingHeader));
    assert_eq!(e.message(), "Missing @plugin-info header");
    let e = PluginManager::parse_plugin_info("").err().unwrap();
    assert!(matches!(e, PluginError::MissingHeader));
}

#[test]
fn header_without_json_is_an_error() {
    let e = PluginManager::parse_plugin_info("// @plugin-info none here\n{\"id\":\"x\"}").err().unwrap();
    assert!(matches!(e, PluginError::MissingJson));
    assert_eq!(e.message(), "@plugin-info missing JSON");
}

#[test]
fn header_with_bad_json_is_an_error() {
    let e = PluginManager::parse_plugin_info("// @plugin-info {\"id\": }\n").err().unwrap();
    match &e {
        PluginError::BadJson(m) => {
            let expected = serde_json::from_str::<serde_json::Value>("{\"id\": }").err().unwrap().to_string();
            assert_eq!(m, &expected);
        }
        _ => panic!("expected BadJson"),
    }
    assert!(e.message().starts_with("Bad @plugin-info JSON: "));
}

#[test]
fn header_with_trailing_text_is_bad_json() {
    let e = PluginManager::parse_plugin_info("// @plugin-info {\"id\":\"a\"} trailing").err().unwrap();
    assert!(matches!(e, PluginError::BadJson(_)));
}

#[test]
fn installed_plugin_is_listed_and_called_by_script() {
    let mut m = PluginManager::new();
    m.load_plugin_from_source("function search(q){}".to_string(), info("a")).ok().unwrap();
    m.load_plugin_from_source("s2".to_string(), info("b")).ok().unwrap();
    let listed: Vec<String> = m.list_plugins().into_iter().map(|i| i.id).collect();
    assert_eq!(listed, vec!["a".to_string(), "b".to_string()]);
    match m.plan_call("a", PluginFunction::Search, "naruto").ok().unwrap() {
        PluginCall::Script { source, function, script } => {
            assert_eq!(source, "function search(q){}");
            assert_eq!(function, "search");
            assert_eq!(script, build_call_script("search", "naruto"));
        }
        _ => panic!("expected a script call"),
    }
}

#[test]
fn reinstall_replaces_plugin() {
    let mut m = PluginManager::new();
    m.load_plugin_from_source("old".to_string(), info("a")).ok().unwrap();
    m.load_plugin_from_source("new".to_string(), info("a")).ok().unwrap();
    assert_eq!(m.list_plugins().len(), 1);
    match m.plan_call("a", PluginFunction::Streams, "x").ok().unwrap() {
        PluginCall::Script { source, function, .. } => {
            assert_eq!(source, "new");
            assert_eq!(function, "getStreams");
        }
        _ => panic!("expected a script call"),
    }
}

#[test]
fn removed_plugin_is_not_found() {
    let mut m = PluginManager::new();
    m.load_plugin_from_source("s".to_string(), info("a")).ok().unwrap();
    m.remove_plugin("a");
    m.remove_plugin("never-installed");
    assert!(m.list_plugins().is_empty());
    let e = m.plan_call("a", PluginFunction::Episodes, "x").err().unwrap();
    assert!(matches!(e, PluginError::NotFound(ref id) if id == "a"));
    assert_eq!(e.message(), "Plugin 'a' not found");
}

#[test]
fn native_plugin_calls_go_to_the_bridge() {
    let mut m = PluginManager::new();
    let back = install_native(&mut m, info("gogo"));
    assert_eq!(back.id, "gogo");
    match m.plan_call("gogo", PluginFunction::Episodes, "https://show").ok().unwrap() {
        PluginCall::Native { action, plugin_id, arg } => {
            assert_eq!(action, "getEpisodes");
            assert_eq!(plugin_id, "gogo");
            assert_eq!(arg, "https://show");
        }
        _ => panic!("expected a bridge call"),
    }
}

#[test]
fn install_plugin_from_source_registers_it() {
    let mut m = PluginManager::new();
    let i = install_from_source(&mut m, README_HEADER.to_string()).ok().unwrap();
    assert_eq!(i.id, "my-anime-site");
    assert_eq!(m.list_plugins().len(), 1);
}

#[test]
fn install_plugin_with_bad_header_is_refused() {
    let mut m = PluginManager::new();
    let e = install_from_source(&mut m, "no header".to_string()).err().unwrap();
    assert_eq!(e, "Invalid plugin (bad @plugin-info header): Missing @plugin-info header");
    assert!(m.list_plugins().is_empty());
}

#[test]
fn plugin_source_prefers_path() {
    let p = InstallPluginPayload { js_path: Some("a.js".to_string()), source: Some("x".to_string()) };
    assert!(matches!(plugin_source(p), Ok(PluginSource::File(ref f)) if f == "a.js"));
    let p = InstallPluginPayload { js_path: None, source: Some("x".to_string()) };
    assert!(matches!(plugin_source(p), Ok(PluginSource::Inline(ref s)) if s == "x"));
    let p = InstallPluginPayload { js_path: None, source: None };
    assert_eq!(plugin_source(p).err().unwrap(), "Must provide either jsPath or source");
}

#[test]
fn native_source_prefers_url() {
    let p = InstallNativePayload { plugin_url: Some("https://r/G.cs3".to_string()), plugin_path: Some("C:\\G.cs3".to_string()) };
    let s = native_source(p).ok().unwrap();
    assert!(matches!(s, NativeSource::Url(_)));
    assert_eq!(native_load_request(&s), ("loadPlugin".to_string(), "https://r/G.cs3".to_string(), String::new()));
    assert_eq!(native_failure(&s, "boom"), "Failed to install native plugin from URL: boom");
    let p = InstallNativePayload { plugin_url: None, plugin_path: Some("C:\\G.cs3".to_string()) };
    let s = native_source(p).ok().unwrap();
    assert_eq!(native_load_request(&s), ("loadPluginFromFile".to_string(), String::new(), "C:\\G.cs3".to_string()));
    assert_eq!(native_failure(&s, "boom"), "Failed to install native plugin from file: boom");
    let p = InstallNativePayload { plugin_url: None, plugin_path: None };
    assert_eq!(native_source(p).err().unwrap(), "Must provide either pluginUrl or pluginPath");
}

#[test]
fn call_script_is_exact() {
    assert_eq!(
        build_call_script("search", "na\"ruto"),
        "var __result = null; var __error = null; (async function() { try { var r = await search(\"na\\\"ruto\"); __result = (typeof r === 'string') ? r : JSON.stringify(r); } catch(e) { __error = String(e); } })();"
    );
}

#[test]
fn call_outcome_cases() {
    let r = call_outcome("search", JsSlot::Empty, JsSlot::Text("[]".to_string()));
    assert_eq!(r.ok().unwrap(), "[]");
    let e = call_outcome("search", JsSlot::Text("boom".to_string()), JsSlot::Text("[]".to_string())).err().unwrap();
    assert_eq!(e.message(), "plugin 'search' threw: boom");
    let r = call_outcome("search", JsSlot::Other, JsSlot::Text("ok".to_string()));
    assert_eq!(r.ok().unwrap(), "ok");
    let e = call_outcome("getStreams", JsSlot::Empty, JsSlot::Empty).err().unwrap();
    assert_eq!(e.message(), "'getStreams' returned null — check plugin logs");
    let e = call_outcome("getStreams", JsSlot::Empty, JsSlot::Other).err().unwrap();
    assert!(matches!(e, PluginError::NullResult(_)));
}

#[test]
fn http_methods() {
    assert!(matches!(http_method("post"), HttpMethod::Post));
    assert!(matches!(http_method("Put"), HttpMethod::Put));
    assert!(matches!(http_method("DELETE"), HttpMethod::Delete));
    assert!(matches!(http_method("GET"), HttpMethod::Get));
    assert!(matches!(http_method("patch"), HttpMethod::Get));
    assert!(matches!(http_method(""), HttpMethod::Get));
}

#[test]
fn fetch_request_defaults() {
    let r = fetch_request(None, None, None, None);
    assert_eq!(r.url, "");
    assert!(matches!(r.method, HttpMethod::Get));
    assert_eq!(r.headers_json, "{}");
    assert_eq!(r.body, None);
    let r = fetch_request(Some("u".to_string()), Some("post".to_string()), Some("{\"a\":\"b\"}".to_string()), Some("x".to_string()));
    assert_eq!(r.url, "u");
    assert!(matches!(r.method, HttpMethod::Post));
    assert_eq!(r.headers_json, "{\"a\":\"b\"}");
    assert_eq!(r.body, Some("x".to_string()));
}

#[test]
fn fetch_response_matches_serde_json() {
    for (status, body) in [(200u16, "hi"), (404, "not \"found\"\n"), (299, ""), (300, "x"), (199, "y")] {
        let ours = fetch_response_json(status, body);
        let mut m = serde_json::Map::new();
        m.insert("status".to_string(), serde_json::Value::from(status));
        m.insert("ok".to_string(), serde_json::Value::from(status >= 200 && status < 300));
        m.insert("body".to_string(), serde_json::Value::from(body));
        let theirs = serde_json::Value::Object(m).to_string();
        assert_eq!(ours, theirs);
    }
    assert_eq!(fetch_response_json(200, "hi"), "{\"body\":\"hi\",\"ok\":true,\"status\":200}");
}

#[test]
fn polyfill_defines_fetch() {
    assert!(fetch_polyfill().contains("async function fetch(url, opts)"));
    assert!(fetch_polyfill().contains("__http_fetch(url, method, JSON.stringify(headers), body)"));
}

#[test]
fn listing_holds_each_id_once() {
    let mut m = PluginManager::new();
    m.load_plugin_from_source("a1".to_string(), info("a")).ok().unwrap();
    m.load_plugin_from_source("b1".to_string(), info("b")).ok().unwrap();
    m.load_plugin_from_source("a2".to_string(), info("a")).ok().unwrap();
    m.load_plugin_from_source("c1".to_string(), info("c")).ok().unwrap();
    m.remove_plugin("b");
    let listed: Vec<String> = m.list_plugins().into_iter().map(|i| i.id).collect();
    assert_eq!(listed, vec!["a".to_string(), "c".to_string()]);
}

#[test]
fn request_headers_read_the_json_object() {
    let r = fetch_request(Some("u".to_string()), None, Some("{\"b\":\"2\",\"a\":\"1\",\"b\":\"3\"}".to_string()), None);
    let mut h = request_headers(&r);
    h.sort();
    assert_eq!(h, vec![("a".to_string(), "1".to_string()), ("b".to_string(), "3".to_string())]);
    let r = fetch_request(Some("u".to_string()), None, Some("{\"a\":1}".to_string()), None);
    assert!(request_headers(&r).is_empty());
    let r = fetch_request(Some("u".to_string()), None, Some("not json".to_string()), None);
    assert!(request_headers(&r).is_empty());
    let r = fetch_request(Some("u".to_string()), None, None, None);
    assert!(request_headers(&r).is_empty());
}
