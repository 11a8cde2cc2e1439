use cloudstream_win::example_plugin::{episodes_json, get_episodes, get_streams, pack_ptr_len, search, search_json, streams_json};
use cloudstream_win::text::{decimal_string, trim};

#[test]
fn example_search_echoes_query() {
    let j = search_json("naruto \"x\"");
    let v: serde_json::Value = serde_json::from_str(&j).unwrap();
    let first = &v.as_array().unwrap()[0];
    assert_eq!(first.get("title").and_then(|t| t.as_str()), Some("Search result for: naruto \"x\""));
    assert_eq!(first.get("year").and_then(|t| t.as_i64()), Some(1994));
    assert!(j.contains("\"rating\":9.3"));
    assert_eq!(first.get("id").and_then(|t| t.as_str()), Some("tt0111161"));
}

#[test]
fn example_streams() {
    let v: serde_json::Value = serde_json::from_str(&streams_json()).unwrap();
    let a = v.as_array().unwrap();
    assert_eq!(a.len(), 2);
    assert_eq!(a[1].get("quality").and_then(|t| t.as_str()), Some("720p"));
}

#[test]
fn example_episodes() {
    let j = episodes_json();
    let v: serde_json::Value = serde_json::from_str(&j).unwrap();
    let a = v.as_array().unwrap();
    assert_eq!(a.len(), 12);
    assert_eq!(a[0].get("id").and_then(|t| t.as_str()), Some("s01e01"));
    assert_eq!(a[11].get("id").and_then(|t| t.as_str()), Some("s01e12"));
    assert_eq!(a[11].get("description").and_then(|t| t.as_str()), Some("Episode 12 of Season 1"));
    assert!(a[3].get("thumbnail_url").unwrap().is_null());
    assert!(j.starts_with("[{\"id\":\"s01e01\",\"title\":\"Episode 1\",\"season\":1,\"episode_number\":1,\"thumbnail_url\":null,\"description\":\"Episode 1 of Season 1\"},"));
}

#[test]
fn packed_pointer_and_length() {
    let p = pack_ptr_len(0x1234, 56);
    assert_eq!(p >> 32, 0x1234);
    assert_eq!(p & 0xffff_ffff, 56);
    assert_eq!(pack_ptr_len(1, 0), 1u64 << 32);
}

#[test]
fn exports_decode_their_argument() {
    assert_eq!(search(b"naruto"), search_json("naruto"));
    assert_eq!(search(&[0x61, 0xff, 0x62]), search_json("a\u{fffd}b"));
    assert_eq!(get_streams(b"x"), streams_json());
    assert_eq!(get_episodes(&[0xff]), episodes_json());
}

#[test]
fn decimal_and_trim() {
    assert_eq!(decimal_string(0), "0");
    assert_eq!(decimal_string(1994), "1994");
    assert_eq!(decimal_string(u64::MAX), u64::MAX.to_string());
    assert_eq!(trim("\u{3000} a b \t\n"), "a b");
    assert_eq!(trim("   "), "");
}
