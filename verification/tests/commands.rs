use cloudstream_win::commands::bookmarks::{bookmark_from, new_bookmark, AddBookmarkPayload};
use cloudstream_win::commands::downloads::{
    download_from, new_download, outcome_message, status_cancelled, transfer_start, transfer_step,
    DownloadManager, DownloadOutcome, StartDownloadPayload, Transfer, TransferAction, TransferEvent,
};
use cloudstream_win::commands::repos::{
    flat_repo, invalid_repo_format, keep_loaded, manifest_repo, repo_name, repo_shape, RepoManifest, RepoPlugin, RepoShape,
};
use cloudstream_win::commands::streaming::{history_id, history_limit, record_progress, watch_entry, UpdateProgressPayload};
use cloudstream_win::db::connection_string;
use cloudstream_win::ids::Timestamp;
use cloudstream_win::sidecar::PendingCalls;
use cloudstream_win::player::{play, Player};

fn uuid_shaped(s: &str) -> bool {
    let c: Vec<char> = s.chars().collect();
    s.len() == 36
        && c[14] == '4'
        && matches!(c[19], '8' | '9' | 'a' | 'b')
        && s.chars().enumerate().all(|(i, c)| {
            if i == 8 || i == 13 || i == 18 || i == 23 { c == '-' } else { c.is_ascii_hexdigit() && !c.is_ascii_uppercase() }
        })
}

fn bookmark_payload() -> AddBookmarkPayload {
    AddBookmarkPayload {
        media_id: "tt1".to_string(),
        plugin_id: "p".to_string(),
        title: "T".to_string(),
        poster_url: None,
        media_type: "movie".to_string(),
    }
}

#[test]
fn new_ids_are_uuids_and_differ() {
    let mut p: PendingCalls<u8> = PendingCalls::new();
    let (a, line_a) = p.open_call(1, "ping", "", "", "");
    let (b, _) = p.open_call(2, "ping", "", "", "");
    assert!(line_a.contains(&a));
    assert_eq!(p.resolve(&a), Some(1));
    assert_eq!(p.resolve(&b), Some(2));
    assert!(uuid_shaped(&a));
    assert!(uuid_shaped(&b));
    assert_ne!(a, b);
}

#[test]
fn bookmark_keeps_payload() {
    let b = bookmark_from(bookmark_payload(), "id".to_string(), Timestamp { secs: 5, nanos: 6 });
    assert_eq!(b.id, "id");
    assert_eq!(b.media_id, "tt1");
    assert_eq!(b.plugin_id, "p");
    assert_eq!(b.media_type, "movie");
    assert_eq!(b.created_at.secs, 5);
    let n = new_bookmark(bookmark_payload());
    assert!(uuid_shaped(&n.id));
    assert_eq!(n.title, "T");
}

#[test]
fn history_ids() {
    assert_eq!(history_id("show1", &Some("ep3".to_string())), "show1-ep3");
    assert_eq!(history_id("movie9", &None), "movie9-movie");
    assert_eq!(history_limit(None), 50);
    assert_eq!(history_limit(Some(20)), 20);
}

fn progress_payload(p: i64) -> UpdateProgressPayload {
    UpdateProgressPayload {
        media_id: "m".to_string(),
        plugin_id: "p".to_string(),
        episode_id: Some("e1".to_string()),
        title: "T".to_string(),
        episode_title: None,
        progress_seconds: p,
        duration_seconds: 100,
    }
}

#[test]
fn same_episode_same_history_entry() {
    let a = watch_entry(progress_payload(10), Timestamp { secs: 1, nanos: 0 });
    let b = record_progress(progress_payload(70));
    assert_eq!(a.id, b.id);
    assert_eq!(a.id, "m-e1");
    assert_eq!(b.progress_seconds, 70);
    assert_eq!(b.duration_seconds, 100);
}

fn download_payload() -> StartDownloadPayload {
    StartDownloadPayload {
        media_id: "m".to_string(),
        plugin_id: "p".to_string(),
        title: "T".to_string(),
        episode_title: Some("E".to_string()),
        url: "https://x/v.mp4".to_string(),
        save_path: "C:\\v.mp4".to_string(),
    }
}

#[test]
fn new_download_starts_downloading() {
    let d = download_from(download_payload(), "d1".to_string(), Timestamp { secs: 0, nanos: 0 });
    assert_eq!(d.status, "downloading");
    assert_eq!(d.progress.done, 0);
    assert_eq!(d.progress.total, 0);
    assert_eq!(d.save_path, "C:\\v.mp4");
    let n = new_download(download_payload());
    assert!(uuid_shaped(&n.id));
    assert_eq!(status_cancelled(), "cancelled");
}

#[test]
fn download_handles_are_taken_once() {
    let mut m: DownloadManager<u8> = DownloadManager::new();
    assert_eq!(m.register("a".to_string(), 1), None);
    assert_eq!(m.register("a".to_string(), 2), Some(1));
    assert_eq!(m.take("a"), Some(2));
    assert_eq!(m.take("a"), None);
}

#[test]
fn transfer_counts_and_reports_only_with_size() {
    let t = transfer_start(Some(10));
    let (t, a) = transfer_step(t, TransferEvent::Chunk(4));
    assert_eq!(t.downloaded, 4);
    assert!(matches!(a, TransferAction::Write { report: true }));
    let (t, a) = transfer_step(t, TransferEvent::Chunk(6));
    assert_eq!(t.downloaded, 10);
    assert!(matches!(a, TransferAction::Write { report: true }));
    let (_, a) = transfer_step(t, TransferEvent::Finished);
    assert!(matches!(a, TransferAction::Complete));
    let u = transfer_start(None);
    assert_eq!(u.total, 0);
    let (u, a) = transfer_step(u, TransferEvent::Chunk(3));
    assert_eq!(u.downloaded, 3);
    assert!(matches!(a, TransferAction::Write { report: false }));
    let (_, a) = transfer_step(Transfer { downloaded: 1, total: 2 }, TransferEvent::Cancelled);
    assert!(matches!(a, TransferAction::Abort));
    let (_, a) = transfer_step(Transfer { downloaded: 1, total: 2 }, TransferEvent::ChunkFailed("reset".to_string()));
    assert!(matches!(a, TransferAction::Fail(ref e) if e == "reset"));
}

#[test]
fn outcome_events() {
    assert_eq!(outcome_message("d1", DownloadOutcome::Completed), ("download-complete".to_string(), "{\"id\":\"d1\"}".to_string()));
    assert_eq!(outcome_message("d1", DownloadOutcome::Cancelled), ("download-cancelled".to_string(), "{\"id\":\"d1\"}".to_string()));
    let (name, payload) = outcome_message("d1", DownloadOutcome::Failed("disk \"full\"".to_string()));
    assert_eq!(name, "download-failed");
    let mut m = serde_json::Map::new();
    m.insert("id".to_string(), serde_json::Value::from("d1"));
    m.insert("error".to_string(), serde_json::Value::from("disk \"full\""));
    assert_eq!(payload, serde_json::Value::Object(m).to_string());
}

fn plugin(name: &str) -> RepoPlugin {
    RepoPlugin {
        name: name.to_string(),
        internal_name: None,
        description: None,
        icon_url: None,
        tv_types: None,
        authors: None,
        version: Some(1),
        language: None,
        status: None,
        url: None,
        repository_url: None,
    }
}

#[test]
fn repo_names_come_from_the_url() {
    assert_eq!(repo_name("https://raw.example.com/u/r/Netflix.json"), "Netflix.json");
    assert_eq!(repo_name("https://x/"), "");
    assert_eq!(repo_name("plain"), "plain");
    let r = flat_repo("https://x/a/list.json".to_string(), vec![plugin("A")]);
    assert_eq!(r.name, "list.json");
    assert!(r.description.is_none());
    assert_eq!(r.plugins.len(), 1);
}

#[test]
fn manifest_repo_joins_readable_lists() {
    let manifest = RepoManifest {
        name: "Repo".to_string(),
        description: Some("d".to_string()),
        plugin_lists: vec!["l1".to_string(), "l2".to_string(), "l3".to_string()],
    };
    let lists = vec![Some(vec![plugin("A"), plugin("B")]), None, Some(vec![plugin("C")])];
    let r = manifest_repo("u".to_string(), manifest, lists);
    let names: Vec<String> = r.plugins.into_iter().map(|p| p.name).collect();
    assert_eq!(names, vec!["A".to_string(), "B".to_string(), "C".to_string()]);
    assert_eq!(r.name, "Repo");
    assert_eq!(r.description, Some("d".to_string()));
}

#[test]
fn sqlite_connection_strings() {
    assert_eq!(connection_string("C:\\Users\\me\\cloudstream.db"), "sqlite:///C:/Users/me/cloudstream.db?mode=rwc");
    assert_eq!(connection_string("/home/me/c.db"), "sqlite:////home/me/c.db?mode=rwc");
}

#[test]
fn player_accepts_streams() {
    assert!(Player::new().is_ok());
    assert!(play("https://x/s.m3u8", "T", None).is_ok());
}

#[test]
fn loaded_repos_are_kept_in_order() {
    let r = |n: &str| flat_repo(format!("https://x/{}", n), vec![]);
    let kept = keep_loaded(vec![Some(r("a.json")), None, Some(r("b.json")), None]);
    let names: Vec<String> = kept.into_iter().map(|i| i.name).collect();
    assert_eq!(names, vec!["a.json".to_string(), "b.json".to_string()]);
    assert!(keep_loaded(vec![None]).is_empty());
}

#[test]
fn repo_shape_tells_lists_from_manifests() {
    assert!(matches!(repo_shape("[{\"name\":\"A\"}]"), Ok(RepoShape::PluginList)));
    assert!(matches!(repo_shape(" [] "), Ok(RepoShape::PluginList)));
    assert!(matches!(repo_shape("{\"name\":\"R\",\"pluginLists\":[]}"), Ok(RepoShape::Manifest)));
    assert!(matches!(repo_shape("\"just a string\""), Ok(RepoShape::Manifest)));
    let bad = "{not json";
    let e = serde_json::from_str::<serde_json::Value>(bad).unwrap_err();
    match repo_shape(bad) {
        Err(m) => assert_eq!(m, format!("Invalid JSON from repo: {}", e)),
        Ok(_) => panic!("invalid JSON was accepted"),
    }
}

#[test]
fn invalid_repo_format_message() {
    assert_eq!(invalid_repo_format("missing field `name`"), "Invalid repo format: missing field `name`");
}

#[test]
fn transfer_ends_at_first_non_chunk() {
    let t = transfer_start(None);
    let (t, a) = transfer_step(t, TransferEvent::Chunk(5));
    assert!(matches!(a, TransferAction::Write { report: false }));
    let (t, a) = transfer_step(t, TransferEvent::ChunkFailed("eof".to_string()));
    assert!(matches!(a, TransferAction::Fail(ref e) if e == "eof"));
    assert_eq!(t.downloaded, 5);
}
