//! The records the app keeps in its database, and where the database lives.
//! The SQL itself runs outside the library.

use vstd::prelude::*;
use crate::ids::Timestamp;
use crate::text::{chars_of, string_from_chars};

verus! {

/// A title the user saved.
pub struct Bookmark {
    pub id: String,
    /// Id of the title in its plugin.
    pub media_id: String,
    /// The plugin the title came from.
    pub plugin_id: String,
    pub title: String,
    pub poster_url: Option<String>,
    /// `movie`, `show` or `anime`.
    pub media_type: String,
    pub created_at: Timestamp,
}

/// How far the user got in a title or an episode.
pub struct WatchHistory {
    pub id: String,
    pub media_id: String,
    pub plugin_id: String,
    pub episode_id: Option<String>,
    pub title: String,
    pub episode_title: Option<String>,
    /// How far into the title, in seconds.
    pub progress_seconds: i64,
    /// How long the title is, in seconds.
    pub duration_seconds: i64,
    pub watched_at: Timestamp,
}

/// How much of a download has arrived: `done` of `total` bytes; a total of
/// zero stands for no progress known.
pub struct Progress {
    pub done: u64,
    pub total: u64,
}

/// A download and its state.
pub struct Download {
    pub id: String,
    pub media_id: String,
    pub plugin_id: String,
    pub title: String,
    pub episode_title: Option<String>,
    pub url: String,
    pub save_path: String,
    /// `pending`, `downloading`, `done`, `failed` or `cancelled`.
    pub status: String,
    pub progress: Progress,
    pub created_at: Timestamp,
}

/// `s` with every backslash turned into a forward slash.
pub open spec fn forward_slashes(s: Seq<char>) -> Seq<char> {
    s.map_values(|c: char| if c == '\\' { '/' } else { c })
}

/// The SQLite connection string for a database file: an absolute
/// `sqlite:///` URI (backslashes of Windows paths become slashes) that
/// creates the file when it is missing.
pub open spec fn sqlite_url(path: Seq<char>) -> Seq<char> {
    "sqlite:///"@ + forward_slashes(path) + "?mode=rwc"@
}

pub fn connection_string(path: &str) -> (res: String)
    ensures
        res@ == sqlite_url(path@),
{
    let v = chars_of(path);
    let mut out: Vec<char> = Vec::new();
    let mut i: usize = 0;
    while i < v.len()
        invariant
            i <= v.len(),
            out@ == forward_slashes(v@.take(i as int)),
        decreases v.len() - i,
    {
        let c = v[i];
        out.push(if c == '\\' { '/' } else { c });
        i = i + 1;
        assert(out@ =~= forward_slashes(v@.take(i as int)));
    }
    assert(v@.take(v.len() as int) =~= v@);
    let mut s = String::from_str("sqlite:///");
    s.append(string_from_chars(&out).as_str());
    s.append("?mode=rwc");
    s
}

} // verus!
