//! Watch history.

use vstd::prelude::*;
use crate::db::WatchHistory;
use crate::ids::{Timestamp, now};
use crate::json::opt_view;

verus! {

/// What the frontend sends, now and then, while a title plays.
pub struct UpdateProgressPayload {
    pub media_id: String,
    pub plugin_id: String,
    pub episode_id: Option<String>,
    pub title: String,
    pub episode_title: Option<String>,
    pub progress_seconds: i64,
    pub duration_seconds: i64,
}

/// The history id of a title or an episode: the media id, a `-`, and the
/// episode id, or `movie` for a title without episodes. One entry per
/// episode, updated in place as the user watches.
pub open spec fn history_key(media_id: Seq<char>, episode_id: Option<Seq<char>>) -> Seq<char> {
    media_id + "-"@ + match episode_id {
        Some(e) => e,
        None => "movie"@,
    }
}

pub fn history_id(media_id: &str, episode_id: &Option<String>) -> (res: String)
    ensures
        res@ == history_key(media_id@, opt_view(*episode_id)),
{
    let mut s = String::from_str(media_id);
    s.append("-");
    match episode_id {
        Some(e) => s.append(e.as_str()),
        None => s.append("movie"),
    }
    s
}

/// The history entry for a progress report at time `at`.
pub fn watch_entry(payload: UpdateProgressPayload, at: Timestamp) -> (res: WatchHistory)
    ensures
        res.id@ == history_key(payload.media_id@, opt_view(payload.episode_id)),
        res.media_id == payload.media_id,
        res.plugin_id == payload.plugin_id,
        res.episode_id == payload.episode_id,
        res.title == payload.title,
        res.episode_title == payload.episode_title,
        res.progress_seconds == payload.progress_seconds,
        res.duration_seconds == payload.duration_seconds,
        res.watched_at == at,
{
    let id = history_id(payload.media_id.as_str(), &payload.episode_id);
    WatchHistory {
        id,
        media_id: payload.media_id,
        plugin_id: payload.plugin_id,
        episode_id: payload.episode_id,
        title: payload.title,
        episode_title: payload.episode_title,
        progress_seconds: payload.progress_seconds,
        duration_seconds: payload.duration_seconds,
        watched_at: at,
    }
}

/// The history entry for a progress report made now.
pub fn record_progress(payload: UpdateProgressPayload) -> (res: WatchHistory)
    ensures
        res.id@ == history_key(payload.media_id@, opt_view(payload.episode_id)),
        res.media_id == payload.media_id,
        res.plugin_id == payload.plugin_id,
        res.episode_id == payload.episode_id,
        res.title == payload.title,
        res.episode_title == payload.episode_title,
        res.progress_seconds == payload.progress_seconds,
        res.duration_seconds == payload.duration_seconds,
{
    let at = now();
    watch_entry(payload, at)
}

/// How many history entries to show: the frontend's limit, or 50.
pub fn history_limit(limit: Option<i64>) -> (res: i64)
    ensures
        res == match limit {
            Some(l) => l,
            None => 50,
        },
{
    match limit {
        Some(l) => l,
        None => 50,
    }
}

/// Progress reports for the same title and episode land in the same history
/// entry, whatever the progress and the time: watching resumes where it stopped.
pub proof fn law_same_episode_same_entry(p1: UpdateProgressPayload, p2: UpdateProgressPayload)
    requires
        p1.media_id@ == p2.media_id@,
        opt_view(p1.episode_id) == opt_view(p2.episode_id),
    ensures
        history_key(p1.media_id@, opt_view(p1.episode_id)) == history_key(
            p2.media_id@,
            opt_view(p2.episode_id),
        ),
{
}

/// A title without episodes and an episode whose id is `movie` share an
/// entry; any two other episodes of the same title keep apart.
pub proof fn law_distinct_episodes_apart(media_id: Seq<char>, e1: Seq<char>, e2: Seq<char>)
    requires
        e1 != e2,
    ensures
        history_key(media_id, Some(e1)) != history_key(media_id, Some(e2)),
{
    let a = history_key(media_id, Some(e1));
    let b = history_key(media_id, Some(e2));
    reveal_strlit("-");
    let k: int = media_id.len() as int + 1;
    if a == b {
        assert(a.skip(k) =~= e1);
        assert(b.skip(k) =~= e2);
    }
}

} // verus!
