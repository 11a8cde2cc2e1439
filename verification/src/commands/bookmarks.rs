//! Saving titles.

use vstd::prelude::*;
use crate::db::Bookmark;
use crate::ids::{Timestamp, new_id, now, is_uuid_text, is_v4_text};

verus! {

/// What the frontend sends to save a title.
pub struct AddBookmarkPayload {
    pub media_id: String,
    pub plugin_id: String,
    pub title: String,
    pub poster_url: Option<String>,
    pub media_type: String,
}

/// The bookmark for a payload, under the given id and time.
pub fn bookmark_from(payload: AddBookmarkPayload, id: String, at: Timestamp) -> (res: Bookmark)
    ensures
        res.id == id,
        res.media_id == payload.media_id,
        res.plugin_id == payload.plugin_id,
        res.title == payload.title,
        res.poster_url == payload.poster_url,
        res.media_type == payload.media_type,
        res.created_at == at,
{
    Bookmark {
        id,
        media_id: payload.media_id,
        plugin_id: payload.plugin_id,
        title: payload.title,
        poster_url: payload.poster_url,
        media_type: payload.media_type,
        created_at: at,
    }
}

/// A new bookmark for a payload: a fresh UUID, the current time, and the
/// payload's fields unchanged.
pub fn new_bookmark(payload: AddBookmarkPayload) -> (res: Bookmark)
    ensures
        is_uuid_text(res.id@),
        is_v4_text(res.id@),
        res.media_id == payload.media_id,
        res.plugin_id == payload.plugin_id,
        res.title == payload.title,
        res.poster_url == payload.poster_url,
        res.media_type == payload.media_type,
{
    let id = new_id();
    let at = now();
    bookmark_from(payload, id, at)
}

} // verus!
