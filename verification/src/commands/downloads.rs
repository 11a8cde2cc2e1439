//! Downloads: the record of a new download, the handles that cancel running
//! ones, the steps of a transfer, and the events the frontend hears of.

use vstd::prelude::*;
use crate::db::{Download, Progress};
use crate::ids::{Timestamp, new_id, now, is_uuid_text, is_v4_text};
use crate::json::{json_quoted, quote};
use crate::table::KeyedTable;

verus! {

/// What the frontend sends to start a download.
pub struct StartDownloadPayload {
    pub media_id: String,
    pub plugin_id: String,
    pub title: String,
    pub episode_title: Option<String>,
    pub url: String,
    pub save_path: String,
}

/// The status of a download that is under way.
pub open spec fn downloading() -> Seq<char> {
    "downloading"@
}

/// The status of a download that the user cancelled.
pub open spec fn cancelled() -> Seq<char> {
    "cancelled"@
}

pub fn status_downloading() -> (res: &'static str)
    ensures
        res@ == downloading(),
{
    "downloading"
}

pub fn status_cancelled() -> (res: &'static str)
    ensures
        res@ == cancelled(),
{
    "cancelled"
}

/// The record of a download that starts now: under way, nothing received.
pub fn download_from(payload: StartDownloadPayload, id: String, at: Timestamp) -> (res: Download)
    ensures
        res.id == id,
        res.media_id == payload.media_id,
        res.plugin_id == payload.plugin_id,
        res.title == payload.title,
        res.episode_title == payload.episode_title,
        res.url == payload.url,
        res.save_path == payload.save_path,
        res.status@ == downloading(),
        res.progress.done == 0 && res.progress.total == 0,
        res.created_at == at,
{
    Download {
        id,
        media_id: payload.media_id,
        plugin_id: payload.plugin_id,
        title: payload.title,
        episode_title: payload.episode_title,
        url: payload.url,
        save_path: payload.save_path,
        status: String::from_str(status_downloading()),
        progress: Progress { done: 0, total: 0 },
        created_at: at,
    }
}

/// A new download record for a payload, under a fresh UUID and the current time.
pub fn new_download(payload: StartDownloadPayload) -> (res: Download)
    ensures
        is_uuid_text(res.id@),
        is_v4_text(res.id@),
        res.media_id == payload.media_id,
        res.plugin_id == payload.plugin_id,
        res.title == payload.title,
        res.episode_title == payload.episode_title,
        res.url == payload.url,
        res.save_path == payload.save_path,
        res.status@ == downloading(),
        res.progress.done == 0 && res.progress.total == 0,
{
    let id = new_id();
    let at = now();
    download_from(payload, id, at)
}

// ── Cancellation handles ────────────────────────────────────────────────────

/// The cancellation handles of running downloads, by download id.
pub struct DownloadManager<T> {
    tokens: KeyedTable<T>,
}

impl<T> DownloadManager<T> {
    pub closed spec fn wf(self) -> bool {
        self.tokens.wf()
    }

    /// The handles by download id.
    pub closed spec fn view(self) -> Map<Seq<char>, T> {
        self.tokens@
    }

    /// No download running.
    pub fn new() -> (res: Self)
        ensures
            res.wf(),
            res@ == Map::<Seq<char>, T>::empty(),
    {
        DownloadManager { tokens: KeyedTable::new() }
    }

    /// Keeps the handle of a download that starts; a handle already kept
    /// under this id is handed back.
    pub fn register(&mut self, id: String, token: T) -> (res: Option<T>)
        requires
            old(self).wf(),
        ensures
            final(self).wf(),
            final(self)@ == old(self)@.insert(id@, token),
            res is Some <==> old(self)@.contains_key(id@),
            res matches Some(t) ==> t == old(self)@[id@],
    {
        self.tokens.insert(id, token)
    }

    /// Takes out the handle of a download to cancel it, if it is known.
    pub fn take(&mut self, id: &str) -> (res: Option<T>)
        requires
            old(self).wf(),
        ensures
            final(self).wf(),
            final(self)@ == old(self)@.remove(id@),
            res is Some <==> old(self)@.contains_key(id@),
            res matches Some(t) ==> t == old(self)@[id@],
    {
        self.tokens.remove(id)
    }
}

// ── A transfer, step by step ────────────────────────────────────────────────

/// How far a transfer got: bytes received, and the announced size (0 when
/// the server announced none).
pub struct Transfer {
    pub downloaded: u64,
    pub total: u64,
}

/// What happens next to a running transfer.
pub enum TransferEvent {
    /// The user cancelled; this wins over a chunk that is also ready.
    Cancelled,
    /// A chunk of this many bytes arrived.
    Chunk(u64),
    /// Reading the next chunk failed.
    ChunkFailed(String),
    /// The body has ended.
    Finished,
}

/// What the transfer does about an event.
pub enum TransferAction {
    /// Delete the partial file and end as cancelled.
    Abort,
    /// Write the chunk to the file; then, when `report`, tell the frontend
    /// how far the transfer got.
    Write { report: bool },
    /// End as failed, with this message.
    Fail(String),
    /// Flush the file and end as completed.
    Complete,
}

/// A transfer that starts, with the size that the server announced.
pub fn transfer_start(content_length: Option<u64>) -> (res: Transfer)
    ensures
        res.downloaded == 0,
        res.total == match content_length {
            Some(n) => n,
            None => 0,
        },
{
    Transfer {
        downloaded: 0,
        total: match content_length {
            Some(n) => n,
            None => 0,
        },
    }
}

/// The next state and action of a transfer: a chunk is counted and written,
/// and reported when the size is known; cancellation aborts, a failed chunk
/// fails, and the end of the body completes, each leaving the count as it is.
pub open spec fn transfer_next(t: Transfer, ev: TransferEvent) -> (Transfer, TransferAction) {
    match ev {
        TransferEvent::Cancelled => (t, TransferAction::Abort),
        TransferEvent::Chunk(n) => (
            Transfer { downloaded: (t.downloaded + n) as u64, total: t.total },
            TransferAction::Write { report: t.total > 0 },
        ),
        TransferEvent::ChunkFailed(e) => (t, TransferAction::Fail(e)),
        TransferEvent::Finished => (t, TransferAction::Complete),
    }
}

/// The next state and action of a transfer. A chunk is counted and, when
/// the size is known, reported; the other events end the transfer.
pub fn transfer_step(t: Transfer, ev: TransferEvent) -> (res: (Transfer, TransferAction))
    requires
        ev matches TransferEvent::Chunk(n) ==> t.downloaded + n <= u64::MAX,
    ensures
        res == transfer_next(t, ev),
        res.0.total == t.total,
        ev matches TransferEvent::Chunk(n) ==> res.0.downloaded == t.downloaded + n,
        !(ev is Chunk) ==> res.0.downloaded == t.downloaded,
{
    match ev {
        TransferEvent::Cancelled => (t, TransferAction::Abort),
        TransferEvent::Chunk(n) => {
            let total = t.total;
            (Transfer { downloaded: t.downloaded + n, total }, TransferAction::Write { report: total > 0 })
        },
        TransferEvent::ChunkFailed(e) => (t, TransferAction::Fail(e)),
        TransferEvent::Finished => (t, TransferAction::Complete),
    }
}

// ── Events ──────────────────────────────────────────────────────────────────

/// How a download ended.
pub enum DownloadOutcome {
    Completed,
    Cancelled,
    Failed(String),
}

/// The event name and JSON payload that tell the frontend how a download ended.
pub open spec fn outcome_event(id: Seq<char>, outcome: DownloadOutcome) -> (Seq<char>, Seq<char>) {
    match outcome {
        DownloadOutcome::Completed => ("download-complete"@, "{\"id\":"@ + json_quoted(id) + "}"@),
        DownloadOutcome::Cancelled => ("download-cancelled"@, "{\"id\":"@ + json_quoted(id) + "}"@),
        DownloadOutcome::Failed(e) => (
            "download-failed"@,
            "{\"error\":"@ + json_quoted(e@) + ",\"id\":"@ + json_quoted(id) + "}"@,
        ),
    }
}

pub fn outcome_message(id: &str, outcome: DownloadOutcome) -> (res: (String, String))
    ensures
        (res.0@, res.1@) == outcome_event(id@, outcome),
{
    match outcome {
        DownloadOutcome::Completed => {
            let mut p = String::from_str("{\"id\":");
            p.append(quote(id).as_str());
            p.append("}");
            (String::from_str("download-complete"), p)
        },
        DownloadOutcome::Cancelled => {
            let mut p = String::from_str("{\"id\":");
            p.append(quote(id).as_str());
            p.append("}");
            (String::from_str("download-cancelled"), p)
        },
        DownloadOutcome::Failed(e) => {
            let mut p = String::from_str("{\"error\":");
            p.append(quote(e.as_str()).as_str());
            p.append(",\"id\":");
            p.append(quote(id).as_str());
            p.append("}");
            (String::from_str("download-failed"), p)
        },
    }
}

/// A download is cancelled once: after its handle was taken, taking it again
/// finds nothing, and the other downloads keep their handles.
pub proof fn law_cancel_once<T>(
    before: DownloadManager<T>,
    once: DownloadManager<T>,
    twice: DownloadManager<T>,
    id: Seq<char>,
)
    requires
        once@ == before@.remove(id),
        twice@ == once@.remove(id),
    ensures
        !once@.contains_key(id),
        twice@ == once@,
        forall|k: Seq<char>| k != id && before@.contains_key(k) ==> twice@.contains_key(k)
            && twice@[k] == before@[k],
{
    assert(twice@ =~= once@);
}

/// A transfer counts every byte of every chunk: after the chunks of `sizes`,
/// what it received is their sum.
pub open spec fn received_after(start: u64, sizes: Seq<u64>) -> int
    decreases sizes.len(),
{
    if sizes.len() == 0 {
        start as int
    } else {
        received_after(start, sizes.drop_last()) + sizes.last()
    }
}

/// Stepping a transfer through chunk after chunk leaves its count at the
/// sum of their sizes and never changes the announced size.
pub proof fn law_transfer_counts(t: Transfer, next: Transfer, sizes: Seq<u64>, n: u64)
    requires
        t.downloaded == received_after(0, sizes),
        next.downloaded == t.downloaded + n,
        next.total == t.total,
    ensures
        next.downloaded == received_after(0, sizes.push(n)),
        next.total == t.total,
{
    assert(sizes.push(n).drop_last() =~= sizes);
}

/// The size a server announced is kept for the whole transfer: no event
/// changes it, a chunk adds exactly its bytes to the count, and every other
/// event leaves the count as it was.
pub proof fn law_transfer_keeps_size(t: Transfer, ev: TransferEvent)
    requires
        ev matches TransferEvent::Chunk(n) ==> t.downloaded + n <= u64::MAX,
    ensures
        transfer_next(t, ev).0.total == t.total,
        ev matches TransferEvent::Chunk(n) ==> transfer_next(t, ev).0.downloaded == t.downloaded + n,
        !(ev is Chunk) ==> transfer_next(t, ev).0.downloaded == t.downloaded,
        ev matches TransferEvent::Chunk(_) ==> transfer_next(t, ev).1 == (TransferAction::Write {
            report: t.total > 0,
        }),
{
}

/// Whether an action ends the transfer: everything but writing a chunk.
pub open spec fn ends(a: TransferAction) -> bool {
    !(a is Write)
}

/// The actions of a transfer that meets the events `evs` in turn, up to and
/// including the first one that ends it.
pub open spec fn transfer_actions(t: Transfer, evs: Seq<TransferEvent>) -> Seq<TransferAction>
    decreases evs.len(),
{
    if evs.len() == 0 {
        Seq::empty()
    } else {
        let (next, a) = transfer_next(t, evs[0]);
        if ends(a) {
            seq![a]
        } else {
            seq![a] + transfer_actions(next, evs.drop_first())
        }
    }
}

/// A transfer ends once: of the actions it takes, only the last can end it,
/// and the last does end it exactly when some event was not a chunk.
pub proof fn law_transfer_ends_once(t: Transfer, evs: Seq<TransferEvent>)
    ensures
        ({
            let acts = transfer_actions(t, evs);
            &&& forall|i: int| 0 <= i < acts.len() - 1 ==> !ends(#[trigger] acts[i])
            &&& (exists|k: int| 0 <= k < evs.len() && !(#[trigger] evs[k] is Chunk)) <==> (acts.len()
                > 0 && ends(acts.last()))
        }),
    decreases evs.len(),
{
    if evs.len() > 0 {
        let (next, a) = transfer_next(t, evs[0]);
        let rest = evs.drop_first();
        law_transfer_ends_once(next, rest);
        let acts = transfer_actions(t, evs);
        let tail = transfer_actions(next, rest);
        if !ends(a) {
            assert(acts == seq![a] + tail);
            assert forall|i: int| 0 <= i < acts.len() - 1 implies !ends(#[trigger] acts[i]) by {
                if i > 0 {
                    assert(acts[i] == tail[i - 1]);
                }
            }
            if exists|k: int| 0 <= k < evs.len() && !(#[trigger] evs[k] is Chunk) {
                let k = choose|k: int| 0 <= k < evs.len() && !(#[trigger] evs[k] is Chunk);
                assert(k > 0);
                assert(rest[k - 1] == evs[k]);
            }
            if exists|k: int| 0 <= k < rest.len() && !(#[trigger] rest[k] is Chunk) {
                let k = choose|k: int| 0 <= k < rest.len() && !(#[trigger] rest[k] is Chunk);
                assert(rest[k] == evs[k + 1]);
            }
            if tail.len() > 0 {
                assert(acts.last() == tail.last());
            }
        }
    }
}

} // verus!
