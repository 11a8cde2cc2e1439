//! The protocol spoken with the JVM bridge process: one JSON object per
//! line on its stdin and stdout, requests matched to responses by id.

use vstd::prelude::*;
use crate::json::{json_quoted, quote, lemma_quoted_no_control};
use crate::table::KeyedTable;
use crate::ids::{is_uuid_text, is_v4_text, new_id};
use crate::text::{cat, cat3, cat4, chars_of, contains_in, seq_contains, trim, trimmed};

verus! {

// ── Requests ────────────────────────────────────────────────────────────────

/// The request line for one call: the JSON object
/// `{"id":..,"action":..,"pluginId":..,"pluginUrl":..,"arg":..}` with every
/// value a JSON string, then a line feed.
pub open spec fn request_line(
    id: Seq<char>,
    action: Seq<char>,
    plugin_id: Seq<char>,
    plugin_url: Seq<char>,
    arg: Seq<char>,
) -> Seq<char> {
    "{\"id\":"@ + json_quoted(id) + ",\"action\":"@ + json_quoted(action) + ",\"pluginId\":"@
        + json_quoted(plugin_id) + ",\"pluginUrl\":"@ + json_quoted(plugin_url) + ",\"arg\":"@
        + json_quoted(arg) + "}\n"@
}

/// Writes the request line for one call.
pub fn encode_request(
    id: &str,
    action: &str,
    plugin_id: &str,
    plugin_url: &str,
    arg: &str,
) -> (res: String)
    ensures
        res@ == request_line(id@, action@, plugin_id@, plugin_url@, arg@),
{
    let mut line = String::from_str("{\"id\":");
    line.append(quote(id).as_str());
    line.append(",\"action\":");
    line.append(quote(action).as_str());
    line.append(",\"pluginId\":");
    line.append(quote(plugin_id).as_str());
    line.append(",\"pluginUrl\":");
    line.append(quote(plugin_url).as_str());
    line.append(",\"arg\":");
    line.append(quote(arg).as_str());
    line.append("}\n");
    line
}

/// A request line is one line: its only line feed is its last character,
/// whatever the strings it carries hold.
pub proof fn lemma_request_is_one_line(
    id: Seq<char>,
    action: Seq<char>,
    plugin_id: Seq<char>,
    plugin_url: Seq<char>,
    arg: Seq<char>,
)
    ensures
        ({
            let l = request_line(id, action, plugin_id, plugin_url, arg);
            &&& l.len() > 0
            &&& l.last() == '\n'
            &&& forall|i: int| 0 <= i < l.len() - 1 ==> l[i] != '\n'
        }),
{
    reveal_strlit("{\"id\":");
    reveal_strlit(",\"action\":");
    reveal_strlit(",\"pluginId\":");
    reveal_strlit(",\"pluginUrl\":");
    reveal_strlit(",\"arg\":");
    reveal_strlit("}\n");
    lemma_quoted_no_control(id);
    lemma_quoted_no_control(action);
    lemma_quoted_no_control(plugin_id);
    lemma_quoted_no_control(plugin_url);
    lemma_quoted_no_control(arg);
    lemma_no_newline_concat("{\"id\":"@, json_quoted(id));
    let a1 = "{\"id\":"@ + json_quoted(id);
    lemma_no_newline_concat(a1, ",\"action\":"@);
    let a2 = a1 + ",\"action\":"@;
    lemma_no_newline_concat(a2, json_quoted(action));
    let a3 = a2 + json_quoted(action);
    lemma_no_newline_concat(a3, ",\"pluginId\":"@);
    let a4 = a3 + ",\"pluginId\":"@;
    lemma_no_newline_concat(a4, json_quoted(plugin_id));
    let a5 = a4 + json_quoted(plugin_id);
    lemma_no_newline_concat(a5, ",\"pluginUrl\":"@);
    let a6 = a5 + ",\"pluginUrl\":"@;
    lemma_no_newline_concat(a6, json_quoted(plugin_url));
    let a7 = a6 + json_quoted(plugin_url);
    lemma_no_newline_concat(a7, ",\"arg\":"@);
    let a8 = a7 + ",\"arg\":"@;
    lemma_no_newline_concat(a8, json_quoted(arg));
    let a9 = a8 + json_quoted(arg);
    let l = request_line(id, action, plugin_id, plugin_url, arg);
    assert(l =~= a9 + seq!['}', '\n']);
    assert forall|i: int| 0 <= i < l.len() - 1 implies l[i] != '\n' by {
        if i < a9.len() {
            assert(l[i] == a9[i]);
        }
    }
}

proof fn lemma_no_newline_concat(a: Seq<char>, b: Seq<char>)
    requires
        forall|i: int| 0 <= i < a.len() ==> a[i] != '\n',
        forall|i: int| 0 <= i < b.len() ==> b[i] != '\n',
    ensures
        forall|i: int| 0 <= i < (a + b).len() ==> (a + b)[i] != '\n',
{
    assert forall|i: int| 0 <= i < (a + b).len() implies (a + b)[i] != '\n' by {
        if i >= a.len() {
            assert((a + b)[i] == b[i - a.len()]);
        }
    }
}

// ── Responses ───────────────────────────────────────────────────────────────

/// One response line of the bridge, once read from its JSON.
pub struct BridgeResponse {
    pub id: String,
    pub ok: bool,
    pub result: Option<String>,
    pub error: Option<String>,
}

/// Why talking to the JVM bridge failed.
pub enum BridgeError {
    /// The bridge JAR is not at this path.
    JarNotFound(String),
    /// The JVM could not be launched: the command and the OS error.
    LaunchFailed(String, String),
    /// Reading the handshake line failed: the OS error.
    NoHandshake(String),
    /// The first line was not the handshake: the line, trimmed.
    BadHandshake(String),
    /// The reader thread could not be started: the OS error.
    ReaderFailed(String),
    /// Writing the request failed: the OS error.
    WriteFailed(String),
    /// Flushing the request failed: the OS error.
    FlushFailed(String),
    /// No response came within the time limit for this action.
    Timeout(String),
    /// The bridge went away before it answered.
    ChannelDropped,
    /// The bridge answered `ok` without a result.
    MissingResult,
    /// The bridge answered with an error: the action and its message.
    Remote(String, String),
    /// No bridge is running.
    Unavailable,
}

impl BridgeError {
    /// The text of the error.
    pub fn message(&self) -> (res: String)
        ensures
            res@ == match self {
                BridgeError::JarNotFound(p) => "Bridge JAR not found at '"@ + p@
                    + "'.\nBuild it with:  cd cloudstream-bridge && ./gradlew deployToTauri"@,
                BridgeError::LaunchFailed(j, e) => "Failed to launch JVM ('"@ + j@
                    + "') — is Java 11+ installed or bundled?\n"@ + e@,
                BridgeError::NoHandshake(e) => "JVM bridge did not send handshake: "@ + e@,
                BridgeError::BadHandshake(l) => "JVM bridge sent unexpected handshake line: "@ + l@,
                BridgeError::ReaderFailed(e) => "Failed to spawn reader thread: "@ + e@,
                BridgeError::WriteFailed(e) => "JVM stdin write failed (process dead?): "@ + e@,
                BridgeError::FlushFailed(e) => "JVM stdin flush failed: "@ + e@,
                BridgeError::Timeout(a) => "JVM call '"@ + a@ + "' timed out after 60s"@,
                BridgeError::ChannelDropped => "JVM bridge response channel was dropped unexpectedly"@,
                BridgeError::MissingResult => "JVM returned ok=true but result field was null"@,
                BridgeError::Remote(a, e) => "JVM bridge error in action='"@ + a@ + "': "@ + e@,
                BridgeError::Unavailable => "JVM bridge is not running"@,
            },
    {
        match self {
            BridgeError::JarNotFound(p) => cat3(
                "Bridge JAR not found at '",
                p.as_str(),
                "'.\nBuild it with:  cd cloudstream-bridge && ./gradlew deployToTauri",
            ),
            BridgeError::LaunchFailed(j, e) => cat4(
                "Failed to launch JVM ('",
                j.as_str(),
                "') — is Java 11+ installed or bundled?\n",
                e.as_str(),
            ),
            BridgeError::NoHandshake(e) => cat("JVM bridge did not send handshake: ", e.as_str()),
            BridgeError::BadHandshake(l) => cat("JVM bridge sent unexpected handshake line: ", l.as_str()),
            BridgeError::ReaderFailed(e) => cat("Failed to spawn reader thread: ", e.as_str()),
            BridgeError::WriteFailed(e) => cat("JVM stdin write failed (process dead?): ", e.as_str()),
            BridgeError::FlushFailed(e) => cat("JVM stdin flush failed: ", e.as_str()),
            BridgeError::Timeout(a) => cat3("JVM call '", a.as_str(), "' timed out after 60s"),
            BridgeError::ChannelDropped => String::from_str("JVM bridge response channel was dropped unexpectedly"),
            BridgeError::MissingResult => String::from_str("JVM returned ok=true but result field was null"),
            BridgeError::Remote(a, e) => cat4("JVM bridge error in action='", a.as_str(), "': ", e.as_str()),
            BridgeError::Unavailable => String::from_str("JVM bridge is not running"),
        }
    }
}

/// Turns a response into the call's result.
pub fn interpret_response(action: &str, resp: BridgeResponse) -> (res: Result<String, BridgeError>)
    ensures
        resp.ok && resp.result is Some ==> res is Ok && res->Ok_0 == resp.result->Some_0,
        resp.ok && resp.result is None ==> res is Err && res->Err_0 is MissingResult,
        !resp.ok ==> res is Err && res->Err_0 is Remote && res->Err_0->Remote_0@ == action@
            && res->Err_0->Remote_1@ == match resp.error {
                Some(e) => e@,
                None => "<no error message>"@,
            },
{
    if resp.ok {
        match resp.result {
            Some(r) => Ok(r),
            None => Err(BridgeError::MissingResult),
        }
    } else {
        let message = match resp.error {
            Some(e) => e,
            None => String::from_str("<no error message>"),
        };
        Err(BridgeError::Remote(String::from_str(action), message))
    }
}

// ── Start-up ────────────────────────────────────────────────────────────────

/// Whether the first line of the bridge is its handshake: it says `ready`.
pub fn handshake_ok(line: &str) -> (res: bool)
    ensures
        res == seq_contains(line@, "ready"@),
{
    let s = chars_of(line);
    let pat = chars_of("ready");
    proof {
        assert(s@.subrange(0, s@.len() as int) =~= s@);
    }
    contains_in(&s, 0, s.len(), &pat)
}

/// Checks the handshake line; a wrong one is an error that quotes it trimmed.
pub fn check_handshake(line: &str) -> (res: Result<(), BridgeError>)
    ensures
        res is Ok <==> seq_contains(line@, "ready"@),
        res matches Err(e) ==> e is BadHandshake && e->BadHandshake_0@ == trimmed(line@),
{
    if handshake_ok(line) {
        Ok(())
    } else {
        Err(BridgeError::BadHandshake(trim(line)))
    }
}

/// The program that runs the bridge: the bundled `java.exe` when one was
/// found, else `java` from the system path.
pub fn java_command(bundled: Option<String>) -> (res: String)
    ensures
        res@ == match bundled {
            Some(p) => p@,
            None => "java"@,
        },
{
    match bundled {
        Some(p) => p,
        None => String::from_str("java"),
    }
}

/// Whether a line from the bridge is worth reading: empty lines are skipped.
pub fn is_blank_line(line: &str) -> (res: bool)
    ensures
        res == (line@.len() == 0),
{
    line.is_empty()
}

// ── Waiting callers ─────────────────────────────────────────────────────────

/// What the reader of the bridge's stdout came upon.
pub enum ReaderEvent {
    /// An empty line.
    Blank,
    /// A line that does not read as a response.
    Malformed,
    /// A line that reads as this response.
    Response(BridgeResponse),
    /// Stdout ended or failed: the bridge is gone.
    Closed,
}

/// What the reader does about what it came upon.
pub enum ReaderAction<S> {
    /// Nothing.
    Skip,
    /// Log the line that does not read as a response.
    ReportMalformed,
    /// Log a response that nobody waits for, by its id.
    ReportOrphan(String),
    /// Hand the response to the caller that waits for it.
    Deliver(S, BridgeResponse),
    /// Let every caller still waiting go, each with its request id.
    ReleaseAll(Vec<(String, S)>),
}

/// The callers still waiting after the reader came upon `ev`: a response
/// takes out the caller of its id, the end of stdout takes out everyone,
/// anything else leaves them all.
pub open spec fn reader_next<S>(m: Map<Seq<char>, S>, ev: ReaderEvent) -> Map<Seq<char>, S> {
    match ev {
        ReaderEvent::Response(r) => m.remove(r.id@),
        ReaderEvent::Closed => Map::empty(),
        _ => m,
    }
}

/// The callers still waiting after the reader came upon each of `evs` in turn.
pub open spec fn reader_after<S>(m: Map<Seq<char>, S>, evs: Seq<ReaderEvent>) -> Map<Seq<char>, S>
    decreases evs.len(),
{
    if evs.len() == 0 {
        m
    } else {
        reader_next(reader_after(m, evs.drop_last()), evs.last())
    }
}

/// The callers waiting for a response, each under the id of its request.
pub struct PendingCalls<S> {
    waiting: KeyedTable<S>,
}

impl<S> PendingCalls<S> {
    pub closed spec fn wf(self) -> bool {
        self.waiting.wf()
    }

    /// The waiting callers by request id.
    pub closed spec fn view(self) -> Map<Seq<char>, S> {
        self.waiting@
    }

    /// Nobody waits yet.
    pub fn new() -> (res: Self)
        ensures
            res.wf(),
            res@ == Map::<Seq<char>, S>::empty(),
    {
        PendingCalls { waiting: KeyedTable::new() }
    }

    /// Registers a caller under the id of its request, before the request is
    /// written, so that no response can come before its caller is known.
    pub fn register(&mut self, id: String, waiter: S)
        requires
            old(self).wf(),
        ensures
            final(self).wf(),
            final(self)@ == old(self)@.insert(id@, waiter),
    {
        let _ = self.waiting.insert(id, waiter);
    }

    /// Starts a call: a fresh request id, the caller registered under it,
    /// and the request line to write.
    pub fn open_call(
        &mut self,
        waiter: S,
        action: &str,
        plugin_id: &str,
        plugin_url: &str,
        arg: &str,
    ) -> (res: (String, String))
        requires
            old(self).wf(),
        ensures
            final(self).wf(),
            is_uuid_text(res.0@),
            is_v4_text(res.0@),
            final(self)@ == old(self)@.insert(res.0@, waiter),
            res.1@ == request_line(res.0@, action@, plugin_id@, plugin_url@, arg@),
    {
        let id = new_id();
        let line = encode_request(id.as_str(), action, plugin_id, plugin_url, arg);
        self.register(id.clone(), waiter);
        (id, line)
    }

    /// Takes the caller that waits for the response with this id: the one
    /// to deliver the response to, or `None` for an orphan response.
    pub fn resolve(&mut self, id: &str) -> (res: Option<S>)
        requires
            old(self).wf(),
        ensures
            final(self).wf(),
            final(self)@ == old(self)@.remove(id@),
            res is Some <==> old(self)@.contains_key(id@),
            res matches Some(w) ==> w == old(self)@[id@],
    {
        self.waiting.remove(id)
    }

    /// Forgets the caller of a request that failed on its way out or timed out.
    pub fn abandon(&mut self, id: &str)
        requires
            old(self).wf(),
        ensures
            final(self).wf(),
            final(self)@ == old(self)@.remove(id@),
    {
        let _ = self.waiting.remove(id);
    }

    /// Lets every waiting caller go: the bridge is gone. Dropping them tells
    /// each one that no response will come.
    pub fn fail_all(&mut self) -> (res: Vec<(String, S)>)
        requires
            old(self).wf(),
        ensures
            final(self).wf(),
            final(self)@ == Map::<Seq<char>, S>::empty(),
            res@.len() == old(self)@.len(),
            forall|i: int| 0 <= i < res@.len() ==> old(self)@.contains_key(#[trigger] res@[i].0@)
                && old(self)@[res@[i].0@] == res@[i].1,
            forall|k: Seq<char>| #[trigger] old(self)@.contains_key(k) ==> exists|i: int|
                0 <= i < res@.len() && res@[i].0@ == k,
    {
        proof {
            self.waiting.lemma_len();
            self.waiting.lemma_pairs();
        }
        self.waiting.drain()
    }

    /// One step of the reader of the bridge's stdout: delivers a response to
    /// the caller that waits for its id, lets everyone go when stdout ends,
    /// and touches no caller for anything else.
    pub fn on_reader_event(&mut self, ev: ReaderEvent) -> (res: ReaderAction<S>)
        requires
            old(self).wf(),
        ensures
            final(self).wf(),
            final(self)@ == reader_next(old(self)@, ev),
            match ev {
                ReaderEvent::Blank => res is Skip,
                ReaderEvent::Malformed => res is ReportMalformed,
                ReaderEvent::Response(r) => if old(self)@.contains_key(r.id@) {
                    res == ReaderAction::Deliver(old(self)@[r.id@], r)
                } else {
                    res matches ReaderAction::ReportOrphan(id) && id@ == r.id@
                },
                ReaderEvent::Closed => res matches ReaderAction::ReleaseAll(v) && v@.len()
                    == old(self)@.len() && (forall|i: int| 0 <= i < v@.len()
                    ==> old(self)@.contains_key(#[trigger] v@[i].0@) && old(self)@[v@[i].0@]
                    == v@[i].1) && (forall|k: Seq<char>| #[trigger] old(self)@.contains_key(k)
                    ==> exists|i: int| 0 <= i < v@.len() && v@[i].0@ == k),
            },
    {
        match ev {
            ReaderEvent::Blank => ReaderAction::Skip,
            ReaderEvent::Malformed => ReaderAction::ReportMalformed,
            ReaderEvent::Response(r) => match self.resolve(r.id.as_str()) {
                Some(w) => ReaderAction::Deliver(w, r),
                None => ReaderAction::ReportOrphan(r.id),
            },
            ReaderEvent::Closed => ReaderAction::ReleaseAll(self.fail_all()),
        }
    }
}

/// A response reaches its caller at most once: once an id was resolved,
/// resolving it again finds nobody.
pub proof fn lemma_resolve_once<S>(before: PendingCalls<S>, once: PendingCalls<S>, id: Seq<char>)
    requires
        once@ == before@.remove(id),
    ensures
        !once@.contains_key(id),
{
}

/// Registering a caller and resolving its id hands back that caller and
/// leaves the others as they were, for an id that nobody waited on.
pub proof fn lemma_register_resolve<S>(
    before: PendingCalls<S>,
    registered: PendingCalls<S>,
    resolved: PendingCalls<S>,
    id: Seq<char>,
    w: S,
)
    requires
        !before@.contains_key(id),
        registered@ == before@.insert(id, w),
        resolved@ == registered@.remove(id),
    ensures
        registered@.contains_key(id),
        registered@[id] == w,
        resolved@ == before@,
{
    assert(resolved@ =~= before@);
}

/// One thing that happens to the waiting callers: a call opens under its
/// request id, or the response with an id is taken.
pub enum CallStep<S> {
    Open(Seq<char>, S),
    Answer(Seq<char>),
}

/// The callers waiting after each of `steps` in turn.
pub open spec fn calls_after<S>(m: Map<Seq<char>, S>, steps: Seq<CallStep<S>>) -> Map<Seq<char>, S>
    decreases steps.len(),
{
    if steps.len() == 0 {
        m
    } else {
        let before = calls_after(m, steps.drop_last());
        match steps.last() {
            CallStep::Open(id, w) => before.insert(id, w),
            CallStep::Answer(id) => before.remove(id),
        }
    }
}

/// Calls in flight together each get the response that carries their own
/// request id, whatever order the calls open and the responses come in: a
/// caller that opened under an id that no other call used, and whose
/// response has not come yet, is the one that its response reaches.
pub proof fn law_calls_get_own_responses<S>(
    m: Map<Seq<char>, S>,
    steps: Seq<CallStep<S>>,
    j: int,
    id: Seq<char>,
    w: S,
)
    requires
        0 <= j < steps.len(),
        steps[j] == CallStep::Open(id, w),
        forall|k: int| 0 <= k < steps.len() && k != j ==> !(#[trigger] steps[k] matches CallStep::Open(o, _) && o == id),
        forall|k: int| j < k < steps.len() ==> !(#[trigger] steps[k] matches CallStep::Answer(a) && a == id),
    ensures
        calls_after(m, steps).contains_key(id),
        calls_after(m, steps)[id] == w,
    decreases steps.len(),
{
    let n = steps.len();
    let prefix = steps.drop_last();
    if j < n - 1 {
        assert forall|k: int| 0 <= k < prefix.len() && k != j implies !(#[trigger] prefix[k] matches CallStep::Open(o, _) && o == id) by {
            assert(prefix[k] == steps[k]);
        }
        assert forall|k: int| j < k < prefix.len() implies !(#[trigger] prefix[k] matches CallStep::Answer(a) && a == id) by {
            assert(prefix[k] == steps[k]);
        }
        assert(prefix[j] == steps[j]);
        law_calls_get_own_responses(m, prefix, j, id, w);
        assert(steps.last() == steps[n - 1]);
    }
}

/// The reader hands each waiting caller nothing but its own response: a
/// caller waiting under an id keeps waiting, untouched, through empty and
/// malformed lines and through responses for other ids.
pub proof fn law_reader_keeps_waiting<S>(m: Map<Seq<char>, S>, evs: Seq<ReaderEvent>, id: Seq<char>)
    requires
        m.contains_key(id),
        forall|k: int| 0 <= k < evs.len() ==> !(#[trigger] evs[k] is Closed),
        forall|k: int| 0 <= k < evs.len() ==> !(#[trigger] evs[k] matches ReaderEvent::Response(r) && r.id@ == id),
    ensures
        reader_after(m, evs).contains_key(id),
        reader_after(m, evs)[id] == m[id],
    decreases evs.len(),
{
    if evs.len() > 0 {
        let prefix = evs.drop_last();
        assert forall|k: int| 0 <= k < prefix.len() implies !(#[trigger] prefix[k] is Closed) by {
            assert(prefix[k] == evs[k]);
        }
        assert forall|k: int| 0 <= k < prefix.len() implies !(#[trigger] prefix[k] matches ReaderEvent::Response(r) && r.id@ == id) by {
            assert(prefix[k] == evs[k]);
        }
        law_reader_keeps_waiting(m, prefix, id);
        assert(evs.last() == evs[evs.len() - 1]);
    }
}

/// Once stdout has ended nobody waits any more, whatever came before: no
/// call is left hanging on a bridge that is gone.
pub proof fn law_reader_end_releases_all<S>(m: Map<Seq<char>, S>, evs: Seq<ReaderEvent>)
    requires
        evs.len() > 0,
        evs.last() is Closed,
    ensures
        reader_after(m, evs) == Map::<Seq<char>, S>::empty(),
{
}

} // verus!
