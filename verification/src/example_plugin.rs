//! The example plugin compiled to WebAssembly: what its exported functions
//! answer, as JSON text, and how a string's place in linear memory is packed
//! into one integer for the host.

use vstd::prelude::*;
use crate::json::{json_quoted, quote};
use crate::text::{decimal, decimal_string, occurs_at, seq_contains};

verus! {

/// `String::from_utf8_lossy`: the text of UTF-8 bytes, each ill-formed
/// sequence replaced by U+FFFD.
pub uninterp spec fn utf8_lossy(bytes: Seq<u8>) -> Seq<char>;

/// std's `String::from_utf8_lossy`, made an owned `String`. The contract
/// claims only that the text is a function of the bytes: the name `utf8_lossy`.
#[verifier::external_body]
pub(crate) fn text_of_bytes(bytes: &[u8]) -> (res: String)
    ensures
        res@ == utf8_lossy(bytes@),
{
    String::from_utf8_lossy(bytes).to_string()
}

/// The search answer of the example: one made-up title that echoes the query.
pub open spec fn search_answer(query: Seq<char>) -> Seq<char> {
    "[{\"id\":\"tt0111161\",\"title\":"@ + json_quoted("Search result for: "@ + query)
        + ",\"poster_url\":\"https://via.placeholder.com/150x225\",\"media_type\":\"movie\",\"year\":1994,\"rating\":9.3,\"description\":\"A great movie\"}]"@
}

pub fn search_json(query: &str) -> (res: String)
    ensures
        res@ == search_answer(query@),
{
    let mut title = String::from_str("Search result for: ");
    title.append(query);
    let mut s = String::from_str("[{\"id\":\"tt0111161\",\"title\":");
    s.append(quote(title.as_str()).as_str());
    s.append(
        ",\"poster_url\":\"https://via.placeholder.com/150x225\",\"media_type\":\"movie\",\"year\":1994,\"rating\":9.3,\"description\":\"A great movie\"}]",
    );
    s
}

/// The stream answer of the example: two HLS streams, 1080p and 720p.
pub open spec fn streams_answer() -> Seq<char> {
    "[{\"url\":\"https://example.com/stream.m3u8\",\"quality\":\"1080p\",\"format\":\"hls\",\"subtitles\":[],\"headers\":{}},{\"url\":\"https://example.com/stream_720.m3u8\",\"quality\":\"720p\",\"format\":\"hls\",\"subtitles\":[],\"headers\":{}}]"@
}

pub fn streams_json() -> (res: String)
    ensures
        res@ == streams_answer(),
{
    String::from_str(
        "[{\"url\":\"https://example.com/stream.m3u8\",\"quality\":\"1080p\",\"format\":\"hls\",\"subtitles\":[],\"headers\":{}},{\"url\":\"https://example.com/stream_720.m3u8\",\"quality\":\"720p\",\"format\":\"hls\",\"subtitles\":[],\"headers\":{}}]",
    )
}

/// A number written with at least two digits, as `{:02}` writes it.
pub open spec fn two_digits(n: nat) -> Seq<char> {
    if n < 10 {
        seq!['0'] + decimal(n)
    } else {
        decimal(n)
    }
}

/// Episode `n` of the example's season 1, as a JSON object.
pub open spec fn episode_object(n: nat) -> Seq<char> {
    "{\"id\":\"s01e"@ + two_digits(n) + "\",\"title\":\"Episode "@ + decimal(n)
        + "\",\"season\":1,\"episode_number\":"@ + decimal(n)
        + ",\"thumbnail_url\":null,\"description\":\"Episode "@ + decimal(n) + " of Season 1\"}"@
}

/// Episodes 1 to `n`, separated by commas.
pub open spec fn episode_objects(n: nat) -> Seq<char>
    decreases n,
{
    if n == 0 {
        Seq::empty()
    } else if n == 1 {
        episode_object(1)
    } else {
        episode_objects((n - 1) as nat) + ","@ + episode_object(n)
    }
}

/// The episode answer of the example: episodes 1 to 12 of season 1.
pub open spec fn episodes_answer() -> Seq<char> {
    "["@ + episode_objects(12) + "]"@
}

/// How episode `k` of the answer opens: its id `s01e` with the number in
/// two digits, its title `Episode k`, season 1, and `episode_number` k.
pub open spec fn episode_head(k: nat) -> Seq<char> {
    "{\"id\":\"s01e"@ + two_digits(k) + "\",\"title\":\"Episode "@ + decimal(k)
        + "\",\"season\":1,\"episode_number\":"@ + decimal(k) + ","@
}

proof fn lemma_contains_within(a: Seq<char>, x: Seq<char>, b: Seq<char>, p: Seq<char>)
    requires
        seq_contains(x, p),
    ensures
        seq_contains(a + x + b, p),
{
    let i = choose|i: int| occurs_at(x, p, i);
    let s = a + x + b;
    assert(s.subrange(i + a.len(), i + a.len() + p.len()) =~= x.subrange(i, i + p.len()));
    assert(occurs_at(s, p, i + a.len()));
}

proof fn lemma_object_has_head(k: nat)
    ensures
        seq_contains(episode_object(k), episode_head(k)),
{
    let tail = ",\"thumbnail_url\":null,\"description\":\"Episode "@;
    let rest = "\"thumbnail_url\":null,\"description\":\"Episode "@;
    reveal_strlit(",\"thumbnail_url\":null,\"description\":\"Episode ");
    reveal_strlit("\"thumbnail_url\":null,\"description\":\"Episode ");
    reveal_strlit(",");
    assert(tail =~= ","@ + rest);
    let o = episode_object(k);
    let h = episode_head(k);
    assert(o =~= h + (rest + decimal(k) + " of Season 1\"}"@));
    assert(o.subrange(0, h.len() as int) =~= h);
    assert(occurs_at(o, h, 0));
}

proof fn lemma_objects_have_heads(m: nat, k: nat)
    requires
        1 <= k <= m,
    ensures
        seq_contains(episode_objects(m), episode_head(k)),
    decreases m,
{
    if m == 1 {
        lemma_object_has_head(1);
    } else if k == m {
        lemma_object_has_head(k);
        lemma_contains_within(episode_objects((m - 1) as nat) + ","@, episode_object(k), Seq::empty(), episode_head(k));
        assert(episode_objects((m - 1) as nat) + ","@ + episode_object(k) + Seq::<char>::empty()
            =~= episode_objects(m));
    } else {
        lemma_objects_have_heads((m - 1) as nat, k);
        lemma_contains_within(Seq::empty(), episode_objects((m - 1) as nat), ","@ + episode_object(m), episode_head(k));
        assert(Seq::<char>::empty() + episode_objects((m - 1) as nat) + (","@ + episode_object(m))
            =~= episode_objects(m));
    }
}

/// Every episode from 1 to 12 is in the answer, and its object carries the
/// episode's own number throughout: id `s01e` and the number in two digits,
/// title `Episode k`, and `episode_number` k.
pub proof fn law_episodes_numbered(k: nat)
    requires
        1 <= k <= 12,
    ensures
        seq_contains(episodes_answer(), episode_head(k)),
{
    lemma_objects_have_heads(12, k);
    lemma_contains_within("["@, episode_objects(12), "]"@, episode_head(k));
}

fn episode_text(n: u64) -> (res: String)
    ensures
        res@ == episode_object(n as nat),
{
    let d = decimal_string(n);
    let mut s = String::from_str("{\"id\":\"s01e");
    if n < 10 {
        s.append("0");
    }
    s.append(d.as_str());
    s.append("\",\"title\":\"Episode ");
    s.append(d.as_str());
    s.append("\",\"season\":1,\"episode_number\":");
    s.append(d.as_str());
    s.append(",\"thumbnail_url\":null,\"description\":\"Episode ");
    s.append(d.as_str());
    s.append(" of Season 1\"}");
    proof {
        reveal_strlit("0");
        if n < 10 {
            assert(("{\"id\":\"s01e"@ + "0"@) + d@ =~= "{\"id\":\"s01e"@ + (seq!['0'] + decimal(n as nat)));
        }
    }
    s
}

pub fn episodes_json() -> (res: String)
    ensures
        res@ == episodes_answer(),
{
    let mut s = String::from_str("[");
    let mut n: u64 = 1;
    while n <= 12
        invariant
            1 <= n <= 13,
            s@ == "["@ + episode_objects((n - 1) as nat),
        decreases 13 - n,
    {
        if n > 1 {
            s.append(",");
        }
        s.append(episode_text(n).as_str());
        proof {
            if n == 1 {
                assert(episode_objects(0) =~= Seq::<char>::empty());
            }
        }
        n = n + 1;
    }
    s.append("]");
    s
}

/// The example's `search` export: the answer for the query that the host
/// passed as UTF-8 bytes.
pub fn search(query: &[u8]) -> (res: String)
    ensures
        res@ == search_answer(utf8_lossy(query@)),
{
    let q = text_of_bytes(query);
    search_json(q.as_str())
}

/// The example's `get_streams` export: the same two streams for any media id.
pub fn get_streams(media_id: &[u8]) -> (res: String)
    ensures
        res@ == streams_answer(),
{
    let _media_id = text_of_bytes(media_id);
    streams_json()
}

/// The example's `get_episodes` export: the same twelve episodes for any show.
pub fn get_episodes(show_id: &[u8]) -> (res: String)
    ensures
        res@ == episodes_answer(),
{
    let _show_id = text_of_bytes(show_id);
    episodes_json()
}

/// The host's convention for a string in WebAssembly memory: its address in
/// the high 32 bits, its length in the low 32 bits.
pub fn pack_ptr_len(ptr: u64, len: u64) -> (res: u64)
    ensures
        res == ((ptr << 32u64) | len),
{
    (ptr << 32u64) | len
}

/// An address and a length that fit in 32 bits each come back unchanged
/// from a packed value.
pub proof fn lemma_pack_unpack(ptr: u64, len: u64)
    requires
        ptr < 0x1_0000_0000,
        len < 0x1_0000_0000,
    ensures
        ((ptr << 32u64) | len) >> 32u64 == ptr,
        ((ptr << 32u64) | len) & 0xffff_ffffu64 == len,
{
    assert(((ptr << 32u64) | len) >> 32u64 == ptr) by (bit_vector)
        requires
            ptr < 0x1_0000_0000,
            len < 0x1_0000_0000,
    ;
    assert(((ptr << 32u64) | len) & 0xffff_ffffu64 == len) by (bit_vector)
        requires
            len < 0x1_0000_0000,
    ;
}

} // verus!
