//! What the host does around a script plugin run by the JavaScript engine:
//! the script that calls a plugin function and parks its outcome in two
//! globals, the reading of those globals, and the `__http_fetch` function
//! that the host lends to plugins.

use vstd::prelude::*;
use crate::json::{json_quoted, quote, json_string_map, json_string_pairs, lists_map};
use crate::text::{decimal, decimal_string, occurs_at, seq_contains};
use crate::plugin_runtime::PluginError;

verus! {

/// The source of the `fetch()` that plugins call, written on top of the
/// host's `__http_fetch(url, method, headersJson, body)`.
pub open spec fn polyfill_source() -> Seq<char> {
    "
        async function fetch(url, opts) {
            var method  = (opts && opts.method)  || 'GET';
            var body    = (opts && opts.body != null) ? String(opts.body) : null;
            var headers = (opts && opts.headers) || {};
            var raw     = __http_fetch(url, method, JSON.stringify(headers), body);
            var parsed  = JSON.parse(raw);
            return {
                ok: parsed.ok, status: parsed.status,
                text: async function() { return parsed.body; },
                json: async function() { return JSON.parse(parsed.body); }
            };
        }
    "@
}

/// The `fetch()` that plugins call.
pub fn fetch_polyfill() -> (res: &'static str)
    ensures
        res@ == polyfill_source(),
{
    "
        async function fetch(url, opts) {
            var method  = (opts && opts.method)  || 'GET';
            var body    = (opts && opts.body != null) ? String(opts.body) : null;
            var headers = (opts && opts.headers) || {};
            var raw     = __http_fetch(url, method, JSON.stringify(headers), body);
            var parsed  = JSON.parse(raw);
            return {
                ok: parsed.ok, status: parsed.status,
                text: async function() { return parsed.body; },
                json: async function() { return JSON.parse(parsed.body); }
            };
        }
    "
}

/// The `fetch()` lent to plugins sends GET when the plugin names no method:
/// the method it hands `__http_fetch` is `(opts && opts.method) || 'GET'`,
/// which for `fetch(url)` without options is `'GET'`.
pub proof fn law_fetch_defaults_to_get()
    ensures
        seq_contains(polyfill_source(), "var method  = (opts && opts.method)  || 'GET';"@),
{
    let src = polyfill_source();
    let line = "var method  = (opts && opts.method)  || 'GET';"@;
    reveal_strlit("var method  = (opts && opts.method)  || 'GET';");
    reveal_strlit("
        async function fetch(url, opts) {
            var method  = (opts && opts.method)  || 'GET';
            var body    = (opts && opts.body != null) ? String(opts.body) : null;
            var headers = (opts && opts.headers) || {};
            var raw     = __http_fetch(url, method, JSON.stringify(headers), body);
            var parsed  = JSON.parse(raw);
            return {
                ok: parsed.ok, status: parsed.status,
                text: async function() { return parsed.body; },
                json: async function() { return JSON.parse(parsed.body); }
            };
        }
    ");
    assert(src.subrange(55, 101) =~= line);
    assert(occurs_at(src, line, 55));
}

/// What the `fetch()` lent to plugins hands `__http_fetch`: the URL, the
/// method, the plugin's headers (none when it gives none) as JSON, and the
/// body as a string (null when it gives none).
pub proof fn law_fetch_passes_request()
    ensures
        seq_contains(polyfill_source(), "var body    = (opts && opts.body != null) ? String(opts.body) : null;"@),
        seq_contains(polyfill_source(), "var headers = (opts && opts.headers) || {};"@),
        seq_contains(polyfill_source(), "var raw     = __http_fetch(url, method, JSON.stringify(headers), body);"@),
{
    let src = polyfill_source();
    let b = "var body    = (opts && opts.body != null) ? String(opts.body) : null;"@;
    let h = "var headers = (opts && opts.headers) || {};"@;
    let r = "var raw     = __http_fetch(url, method, JSON.stringify(headers), body);"@;
    reveal_strlit("var body    = (opts && opts.body != null) ? String(opts.body) : null;");
    reveal_strlit("var headers = (opts && opts.headers) || {};");
    reveal_strlit("var raw     = __http_fetch(url, method, JSON.stringify(headers), body);");
    reveal_strlit("
        async function fetch(url, opts) {
            var method  = (opts && opts.method)  || 'GET';
            var body    = (opts && opts.body != null) ? String(opts.body) : null;
            var headers = (opts && opts.headers) || {};
            var raw     = __http_fetch(url, method, JSON.stringify(headers), body);
            var parsed  = JSON.parse(raw);
            return {
                ok: parsed.ok, status: parsed.status,
                text: async function() { return parsed.body; },
                json: async function() { return JSON.parse(parsed.body); }
            };
        }
    ");
    assert(src.subrange(114, 183) =~= b);
    assert(occurs_at(src, b, 114));
    assert(src.subrange(196, 239) =~= h);
    assert(occurs_at(src, h, 196));
    assert(src.subrange(252, 323) =~= r);
    assert(occurs_at(src, r, 252));
}

/// The script that calls plugin function `func` with the JSON string
/// literal of `arg`, and leaves its result (a string, or the JSON of any
/// other value) in `__result`, or what it threw in `__error`.
pub open spec fn call_script(func: Seq<char>, arg: Seq<char>) -> Seq<char> {
    "var __result = null; var __error = null; (async function() { try { var r = await "@ + func
        + "("@ + json_quoted(arg)
        + "); __result = (typeof r === 'string') ? r : JSON.stringify(r); } catch(e) { __error = String(e); } })();"@
}

/// Writes the script that calls a plugin function.
pub fn build_call_script(func: &str, arg: &str) -> (res: String)
    ensures
        res@ == call_script(func@, arg@),
{
    let mut s = String::from_str(
        "var __result = null; var __error = null; (async function() { try { var r = await ",
    );
    s.append(func);
    s.append("(");
    s.append(quote(arg).as_str());
    s.append(
        "); __result = (typeof r === 'string') ? r : JSON.stringify(r); } catch(e) { __error = String(e); } })();",
    );
    s
}

/// What the host sees of a JavaScript global after the run.
pub enum JsSlot {
    /// `null` or `undefined`.
    Empty,
    /// A string, as text.
    Text(String),
    /// Any other value.
    Other,
}

/// The outcome of a plugin call, read from `__error` and `__result`: a thrown
/// string wins; else the result string; else the call produced nothing.
pub fn call_outcome(func: &str, error: JsSlot, result: JsSlot) -> (res: Result<String, PluginError>)
    ensures
        error is Text ==> res is Err && res->Err_0 is Threw && res->Err_0->Threw_0@ == func@
            && res->Err_0->Threw_1 == error->Text_0,
        !(error is Text) && result is Text ==> res is Ok && res->Ok_0 == result->Text_0,
        !(error is Text) && !(result is Text) ==> res is Err && res->Err_0 is NullResult
            && res->Err_0->NullResult_0@ == func@,
{
    if let JsSlot::Text(thrown) = error {
        return Err(PluginError::Threw(String::from_str(func), thrown));
    }
    match result {
        JsSlot::Text(r) => Ok(r),
        _ => Err(PluginError::NullResult(String::from_str(func))),
    }
}

// ── __http_fetch ────────────────────────────────────────────────────────────

/// The method a plugin's request goes out with.
pub enum HttpMethod {
    Get,
    Post,
    Put,
    Delete,
}

/// `str::to_uppercase`: the Unicode upper case of a string.
pub uninterp spec fn upper_case(s: Seq<char>) -> Seq<char>;

/// std's `str::to_uppercase`. The contract claims only that the result is a
/// function of the string: the name `upper_case`.
#[verifier::external_body]
fn to_uppercase(s: &str) -> (res: String)
    ensures
        res@ == upper_case(s@),
{
    s.to_uppercase()
}

/// The method for the name a plugin gave: `POST`, `PUT` and `DELETE` in any
/// case; anything else is a `GET`.
pub open spec fn method_for(name: Seq<char>) -> HttpMethod {
    let u = upper_case(name);
    if u == "POST"@ {
        HttpMethod::Post
    } else if u == "PUT"@ {
        HttpMethod::Put
    } else if u == "DELETE"@ {
        HttpMethod::Delete
    } else {
        HttpMethod::Get
    }
}

pub fn http_method(name: &str) -> (res: HttpMethod)
    ensures
        res == method_for(name@),
{
    let u = to_uppercase(name);
    if crate::text::str_eq(u.as_str(), "POST") {
        HttpMethod::Post
    } else if crate::text::str_eq(u.as_str(), "PUT") {
        HttpMethod::Put
    } else if crate::text::str_eq(u.as_str(), "DELETE") {
        HttpMethod::Delete
    } else {
        HttpMethod::Get
    }
}

/// A request that a plugin asked the host to make.
pub struct FetchRequest {
    pub url: String,
    pub method: HttpMethod,
    /// The request headers as a JSON object of strings.
    pub headers_json: String,
    pub body: Option<String>,
}

/// The request for the arguments of `__http_fetch`, each `None` where the
/// plugin passed no string: no URL is the empty one, no method is `GET`, no
/// headers are `{}`.
pub fn fetch_request(
    url: Option<String>,
    method: Option<String>,
    headers_json: Option<String>,
    body: Option<String>,
) -> (res: FetchRequest)
    ensures
        res.url@ == match url {
            Some(u) => u@,
            None => Seq::<char>::empty(),
        },
        res.method == method_for(
            match method {
                Some(m) => m@,
                None => "GET"@,
            },
        ),
        res.headers_json@ == match headers_json {
            Some(h) => h@,
            None => "{}"@,
        },
        res.body == body,
{
    let url = match url {
        Some(u) => u,
        None => String::new(),
    };
    let method = match method {
        Some(m) => m,
        None => String::from_str("GET"),
    };
    let headers_json = match headers_json {
        Some(h) => h,
        None => String::from_str("{}"),
    };
    FetchRequest { url, method: http_method(method.as_str()), headers_json, body }
}

/// The headers of a plugin's request: the JSON object of strings it passed;
/// headers that are no such object are dropped, and the request goes out
/// without any.
pub fn request_headers(req: &FetchRequest) -> (res: Vec<(String, String)>)
    ensures
        match json_string_map(req.headers_json@) {
            None => res@.len() == 0,
            Some(m) => lists_map(res@, m),
        },
{
    match json_string_pairs(req.headers_json.as_str()) {
        Some(v) => v,
        None => Vec::new(),
    }
}

/// Whether a status code counts as success.
pub open spec fn status_ok(status: u16) -> bool {
    200 <= status < 300
}

/// The JSON that `__http_fetch` hands back to the plugin for a response:
/// `{"body":..,"ok":..,"status":..}`, keys in the order serde_json keeps them.
pub open spec fn fetch_response(status: u16, body: Seq<char>) -> Seq<char> {
    "{\"body\":"@ + json_quoted(body) + ",\"ok\":"@ + (if status_ok(status) {
        "true"@
    } else {
        "false"@
    }) + ",\"status\":"@ + decimal(status as nat) + "}"@
}

pub fn fetch_response_json(status: u16, body: &str) -> (res: String)
    ensures
        res@ == fetch_response(status, body@),
{
    let mut s = String::from_str("{\"body\":");
    s.append(quote(body).as_str());
    s.append(",\"ok\":");
    if 200 <= status && status < 300 {
        s.append("true");
    } else {
        s.append("false");
    }
    s.append(",\"status\":");
    s.append(decimal_string(status as u64).as_str());
    s.append("}");
    s
}

} // verus!
