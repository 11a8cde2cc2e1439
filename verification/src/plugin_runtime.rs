//! The plugin runtime: the data that plugins exchange with the host, the
//! `@plugin-info` header of a script plugin, and the registry of installed
//! plugins that decides where a call goes.

use vstd::prelude::*;
use crate::table::{KeyedTable, keys_of};
use crate::text::{cat, cat3, cat4, first_index_of, seq_contains, lemma_first_index_at, chars_of, substring, contains_in};
use crate::js_host::{call_script, build_call_script};
use crate::json::{opt_view, json_str_member, json_list_member, json_error_message, json_syntax_error, json_string_member, json_string_list_member};

verus! {

// ── What plugins hand back ──────────────────────────────────────────────────

/// One episode of a show, as a plugin lists it.
pub struct Episode {
    pub id: String,
    pub title: String,
    pub season: Option<i32>,
    pub episode_number: i32,
    pub thumbnail_url: Option<String>,
    pub description: Option<String>,
}

/// A subtitle track that goes with a stream.
pub struct SubtitleTrack {
    pub url: String,
    pub language: String,
    pub label: String,
}

/// A playable stream, with the headers the player has to send for it.
pub struct StreamSource {
    pub url: String,
    pub quality: String,
    pub format: String,
    pub subtitles: Vec<SubtitleTrack>,
    pub headers: std::collections::HashMap<String, String>,
}

// ── Plugin metadata ─────────────────────────────────────────────────────────

/// Metadata of an installed plugin, as its `@plugin-info` header gives it.
pub struct PluginInfo {
    pub id: String,
    pub name: String,
    pub version: String,
    pub description: String,
    pub author: String,
    pub icon_url: Option<String>,
    pub supported_types: Vec<String>,
}

/// The mathematical value of a `PluginInfo`.
pub struct PluginInfoView {
    pub id: Seq<char>,
    pub name: Seq<char>,
    pub version: Seq<char>,
    pub description: Seq<char>,
    pub author: Seq<char>,
    pub icon_url: Option<Seq<char>>,
    pub supported_types: Seq<Seq<char>>,
}

pub open spec fn strings_view(v: Vec<String>) -> Seq<Seq<char>> {
    v@.map_values(|s: String| s@)
}

impl View for PluginInfo {
    type V = PluginInfoView;

    open spec fn view(&self) -> PluginInfoView {
        PluginInfoView {
            id: self.id@,
            name: self.name@,
            version: self.version@,
            description: self.description@,
            author: self.author@,
            icon_url: opt_view(self.icon_url),
            supported_types: strings_view(self.supported_types),
        }
    }
}

pub fn clone_strings(v: &Vec<String>) -> (res: Vec<String>)
    ensures
        strings_view(res) == strings_view(*v),
{
    let mut out: Vec<String> = Vec::new();
    let mut i: usize = 0;
    while i < v.len()
        invariant
            i <= v.len(),
            out@.len() == i,
            forall|k: int| 0 <= k < i ==> out@[k]@ == v@[k]@,
        decreases v.len() - i,
    {
        out.push(v[i].clone());
        i = i + 1;
    }
    assert(strings_view(out) =~= strings_view(*v));
    out
}

pub fn clone_opt_string(o: &Option<String>) -> (res: Option<String>)
    ensures
        opt_view(res) == opt_view(*o),
{
    match o {
        Some(s) => Some(s.clone()),
        None => None,
    }
}

impl PluginInfo {
    /// A copy with the same value.
    pub fn duplicate(&self) -> (res: PluginInfo)
        ensures
            res@ == self@,
    {
        PluginInfo {
            id: self.id.clone(),
            name: self.name.clone(),
            version: self.version.clone(),
            description: self.description.clone(),
            author: self.author.clone(),
            icon_url: clone_opt_string(&self.icon_url),
            supported_types: clone_strings(&self.supported_types),
        }
    }
}

// ── Errors ──────────────────────────────────────────────────────────────────

/// Why a plugin operation failed.
pub enum PluginError {
    /// No line of the source holds `@plugin-info`.
    MissingHeader,
    /// The header line holds no `{`.
    MissingJson,
    /// The header's JSON does not parse; serde_json's message.
    BadJson(String),
    /// No plugin with this id is installed.
    NotFound(String),
    /// The plugin function threw; the function's name and the thrown text.
    Threw(String, String),
    /// The plugin function produced no string; the function's name.
    NullResult(String),
    /// The JavaScript engine failed; its message.
    Engine(String),
    /// A native plugin or the JVM bridge failed; the message.
    Native(String),
}

// ── The `@plugin-info` header ───────────────────────────────────────────────

/// A line without the carriage return of a CR LF line ending.
pub open spec fn strip_cr(l: Seq<char>) -> Seq<char> {
    if l.len() > 0 && l.last() == '\r' {
        l.drop_last()
    } else {
        l
    }
}

/// The lines of `s` as std's `str::lines` yields them: split at `\n`, a
/// `\r` before the `\n` dropped, no empty line after a final `\n`.
pub open spec fn lines(s: Seq<char>) -> Seq<Seq<char>>
    decreases s.len(),
{
    if s.len() == 0 {
        Seq::empty()
    } else {
        match first_index_of(s, '\n') {
            None => seq![s],
            Some(i) => if 0 <= i < s.len() {
                seq![strip_cr(s.take(i))] + lines(s.skip(i + 1))
            } else {
                Seq::empty()
            },
        }
    }
}

/// The first of `ls` that contains `pat`.
pub open spec fn first_containing(ls: Seq<Seq<char>>, pat: Seq<char>) -> Option<Seq<char>>
    decreases ls.len(),
{
    if ls.len() == 0 {
        None
    } else if seq_contains(ls[0], pat) {
        Some(ls[0])
    } else {
        first_containing(ls.drop_first(), pat)
    }
}

proof fn lemma_first_containing_cons(l: Seq<char>, t: Seq<Seq<char>>, pat: Seq<char>)
    ensures
        first_containing(seq![l] + t, pat) == if seq_contains(l, pat) {
            Some(l)
        } else {
            first_containing(t, pat)
        },
{
    assert((seq![l] + t)[0] == l);
    assert((seq![l] + t).drop_first() =~= t);
}

/// Finds the first line of `s` (as `lines` splits it) that contains `pat`;
/// returns where its characters start and end in `s`.
fn find_line_containing(s: &Vec<char>, pat: &Vec<char>) -> (res: Option<(usize, usize)>)
    ensures
        match res {
            Some((lo, hi)) => lo <= hi <= s.len() && first_containing(lines(s@), pat@) == Some(
                s@.subrange(lo as int, hi as int),
            ),
            None => first_containing(lines(s@), pat@) is None,
        },
{
    let n = s.len();
    let mut pos: usize = 0;
    assert(s@.skip(0) =~= s@);
    while pos < n
        invariant
            pos <= n == s.len(),
            first_containing(lines(s@), pat@) == first_containing(lines(s@.skip(pos as int)), pat@),
        decreases n - pos,
    {
        let ghost rest = s@.skip(pos as int);
        let mut j = pos;
        while j < n && s[j] != '\n'
            invariant
                pos <= j <= n == s.len(),
                rest == s@.skip(pos as int),
                forall|k: int| 0 <= k < j - pos ==> rest[k] != '\n',
            decreases n - j,
        {
            j = j + 1;
        }
        proof {
            lemma_first_index_at(rest, '\n', j - pos);
        }
        let mut end = j;
        if j < n && j > pos && s[j - 1] == '\r' {
            end = j - 1;
        }
        proof {
            if j < n {
                assert(rest.skip(j - pos + 1) =~= s@.skip(j + 1));
                assert(strip_cr(rest.take(j - pos)) =~= s@.subrange(pos as int, end as int));
                lemma_first_containing_cons(
                    strip_cr(rest.take(j - pos)),
                    lines(rest.skip(j - pos + 1)),
                    pat@,
                );
            } else {
                assert(rest =~= s@.subrange(pos as int, end as int));
                lemma_first_containing_cons(rest, Seq::empty(), pat@);
                assert(seq![rest] + Seq::<Seq<char>>::empty() =~= seq![rest]);
            }
        }
        if contains_in(s, pos, end, pat) {
            return Some((pos, end));
        }
        if j == n {
            return None;
        }
        pos = j + 1;
    }
    assert(s@.skip(n as int) =~= Seq::<char>::empty());
    None
}

/// Index of the first `{` in `s` between `lo` and `hi`, relative to `lo`.
fn find_brace(s: &Vec<char>, lo: usize, hi: usize) -> (res: Option<usize>)
    requires
        lo <= hi <= s.len(),
    ensures
        match res {
            Some(k) => lo + k <= hi && first_index_of(s@.subrange(lo as int, hi as int), '{')
                == Some(k as int),
            None => first_index_of(s@.subrange(lo as int, hi as int), '{') is None,
        },
{
    let ghost line = s@.subrange(lo as int, hi as int);
    let mut j = lo;
    while j < hi && s[j] != '{'
        invariant
            lo <= j <= hi <= s.len(),
            line == s@.subrange(lo as int, hi as int),
            forall|k: int| 0 <= k < j - lo ==> line[k] != '{',
        decreases hi - j,
    {
        j = j + 1;
    }
    proof {
        lemma_first_index_at(line, '{', j - lo);
    }
    if j < hi {
        Some(j - lo)
    } else {
        None
    }
}

/// The string, or the default when there is none.
pub open spec fn str_or(o: Option<Seq<char>>, d: Seq<char>) -> Seq<char> {
    match o {
        Some(s) => s,
        None => d,
    }
}

/// The strings among `items`, in order.
pub open spec fn present_strings(items: Seq<Option<Seq<char>>>) -> Seq<Seq<char>>
    decreases items.len(),
{
    if items.len() == 0 {
        Seq::empty()
    } else {
        present_strings(items.drop_last()) + match items.last() {
            Some(s) => seq![s],
            None => Seq::empty(),
        }
    }
}

/// The strings among two runs of items one after the other are those of the
/// first run, then those of the second.
pub proof fn law_present_strings_append(a: Seq<Option<Seq<char>>>, b: Seq<Option<Seq<char>>>)
    ensures
        present_strings(a + b) == present_strings(a) + present_strings(b),
    decreases b.len(),
{
    if b.len() == 0 {
        assert(a + b =~= a);
        assert(present_strings(a) + present_strings(b) =~= present_strings(a));
    } else {
        assert((a + b).drop_last() =~= a + b.drop_last());
        assert((a + b).last() == b.last());
        law_present_strings_append(a, b.drop_last());
        assert(present_strings(a) + present_strings(b.drop_last()) + match b.last() {
            Some(x) => seq![x],
            None => Seq::<Seq<char>>::empty(),
        } =~= present_strings(a) + present_strings(b));
    }
}

/// A string item is kept and an item that is no string is dropped.
pub proof fn law_present_strings_one(x: Seq<char>)
    ensures
        present_strings(seq![Some(x)]) == seq![x],
        present_strings(seq![None::<Seq<char>>]) == Seq::<Seq<char>>::empty(),
{
    let one = seq![Some(x)];
    let none = seq![None::<Seq<char>>];
    assert(one.drop_last() =~= Seq::<Option<Seq<char>>>::empty());
    assert(none.drop_last() =~= Seq::<Option<Seq<char>>>::empty());
    assert(present_strings(Seq::<Option<Seq<char>>>::empty()) == Seq::<Seq<char>>::empty());
    assert(one.last() == Some(x));
    assert(none.last() == None::<Seq<char>>);
    assert(present_strings(one) == present_strings(one.drop_last()) + seq![x]);
    assert(Seq::<Seq<char>>::empty() + seq![x] =~= seq![x]);
    assert(present_strings(none) == present_strings(none.drop_last()) + Seq::<Seq<char>>::empty());
    assert(Seq::<Seq<char>>::empty() + Seq::<Seq<char>>::empty() =~= Seq::<Seq<char>>::empty());
}

/// The metadata that the header JSON `j` gives, each field defaulted as a
/// plugin author may leave it out.
pub open spec fn info_from_json(j: Seq<char>) -> PluginInfoView {
    PluginInfoView {
        id: str_or(json_str_member(j, "id"@), "unknown"@),
        name: str_or(json_str_member(j, "name"@), "Unknown"@),
        version: str_or(json_str_member(j, "version"@), "1.0.0"@),
        description: str_or(json_str_member(j, "description"@), ""@),
        author: str_or(json_str_member(j, "author"@), ""@),
        icon_url: json_str_member(j, "icon_url"@),
        supported_types: match json_list_member(j, "supported_types"@) {
            Some(items) => present_strings(items),
            None => Seq::empty(),
        },
    }
}

/// Each field of the metadata is the string that the header JSON holds under
/// the field's own key, and the field's default only when that key holds no
/// string: `id`, `name`, `version`, `description`, `author`, `icon_url`.
pub proof fn law_header_fields(j: Seq<char>)
    ensures
        json_str_member(j, "id"@) matches Some(s) ==> info_from_json(j).id == s,
        json_str_member(j, "id"@) is None ==> info_from_json(j).id == "unknown"@,
        json_str_member(j, "name"@) matches Some(s) ==> info_from_json(j).name == s,
        json_str_member(j, "name"@) is None ==> info_from_json(j).name == "Unknown"@,
        json_str_member(j, "version"@) matches Some(s) ==> info_from_json(j).version == s,
        json_str_member(j, "version"@) is None ==> info_from_json(j).version == "1.0.0"@,
        json_str_member(j, "description"@) matches Some(s) ==> info_from_json(j).description == s,
        json_str_member(j, "description"@) is None ==> info_from_json(j).description == ""@,
        json_str_member(j, "author"@) matches Some(s) ==> info_from_json(j).author == s,
        json_str_member(j, "author"@) is None ==> info_from_json(j).author == ""@,
        info_from_json(j).icon_url == json_str_member(j, "icon_url"@),
        json_list_member(j, "supported_types"@) matches Some(items) ==> info_from_json(j).supported_types
            == present_strings(items),
        json_list_member(j, "supported_types"@) is None ==> info_from_json(j).supported_types.len() == 0,
{
}

/// The JSON text of the header: the header line from its first `{` on.
pub open spec fn header_json(source: Seq<char>) -> Option<Seq<char>> {
    match first_containing(lines(source), "@plugin-info"@) {
        Some(line) => match first_index_of(line, '{') {
            Some(k) => Some(line.skip(k)),
            None => None,
        },
        None => None,
    }
}

/// What reading the header of `source` gives: the metadata, or the text of
/// the error.
pub open spec fn header_outcome(source: Seq<char>) -> Result<PluginInfoView, Seq<char>> {
    match header_json(source) {
        None => match first_containing(lines(source), "@plugin-info"@) {
            None => Err("Missing @plugin-info header"@),
            Some(_) => Err("@plugin-info missing JSON"@),
        },
        Some(j) => match json_error_message(j) {
            Some(m) => Err("Bad @plugin-info JSON: "@ + m),
            None => Ok(info_from_json(j)),
        },
    }
}

fn string_or(o: Option<String>, d: &str) -> (res: String)
    ensures
        res@ == str_or(opt_view(o), d@),
{
    match o {
        Some(s) => s,
        None => String::from_str(d),
    }
}

fn keep_present(items: Vec<Option<String>>) -> (res: Vec<String>)
    ensures
        strings_view(res) == present_strings(items@.map_values(|e| opt_view(e))),
{
    let ghost m = items@.map_values(|e| opt_view(e));
    let mut out: Vec<String> = Vec::new();
    let mut i: usize = 0;
    while i < items.len()
        invariant
            i <= items.len(),
            m == items@.map_values(|e| opt_view(e)),
            strings_view(out) == present_strings(m.take(i as int)),
        decreases items.len() - i,
    {
        assert(m.take(i + 1).drop_last() =~= m.take(i as int));
        let ghost before = out@;
        match &items[i] {
            Some(s) => {
                out.push(s.clone());
                assert(strings_view(out) =~= strings_view_of(before) + seq![s@]);
            },
            None => {},
        }
        i = i + 1;
    }
    assert(m.take(items.len() as int) =~= m);
    out
}

spec fn strings_view_of(v: Seq<String>) -> Seq<Seq<char>> {
    v.map_values(|s: String| s@)
}

fn present_list(o: Option<Vec<Option<String>>>) -> (res: Vec<String>)
    ensures
        strings_view(res) == match o {
            Some(v) => present_strings(v@.map_values(|e| opt_view(e))),
            None => Seq::<Seq<char>>::empty(),
        },
{
    match o {
        Some(v) => keep_present(v),
        None => {
            let r: Vec<String> = Vec::new();
            assert(strings_view(r) =~= Seq::<Seq<char>>::empty());
            r
        },
    }
}

impl PluginError {
    /// The text of the error, as the frontend shows it.
    pub fn message(&self) -> (res: String)
        ensures
            res@ == match self {
                PluginError::MissingHeader => "Missing @plugin-info header"@,
                PluginError::MissingJson => "@plugin-info missing JSON"@,
                PluginError::BadJson(e) => "Bad @plugin-info JSON: "@ + e@,
                PluginError::NotFound(id) => "Plugin '"@ + id@ + "' not found"@,
                PluginError::Threw(f, t) => "plugin '"@ + f@ + "' threw: "@ + t@,
                PluginError::NullResult(f) => "'"@ + f@ + "' returned null — check plugin logs"@,
                PluginError::Engine(m) => m@,
                PluginError::Native(m) => m@,
            },
    {
        match self {
            PluginError::MissingHeader => String::from_str("Missing @plugin-info header"),
            PluginError::MissingJson => String::from_str("@plugin-info missing JSON"),
            PluginError::BadJson(e) => cat("Bad @plugin-info JSON: ", e.as_str()),
            PluginError::NotFound(id) => cat3("Plugin '", id.as_str(), "' not found"),
            PluginError::Threw(f, t) => cat4("plugin '", f.as_str(), "' threw: ", t.as_str()),
            PluginError::NullResult(f) => cat3("'", f.as_str(), "' returned null — check plugin logs"),
            PluginError::Engine(m) => m.clone(),
            PluginError::Native(m) => m.clone(),
        }
    }
}

// ── The registry of installed plugins ───────────────────────────────────────

/// How an installed plugin runs.
pub enum PluginKind {
    /// A script plugin: its JavaScript source.
    Script(String),
    /// A CloudStream extension loaded into the JVM bridge.
    Native,
}

/// An installed plugin.
pub struct LoadedPlugin {
    pub info: PluginInfo,
    pub kind: PluginKind,
}

/// The functions every plugin offers.
pub enum PluginFunction {
    Search,
    Episodes,
    Streams,
}

/// The name under which a plugin offers a function: the same for script
/// functions and for bridge actions.
pub open spec fn function_name(f: PluginFunction) -> Seq<char> {
    match f {
        PluginFunction::Search => "search"@,
        PluginFunction::Episodes => "getEpisodes"@,
        PluginFunction::Streams => "getStreams"@,
    }
}

pub fn function_name_str(f: &PluginFunction) -> (res: &'static str)
    ensures
        res@ == function_name(*f),
{
    match f {
        PluginFunction::Search => "search",
        PluginFunction::Episodes => "getEpisodes",
        PluginFunction::Streams => "getStreams",
    }
}

/// Where a call of a plugin function goes.
pub enum PluginCall {
    /// Run `script` in an engine that has loaded `source`; `function` names
    /// the function for error messages.
    Script { source: String, function: String, script: String },
    /// Send `action` for `plugin_id` with `arg` to the JVM bridge.
    Native { action: String, plugin_id: String, arg: String },
}

/// All installed plugins, by id.
pub struct PluginManager {
    plugins: KeyedTable<LoadedPlugin>,
}

impl PluginManager {
    /// Well-formed: each plugin is stored under the id of its metadata.
    pub closed spec fn wf(self) -> bool {
        &&& self.plugins.wf()
        &&& forall|k: Seq<char>| #[trigger] self.plugins@.contains_key(k) ==> self.plugins@[k].info.id@ == k
    }

    /// What a well-formed registry holds: each plugin under the id of its
    /// metadata, and each installed id exactly once in the install order.
    pub proof fn lemma_wf(self)
        requires
            self.wf(),
        ensures
            forall|k: Seq<char>| #[trigger] self@.contains_key(k) ==> self@[k].info.id@ == k,
            forall|i: int, j: int| 0 <= i < j < self.order().len() ==> self.order()[i] != self.order()[j],
            forall|k: Seq<char>| self@.contains_key(k) <==> exists|i: int|
                0 <= i < self.order().len() && #[trigger] self.order()[i] == k,
            self.order().len() == self@.len(),
    {
        self.plugins.lemma_pairs();
        self.plugins.lemma_len();
        assert forall|k: Seq<char>| self@.contains_key(k) <==> exists|i: int|
            0 <= i < self.order().len() && #[trigger] self.order()[i] == k by {
            if self@.contains_key(k) {
                let i = choose|i: int| 0 <= i < self.plugins.pairs().len() && #[trigger] self.plugins.pairs()[i].0@ == k;
                assert(self.order()[i] == k);
            }
            if exists|i: int| 0 <= i < self.order().len() && #[trigger] self.order()[i] == k {
                let i = choose|i: int| 0 <= i < self.order().len() && #[trigger] self.order()[i] == k;
                assert(self.plugins.pairs()[i].0@ == k);
            }
        }
    }

    /// The installed plugins, by id.
    pub closed spec fn view(self) -> Map<Seq<char>, LoadedPlugin> {
        self.plugins@
    }

    /// The ids of the installed plugins in the order they were first installed.
    pub closed spec fn order(self) -> Seq<Seq<char>> {
        keys_of(self.plugins.pairs())
    }

    /// Reads the metadata of a script plugin from its `@plugin-info` header: the
    /// first line that contains `@plugin-info`, whose JSON object starts at the
    /// line's first `{`.
    pub fn parse_plugin_info(source: &str) -> (res: Result<PluginInfo, PluginError>)
        ensures
            match header_json(source@) {
                None => match first_containing(lines(source@), "@plugin-info"@) {
                    None => res is Err && res->Err_0 is MissingHeader,
                    Some(_) => res is Err && res->Err_0 is MissingJson,
                },
                Some(j) => match json_error_message(j) {
                    Some(m) => res is Err && res->Err_0 is BadJson && res->Err_0->BadJson_0@ == m,
                    None => res is Ok && res->Ok_0@ == info_from_json(j),
                },
            },
    {
        let s = chars_of(source);
        let pat = chars_of("@plugin-info");
        let (lo, hi) = match find_line_containing(&s, &pat) {
            Some(r) => r,
            None => {
                return Err(PluginError::MissingHeader);
            },
        };
        let k = match find_brace(&s, lo, hi) {
            Some(k) => k,
            None => {
                return Err(PluginError::MissingJson);
            },
        };
        let json = substring(&s, lo + k, hi);
        proof {
            assert(s@.subrange(lo as int, hi as int).skip(k as int) =~= s@.subrange(
                lo + k,
                hi as int,
            ));
        }
        if let Some(m) = json_syntax_error(json.as_str()) {
            return Err(PluginError::BadJson(m));
        }
        let j = json.as_str();
        Ok(
            PluginInfo {
                id: string_or(json_string_member(j, "id"), "unknown"),
                name: string_or(json_string_member(j, "name"), "Unknown"),
                version: string_or(json_string_member(j, "version"), "1.0.0"),
                description: string_or(json_string_member(j, "description"), ""),
                author: string_or(json_string_member(j, "author"), ""),
                icon_url: json_string_member(j, "icon_url"),
                supported_types: present_list(json_string_list_member(j, "supported_types")),
            },
        )
    }

    /// No plugins installed.
    pub fn new() -> (res: Self)
        ensures
            res.wf(),
            res.order().len() == 0,
            res@ == Map::<Seq<char>, LoadedPlugin>::empty(),
    {
        PluginManager { plugins: KeyedTable::new() }
    }

    /// Installs a script plugin under the id of its metadata, replacing any
    /// plugin with that id.
    pub fn load_plugin_from_source(&mut self, source: String, info: PluginInfo) -> (res: Result<(), PluginError>)
        requires
            old(self).wf(),
        ensures
            final(self).wf(),
            res is Ok,
            final(self)@ == old(self)@.insert(info.id@, LoadedPlugin { info, kind: PluginKind::Script(source) }),
            old(self)@.contains_key(info.id@) ==> final(self).order() == old(self).order(),
            !old(self)@.contains_key(info.id@) ==> final(self).order() == old(self).order().push(info.id@),
    {
        let id = info.id.clone();
        let _ = self.plugins.insert(id, LoadedPlugin { info, kind: PluginKind::Script(source) });
        Ok(())
    }

    /// Registers a plugin that the JVM bridge has loaded, under its id.
    pub fn register_native(&mut self, info: PluginInfo)
        requires
            old(self).wf(),
        ensures
            final(self).wf(),
            final(self)@ == old(self)@.insert(info.id@, LoadedPlugin { info, kind: PluginKind::Native }),
            old(self)@.contains_key(info.id@) ==> final(self).order() == old(self).order(),
            !old(self)@.contains_key(info.id@) ==> final(self).order() == old(self).order().push(info.id@),
    {
        let id = info.id.clone();
        let _ = self.plugins.insert(id, LoadedPlugin { info, kind: PluginKind::Native });
    }

    /// The metadata of every installed plugin, each once, in the order in
    /// which their ids were first installed.
    pub fn list_plugins(&self) -> (res: Vec<PluginInfo>)
        requires
            self.wf(),
        ensures
            res@.len() == self@.len(),
            res@.len() == self.order().len(),
            forall|i: int| 0 <= i < res@.len() ==> self@.contains_key(#[trigger] self.order()[i])
                && res@[i]@ == self@[self.order()[i]].info@,
            forall|i: int| 0 <= i < res@.len() ==> #[trigger] res@[i].id@ == self.order()[i],
            forall|i: int, j: int| 0 <= i < j < res@.len() ==> res@[i].id@ != res@[j].id@,
            forall|k: Seq<char>| self@.contains_key(k) <==> exists|i: int|
                0 <= i < res@.len() && #[trigger] res@[i].id@ == k,
    {
        proof {
            self.plugins.lemma_pairs();
            self.plugins.lemma_len();
            self.lemma_wf();
        }
        let mut out: Vec<PluginInfo> = Vec::new();
        let mut i: usize = 0;
        let n = self.plugins.len();
        while i < n
            invariant
                n == self.plugins.pairs().len(),
                self.plugins.wf(),
                i <= n,
                out@.len() == i,
                forall|k: int| 0 <= k < i ==> out@[k]@ == #[trigger] self.plugins.pairs()[k].1.info@,
            decreases n - i,
        {
            let (_, p) = self.plugins.entry_at(i);
            out.push(p.info.duplicate());
            i = i + 1;
        }
        proof {
            assert forall|k: int| 0 <= k < out@.len() implies self@.contains_key(#[trigger] self.order()[k])
                && out@[k]@ == self@[self.order()[k]].info@ by {
                assert(self.order()[k] == self.plugins.pairs()[k].0@);
                assert(self.plugins.pairs()[k] == self.plugins.pairs()[k]);
            }
            assert forall|i: int| 0 <= i < out@.len() implies #[trigger] out@[i].id@ == self.order()[i] by {
                assert(self@.contains_key(self.order()[i]));
            }
            assert forall|k: Seq<char>| self@.contains_key(k) <==> exists|i: int|
                0 <= i < out@.len() && #[trigger] out@[i].id@ == k by {
                if self@.contains_key(k) {
                    let i = choose|i: int| 0 <= i < self.order().len() && #[trigger] self.order()[i] == k;
                    assert(out@[i].id@ == self.order()[i]);
                }
                if exists|i: int| 0 <= i < out@.len() && #[trigger] out@[i].id@ == k {
                    let i = choose|i: int| 0 <= i < out@.len() && #[trigger] out@[i].id@ == k;
                    assert(out@[i].id@ == self.order()[i]);
                }
            }
        }
        out
    }

    /// Uninstalls the plugin with this id, if there is one.
    pub fn remove_plugin(&mut self, id: &str)
        requires
            old(self).wf(),
        ensures
            final(self).wf(),
            final(self)@ == old(self)@.remove(id@),
            old(self)@.contains_key(id@) ==> exists|i: int|
                0 <= i < old(self).order().len() && #[trigger] old(self).order()[i] == id@
                    && final(self).order() == old(self).order().remove(i),
            !old(self)@.contains_key(id@) ==> final(self).order() == old(self).order(),
    {
        let _ = self.plugins.remove(id);
        proof {
            if old(self)@.contains_key(id@) {
                let i = choose|i: int|
                    0 <= i < old(self).plugins.pairs().len() && #[trigger] keys_of(old(self).plugins.pairs())[i] == id@
                        && keys_of(self.plugins.pairs()) == keys_of(old(self).plugins.pairs()).remove(i);
                assert(old(self).order()[i] == id@);
            }
        }
    }

    /// Where a call of `func` with `arg` on plugin `plugin_id` goes: the
    /// plugin's script with the call script, or the bridge; an error when no
    /// plugin has that id.
    pub fn plan_call(&self, plugin_id: &str, func: PluginFunction, arg: &str) -> (res: Result<PluginCall, PluginError>)
        requires
            self.wf(),
        ensures
            !self@.contains_key(plugin_id@) ==> res is Err && res->Err_0 is NotFound
                && res->Err_0->NotFound_0@ == plugin_id@,
            self@.contains_key(plugin_id@) ==> res is Ok && match self@[plugin_id@].kind {
                PluginKind::Script(src) => res->Ok_0 is Script
                    && res->Ok_0->Script_source == src
                    && res->Ok_0->Script_function@ == function_name(func)
                    && res->Ok_0->Script_script@ == call_script(function_name(func), arg@),
                PluginKind::Native => res->Ok_0 is Native
                    && res->Ok_0->Native_action@ == function_name(func)
                    && res->Ok_0->Native_plugin_id@ == plugin_id@
                    && res->Ok_0->Native_arg@ == arg@,
            },
    {
        let name = function_name_str(&func);
        match self.plugins.get(plugin_id) {
            None => Err(PluginError::NotFound(String::from_str(plugin_id))),
            Some(p) => match &p.kind {
                PluginKind::Script(src) => Ok(PluginCall::Script {
                    source: src.clone(),
                    function: String::from_str(name),
                    script: build_call_script(name, arg),
                }),
                PluginKind::Native => Ok(PluginCall::Native {
                    action: String::from_str(name),
                    plugin_id: String::from_str(plugin_id),
                    arg: String::from_str(arg),
                }),
            },
        }
    }
}

impl Default for PluginManager {
    fn default() -> (res: Self)
        ensures
            res.wf(),
            res@ == Map::<Seq<char>, LoadedPlugin>::empty(),
    {
        PluginManager::new()
    }
}

// ── Laws ────────────────────────────────────────────────────────────────────

/// A plugin that was just installed is the one its id finds, its script is
/// what calls of its functions run, it is listed exactly once, and every
/// other installed plugin stays as it was.
pub proof fn law_install_then_found(
    before: PluginManager,
    after: PluginManager,
    source: String,
    info: PluginInfo,
)
    requires
        before.wf(),
        after.wf(),
        after@ == before@.insert(info.id@, LoadedPlugin { info, kind: PluginKind::Script(source) }),
    ensures
        after@.contains_key(info.id@),
        after@[info.id@].kind == PluginKind::Script(source),
        after@[info.id@].info@ == info@,
        exists|i: int| 0 <= i < after.order().len() && #[trigger] after.order()[i] == info.id@,
        forall|i: int, j: int| 0 <= i < j < after.order().len() ==> after.order()[i] != after.order()[j],
        forall|k: Seq<char>| k != info.id@ ==> (after@.contains_key(k) == before@.contains_key(k)),
        forall|k: Seq<char>| k != info.id@ && before@.contains_key(k) ==> after@[k] == before@[k],
{
    after.lemma_wf();
    assert(after@.contains_key(info.id@));
    assert(exists|i: int| 0 <= i < after.order().len() && #[trigger] after.order()[i] == info.id@);
}

/// Installing a plugin under an id already taken replaces that plugin: as
/// many plugins are installed as before, listed in the same order.
pub proof fn law_reinstall_replaces(
    before: PluginManager,
    after: PluginManager,
    source: String,
    info: PluginInfo,
)
    requires
        before.wf(),
        after.wf(),
        before@.contains_key(info.id@),
        after@ == before@.insert(info.id@, LoadedPlugin { info, kind: PluginKind::Script(source) }),
        after.order() == before.order(),
    ensures
        after@.len() == before@.len(),
        after.order() == before.order(),
        after@[info.id@].info@ == info@,
{
    before.lemma_wf();
    after.lemma_wf();
}

/// A removed plugin is found no more and listed no more; the others stay.
pub proof fn law_remove_then_not_found(before: PluginManager, after: PluginManager, id: Seq<char>)
    requires
        before.wf(),
        after.wf(),
        after@ == before@.remove(id),
    ensures
        !after@.contains_key(id),
        forall|i: int| 0 <= i < after.order().len() ==> after.order()[i] != id,
        forall|k: Seq<char>| k != id && before@.contains_key(k) ==> after@.contains_key(k)
            && after@[k] == before@[k],
{
    after.lemma_wf();
    assert forall|i: int| 0 <= i < after.order().len() implies after.order()[i] != id by {
        if after.order()[i] == id {
            assert(after@.contains_key(after.order()[i]));
        }
    }
}

/// A header on the first line is the one read, whatever the lines after it
/// hold (other `@plugin-info` lines among them).
pub proof fn law_first_header_line_wins(first: Seq<char>, rest: Seq<char>)
    requires
        seq_contains(first, "@plugin-info"@),
        forall|i: int| 0 <= i < first.len() ==> first[i] != '\n',
        first.len() == 0 || first.last() != '\r',
    ensures
        first_containing(lines(first + seq!['\n'] + rest), "@plugin-info"@) == Some(first),
{
    let s = first + seq!['\n'] + rest;
    let n = first.len() as int;
    assert(s[n] == '\n');
    assert forall|j: int| 0 <= j < n implies s[j] != '\n' by {
        assert(s[j] == first[j]);
    }
    lemma_first_index_at(s, '\n', n);
    assert(s.take(n) =~= first);
    assert(s.len() > 0);
    lemma_first_containing_cons(first, lines(s.skip(n + 1)), "@plugin-info"@);
}

} // verus!
