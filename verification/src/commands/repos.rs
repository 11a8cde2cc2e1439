//! Repository browser: a CloudStream repository is either a manifest that
//! points at plugin lists, or a plugin list itself.

use vstd::prelude::*;
use crate::text::{cat, chars_of, substring};
use crate::json::{json_array_test, json_error_message, json_is_array, json_syntax_error};

verus! {

/// A repository manifest: its name and the URLs of its plugin lists.
pub struct RepoManifest {
    pub name: String,
    pub description: Option<String>,
    pub plugin_lists: Vec<String>,
}

/// One plugin of a repository's plugin list.
pub struct RepoPlugin {
    pub name: String,
    pub internal_name: Option<String>,
    pub description: Option<String>,
    pub icon_url: Option<String>,
    pub tv_types: Option<Vec<String>>,
    pub authors: Option<Vec<String>>,
    pub version: Option<i32>,
    pub language: Option<String>,
    pub status: Option<i32>,
    pub url: Option<String>,
    pub repository_url: Option<String>,
}

/// A repository as the browser shows it.
pub struct RepoInfo {
    pub url: String,
    pub name: String,
    pub description: Option<String>,
    pub plugins: Vec<RepoPlugin>,
}

/// What a repository's top-level JSON is.
pub enum RepoShape {
    /// A bare array of plugins.
    PluginList,
    /// A manifest object that points at plugin lists.
    Manifest,
}

/// The shape of a repository's JSON text: an error when it is no JSON at
/// all, a plugin list when it is an array, a manifest otherwise.
pub fn repo_shape(text: &str) -> (res: Result<RepoShape, String>)
    ensures
        match json_error_message(text@) {
            Some(m) => res is Err && res->Err_0@ == "Invalid JSON from repo: "@ + m,
            None => res is Ok && (res->Ok_0 is PluginList <==> json_is_array(text@)),
        },
{
    match json_syntax_error(text) {
        Some(m) => Err(cat("Invalid JSON from repo: ", m.as_str())),
        None => {
            if json_array_test(text) {
                Ok(RepoShape::PluginList)
            } else {
                Ok(RepoShape::Manifest)
            }
        },
    }
}

/// The error for a manifest that does not read as one, with the reason.
pub fn invalid_repo_format(reason: &str) -> (res: String)
    ensures
        res@ == "Invalid repo format: "@ + reason@,
{
    cat("Invalid repo format: ", reason)
}

/// Index just past the last `/` of `s` at or before `i`, or 0.
pub open spec fn after_last_slash(s: Seq<char>, i: int) -> int
    decreases i,
{
    if i <= 0 {
        0
    } else if s[i - 1] == '/' {
        i
    } else {
        after_last_slash(s, i - 1)
    }
}

/// The last `/`-separated segment of a URL (the whole URL without a `/`):
/// the name a bare plugin list goes by.
pub open spec fn last_segment(url: Seq<char>) -> Seq<char> {
    url.skip(after_last_slash(url, url.len() as int))
}

pub fn repo_name(url: &str) -> (res: String)
    ensures
        res@ == last_segment(url@),
{
    let v = chars_of(url);
    let mut i = v.len();
    while i > 0 && v[i - 1] != '/'
        invariant
            i <= v.len(),
            after_last_slash(v@, v@.len() as int) == after_last_slash(v@, i as int),
        decreases i,
    {
        i = i - 1;
    }
    assert(v@.subrange(i as int, v@.len() as int) =~= v@.skip(i as int));
    substring(&v, i, v.len())
}

/// A repository that is a bare plugin list: named after the last segment of
/// its URL, without description.
pub fn flat_repo(url: String, plugins: Vec<RepoPlugin>) -> (res: RepoInfo)
    ensures
        res.url == url,
        res.name@ == last_segment(url@),
        res.description is None,
        res.plugins == plugins,
{
    let name = repo_name(url.as_str());
    RepoInfo { url, name, description: None, plugins }
}

/// The plugins of the lists that could be read, list after list, in order.
pub open spec fn joined(lists: Seq<Option<Vec<RepoPlugin>>>) -> Seq<RepoPlugin>
    decreases lists.len(),
{
    if lists.len() == 0 {
        Seq::empty()
    } else {
        joined(lists.drop_last()) + match lists.last() {
            Some(v) => v@,
            None => Seq::empty(),
        }
    }
}

/// A repository with a manifest: its name and description, and the plugins
/// of every plugin list that could be fetched and read, in the manifest's
/// order; lists that failed are left out.
pub fn manifest_repo(url: String, manifest: RepoManifest, lists: Vec<Option<Vec<RepoPlugin>>>) -> (res: RepoInfo)
    ensures
        res.url == url,
        res.name == manifest.name,
        res.description == manifest.description,
        res.plugins@ == joined(lists@),
{
    let ghost all = lists@;
    let mut plugins: Vec<RepoPlugin> = Vec::new();
    let mut rest = lists;
    let mut i: usize = 0;
    let n = rest.len();
    assert(all.skip(0) =~= all);
    while i < n
        invariant
            n == all.len(),
            i <= n,
            rest@ == all.skip(i as int),
            plugins@ == joined(all.take(i as int)),
        decreases n - i,
    {
        let next = rest.remove(0);
        assert(next == all[i as int]);
        assert(rest@ =~= all.skip(i + 1));
        assert(all.take(i + 1).drop_last() =~= all.take(i as int));
        match next {
            Some(mut v) => {
                let ghost before = plugins@;
                let ghost vv = v@;
                plugins.append(&mut v);
                assert(plugins@ =~= before + vv);
            },
            None => {
                assert(plugins@ =~= plugins@ + Seq::<RepoPlugin>::empty());
            },
        }
        i = i + 1;
    }
    assert(all.take(n as int) =~= all);
    RepoInfo { url, name: manifest.name, description: manifest.description, plugins }
}

/// The plugins of two runs of lists one after the other are those of the
/// first run, then those of the second.
pub proof fn law_joined_append(a: Seq<Option<Vec<RepoPlugin>>>, b: Seq<Option<Vec<RepoPlugin>>>)
    ensures
        joined(a + b) == joined(a) + joined(b),
    decreases b.len(),
{
    if b.len() == 0 {
        assert(a + b =~= a);
        assert(joined(a) + joined(b) =~= joined(a));
    } else {
        assert((a + b).drop_last() =~= a + b.drop_last());
        assert((a + b).last() == b.last());
        law_joined_append(a, b.drop_last());
        assert(joined(a) + joined(b.drop_last()) + match b.last() {
            Some(v) => v@,
            None => Seq::<RepoPlugin>::empty(),
        } =~= joined(a) + joined(b));
    }
}

/// A list that was read gives all its plugins, in its order; one that
/// failed gives none.
pub proof fn law_joined_one(v: Vec<RepoPlugin>)
    ensures
        joined(seq![Some(v)]) == v@,
        joined(seq![None::<Vec<RepoPlugin>>]) == Seq::<RepoPlugin>::empty(),
{
    let one = seq![Some(v)];
    let none = seq![None::<Vec<RepoPlugin>>];
    assert(one.drop_last() =~= Seq::<Option<Vec<RepoPlugin>>>::empty());
    assert(none.drop_last() =~= Seq::<Option<Vec<RepoPlugin>>>::empty());
    assert(joined(Seq::<Option<Vec<RepoPlugin>>>::empty()) == Seq::<RepoPlugin>::empty());
    assert(one.last() == Some(v));
    assert(none.last() == None::<Vec<RepoPlugin>>);
    assert(joined(one) == joined(one.drop_last()) + v@);
    assert(Seq::<RepoPlugin>::empty() + v@ =~= v@);
    assert(joined(none) == joined(none.drop_last()) + Seq::<RepoPlugin>::empty());
    assert(Seq::<RepoPlugin>::empty() + Seq::<RepoPlugin>::empty() =~= Seq::<RepoPlugin>::empty());
}

proof fn lemma_after_last_slash(s: Seq<char>, i: int)
    requires
        0 <= i <= s.len(),
    ensures
        0 <= after_last_slash(s, i) <= i,
        forall|k: int| after_last_slash(s, i) <= k < i ==> s[k] != '/',
        after_last_slash(s, i) > 0 ==> s[after_last_slash(s, i) - 1] == '/',
    decreases i,
{
    if i > 0 && s[i - 1] != '/' {
        lemma_after_last_slash(s, i - 1);
    }
}

/// The name of a bare plugin list is the end of its URL after the last `/`:
/// it holds no `/`, the URL ends with it, and what comes before it is empty
/// or ends with `/`.
pub proof fn law_last_segment(url: Seq<char>)
    ensures
        ({
            let name = last_segment(url);
            let cut = url.len() - name.len();
            &&& name.len() <= url.len()
            &&& url.skip(cut) == name
            &&& forall|k: int| 0 <= k < name.len() ==> name[k] != '/'
            &&& cut > 0 ==> url[cut - 1] == '/'
        }),
{
    lemma_after_last_slash(url, url.len() as int);
    let a = after_last_slash(url, url.len() as int);
    assert forall|k: int| 0 <= k < last_segment(url).len() implies last_segment(url)[k] != '/' by {
        assert(last_segment(url)[k] == url[a + k]);
    }
}

/// The repositories that loaded, in the order they were asked for.
pub open spec fn loaded(outcomes: Seq<Option<RepoInfo>>) -> Seq<RepoInfo>
    decreases outcomes.len(),
{
    if outcomes.len() == 0 {
        Seq::empty()
    } else {
        loaded(outcomes.drop_last()) + match outcomes.last() {
            Some(r) => seq![r],
            None => Seq::empty(),
        }
    }
}

/// Keeping what loaded from two runs of outcomes one after the other keeps
/// what loaded from each, in that order.
pub proof fn law_loaded_append(a: Seq<Option<RepoInfo>>, b: Seq<Option<RepoInfo>>)
    ensures
        loaded(a + b) == loaded(a) + loaded(b),
    decreases b.len(),
{
    if b.len() == 0 {
        assert(a + b =~= a);
        assert(loaded(a) + loaded(b) =~= loaded(a));
    } else {
        assert((a + b).drop_last() =~= a + b.drop_last());
        assert((a + b).last() == b.last());
        law_loaded_append(a, b.drop_last());
        assert(loaded(a) + loaded(b.drop_last()) + match b.last() {
            Some(r) => seq![r],
            None => Seq::<RepoInfo>::empty(),
        } =~= loaded(a) + loaded(b));
    }
}

/// A repository that loaded is kept, and one that failed leaves nothing;
/// with `law_loaded_append`, every repository that loaded is kept, in order,
/// and nothing else.
pub proof fn law_loaded_one(r: RepoInfo)
    ensures
        loaded(seq![Some(r)]) == seq![r],
        loaded(seq![None::<RepoInfo>]) == Seq::<RepoInfo>::empty(),
{
    let one = seq![Some(r)];
    let none = seq![None::<RepoInfo>];
    assert(one.drop_last() =~= Seq::<Option<RepoInfo>>::empty());
    assert(none.drop_last() =~= Seq::<Option<RepoInfo>>::empty());
    assert(loaded(Seq::<Option<RepoInfo>>::empty()) == Seq::<RepoInfo>::empty());
    assert(one.last() == Some(r));
    assert(none.last() == None::<RepoInfo>);
    assert(loaded(one) == loaded(one.drop_last()) + seq![r]);
    assert(Seq::<RepoInfo>::empty() + seq![r] =~= seq![r]);
    assert(loaded(none) == loaded(none.drop_last()) + Seq::<RepoInfo>::empty());
    assert(Seq::<RepoInfo>::empty() + Seq::<RepoInfo>::empty() =~= Seq::<RepoInfo>::empty());
}

/// Every repository that loaded is in the list, at the place its position
/// among the loaded ones gives, and the list holds as many as loaded.
pub proof fn law_loaded_keeps_each(outcomes: Seq<Option<RepoInfo>>, i: int)
    requires
        0 <= i < outcomes.len(),
        outcomes[i] is Some,
    ensures
        loaded(outcomes)[loaded(outcomes.take(i)).len() as int] == outcomes[i]->Some_0,
        loaded(outcomes.take(i)).len() < loaded(outcomes).len(),
{
    let pre = outcomes.take(i);
    let mid = seq![outcomes[i]];
    let post = outcomes.skip(i + 1);
    assert(outcomes =~= pre + mid + post);
    law_loaded_append(pre + mid, post);
    law_loaded_append(pre, mid);
    law_loaded_one(outcomes[i]->Some_0);
    assert(mid == seq![Some(outcomes[i]->Some_0)]);
}

/// Keeps the repositories that loaded, in order; the ones that failed are
/// left out.
pub fn keep_loaded(outcomes: Vec<Option<RepoInfo>>) -> (res: Vec<RepoInfo>)
    ensures
        res@ == loaded(outcomes@),
{
    let ghost all = outcomes@;
    let mut rest = outcomes;
    let mut out: Vec<RepoInfo> = Vec::new();
    let mut i: usize = 0;
    let n = rest.len();
    assert(all.skip(0) =~= all);
    while i < n
        invariant
            n == all.len(),
            i <= n,
            rest@ == all.skip(i as int),
            out@ == loaded(all.take(i as int)),
        decreases n - i,
    {
        let next = rest.remove(0);
        assert(next == all[i as int]);
        assert(rest@ =~= all.skip(i + 1));
        assert(all.take(i + 1).drop_last() =~= all.take(i as int));
        let ghost before = out@;
        match next {
            Some(r) => {
                out.push(r);
                assert(out@ =~= before + seq![all[i as int]->Some_0]);
            },
            None => {
                assert(out@ =~= before + Seq::<RepoInfo>::empty());
            },
        }
        i = i + 1;
    }
    assert(all.take(n as int) =~= all);
    out
}

} // verus!
