//! Canonicalization of request paths: trailing `/` characters are removed,
//! every remaining run of two or more `/` characters is collapsed into one,
//! and a path that becomes empty is replaced by `/`.

use vstd::prelude::*;
use vstd::string::StrSliceExecFns;
use vstd::string::StringExecFns;

use crate::request::query_suffix;
use crate::request::uri_seq;
use crate::request::Request;
use crate::request::Uri;
use crate::request::UriView;
use crate::text::push_char;
use crate::text::str_eq;

verus! {

/// `s` with every trailing '/' removed.
pub open spec fn trim_trailing_slashes(s: Seq<char>) -> Seq<char>
    decreases s.len(),
{
    if s.len() > 0 && s.last() == '/' {
        trim_trailing_slashes(s.drop_last())
    } else {
        s
    }
}

/// `s` with every run of two or more '/' collapsed into a single '/': a scan
/// that drops a '/' whenever the previously kept character was also a '/'.
pub open spec fn collapse_slashes(s: Seq<char>) -> Seq<char>
    decreases s.len(),
{
    if s.len() == 0 {
        Seq::empty()
    } else {
        let pre = collapse_slashes(s.drop_last());
        if s.last() == '/' && pre.len() > 0 && pre.last() == '/' {
            pre
        } else {
            pre.push(s.last())
        }
    }
}

/// The canonical form of a request path: trailing slashes removed, slash runs
/// collapsed, and an empty result replaced by "/".
pub open spec fn canonical_path(s: Seq<char>) -> Seq<char> {
    let c = collapse_slashes(trim_trailing_slashes(s));
    if c.len() == 0 {
        seq!['/']
    } else {
        c
    }
}

/// Holds when no two consecutive characters of `s` are both '/'.
pub open spec fn no_double_slash(s: Seq<char>) -> bool {
    forall|i: int| 0 <= i && i + 1 < s.len() ==> !(#[trigger] s[i] == '/' && s[i + 1] == '/')
}

/// The characters of `s` other than '/', in order.
pub open spec fn non_slash(s: Seq<char>) -> Seq<char> {
    s.filter(|c: char| c != '/')
}

proof fn lemma_collapse_no_double_slash(s: Seq<char>)
    ensures
        no_double_slash(collapse_slashes(s)),
    decreases s.len(),
{
    if s.len() > 0 {
        lemma_collapse_no_double_slash(s.drop_last());
        let pre = collapse_slashes(s.drop_last());
        let r = collapse_slashes(s);
        if !(s.last() == '/' && pre.len() > 0 && pre.last() == '/') {
            assert forall|i: int| 0 <= i && i + 1 < r.len() implies !(#[trigger] r[i] == '/'
                && r[i + 1] == '/') by {
                if i + 1 < pre.len() {
                    assert(!(pre[i] == '/' && pre[i + 1] == '/'));
                }
            }
        }
    }
}

proof fn lemma_collapse_fixed(s: Seq<char>)
    requires
        no_double_slash(s),
    ensures
        collapse_slashes(s) == s,
    decreases s.len(),
{
    if s.len() > 0 {
        assert forall|i: int| 0 <= i && i + 1 < s.drop_last().len() implies !(
        #[trigger] s.drop_last()[i] == '/' && s.drop_last()[i + 1] == '/') by {
            assert(!(s[i] == '/' && s[i + 1] == '/'));
        }
        lemma_collapse_fixed(s.drop_last());
        let pre = collapse_slashes(s.drop_last());
        if s.last() == '/' && pre.len() > 0 && pre.last() == '/' {
            assert(s[s.len() - 2] == '/' && s[s.len() - 1] == '/');
            assert(false);
        }
        assert(collapse_slashes(s) =~= s);
    }
}

proof fn lemma_collapse_last(s: Seq<char>)
    requires
        s.len() > 0,
    ensures
        collapse_slashes(s).len() > 0,
        (collapse_slashes(s).last() == '/') == (s.last() == '/'),
    decreases s.len(),
{
    if s.len() > 1 {
        lemma_collapse_last(s.drop_last());
    }
}

proof fn lemma_trim_no_trailing(s: Seq<char>)
    ensures
        trim_trailing_slashes(s).len() == 0 || trim_trailing_slashes(s).last() != '/',
    decreases s.len(),
{
    if s.len() > 0 && s.last() == '/' {
        lemma_trim_no_trailing(s.drop_last());
    }
}

/// The canonical form of any path is non-empty, holds no run of consecutive
/// slashes, and ends in '/' only when it is the root path itself.
pub proof fn lemma_canonical_path_shape(s: Seq<char>)
    ensures
        canonical_path(s).len() > 0,
        no_double_slash(canonical_path(s)),
        canonical_path(s) == seq!['/'] || canonical_path(s).last() != '/',
{
    let t = trim_trailing_slashes(s);
    lemma_trim_no_trailing(s);
    lemma_collapse_no_double_slash(t);
    if t.len() > 0 {
        lemma_collapse_last(t);
    }
}

/// Law: canonicalization is idempotent — the canonical form of a canonical
/// path is that path itself.
pub proof fn lemma_canonical_path_idempotent(s: Seq<char>)
    ensures
        canonical_path(canonical_path(s)) == canonical_path(s),
{
    let t = trim_trailing_slashes(s);
    let c = collapse_slashes(t);
    lemma_trim_no_trailing(s);
    lemma_collapse_no_double_slash(t);
    if c.len() == 0 {
        reveal_with_fuel(trim_trailing_slashes, 2);
        let root = seq!['/'];
        assert(root.last() == '/');
        assert(root.drop_last() =~= Seq::<char>::empty());
        assert(trim_trailing_slashes(root) =~= Seq::<char>::empty());
    } else {
        lemma_collapse_last(t);
        assert(c.last() != '/');
        assert(trim_trailing_slashes(c) == c);
        lemma_collapse_fixed(c);
    }
}

/// Law: a trailing slash does not affect the canonical form.
pub proof fn lemma_canonical_path_trailing_slash(s: Seq<char>)
    ensures
        canonical_path(s.push('/')) == canonical_path(s),
{
    assert(s.push('/').last() == '/');
    assert(s.push('/').drop_last() =~= s);
}

/// Law: appending any number of trailing slashes leaves the canonical form
/// unchanged — they are all removed before runs are collapsed.
pub proof fn lemma_canonical_path_trailing_slashes(s: Seq<char>, k: nat)
    ensures
        canonical_path(s + Seq::new(k, |i: int| '/')) == canonical_path(s),
    decreases k,
{
    if k == 0 {
        assert(s + Seq::new(0, |i: int| '/') =~= s);
    } else {
        let shorter = s + Seq::new((k - 1) as nat, |i: int| '/');
        lemma_canonical_path_trailing_slashes(s, (k - 1) as nat);
        assert(s + Seq::new(k, |i: int| '/') =~= shorter.push('/'));
        lemma_canonical_path_trailing_slash(shorter);
    }
}

proof fn lemma_trim_preserves_non_slash(s: Seq<char>)
    ensures
        non_slash(trim_trailing_slashes(s)) == non_slash(s),
    decreases s.len(),
{
    reveal(Seq::filter);
    if s.len() > 0 && s.last() == '/' {
        lemma_trim_preserves_non_slash(s.drop_last());
    }
}

proof fn lemma_collapse_preserves_non_slash(s: Seq<char>)
    ensures
        non_slash(collapse_slashes(s)) == non_slash(s),
    decreases s.len(),
{
    reveal(Seq::filter);
    if s.len() > 0 {
        lemma_collapse_preserves_non_slash(s.drop_last());
        let pre = collapse_slashes(s.drop_last());
        if s.last() == '/' && pre.len() > 0 && pre.last() == '/' {
            assert(non_slash(s) == non_slash(s.drop_last()));
        } else {
            assert(pre.push(s.last()).drop_last() =~= pre);
            assert(pre.push(s.last()).last() == s.last());
            assert(non_slash(pre.push(s.last())) == if s.last() != '/' {
                non_slash(pre).push(s.last())
            } else {
                non_slash(pre)
            });
        }
    }
}

/// Law: collapsing — the canonical path holds no run of two or more '/',
/// and keeps every character other than '/', in order.
pub proof fn lemma_canonical_path_collapse(s: Seq<char>)
    ensures
        no_double_slash(canonical_path(s)),
        non_slash(canonical_path(s)) == non_slash(s),
{
    reveal(Seq::filter);
    let t = trim_trailing_slashes(s);
    let c = collapse_slashes(t);
    lemma_canonical_path_shape(s);
    lemma_trim_preserves_non_slash(s);
    lemma_collapse_preserves_non_slash(t);
    if c.len() == 0 {
        if t.len() > 0 {
            lemma_collapse_last(t);
            assert(false);
        }
        let root = seq!['/'];
        assert(root.drop_last() =~= Seq::<char>::empty());
        assert(non_slash(root) =~= Seq::<char>::empty());
        assert(non_slash(s) =~= Seq::<char>::empty());
    }
}

/// Law: query preservation — a URI rewritten as `rewrite` promises (its path
/// the canonical form of the old path, its query the old query) reads as the
/// canonical path with the original query string reattached verbatim.
pub proof fn lemma_rewritten_uri_reads_canonically(u: UriView, v: UriView)
    requires
        v.path == canonical_path(u.path),
        v.query == u.query,
    ensures
        uri_seq(v) == canonical_path(u.path) + query_suffix(u.query),
{
}

/// Computes the canonical form of `path`.
pub fn normalize_path(path: &str) -> (r: String)
    ensures
        r@ == canonical_path(path@),
{
    let n = path.unicode_len();

    // Step 1: find the end of the path once trailing slashes are dropped.
    proof {
        assert(path@.subrange(0, n as int) =~= path@);
    }
    let mut end: usize = n;
    while end > 0 && path.get_char(end - 1) == '/'
        invariant
            end <= n,
            n == path@.len(),
            trim_trailing_slashes(path@) == trim_trailing_slashes(
                path@.subrange(0, end as int),
            ),
        decreases end,
    {
        proof {
            let sub = path@.subrange(0, end as int);
            assert(sub.last() == path@[end - 1]);
            assert(sub.drop_last() =~= path@.subrange(0, end - 1));
        }
        end -= 1;
    }
    proof {
        let sub = path@.subrange(0, end as int);
        if end > 0 {
            assert(sub.last() == path@[end - 1]);
        }
        assert(trim_trailing_slashes(sub) == sub);
        assert(trim_trailing_slashes(path@) == path@.subrange(0, end as int));
    }

    // Step 2: scan the trimmed prefix, keeping a '/' only when the previously
    // kept character was not itself a '/'.
    let mut out = String::new();
    let mut prev_slash: bool = false;
    let mut i: usize = 0;
    while i < end
        invariant
            i <= end,
            end <= n,
            n == path@.len(),
            out@ == collapse_slashes(path@.subrange(0, i as int)),
            prev_slash == (out@.len() > 0 && out@.last() == '/'),
        decreases end - i,
    {
        let c = path.get_char(i);
        let ghost pre = out@;
        if !(c == '/' && prev_slash) {
            push_char(&mut out, c);
            prev_slash = c == '/';
        }
        proof {
            let sub1 = path@.subrange(0, i + 1);
            assert(sub1.drop_last() =~= path@.subrange(0, i as int));
            assert(sub1.last() == c);
            if !(c == '/' && pre.len() > 0 && pre.last() == '/') {
                assert(out@ =~= pre.push(c));
            }
            assert(out@ == collapse_slashes(sub1));
        }
        i += 1;
    }

    // Step 3: an empty result stands for the root path.
    if out.as_str().is_empty() {
        proof {
            reveal_strlit("/");
            assert("/"@ =~= seq!['/']);
        }
        String::from_str("/")
    } else {
        out
    }
}

/// The path-canonicalizing filter: wraps an inner handler and rewrites the
/// request path into canonical form before delegating. It never
/// short-circuits.
#[derive(Debug, Default)]
pub struct RemoveTrailingSlash;

impl RemoveTrailingSlash {
    /// Wraps `service` in the path-canonicalizing middleware.
    pub fn create<S>(&self, service: S) -> (r: RemoveTrailingSlashMiddleware<S>)
        ensures
            r.service == service,
    {
        RemoveTrailingSlashMiddleware { service }
    }
}

/// The path-canonicalizing middleware around an inner handler `service`.
#[derive(Debug)]
pub struct RemoveTrailingSlashMiddleware<S> {
    pub service: S,
}

impl<S> RemoveTrailingSlashMiddleware<S> {
    /// Rewrites the request's path into canonical form, keeping the query
    /// verbatim and the routing metadata in step with the new URI. A request
    /// with an empty path, or one whose path is already canonical, is left
    /// untouched. Returns whether the request was rewritten.
    pub fn rewrite(&self, req: &mut Request) -> (changed: bool)
        ensures
            changed == (old(req)@.uri.path.len() > 0 && canonical_path(old(req)@.uri.path)
                != old(req)@.uri.path),
            !changed ==> *final(req) == *old(req),
            final(req)@.scheme == old(req)@.scheme,
            final(req)@.host == old(req)@.host,
            final(req)@.uri.query == old(req)@.uri.query,
            changed ==> final(req)@.uri.path == canonical_path(old(req)@.uri.path),
            !changed ==> final(req)@.uri.path == old(req)@.uri.path,
            changed ==> final(req)@.match_uri == final(req)@.uri,
            !changed ==> final(req)@.match_uri == old(req)@.match_uri,
    {
        if req.uri.path.as_str().is_empty() {
            return false;
        }
        let canon = normalize_path(req.uri.path.as_str());
        if str_eq(canon.as_str(), req.uri.path.as_str()) {
            return false;
        }
        let query2 = match &req.uri.query {
            Option::Some(q) => Option::Some(q.clone()),
            Option::None => Option::None,
        };
        let match_path = canon.clone();
        let match_query = match &query2 {
            Option::Some(q) => Option::Some(q.clone()),
            Option::None => Option::None,
        };
        req.uri = Uri { path: canon, query: query2 };
        req.match_uri = Uri { path: match_path, query: match_query };
        true
    }
}

} // verus!
