//! Path prefixes for applications served below a sub-path by a reverse proxy
//! (for example `/shop`): adding the prefix to outgoing links and removing it
//! from incoming request paths.
use vstd::prelude::*;
use vstd::string::StringExecFns;
use crate::text::{has_prefix, str_chars, str_eq, string_from_range, to_owned_string, trim_end_char, trim_end_char_string};

verus! {

/// The base path of the application; empty when it is served at the root.
#[derive(Clone, Debug)]
pub struct PathPrefix {
    prefix: String,
}

/// `path` with the prefix `p` added in front (`p` empty: unchanged); the
/// empty path becomes the prefix itself.
pub open spec fn prepended(p: Seq<char>, path: Seq<char>) -> Seq<char> {
    if p.len() == 0 {
        path
    } else {
        p + path
    }
}

/// `path` with the prefix `p` removed when it starts with it; what is left is
/// `"/"` when it would be empty or `"/"`.
pub open spec fn stripped(p: Seq<char>, path: Seq<char>) -> Seq<char> {
    if has_prefix(path, p) {
        let rest = path.subrange(p.len() as int, path.len() as int);
        if rest.len() == 0 || rest == "/"@ {
            "/"@
        } else {
            rest
        }
    } else {
        path
    }
}

/// Removes `p` from the front of `path` (see `stripped`).
fn strip_with(path: &str, p: &str) -> (r: String)
    ensures
        r@ == stripped(p@, path@),
{
    let pv = str_chars(p);
    let sv = str_chars(path);
    if pv.len() > sv.len() {
        return to_owned_string(path);
    }
    let mut i: usize = 0;
    while i < pv.len()
        invariant
            pv@ == p@,
            sv@ == path@,
            pv.len() <= sv.len(),
            i <= pv.len(),
            forall|j: int| 0 <= j < i ==> sv@[j] == pv@[j],
        decreases pv.len() - i,
    {
        if sv[i] != pv[i] {
            assert(sv@.subrange(0, pv@.len() as int)[i as int] != pv@[i as int]);
            return to_owned_string(path);
        }
        i += 1;
    }
    assert(sv@.subrange(0, pv@.len() as int) == pv@);
    let rest = string_from_range(sv.as_slice(), pv.len(), sv.len());
    if rest.as_str().is_empty() || str_eq(rest.as_str(), "/") {
        String::from_str("/")
    } else {
        rest
    }
}

impl PathPrefix {
    /// The prefix.
    pub closed spec fn prefix_spec(&self) -> Seq<char> {
        self.prefix@
    }

    /// A prefix; trailing `/` are dropped.
    pub fn new(prefix: &str) -> (r: Self)
        ensures
            r.prefix_spec() == trim_end_char(prefix@, '/'),
    {
        PathPrefix { prefix: trim_end_char_string(prefix, '/') }
    }

    /// The prefix (for example `"/shop"`).
    pub fn prefix(&self) -> (r: &str)
        ensures
            r@ == self.prefix_spec(),
    {
        self.prefix.as_str()
    }

    /// Adds the prefix in front of a path: `"/products"` becomes
    /// `prefix + "/products"`, `"/"` becomes `prefix + "/"` and `""` the
    /// prefix itself.
    pub fn prepend(&self, path: &str) -> (r: String)
        ensures
            r@ == prepended(self.prefix_spec(), path@),
    {
        if self.prefix.as_str().is_empty() {
            return to_owned_string(path);
        }
        let mut r = to_owned_string(self.prefix.as_str());
        r.append(path);
        r
    }

    /// Removes the prefix from a request path (no prefix: unchanged).
    pub fn strip(&self, path: &str) -> (r: String)
        ensures
            r@ == if self.prefix_spec().len() == 0 {
                path@
            } else {
                stripped(self.prefix_spec(), path@)
            },
    {
        if self.prefix.as_str().is_empty() {
            return to_owned_string(path);
        }
        strip_with(path, self.prefix.as_str())
    }

    /// Removes a route prefix (trailing `*` and then `/` dropped from it) from a path.
    pub fn strip_prefix(&self, path: &str, route_prefix: &str) -> (r: String)
        ensures
            r@ == stripped(trim_end_char(trim_end_char(route_prefix@, '*'), '/'), path@),
    {
        let a = trim_end_char_string(route_prefix, '*');
        let p = trim_end_char_string(a.as_str(), '/');
        strip_with(path, p.as_str())
    }
}

/// A prefix never ends with `/`.
pub proof fn lemma_prefix_no_trailing_slash(s: Seq<char>)
    ensures
        trim_end_char(s, '/').len() == 0 || trim_end_char(s, '/').last() != '/',
    decreases s.len(),
{
    if s.len() > 0 && s.last() == '/' {
        lemma_prefix_no_trailing_slash(s.drop_last());
    }
}

/// Removing the prefix undoes adding it, for every non-empty path.
pub proof fn lemma_strip_prepend(p: Seq<char>, path: Seq<char>)
    requires
        path.len() > 0,
    ensures
        (if p.len() == 0 {
            prepended(p, path)
        } else {
            stripped(p, prepended(p, path))
        }) == path,
{
    if p.len() > 0 {
        let q = prepended(p, path);
        assert(q.subrange(0, p.len() as int) =~= p);
        assert(q.subrange(p.len() as int, q.len() as int) =~= path);
    }
}

} // verus!
