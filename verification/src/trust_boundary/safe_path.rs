//! `SafePath`: a request path without path traversal, control chars or doubled
//! slashes.
use vstd::prelude::*;
use vstd::utf8::{encode_scalar, encode_utf8};
use crate::input_types::parser::{lemma_split_nonempty, pieces_view, split_chars, split_on};
use crate::slug::nonempty_pieces;
use crate::text::{has_prefix, starts_with, str_chars, string_from_chars, to_owned_string};
use super::{BoundaryError, BoundaryFault};

verus! {

/// The chars that a path may not hold: NUL and the other C0 controls.
pub open spec fn is_path_control(c: char) -> bool {
    c <= '\u{1f}'
}

/// The non-empty segments of a path, between its `/`.
pub open spec fn path_segments(p: Seq<char>) -> Seq<Seq<char>> {
    nonempty_pieces(split_on(p, '/'))
}

/// The path holds `..` somewhere (two dots in a row).
pub open spec fn has_dot_dot(p: Seq<char>) -> bool {
    exists|i: int| 0 <= i && i + 1 < p.len() && #[trigger] p[i] == '.' && p[i + 1] == '.'
}

/// Runs of `/` collapsed to a single `/`.
pub open spec fn collapse_slashes(s: Seq<char>) -> Seq<char>
    decreases s.len(),
{
    if s.len() == 0 {
        s
    } else {
        let r = collapse_slashes(s.drop_last());
        if s.last() == '/' && s.len() >= 2 && s[s.len() - 2] == '/' {
            r
        } else {
            r.push(s.last())
        }
    }
}

/// What parsing a path gives: its byte length, its leading `/`, its chars and
/// its segments are checked in this order; a path that passes is returned
/// with runs of `/` collapsed.
pub open spec fn path_outcome(p: Seq<char>) -> Result<Seq<char>, BoundaryFault> {
    if encode_utf8(p).len() > 255 {
        Err(BoundaryFault::PathTooLong(encode_utf8(p).len()))
    } else if !(p.len() > 0 && p[0] == '/') {
        Err(BoundaryFault::InvalidPath(p))
    } else if exists|i: int| 0 <= i < p.len() && is_path_control(#[trigger] p[i]) {
        Err(BoundaryFault::InvalidCharacters(p))
    } else if has_dot_dot(p) {
        Err(BoundaryFault::PathTraversalDetected(p))
    } else {
        Ok(collapse_slashes(p))
    }
}

/// What every `SafePath` is: it starts with `/`, holds no control char, no
/// `..` and no `//`, and is at most 255 bytes long.
pub open spec fn is_safe_path(s: Seq<char>) -> bool {
    &&& s.len() > 0 && s[0] == '/'
    &&& forall|i: int| 0 <= i < s.len() ==> !is_path_control(#[trigger] s[i])
    &&& !has_dot_dot(s)
    &&& forall|i: int, j: int|
        0 <= i && j == i + 1 && j < s.len() ==> !(#[trigger] s[i] == '/' && #[trigger] s[j] == '/')
    &&& encode_utf8(s).len() <= 255
}

/// A validated URL path.
#[derive(Debug, PartialEq)]
pub struct SafePath(String);

impl View for SafePath {
    type V = Seq<char>;

    closed spec fn view(&self) -> Seq<char> {
        self.0@
    }
}

impl SafePath {
    #[verifier::type_invariant]
    closed spec fn well_formed(&self) -> bool {
        is_safe_path(self.0@)
    }
}

impl Clone for SafePath {
    fn clone(&self) -> (r: Self)
        ensures
            r@ == self@,
    {
        proof {
            use_type_invariant(self);
        }
        SafePath(self.0.clone())
    }
}

proof fn lemma_encode_push(s: Seq<char>, c: char)
    ensures
        encode_utf8(s.push(c)) == encode_utf8(s) + encode_scalar(c as u32),
    decreases s.len(),
{
    let p = s.push(c);
    if s.len() == 0 {
        assert(p.drop_first() =~= Seq::<char>::empty());
        assert(p[0] == c);
        assert(encode_utf8(Seq::<char>::empty()) == Seq::<u8>::empty());
        assert(encode_utf8(p) == encode_scalar(c as u32) + Seq::<u8>::empty());
        assert(encode_scalar(c as u32) + Seq::<u8>::empty() =~= encode_scalar(c as u32));
        assert(encode_utf8(s) == Seq::<u8>::empty());
        assert(Seq::<u8>::empty() + encode_scalar(c as u32) =~= encode_scalar(c as u32));
    } else {
        let t = s.drop_first();
        lemma_encode_push(t, c);
        assert(p.drop_first() =~= t.push(c));
        assert(p[0] == s[0]);
        let e0 = encode_scalar(s[0] as u32);
        assert(encode_utf8(p) == e0 + encode_utf8(t.push(c)));
        assert(encode_utf8(s) == e0 + encode_utf8(t));
        assert(e0 + (encode_utf8(t) + encode_scalar(c as u32)) =~= (e0 + encode_utf8(t))
            + encode_scalar(c as u32));
    }
}

/// How the segments change when one char is appended.
proof fn lemma_segments_push(x: Seq<char>, c: char)
    ensures
        c == '/' ==> path_segments(x.push(c)) == path_segments(x),
        c != '/' && (x.len() == 0 || x.last() == '/') ==> path_segments(x.push(c))
            == path_segments(x).push(seq![c]),
        c != '/' && !(x.len() == 0 || x.last() == '/') ==> {
            &&& path_segments(x).len() > 0
            &&& path_segments(x.push(c)) == path_segments(x).update(
                path_segments(x).len() - 1,
                path_segments(x).last().push(c),
            )
        },
{
    let p = x.push(c);
    assert(p.drop_last() =~= x);
    assert(p.last() == c);
    let parts = split_on(x, '/');
    lemma_split_nonempty(x, '/');
    let np = nonempty_pieces(parts);
    if c == '/' {
        let q = parts.push(Seq::<char>::empty());
        assert(q.drop_last() =~= parts);
    } else {
        let q = parts.update(parts.len() - 1, parts.last().push(c));
        assert(q.drop_last() =~= parts.drop_last());
        assert(q.last() == parts.last().push(c));
        if x.len() == 0 {
            assert(parts =~= seq![Seq::<char>::empty()]);
            assert(parts.drop_last() =~= Seq::<Seq<char>>::empty());
            assert(parts.last().push(c) =~= seq![c]);
        } else if x.last() == '/' {
            assert(x.drop_last().push(x.last()) =~= x);
            assert(parts.last().len() == 0);
            assert(parts.last().push(c) =~= seq![c]);
        } else {
            let x0 = x.drop_last();
            lemma_split_nonempty(x0, '/');
            assert(x0.push(x.last()) =~= x);
            assert(parts.last().len() > 0);
            assert(np == nonempty_pieces(parts.drop_last()).push(parts.last()));
        }
    }
}

/// What collapsing `/` runs keeps: the first and last char, the chars it keeps
/// come from the path, no `//` is left, the encoding gets no longer and the
/// segments stay the same.
proof fn lemma_collapse(s: Seq<char>)
    ensures
        (collapse_slashes(s).len() == 0) == (s.len() == 0),
        s.len() > 0 ==> collapse_slashes(s).last() == s.last(),
        s.len() > 0 ==> collapse_slashes(s)[0] == s[0],
        (forall|j: int| 0 <= j < s.len() ==> !is_path_control(#[trigger] s[j])) ==> (forall|i: int|
            0 <= i < collapse_slashes(s).len() ==> !is_path_control(
                #[trigger] collapse_slashes(s)[i],
            )),
        forall|i: int, j: int|
            0 <= i && j == i + 1 && j < collapse_slashes(s).len() ==> !(
            #[trigger] collapse_slashes(s)[i] == '/' && #[trigger] collapse_slashes(s)[j] == '/'),
        encode_utf8(collapse_slashes(s)).len() <= encode_utf8(s).len(),
        path_segments(collapse_slashes(s)) == path_segments(s),
        !has_dot_dot(s) ==> !has_dot_dot(collapse_slashes(s)),
    decreases s.len(),
{
    if s.len() > 0 {
        let t = s.drop_last();
        let c = s.last();
        let r = collapse_slashes(t);
        lemma_collapse(t);
        lemma_encode_push(t, c);
        assert(t.push(c) =~= s);
        if c == '/' && s.len() >= 2 && s[s.len() - 2] == '/' {
            assert(t.last() == '/');
            lemma_segments_push(t, c);
            if !has_dot_dot(s) {
                assert(!has_dot_dot(t)) by {
                    if has_dot_dot(t) {
                        let i = choose|i: int| 0 <= i && i + 1 < t.len() && #[trigger] t[i] == '.' && t[i + 1] == '.';
                        assert(s[i] == t[i] && s[i + 1] == t[i + 1]);
                    }
                }
            }
            if (forall|j: int| 0 <= j < s.len() ==> !is_path_control(#[trigger] s[j])) {
                assert forall|j: int| 0 <= j < t.len() implies !is_path_control(#[trigger] t[j]) by {
                    assert(t[j] == s[j]);
                }
            }
        } else {
            let r2 = r.push(c);
            lemma_encode_push(r, c);
            lemma_segments_push(r, c);
            lemma_segments_push(t, c);
            if t.len() > 0 {
                assert(t.last() == s[s.len() - 2]);
            }
            if (forall|j: int| 0 <= j < s.len() ==> !is_path_control(#[trigger] s[j])) {
                assert forall|j: int| 0 <= j < t.len() implies !is_path_control(#[trigger] t[j]) by {
                    assert(t[j] == s[j]);
                }
                assert forall|i: int| 0 <= i < r2.len() implies !is_path_control(#[trigger] r2[i]) by {
                    if i < r.len() {
                        assert(r2[i] == r[i]);
                    } else {
                        assert(s[s.len() - 1] == c);
                    }
                }
            }
            assert forall|i: int, j: int| 0 <= i && j == i + 1 && j < r2.len() implies !(
            #[trigger] r2[i] == '/' && #[trigger] r2[j] == '/') by {
                if j < r.len() {
                    assert(r2[i] == r[i] && r2[j] == r[j]);
                } else {
                    assert(r2[i] == r.last());
                }
            }
            if r.len() > 0 {
                assert(r2[0] == r[0]);
            }
            if !has_dot_dot(s) {
                assert(!has_dot_dot(t)) by {
                    if has_dot_dot(t) {
                        let i = choose|i: int| 0 <= i && i + 1 < t.len() && #[trigger] t[i] == '.' && t[i + 1] == '.';
                        assert(s[i] == t[i] && s[i + 1] == t[i + 1]);
                    }
                }
                assert(!has_dot_dot(r2)) by {
                    if has_dot_dot(r2) {
                        let i = choose|i: int| 0 <= i && i + 1 < r2.len() && #[trigger] r2[i] == '.' && r2[i + 1] == '.';
                        if i + 1 < r.len() {
                            assert(r[i] == r2[i] && r[i + 1] == r2[i + 1]);
                        } else {
                            assert(r2[i] == r.last());
                            assert(s[s.len() - 2] == t.last());
                            assert(s[s.len() - 1] == c);
                        }
                    }
                }
            }
        }
    }
}

/// The segments of `v` (non-empty pieces between `/`), as char vectors.
fn segment_vecs(v: &[char]) -> (r: Vec<Vec<char>>)
    ensures
        pieces_view(r@) == path_segments(v@),
{
    let parts = split_chars(v, '/');
    let ghost ps = pieces_view(parts@);
    let mut out: Vec<Vec<char>> = Vec::new();
    let mut i: usize = 0;
    while i < parts.len()
        invariant
            i <= parts.len(),
            ps == pieces_view(parts@),
            ps == split_on(v@, '/'),
            pieces_view(out@) == nonempty_pieces(ps.subrange(0, i as int)),
        decreases parts.len() - i,
    {
        let ghost pre = ps.subrange(0, i as int);
        proof {
            assert(ps.subrange(0, i + 1).drop_last() =~= pre);
            assert(ps.subrange(0, i + 1).last() == parts@[i as int]@);
        }
        if parts[i].len() > 0 {
            let ghost before = out@;
            out.push(parts[i].clone());
            proof {
                assert(pieces_view(out@) =~= pieces_view(before).push(parts@[i as int]@));
            }
        }
        i += 1;
    }
    assert(ps.subrange(0, parts.len() as int) =~= ps);
    out
}

/// Runs of `/` in `v` collapsed to one.
fn normalize_slashes(v: &[char]) -> (r: String)
    ensures
        r@ == collapse_slashes(v@),
{
    let mut out = String::new();
    let mut i: usize = 0;
    assert(v@.subrange(0, 0) =~= Seq::<char>::empty());
    while i < v.len()
        invariant
            i <= v.len(),
            out@ == collapse_slashes(v@.subrange(0, i as int)),
        decreases v.len() - i,
    {
        let ghost p = v@.subrange(0, i + 1);
        proof {
            assert(p.drop_last() =~= v@.subrange(0, i as int));
            assert(p.last() == v@[i as int]);
            if i >= 1 {
                assert(p[p.len() - 2] == v@[i - 1]);
            }
        }
        if !(v[i] == '/' && i >= 1 && v[i - 1] == '/') {
            out.push(v[i]);
        }
        i += 1;
    }
    assert(v@.subrange(0, v.len() as int) =~= v@);
    out
}

impl SafePath {
    /// Validates a URL path. It is refused, in this order, when it is longer
    /// than 255 bytes (`PathTooLong`), does not start with `/` (`InvalidPath`),
    /// holds a NUL or another control char (`InvalidCharacters`), or holds `..`
    /// anywhere (`PathTraversalDetected`); otherwise runs of `/` are collapsed.
    pub fn parse(path: &str) -> (r: Result<SafePath, BoundaryError>)
        ensures
            match path_outcome(path@) {
                Ok(p) => r matches Ok(sp) && sp@ == p,
                Err(f) => r matches Err(e) && e@ == f,
            },
            r matches Ok(sp) ==> is_safe_path(sp@),
    {
        let n = path.as_bytes().len();
        assert(n == encode_utf8(path@).len());
        if n > 255 {
            return Err(BoundaryError::PathTooLong(n));
        }
        let v = str_chars(path);
        if !(v.len() > 0 && v[0] == '/') {
            return Err(BoundaryError::InvalidPath(to_owned_string(path)));
        }
        let mut i: usize = 0;
        while i < v.len()
            invariant
                i <= v.len(),
                v@ == path@,
                encode_utf8(path@).len() <= 255,
                v.len() > 0 && v@[0] == '/',
                forall|j: int| 0 <= j < i ==> !is_path_control(#[trigger] v@[j]),
            decreases v.len() - i,
        {
            if v[i] <= '\u{1f}' {
                assert(is_path_control(path@[i as int]));
                return Err(BoundaryError::InvalidCharacters(to_owned_string(path)));
            }
            i += 1;
        }
        let mut k: usize = 1;
        while k < v.len()
            invariant
                1 <= k <= v.len(),
                v@ == path@,
                encode_utf8(path@).len() <= 255,
                v.len() > 0 && v@[0] == '/',
                forall|j: int| 0 <= j < v.len() ==> !is_path_control(#[trigger] v@[j]),
                forall|j: int| 0 <= j && j + 1 < k ==> !(#[trigger] v@[j] == '.' && v@[j + 1] == '.'),
            decreases v.len() - k,
        {
            if v[k - 1] == '.' && v[k] == '.' {
                assert(path@[k - 1] == '.' && path@[k as int] == '.');
                return Err(BoundaryError::PathTraversalDetected(to_owned_string(path)));
            }
            k += 1;
        }
        proof {
            lemma_collapse(path@);
            assert(collapse_slashes(path@)[0] == '/');
        }
        let normalized = normalize_slashes(v.as_slice());
        Ok(SafePath(normalized))
    }

    /// The root path `/`.
    pub fn root() -> (r: SafePath)
        ensures
            r@ == seq!['/'],
    {
        let s = to_owned_string("/");
        proof {
            reveal_strlit("/");
            assert(s@ =~= seq!['/']);
            assert(split_on(seq!['/'], '/') =~= seq![Seq::<char>::empty(), Seq::<char>::empty()])
                by {
                assert(seq!['/'].drop_last() =~= Seq::<char>::empty());
                assert(seq!['/'].last() == '/');
                assert(split_on(Seq::<char>::empty(), '/') == seq![Seq::<char>::empty()]);
            }
            let ps = split_on(seq!['/'], '/');
            let one = seq![Seq::<char>::empty()];
            assert(ps.drop_last() =~= one);
            assert(one.drop_last() =~= Seq::<Seq<char>>::empty());
            assert(one.last().len() == 0);
            assert(ps.last().len() == 0);
            assert(nonempty_pieces(Seq::<Seq<char>>::empty()) == Seq::<Seq<char>>::empty());
            assert(nonempty_pieces(one) == Seq::<Seq<char>>::empty());
            assert(nonempty_pieces(ps) == Seq::<Seq<char>>::empty());
            assert(path_segments(seq!['/']) =~= Seq::<Seq<char>>::empty());
            assert(encode_utf8(seq!['/']).len() == 1) by {
                let sl = seq!['/'];
                assert(sl.drop_first() =~= Seq::<char>::empty());
                assert(sl[0] == '/');
                assert(('/' as u32) == 47u32);
                assert(encode_scalar(47u32).len() == 1);
                assert(encode_utf8(Seq::<char>::empty()).len() == 0);
            }
        }
        SafePath(s)
    }

    /// The path as text.
    pub fn as_str(&self) -> (r: &str)
        ensures
            r@ == self@,
            is_safe_path(r@),
    {
        proof {
            use_type_invariant(self);
        }
        self.0.as_str()
    }

    /// The non-empty segments of the path, in order.
    pub fn segments(&self) -> (r: Vec<String>)
        ensures
            r@.map_values(|s: String| s@) == path_segments(self@),
    {
        let v = str_chars(self.0.as_str());
        let segs = segment_vecs(v.as_slice());
        let mut out: Vec<String> = Vec::new();
        let mut i: usize = 0;
        while i < segs.len()
            invariant
                i <= segs.len(),
                pieces_view(segs@) == path_segments(self@),
                out@.map_values(|s: String| s@) == pieces_view(segs@).subrange(0, i as int),
            decreases segs.len() - i,
        {
            let s = string_from_chars(segs[i].as_slice());
            let ghost before = out@;
            out.push(s);
            proof {
                assert(out@.map_values(|s: String| s@) =~= before.map_values(|s: String| s@).push(
                    s@,
                ));
                assert(pieces_view(segs@).subrange(0, i + 1) =~= pieces_view(segs@).subrange(
                    0,
                    i as int,
                ).push(segs@[i as int]@));
            }
            i += 1;
        }
        assert(pieces_view(segs@).subrange(0, segs.len() as int) =~= pieces_view(segs@));
        out
    }

    /// Whether the path starts with `prefix` (as text).
    pub fn starts_with(&self, prefix: &str) -> (b: bool)
        ensures
            b == has_prefix(self@, prefix@),
    {
        starts_with(self.0.as_str(), prefix)
    }
}

/// Every path that parsing accepts is safe: it starts with `/` and has no
/// control char, no `..`, no `//`, and at most 255 bytes; and its
/// segments are those of the path as it was sent.
pub proof fn lemma_accepted_path_is_safe(p: Seq<char>)
    requires
        path_outcome(p) is Ok,
    ensures
        is_safe_path(path_outcome(p)->Ok_0),
        path_segments(path_outcome(p)->Ok_0) == path_segments(p),
{
    lemma_collapse(p);
}


/// A path without `//` is left as it is by collapsing.
proof fn lemma_collapse_fixed(s: Seq<char>)
    requires
        forall|i: int, j: int|
            0 <= i && j == i + 1 && j < s.len() ==> !(#[trigger] s[i] == '/' && #[trigger] s[j] == '/'),
    ensures
        collapse_slashes(s) == s,
    decreases s.len(),
{
    if s.len() > 0 {
        let t = s.drop_last();
        assert forall|i: int, j: int| 0 <= i && j == i + 1 && j < t.len() implies !(
        #[trigger] t[i] == '/' && #[trigger] t[j] == '/') by {
            assert(t[i] == s[i] && t[j] == s[j]);
        }
        lemma_collapse_fixed(t);
        if s.len() >= 2 {
            assert(!(s[s.len() - 2] == '/' && s[s.len() - 1] == '/'));
        }
        assert(t.push(s.last()) =~= s);
    }
}

/// Validating is idempotent: the text of an accepted path is accepted again,
/// unchanged.
pub proof fn lemma_parse_idempotent(p: Seq<char>)
    requires
        path_outcome(p) is Ok,
    ensures
        path_outcome(path_outcome(p)->Ok_0) == path_outcome(p),
{
    let q = collapse_slashes(p);
    lemma_collapse(p);
    lemma_collapse_fixed(q);
    assert(!(exists|i: int| 0 <= i < q.len() && is_path_control(#[trigger] q[i])));
}

} // verus!
