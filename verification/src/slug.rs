//! URL slugs from titles: lower-cased, Romanian diacritics folded to ASCII,
//! spaces turned into `-`, other symbols dropped, dashes collapsed.
use vstd::prelude::*;
use crate::input_types::parser::{lemma_split_nonempty, split_on};
use crate::text::{
    all_ascii, ascii_lower, ascii_lower_char, is_alnum, is_ascii_alnum, lowercase, no_ascii_capital, str_chars,
    to_lowercase,
};

verus! {

/// What one char of the lower-cased title becomes: diacritics fold to their base
/// letter, a space to `-`, ASCII letters, digits and `-` stay, anything else is dropped.
pub open spec fn slug_char(c: char) -> Option<char> {
    if c == 'ă' || c == 'â' {
        Some('a')
    } else if c == 'î' {
        Some('i')
    } else if c == 'ș' {
        Some('s')
    } else if c == 'ț' {
        Some('t')
    } else if c == ' ' {
        Some('-')
    } else if is_alnum(c) || c == '-' {
        Some(c)
    } else {
        None
    }
}

/// The chars of `s` after folding and dropping (`slug_char`).
pub open spec fn slug_chars(s: Seq<char>) -> Seq<char>
    decreases s.len(),
{
    if s.len() == 0 {
        s
    } else {
        match slug_char(s.last()) {
            Some(c) => slug_chars(s.drop_last()).push(c),
            None => slug_chars(s.drop_last()),
        }
    }
}

/// The non-empty pieces of a list.
pub open spec fn nonempty_pieces(ps: Seq<Seq<char>>) -> Seq<Seq<char>>
    decreases ps.len(),
{
    if ps.len() == 0 {
        ps
    } else if ps.last().len() == 0 {
        nonempty_pieces(ps.drop_last())
    } else {
        nonempty_pieces(ps.drop_last()).push(ps.last())
    }
}

/// The pieces joined with `-` between them.
pub open spec fn join_dash(ps: Seq<Seq<char>>) -> Seq<char>
    decreases ps.len(),
{
    if ps.len() == 0 {
        Seq::empty()
    } else if ps.len() == 1 {
        ps[0]
    } else {
        join_dash(ps.drop_last()) + seq!['-'] + ps.last()
    }
}

/// Runs of `-` collapsed to one, none at either end.
pub open spec fn collapse_dashes(s: Seq<char>) -> Seq<char> {
    join_dash(nonempty_pieces(split_on(s, '-')))
}

/// The slug of a title whose lower-case form is `lower`.
pub open spec fn slug_of_lower(lower: Seq<char>) -> Seq<char> {
    collapse_dashes(slug_chars(lower))
}

fn fold_char(c: char) -> (r: Option<char>)
    ensures
        r == slug_char(c),
{
    if c == 'ă' || c == 'â' {
        Some('a')
    } else if c == 'î' {
        Some('i')
    } else if c == 'ș' {
        Some('s')
    } else if c == 'ț' {
        Some('t')
    } else if c == ' ' {
        Some('-')
    } else if is_ascii_alnum(c) || c == '-' {
        Some(c)
    } else {
        None
    }
}

/// The slug for a title that is already lower-cased.
pub fn slug_from_lowercase(lower: &str) -> (r: String)
    ensures
        r@ == slug_of_lower(lower@),
{
    let v = str_chars(lower);
    // Fold and drop.
    let mut kept: Vec<char> = Vec::new();
    let mut i: usize = 0;
    while i < v.len()
        invariant
            i <= v.len(),
            kept@ == slug_chars(v@.subrange(0, i as int)),
        decreases v.len() - i,
    {
        proof {
            assert(v@.subrange(0, i + 1).drop_last() == v@.subrange(0, i as int));
            assert(v@.subrange(0, i + 1).last() == v@[i as int]);
        }
        match fold_char(v[i]) {
            Some(c) => kept.push(c),
            None => {},
        }
        i += 1;
    }
    assert(v@.subrange(0, v.len() as int) == v@);
    // Collapse dashes.
    let mut out = String::new();
    let mut cur: Vec<char> = Vec::new();
    let ghost mut done: Seq<Seq<char>> = seq![];
    let mut j: usize = 0;
    assert(kept@.subrange(0, 0) =~= Seq::<char>::empty());
    while j < kept.len()
        invariant
            j <= kept.len(),
            split_on(kept@.subrange(0, j as int), '-') == done.push(cur@),
            out@ == join_dash(nonempty_pieces(done)),
        decreases kept.len() - j,
    {
        let c = kept[j];
        proof {
            assert(kept@.subrange(0, j + 1).drop_last() == kept@.subrange(0, j as int));
            assert(kept@.subrange(0, j + 1).last() == c);
        }
        if c == '-' {
            proof {
                lemma_collapse_step(done, cur@);
            }
            append_piece(&mut out, &cur);
            proof {
                done = done.push(cur@);
            }
            cur = Vec::new();
        } else {
            proof {
                let parts = done.push(cur@);
                assert(parts.update(parts.len() - 1, parts.last().push(c)) =~= done.push(
                    cur@.push(c),
                ));
            }
            cur.push(c);
        }
        j += 1;
    }
    assert(kept@.subrange(0, kept.len() as int) == kept@);
    proof {
        lemma_collapse_step(done, cur@);
    }
    append_piece(&mut out, &cur);
    out
}

/// Joining one more piece: an empty piece changes nothing.
proof fn lemma_join_push(ps: Seq<Seq<char>>, p: Seq<char>)
    ensures
        p.len() > 0 ==> join_dash(ps.push(p)) == if ps.len() == 0 {
            p
        } else {
            join_dash(ps) + seq!['-'] + p
        },
{
    if p.len() > 0 && ps.len() > 0 {
        assert(ps.push(p).drop_last() == ps);
    }
}

/// Non-empty pieces of a joined list are non-empty; the join of non-empty pieces
/// is empty only when there are none.
proof fn lemma_join_empty(ps: Seq<Seq<char>>)
    requires
        forall|i: int| 0 <= i < ps.len() ==> (#[trigger] ps[i]).len() > 0,
    ensures
        (join_dash(ps).len() == 0) == (ps.len() == 0),
    decreases ps.len(),
{
    if ps.len() > 1 {
        lemma_join_empty(ps.drop_last());
    }
}

proof fn lemma_nonempty_pieces_nonempty(ps: Seq<Seq<char>>)
    ensures
        forall|i: int|
            0 <= i < nonempty_pieces(ps).len() ==> (#[trigger] nonempty_pieces(ps)[i]).len() > 0,
    decreases ps.len(),
{
    if ps.len() > 0 {
        lemma_nonempty_pieces_nonempty(ps.drop_last());
        let np0 = nonempty_pieces(ps.drop_last());
        let np = nonempty_pieces(ps);
        if ps.last().len() > 0 {
            assert forall|i: int| 0 <= i < np.len() implies (#[trigger] np[i]).len() > 0 by {
                if i < np0.len() {
                    assert(np[i] == np0[i]);
                }
            }
        }
    }
}

/// One more piece, as the dash-collapsing loop sees it: an empty piece changes
/// nothing, a non-empty one is appended, after a `-` when something came before.
proof fn lemma_collapse_step(done: Seq<Seq<char>>, cur: Seq<char>)
    ensures
        ({
            let before = join_dash(nonempty_pieces(done));
            let after = join_dash(nonempty_pieces(done.push(cur)));
            &&& cur.len() == 0 ==> after == before
            &&& cur.len() > 0 && before.len() == 0 ==> after == cur
            &&& cur.len() > 0 && before.len() > 0 ==> after == before + seq!['-'] + cur
        }),
{
    assert(done.push(cur).drop_last() == done);
    assert(done.push(cur).last() == cur);
    let np = nonempty_pieces(done);
    lemma_nonempty_pieces_nonempty(done);
    lemma_join_empty(np);
    lemma_join_push(np, cur);
}

/// Appends the piece `cur` (when non-empty) to the joined output, with a `-`
/// separator when the output already holds a piece.
fn append_piece(out: &mut String, cur: &Vec<char>)
    ensures
        cur@.len() == 0 ==> final(out)@ == old(out)@,
        cur@.len() > 0 && old(out)@.len() == 0 ==> final(out)@ == cur@,
        cur@.len() > 0 && old(out)@.len() > 0 ==> final(out)@ == old(out)@ + seq!['-'] + cur@,
{
    if cur.len() == 0 {
        return;
    }
    let had = out.as_str().is_empty();
    if !had {
        out.push('-');
    }
    let ghost base = out@;
    let mut k: usize = 0;
    while k < cur.len()
        invariant
            k <= cur.len(),
            out@ == base + cur@.subrange(0, k as int),
        decreases cur.len() - k,
    {
        out.push(cur[k]);
        k += 1;
        assert(cur@.subrange(0, k as int) == cur@.subrange(0, k - 1).push(cur@[k - 1]));
    }
    assert(cur@.subrange(0, cur.len() as int) == cur@);
}

/// The URL slug of a title: lower-cased (Unicode), diacritics `ă â î ș ț` folded
/// to ASCII, spaces to `-`, other symbols dropped, runs of `-` collapsed and no
/// `-` at either end. The result is a well-formed slug, and an ASCII title is
/// lower-cased char by char.
pub fn generate_slug(text: &str) -> (r: String)
    ensures
        r@ == slug_of_lower(lowercase(text@)),
        all_ascii(text@) ==> r@ == slug_of_lower(ascii_lower(text@)),
        is_slug(r@),
{
    let lower = to_lowercase(text);
    proof {
        lemma_slug_well_formed(lower@);
    }
    slug_from_lowercase(lower.as_str())
}

/// The slug of a listing title (the same as `generate_slug`).
pub fn generate_listing_slug(title: &str) -> (r: String)
    ensures
        r@ == slug_of_lower(lowercase(title@)),
        all_ascii(title@) ==> r@ == slug_of_lower(ascii_lower(title@)),
        is_slug(r@),
{
    generate_slug(title)
}

/// A char a slug is made of besides `-`: a lower-case ASCII letter or a digit.
pub open spec fn is_slug_char(c: char) -> bool {
    ('0' <= c && c <= '9') || ('a' <= c && c <= 'z')
}

/// Every char of `s` is a lower-case ASCII letter or a digit.
pub open spec fn all_alnum(s: Seq<char>) -> bool {
    forall|i: int| 0 <= i < s.len() ==> is_slug_char(#[trigger] s[i])
}

/// A well-formed slug: only lower-case ASCII letters, digits and `-`; no `-`
/// at either end; never two `-` in a row.
pub open spec fn is_slug(s: Seq<char>) -> bool {
    &&& forall|i: int| 0 <= i < s.len() ==> is_slug_char(#[trigger] s[i]) || s[i] == '-'
    &&& s.len() > 0 ==> s[0] != '-' && s[s.len() - 1] != '-'
    &&& forall|i: int, j: int|
        0 <= i && j == i + 1 && j < s.len() ==> !(#[trigger] s[i] == '-' && #[trigger] s[j] == '-')
}

proof fn lemma_slug_chars_class(s: Seq<char>)
    requires
        no_ascii_capital(s),
    ensures
        forall|i: int|
            0 <= i < slug_chars(s).len() ==> is_slug_char(#[trigger] slug_chars(s)[i])
                || slug_chars(s)[i] == '-',
    decreases s.len(),
{
    if s.len() > 0 {
        let t = s.drop_last();
        assert forall|i: int| 0 <= i < t.len() implies !('A' <= #[trigger] t[i] <= 'Z') by {
            assert(t[i] == s[i]);
        }
        lemma_slug_chars_class(t);
        assert(!('A' <= s[s.len() - 1] <= 'Z'));
        let r0 = slug_chars(t);
        let r = slug_chars(s);
        assert forall|i: int| 0 <= i < r.len() implies is_slug_char(#[trigger] r[i]) || r[i] == '-' by {
            if i < r0.len() {
                assert(r[i] == r0[i]);
            }
        }
    }
}

/// The pieces of `s` split at `-` hold no `-`, so when `s` holds only letters,
/// digits and `-`, each piece holds only letters and digits.
proof fn lemma_split_pieces_alnum(s: Seq<char>)
    requires
        forall|i: int| 0 <= i < s.len() ==> is_slug_char(#[trigger] s[i]) || s[i] == '-',
    ensures
        forall|k: int| 0 <= k < split_on(s, '-').len() ==> all_alnum(#[trigger] split_on(s, '-')[k]),
    decreases s.len(),
{
    if s.len() > 0 {
        let t = s.drop_last();
        assert forall|i: int| 0 <= i < t.len() implies is_slug_char(#[trigger] t[i]) || t[i] == '-' by {
            assert(t[i] == s[i]);
        }
        lemma_split_pieces_alnum(t);
        lemma_split_nonempty(t, '-');
        let parts = split_on(t, '-');
        let ps = split_on(s, '-');
        if s.last() != '-' {
            assert(is_slug_char(s.last())) by {
                assert(s[s.len() - 1] == s.last());
            }
            assert forall|k: int| 0 <= k < ps.len() implies all_alnum(#[trigger] ps[k]) by {
                if k < parts.len() - 1 {
                    assert(ps[k] == parts[k]);
                } else {
                    let q = parts.last().push(s.last());
                    assert(ps[k] == q);
                    assert(all_alnum(parts[parts.len() - 1]));
                    assert forall|j: int| 0 <= j < q.len() implies is_slug_char(#[trigger] q[j]) by {
                        if j < q.len() - 1 {
                            assert(q[j] == parts.last()[j]);
                        }
                    }
                }
            }
        } else {
            assert forall|k: int| 0 <= k < ps.len() implies all_alnum(#[trigger] ps[k]) by {
                if k < parts.len() {
                    assert(ps[k] == parts[k]);
                } else {
                    assert(ps[k].len() == 0);
                }
            }
        }
    }
}

proof fn lemma_nonempty_pieces_keep(ps: Seq<Seq<char>>)
    requires
        forall|k: int| 0 <= k < ps.len() ==> all_alnum(#[trigger] ps[k]),
    ensures
        forall|k: int|
            0 <= k < nonempty_pieces(ps).len() ==> all_alnum(#[trigger] nonempty_pieces(ps)[k]),
    decreases ps.len(),
{
    if ps.len() > 0 {
        let t = ps.drop_last();
        assert forall|k: int| 0 <= k < t.len() implies all_alnum(#[trigger] t[k]) by {
            assert(t[k] == ps[k]);
        }
        lemma_nonempty_pieces_keep(t);
        let np0 = nonempty_pieces(t);
        let np = nonempty_pieces(ps);
        if ps.last().len() > 0 {
            assert forall|k: int| 0 <= k < np.len() implies all_alnum(#[trigger] np[k]) by {
                if k < np0.len() {
                    assert(np[k] == np0[k]);
                } else {
                    assert(np[k] == ps[ps.len() - 1]);
                }
            }
        }
    }
}

/// Joining non-empty runs of letters and digits with `-` gives a well-formed slug.
proof fn lemma_join_is_slug(ps: Seq<Seq<char>>)
    requires
        forall|k: int| 0 <= k < ps.len() ==> (#[trigger] ps[k]).len() > 0 && all_alnum(ps[k]),
    ensures
        is_slug(join_dash(ps)),
    decreases ps.len(),
{
    if ps.len() == 1 {
        let p = ps[0];
        assert(all_alnum(p));
        assert(p[0] != '-' && p[p.len() - 1] != '-') by {
            assert(is_slug_char(p[0]));
            assert(is_slug_char(p[p.len() - 1]));
        }
    } else if ps.len() > 1 {
        let t = ps.drop_last();
        assert forall|k: int| 0 <= k < t.len() implies (#[trigger] t[k]).len() > 0 && all_alnum(t[k]) by {
            assert(t[k] == ps[k]);
        }
        lemma_join_is_slug(t);
        lemma_join_empty(t);
        let a = join_dash(t);
        let b = ps.last();
        assert(b == ps[ps.len() - 1]);
        assert(all_alnum(b));
        let r = a + seq!['-'] + b;
        assert(join_dash(ps) == r);
        assert forall|i: int| 0 <= i < r.len() implies is_slug_char(#[trigger] r[i]) || r[i] == '-' by {
            if i < a.len() {
                assert(r[i] == a[i]);
            } else if i > a.len() {
                assert(r[i] == b[i - a.len() - 1]);
            }
        }
        assert(r[0] == a[0]);
        assert(r[r.len() - 1] == b[b.len() - 1]);
        assert(is_slug_char(b[b.len() - 1]));
        assert forall|i: int, j: int|
            0 <= i && j == i + 1 && j < r.len() implies !(#[trigger] r[i] == '-' && #[trigger] r[j]
                == '-') by {
            if j < a.len() {
                assert(r[i] == a[i] && r[j] == a[j]);
            } else if j == a.len() {
                assert(r[i] == a[a.len() - 1]);
            } else if i == a.len() {
                assert(r[j] == b[0]);
                assert(is_slug_char(b[0]));
            } else {
                assert(r[i] == b[i - a.len() - 1]);
                assert(is_slug_char(b[i - a.len() - 1]));
            }
        }
    }
}

/// Every slug is well formed: only lower-case ASCII letters, digits and `-`,
/// no `-` at either end and never two in a row, whatever the (lower-cased) title.
pub proof fn lemma_slug_well_formed(lower: Seq<char>)
    requires
        no_ascii_capital(lower),
    ensures
        is_slug(slug_of_lower(lower)),
{
    let kept = slug_chars(lower);
    lemma_slug_chars_class(lower);
    lemma_split_pieces_alnum(kept);
    let parts = split_on(kept, '-');
    lemma_nonempty_pieces_keep(parts);
    lemma_nonempty_pieces_nonempty(parts);
    let np = nonempty_pieces(parts);
    assert forall|k: int| 0 <= k < np.len() implies (#[trigger] np[k]).len() > 0 && all_alnum(np[k]) by {}
    lemma_join_is_slug(np);
}


/// The last piece of a split is empty exactly when the text is empty or ends
/// with the separator.
proof fn lemma_split_last(t: Seq<char>, c: char)
    ensures
        (split_on(t, c).last().len() == 0) == (t.len() == 0 || t.last() == c),
{
    if t.len() > 0 {
        lemma_split_nonempty(t.drop_last(), c);
        let parts = split_on(t.drop_last(), c);
        if t.last() != c {
            assert(split_on(t, c).last() == parts.last().push(t.last()));
        }
    }
}

/// Collapsing the dashes of a text with no `-` in front and never two in a
/// row keeps it, but for one trailing `-`.
proof fn lemma_collapse_prefix(s: Seq<char>)
    requires
        s.len() > 0 ==> s[0] != '-',
        forall|i: int, j: int|
            0 <= i && j == i + 1 && j < s.len() ==> !(#[trigger] s[i] == '-' && #[trigger] s[j] == '-'),
    ensures
        collapse_dashes(s) == if s.len() > 0 && s.last() == '-' {
            s.drop_last()
        } else {
            s
        },
    decreases s.len(),
{
    if s.len() > 0 {
        let t = s.drop_last();
        let c = s.last();
        assert forall|i: int, j: int| 0 <= i && j == i + 1 && j < t.len() implies !(#[trigger] t[i]
            == '-' && #[trigger] t[j] == '-') by {
            assert(t[i] == s[i] && t[j] == s[j]);
        }
        if t.len() > 0 {
            assert(t[0] == s[0]);
        }
        lemma_collapse_prefix(t);
        lemma_split_nonempty(t, '-');
        lemma_split_last(t, '-');
        let parts = split_on(t, '-');
        let ps = split_on(s, '-');
        let last = parts.last();
        let np0 = nonempty_pieces(parts.drop_last());
        lemma_nonempty_pieces_nonempty(parts.drop_last());
        lemma_join_empty(np0);
        if c == '-' {
            assert(ps.drop_last() == parts);
            assert(ps.last().len() == 0);
            assert(nonempty_pieces(ps) == nonempty_pieces(parts));
            assert(t.len() > 0);
            assert(t.last() != '-') by {
                assert(s[s.len() - 2] == t.last());
                assert(s[s.len() - 1] == c);
            }
            assert(collapse_dashes(s) == collapse_dashes(t));
            assert(collapse_dashes(t) == t);
        } else {
            assert(ps.drop_last() =~= parts.drop_last());
            assert(ps.last() == last.push(c));
            assert(nonempty_pieces(ps) == np0.push(last.push(c)));
            lemma_join_push(np0, last.push(c));
            if t.len() == 0 {
                assert(parts =~= seq![Seq::<char>::empty()]);
                assert(parts.drop_last() =~= Seq::<Seq<char>>::empty());
                assert(last.push(c) =~= s);
                assert(collapse_dashes(s) == s);
            } else if t.last() == '-' {
                assert(nonempty_pieces(parts) == np0);
                assert(last =~= Seq::<char>::empty());
                assert(t.drop_last() + seq!['-'] + last.push(c) =~= s);
                assert(collapse_dashes(s) == s);
            } else {
                assert(nonempty_pieces(parts) == np0.push(last));
                lemma_join_push(np0, last);
                if join_dash(np0).len() == 0 {
                    assert(last.push(c) =~= t.push(c));
                } else {
                    assert(join_dash(np0) + seq!['-'] + last.push(c) =~= (join_dash(np0) + seq!['-']
                        + last).push(c));
                }
                assert(t.push(c) =~= s);
                assert(collapse_dashes(s) == s);
            }
        }
    } else {
        let e = seq![Seq::<char>::empty()];
        assert(split_on(s, '-') == e);
        assert(e.drop_last() =~= Seq::<Seq<char>>::empty());
        assert(nonempty_pieces(e) == nonempty_pieces(Seq::<Seq<char>>::empty()));
    }
}

/// Folding and dropping keeps a text of slug chars and dashes as it is.
proof fn lemma_slug_chars_fixed(s: Seq<char>)
    requires
        forall|i: int| 0 <= i < s.len() ==> is_slug_char(#[trigger] s[i]) || s[i] == '-',
    ensures
        slug_chars(s) == s,
    decreases s.len(),
{
    if s.len() > 0 {
        let t = s.drop_last();
        assert forall|i: int| 0 <= i < t.len() implies is_slug_char(#[trigger] t[i]) || t[i] == '-' by {
            assert(t[i] == s[i]);
        }
        lemma_slug_chars_fixed(t);
        assert(is_slug_char(s[s.len() - 1]) || s[s.len() - 1] == '-');
        assert(t.push(s.last()) =~= s);
    }
}

/// A slug is its own slug: it is ASCII, already lower-case, and making a slug
/// of it gives it back, so generating a slug twice gives the same slug.
pub proof fn lemma_slug_idempotent(s: Seq<char>)
    requires
        is_slug(s),
    ensures
        all_ascii(s),
        ascii_lower(s) == s,
        slug_of_lower(s) == s,
{
    assert forall|i: int| 0 <= i < s.len() implies (#[trigger] s[i] as u32) < 128 by {
        assert(is_slug_char(s[i]) || s[i] == '-');
    }
    assert forall|i: int| 0 <= i < s.len() implies ascii_lower(s)[i] == s[i] by {
        assert(is_slug_char(s[i]) || s[i] == '-');
        assert(ascii_lower(s)[i] == ascii_lower_char(s[i]));
    }
    assert(ascii_lower(s) =~= s);
    lemma_slug_chars_fixed(s);
    lemma_collapse_prefix(s);
}

} // verus!
