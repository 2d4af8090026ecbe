//! Parser for `application/x-www-form-urlencoded` bodies (with a JSON fallback)
//! into a list of named fields.
use vstd::prelude::*;
use vstd::string::StringExecFns;
use crate::input_types::error::InputError;
use crate::text::{hex_val, str_chars, str_eq, to_owned_string};

verus! {

/// One field of a submitted form.
#[derive(Debug, Clone)]
pub struct FormField {
    pub name: String,
    pub value: String,
}

impl View for FormField {
    type V = (Seq<char>, Seq<char>);

    open spec fn view(&self) -> (Seq<char>, Seq<char>) {
        (self.name@, self.value@)
    }
}

/// The views of a list of fields.
pub open spec fn fields_view(fs: Seq<FormField>) -> Seq<(Seq<char>, Seq<char>)> {
    fs.map_values(|f: FormField| f@)
}

// ----------------------------------------------------------------------------
// Splitting
// ----------------------------------------------------------------------------

/// The pieces of `s` between occurrences of `c` (as `str::split(c)` yields them;
/// the empty string gives one empty piece).
pub open spec fn split_on(s: Seq<char>, c: char) -> Seq<Seq<char>>
    decreases s.len(),
{
    if s.len() == 0 {
        seq![Seq::<char>::empty()]
    } else {
        let parts = split_on(s.drop_last(), c);
        if s.last() == c {
            parts.push(Seq::<char>::empty())
        } else {
            parts.update(parts.len() - 1, parts.last().push(s.last()))
        }
    }
}

/// `split_on` always yields at least one piece.
pub proof fn lemma_split_nonempty(s: Seq<char>, c: char)
    ensures
        split_on(s, c).len() >= 1,
    decreases s.len(),
{
    if s.len() > 0 {
        lemma_split_nonempty(s.drop_last(), c);
    }
}

/// The chars of each piece.
pub open spec fn pieces_view(ps: Seq<Vec<char>>) -> Seq<Seq<char>> {
    ps.map_values(|p: Vec<char>| p@)
}

/// Splits `v` at every `c` (what `str::split(c)` yields).
pub fn split_chars(v: &[char], c: char) -> (r: Vec<Vec<char>>)
    ensures
        pieces_view(r@) == split_on(v@, c),
{
    let mut out: Vec<Vec<char>> = Vec::new();
    let mut cur: Vec<char> = Vec::new();
    let mut i: usize = 0;
    assert(v@.subrange(0, 0) =~= Seq::<char>::empty());
    assert(pieces_view(out@).push(cur@) =~= seq![Seq::<char>::empty()]);
    while i < v.len()
        invariant
            i <= v.len(),
            split_on(v@.subrange(0, i as int), c) == pieces_view(out@).push(cur@),
        decreases v.len() - i,
    {
        let x = v[i];
        let ghost parts = pieces_view(out@).push(cur@);
        proof {
            assert(v@.subrange(0, i + 1).drop_last() =~= v@.subrange(0, i as int));
            assert(v@.subrange(0, i + 1).last() == x);
        }
        if x == c {
            let ghost prev = out@;
            out.push(cur);
            cur = Vec::new();
            proof {
                assert(pieces_view(out@) =~= pieces_view(prev).push(parts.last()));
                assert(parts =~= pieces_view(out@));
            }
        } else {
            let ghost prev = cur@;
            cur.push(x);
            proof {
                assert(parts.update(parts.len() - 1, parts.last().push(x)) =~= pieces_view(
                    out@,
                ).push(cur@));
            }
        }
        i += 1;
    }
    assert(v@.subrange(0, v.len() as int) =~= v@);
    let ghost prev = out@;
    out.push(cur);
    assert(pieces_view(out@) =~= pieces_view(prev).push(cur@));
    out
}

/// Index of the first `=` in `p`, if any.
pub open spec fn eq_pos(p: Seq<char>) -> Option<int>
    decreases p.len(),
{
    if p.len() == 0 {
        None
    } else if p[0] == '=' {
        Some(0)
    } else {
        match eq_pos(p.drop_first()) {
            Some(i) => Some(i + 1),
            None => None,
        }
    }
}

/// The name part of `name=value` (everything when there is no `=`).
pub open spec fn pair_name(p: Seq<char>) -> Seq<char> {
    match eq_pos(p) {
        Some(i) => p.subrange(0, i),
        None => p,
    }
}

/// The value part of `name=value` (empty when there is no `=`).
pub open spec fn pair_value(p: Seq<char>) -> Seq<char> {
    match eq_pos(p) {
        Some(i) => p.subrange(i + 1, p.len() as int),
        None => Seq::empty(),
    }
}

// ----------------------------------------------------------------------------
// Decoding
// ----------------------------------------------------------------------------

/// What `u8::from_str_radix(h, 16)` gives for a text of at most two chars: an
/// optional `+` followed by hex digits.
pub open spec fn radix16_u8(h: Seq<char>) -> Option<u8> {
    if h.len() == 0 {
        None
    } else if h[0] == '+' {
        if h.len() == 2 && hex_val(h[1]) is Some {
            Some(hex_val(h[1]).unwrap())
        } else {
            None
        }
    } else if h.len() == 1 && hex_val(h[0]) is Some {
        Some(hex_val(h[0]).unwrap())
    } else if h.len() == 2 && hex_val(h[0]) is Some && hex_val(h[1]) is Some {
        Some((hex_val(h[0]).unwrap() * 16 + hex_val(h[1]).unwrap()) as u8)
    } else {
        None
    }
}

/// URL-decoding of a form component: `+` is a space, `%` takes the next (up to)
/// two chars as a hex byte that becomes the char with that code; when they are
/// not hex, `%` and the two chars are kept.
pub open spec fn form_decode(s: Seq<char>) -> Seq<char>
    decreases s.len(),
{
    if s.len() == 0 {
        s
    } else if s[0] == '+' {
        seq![' '] + form_decode(s.drop_first())
    } else if s[0] == '%' {
        let n: int = if s.len() >= 3 {
            2
        } else {
            s.len() - 1
        };
        let h = s.subrange(1, 1 + n);
        let rest = s.subrange(1 + n, s.len() as int);
        match radix16_u8(h) {
            Some(b) => seq![(b as u32) as char] + form_decode(rest),
            None => seq!['%'] + h + form_decode(rest),
        }
    } else {
        seq![s[0]] + form_decode(s.drop_first())
    }
}

fn radix16(v: &[char], lo: usize, hi: usize) -> (r: Option<u8>)
    requires
        lo <= hi <= v.len(),
        hi - lo <= 2,
    ensures
        r == radix16_u8(v@.subrange(lo as int, hi as int)),
{
    let ghost h = v@.subrange(lo as int, hi as int);
    if hi == lo {
        return None;
    }
    assert(h[0] == v@[lo as int]);
    if v[lo] == '+' {
        if hi - lo == 2 {
            assert(h[1] == v@[lo + 1]);
            match crate::text::hex_digit(v[lo + 1]) {
                Some(d) => Some(d),
                None => None,
            }
        } else {
            None
        }
    } else if hi - lo == 1 {
        crate::text::hex_digit(v[lo])
    } else {
        assert(h[1] == v@[lo + 1]);
        match (crate::text::hex_digit(v[lo]), crate::text::hex_digit(v[lo + 1])) {
            (Some(a), Some(b)) => Some(a * 16 + b),
            _ => None,
        }
    }
}

/// One decoding step at `v[i]`: appends the decoding of the next token to `out`
/// and returns the index after it.
fn decode_step(v: &[char], i: usize, hi: usize, out: &mut String) -> (next: usize)
    requires
        i < hi <= v.len(),
    ensures
        i < next <= hi,
        final(out)@ + form_decode(v@.subrange(next as int, hi as int)) == old(out)@ + form_decode(
            v@.subrange(i as int, hi as int),
        ),
{
    let ghost s = v@.subrange(i as int, hi as int);
    let ghost before = out@;
    let c = v[i];
    assert(s[0] == c);
    if c == '+' {
        assert(s.drop_first() == v@.subrange(i + 1, hi as int));
        out.push(' ');
        i + 1
    } else if c == '%' {
        let n: usize = if hi - i >= 3 { 2 } else { hi - i - 1 };
        let code = radix16(v, i + 1, i + 1 + n);
        let ghost h = s.subrange(1, 1 + n as int);
        let ghost rest = s.subrange(1 + n as int, s.len() as int);
        assert(h == v@.subrange(i + 1, (i + 1 + n) as int));
        assert(rest == v@.subrange((i + 1 + n) as int, hi as int));
        match code {
            Some(b) => {
                out.push(b as char);
                assert(form_decode(s) == seq![(b as u32) as char] + form_decode(rest));
            },
            None => {
                out.push('%');
                let mut j: usize = i + 1;
                while j < i + 1 + n
                    invariant
                        i + 1 <= j <= i + 1 + n <= hi <= v.len(),
                        out@ == before.push('%') + v@.subrange(i + 1, j as int),
                    decreases i + 1 + n - j,
                {
                    out.push(v[j]);
                    j += 1;
                    assert(v@.subrange(i + 1, j as int) == v@.subrange(i + 1, j - 1).push(
                        v@[j - 1],
                    ));
                }
                assert(form_decode(s) == seq!['%'] + h + form_decode(rest));
            },
        }
        i + 1 + n
    } else {
        assert(s.drop_first() == v@.subrange(i + 1, hi as int));
        out.push(c);
        i + 1
    }
}

/// URL-decodes `v[lo..hi]` (`+` → space, `%XX` → char with code `XX`).
pub fn url_decode_range(v: &[char], lo: usize, hi: usize) -> (r: String)
    requires
        lo <= hi <= v.len(),
    ensures
        r@ == form_decode(v@.subrange(lo as int, hi as int)),
{
    let ghost whole = v@.subrange(lo as int, hi as int);
    let mut out = String::new();
    let mut i: usize = lo;
    while i < hi
        invariant
            lo <= i <= hi <= v.len(),
            whole == v@.subrange(lo as int, hi as int),
            out@ + form_decode(v@.subrange(i as int, hi as int)) == form_decode(whole),
        decreases hi - i,
    {
        i = decode_step(v, i, hi, &mut out);
    }
    assert(v@.subrange(hi as int, hi as int) =~= Seq::<char>::empty());
    out
}

/// URL-decodes a form component (`+` → space, `%XX` → char with code `XX`).
pub fn url_decode(s: &str) -> (r: String)
    ensures
        r@ == form_decode(s@),
{
    let v = str_chars(s);
    proof {
        assert(v@.subrange(0, v@.len() as int) == v@);
    }
    url_decode_range(v.as_slice(), 0, v.len())
}

} // verus!

verus! {

/// The field that one `&`-separated piece denotes.
pub open spec fn field_of_pair(p: Seq<char>) -> (Seq<char>, Seq<char>) {
    (form_decode(pair_name(p)), form_decode(pair_value(p)))
}

/// The fields of a list of pieces; empty pieces are skipped.
pub open spec fn fields_of_pairs(ps: Seq<Seq<char>>) -> Seq<(Seq<char>, Seq<char>)>
    decreases ps.len(),
{
    if ps.len() == 0 {
        seq![]
    } else {
        let rest = fields_of_pairs(ps.drop_last());
        if ps.last().len() == 0 {
            rest
        } else {
            rest.push(field_of_pair(ps.last()))
        }
    }
}

/// The fields of a form body `name1=value1&name2=value2…`.
pub open spec fn form_fields(body: Seq<char>) -> Seq<(Seq<char>, Seq<char>)> {
    fields_of_pairs(split_on(body, '&'))
}

proof fn lemma_eq_pos_at(p: Seq<char>, k: int)
    requires
        0 <= k <= p.len(),
        forall|j: int| 0 <= j < k ==> #[trigger] p[j] != '=',
        k == p.len() || p[k] == '=',
    ensures
        k < p.len() ==> eq_pos(p) == Some(k),
        k == p.len() ==> eq_pos(p) is None,
    decreases k,
{
    if k > 0 {
        let t = p.drop_first();
        assert forall|j: int| 0 <= j < k - 1 implies #[trigger] t[j] != '=' by {
            assert(t[j] == p[j + 1]);
        }
        if k < p.len() {
            assert(t[k - 1] == p[k]);
        }
        lemma_eq_pos_at(t, k - 1);
    }
}

/// Position of the first `=` in `v`, if any.
pub fn eq_index(v: &[char]) -> (r: Option<usize>)
    ensures
        match r {
            Some(k) => eq_pos(v@) == Some(k as int) && k < v.len(),
            None => eq_pos(v@) is None,
        },
{
    let mut k: usize = 0;
    while k < v.len() && v[k] != '='
        invariant
            k <= v.len(),
            forall|j: int| 0 <= j < k ==> #[trigger] v@[j] != '=',
        decreases v.len() - k,
    {
        k += 1;
    }
    proof {
        lemma_eq_pos_at(v@, k as int);
    }
    if k < v.len() {
        Some(k)
    } else {
        None
    }
}

/// The field denoted by the piece `v[lo..hi]`.
fn field_of_range(v: &[char], lo: usize, hi: usize) -> (f: FormField)
    requires
        lo <= hi <= v.len(),
    ensures
        f@ == field_of_pair(v@.subrange(lo as int, hi as int)),
{
    let ghost p = v@.subrange(lo as int, hi as int);
    let mut k: usize = lo;
    while k < hi && v[k] != '='
        invariant
            lo <= k <= hi <= v.len(),
            p == v@.subrange(lo as int, hi as int),
            forall|j: int| 0 <= j < k - lo ==> #[trigger] p[j] != '=',
        decreases hi - k,
    {
        assert(p[k - lo] == v@[k as int]);
        k += 1;
    }
    proof {
        if k < hi {
            assert(p[k - lo] == v@[k as int]);
        }
        lemma_eq_pos_at(p, k - lo);
    }
    if k < hi {
        assert(p.subrange(0, k - lo) == v@.subrange(lo as int, k as int));
        assert(p.subrange(k - lo + 1, p.len() as int) == v@.subrange(k + 1, hi as int));
        let name = url_decode_range(v, lo, k);
        let value = url_decode_range(v, k + 1, hi);
        FormField { name, value }
    } else {
        let name = url_decode_range(v, lo, hi);
        let value = String::new();
        assert(form_decode(Seq::<char>::empty()) == Seq::<char>::empty());
        FormField { name, value }
    }
}

/// Parses a form body `name1=value1&name2=value2…` into its fields, in order.
/// Empty pieces are skipped; a piece without `=` has an empty value; names and
/// values are URL-decoded.
pub fn parse_form(body: &str) -> (r: Vec<FormField>)
    ensures
        fields_view(r@) == form_fields(body@),
{
    let v = str_chars(body);
    let mut out: Vec<FormField> = Vec::new();
    let mut start: usize = 0;
    let mut i: usize = 0;
    let ghost mut done: Seq<Seq<char>> = seq![];
    proof {
        assert(v@.subrange(0, 0) =~= Seq::<char>::empty());
    }
    while i < v.len()
        invariant
            start <= i <= v.len(),
            v@ == body@,
            split_on(v@.subrange(0, i as int), '&') == done.push(v@.subrange(start as int, i as int)),
            fields_view(out@) == fields_of_pairs(done),
        decreases v.len() - i,
    {
        let ghost seg = v@.subrange(start as int, i as int);
        assert(v@.subrange(0, i + 1).drop_last() == v@.subrange(0, i as int));
        assert(v@.subrange(0, i + 1).last() == v@[i as int]);
        if v[i] == '&' {
            if start < i {
                let f = field_of_range(v.as_slice(), start, i);
                out.push(f);
            }
            proof {
                assert(done.push(seg).drop_last() == done);
                assert(done.push(seg).last() == seg);
                assert(fields_view(out@) == fields_of_pairs(done.push(seg))) by {
                    if start < i {
                        assert(fields_view(out@) == fields_view(out@.drop_last()).push(
                            out@.last()@,
                        ));
                    }
                }
                done = done.push(seg);
            }
            start = i + 1;
            i += 1;
            assert(v@.subrange(start as int, i as int) =~= Seq::<char>::empty());
        } else {
            proof {
                let parts = done.push(seg);
                assert(seg.push(v@[i as int]) =~= v@.subrange(start as int, i + 1));
                assert(parts.update(parts.len() - 1, parts.last().push(v@[i as int])) =~= done.push(
                    seg.push(v@[i as int]),
                ));
            }
            i += 1;
        }
    }
    let ghost seg = v@.subrange(start as int, i as int);
    assert(v@.subrange(0, i as int) == v@);
    if start < i {
        let f = field_of_range(v.as_slice(), start, i);
        out.push(f);
    }
    proof {
        assert(done.push(seg).drop_last() == done);
        assert(done.push(seg).last() == seg);
        if start < i {
            assert(fields_view(out@) == fields_view(out@.drop_last()).push(out@.last()@));
        }
    }
    out
}

/// Index of the first field named `name`.
pub open spec fn field_index(fs: Seq<(Seq<char>, Seq<char>)>, name: Seq<char>) -> Option<int>
    decreases fs.len(),
{
    if fs.len() == 0 {
        None
    } else if fs[0].0 == name {
        Some(0)
    } else {
        match field_index(fs.drop_first(), name) {
            Some(i) => Some(i + 1),
            None => None,
        }
    }
}

proof fn lemma_field_index_at(fs: Seq<(Seq<char>, Seq<char>)>, name: Seq<char>, k: int)
    requires
        0 <= k <= fs.len(),
        forall|j: int| 0 <= j < k ==> (#[trigger] fs[j]).0 != name,
        k == fs.len() || fs[k].0 == name,
    ensures
        k < fs.len() ==> field_index(fs, name) == Some(k),
        k == fs.len() ==> field_index(fs, name) is None,
    decreases k,
{
    if k > 0 {
        let t = fs.drop_first();
        assert forall|j: int| 0 <= j < k - 1 implies (#[trigger] t[j]).0 != name by {
            assert(t[j] == fs[j + 1]);
        }
        if k < fs.len() {
            assert(t[k - 1] == fs[k]);
        }
        lemma_field_index_at(t, name, k - 1);
    }
}

/// Value of the first field named `name`, or `MissingField(name)`.
pub fn get_field<'a>(fields: &'a [FormField], name: &str) -> (r: Result<&'a str, InputError>)
    ensures
        field_index(fields_view(fields@), name@) matches Some(i) ==> (r matches Ok(v) && v@
            == fields@[i].value@),
        field_index(fields_view(fields@), name@) is None ==> (r matches Err(e)
            && e matches InputError::MissingField(m) && m@ == name@),
{
    let ghost fv = fields_view(fields@);
    let mut i: usize = 0;
    while i < fields.len()
        invariant
            i <= fields.len(),
            fv == fields_view(fields@),
            forall|j: int| 0 <= j < i ==> (#[trigger] fv[j]).0 != name@,
        decreases fields.len() - i,
    {
        assert(fv[i as int] == fields@[i as int]@);
        if str_eq(fields[i].name.as_str(), name) {
            proof {
                lemma_field_index_at(fv, name@, i as int);
            }
            return Ok(fields[i].value.as_str());
        }
        i += 1;
    }
    proof {
        lemma_field_index_at(fv, name@, i as int);
    }
    Err(InputError::MissingField(to_owned_string(name)))
}

/// Parses the form body, then hands its fields to `f`.
pub fn parse_form_into<T, F: FnOnce(&[FormField]) -> Result<T, InputError>>(
    body: &str,
    f: F,
) -> (r: Result<T, InputError>)
    requires
        forall|fs: &[FormField]| fields_view(fs@) == form_fields(body@) ==> call_requires(f, (fs,)),
    ensures
        exists|fs: &[FormField]| fields_view(fs@) == form_fields(body@) && call_ensures(f, (fs,), r),
{
    let fields = parse_form(body);
    f(fields.as_slice())
}

} // verus!

verus! {

/// `serde_json::Value`, held opaquely.
#[verifier::external_type_specification]
#[verifier::external_body]
pub struct ExJsonValue(serde_json::Value);

/// What `serde_json` makes of `body`: `Err` with the parser's message when it
/// is not valid JSON; otherwise the document, with `None` when it is not an
/// object, and `Some(ms)` with each member of a top-level object, in key
/// order, with its text when the member is a JSON string.
pub uninterp spec fn json_reading(body: Seq<char>) -> Result<
    (serde_json::Value, Option<Seq<(Seq<char>, Option<Seq<char>>)>>),
    Seq<char>,
>;

/// Calls `serde_json::from_str::<serde_json::Value>`: on success the value,
/// with the members of a top-level object (key, and the string content when
/// the member is a string); on failure the error's message. The outcome, a
/// function of the text alone, is named `json_reading(body@)`; nothing more is
/// claimed of it.
#[verifier::external_body]
pub(crate) fn read_json(body: &str) -> (r: Result<
    (serde_json::Value, Option<Vec<(String, Option<String>)>>),
    String,
>)
    ensures
        match r {
            Ok((v, ms)) => json_reading(body@) == Ok::<_, Seq<char>>((v, ms.deep_view())),
            Err(m) => json_reading(body@) == Err::<
                (serde_json::Value, Option<Seq<(Seq<char>, Option<Seq<char>>)>>),
                _,
            >(m@),
        },
{
    match serde_json::from_str::<serde_json::Value>(body) {
        Ok(v) => {
            let ms = v.as_object().map(
                |map| map.iter().map(|(k, x)| (k.clone(), x.as_str().map(|s| s.to_string()))).collect(),
            );
            Ok((v, ms))
        },
        Err(e) => Err(e.to_string()),
    }
}

/// Fields from the members of a JSON object: non-string members get an empty value;
/// a document that is not an object gives no fields.
pub open spec fn json_fields(members: Option<Seq<(Seq<char>, Option<Seq<char>>)>>) -> Seq<
    (Seq<char>, Seq<char>),
> {
    match members {
        Some(ms) => ms.map_values(
            |m: (Seq<char>, Option<Seq<char>>)|
                (
                    m.0,
                    match m.1 {
                        Some(t) => t,
                        None => Seq::<char>::empty(),
                    },
                ),
        ),
        None => seq![],
    }
}

/// Turns the members of a top-level JSON value into form fields.
pub fn json_to_fields(members: Option<Vec<(String, Option<String>)>>) -> (r: Vec<FormField>)
    ensures
        fields_view(r@) == json_fields(members.deep_view()),
{
    let mut out: Vec<FormField> = Vec::new();
    match members {
        None => {
            assert(fields_view(out@) =~= json_fields(members.deep_view()));
            out
        },
        Some(ms) => {
            let ghost dv = ms.deep_view();
            let mut i: usize = 0;
            while i < ms.len()
                invariant
                    i <= ms.len(),
                    dv == ms.deep_view(),
                    dv.len() == ms.len(),
                    fields_view(out@) =~= json_fields(Some(dv.subrange(0, i as int))),
                decreases ms.len() - i,
            {
                let name = to_owned_string(ms[i].0.as_str());
                let value = match &ms[i].1 {
                    Some(t) => to_owned_string(t.as_str()),
                    None => String::new(),
                };
                let ghost old_out = out@;
                let ff = FormField { name, value };
                proof {
                    assert(dv[i as int] == ms@[i as int].deep_view());
                    assert(dv[i as int].0 == ff.name@);
                    assert(ff.value@ == match dv[i as int].1 {
                        Some(t) => t,
                        None => Seq::<char>::empty(),
                    });
                }
                out.push(ff);
                proof {
                    assert(fields_view(out@) =~= fields_view(old_out).push(ff@));
                    assert(dv.subrange(0, i + 1) =~= dv.subrange(0, i as int).push(dv[i as int]));
                }
                i += 1;
            }
            assert(dv.subrange(0, ms.len() as int) == dv);
            out
        },
    }
}

/// The fields that `parse_any_into` hands on: those of a JSON object when the
/// body starts with `{` and parses as JSON, otherwise those of the form body.
pub open spec fn any_fields(body: Seq<char>) -> Seq<(Seq<char>, Seq<char>)> {
    if body.len() > 0 && body[0] == '{' && json_reading(body) is Ok {
        json_fields(json_reading(body)->Ok_0.1)
    } else {
        form_fields(body)
    }
}

/// Like `parse_form_into`, but a body that starts with `{` and parses as JSON is
/// read as an object whose members are the fields.
pub fn parse_any_into<T, F: FnOnce(&[FormField]) -> Result<T, InputError>>(
    body: &str,
    f: F,
) -> (r: Result<T, InputError>)
    requires
        forall|fs: &[FormField]| fields_view(fs@) == any_fields(body@) ==> call_requires(f, (fs,)),
    ensures
        exists|fs: &[FormField]| fields_view(fs@) == any_fields(body@) && call_ensures(f, (fs,), r),
{
    let v = str_chars(body);
    if v.len() > 0 && v[0] == '{' {
        match read_json(body) {
            Ok((_, members)) => {
                let fields = json_to_fields(members);
                return f(fields.as_slice());
            },
            Err(_) => {},
        }
    }
    parse_form_into(body, f)
}

} // verus!
