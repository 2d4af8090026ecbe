//! URL helpers: `application/x-www-form-urlencoded` encoding of query values,
//! and the redirect that drops trailing slashes from a request path.
use vstd::prelude::*;
use vstd::utf8::{encode_utf8, is_ascii_chars, is_ascii_chars_encode_utf8};
use crate::input_types::parser::{form_decode, radix16_u8};
use crate::text::{
    concat2, hex_val, opt_str_view, str_chars, trim_end_char, trim_end_char_string,
};

verus! {

/// Bytes that stand for themselves in an encoded value: ASCII letters, digits
/// and `- _ . ~`.
pub open spec fn is_unreserved(b: u8) -> bool {
    ||| (65 <= b && b <= 90)
    ||| (97 <= b && b <= 122)
    ||| (48 <= b && b <= 57)
    ||| b == 45
    ||| b == 95
    ||| b == 46
    ||| b == 126
}

/// Upper-case hexadecimal digit for `n < 16`.
pub open spec fn hex_upper(n: u8) -> char {
    if n < 10 {
        ((48 + n) as u8) as char
    } else {
        ((55 + n) as u8) as char
    }
}

/// The two upper-case hexadecimal digits of a byte.
pub open spec fn hex_pair(b: u8) -> Seq<char> {
    seq![hex_upper(b / 16), hex_upper(b % 16)]
}

/// How one byte is written: unreserved bytes as themselves, a space as `+`,
/// anything else as `%XX`.
pub open spec fn encode_byte(b: u8) -> Seq<char> {
    if is_unreserved(b) {
        seq![(b as u32) as char]
    } else if b == 32 {
        seq!['+']
    } else {
        seq!['%'] + hex_pair(b)
    }
}

/// The encoding of a byte sequence, byte by byte.
pub open spec fn encode_bytes(bs: Seq<u8>) -> Seq<char>
    decreases bs.len(),
{
    if bs.len() == 0 {
        Seq::empty()
    } else {
        encode_byte(bs[0]) + encode_bytes(bs.drop_first())
    }
}

/// The encoding of a string: its UTF-8 bytes, encoded one by one.
pub open spec fn url_encoded(s: Seq<char>) -> Seq<char> {
    encode_bytes(encode_utf8(s))
}

/// Each byte read back as the char with that code.
pub open spec fn byte_chars(bs: Seq<u8>) -> Seq<char> {
    bs.map_values(|b: u8| (b as u32) as char)
}

fn hex_digit_upper(n: u8) -> (c: char)
    requires
        n < 16,
    ensures
        c == hex_upper(n),
{
    if n < 10 {
        (48u8 + n) as char
    } else {
        (55u8 + n) as char
    }
}

/// The two upper-case hexadecimal digits of `byte` (`0x2B` gives `"2B"`).
pub fn hex_encode(byte: u8) -> (r: String)
    ensures
        r@ == hex_pair(byte),
{
    let mut s = String::new();
    s.push(hex_digit_upper(byte / 16));
    s.push(hex_digit_upper(byte % 16));
    s
}

proof fn lemma_encode_bytes_push(bs: Seq<u8>, b: u8)
    ensures
        encode_bytes(bs.push(b)) == encode_bytes(bs) + encode_byte(b),
    decreases bs.len(),
{
    let p = bs.push(b);
    if bs.len() == 0 {
        assert(p.drop_first() =~= Seq::<u8>::empty());
        assert(p[0] == b);
        assert(encode_bytes(p.drop_first()) == Seq::<char>::empty());
        assert(encode_bytes(p) == encode_byte(b) + Seq::<char>::empty());
        assert(encode_byte(b) + Seq::<char>::empty() =~= encode_byte(b));
        assert(encode_bytes(bs) == Seq::<char>::empty());
        assert(Seq::<char>::empty() + encode_byte(b) =~= encode_byte(b));
    } else {
        lemma_encode_bytes_push(bs.drop_first(), b);
        assert(p.drop_first() =~= bs.drop_first().push(b));
        assert(p[0] == bs[0]);
        assert(encode_bytes(p) =~= encode_byte(bs[0]) + (encode_bytes(bs.drop_first())
            + encode_byte(b)));
    }
}

/// Encodes a value for a query string (`application/x-www-form-urlencoded`):
/// each UTF-8 byte that is an ASCII letter, digit or one of `- _ . ~` stays, a
/// space becomes `+`, and every other byte becomes `%` and two upper-case hex
/// digits.
pub fn url_encode(input: &str) -> (r: String)
    ensures
        r@ == url_encoded(input@),
        well_escaped(r@),
        form_decode(r@) == byte_chars(encode_utf8(input@)),
{
    proof {
        lemma_url_encoded_safe(input@);
    }
    let bytes = input.as_bytes();
    let ghost bs = encode_utf8(input@);
    assert(bytes@ == bs);
    let mut result = String::new();
    let mut i: usize = 0;
    while i < bytes.len()
        invariant
            i <= bytes.len(),
            bytes@ == bs,
            result@ == encode_bytes(bs.subrange(0, i as int)),
        decreases bytes.len() - i,
    {
        let byte = bytes[i];
        proof {
            lemma_encode_bytes_push(bs.subrange(0, i as int), byte);
            assert(bs.subrange(0, i + 1) =~= bs.subrange(0, i as int).push(byte));
        }
        if (65 <= byte && byte <= 90) || (97 <= byte && byte <= 122) || (48 <= byte && byte <= 57)
            || byte == 45 || byte == 95 || byte == 46 || byte == 126 {
            result.push(byte as char);
        } else if byte == 32 {
            result.push('+');
        } else {
            result.push('%');
            result.push(hex_digit_upper(byte / 16));
            result.push(hex_digit_upper(byte % 16));
            assert(result@ == encode_bytes(bs.subrange(0, i as int)) + (seq!['%'] + hex_pair(
                byte,
            )));
        }
        i += 1;
    }
    assert(bs.subrange(0, bs.len() as int) =~= bs);
    result
}

proof fn lemma_hex_upper_val(n: u8)
    requires
        n < 16,
    ensures
        hex_val(hex_upper(n)) == Some(n),
        hex_upper(n) != '+',
{
}

/// Decoding one encoded byte followed by more text.
proof fn lemma_decode_encoded_byte(b: u8, rest: Seq<char>)
    ensures
        form_decode(encode_byte(b) + rest) == seq![(b as u32) as char] + form_decode(rest),
{
    let s = encode_byte(b) + rest;
    if is_unreserved(b) {
        assert(s[0] == (b as u32) as char);
        assert(s.drop_first() =~= rest);
    } else if b == 32 {
        assert(s[0] == '+');
        assert(s.drop_first() =~= rest);
    } else {
        lemma_hex_upper_val(b / 16);
        lemma_hex_upper_val(b % 16);
        assert(s[0] == '%');
        let h = s.subrange(1, 3);
        assert(h =~= hex_pair(b));
        assert(s.subrange(3, s.len() as int) =~= rest);
        assert(radix16_u8(h) == Some(b));
    }
}

proof fn lemma_decode_encode_bytes(bs: Seq<u8>)
    ensures
        form_decode(encode_bytes(bs)) == byte_chars(bs),
    decreases bs.len(),
{
    if bs.len() == 0 {
        assert(byte_chars(bs) =~= Seq::<char>::empty());
    } else {
        lemma_decode_encode_bytes(bs.drop_first());
        lemma_decode_encoded_byte(bs[0], encode_bytes(bs.drop_first()));
        assert(byte_chars(bs) =~= seq![(bs[0] as u32) as char] + byte_chars(bs.drop_first()));
    }
}

/// Decoding what `url_encode` wrote gives back its UTF-8 bytes, each as the char
/// with that code; for ASCII text that is the text itself.
pub proof fn lemma_decode_url_encoded(s: Seq<char>)
    ensures
        form_decode(url_encoded(s)) == byte_chars(encode_utf8(s)),
        is_ascii_chars(s) ==> form_decode(url_encoded(s)) == s,
{
    lemma_decode_encode_bytes(encode_utf8(s));
    if is_ascii_chars(s) {
        is_ascii_chars_encode_utf8(s);
        let bs = encode_utf8(s);
        assert forall|i: int| 0 <= i < s.len() implies byte_chars(bs)[i] == s[i] by {
            assert(bs[i] == s[i] as u8);
            assert('\0' <= s[i] <= '\u{7f}');
        }
        assert(byte_chars(bs) =~= s);
    }
}

/// Where a request for `path` (with the query string `query`, if any) is sent
/// when the path ends with `/` and is longer than the root `/`.
pub open spec fn redirect_target(path: Seq<char>, query: Option<Seq<char>>) -> Option<Seq<char>> {
    if path.len() > 1 && path.last() == '/' {
        let base = trim_end_char(path, '/');
        match query {
            Some(q) => Some(base + seq!['?'] + q),
            None => Some(base),
        }
    } else {
        None
    }
}

/// The trailing-slash redirect: for a path longer than `/` that ends with `/`,
/// the location of the permanent redirect, which is the path with every
/// trailing `/` removed, followed by `?` and the query when there is one.
/// Any other path (the root `/` among them) passes through: `None`.
///
/// A path that ends with `/` holds more than one byte exactly when it holds
/// more than one char, so the length test is stated over chars.
pub fn strip_trailing_slash(path: &str, query: Option<&str>) -> (r: Option<String>)
    ensures
        r matches Some(loc) ==> redirect_target(path@, opt_str_view(query)) == Some(loc@),
        r is None ==> redirect_target(path@, opt_str_view(query)) is None,
{
    let v = str_chars(path);
    if v.len() > 1 && v[v.len() - 1] == '/' {
        let mut base = trim_end_char_string(path, '/');
        match query {
            Some(q) => {
                base.push('?');
                let loc = concat2(base.as_str(), q);
                Some(loc)
            },
            None => Some(base),
        }
    } else {
        None
    }
}


/// A char that an encoded value may hold: an ASCII letter or digit, one of
/// `- _ . ~`, `+` (for a space) or `%` (starting an escape).
pub open spec fn is_encoded_char(c: char) -> bool {
    ||| 'A' <= c <= 'Z'
    ||| 'a' <= c <= 'z'
    ||| '0' <= c <= '9'
    ||| c == '-' || c == '_' || c == '.' || c == '~' || c == '+' || c == '%'
}

/// An upper-case hexadecimal digit.
pub open spec fn is_upper_hex_char(c: char) -> bool {
    ('0' <= c <= '9') || ('A' <= c <= 'F')
}

/// `e` is built from the encoded alphabet only, and every `%` in it starts an
/// escape of two upper-case hex digits.
pub open spec fn well_escaped(e: Seq<char>) -> bool {
    &&& forall|i: int| 0 <= i < e.len() ==> is_encoded_char(#[trigger] e[i])
    &&& forall|i: int|
        0 <= i < e.len() && #[trigger] e[i] == '%' ==> i + 2 < e.len() && is_upper_hex_char(e[i + 1])
            && is_upper_hex_char(e[i + 2])
}

proof fn lemma_hex_upper_char(n: u8)
    requires
        n < 16,
    ensures
        is_upper_hex_char(hex_upper(n)),
        hex_upper(n) != '%',
{
}

proof fn lemma_encode_byte_escaped(b: u8)
    ensures
        well_escaped(encode_byte(b)),
{
    let e = encode_byte(b);
    if is_unreserved(b) {
        assert(e[0] == (b as u32) as char);
    } else if b == 32 {
    } else {
        lemma_hex_upper_char(b / 16);
        lemma_hex_upper_char(b % 16);
        assert(e[0] == '%' && e[1] == hex_upper(b / 16) && e[2] == hex_upper(b % 16));
    }
}

proof fn lemma_concat_escaped(a: Seq<char>, b: Seq<char>)
    requires
        well_escaped(a),
        well_escaped(b),
    ensures
        well_escaped(a + b),
{
    let e = a + b;
    assert forall|i: int| 0 <= i < e.len() implies is_encoded_char(#[trigger] e[i]) by {
        if i < a.len() {
            assert(e[i] == a[i]);
        } else {
            assert(e[i] == b[i - a.len()]);
        }
    }
    assert forall|i: int| 0 <= i < e.len() && #[trigger] e[i] == '%' implies i + 2 < e.len()
        && is_upper_hex_char(e[i + 1]) && is_upper_hex_char(e[i + 2]) by {
        if i < a.len() {
            assert(e[i] == a[i]);
            assert(e[i + 1] == a[i + 1] && e[i + 2] == a[i + 2]);
        } else {
            let j = i - a.len();
            assert(e[i] == b[j]);
            assert(e[i + 1] == b[j + 1] && e[i + 2] == b[j + 2]);
        }
    }
}

proof fn lemma_encode_bytes_escaped(bs: Seq<u8>)
    ensures
        well_escaped(encode_bytes(bs)),
    decreases bs.len(),
{
    if bs.len() > 0 {
        lemma_encode_bytes_escaped(bs.drop_first());
        lemma_encode_byte_escaped(bs[0]);
        lemma_concat_escaped(encode_byte(bs[0]), encode_bytes(bs.drop_first()));
    }
}

/// An encoded value is safe in a query string: it holds only ASCII letters,
/// digits, `- _ . ~`, `+` and `%`, and each `%` starts an escape of two
/// upper-case hex digits. So `#`, `&`, `=`, `?`, `/` and any non-ASCII text
/// never appear raw, and, decoded, the value gives back the input's bytes.
pub proof fn lemma_url_encoded_safe(s: Seq<char>)
    ensures
        well_escaped(url_encoded(s)),
        forall|i: int| 0 <= i < url_encoded(s).len() ==> {
            let c = #[trigger] url_encoded(s)[i];
            c != '#' && c != '&' && c != '=' && c != '?' && c != '/' && c != ' '
        },
        form_decode(url_encoded(s)) == byte_chars(encode_utf8(s)),
{
    lemma_encode_bytes_escaped(encode_utf8(s));
    lemma_decode_url_encoded(s);
    let e = url_encoded(s);
    assert forall|i: int| 0 <= i < e.len() implies {
        let c = #[trigger] e[i];
        c != '#' && c != '&' && c != '=' && c != '?' && c != '/' && c != ' '
    } by {
        assert(is_encoded_char(e[i]));
    }
}

/// The characters a query string gives meaning to are always escaped: `#`,
/// `&`, `=`, `?`, `%`, `+` and `/` each become `%` and their two hex digits
/// (`#` is `%23`).
pub proof fn lemma_reserved_bytes_escaped(b: u8)
    requires
        b == 35 || b == 38 || b == 61 || b == 63 || b == 37 || b == 43 || b == 47,
    ensures
        encode_byte(b) == seq!['%', hex_upper(b / 16), hex_upper(b % 16)],
        b == 35 ==> encode_byte(b) == seq!['%', '2', '3'],
{
    assert(seq!['%'] + hex_pair(b) =~= seq!['%', hex_upper(b / 16), hex_upper(b % 16)]);
}

} // verus!
