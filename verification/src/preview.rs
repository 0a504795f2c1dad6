//! The `preview://` protocol's request logic: media URLs for local files
//! (percent-encoded paths), the query parameter they carry back, and the
//! single-range `Range` header parser with its per-response window.

use crate::text::{
    dec, u64_to_dec, chars_of, chars_eq, find_char, first_index_of, lemma_first_index_of, lemma_trim_window,
    parse_unsigned, spec_parse_unsigned, spec_trim, string_of, trim_bounds,
};
use vstd::prelude::*;
use vstd::string::*;
use vstd::utf8::*;

verus! {

/// Prefix of every preview URL (wry's workaround form `{http}://{name}.`).
pub const URL_PREFIX: &'static str = "http://preview.";

/// Upper bound of one response body: a ranged response never spans more,
/// and an un-ranged request for a larger file is refused.
pub const MAX_WINDOW: u64 = 8 * 1024 * 1024;

// ------------------------------------------------------------ percent codec

/// Bytes left as they are in a preview URL: ASCII letters and digits and
/// `- _ . ~ \ :` (paths stay readable; everything else is escaped).
pub open spec fn keep_byte(b: u8) -> bool {
    ||| 48 <= b <= 57
    ||| 65 <= b <= 90
    ||| 97 <= b <= 122
    ||| b == 45 || b == 95 || b == 46 || b == 126 || b == 92 || b == 58
}

/// Upper-case hex digit for `n` in `0..16`.
pub open spec fn hex_char(n: int) -> char {
    if n < 10 {
        (48 + n) as char
    } else {
        (55 + n) as char
    }
}

/// `%XX` for a byte.
pub open spec fn escape(b: u8) -> Seq<char> {
    seq!['%', hex_char(b as int / 16), hex_char(b as int % 16)]
}

/// One byte of input as it appears in the encoded string.
pub open spec fn enc_piece(b: u8) -> Seq<char> {
    if keep_byte(b) {
        seq![b as char]
    } else {
        escape(b)
    }
}

/// Percent-encoding of a byte string with the preview URL's set.
pub open spec fn pct_encode(bs: Seq<u8>) -> Seq<char>
    decreases bs.len(),
{
    if bs.len() == 0 {
        seq![]
    } else {
        enc_piece(bs[0]) + pct_encode(bs.drop_first())
    }
}

/// Value of an ASCII hex digit (either case).
pub open spec fn hex_val(b: u8) -> Option<int> {
    if 48 <= b <= 57 {
        Some(b - 48)
    } else if 97 <= b <= 102 {
        Some(b - 87)
    } else if 65 <= b <= 70 {
        Some(b - 55)
    } else {
        None
    }
}

/// Percent-decoding of bytes: `%` and two hex digits become one byte, any
/// other byte (a lone `%` included) stays.
pub open spec fn pct_decode(bs: Seq<u8>) -> Seq<u8>
    decreases bs.len(),
{
    if bs.len() == 0 {
        seq![]
    } else if bs[0] == 37 && bs.len() >= 3 && hex_val(bs[1]) is Some && hex_val(bs[2]) is Some {
        seq![(hex_val(bs[1])->0 * 16 + hex_val(bs[2])->0) as u8] + pct_decode(
            bs.subrange(3, bs.len() as int),
        )
    } else {
        seq![bs[0]] + pct_decode(bs.drop_first())
    }
}

/// `percent_encoding::percent_encode_byte` gives `%XX` with upper-case hex.
pub assume_specification[ percent_encoding::percent_encode_byte ](byte: u8) -> (r: &'static str)
    ensures
        r@ == escape(byte),
;

/// What `percent_decode` returns for `encoded`.
pub uninterp spec fn percent_decoded(encoded: Seq<char>) -> Seq<char>;

/// Percent-decodes `encoded` and reads the bytes as UTF-8, replacing
/// malformed sequences (`percent_encoding::percent_decode_str` then
/// `decode_utf8_lossy`). The contract gives the result exactly when the
/// decoded bytes are valid UTF-8; where they are not, it only names it.
#[verifier::external_body]
pub fn percent_decode(encoded: &str) -> (r: String)
    ensures
        r@ == percent_decoded(encoded@),
        valid_utf8(pct_decode(encoded.spec_bytes())) ==> r@ == decode_utf8(
            pct_decode(encoded.spec_bytes()),
        ),
{
    percent_encoding::percent_decode_str(encoded).decode_utf8_lossy().into_owned()
}

proof fn lemma_pct_encode_push(a: Seq<u8>, b: u8)
    ensures
        pct_encode(a.push(b)) == pct_encode(a) + enc_piece(b),
    decreases a.len(),
{
    if a.len() == 0 {
        assert(a.push(b).drop_first() =~= Seq::<u8>::empty());
        assert(pct_encode(Seq::<u8>::empty()) =~= seq![]);
        assert(pct_encode(a.push(b)) =~= enc_piece(b));
    } else {
        assert(a.push(b).drop_first() =~= a.drop_first().push(b));
        lemma_pct_encode_push(a.drop_first(), b);
        assert(pct_encode(a.push(b)) =~= enc_piece(a[0]) + (pct_encode(a.drop_first()) + enc_piece(b)));
    }
}

/// Percent-encodes `raw`'s UTF-8 bytes with the preview URL's set.
pub fn percent_encode(raw: &str) -> (r: String)
    ensures
        r@ == pct_encode(raw.spec_bytes()),
{
    let bytes = raw.as_bytes();
    let mut r = String::new();
    let mut i: usize = 0;
    while i < bytes.len()
        invariant
            i <= bytes@.len(),
            r@ == pct_encode(bytes@.subrange(0, i as int)),
        decreases bytes@.len() - i,
    {
        let b = bytes[i];
        let keep = (48 <= b && b <= 57) || (65 <= b && b <= 90) || (97 <= b && b <= 122) || b == 45
            || b == 95 || b == 46 || b == 126 || b == 92 || b == 58;
        if keep {
            r.push(b as char);
        } else {
            r.append(percent_encoding::percent_encode_byte(b));
        }
        proof {
            assert(bytes@.subrange(0, i + 1) =~= bytes@.subrange(0, i as int).push(b));
            lemma_pct_encode_push(bytes@.subrange(0, i as int), b);
        }
        i = i + 1;
    }
    assert(bytes@.subrange(0, bytes@.len() as int) =~= bytes@);
    r
}

/// A character a preview URL's path value shows as itself: an ASCII letter
/// or digit, `-`, `_`, `.`, `~`, `\` or `:`.
pub open spec fn url_plain_char(c: char) -> bool {
    ('a' <= c && c <= 'z') || ('A' <= c && c <= 'Z') || ('0' <= c && c <= '9') || c == '-' || c
        == '_' || c == '.' || c == '~' || c == '\\' || c == ':'
}

/// An upper-case hex digit.
pub open spec fn upper_hex_char(c: char) -> bool {
    ('0' <= c && c <= '9') || ('A' <= c && c <= 'F')
}

/// Each byte of a path either shows as itself, when it is an ASCII letter
/// or digit or one of `- _ . ~ \ :`, or becomes `%` and two upper-case hex
/// digits that spell its value.
pub proof fn each_byte_is_kept_or_escaped(b: u8)
    ensures
        url_plain_char(b as char) ==> enc_piece(b) == seq![b as char],
        !url_plain_char(b as char) ==> {
            let p = enc_piece(b);
            &&& p.len() == 3
            &&& p[0] == '%'
            &&& upper_hex_char(p[1]) && upper_hex_char(p[2])
            &&& hex_val(p[1] as u8) matches Some(hi) && hex_val(p[2] as u8) matches Some(lo) && hi * 16
                + lo == b
        },
{
    lemma_hex_char(b as int / 16);
    lemma_hex_char(b as int % 16);
}

/// The encoded path holds no URL delimiter (`#`, `?`, `&`, `=`, `/`, `+`,
/// space, quote, ...): every character is one a URL value shows as itself,
/// or the `%` of an escape.
pub proof fn encoded_paths_hold_no_delimiter(bs: Seq<u8>)
    ensures
        forall|i: int|
            0 <= i < pct_encode(bs).len() ==> url_plain_char(#[trigger] pct_encode(bs)[i])
                || pct_encode(bs)[i] == '%',
    decreases bs.len(),
{
    if bs.len() > 0 {
        encoded_paths_hold_no_delimiter(bs.drop_first());
        let b = bs[0];
        each_byte_is_kept_or_escaped(b);
        let p = enc_piece(b);
        let rest = pct_encode(bs.drop_first());
        assert(pct_encode(bs) == p + rest);
        assert forall|i: int| 0 <= i < (p + rest).len() implies url_plain_char(#[trigger] (p + rest)[i])
            || (p + rest)[i] == '%' by {
            if i < p.len() {
                assert((p + rest)[i] == p[i]);
            } else {
                assert((p + rest)[i] == rest[i - p.len()]);
            }
        }
    }
}

/// Every encoded character is ASCII, so its UTF-8 bytes are the characters.
pub open spec fn ascii_bytes(cs: Seq<char>) -> Seq<u8> {
    cs.map_values(|c: char| c as u8)
}

proof fn lemma_hex_char(n: int)
    requires
        0 <= n < 16,
    ensures
        '\0' <= hex_char(n) <= '\u{7f}',
        hex_val(hex_char(n) as u8) == Some(n),
{
}

proof fn lemma_pct_encode_ascii(bs: Seq<u8>)
    ensures
        is_ascii_chars(pct_encode(bs)),
    decreases bs.len(),
{
    if bs.len() > 0 {
        lemma_pct_encode_ascii(bs.drop_first());
        let b = bs[0];
        lemma_hex_char(b as int / 16);
        lemma_hex_char(b as int % 16);
        let p = enc_piece(b);
        let rest = pct_encode(bs.drop_first());
        assert forall|i: int| 0 <= i < (p + rest).len() implies '\0' <= #[trigger] (p + rest)[i]
            <= '\u{7f}' by {
            if i >= p.len() {
                assert((p + rest)[i] == rest[i - p.len()]);
            }
        }
    }
}

proof fn lemma_decode_encode_bytes(bs: Seq<u8>)
    ensures
        pct_decode(ascii_bytes(pct_encode(bs))) == bs,
    decreases bs.len(),
{
    if bs.len() > 0 {
        let b = bs[0];
        let rest = bs.drop_first();
        lemma_decode_encode_bytes(rest);
        let pe = pct_encode(bs);
        let tail = ascii_bytes(pct_encode(rest));
        lemma_hex_char(b as int / 16);
        lemma_hex_char(b as int % 16);
        if keep_byte(b) {
            assert(ascii_bytes(pe) =~= seq![b] + tail);
            assert((seq![b] + tail).drop_first() =~= tail);
            assert(pct_decode(seq![b] + tail) =~= seq![b] + pct_decode(tail));
        } else {
            let hi = hex_char(b as int / 16) as u8;
            let lo = hex_char(b as int % 16) as u8;
            assert(ascii_bytes(pe) =~= seq![37u8, hi, lo] + tail);
            let whole = seq![37u8, hi, lo] + tail;
            assert(whole.subrange(3, whole.len() as int) =~= tail);
            assert((b as int / 16) * 16 + (b as int % 16) == b);
            assert(pct_decode(whole) =~= seq![b] + pct_decode(tail));
        }
        assert(seq![b] + rest =~= bs);
    }
}

/// Decoding an encoded string gives back the original string.
pub proof fn lemma_percent_roundtrip(s: Seq<char>)
    ensures
        valid_utf8(pct_decode(encode_utf8(pct_encode(encode_utf8(s))))),
        decode_utf8(pct_decode(encode_utf8(pct_encode(encode_utf8(s))))) == s,
{
    let enc = pct_encode(encode_utf8(s));
    lemma_pct_encode_ascii(encode_utf8(s));
    is_ascii_chars_encode_utf8(enc);
    assert(encode_utf8(enc) =~= ascii_bytes(enc));
    lemma_decode_encode_bytes(encode_utf8(s));
    encode_utf8_valid_utf8(s);
    encode_utf8_decode_utf8(s);
}

/// Decoding what [`percent_encode`] produced gives back the original
/// string, whatever it holds (the preview URL round-trips any path).
pub proof fn percent_roundtrip(raw: &str, encoded: &str)
    requires
        encoded@ == pct_encode(raw.spec_bytes()),
    ensures
        valid_utf8(pct_decode(encoded.spec_bytes())),
        decode_utf8(pct_decode(encoded.spec_bytes())) == raw@,
{
    lemma_percent_roundtrip(raw@);
}

// ------------------------------------------------------------ URLs

/// Preview URL of a local file.
pub open spec fn spec_media_url(path: &str) -> Seq<char> {
    URL_PREFIX@ + "media?p="@ + pct_encode(path.spec_bytes())
}

/// Preview URL of a local file: the path travels percent-encoded in `p`.
pub fn media_url(path: &str) -> (r: String)
    ensures
        r@ == spec_media_url(path),
{
    let mut r = String::from_str(URL_PREFIX);
    r.append("media?p=");
    let enc = percent_encode(path);
    r.append(enc.as_str());
    r
}

/// Value of the first `key=value` pair of `q[i..]` (pairs split on `&`,
/// key and value on the pair's first `=`), still encoded.
pub open spec fn query_lookup(q: Seq<char>, key: Seq<char>, i: int) -> Option<Seq<char>>
    decreases q.len() - i,
{
    if i < 0 || i > q.len() {
        None
    } else {
        let end = match first_index_of(q, '&', i, q.len() as int) {
            Some(e) => e,
            None => q.len() as int,
        };
        let found = match first_index_of(q, '=', i, end) {
            Some(j) => if q.subrange(i, j) == key {
                Some(q.subrange(j + 1, end))
            } else {
                None
            },
            None => None,
        };
        if found is Some {
            found
        } else if end >= q.len() || end < i {
            None
        } else {
            query_lookup(q, key, end + 1)
        }
    }
}

/// The decoded value of query parameter `key`.
pub open spec fn spec_query_param(query: Option<Seq<char>>, key: Seq<char>) -> Option<Seq<char>> {
    match query {
        None => None,
        Some(q) => match query_lookup(q, key, 0) {
            Some(v) => Some(percent_decoded(v)),
            None => None,
        },
    }
}

/// The decoded value of the first `key=value` pair of the query.
pub fn query_param(query: Option<&str>, key: &str) -> (r: Option<String>)
    ensures
        match spec_query_param(
            match query {
                Some(q) => Some(q@),
                None => None::<Seq<char>>,
            },
            key@,
        ) {
            Some(v) => r matches Some(x) && x@ == v,
            None => r is None,
        },
{
    let q = match query {
        Some(q) => q,
        None => return None,
    };
    let cs = chars_of(q);
    let kcs = chars_of(key);
    let n = cs.len();
    let mut i: usize = 0;
    while i <= n
        invariant
            n == cs@.len(),
            query == Some(q),
            cs@ == q@,
            kcs@ == key@,
            i <= n + 1,
            i <= n ==> query_lookup(cs@, kcs@, 0) == query_lookup(cs@, kcs@, i as int),
            i > n ==> query_lookup(cs@, kcs@, 0) is None,
        decreases n + 1 - i,
    {
        proof {
            lemma_first_index_of(cs@, '&', i as int, n as int);
        }
        let end = match find_char(&cs, '&', i, n) {
            Some(e) => e,
            None => n,
        };
        proof {
            lemma_first_index_of(cs@, '=', i as int, end as int);
        }
        match find_char(&cs, '=', i, end) {
            Some(j) => {
                if same_chars(&cs, i, j, &kcs) {
                    let v = string_of(&cs, j + 1, end);
                    assert(query_lookup(cs@, kcs@, i as int) == Some(cs@.subrange(j + 1, end as int)));
                    let out = percent_decode(v.as_str());
                    assert(query == Some(q));
                    assert(spec_query_param(Some(q@), key@) == Some(percent_decoded(v@)));
                    return Some(out);
                }
            },
            None => {},
        }
        assert(query_lookup(cs@, kcs@, i as int) == (if end >= n {
            None
        } else {
            query_lookup(cs@, kcs@, end + 1)
        }));
        if end >= n {
            return None;
        }
        i = end + 1;
    }
    None
}

/// `cs[a..b] == other`.
fn same_chars(cs: &Vec<char>, a: usize, b: usize, other: &Vec<char>) -> (r: bool)
    requires
        a <= b <= cs@.len(),
    ensures
        r == (cs@.subrange(a as int, b as int) == other@),
{
    if b - a != other.len() {
        assert(cs@.subrange(a as int, b as int).len() != other@.len());
        return false;
    }
    let mut k: usize = 0;
    while k < other.len()
        invariant
            b - a == other@.len(),
            a <= b <= cs@.len(),
            k <= other@.len(),
            forall|j: int| 0 <= j < k ==> cs@[a + j] == other@[j],
        decreases other@.len() - k,
    {
        if cs[a + k] != other[k] {
            assert(cs@.subrange(a as int, b as int)[k as int] != other@[k as int]);
            return false;
        }
        k = k + 1;
    }
    assert(cs@.subrange(a as int, b as int) =~= other@);
    true
}

proof fn lemma_pct_encode_no_amp(bs: Seq<u8>)
    ensures
        forall|i: int| 0 <= i < pct_encode(bs).len() ==> #[trigger] pct_encode(bs)[i] != '&',
    decreases bs.len(),
{
    if bs.len() > 0 {
        lemma_pct_encode_no_amp(bs.drop_first());
        let b = bs[0];
        let p = enc_piece(b);
        let rest = pct_encode(bs.drop_first());
        assert(pct_encode(bs) == p + rest);
        assert forall|i: int| 0 <= i < (p + rest).len() implies #[trigger] (p + rest)[i] != '&' by {
            if i >= p.len() {
                assert((p + rest)[i] == rest[i - p.len()]);
            } else if keep_byte(b) {
                assert(p[i] == b as char);
            } else {
                assert(p == escape(b));
            }
        }
    }
}

/// A preview URL carries its path back: the `p` parameter of the URL's
/// query is the encoded path, and decoding it (as the protocol's handler
/// does) gives exactly the path, whatever characters it holds.
pub proof fn preview_url_carries_the_path(path: &str)
    ensures
        ({
            let encoded = pct_encode(path.spec_bytes());
            &&& spec_media_url(path) == URL_PREFIX@ + "media?"@ + ("p="@ + encoded)
            &&& query_lookup("p="@ + encoded, "p"@, 0) == Some(encoded)
            &&& valid_utf8(pct_decode(encode_utf8(encoded)))
            &&& decode_utf8(pct_decode(encode_utf8(encoded))) == path@
        }),
{
    let encoded = pct_encode(path.spec_bytes());
    reveal_strlit("media?p=");
    reveal_strlit("media?");
    reveal_strlit("p=");
    reveal_strlit("p");
    assert("media?p="@ + encoded =~= "media?"@ + ("p="@ + encoded));
    let q = "p="@ + encoded;
    lemma_pct_encode_no_amp(path.spec_bytes());
    lemma_first_index_of(q, '&', 0, q.len() as int);
    assert forall|j: int| 0 <= j < q.len() implies q[j] != '&' by {
        if j >= 2 {
            assert(q[j] == encoded[j - 2]);
        }
    }
    assert(first_index_of(q, '&', 0, q.len() as int) is None);
    assert(first_index_of(q, '=', 1, q.len() as int) == Some(1int));
    assert(first_index_of(q, '=', 0, q.len() as int) == Some(1int));
    assert(q.subrange(0, 1) =~= "p"@);
    assert(q.subrange(2, q.len() as int) =~= encoded);
    lemma_percent_roundtrip(path@);
    let enc2 = pct_encode(encode_utf8(path@));
    assert(path.spec_bytes() == encode_utf8(path@));
}

// ------------------------------------------------------------ Range header

pub open spec fn min(a: int, b: int) -> int {
    if a <= b {
        a
    } else {
        b
    }
}

/// The single-range `Range: bytes=start-end` / `bytes=start-` a header asks
/// for, clipped to the file and to one response window. Absent, malformed,
/// suffix (`bytes=-N`), multi-range, reversed and out-of-file requests have
/// none.
pub open spec fn spec_parse_range(header: Option<Seq<char>>, total: nat) -> Option<(nat, nat)> {
    match header {
        None => None,
        Some(h) => if h.len() < 6 || h.subrange(0, 6) != "bytes="@ {
            None
        } else if first_index_of(h, ',', 6, h.len() as int) is Some {
            None
        } else {
            match first_index_of(h, '-', 6, h.len() as int) {
                None => None,
                Some(d) => match spec_parse_unsigned(spec_trim(h.subrange(6, d))) {
                    None => None,
                    Some(start) => if start > u64::MAX || start >= total {
                        None
                    } else {
                        let last = total - 1;
                        let asked = match spec_parse_unsigned(
                            spec_trim(h.subrange(d + 1, h.len() as int)),
                        ) {
                            Some(e) => if e <= u64::MAX {
                                min(e as int, last)
                            } else {
                                last
                            },
                            None => last,
                        };
                        let cap = min(start + MAX_WINDOW - 1, u64::MAX as int);
                        let end = min(asked, cap);
                        if end < start {
                            None
                        } else {
                            Some((start, end as nat))
                        }
                    },
                },
            }
        },
    }
}

/// Parses a single-range `Range` header against a file of `total` bytes.
pub fn parse_range(header: Option<&str>, total: u64) -> (r: Option<(u64, u64)>)
    ensures
        match spec_parse_range(
            match header {
                Some(h) => Some(h@),
                None => None::<Seq<char>>,
            },
            total as nat,
        ) {
            Some((s, e)) => r == Some((s as u64, e as u64)),
            None => r is None,
        },
        r matches Some((s, e)) ==> s <= e < total && e - s < MAX_WINDOW,
{
    let h = match header {
        Some(h) => h,
        None => return None,
    };
    let cs = chars_of(h);
    let n = cs.len();
    if n < 6 || !chars_eq(&cs, 0, 6, "bytes=") {
        return None;
    }
    proof {
        lemma_first_index_of(cs@, ',', 6, n as int);
        lemma_first_index_of(cs@, '-', 6, n as int);
    }
    if find_char(&cs, ',', 6, n).is_some() {
        return None;
    }
    let d = match find_char(&cs, '-', 6, n) {
        Some(d) => d,
        None => return None,
    };
    let (a, b) = trim_bounds(&cs, 6, d);
    proof {
        lemma_trim_window(cs@, 6, d as int);
    }
    let start = match parse_unsigned(&cs, a, b, u64::MAX) {
        Some(v) => v,
        None => return None,
    };
    if start >= total {
        return None;
    }
    let (a2, b2) = trim_bounds(&cs, d + 1, n);
    proof {
        lemma_trim_window(cs@, d + 1, n as int);
    }
    let asked = match parse_unsigned(&cs, a2, b2, u64::MAX) {
        Some(e) => if e < total - 1 {
            e
        } else {
            total - 1
        },
        None => total - 1,
    };
    let cap = start.saturating_add(MAX_WINDOW - 1);
    let end = if asked < cap {
        asked
    } else {
        cap
    };
    if end < start {
        return None;
    }
    Some((start, end))
}

/// How the protocol answers a request for an existing file of known MIME type.
#[derive(Debug, Clone, Copy, PartialEq, Eq, Structural)]
pub enum ResponsePlan {
    /// 206 with bytes `start..=end` and `Content-Range: bytes start-end/total`.
    Partial { start: u64, end: u64 },
    /// 416 with `Content-Range: bytes */total`.
    RangeNotSatisfiable,
    /// 413: no range, and the whole file exceeds one response window.
    TooLarge,
    /// 200 with the whole file.
    Full,
}

/// The response for a file of `total` bytes. `range` is the request's
/// `Range` header: absent, present but not text (`Some(None)`), or text.
pub fn plan_response(range: Option<Option<&str>>, total: u64) -> (r: ResponsePlan)
    ensures
        match range {
            Some(header) => match spec_parse_range(
                match header {
                    Some(h) => Some(h@),
                    None => None::<Seq<char>>,
                },
                total as nat,
            ) {
                Some((s, e)) => r == ResponsePlan::Partial { start: s as u64, end: e as u64 },
                None => r == ResponsePlan::RangeNotSatisfiable,
            },
            None => r == (if total > MAX_WINDOW {
                ResponsePlan::TooLarge
            } else {
                ResponsePlan::Full
            }),
        },
{
    match range {
        Some(header) => match parse_range(header, total) {
            Some((start, end)) => ResponsePlan::Partial { start, end },
            None => ResponsePlan::RangeNotSatisfiable,
        },
        None => if total > MAX_WINDOW {
            ResponsePlan::TooLarge
        } else {
            ResponsePlan::Full
        },
    }
}

/// The `Content-Range` of a partial response: `bytes start-end/total`.
pub fn content_range(start: u64, end: u64, total: u64) -> (r: String)
    ensures
        r@ == "bytes "@ + dec(start as nat) + "-"@ + dec(end as nat) + "/"@ + dec(total as nat),
{
    let mut r = String::from_str("bytes ");
    let a = u64_to_dec(start);
    r.append(a.as_str());
    r.append("-");
    let b = u64_to_dec(end);
    r.append(b.as_str());
    r.append("/");
    let c = u64_to_dec(total);
    r.append(c.as_str());
    r
}

/// The `Content-Range` of a 416 answer: `bytes */total`.
pub fn unsatisfiable_range(total: u64) -> (r: String)
    ensures
        r@ == "bytes */"@ + dec(total as nat),
{
    let mut r = String::from_str("bytes */");
    let c = u64_to_dec(total);
    r.append(c.as_str());
    r
}

// ------------------------------------------------------------ data URLs

/// The standard base64 alphabet: `A`-`Z`, `a`-`z`, `0`-`9`, `+`, `/`.
pub open spec fn b64_char(n: int) -> char {
    if n < 26 {
        (65 + n) as char
    } else if n < 52 {
        (71 + n) as char
    } else if n < 62 {
        (n - 4) as char
    } else if n == 62 {
        '+'
    } else {
        '/'
    }
}

/// Standard base64 with `=` padding: each group of three bytes becomes four
/// alphabet characters (six bits each, high bits first); a final group of
/// one or two bytes is zero-filled and padded with `=` to four.
pub open spec fn base64_standard(data: Seq<u8>) -> Seq<char>
    decreases data.len(),
{
    if data.len() == 0 {
        seq![]
    } else if data.len() == 1 {
        let a = data[0] as int;
        seq![b64_char(a / 4), b64_char((a % 4) * 16), '=', '=']
    } else if data.len() == 2 {
        let a = data[0] as int;
        let b = data[1] as int;
        seq![b64_char(a / 4), b64_char((a % 4) * 16 + b / 16), b64_char((b % 16) * 4), '=']
    } else {
        let a = data[0] as int;
        let b = data[1] as int;
        let c = data[2] as int;
        seq![
            b64_char(a / 4),
            b64_char((a % 4) * 16 + b / 16),
            b64_char((b % 16) * 4 + c / 64),
            b64_char(c % 64),
        ] + base64_standard(data.subrange(3, data.len() as int))
    }
}

/// The length of the padded base64 text of `n` bytes: four characters per
/// started group of three.
pub open spec fn padded_base64_len(n: nat) -> nat {
    4 * ((n + 2) / 3)
}

proof fn lemma_base64_len(data: Seq<u8>)
    ensures
        base64_standard(data).len() == padded_base64_len(data.len()),
    decreases data.len(),
{
    if data.len() >= 3 {
        lemma_base64_len(data.subrange(3, data.len() as int));
    }
}

/// `base64::engine::general_purpose::STANDARD.encode`: standard alphabet,
/// `=` padding. It panics only when the padded length overflows `usize`,
/// which `requires` rules out.
#[verifier::external_body]
fn encode_base64(data: &[u8]) -> (r: String)
    requires
        padded_base64_len(data@.len()) <= usize::MAX,
    ensures
        r@ == base64_standard(data@),
{
    base64::Engine::encode(&base64::engine::general_purpose::STANDARD, data)
}

/// `data:<mime>;base64,<payload>`.
pub open spec fn spec_data_url(mime: Seq<char>, payload: Seq<char>) -> Seq<char> {
    "data:"@ + mime + ";base64,"@ + payload
}

/// A data URL from a MIME type and an already encoded payload.
pub fn data_url_of(mime: &str, payload: &str) -> (r: String)
    ensures
        r@ == spec_data_url(mime@, payload@),
{
    let mut r = String::from_str("data:");
    r.append(mime);
    r.append(";base64,");
    r.append(payload);
    r
}

/// An in-memory output as a base64 data URL (outputs are small stickers,
/// so this is cheap).
pub fn data_url(mime: &str, bytes: &[u8]) -> (r: String)
    requires
        padded_base64_len(bytes@.len()) <= usize::MAX,
    ensures
        r@ == spec_data_url(mime@, base64_standard(bytes@)),
        r@.len() == "data:"@.len() + mime@.len() + ";base64,"@.len() + padded_base64_len(bytes@.len()),
{
    let payload = encode_base64(bytes);
    proof {
        lemma_base64_len(bytes@);
    }
    data_url_of(mime, payload.as_str())
}

} // verus!
