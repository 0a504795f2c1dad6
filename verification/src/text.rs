//! Character-level building blocks shared by the parsers and formatters:
//! decimal numbers, Unicode whitespace trimming, ASCII case folding and
//! the library's model of file paths.

use vstd::prelude::*;
use vstd::string::*;

verus! {

/// `String::push` appends one character.
pub assume_specification[ String::push ](string: &mut String, ch: char)
    ensures
        final(string)@ == old(string)@.push(ch),
;

/// The view of an optional string.
pub open spec fn opt_view(o: Option<String>) -> Option<Seq<char>> {
    match o {
        Some(s) => Some(s@),
        None => None,
    }
}

/// The characters of `s`, in order.
pub fn chars_of(s: &str) -> (r: Vec<char>)
    ensures
        r@ == s@,
{
    let n = s.unicode_len();
    let mut v: Vec<char> = Vec::new();
    let mut i: usize = 0;
    while i < n
        invariant
            n == s@.len(),
            i <= n,
            v@ == s@.subrange(0, i as int),
        decreases n - i,
    {
        let c = s.get_char(i);
        v.push(c);
        i = i + 1;
        assert(v@ =~= s@.subrange(0, i as int));
    }
    assert(v@ =~= s@);
    v
}

/// A string holding exactly the characters `cs[from..to]`.
pub fn string_of(cs: &Vec<char>, from: usize, to: usize) -> (r: String)
    requires
        from <= to <= cs@.len(),
    ensures
        r@ == cs@.subrange(from as int, to as int),
{
    let mut r = String::new();
    let mut i = from;
    while i < to
        invariant
            from <= i <= to <= cs@.len(),
            r@ == cs@.subrange(from as int, i as int),
        decreases to - i,
    {
        r.push(cs[i]);
        i = i + 1;
        assert(r@ =~= cs@.subrange(from as int, i as int));
    }
    r
}

/// Appends `cs[from..to]` to `r`.
pub fn push_all(r: &mut String, cs: &Vec<char>)
    ensures
        final(r)@ == old(r)@ + cs@,
{
    let ghost start = r@;
    let mut i: usize = 0;
    while i < cs.len()
        invariant
            i <= cs@.len(),
            r@ == start + cs@.subrange(0, i as int),
        decreases cs@.len() - i,
    {
        r.push(cs[i]);
        i = i + 1;
        assert(r@ =~= start + cs@.subrange(0, i as int));
    }
    assert(cs@.subrange(0, cs@.len() as int) =~= cs@);
}

// ---------------------------------------------------------------- decimal

/// The ASCII digit for `d` (0..=9).
pub open spec fn digit_char(d: int) -> char {
    (48 + d) as char
}

/// `c` is an ASCII decimal digit.
pub open spec fn is_digit(c: char) -> bool {
    '0' <= c && c <= '9'
}

/// The value of an ASCII digit.
pub open spec fn digit_value(c: char) -> int {
    c as int - 48
}

/// Shortest decimal spelling of `n`.
pub open spec fn dec(n: nat) -> Seq<char>
    decreases n,
{
    if n < 10 {
        seq![digit_char(n as int)]
    } else {
        dec(n / 10).push(digit_char((n % 10) as int))
    }
}

/// Decimal spelling of `n`.
pub fn u64_to_dec(n: u64) -> (r: String)
    ensures
        r@ == dec(n as nat),
    decreases n,
{
    if n < 10 {
        let mut r = String::new();
        let c = (48u8 + n as u8) as char;
        r.push(c);
        assert(r@ =~= dec(n as nat));
        r
    } else {
        let mut r = u64_to_dec(n / 10);
        let c = (48u8 + (n % 10) as u8) as char;
        r.push(c);
        r
    }
}

/// The value of a string of decimal digits.
pub open spec fn digits_value(s: Seq<char>) -> nat
    decreases s.len(),
{
    if s.len() == 0 {
        0
    } else {
        (digits_value(s.drop_last()) * 10 + digit_value(s.last())) as nat
    }
}

/// All characters are ASCII digits.
pub open spec fn all_digits(s: Seq<char>) -> bool {
    forall|i: int| 0 <= i < s.len() ==> #[trigger] is_digit(s[i])
}

/// The unsigned decimal number `s` spells, as `FromStr` for unsigned
/// integers reads it: one optional leading `+`, then at least one ASCII
/// digit and nothing else.
pub open spec fn spec_parse_unsigned(s: Seq<char>) -> Option<nat> {
    let body = if s.len() > 0 && s[0] == '+' { s.drop_first() } else { s };
    if body.len() > 0 && all_digits(body) {
        Some(digits_value(body))
    } else {
        None
    }
}

proof fn lemma_digits_value_push(s: Seq<char>, c: char)
    ensures
        digits_value(s.push(c)) == digits_value(s) * 10 + digit_value(c) || !is_digit(c),
{
    assert(s.push(c).drop_last() =~= s);
}

/// `cs[from..to]` read as an unsigned decimal at most `max`.
pub fn parse_unsigned(cs: &Vec<char>, from: usize, to: usize, max: u64) -> (r: Option<u64>)
    requires
        from <= to <= cs@.len(),
    ensures
        r == (match spec_parse_unsigned(cs@.subrange(from as int, to as int)) {
            Some(v) => if v <= max { Some(v as u64) } else { None::<u64> },
            None => None::<u64>,
        }),
{
    let ghost s = cs@.subrange(from as int, to as int);
    let mut i = from;
    if i < to && cs[i] == '+' {
        i = i + 1;
    }
    let ghost body = cs@.subrange(i as int, to as int);
    assert(body =~= (if s.len() > 0 && s[0] == '+' { s.drop_first() } else { s }));
    if i == to {
        return None;
    }
    let start = i;
    let mut acc: u64 = 0;
    let mut over = false;
    while i < to
        invariant
            start <= i <= to <= cs@.len(),
            from <= start,
            s == cs@.subrange(from as int, to as int),
            body == (if s.len() > 0 && s[0] == '+' { s.drop_first() } else { s }),
            body == cs@.subrange(start as int, to as int),
            all_digits(cs@.subrange(start as int, i as int)),
            !over ==> acc as nat == digits_value(cs@.subrange(start as int, i as int)),
            !over ==> acc <= max,
            over ==> digits_value(cs@.subrange(start as int, i as int)) > max,
        decreases to - i,
    {
        let c = cs[i];
        if !('0' <= c && c <= '9') {
            assert(!all_digits(body)) by {
                assert(body[i - start] == c);
                assert(!is_digit(body[i - start]));
            }
            return None;
        }
        let d = (c as u32 - 48) as u64;
        let ghost prev = cs@.subrange(start as int, i as int);
        let ghost next = cs@.subrange(start as int, i + 1);
        assert(next =~= prev.push(c));
        assert(next.drop_last() =~= prev);
        proof {
            lemma_digits_value_push(prev, c);
        }
        if !over {
            if acc > max / 10 || (acc == max / 10 && d > max % 10) {
                over = true;
                assert(digits_value(next) > max) by (nonlinear_arith)
                    requires
                        digits_value(next) == acc * 10 + d,
                        acc > max / 10 || (acc == max / 10 && d > max % 10),
                        max == (max / 10) * 10 + max % 10,
                {
                }
            } else {
                assert(acc * 10 + d <= max) by (nonlinear_arith)
                    requires
                        !(acc > max / 10 || (acc == max / 10 && d > max % 10)),
                        max == (max / 10) * 10 + max % 10,
                        d <= 9,
                        max % 10 <= 9,
                {
                }
                acc = acc * 10 + d;
            }
        } else {
            assert(digits_value(next) > max) by (nonlinear_arith)
                requires
                    digits_value(next) == digits_value(prev) * 10 + d,
                    digits_value(prev) > max,
            {
            }
        }
        i = i + 1;
        assert(all_digits(cs@.subrange(start as int, i as int))) by {
            assert forall|k: int| 0 <= k < next.len() implies #[trigger] is_digit(next[k]) by {
                if k < prev.len() {
                    assert(next[k] == prev[k]);
                }
            }
        }
    }
    if over {
        None
    } else {
        Some(acc)
    }
}

// ---------------------------------------------------------------- whitespace

/// The Unicode `White_Space` property, which `str::trim` strips.
pub open spec fn is_whitespace(c: char) -> bool {
    ||| '\u{9}' <= c && c <= '\u{d}'
    ||| c == ' '
    ||| c == '\u{85}'
    ||| c == '\u{a0}'
    ||| c == '\u{1680}'
    ||| '\u{2000}' <= c && c <= '\u{200a}'
    ||| c == '\u{2028}'
    ||| c == '\u{2029}'
    ||| c == '\u{202f}'
    ||| c == '\u{205f}'
    ||| c == '\u{3000}'
}

pub fn is_whitespace_char(c: char) -> (r: bool)
    ensures
        r == is_whitespace(c),
{
    ('\u{9}' <= c && c <= '\u{d}') || c == ' ' || c == '\u{85}' || c == '\u{a0}' || c == '\u{1680}'
        || ('\u{2000}' <= c && c <= '\u{200a}') || c == '\u{2028}' || c == '\u{2029}' || c
        == '\u{202f}' || c == '\u{205f}' || c == '\u{3000}'
}

/// Index of the first non-whitespace character of `s[from..to]` (or `to`).
pub open spec fn trim_start_at(s: Seq<char>, from: int, to: int) -> int
    decreases to - from,
{
    if from >= to {
        to
    } else if is_whitespace(s[from]) {
        trim_start_at(s, from + 1, to)
    } else {
        from
    }
}

/// One past the last non-whitespace character of `s[from..to]` (or `from`).
pub open spec fn trim_end_at(s: Seq<char>, from: int, to: int) -> int
    decreases to - from,
{
    if from >= to {
        from
    } else if is_whitespace(s[to - 1]) {
        trim_end_at(s, from, to - 1)
    } else {
        to
    }
}

/// `s` with leading and trailing whitespace removed (`str::trim`).
pub open spec fn spec_trim(s: Seq<char>) -> Seq<char> {
    let a = trim_start_at(s, 0, s.len() as int);
    let b = trim_end_at(s, a, s.len() as int);
    s.subrange(a, b)
}

proof fn lemma_trim_start_bounds(s: Seq<char>, from: int, to: int)
    requires
        from <= to,
    ensures
        from <= trim_start_at(s, from, to) <= to,
    decreases to - from,
{
    if from < to && is_whitespace(s[from]) {
        lemma_trim_start_bounds(s, from + 1, to);
    }
}

proof fn lemma_trim_end_bounds(s: Seq<char>, from: int, to: int)
    requires
        from <= to,
    ensures
        from <= trim_end_at(s, from, to) <= to,
    decreases to - from,
{
    if from < to && is_whitespace(s[to - 1]) {
        lemma_trim_end_bounds(s, from, to - 1);
    }
}

/// Bounds `(a, b)` with `cs[a..b]` equal to `cs[from..to]` trimmed.
pub fn trim_bounds(cs: &Vec<char>, from: usize, to: usize) -> (r: (usize, usize))
    requires
        from <= to <= cs@.len(),
    ensures
        r.0 == trim_start_at(cs@, from as int, to as int),
        r.1 == trim_end_at(cs@, r.0 as int, to as int),
        from <= r.0 <= r.1 <= to,
{
    let mut a = from;
    while a < to && is_whitespace_char(cs[a])
        invariant
            from <= a <= to <= cs@.len(),
            trim_start_at(cs@, from as int, to as int) == trim_start_at(cs@, a as int, to as int),
        decreases to - a,
    {
        a = a + 1;
    }
    let mut b = to;
    while b > a && is_whitespace_char(cs[b - 1])
        invariant
            a <= b <= to <= cs@.len(),
            trim_end_at(cs@, a as int, to as int) == trim_end_at(cs@, a as int, b as int),
        decreases b - a,
    {
        b = b - 1;
    }
    (a, b)
}

/// `trim` of a subrange equals the trim computed on the whole sequence's window.
pub proof fn lemma_trim_window(s: Seq<char>, from: int, to: int)
    requires
        0 <= from <= to <= s.len(),
    ensures
        ({
            let a = trim_start_at(s, from, to);
            let b = trim_end_at(s, a, to);
            spec_trim(s.subrange(from, to)) == s.subrange(a, b)
        }),
{
    let w = s.subrange(from, to);
    lemma_trim_start_shift(s, from, to, from);
    let a = trim_start_at(s, from, to);
    lemma_trim_start_bounds(s, from, to);
    lemma_trim_end_shift(s, from, to, a);
    lemma_trim_end_bounds(s, a, to);
    assert(w.subrange(a - from, trim_end_at(s, a, to) - from) =~= s.subrange(a, trim_end_at(s, a, to)));
}

proof fn lemma_trim_start_shift(s: Seq<char>, from: int, to: int, i: int)
    requires
        0 <= from <= i <= to <= s.len(),
    ensures
        trim_start_at(s.subrange(from, to), i - from, to - from) == trim_start_at(s, i, to) - from,
    decreases to - i,
{
    if i < to && is_whitespace(s[i]) {
        assert(s.subrange(from, to)[i - from] == s[i]);
        lemma_trim_start_shift(s, from, to, i + 1);
    } else if i < to {
        assert(s.subrange(from, to)[i - from] == s[i]);
    }
}

proof fn lemma_trim_end_shift(s: Seq<char>, from: int, to: int, a: int)
    requires
        0 <= from <= a <= to <= s.len(),
    ensures
        forall|j: int|
            a <= j <= to ==> trim_end_at(s.subrange(from, to), a - from, j - from) == trim_end_at(
                s,
                a,
                j,
            ) - from,
    decreases to - a,
{
    assert forall|j: int| a <= j <= to implies trim_end_at(s.subrange(from, to), a - from, j - from)
        == trim_end_at(s, a, j) - from by {
        lemma_trim_end_shift_at(s, from, to, a, j);
    }
}

proof fn lemma_trim_end_shift_at(s: Seq<char>, from: int, to: int, a: int, j: int)
    requires
        0 <= from <= a <= j <= to <= s.len(),
    ensures
        trim_end_at(s.subrange(from, to), a - from, j - from) == trim_end_at(s, a, j) - from,
    decreases j - a,
{
    if a < j {
        assert(s.subrange(from, to)[j - 1 - from] == s[j - 1]);
        if is_whitespace(s[j - 1]) {
            lemma_trim_end_shift_at(s, from, to, a, j - 1);
        }
    }
}

// ---------------------------------------------------------------- case

/// ASCII lower-casing of one character (`to_ascii_lowercase`).
pub open spec fn ascii_lower(c: char) -> char {
    if 'A' <= c && c <= 'Z' {
        ((c as u32) + 32) as char
    } else {
        c
    }
}

/// `s` equals `lit` once `s` is ASCII lower-cased (`lit` is lower case).
pub open spec fn eq_ignore_case(s: Seq<char>, lit: Seq<char>) -> bool {
    s.len() == lit.len() && forall|i: int| 0 <= i < s.len() ==> #[trigger] ascii_lower(s[i]) == lit[i]
}

pub fn ascii_lower_char(c: char) -> (r: char)
    ensures
        r == ascii_lower(c),
{
    if 'A' <= c && c <= 'Z' {
        ((c as u8) + 32) as char
    } else {
        c
    }
}

/// `cs[from..to]` lower-cased equals `lit`.
pub fn eq_ignore_case_at(cs: &Vec<char>, from: usize, to: usize, lit: &str) -> (r: bool)
    requires
        from <= to <= cs@.len(),
    ensures
        r == eq_ignore_case(cs@.subrange(from as int, to as int), lit@),
{
    let n = lit.unicode_len();
    if to - from != n {
        return false;
    }
    let mut i: usize = 0;
    while i < n
        invariant
            n == lit@.len(),
            to - from == n,
            from <= to <= cs@.len(),
            i <= n,
            forall|k: int| 0 <= k < i ==> ascii_lower(cs@[from + k]) == lit@[k],
        decreases n - i,
    {
        if ascii_lower_char(cs[from + i]) != lit.get_char(i) {
            assert(!eq_ignore_case(cs@.subrange(from as int, to as int), lit@)) by {
                assert(cs@.subrange(from as int, to as int)[i as int] == cs@[from + i]);
            }
            return false;
        }
        i = i + 1;
    }
    assert(eq_ignore_case(cs@.subrange(from as int, to as int), lit@)) by {
        assert forall|k: int| 0 <= k < n implies #[trigger] ascii_lower(
            cs@.subrange(from as int, to as int)[k],
        ) == lit@[k] by {
            assert(cs@.subrange(from as int, to as int)[k] == cs@[from + k]);
        }
    }
    true
}

/// The string `s`, compared character by character.
pub fn chars_eq(cs: &Vec<char>, from: usize, to: usize, lit: &str) -> (r: bool)
    requires
        from <= to <= cs@.len(),
    ensures
        r == (cs@.subrange(from as int, to as int) == lit@),
{
    let n = lit.unicode_len();
    if to - from != n {
        assert(cs@.subrange(from as int, to as int).len() != lit@.len());
        return false;
    }
    let mut i: usize = 0;
    while i < n
        invariant
            n == lit@.len(),
            to - from == n,
            from <= to <= cs@.len(),
            i <= n,
            forall|k: int| 0 <= k < i ==> cs@[from + k] == lit@[k],
        decreases n - i,
    {
        if cs[from + i] != lit.get_char(i) {
            assert(cs@.subrange(from as int, to as int)[i as int] != lit@[i as int]);
            return false;
        }
        i = i + 1;
    }
    assert(cs@.subrange(from as int, to as int) =~= lit@);
    true
}

/// Index of the first `c` in `cs[from..to]`.
pub open spec fn first_index_of(s: Seq<char>, c: char, from: int, to: int) -> Option<int>
    decreases to - from,
{
    if from >= to {
        None
    } else if s[from] == c {
        Some(from)
    } else {
        first_index_of(s, c, from + 1, to)
    }
}

/// Index of the last `c` in `cs[from..to]`.
pub open spec fn last_index_of(s: Seq<char>, c: char, from: int, to: int) -> Option<int>
    decreases to - from,
{
    if from >= to {
        None
    } else if s[to - 1] == c {
        Some(to - 1)
    } else {
        last_index_of(s, c, from, to - 1)
    }
}

pub proof fn lemma_first_index_of(s: Seq<char>, c: char, from: int, to: int)
    requires
        0 <= from <= to <= s.len(),
    ensures
        match first_index_of(s, c, from, to) {
            Some(i) => from <= i < to && s[i] == c && forall|j: int| from <= j < i ==> s[j] != c,
            None => forall|j: int| from <= j < to ==> s[j] != c,
        },
    decreases to - from,
{
    if from < to && s[from] != c {
        lemma_first_index_of(s, c, from + 1, to);
    }
}

pub proof fn lemma_last_index_of(s: Seq<char>, c: char, from: int, to: int)
    requires
        0 <= from <= to <= s.len(),
    ensures
        match last_index_of(s, c, from, to) {
            Some(i) => from <= i < to && s[i] == c && forall|j: int| i < j < to ==> s[j] != c,
            None => forall|j: int| from <= j < to ==> s[j] != c,
        },
    decreases to - from,
{
    if from < to && s[to - 1] != c {
        lemma_last_index_of(s, c, from, to - 1);
    }
}

pub fn find_char(cs: &Vec<char>, c: char, from: usize, to: usize) -> (r: Option<usize>)
    requires
        from <= to <= cs@.len(),
    ensures
        r == (match first_index_of(cs@, c, from as int, to as int) {
            Some(i) => Some(i as usize),
            None => None::<usize>,
        }),
{
    let mut i = from;
    while i < to
        invariant
            from <= i <= to <= cs@.len(),
            first_index_of(cs@, c, from as int, to as int) == first_index_of(cs@, c, i as int, to as int),
        decreases to - i,
    {
        if cs[i] == c {
            return Some(i);
        }
        i = i + 1;
    }
    None
}

pub fn rfind_char(cs: &Vec<char>, c: char, from: usize, to: usize) -> (r: Option<usize>)
    requires
        from <= to <= cs@.len(),
    ensures
        r == (match last_index_of(cs@, c, from as int, to as int) {
            Some(i) => Some(i as usize),
            None => None::<usize>,
        }),
{
    let mut j = to;
    while j > from
        invariant
            from <= j <= to <= cs@.len(),
            last_index_of(cs@, c, from as int, to as int) == last_index_of(cs@, c, from as int, j as int),
        decreases j - from,
    {
        if cs[j - 1] == c {
            return Some(j - 1);
        }
        j = j - 1;
    }
    None
}

// ---------------------------------------------------------------- joining

/// The views of `items` with `sep` between neighbours (`[String]::join`).
pub open spec fn joined(items: Seq<String>, sep: Seq<char>) -> Seq<char>
    decreases items.len(),
{
    if items.len() == 0 {
        Seq::empty()
    } else if items.len() == 1 {
        items[0]@
    } else {
        joined(items.drop_last(), sep) + sep + items.last()@
    }
}

/// `items` joined with `sep` between neighbours.
pub fn join_with(items: &Vec<String>, sep: &str) -> (r: String)
    ensures
        r@ == joined(items@, sep@),
{
    let mut r = String::new();
    let mut i: usize = 0;
    while i < items.len()
        invariant
            i <= items@.len(),
            r@ == joined(items@.subrange(0, i as int), sep@),
        decreases items@.len() - i,
    {
        if i > 0 {
            r.append(sep);
        }
        r.append(items[i].as_str());
        let ghost before = items@.subrange(0, i as int);
        i = i + 1;
        proof {
            let now = items@.subrange(0, i as int);
            assert(now.drop_last() =~= before);
            assert(now.last() == items@[i - 1]);
        }
    }
    assert(items@.subrange(0, items@.len() as int) =~= items@);
    r
}

} // verus!
