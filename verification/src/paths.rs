//! The library's model of file paths, with the rules of `Path::file_name`,
//! `Path::extension` and `Path::file_stem`: trailing separators and `.`
//! components after the first are ignored, and `..` has no file name. On
//! Windows (the desktop build) both `/` and `\` separate components and a
//! drive prefix such as `C:` is no part of any component; elsewhere (the
//! browser build) only `/` separates. Other Windows prefixes (`\\server\share`,
//! `\\?\`) are not modelled.

use crate::text::{ascii_lower, ascii_lower_char, last_index_of, lemma_last_index_of, rfind_char};
use vstd::prelude::*;

verus! {

/// A separator: `/`, and on Windows also `\`.
pub open spec fn is_sep_on(windows: bool, c: char) -> bool {
    c == '/' || (windows && c == '\\')
}

/// An ASCII letter.
pub open spec fn is_ascii_letter(c: char) -> bool {
    ('a' <= c && c <= 'z') || ('A' <= c && c <= 'Z')
}

/// Length of the path's prefix: 2 for a Windows drive prefix (`C:`), else 0.
pub open spec fn prefix_len(windows: bool, p: Seq<char>) -> int {
    if windows && p.len() >= 2 && p[1] == ':' && is_ascii_letter(p[0]) {
        2
    } else {
        0
    }
}

/// End of `p[..e]` once trailing separators are dropped.
pub open spec fn strip_seps_end(windows: bool, p: Seq<char>, e: int) -> int
    decreases e,
{
    if e > 0 && e <= p.len() && is_sep_on(windows, p[e - 1]) {
        strip_seps_end(windows, p, e - 1)
    } else {
        e
    }
}

/// Index of the last separator in `p[..e]`.
pub open spec fn last_sep_before(windows: bool, p: Seq<char>, e: int) -> Option<int>
    decreases e,
{
    if e <= 0 || e > p.len() {
        None
    } else if is_sep_on(windows, p[e - 1]) {
        Some(e - 1)
    } else {
        last_sep_before(windows, p, e - 1)
    }
}

pub proof fn lemma_strip_seps_end(windows: bool, p: Seq<char>, e: int)
    requires
        0 <= e <= p.len(),
    ensures
        0 <= strip_seps_end(windows, p, e) <= e,
    decreases e,
{
    if e > 0 && is_sep_on(windows, p[e - 1]) {
        lemma_strip_seps_end(windows, p, e - 1);
    }
}

pub proof fn lemma_last_sep_before(windows: bool, p: Seq<char>, e: int)
    requires
        0 <= e <= p.len(),
    ensures
        match last_sep_before(windows, p, e) {
            Some(k) => 0 <= k < e && is_sep_on(windows, p[k]) && forall|j: int|
                k < j < e ==> !is_sep_on(windows, p[j]),
            None => forall|j: int| 0 <= j < e ==> !is_sep_on(windows, p[j]),
        },
    decreases e,
{
    if e > 0 && !is_sep_on(windows, p[e - 1]) {
        lemma_last_sep_before(windows, p, e - 1);
    }
}

/// Start of the last component of `p[..t]` (after the prefix).
pub open spec fn component_start(windows: bool, p: Seq<char>, t: int) -> int {
    match last_sep_before(windows, p, t) {
        Some(k) => k + 1,
        None => prefix_len(windows, p),
    }
}

/// Bounds of the file name within `p[..e]`: its last component, skipping
/// `.` components; none when that component is `..` or the path is empty,
/// a root or a prefix alone.
pub open spec fn file_name_in(windows: bool, p: Seq<char>, e: int) -> Option<(int, int)>
    decreases e,
{
    if e < 0 || e > p.len() {
        None
    } else {
        let t = strip_seps_end(windows, p, e);
        if t <= prefix_len(windows, p) || t > e {
            None
        } else {
            let st = component_start(windows, p, t);
            let comp = p.subrange(st, t);
            if comp == seq!['.'] {
                match last_sep_before(windows, p, t) {
                    Some(k) => if 0 <= k < e {
                        file_name_in(windows, p, k)
                    } else {
                        None
                    },
                    None => None,
                }
            } else if comp == seq!['.', '.'] {
                None
            } else {
                Some((st, t))
            }
        }
    }
}

pub proof fn lemma_file_name_in_bounds(windows: bool, p: Seq<char>, e: int)
    ensures
        file_name_in(windows, p, e) matches Some((a, b)) ==> 0 <= a <= b <= e,
    decreases e,
{
    if 0 <= e <= p.len() {
        let t = strip_seps_end(windows, p, e);
        lemma_strip_seps_end(windows, p, e);
        if prefix_len(windows, p) < t <= e {
            lemma_last_sep_before(windows, p, t);
            match last_sep_before(windows, p, t) {
                Some(k) => {
                    if 0 <= k < e {
                        lemma_file_name_in_bounds(windows, p, k);
                    }
                },
                None => {},
            }
        }
    }
}

/// `Path::file_name` on Windows (`windows`) or elsewhere.
pub open spec fn file_name_on(windows: bool, p: Seq<char>) -> Option<Seq<char>> {
    match file_name_in(windows, p, p.len() as int) {
        Some((a, b)) => Some(p.subrange(a, b)),
        None => None,
    }
}

/// `Path::file_name` of a desktop (Windows) path.
pub open spec fn file_name(p: Seq<char>) -> Option<Seq<char>> {
    file_name_on(true, p)
}

/// `Path::extension` of a file name: what follows its last dot, unless the
/// name has no dot, starts with its only dot, or is `..`.
pub open spec fn name_extension(name: Seq<char>) -> Option<Seq<char>> {
    if name == seq!['.', '.'] {
        None
    } else {
        match last_index_of(name, '.', 0, name.len() as int) {
            Some(i) => if i == 0 {
                None
            } else {
                Some(name.subrange(i + 1, name.len() as int))
            },
            None => None,
        }
    }
}

/// `Path::file_stem` of a file name: what precedes its last dot (the whole
/// name when the name has no dot, starts with its only dot, or is `..`).
pub open spec fn name_stem(name: Seq<char>) -> Seq<char> {
    if name == seq!['.', '.'] {
        name
    } else {
        match last_index_of(name, '.', 0, name.len() as int) {
            Some(i) => if i == 0 {
                name
            } else {
                name.subrange(0, i)
            },
            None => name,
        }
    }
}

/// `Path::extension`.
pub open spec fn path_extension(p: Seq<char>) -> Option<Seq<char>> {
    match file_name(p) {
        Some(n) => name_extension(n),
        None => None,
    }
}

/// `Path::file_stem`.
pub open spec fn path_stem(p: Seq<char>) -> Option<Seq<char>> {
    match file_name(p) {
        Some(n) => Some(name_stem(n)),
        None => None,
    }
}

/// ASCII lower-casing of a whole sequence.
pub open spec fn lower(s: Seq<char>) -> Seq<char> {
    s.map_values(|c: char| ascii_lower(c))
}

/// Bounds of `file_name_in(windows, cs, e)`.
pub fn file_name_bounds(cs: &Vec<char>, e: usize, windows: bool) -> (r: Option<(usize, usize)>)
    requires
        e <= cs@.len(),
    ensures
        r == (match file_name_in(windows, cs@, e as int) {
            Some((a, b)) => Some((a as usize, b as usize)),
            None => None::<(usize, usize)>,
        }),
        r matches Some((a, b)) ==> a <= b <= e,
        file_name_in(windows, cs@, e as int) matches Some((a, b)) ==> 0 <= a <= b <= e,
    decreases e,
{
    proof {
        lemma_file_name_in_bounds(windows, cs@, e as int);
    }
    let ghost p = cs@;
    let lo: usize = if windows && cs.len() >= 2 && cs[1] == ':' && (('a' <= cs[0] && cs[0] <= 'z') || (
    'A' <= cs[0] && cs[0] <= 'Z')) {
        2
    } else {
        0
    };
    assert(lo == prefix_len(windows, p));
    let mut t = e;
    while t > 0 && (cs[t - 1] == '/' || (windows && cs[t - 1] == '\\'))
        invariant
            t <= e <= cs@.len(),
            p == cs@,
            strip_seps_end(windows, p, e as int) == strip_seps_end(windows, p, t as int),
        decreases t,
    {
        t = t - 1;
    }
    proof {
        lemma_strip_seps_end(windows, p, t as int);
        lemma_strip_seps_end(windows, p, e as int);
    }
    if t <= lo {
        return None;
    }
    let mut k = t;
    while k > 0 && !(cs[k - 1] == '/' || (windows && cs[k - 1] == '\\'))
        invariant
            k <= t <= cs@.len(),
            p == cs@,
            last_sep_before(windows, p, t as int) == last_sep_before(windows, p, k as int),
        decreases k,
    {
        k = k - 1;
    }
    proof {
        lemma_last_sep_before(windows, p, t as int);
    }
    // k == 0 with no separator, or k - 1 is the separator.
    let has_sep = k > 0;
    let st = if has_sep {
        k
    } else {
        lo
    };
    assert(st == component_start(windows, p, t as int));
    if t - st == 1 && cs[st] == '.' {
        assert(p.subrange(st as int, t as int) =~= seq!['.']);
        if has_sep {
            assert(last_sep_before(windows, p, t as int) == Some((k - 1) as int));
            file_name_bounds(cs, k - 1, windows)
        } else {
            None
        }
    } else if t - st == 2 && cs[st] == '.' && cs[st + 1] == '.' {
        assert(p.subrange(st as int, t as int) =~= seq!['.', '.']);
        None
    } else {
        assert(p.subrange(st as int, t as int) != seq!['.']) by {
            let comp = p.subrange(st as int, t as int);
            assert(comp.len() == t - st);
            assert(seq!['.'].len() == 1);
            if t - st == 1 {
                assert(comp[0] == cs@[st as int]);
                assert(cs@[st as int] != '.');
                assert(seq!['.'][0] == '.');
            }
        }
        assert(p.subrange(st as int, t as int) != seq!['.', '.']) by {
            let comp = p.subrange(st as int, t as int);
            assert(comp.len() == t - st);
            if comp == seq!['.', '.'] {
                assert(seq!['.', '.'].len() == 2);
                assert(comp[0] == cs@[st as int]);
                assert(comp[1] == cs@[st + 1]);
                assert(seq!['.', '.'][0] == '.' && seq!['.', '.'][1] == '.');
                assert(false);
            }
        }
        Some((st, t))
    }
}

/// Bounds of the extension within `cs[a..b]` (a file name).
pub fn extension_bounds(cs: &Vec<char>, a: usize, b: usize) -> (r: Option<usize>)
    requires
        a <= b <= cs@.len(),
    ensures
        r == (match name_extension(cs@.subrange(a as int, b as int)) {
            Some(_) => Some((b - (name_extension(cs@.subrange(a as int, b as int))->0).len()) as usize),
            None => None::<usize>,
        }),
        r matches Some(x) ==> a < x <= b && name_extension(cs@.subrange(a as int, b as int))
            == Some(cs@.subrange(x as int, b as int)),
{
    let ghost name = cs@.subrange(a as int, b as int);
    if b - a == 2 && cs[a] == '.' && cs[a + 1] == '.' {
        assert(name =~= seq!['.', '.']);
        return None;
    }
    assert(name != seq!['.', '.']) by {
        if b - a == 2 {
            assert(name[0] != '.' || name[1] != '.');
        }
    }
    let d = rfind_char(cs, '.', a, b);
    proof {
        lemma_last_index_of(cs@, '.', a as int, b as int);
        lemma_last_index_shift(cs@, '.', a as int, b as int);
    }
    match d {
        Some(i) => {
            if i == a {
                None
            } else {
                assert(name.subrange(i - a + 1, name.len() as int) =~= cs@.subrange(i + 1, b as int));
                Some(i + 1)
            }
        },
        None => None,
    }
}

/// Bounds of the stem within `cs[a..b]` (a file name): it starts at `a`.
pub fn stem_end(cs: &Vec<char>, a: usize, b: usize) -> (r: usize)
    requires
        a <= b <= cs@.len(),
    ensures
        a <= r <= b,
        name_stem(cs@.subrange(a as int, b as int)) == cs@.subrange(a as int, r as int),
{
    let ghost name = cs@.subrange(a as int, b as int);
    if b - a == 2 && cs[a] == '.' && cs[a + 1] == '.' {
        assert(name =~= seq!['.', '.']);
        return b;
    }
    assert(name != seq!['.', '.']) by {
        if b - a == 2 {
            assert(name[0] != '.' || name[1] != '.');
        }
    }
    let d = rfind_char(cs, '.', a, b);
    proof {
        lemma_last_index_of(cs@, '.', a as int, b as int);
        lemma_last_index_shift(cs@, '.', a as int, b as int);
    }
    match d {
        Some(i) => {
            if i == a {
                b
            } else {
                assert(name.subrange(0, i - a) =~= cs@.subrange(a as int, i as int));
                i
            }
        },
        None => b,
    }
}

/// Searching a window equals searching the whole sequence within the window.
pub proof fn lemma_last_index_shift(s: Seq<char>, c: char, a: int, b: int)
    requires
        0 <= a <= b <= s.len(),
    ensures
        last_index_of(s.subrange(a, b), c, 0, b - a) == (match last_index_of(s, c, a, b) {
            Some(i) => Some(i - a),
            None => None::<int>,
        }),
    decreases b - a,
{
    if a < b {
        assert(s.subrange(a, b)[b - a - 1] == s[b - 1]);
        if s[b - 1] != c {
            lemma_last_index_shift(s, c, a, b - 1);
            lemma_last_index_window(s.subrange(a, b), c, b - a - 1);
            assert(s.subrange(a, b).subrange(0, b - a - 1) =~= s.subrange(a, b - 1));
        }
    }
}

/// Narrowing the end of a search window is searching a prefix.
pub proof fn lemma_last_index_window(s: Seq<char>, c: char, e: int)
    requires
        0 <= e <= s.len(),
    ensures
        last_index_of(s, c, 0, e) == last_index_of(s.subrange(0, e), c, 0, e),
    decreases e,
{
    if e > 0 {
        assert(s.subrange(0, e)[e - 1] == s[e - 1]);
        if s[e - 1] != c {
            lemma_last_index_window(s, c, e - 1);
            lemma_last_index_window(s.subrange(0, e), c, e - 1);
            assert(s.subrange(0, e).subrange(0, e - 1) =~= s.subrange(0, e - 1));
        }
    }
}

/// A new string holding `cs[a..b]` lower-cased.
pub fn lowered(cs: &Vec<char>, a: usize, b: usize) -> (r: String)
    requires
        a <= b <= cs@.len(),
    ensures
        r@ == lower(cs@.subrange(a as int, b as int)),
{
    let mut r = String::new();
    let mut i = a;
    while i < b
        invariant
            a <= i <= b <= cs@.len(),
            r@ == lower(cs@.subrange(a as int, i as int)),
        decreases b - i,
    {
        let c = ascii_lower_char(cs[i]);
        r.push(c);
        i = i + 1;
        assert(r@ =~= lower(cs@.subrange(a as int, i as int)));
    }
    r
}

} // verus!
