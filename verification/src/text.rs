//! Character-level helpers for the two pieces of text processing the
//! resolver needs: locating a `${name}` placeholder inside a version
//! string, and turning dotted group identifiers into slash-separated
//! repository paths.

use vstd::prelude::*;
use vstd::string::StrSliceExecFns;
use vstd::string::StringExecFns;

verus! {

/// Index of the first `${` marker at or after position `i`, or `-1`.
pub open spec fn find_marker_from(s: Seq<char>, i: int) -> int
    decreases s.len() - i,
{
    if i < 0 || i + 1 >= s.len() {
        -1
    } else if s[i] == '$' && s[i + 1] == '{' {
        i
    } else {
        find_marker_from(s, i + 1)
    }
}

/// Index of the first `}` at or after position `i`, or `-1`.
pub open spec fn find_close_from(s: Seq<char>, i: int) -> int
    decreases s.len() - i,
{
    if i < 0 || i >= s.len() {
        -1
    } else if s[i] == '}' {
        i
    } else {
        find_close_from(s, i + 1)
    }
}

/// A version string after at most one `${name}` substitution: the first
/// `${` marker and the first `}` after it delimit a property name; if the
/// name is bound, the delimited region (delimiters included) is replaced
/// by the bound value, and otherwise the string is left as it was.
pub open spec fn interpolated(v: Seq<char>, props: Map<Seq<char>, Seq<char>>) -> Seq<char> {
    let st = find_marker_from(v, 0);
    if st < 0 {
        v
    } else {
        let en = find_close_from(v, st + 2);
        if en < 0 {
            v
        } else {
            let key = v.subrange(st + 2, en);
            if props.contains_key(key) {
                v.subrange(0, st) + props[key] + v.subrange(en + 1, v.len() as int)
            } else {
                v
            }
        }
    }
}

/// Every `.` replaced by `/`; all other characters kept in place.
pub open spec fn dots_to_slashes(s: Seq<char>) -> Seq<char> {
    s.map(|i: int, c: char| if c == '.' { '/' } else { c })
}

/// A string with no `${` marker interpolates to itself, whatever the
/// property table holds.
pub proof fn lemma_no_marker_interpolates_to_self(
    v: Seq<char>,
    props: Map<Seq<char>, Seq<char>>,
)
    requires
        forall|j: int| 0 <= j && j + 1 < v.len() ==> !((#[trigger] v[j]) == '$' && v[j + 1] == '{'),
    ensures
        interpolated(v, props) == v,
{
    lemma_find_marker_none(v, 0);
}

/// A placeholder whose name the property table does not bind is left
/// untouched.
pub proof fn lemma_unbound_key_interpolates_to_self(
    v: Seq<char>,
    props: Map<Seq<char>, Seq<char>>,
)
    requires
        ({
            let st = find_marker_from(v, 0);
            let en = find_close_from(v, st + 2);
            st >= 0 && en >= 0 ==> !props.contains_key(v.subrange(st + 2, en))
        }),
    ensures
        interpolated(v, props) == v,
{
}

/// What a found marker position means: it is in range and carries `${`.
pub proof fn lemma_find_marker_bounds(s: Seq<char>, i: int)
    requires
        i >= 0,
    ensures
        ({
            let r = find_marker_from(s, i);
            r == -1 || (i <= r && r + 1 < s.len() && s[r] == '$' && s[r + 1] == '{')
        }),
    decreases s.len() - i,
{
    if i + 1 < s.len() && !(s[i] == '$' && s[i + 1] == '{') {
        lemma_find_marker_bounds(s, i + 1);
    }
}

/// What a found closing-brace position means: it is in range and carries `}`.
pub proof fn lemma_find_close_bounds(s: Seq<char>, i: int)
    requires
        i >= 0,
    ensures
        ({
            let r = find_close_from(s, i);
            r == -1 || (i <= r && r < s.len() && s[r] == '}')
        }),
    decreases s.len() - i,
{
    if i < s.len() && s[i] != '}' {
        lemma_find_close_bounds(s, i + 1);
    }
}

proof fn lemma_find_marker_none(v: Seq<char>, i: int)
    requires
        forall|j: int| 0 <= j && j + 1 < v.len() ==> !((#[trigger] v[j]) == '$' && v[j + 1] == '{'),
        i >= 0,
    ensures
        find_marker_from(v, i) == -1,
    decreases v.len() - i,
{
    if i + 1 < v.len() {
        lemma_find_marker_none(v, i + 1);
    }
}

/// Character-by-character string comparison, reflected into the views.
pub fn str_eq(a: &str, b: &str) -> (r: bool)
    ensures
        r == (a@ == b@),
{
    let na: usize = a.unicode_len();
    let nb: usize = b.unicode_len();
    if na != nb {
        return false;
    }
    let mut i: usize = 0;
    while i < na
        invariant
            i <= na,
            na == a@.len(),
            nb == b@.len(),
            na == nb,
            forall|j: int| 0 <= j < i ==> (#[trigger] a@[j]) == b@[j],
        decreases na - i,
    {
        let ca = a.get_char(i);
        let cb = b.get_char(i);
        if ca != cb {
            return false;
        }
        i = i + 1;
    }
    proof {
        assert(a@ =~= b@);
    }
    true
}

/// Position of the first `${` marker in `s`, if there is one.
pub fn find_marker(s: &str) -> (r: Option<usize>)
    ensures
        match r {
            Some(i) => find_marker_from(s@, 0) == i,
            None => find_marker_from(s@, 0) == -1,
        },
{
    let n: usize = s.unicode_len();
    let mut i: usize = 0;
    loop
        invariant
            i <= n,
            n == s@.len(),
            find_marker_from(s@, 0) == find_marker_from(s@, i as int),
        decreases n - i,
    {
        if i >= n {
            return None;
        }
        if i + 1 >= n {
            return None;
        }
        let c0 = s.get_char(i);
        let c1 = s.get_char(i + 1);
        if c0 == '$' && c1 == '{' {
            return Some(i);
        }
        i = i + 1;
    }
}

/// Position of the first `}` in `s` at or after `from`, if there is one.
pub fn find_close(s: &str, from: usize) -> (r: Option<usize>)
    ensures
        match r {
            Some(i) => find_close_from(s@, from as int) == i && from <= i,
            None => find_close_from(s@, from as int) == -1,
        },
{
    let n: usize = s.unicode_len();
    let mut i: usize = from;
    loop
        invariant
            from <= i,
            n == s@.len(),
            find_close_from(s@, from as int) == find_close_from(s@, i as int),
        decreases n - i,
    {
        if i >= n {
            return None;
        }
        let c = s.get_char(i);
        if c == '}' {
            return Some(i);
        }
        i = i + 1;
    }
}

/// A copy of `s` with every `.` replaced by `/`.
pub fn slashed(s: &str) -> (r: String)
    ensures
        r@ == dots_to_slashes(s@),
{
    let n: usize = s.unicode_len();
    let mut out: String = String::new();
    let mut i: usize = 0;
    while i < n
        invariant
            i <= n,
            n == s@.len(),
            out@ == dots_to_slashes(s@.subrange(0, i as int)),
        decreases n - i,
    {
        let c = s.get_char(i);
        if c == '.' {
            proof {
                reveal_strlit("/");
            }
            out.append("/");
        } else {
            let piece = s.substring_char(i, i + 1);
            out.append(piece);
        }
        proof {
            assert(out@ =~= dots_to_slashes(s@.subrange(0, i + 1 as int)));
        }
        i = i + 1;
    }
    proof {
        assert(s@.subrange(0, n as int) =~= s@);
    }
    out
}

} // verus!
