//! Character-level text primitives with specifications: whitespace, trimming,
//! searching, line and word splitting, joining, case handling.
//!
//! Strings are modelled by their views, `Seq<char>`. Every executable helper
//! here states its result as an open spec function of its inputs, so the
//! parsers built on top of it can be stated exactly.
use vstd::prelude::*;

verus! {

// ---------------------------------------------------------------- views

/// The character sequences of a list of strings.
pub open spec fn views(v: Seq<String>) -> Seq<Seq<char>> {
    v.map_values(|x: String| x@)
}

/// The characters of `s`, in order.
pub fn chars_of(s: &str) -> (v: Vec<char>)
    ensures
        v@ == s@,
{
    let mut v: Vec<char> = Vec::new();
    for c in it: s.chars()
        invariant
            v@ == it.seq().take(it.index()),
    {
        v.push(c);
    }
    v
}

/// A `String` holding exactly the characters of `v`.
///
/// Trusted: calls `FromIterator<&char> for String` (std), which appends every
/// character in order.
#[verifier::external_body]
pub fn string_from_chars(v: &[char]) -> (s: String)
    ensures
        s@ == v@,
{
    v.iter().collect()
}

/// The characters `v[from..to]` as a new `String`.
pub fn string_of_range(v: &Vec<char>, from: usize, to: usize) -> (s: String)
    requires
        from <= to <= v.len(),
    ensures
        s@ == v@.subrange(from as int, to as int),
{
    let mut out: Vec<char> = Vec::new();
    let mut i = from;
    while i < to
        invariant
            from <= i <= to <= v.len(),
            out@ == v@.subrange(from as int, i as int),
        decreases to - i,
    {
        out.push(v[i]);
        i = i + 1;
        assert(out@ =~= v@.subrange(from as int, i as int));
    }
    string_from_chars(out.as_slice())
}

/// An owned copy of `s`.
pub fn owned(s: &str) -> (r: String)
    ensures
        r@ == s@,
{
    s.to_owned()
}

/// The concatenation `a + b` as a new string.
pub fn concat2(a: &str, b: &str) -> (r: String)
    ensures
        r@ == a@ + b@,
{
    let mut r = a.to_owned();
    r.append(b);
    r
}

/// The concatenation `a + b + c` as a new string.
pub fn concat3(a: &str, b: &str, c: &str) -> (r: String)
    ensures
        r@ == a@ + b@ + c@,
{
    let mut r = a.to_owned();
    r.append(b);
    r.append(c);
    r
}

/// Whether two strings hold the same characters.
pub fn str_eq(a: &str, b: &str) -> (r: bool)
    ensures
        r == (a@ == b@),
{
    let x = chars_of(a);
    let y = chars_of(b);
    if x.len() != y.len() {
        return false;
    }
    let mut i: usize = 0;
    while i < x.len()
        invariant
            x@ == a@,
            y@ == b@,
            x.len() == y.len(),
            i <= x.len(),
            forall|k: int| 0 <= k < i ==> x@[k] == y@[k],
        decreases x.len() - i,
    {
        if x[i] != y[i] {
            return false;
        }
        i = i + 1;
    }
    assert(x@ =~= y@);
    true
}

// ------------------------------------------------------------ whitespace

/// Unicode `White_Space`, as `char::is_whitespace` defines it.
pub open spec fn is_ws(c: char) -> bool {
    let u = c as u32;
    (9 <= u <= 13) || u == 32 || u == 0x85 || u == 0xA0 || u == 0x1680 || (0x2000 <= u <= 0x200A)
        || u == 0x2028 || u == 0x2029 || u == 0x202F || u == 0x205F || u == 0x3000
}

pub fn is_whitespace(c: char) -> (b: bool)
    ensures
        b == is_ws(c),
{
    let u = c as u32;
    (9 <= u && u <= 13) || u == 32 || u == 0x85 || u == 0xA0 || u == 0x1680 || (0x2000 <= u && u
        <= 0x200A) || u == 0x2028 || u == 0x2029 || u == 0x202F || u == 0x205F || u == 0x3000
}

/// Number of leading whitespace characters.
pub open spec fn leading_ws(s: Seq<char>) -> nat
    decreases s.len(),
{
    if s.len() > 0 && is_ws(s[0]) {
        1 + leading_ws(s.drop_first())
    } else {
        0
    }
}

/// Number of leading non-whitespace characters.
pub open spec fn leading_nonws(s: Seq<char>) -> nat
    decreases s.len(),
{
    if s.len() > 0 && !is_ws(s[0]) {
        1 + leading_nonws(s.drop_first())
    } else {
        0
    }
}

/// Number of trailing whitespace characters.
pub open spec fn trailing_ws(s: Seq<char>) -> nat
    decreases s.len(),
{
    if s.len() > 0 && is_ws(s.last()) {
        1 + trailing_ws(s.drop_last())
    } else {
        0
    }
}

pub proof fn lemma_leading_ws(s: Seq<char>, k: int)
    requires
        0 <= k <= s.len(),
        forall|i: int| 0 <= i < k ==> is_ws(#[trigger] s[i]),
        k == s.len() || !is_ws(s[k]),
    ensures
        leading_ws(s) == k,
    decreases k,
{
    if k > 0 {
        lemma_leading_ws(s.drop_first(), k - 1);
    }
}

pub proof fn lemma_leading_nonws(s: Seq<char>, k: int)
    requires
        0 <= k <= s.len(),
        forall|i: int| 0 <= i < k ==> !is_ws(#[trigger] s[i]),
        k == s.len() || is_ws(s[k]),
    ensures
        leading_nonws(s) == k,
    decreases k,
{
    if k > 0 {
        lemma_leading_nonws(s.drop_first(), k - 1);
    }
}

pub proof fn lemma_leading_ws_facts(s: Seq<char>)
    ensures
        leading_ws(s) <= s.len(),
        forall|i: int| 0 <= i < leading_ws(s) ==> is_ws(#[trigger] s[i]),
        leading_ws(s) == s.len() || !is_ws(s[leading_ws(s) as int]),
    decreases s.len(),
{
    if s.len() > 0 && is_ws(s[0]) {
        lemma_leading_ws_facts(s.drop_first());
        assert forall|i: int| 0 <= i < leading_ws(s) implies is_ws(#[trigger] s[i]) by {
            if i > 0 {
                assert(s[i] == s.drop_first()[i - 1]);
            }
        }
    }
}

pub proof fn lemma_leading_nonws_facts(s: Seq<char>)
    ensures
        leading_nonws(s) <= s.len(),
        forall|i: int| 0 <= i < leading_nonws(s) ==> !is_ws(#[trigger] s[i]),
        leading_nonws(s) == s.len() || is_ws(s[leading_nonws(s) as int]),
    decreases s.len(),
{
    if s.len() > 0 && !is_ws(s[0]) {
        lemma_leading_nonws_facts(s.drop_first());
        assert forall|i: int| 0 <= i < leading_nonws(s) implies !is_ws(#[trigger] s[i]) by {
            if i > 0 {
                assert(s[i] == s.drop_first()[i - 1]);
            }
        }
    }
}

pub proof fn lemma_trailing_ws(s: Seq<char>, k: int)
    requires
        0 <= k <= s.len(),
        forall|i: int| s.len() - k <= i < s.len() ==> is_ws(#[trigger] s[i]),
        k == s.len() || !is_ws(s[s.len() - k - 1]),
    ensures
        trailing_ws(s) == k,
    decreases k,
{
    if k > 0 {
        lemma_trailing_ws(s.drop_last(), k - 1);
    }
}

/// `str::trim_start`: the text without its leading whitespace.
pub open spec fn spec_trim_start(s: Seq<char>) -> Seq<char> {
    s.skip(leading_ws(s) as int)
}

/// `str::trim_end`: the text without its trailing whitespace.
pub open spec fn spec_trim_end(s: Seq<char>) -> Seq<char> {
    s.take(s.len() - trailing_ws(s))
}

/// `str::trim`: the text without leading and trailing whitespace.
pub open spec fn spec_trim(s: Seq<char>) -> Seq<char> {
    spec_trim_end(spec_trim_start(s))
}

/// Index of the first non-whitespace character of `v[from..]`, or `v.len()`.
pub fn skip_ws(v: &Vec<char>, from: usize) -> (k: usize)
    requires
        from <= v.len(),
    ensures
        from <= k <= v.len(),
        leading_ws(v@.skip(from as int)) == k - from,
{
    let mut k = from;
    while k < v.len() && is_whitespace(v[k])
        invariant
            from <= k <= v.len(),
            forall|i: int| from <= i < k ==> is_ws(#[trigger] v@[i]),
        decreases v.len() - k,
    {
        k = k + 1;
    }
    proof {
        let t = v@.skip(from as int);
        assert forall|i: int| 0 <= i < k - from implies is_ws(#[trigger] t[i]) by {
            assert(t[i] == v@[from + i]);
        }
        if k < v.len() {
            assert(t[k - from] == v@[k as int]);
        }
        lemma_leading_ws(t, k - from);
    }
    k
}

/// Index just past the last non-whitespace character of `v[from..to]`, or `from`.
pub fn skip_ws_back(v: &Vec<char>, from: usize, to: usize) -> (k: usize)
    requires
        from <= to <= v.len(),
    ensures
        from <= k <= to,
        trailing_ws(v@.subrange(from as int, to as int)) == to - k,
{
    let mut k = to;
    while k > from && is_whitespace(v[k - 1])
        invariant
            from <= k <= to <= v.len(),
            forall|i: int| k <= i < to ==> is_ws(#[trigger] v@[i]),
        decreases k,
    {
        k = k - 1;
    }
    proof {
        let t = v@.subrange(from as int, to as int);
        let n = to - k;
        assert forall|i: int| t.len() - n <= i < t.len() implies is_ws(#[trigger] t[i]) by {
            assert(t[i] == v@[from + i]);
        }
        if k > from {
            assert(t[t.len() - n - 1] == v@[k - 1]);
        }
        lemma_trailing_ws(t, n as int);
    }
    k
}

/// The bounds of `v` with surrounding whitespace removed.
pub fn trim_bounds(v: &Vec<char>) -> (r: (usize, usize))
    ensures
        r.0 <= r.1 <= v.len(),
        v@.subrange(r.0 as int, r.1 as int) == spec_trim(v@),
{
    let a = skip_ws(v, 0);
    let b = skip_ws_back(v, a, v.len());
    proof {
        assert(v@.skip(0) =~= v@);
        assert(spec_trim_start(v@) =~= v@.subrange(a as int, v.len() as int));
        assert(v@.subrange(a as int, b as int) =~= spec_trim_end(v@.subrange(a as int, v.len() as int)));
    }
    (a, b)
}

/// `str::trim`, as an owned string.
pub fn trim(s: &str) -> (r: String)
    ensures
        r@ == spec_trim(s@),
{
    let v = chars_of(s);
    let (a, b) = trim_bounds(&v);
    string_of_range(&v, a, b)
}

/// `str::trim_end`, as an owned string.
pub fn trim_end(s: &str) -> (r: String)
    ensures
        r@ == spec_trim_end(s@),
{
    let v = chars_of(s);
    let b = skip_ws_back(&v, 0, v.len());
    assert(v@.subrange(0, v.len() as int) =~= v@);
    assert(v@.subrange(0, b as int) =~= spec_trim_end(v@));
    string_of_range(&v, 0, b)
}

/// `str::trim_start`, as an owned string.
pub fn trim_start(s: &str) -> (r: String)
    ensures
        r@ == spec_trim_start(s@),
{
    let v = chars_of(s);
    let a = skip_ws(&v, 0);
    assert(v@.skip(0) =~= v@);
    assert(v@.subrange(a as int, v.len() as int) =~= spec_trim_start(v@));
    string_of_range(&v, a, v.len())
}

/// Whether `s` holds only whitespace (the empty text included).
pub open spec fn is_blank(s: Seq<char>) -> bool {
    spec_trim(s).len() == 0
}

proof fn lemma_trailing_le(s: Seq<char>)
    ensures
        trailing_ws(s) <= s.len(),
    decreases s.len(),
{
    if s.len() > 0 && is_ws(s.last()) {
        lemma_trailing_le(s.drop_last());
    }
}

proof fn lemma_trailing_all(s: Seq<char>)
    requires
        trailing_ws(s) == s.len(),
    ensures
        forall|i: int| 0 <= i < s.len() ==> is_ws(#[trigger] s[i]),
    decreases s.len(),
{
    if s.len() > 0 {
        lemma_trailing_le(s.drop_last());
        lemma_trailing_all(s.drop_last());
        assert forall|i: int| 0 <= i < s.len() implies is_ws(#[trigger] s[i]) by {
            if i < s.len() - 1 {
                assert(s[i] == s.drop_last()[i]);
            }
        }
    }
}

/// Whether `s` holds only whitespace.
pub fn is_blank_str(s: &str) -> (b: bool)
    ensures
        b == is_blank(s@),
{
    let v = chars_of(s);
    let (a, c) = trim_bounds(&v);
    a == c
}


// -------------------------------------------------------------- searching

/// Whether `n` occurs in `h` at position `i`.
pub open spec fn occurs_at(h: Seq<char>, n: Seq<char>, i: int) -> bool {
    0 <= i && i + n.len() <= h.len() && h.subrange(i, i + n.len()) == n
}

/// Position of the first occurrence of `n` in `h`, or -1.
pub open spec fn first_occ(h: Seq<char>, n: Seq<char>) -> int
    decreases h.len(),
{
    if n.len() > h.len() {
        -1
    } else if h.take(n.len() as int) == n {
        0
    } else if h.len() == 0 {
        -1
    } else {
        let r = first_occ(h.drop_first(), n);
        if r < 0 {
            -1
        } else {
            r + 1
        }
    }
}

/// `str::contains` with a string pattern.
pub open spec fn contains_sub(h: Seq<char>, n: Seq<char>) -> bool {
    first_occ(h, n) >= 0
}

/// `str::starts_with` with a string pattern.
pub open spec fn starts_with(s: Seq<char>, p: Seq<char>) -> bool {
    p.len() <= s.len() && s.take(p.len() as int) == p
}

/// `str::ends_with` with a string pattern.
pub open spec fn ends_with(s: Seq<char>, p: Seq<char>) -> bool {
    p.len() <= s.len() && s.skip(s.len() - p.len()) == p
}

pub proof fn lemma_first_occ(h: Seq<char>, n: Seq<char>, k: int)
    requires
        0 <= k,
        occurs_at(h, n, k) || k + n.len() > h.len(),
        forall|i: int| 0 <= i < k ==> !occurs_at(h, n, i),
    ensures
        first_occ(h, n) == (if occurs_at(h, n, k) { k } else { -1 }),
    decreases h.len(),
{
    assert(h.subrange(0, n.len() as int) =~= h.take(n.len() as int));
    if n.len() > h.len() {
    } else if h.take(n.len() as int) =~= n {
        if k > 0 {
            assert(occurs_at(h, n, 0));
        }
    } else if h.len() == 0 {
    } else {
        assert(!occurs_at(h, n, 0));
        let t = h.drop_first();
        assert forall|i: int| 0 <= i < k - 1 implies !occurs_at(t, n, i) by {
            assert(!occurs_at(h, n, i + 1));
            if i + n.len() <= t.len() {
                assert(t.subrange(i, i + n.len()) =~= h.subrange(i + 1, i + 1 + n.len()));
            }
        }
        if occurs_at(h, n, k) {
            assert(t.subrange(k - 1, k - 1 + n.len()) =~= h.subrange(k, k + n.len()));
        } else if k > 0 && k - 1 + n.len() <= t.len() {
            assert(false);
        }
        lemma_first_occ(t, n, k - 1);
    }
}

pub proof fn lemma_first_occ_facts(h: Seq<char>, n: Seq<char>)
    ensures
        first_occ(h, n) >= 0 ==> occurs_at(h, n, first_occ(h, n)),
        forall|i: int| 0 <= i && (first_occ(h, n) < 0 || i < first_occ(h, n)) ==> !occurs_at(h, n, i),
    decreases h.len(),
{
    if n.len() > h.len() {
    } else if h.take(n.len() as int) =~= n {
        assert(h.subrange(0, n.len() as int) =~= h.take(n.len() as int));
    } else if h.len() == 0 {
    } else {
        let t = h.drop_first();
        lemma_first_occ_facts(t, n);
        assert(h.subrange(0, n.len() as int) =~= h.take(n.len() as int));
        let r = first_occ(t, n);
        if r >= 0 {
            assert(h.subrange(r + 1, r + 1 + n.len()) =~= t.subrange(r, r + n.len()));
        }
        assert forall|i: int| 0 <= i && (first_occ(h, n) < 0 || i < first_occ(h, n)) implies !occurs_at(h, n, i) by {
            if i > 0 && i + n.len() <= h.len() {
                assert(h.subrange(i, i + n.len()) =~= t.subrange(i - 1, i - 1 + n.len()));
                assert(!occurs_at(t, n, i - 1));
            }
        }
    }
}

/// Whether `n` occurs in `h` at position `i`.
pub fn matches_at(h: &Vec<char>, n: &Vec<char>, i: usize) -> (b: bool)
    ensures
        b == occurs_at(h@, n@, i as int),
{
    if i > h.len() || n.len() > h.len() - i {
        return false;
    }
    let mut j: usize = 0;
    while j < n.len()
        invariant
            i + n.len() <= h.len(),
            j <= n.len(),
            forall|k: int| 0 <= k < j ==> h@[i + k] == n@[k],
        decreases n.len() - j,
    {
        if h[i + j] != n[j] {
            assert(h@.subrange(i as int, i + n.len())[j as int] != n@[j as int]);
            return false;
        }
        j = j + 1;
    }
    assert(h@.subrange(i as int, i + n.len()) =~= n@);
    true
}

/// First position at or after `from` where `n` occurs in `h`.
pub fn find_from(h: &Vec<char>, n: &Vec<char>, from: usize) -> (r: Option<usize>)
    requires
        from <= h.len(),
    ensures
        match r {
            Some(k) => from <= k && occurs_at(h@, n@, k as int) && forall|i: int|
                from <= i < k ==> !occurs_at(h@, n@, i),
            None => forall|i: int| from <= i ==> !occurs_at(h@, n@, i),
        },
{
    if n.len() > h.len() {
        return None;
    }
    if n.len() == 0 {
        assert(h@.subrange(from as int, from as int) =~= n@);
        return Some(from);
    }
    let last = h.len() - n.len();
    let mut k = from;
    while k <= last
        invariant
            from <= k,
            last == h.len() - n.len(),
            n.len() > 0,
            n.len() <= h.len(),
            forall|i: int| from <= i < k ==> !occurs_at(h@, n@, i),
        decreases h.len() - k,
    {
        if matches_at(h, n, k) {
            return Some(k);
        }
        k = k + 1;
    }
    None
}

pub proof fn lemma_first_occ_skip(h: Seq<char>, n: Seq<char>, from: int, k: int)
    requires
        0 <= from <= k,
        from <= h.len(),
        occurs_at(h, n, k) || forall|i: int| from <= i ==> !occurs_at(h, n, i),
        forall|i: int| from <= i < k ==> !occurs_at(h, n, i),
    ensures
        first_occ(h.skip(from), n) == (if occurs_at(h, n, k) { k - from } else { -1 }),
{
    let t = h.skip(from);
    if occurs_at(h, n, k) {
        assert forall|i: int| 0 <= i < k - from implies !occurs_at(t, n, i) by {
            assert(!occurs_at(h, n, from + i));
            if i + n.len() <= t.len() {
                assert(t.subrange(i, i + n.len()) =~= h.subrange(from + i, from + i + n.len()));
            }
        }
        assert(t.subrange(k - from, k - from + n.len()) =~= h.subrange(k, k + n.len()));
        lemma_first_occ(t, n, k - from);
    } else {
        assert(forall|i: int| from <= i ==> !occurs_at(h, n, i));
        assert forall|i: int| 0 <= i < t.len() + 1 implies !occurs_at(t, n, i) by {
            if i + n.len() <= t.len() {
                assert(t.subrange(i, i + n.len()) =~= h.subrange(from + i, from + i + n.len()));
                assert(!occurs_at(h, n, from + i));
            }
        }
        lemma_first_occ(t, n, t.len() as int + 1);
    }
}

/// Position of the first occurrence of `n` in `h`.
pub fn find_sub(h: &Vec<char>, n: &Vec<char>) -> (r: Option<usize>)
    ensures
        match r {
            Some(k) => first_occ(h@, n@) == k,
            None => first_occ(h@, n@) < 0,
        },
{
    let r = find_from(h, n, 0);
    proof {
        assert(h@.skip(0) =~= h@);
        match r {
            Some(k) => lemma_first_occ_skip(h@, n@, 0, k as int),
            None => lemma_first_occ_skip(h@, n@, 0, h.len() as int),
        }
    }
    r
}

/// `str::contains` with a string pattern.
pub fn contains(h: &str, n: &str) -> (b: bool)
    ensures
        b == contains_sub(h@, n@),
{
    let hv = chars_of(h);
    let nv = chars_of(n);
    find_sub(&hv, &nv).is_some()
}

/// `str::starts_with` with a string pattern.
pub fn starts_with_str(s: &str, p: &str) -> (b: bool)
    ensures
        b == starts_with(s@, p@),
{
    let sv = chars_of(s);
    let pv = chars_of(p);
    let b = matches_at(&sv, &pv, 0);
    assert(sv@.subrange(0, pv@.len() as int) =~= sv@.take(pv@.len() as int));
    b
}

/// `str::ends_with` with a string pattern.
pub fn ends_with_str(s: &str, p: &str) -> (b: bool)
    ensures
        b == ends_with(s@, p@),
{
    let sv = chars_of(s);
    let pv = chars_of(p);
    if pv.len() > sv.len() {
        return false;
    }
    let b = matches_at(&sv, &pv, sv.len() - pv.len());
    assert(sv@.subrange(sv.len() - pv.len(), sv.len() as int) =~= sv@.skip(sv.len() - pv.len()));
    b
}

/// Position of the first `c` in `s`, or -1.
pub open spec fn index_of(s: Seq<char>, c: char) -> int
    decreases s.len(),
{
    if s.len() == 0 {
        -1
    } else if s[0] == c {
        0
    } else {
        let r = index_of(s.drop_first(), c);
        if r < 0 {
            -1
        } else {
            r + 1
        }
    }
}

pub proof fn lemma_index_of(s: Seq<char>, c: char, k: int)
    requires
        0 <= k <= s.len(),
        k < s.len() ==> s[k] == c,
        forall|i: int| 0 <= i < k ==> s[i] != c,
    ensures
        index_of(s, c) == (if k < s.len() { k } else { -1 }),
    decreases k,
{
    if k > 0 {
        assert forall|i: int| 0 <= i < k - 1 implies s.drop_first()[i] != c by {
            assert(s.drop_first()[i] == s[i + 1]);
        }
        lemma_index_of(s.drop_first(), c, k - 1);
    }
}

/// First position at or after `from` holding `c`, or `v.len()`.
pub fn find_char(v: &Vec<char>, c: char, from: usize) -> (k: usize)
    requires
        from <= v.len(),
    ensures
        from <= k <= v.len(),
        index_of(v@.skip(from as int), c) == (if k < v.len() { k - from } else { -1 }),
        k < v.len() ==> v@[k as int] == c,
        forall|i: int| from <= i < k ==> v@[i] != c,
{
    let mut k = from;
    while k < v.len() && v[k] != c
        invariant
            from <= k <= v.len(),
            forall|i: int| from <= i < k ==> v@[i] != c,
        decreases v.len() - k,
    {
        k = k + 1;
    }
    proof {
        let t = v@.skip(from as int);
        assert forall|i: int| 0 <= i < k - from implies t[i] != c by {
            assert(t[i] == v@[from + i]);
        }
        lemma_index_of(t, c, k - from);
    }
    k
}

// ------------------------------------------------------------------ lines

/// A line with the `\r` of a `\r\n` ending removed.
pub open spec fn strip_cr(l: Seq<char>) -> Seq<char> {
    if l.len() > 0 && l.last() == '\r' {
        l.drop_last()
    } else {
        l
    }
}

/// `str::lines`: split at `\n`, drop the `\r` of a `\r\n`, and ignore a final
/// line ending.
pub open spec fn spec_lines(s: Seq<char>) -> Seq<Seq<char>>
    decreases s.len(),
{
    if s.len() == 0 {
        seq![]
    } else {
        let k = index_of(s, '\n');
        if k < 0 {
            seq![s]
        } else {
            proof {
                lemma_index_of_bound(s, '\n');
            }
            seq![strip_cr(s.take(k))] + spec_lines(s.skip(k + 1))
        }
    }
}

pub proof fn lemma_index_of_bound(s: Seq<char>, c: char)
    ensures
        index_of(s, c) < s.len(),
        index_of(s, c) >= 0 ==> s[index_of(s, c)] == c,
    decreases s.len(),
{
    if s.len() > 0 && s[0] != c {
        lemma_index_of_bound(s.drop_first(), c);
    }
}

/// `str::lines`, as owned strings.
pub fn lines(s: &str) -> (out: Vec<String>)
    ensures
        views(out@) == spec_lines(s@),
{
    let v = chars_of(s);
    let mut out: Vec<String> = Vec::new();
    let mut pos: usize = 0;
    proof {
        assert(v@.skip(0) =~= v@);
    }
    while pos < v.len()
        invariant
            pos <= v.len(),
            v@ == s@,
            views(out@) + spec_lines(v@.skip(pos as int)) == spec_lines(v@),
        decreases v.len() - pos,
    {
        let k = find_char(&v, '\n', pos);
        let ghost t = v@.skip(pos as int);
        if k < v.len() {
            let mut end = k;
            if end > pos && v[end - 1] == '\r' {
                end = end - 1;
            }
            let line = string_of_range(&v, pos, end);
            proof {
                assert(t.take(k - pos) =~= v@.subrange(pos as int, k as int));
                assert(strip_cr(t.take(k - pos)) =~= line@);
                assert(t.skip(k - pos + 1) =~= v@.skip(k + 1));
                assert(views(out@.push(line)) =~= views(out@).push(line@));
            }
            out.push(line);
            pos = k + 1;
        } else {
            let line = string_of_range(&v, pos, v.len());
            proof {
                assert(t =~= line@);
                assert(v@.skip(v.len() as int) =~= Seq::<char>::empty());
                assert(views(out@.push(line)) =~= views(out@).push(line@));
            }
            out.push(line);
            pos = v.len();
        }
    }
    proof {
        assert(v@.skip(pos as int) =~= Seq::<char>::empty());
        assert(views(out@) + seq![] =~= views(out@));
    }
    out
}

// ------------------------------------------------------------ splitting

/// `str::split` on a character: the pieces between occurrences of `c`, an
/// empty piece where two are adjacent or at either end.
pub open spec fn spec_split(s: Seq<char>, c: char) -> Seq<Seq<char>>
    decreases s.len(),
{
    let k = index_of(s, c);
    if k < 0 {
        seq![s]
    } else {
        proof {
            lemma_index_of_bound(s, c);
        }
        seq![s.take(k)] + spec_split(s.skip(k + 1), c)
    }
}

/// `s.split(c)`, as owned strings.
pub fn split_char(s: &str, c: char) -> (out: Vec<String>)
    ensures
        views(out@) == spec_split(s@, c),
{
    let v = chars_of(s);
    let mut out: Vec<String> = Vec::new();
    let mut pos: usize = 0;
    proof {
        assert(v@.skip(0) =~= v@);
    }
    loop
        invariant
            pos <= v.len(),
            v@ == s@,
            views(out@) + spec_split(v@.skip(pos as int), c) == spec_split(v@, c),
        decreases v.len() - pos,
    {
        let k = find_char(&v, c, pos);
        let ghost t = v@.skip(pos as int);
        if k < v.len() {
            let piece = string_of_range(&v, pos, k);
            proof {
                assert(t.take(k - pos) =~= piece@);
                assert(t.skip(k - pos + 1) =~= v@.skip(k + 1));
                assert(views(out@.push(piece)) =~= views(out@).push(piece@));
            }
            out.push(piece);
            pos = k + 1;
        } else {
            let piece = string_of_range(&v, pos, v.len());
            proof {
                assert(t =~= piece@);
                assert(views(out@.push(piece)) =~= views(out@).push(piece@));
            }
            out.push(piece);
            return out;
        }
    }
}

/// `s.trim_start_matches(c)`.
pub open spec fn strip_start_char(s: Seq<char>, c: char) -> Seq<char>
    decreases s.len(),
{
    if s.len() > 0 && s[0] == c {
        strip_start_char(s.drop_first(), c)
    } else {
        s
    }
}

/// `s.trim_end_matches(c)`.
pub open spec fn strip_end_char(s: Seq<char>, c: char) -> Seq<char>
    decreases s.len(),
{
    if s.len() > 0 && s.last() == c {
        strip_end_char(s.drop_last(), c)
    } else {
        s
    }
}

/// `s.trim_matches(c)`: every leading and trailing `c` removed.
pub open spec fn spec_trim_matches(s: Seq<char>, c: char) -> Seq<char> {
    strip_end_char(strip_start_char(s, c), c)
}

/// `s.trim_matches(c)`.
pub fn trim_matches(s: &str, c: char) -> (r: String)
    ensures
        r@ == spec_trim_matches(s@, c),
{
    let v = chars_of(s);
    let mut a: usize = 0;
    proof {
        assert(v@.skip(0) =~= v@);
    }
    while a < v.len() && v[a] == c
        invariant
            a <= v.len(),
            v@ == s@,
            strip_start_char(v@, c) == strip_start_char(v@.skip(a as int), c),
        decreases v.len() - a,
    {
        proof {
            assert(v@.skip(a as int).drop_first() =~= v@.skip(a + 1));
        }
        a = a + 1;
    }
    let ghost head = v@.skip(a as int);
    let mut b: usize = v.len();
    proof {
        assert(v@.subrange(a as int, b as int) =~= head);
    }
    while b > a && v[b - 1] == c
        invariant
            a <= b <= v.len(),
            v@ == s@,
            head == v@.skip(a as int),
            strip_end_char(head, c) == strip_end_char(v@.subrange(a as int, b as int), c),
        decreases b,
    {
        proof {
            assert(v@.subrange(a as int, b as int).drop_last() =~= v@.subrange(a as int, b - 1));
        }
        b = b - 1;
    }
    string_of_range(&v, a, b)
}

// ------------------------------------------------------------------ words

/// `str::split_whitespace`: the maximal runs of non-whitespace characters.
pub open spec fn spec_words(s: Seq<char>) -> Seq<Seq<char>>
    decreases s.len(),
{
    let t = s.skip(leading_ws(s) as int);
    if leading_ws(s) >= s.len() {
        seq![]
    } else {
        proof {
            lemma_leading_ws_facts(s);
            lemma_leading_nonws_facts(t);
            assert(t[0] == s[leading_ws(s) as int]);
        }
        seq![t.take(leading_nonws(t) as int)] + spec_words(t.skip(leading_nonws(t) as int))
    }
}

/// Every word of a text occurs in it.
pub proof fn lemma_words_occur(s: Seq<char>, k: int)
    requires
        0 <= k < spec_words(s).len(),
    ensures
        first_occ(s, spec_words(s)[k]) >= 0,
    decreases s.len(),
{
    let lw = leading_ws(s) as int;
    lemma_leading_ws_facts(s);
    let t = s.skip(lw);
    lemma_leading_nonws_facts(t);
    assert(t[0] == s[lw]);
    let n = leading_nonws(t) as int;
    let w = spec_words(s)[k];
    let i: int = if k == 0 {
        assert(s.subrange(lw, lw + n) =~= t.take(n));
        lw
    } else {
        let u = t.skip(n);
        lemma_words_occur(u, k - 1);
        lemma_first_occ_facts(u, spec_words(u)[k - 1]);
        let j = first_occ(u, spec_words(u)[k - 1]);
        assert(u.subrange(j, j + w.len()) =~= s.subrange(lw + n + j, lw + n + j + w.len()));
        lw + n + j
    };
    assert(occurs_at(s, w, i));
    lemma_first_occ_facts(s, w);
}

/// `str::split_whitespace`, as owned strings.
pub fn words(s: &str) -> (out: Vec<String>)
    ensures
        views(out@) == spec_words(s@),
{
    let v = chars_of(s);
    let mut out: Vec<String> = Vec::new();
    let mut pos: usize = 0;
    proof {
        assert(v@.skip(0) =~= v@);
    }
    loop
        invariant
            pos <= v.len(),
            v@ == s@,
            views(out@) + spec_words(v@.skip(pos as int)) == spec_words(v@),
        decreases v.len() - pos,
    {
        let a = skip_ws(&v, pos);
        let ghost t = v@.skip(pos as int);
        if a >= v.len() {
            proof {
                assert(views(out@) + seq![] =~= views(out@));
            }
            return out;
        }
        let mut b = a;
        while b < v.len() && !is_whitespace(v[b])
            invariant
                a <= b <= v.len(),
                forall|i: int| a <= i < b ==> !is_ws(#[trigger] v@[i]),
            decreases v.len() - b,
        {
            b = b + 1;
        }
        let word = string_of_range(&v, a, b);
        proof {
            let u = t.skip(leading_ws(t) as int);
            assert(u =~= v@.skip(a as int));
            assert forall|i: int| 0 <= i < b - a implies !is_ws(#[trigger] u[i]) by {
                assert(u[i] == v@[a + i]);
            }
            if b < v.len() {
                assert(u[b - a] == v@[b as int]);
            }
            lemma_leading_nonws(u, b - a);
            assert(u.take(b - a) =~= word@);
            assert(u.skip(b - a) =~= v@.skip(b as int));
            assert(views(out@.push(word)) =~= views(out@).push(word@));
        }
        out.push(word);
        pos = b;
    }
}

// ------------------------------------------------------------------ joins

/// `[T]::join` over strings.
pub open spec fn spec_join(parts: Seq<Seq<char>>, sep: Seq<char>) -> Seq<char>
    decreases parts.len(),
{
    if parts.len() == 0 {
        seq![]
    } else if parts.len() == 1 {
        parts[0]
    } else {
        spec_join(parts.drop_last(), sep) + sep + parts.last()
    }
}

/// `parts.join(sep)`.
pub fn join(parts: &Vec<String>, sep: &str) -> (r: String)
    ensures
        r@ == spec_join(views(parts@), sep@),
{
    let mut r = String::new();
    let mut i: usize = 0;
    while i < parts.len()
        invariant
            i <= parts.len(),
            r@ == spec_join(views(parts@).take(i as int), sep@),
        decreases parts.len() - i,
    {
        proof {
            assert(views(parts@).take(i + 1).drop_last() =~= views(parts@).take(i as int));
        }
        if i > 0 {
            r.append(sep);
        }
        r.append(parts[i].as_str());
        i = i + 1;
    }
    assert(views(parts@).take(parts.len() as int) =~= views(parts@));
    r
}

// ------------------------------------------------------------------ case

/// What `str::to_lowercase` returns: the Unicode lowercase mapping of every
/// character, which can change the length of the text.
pub uninterp spec fn spec_to_lowercase(s: Seq<char>) -> Seq<char>;

/// `str::to_lowercase`.
///
/// Trusted: calls std's `str::to_lowercase`; the result is named, not stated.
#[verifier::external_body]
pub fn to_lowercase(s: &str) -> (r: String)
    ensures
        r@ == spec_to_lowercase(s@),
{
    s.to_lowercase()
}

/// What `str::to_uppercase` returns (the Unicode uppercase mapping).
pub uninterp spec fn spec_to_uppercase(s: Seq<char>) -> Seq<char>;

/// `str::to_uppercase`.
///
/// Trusted: calls std's `str::to_uppercase`; the result is named, not stated.
#[verifier::external_body]
pub fn to_uppercase(s: &str) -> (r: String)
    ensures
        r@ == spec_to_uppercase(s@),
{
    s.to_uppercase()
}

pub open spec fn is_ascii_upper(c: char) -> bool {
    'A' <= c <= 'Z'
}

pub open spec fn is_ascii_lower(c: char) -> bool {
    'a' <= c <= 'z'
}

pub open spec fn is_ascii_digit(c: char) -> bool {
    '0' <= c <= '9'
}

pub open spec fn is_ascii_alpha(c: char) -> bool {
    is_ascii_upper(c) || is_ascii_lower(c)
}

pub open spec fn is_ascii_alnum(c: char) -> bool {
    is_ascii_alpha(c) || is_ascii_digit(c)
}

/// `char::to_ascii_lowercase`.
pub open spec fn ascii_lower(c: char) -> char {
    if is_ascii_upper(c) {
        ((c as u32) + 32) as char
    } else {
        c
    }
}

/// `str::to_ascii_lowercase`.
pub open spec fn ascii_lower_seq(s: Seq<char>) -> Seq<char> {
    s.map_values(|c: char| ascii_lower(c))
}

/// `str::eq_ignore_ascii_case`.
pub open spec fn eq_ignore_case(a: Seq<char>, b: Seq<char>) -> bool {
    ascii_lower_seq(a) == ascii_lower_seq(b)
}

pub fn is_digit(c: char) -> (b: bool)
    ensures
        b == is_ascii_digit(c),
{
    '0' <= c && c <= '9'
}

pub fn is_alnum(c: char) -> (b: bool)
    ensures
        b == is_ascii_alnum(c),
{
    ('A' <= c && c <= 'Z') || ('a' <= c && c <= 'z') || ('0' <= c && c <= '9')
}

pub fn is_upper(c: char) -> (b: bool)
    ensures
        b == is_ascii_upper(c),
{
    'A' <= c && c <= 'Z'
}

pub fn lower_char(c: char) -> (r: char)
    ensures
        r == ascii_lower(c),
{
    if 'A' <= c && c <= 'Z' {
        let u = (c as u32) + 32;
        assert(u <= 0x7f);
        char_from_ascii(u)
    } else {
        c
    }
}

/// The character with the given ASCII code.
///
/// Trusted: calls std's `char::from_u32`, which is `Some` for every value
/// below `0xD800`.
#[verifier::external_body]
pub(crate) fn char_from_ascii(u: u32) -> (c: char)
    requires
        u <= 0x7f,
    ensures
        c as u32 == u,
{
    char::from_u32(u).unwrap()
}

/// `str::to_ascii_lowercase`.
pub fn to_ascii_lower(s: &str) -> (r: String)
    ensures
        r@ == ascii_lower_seq(s@),
{
    let v = chars_of(s);
    let mut out: Vec<char> = Vec::new();
    let mut i: usize = 0;
    while i < v.len()
        invariant
            i <= v.len(),
            v@ == s@,
            out@ == ascii_lower_seq(v@.take(i as int)),
        decreases v.len() - i,
    {
        out.push(lower_char(v[i]));
        i = i + 1;
        assert(out@ =~= ascii_lower_seq(v@.take(i as int)));
    }
    assert(v@.take(v.len() as int) =~= v@);
    string_from_chars(out.as_slice())
}

/// `str::eq_ignore_ascii_case`.
pub fn eq_ignore_ascii_case(a: &str, b: &str) -> (r: bool)
    ensures
        r == eq_ignore_case(a@, b@),
{
    let x = chars_of(a);
    let y = chars_of(b);
    if x.len() != y.len() {
        assert(ascii_lower_seq(a@).len() != ascii_lower_seq(b@).len());
        return false;
    }
    let mut i: usize = 0;
    while i < x.len()
        invariant
            x@ == a@,
            y@ == b@,
            x.len() == y.len(),
            i <= x.len(),
            forall|k: int| 0 <= k < i ==> ascii_lower(x@[k]) == ascii_lower(y@[k]),
        decreases x.len() - i,
    {
        if lower_char(x[i]) != lower_char(y[i]) {
            assert(ascii_lower_seq(a@)[i as int] != ascii_lower_seq(b@)[i as int]);
            return false;
        }
        i = i + 1;
    }
    assert(ascii_lower_seq(a@) =~= ascii_lower_seq(b@));
    true
}


// --------------------------------------------------------------- numbers

/// The ASCII digit for `d < 10`.
pub open spec fn digit_char(d: nat) -> char {
    ((d % 10) + 48) as char
}

/// The decimal text of `n`, as `Display` writes it for an unsigned integer.
pub open spec fn spec_decimal(n: nat) -> Seq<char>
    decreases n,
{
    if n < 10 {
        seq![digit_char(n)]
    } else {
        spec_decimal(n / 10) + seq![digit_char(n % 10)]
    }
}

/// The decimal text of a signed integer, with a leading `-` when negative.
pub open spec fn spec_signed_decimal(n: int) -> Seq<char> {
    if n < 0 {
        seq!['-'] + spec_decimal((-n) as nat)
    } else {
        spec_decimal(n as nat)
    }
}

fn digit_to_char(d: u64) -> (c: char)
    requires
        d < 10,
    ensures
        c == digit_char(d as nat),
{
    char_from_ascii((d + 48) as u32)
}

/// `u64::to_string`.
pub fn decimal(n: u64) -> (r: String)
    ensures
        r@ == spec_decimal(n as nat),
    decreases n,
{
    if n < 10 {
        let c = digit_to_char(n);
        let v = vec![c];
        assert(v@ =~= seq![c]);
        string_from_chars(v.as_slice())
    } else {
        let mut r = decimal(n / 10);
        let c = digit_to_char(n % 10);
        let v = vec![c];
        assert(v@ =~= seq![c]);
        let tail = string_from_chars(v.as_slice());
        r.append(tail.as_str());
        r
    }
}

/// `usize::to_string`.
pub fn decimal_usize(n: usize) -> (r: String)
    ensures
        r@ == spec_decimal(n as nat),
{
    decimal(n as u64)
}

/// `i32::to_string`.
pub fn signed_decimal(n: i32) -> (r: String)
    ensures
        r@ == spec_signed_decimal(n as int),
{
    if n < 0 {
        let m: u64 = (-(n as i64)) as u64;
        assert(m as nat == (-(n as int)) as nat);
        let d = decimal(m);
        proof {
            reveal_strlit("-");
        }
        concat2("-", d.as_str())
    } else {
        decimal(n as u64)
    }
}

/// The value of a run of ASCII digits.
pub open spec fn digits_value(s: Seq<char>) -> nat
    decreases s.len(),
{
    if s.len() == 0 {
        0
    } else {
        digits_value(s.drop_last()) * 10 + ((s.last() as u32) - 48) as nat
    }
}

pub open spec fn all_digits(s: Seq<char>) -> bool {
    forall|i: int| 0 <= i < s.len() ==> is_ascii_digit(#[trigger] s[i])
}

/// The digits of an unsigned integer literal, after an optional `+`.
pub open spec fn unsigned_body(s: Seq<char>) -> Seq<char> {
    if s.len() > 0 && s[0] == '+' {
        s.drop_first()
    } else {
        s
    }
}

/// `str::parse` for an unsigned integer type whose largest value is `max`:
/// an optional `+`, then one or more ASCII digits whose value is at most `max`.
pub open spec fn spec_parse_unsigned(s: Seq<char>, max: nat) -> Option<nat> {
    let d = unsigned_body(s);
    if d.len() > 0 && all_digits(d) && digits_value(d) <= max {
        Some(digits_value(d))
    } else {
        None
    }
}

proof fn lemma_digits_value_grows(s: Seq<char>, i: int, j: int)
    requires
        0 <= i <= j <= s.len(),
    ensures
        digits_value(s.take(i)) <= digits_value(s.take(j)),
    decreases j - i,
{
    if i < j {
        lemma_digits_value_grows(s, i, j - 1);
        assert(s.take(j).drop_last() =~= s.take(j - 1));
    }
}

/// `str::parse::<u64>` restricted to values at most `max`.
pub fn parse_unsigned(s: &str, max: u64) -> (r: Option<u64>)
    ensures
        match r {
            Some(v) => spec_parse_unsigned(s@, max as nat) == Some(v as nat),
            None => spec_parse_unsigned(s@, max as nat) is None,
        },
{
    let v = chars_of(s);
    let start: usize = if v.len() > 0 && v[0] == '+' {
        1
    } else {
        0
    };
    let ghost d = unsigned_body(s@);
    proof {
        assert(d =~= v@.skip(start as int));
    }
    if start >= v.len() {
        assert(d.len() == 0);
        return None;
    }
    let mut value: u64 = 0;
    let mut i = start;
    while i < v.len()
        invariant
            start <= i <= v.len(),
            v@ == s@,
            d == v@.skip(start as int),
            d == unsigned_body(s@),
            forall|k: int| start <= k < i ==> is_ascii_digit(#[trigger] v@[k]),
            value as nat == digits_value(d.take(i - start)),
            value <= max,
        decreases v.len() - i,
    {
        let c = v[i];
        proof {
            assert(d.take(i - start + 1).drop_last() =~= d.take(i - start));
            assert(d.take(i - start + 1).last() == c);
        }
        if !is_digit(c) {
            assert(!is_ascii_digit(d[i - start]));
            assert(!all_digits(d));
            return None;
        }
        let digit = (c as u32 - 48) as u64;
        if digit > max || value > (max - digit) / 10 {
            proof {
                assert(digits_value(d.take(i - start + 1)) > max) by (nonlinear_arith)
                    requires
                        digits_value(d.take(i - start + 1)) == value * 10 + digit,
                        digit > max || value > (max - digit) / 10,
                ;
                lemma_digits_value_grows(d, i - start + 1, d.len() as int);
                assert(d.take(d.len() as int) =~= d);
                assert(digits_value(d) > max);
            }
            return None;
        }
        proof {
            assert(value * 10 + digit <= max) by (nonlinear_arith)
                requires
                    value <= (max - digit) / 10,
                    digit <= max,
            ;
        }
        value = value * 10 + digit;
        i = i + 1;
    }
    proof {
        assert(d.take(d.len() as int) =~= d);
        assert forall|k: int| 0 <= k < d.len() implies is_ascii_digit(#[trigger] d[k]) by {
            assert(d[k] == v@[start + k]);
        }
    }
    Some(value)
}

// ------------------------------------------------------------- replacing

/// `s.replace(p, r)` for a non-empty pattern: every leftmost, non-overlapping
/// occurrence of `p` is replaced by `r`.
pub open spec fn spec_replace(s: Seq<char>, p: Seq<char>, r: Seq<char>) -> Seq<char>
    decreases s.len(),
{
    if p.len() == 0 || s.len() == 0 {
        s
    } else if starts_with(s, p) {
        r + spec_replace(s.skip(p.len() as int), p, r)
    } else {
        seq![s[0]] + spec_replace(s.drop_first(), p, r)
    }
}

/// `str::replace` with a string pattern, for a non-empty pattern.
pub fn replace(s: &str, p: &str, r: &str) -> (out: String)
    ensures
        p@.len() > 0 ==> out@ == spec_replace(s@, p@, r@),
{
    let v = chars_of(s);
    let pv = chars_of(p);
    let rv = chars_of(r);
    if pv.len() == 0 {
        return s.to_owned();
    }
    let mut out: Vec<char> = Vec::new();
    let mut i: usize = 0;
    proof {
        assert(v@.skip(0) =~= v@);
    }
    while i < v.len()
        invariant
            i <= v.len(),
            v@ == s@,
            pv@ == p@,
            rv@ == r@,
            pv.len() > 0,
            out@ + spec_replace(v@.skip(i as int), p@, r@) == spec_replace(s@, p@, r@),
        decreases v.len() - i,
    {
        let ghost t = v@.skip(i as int);
        if matches_at(&v, &pv, i) {
            proof {
                assert(t.take(pv.len() as int) =~= v@.subrange(i as int, i + pv.len()));
                assert(t.skip(pv.len() as int) =~= v@.skip(i + pv.len()));
            }
            let mut j: usize = 0;
            let ghost before = out@;
            while j < rv.len()
                invariant
                    j <= rv.len(),
                    out@ == before + rv@.take(j as int),
                decreases rv.len() - j,
            {
                out.push(rv[j]);
                j = j + 1;
                assert(out@ =~= before + rv@.take(j as int));
            }
            proof {
                assert(rv@.take(rv.len() as int) =~= rv@);
                assert(before + spec_replace(t, p@, r@) =~= out@ + spec_replace(
                    t.skip(pv.len() as int),
                    p@,
                    r@,
                ));
            }
            i = i + pv.len();
        } else {
            proof {
                if starts_with(t, p@) {
                    assert(t.take(pv.len() as int) =~= v@.subrange(i as int, i + pv.len()));
                }
                assert(t.drop_first() =~= v@.skip(i + 1));
                assert(out@.push(v@[i as int]) + spec_replace(t.drop_first(), p@, r@) =~= out@
                    + spec_replace(t, p@, r@));
            }
            out.push(v[i]);
            i = i + 1;
        }
    }
    proof {
        assert(v@.skip(i as int) =~= Seq::<char>::empty());
        assert(out@ + Seq::<char>::empty() =~= out@);
    }
    string_from_chars(out.as_slice())
}

/// No character of `a` occurs in `b`.
pub open spec fn chars_apart(a: Seq<char>, b: Seq<char>) -> bool {
    forall|i: int, j: int| 0 <= i < a.len() && 0 <= j < b.len() ==> a[i] != b[j]
}

/// A prefix of a replacement's output that holds no character of the
/// replacement text was copied from the input unchanged.
proof fn lemma_replace_prefix(t: Seq<char>, p: Seq<char>, r: Seq<char>, n: int)
    requires
        p.len() > 0,
        r.len() > 0,
        0 <= n <= spec_replace(t, p, r).len(),
        chars_apart(spec_replace(t, p, r).take(n), r),
    ensures
        n <= t.len(),
        spec_replace(t, p, r).take(n) == t.take(n),
    decreases t.len(),
{
    let out = spec_replace(t, p, r);
    if n == 0 || t.len() == 0 {
        assert(out.take(n) =~= t.take(n));
    } else if starts_with(t, p) {
        assert(out[0] == r[0]);
        assert(out.take(n)[0] == r[0]);
    } else {
        let rest = spec_replace(t.drop_first(), p, r);
        assert(out == seq![t[0]] + rest);
        assert(rest.take(n - 1) =~= out.take(n).drop_first());
        lemma_replace_prefix(t.drop_first(), p, r, n - 1);
        assert forall|k: int| 0 <= k < n implies out.take(n)[k] == t.take(n)[k] by {
            if k > 0 {
                assert(out.take(n)[k] == rest.take(n - 1)[k - 1]);
                assert(t.take(n)[k] == t.drop_first().take(n - 1)[k - 1]);
            }
        }
        assert(out.take(n) =~= t.take(n));
    }
}

/// An occurrence, in a replacement's output, of text that shares no character
/// with the replacement: it is not the replaced pattern, and it occurs in the
/// input too.
pub proof fn lemma_replace_occurrence(s: Seq<char>, p: Seq<char>, r: Seq<char>, q: Seq<char>, i: int)
    requires
        p.len() > 0,
        r.len() > 0,
        q.len() > 0,
        chars_apart(q, r),
        occurs_at(spec_replace(s, p, r), q, i),
    ensures
        q != p,
        exists|j: int| occurs_at(s, q, j),
    decreases s.len(),
{
    let out = spec_replace(s, p, r);
    assert(out.subrange(i, i + q.len()) == q);
    if s.len() == 0 {
        assert(out.len() == 0);
    } else if starts_with(s, p) {
        let t = s.skip(p.len() as int);
        let rest = spec_replace(t, p, r);
        assert(out == r + rest);
        if i < r.len() {
            assert(q[0] == out[i]);
            assert(out[i] == r[i]);
        }
        assert(rest.subrange(i - r.len(), i - r.len() + q.len()) =~= out.subrange(i, i + q.len()));
        lemma_replace_occurrence(t, p, r, q, i - r.len());
        let j = choose|j: int| occurs_at(t, q, j);
        assert(s.subrange(j + p.len(), j + p.len() + q.len()) =~= t.subrange(j, j + q.len()));
        assert(occurs_at(s, q, j + p.len()));
    } else {
        let t = s.drop_first();
        let rest = spec_replace(t, p, r);
        assert(out == seq![s[0]] + rest);
        if i == 0 {
            assert(out.take(q.len() as int) =~= q);
            lemma_replace_prefix(s, p, r, q.len() as int);
            assert(s.take(q.len() as int) == q);
            assert(s.subrange(0, q.len() as int) =~= s.take(q.len() as int));
            assert(occurs_at(s, q, 0));
            if q == p {
                assert(starts_with(s, p));
            }
        } else {
            assert(rest.subrange(i - 1, i - 1 + q.len()) =~= out.subrange(i, i + q.len()));
            lemma_replace_occurrence(t, p, r, q, i - 1);
            let j = choose|j: int| occurs_at(t, q, j);
            assert(s.subrange(j + 1, j + 1 + q.len()) =~= t.subrange(j, j + q.len()));
            assert(occurs_at(s, q, j + 1));
        }
    }
}

// -------------------------------------------------------------- ordering

/// `Ord` on `str`: lexicographic by character (byte order of UTF-8 agrees).
pub open spec fn seq_lt(a: Seq<char>, b: Seq<char>) -> bool
    decreases a.len(),
{
    if a.len() == 0 {
        b.len() > 0
    } else if b.len() == 0 {
        false
    } else if a[0] != b[0] {
        (a[0] as u32) < (b[0] as u32)
    } else {
        seq_lt(a.drop_first(), b.drop_first())
    }
}

/// Whether `a < b` in `str` order.
pub fn str_lt(a: &str, b: &str) -> (r: bool)
    ensures
        r == seq_lt(a@, b@),
{
    let x = chars_of(a);
    let y = chars_of(b);
    let mut i: usize = 0;
    proof {
        assert(x@.skip(0) =~= x@);
        assert(y@.skip(0) =~= y@);
    }
    while i < x.len() && i < y.len() && x[i] == y[i]
        invariant
            x@ == a@,
            y@ == b@,
            i <= x.len(),
            i <= y.len(),
            seq_lt(x@.skip(i as int), y@.skip(i as int)) == seq_lt(a@, b@),
        decreases x.len() - i,
    {
        proof {
            assert(x@.skip(i as int).drop_first() =~= x@.skip(i + 1));
            assert(y@.skip(i as int).drop_first() =~= y@.skip(i + 1));
        }
        i = i + 1;
    }
    proof {
        if i < x.len() {
            assert(x@.skip(i as int)[0] == x@[i as int]);
        }
        if i < y.len() {
            assert(y@.skip(i as int)[0] == y@[i as int]);
        }
    }
    if i == x.len() {
        i < y.len()
    } else if i == y.len() {
        false
    } else {
        (x[i] as u32) < (y[i] as u32)
    }
}

pub proof fn lemma_seq_lt_irreflexive(a: Seq<char>)
    ensures
        !seq_lt(a, a),
    decreases a.len(),
{
    if a.len() > 0 {
        lemma_seq_lt_irreflexive(a.drop_first());
    }
}

pub proof fn lemma_char_code_injective(a: char, b: char)
    requires
        a != b,
    ensures
        (a as u32) != (b as u32),
{
}

pub proof fn lemma_seq_lt_trichotomy(a: Seq<char>, b: Seq<char>)
    ensures
        seq_lt(a, b) || seq_lt(b, a) || a == b,
        !(seq_lt(a, b) && seq_lt(b, a)),
    decreases a.len(),
{
    if a.len() == 0 && b.len() == 0 {
        assert(a =~= b);
    } else if a.len() == 0 || b.len() == 0 {
    } else if a[0] != b[0] {
        lemma_char_code_injective(a[0], b[0]);
    } else {
        lemma_seq_lt_trichotomy(a.drop_first(), b.drop_first());
        if a.drop_first() =~= b.drop_first() {
            assert forall|i: int| 0 <= i < a.len() implies a[i] == b[i] by {
                if i > 0 {
                    assert(a[i] == a.drop_first()[i - 1]);
                    assert(b[i] == b.drop_first()[i - 1]);
                }
            }
            assert(a =~= b);
        }
    }
}

pub proof fn lemma_seq_lt_transitive(a: Seq<char>, b: Seq<char>, c: Seq<char>)
    requires
        seq_lt(a, b),
        seq_lt(b, c),
    ensures
        seq_lt(a, c),
    decreases a.len(),
{
    if a.len() > 0 && b.len() > 0 && c.len() > 0 && a[0] == b[0] && b[0] == c[0] {
        lemma_seq_lt_transitive(a.drop_first(), b.drop_first(), c.drop_first());
    }
}


// --------------------------------------------------------------- sorting

/// Insert `x` after every element whose key is not greater than its key
/// (one step of a stable insertion sort).
pub open spec fn spec_insert_by_key<T>(sorted: Seq<(String, T)>, x: (String, T)) -> Seq<(String, T)>
    decreases sorted.len(),
{
    if sorted.len() == 0 {
        seq![x]
    } else if seq_lt(x.0@, sorted.last().0@) {
        spec_insert_by_key(sorted.drop_last(), x).push(sorted.last())
    } else {
        sorted.push(x)
    }
}

/// The stable sort of `s` by its keys — what `sort_by` with a key comparison
/// produces: ascending keys, equal keys in their given order.
pub open spec fn spec_sort_by_key<T>(s: Seq<(String, T)>) -> Seq<(String, T)>
    decreases s.len(),
{
    if s.len() == 0 {
        seq![]
    } else {
        spec_insert_by_key(spec_sort_by_key(s.drop_last()), s.last())
    }
}

proof fn lemma_insert_at<T>(sorted: Seq<(String, T)>, x: (String, T), p: int)
    requires
        0 <= p <= sorted.len(),
        forall|j: int| p <= j < sorted.len() ==> seq_lt(x.0@, (#[trigger] sorted[j]).0@),
        p == 0 || !seq_lt(x.0@, sorted[p - 1].0@),
    ensures
        spec_insert_by_key(sorted, x) == sorted.take(p).push(x) + sorted.skip(p),
    decreases sorted.len() - p,
{
    if p == sorted.len() {
        if sorted.len() == 0 {
            assert(sorted.take(p).push(x) + sorted.skip(p) =~= seq![x]);
        } else {
            assert(sorted.take(p).push(x) + sorted.skip(p) =~= sorted.push(x));
        }
    } else {
        let d = sorted.drop_last();
        assert(seq_lt(x.0@, sorted[sorted.len() - 1].0@));
        assert forall|j: int| p <= j < d.len() implies seq_lt(x.0@, (#[trigger] d[j]).0@) by {
            assert(d[j] == sorted[j]);
        }
        if p > 0 {
            assert(d[p - 1] == sorted[p - 1]);
        }
        lemma_insert_at(d, x, p);
        assert(d.take(p).push(x) + d.skip(p) + seq![sorted.last()] =~= sorted.take(p).push(x)
            + sorted.skip(p));
    }
}

/// Keys never decrease along `s`.
pub open spec fn keys_ascending<T>(s: Seq<(String, T)>) -> bool {
    forall|i: int, j: int| 0 <= i < j < s.len() ==> !seq_lt(#[trigger] s[j].0@, #[trigger] s[i].0@)
}

/// Inserting keeps every element of `s`, adds `x`, and nothing else.
pub proof fn lemma_insert_elements<T>(s: Seq<(String, T)>, x: (String, T))
    ensures
        spec_insert_by_key(s, x).len() == s.len() + 1,
        forall|k: int| 0 <= k < s.len() + 1 ==> #[trigger] spec_insert_by_key(s, x)[k] == x || s.contains(
            spec_insert_by_key(s, x)[k],
        ),
    decreases s.len(),
{
    if s.len() > 0 && seq_lt(x.0@, s.last().0@) {
        lemma_insert_elements(s.drop_last(), x);
        let r = spec_insert_by_key(s, x);
        let d = spec_insert_by_key(s.drop_last(), x);
        assert forall|k: int| 0 <= k < s.len() + 1 implies #[trigger] r[k] == x || s.contains(r[k]) by {
            if k < s.len() {
                assert(r[k] == d[k]);
                if d[k] != x {
                    let w = choose|w: int| 0 <= w < s.drop_last().len() && s.drop_last()[w] == d[k];
                    assert(s[w] == d[k]);
                }
            } else {
                assert(r[k] == s[s.len() - 1]);
            }
        }
    } else if s.len() > 0 {
        let r = spec_insert_by_key(s, x);
        assert forall|k: int| 0 <= k < s.len() + 1 implies #[trigger] r[k] == x || s.contains(r[k]) by {
            if k < s.len() {
                assert(r[k] == s[k]);
            }
        }
    }
}

/// The stable sort keeps its elements: each element of the result is one of
/// the input's, and the length is unchanged.
pub proof fn lemma_sort_elements<T>(s: Seq<(String, T)>)
    ensures
        spec_sort_by_key(s).len() == s.len(),
        forall|k: int| 0 <= k < s.len() ==> s.contains(#[trigger] spec_sort_by_key(s)[k]),
    decreases s.len(),
{
    if s.len() > 0 {
        let d = s.drop_last();
        lemma_sort_elements(d);
        let sd = spec_sort_by_key(d);
        lemma_insert_elements(sd, s.last());
        let r = spec_sort_by_key(s);
        assert forall|k: int| 0 <= k < s.len() implies s.contains(#[trigger] r[k]) by {
            if r[k] == s.last() {
                assert(s[s.len() - 1] == r[k]);
            } else {
                let w = choose|w: int| 0 <= w < sd.len() && sd[w] == r[k];
                let v = choose|v: int| 0 <= v < d.len() && d[v] == sd[w];
                assert(s[v] == r[k]);
            }
        }
    }
}

/// A key that no element of `s` nor `x` exceeds exceeds no element of their
/// insertion.
proof fn lemma_insert_bound<T>(s: Seq<(String, T)>, x: (String, T), b: Seq<char>)
    requires
        forall|i: int| 0 <= i < s.len() ==> !seq_lt(b, (#[trigger] s[i]).0@),
        !seq_lt(b, x.0@),
    ensures
        forall|k: int| 0 <= k < spec_insert_by_key(s, x).len() ==> !seq_lt(b, (#[trigger] spec_insert_by_key(s, x)[k]).0@),
{
    lemma_insert_elements(s, x);
    let r = spec_insert_by_key(s, x);
    assert forall|k: int| 0 <= k < r.len() implies !seq_lt(b, (#[trigger] r[k]).0@) by {
        if r[k] != x {
            let w = choose|w: int| 0 <= w < s.len() && s[w] == r[k];
        }
    }
}

/// Inserting into a sequence whose keys ascend keeps them ascending.
proof fn lemma_insert_ascending<T>(s: Seq<(String, T)>, x: (String, T))
    requires
        keys_ascending(s),
    ensures
        keys_ascending(spec_insert_by_key(s, x)),
    decreases s.len(),
{
    if s.len() == 0 {
    } else if seq_lt(x.0@, s.last().0@) {
        let d = s.drop_last();
        assert(keys_ascending(d)) by {
            assert forall|i: int, j: int| 0 <= i < j < d.len() implies !seq_lt(#[trigger] d[j].0@, #[trigger] d[i].0@) by {
                assert(d[i] == s[i] && d[j] == s[j]);
            }
        }
        lemma_insert_ascending(d, x);
        let last = s.last();
        assert forall|i: int| 0 <= i < d.len() implies !seq_lt(last.0@, (#[trigger] d[i]).0@) by {
            assert(d[i] == s[i]);
            assert(s[s.len() - 1] == last);
        }
        lemma_seq_lt_trichotomy(x.0@, last.0@);
        lemma_insert_bound(d, x, last.0@);
        lemma_insert_elements(d, x);
        let di = spec_insert_by_key(d, x);
        let r = spec_insert_by_key(s, x);
        assert(r == di.push(last));
        assert forall|i: int, j: int| 0 <= i < j < r.len() implies !seq_lt(#[trigger] r[j].0@, #[trigger] r[i].0@) by {
            if j < di.len() {
                assert(r[i] == di[i] && r[j] == di[j]);
            } else {
                assert(r[j] == last);
                assert(r[i] == di[i]);
            }
        }
    } else {
        let r = spec_insert_by_key(s, x);
        let last = s.last();
        assert(r == s.push(x));
        assert forall|i: int, j: int| 0 <= i < j < r.len() implies !seq_lt(#[trigger] r[j].0@, #[trigger] r[i].0@) by {
            if j < s.len() {
                assert(r[i] == s[i] && r[j] == s[j]);
            } else {
                assert(r[j] == x && r[i] == s[i]);
                if seq_lt(x.0@, s[i].0@) {
                    lemma_seq_lt_trichotomy(s[i].0@, last.0@);
                    if i < s.len() - 1 {
                        assert(!seq_lt(s[s.len() - 1].0@, s[i].0@));
                        if seq_lt(s[i].0@, last.0@) {
                            lemma_seq_lt_transitive(x.0@, s[i].0@, last.0@);
                        }
                    }
                }
            }
        }
    }
}

/// The stable sort orders its result by key.
pub proof fn lemma_sort_ascending<T>(s: Seq<(String, T)>)
    ensures
        keys_ascending(spec_sort_by_key(s)),
    decreases s.len(),
{
    if s.len() > 0 {
        lemma_sort_ascending(s.drop_last());
        lemma_insert_ascending(spec_sort_by_key(s.drop_last()), s.last());
    }
}

/// Stable sort of `items` by their `String` keys (ascending `str` order).
pub fn sort_by_key<T>(items: Vec<(String, T)>) -> (out: Vec<(String, T)>)
    ensures
        out@ == spec_sort_by_key(items@),
{
    let mut out: Vec<(String, T)> = Vec::new();
    let mut rest = items;
    let ghost all = rest@;
    assert(all.len() == rest.len());
    let mut taken: usize = 0;
    let mut queue: Vec<(String, T)> = Vec::new();
    // reverse `rest` into `queue` so elements can be popped in their given order
    while rest.len() > 0
        invariant
            all.len() == rest.len() + queue.len(),
            all.len() <= usize::MAX,
            rest@ == all.take(rest.len() as int),
            forall|k: int| 0 <= k < queue.len() ==> queue@[k] == all[all.len() - 1 - k],
        decreases rest.len(),
    {
        let x = rest.pop().unwrap();
        queue.push(x);
        assert(rest@ =~= all.take(rest.len() as int));
    }
    while queue.len() > 0
        invariant
            taken + queue.len() == all.len(),
            all.len() <= usize::MAX,
            forall|k: int| 0 <= k < queue.len() ==> queue@[k] == all[all.len() - 1 - k],
            out@ == spec_sort_by_key(all.take(taken as int)),
        decreases queue.len(),
    {
        let x = queue.pop().unwrap();
        proof {
            assert(x == all[taken as int]);
            assert(all.take(taken + 1).drop_last() =~= all.take(taken as int));
        }
        let mut p = out.len();
        while p > 0 && str_lt(x.0.as_str(), out[p - 1].0.as_str())
            invariant
                p <= out.len(),
                forall|j: int| p <= j < out.len() ==> seq_lt(x.0@, (#[trigger] out@[j]).0@),
            decreases p,
        {
            p = p - 1;
        }
        let ghost before = out@;
        proof {
            lemma_insert_at(out@, x, p as int);
        }
        out.insert(p, x);
        proof {
            assert(out@ =~= before.take(p as int).push(x) + before.skip(p as int));
        }
        taken = taken + 1;
    }
    proof {
        assert(all.take(all.len() as int) =~= all);
    }
    out
}


/// One step of the insertion sort of texts: `x` goes after every element that
/// is not greater than it.
pub open spec fn spec_insert_text(sorted: Seq<Seq<char>>, x: Seq<char>) -> Seq<Seq<char>>
    decreases sorted.len(),
{
    if sorted.len() == 0 {
        seq![x]
    } else if seq_lt(x, sorted.last()) {
        spec_insert_text(sorted.drop_last(), x).push(sorted.last())
    } else {
        sorted.push(x)
    }
}

/// `sort()` on texts: ascending in `str` order.
pub open spec fn spec_sort_texts(s: Seq<Seq<char>>) -> Seq<Seq<char>>
    decreases s.len(),
{
    if s.len() == 0 {
        seq![]
    } else {
        spec_insert_text(spec_sort_texts(s.drop_last()), s.last())
    }
}

proof fn lemma_insert_text_at(sorted: Seq<Seq<char>>, x: Seq<char>, p: int)
    requires
        0 <= p <= sorted.len(),
        forall|j: int| p <= j < sorted.len() ==> seq_lt(x, #[trigger] sorted[j]),
        p == 0 || !seq_lt(x, sorted[p - 1]),
    ensures
        spec_insert_text(sorted, x) == sorted.take(p).push(x) + sorted.skip(p),
    decreases sorted.len() - p,
{
    if p == sorted.len() {
        if sorted.len() == 0 {
            assert(sorted.take(p).push(x) + sorted.skip(p) =~= seq![x]);
        } else {
            assert(sorted.take(p).push(x) + sorted.skip(p) =~= sorted.push(x));
        }
    } else {
        let d = sorted.drop_last();
        assert(seq_lt(x, sorted[sorted.len() - 1]));
        assert forall|j: int| p <= j < d.len() implies seq_lt(x, #[trigger] d[j]) by {
            assert(d[j] == sorted[j]);
        }
        if p > 0 {
            assert(d[p - 1] == sorted[p - 1]);
        }
        lemma_insert_text_at(d, x, p);
        assert(d.take(p).push(x) + d.skip(p) + seq![sorted.last()] =~= sorted.take(p).push(x)
            + sorted.skip(p));
    }
}

/// `v.sort()` on a list of strings.
pub fn sort_strings(v: &Vec<String>) -> (out: Vec<String>)
    ensures
        views(out@) == spec_sort_texts(views(v@)),
{
    let ghost all = views(v@);
    let mut out: Vec<String> = Vec::new();
    let mut i: usize = 0;
    while i < v.len()
        invariant
            i <= v.len(),
            all == views(v@),
            views(out@) == spec_sort_texts(all.take(i as int)),
        decreases v.len() - i,
    {
        let x = v[i].clone();
        proof {
            assert(all.take(i + 1).drop_last() =~= all.take(i as int));
            assert(all.take(i + 1).last() == x@);
        }
        let mut p = out.len();
        while p > 0 && str_lt(x.as_str(), out[p - 1].as_str())
            invariant
                p <= out.len(),
                forall|j: int| p <= j < out.len() ==> seq_lt(x@, (#[trigger] out@[j])@),
            decreases p,
        {
            p = p - 1;
        }
        let ghost before = views(out@);
        proof {
            assert forall|j: int| p <= j < before.len() implies seq_lt(x@, #[trigger] before[j]) by {
                assert(before[j] == out@[j]@);
            }
            if p > 0 {
                assert(before[p - 1] == out@[p - 1]@);
            }
            lemma_insert_text_at(before, x@, p as int);
        }
        out.insert(p, x);
        proof {
            assert(views(out@) =~= before.take(p as int).push(x@) + before.skip(p as int));
        }
        i = i + 1;
    }
    proof {
        assert(all.take(v.len() as int) =~= all);
    }
    out
}

/// The values of keyed pairs, in order.
pub open spec fn pair_values<T>(pairs: Seq<(String, T)>) -> Seq<T> {
    pairs.map_values(|p: (String, T)| p.1)
}

/// `pairs` holds `items` in order, each keyed by its name lowercased.
pub open spec fn lowercase_keyed<T>(pairs: Seq<(String, T)>, items: Seq<T>, names: Seq<Seq<char>>) -> bool {
    &&& pairs.len() == items.len()
    &&& names.len() == items.len()
    &&& forall|k: int|
        0 <= k < items.len() ==> (#[trigger] pairs[k]).1 == items[k] && pairs[k].0@ == spec_to_lowercase(names[k])
}

/// `out` is `items` stably sorted by their names ignoring case
/// (`sort_by_key(|x| x.name.to_lowercase())`).
pub open spec fn sorted_by_lowercase<T>(items: Seq<T>, names: Seq<Seq<char>>, out: Seq<T>) -> bool {
    exists|pairs: Seq<(String, T)>| #[trigger] lowercase_keyed(pairs, items, names) && out == pair_values(spec_sort_by_key(pairs))
}

/// A list sorted by lowercased names is ordered by them: each listed item is
/// one of the given ones (`at[k]` says which), and no item's lowercased
/// name sorts before that of an item listed earlier.
pub proof fn lemma_sorted_by_lowercase_order<T>(items: Seq<T>, names: Seq<Seq<char>>, out: Seq<T>)
    requires
        sorted_by_lowercase(items, names, out),
    ensures
        out.len() == items.len(),
        exists|at: Seq<int>|
            at.len() == out.len() && (forall|k: int|
                0 <= k < out.len() ==> 0 <= #[trigger] at[k] < items.len() && out[k] == items[at[k]]) && (forall|
                i: int,
                j: int,
            |
                0 <= i < j < out.len() ==> !seq_lt(
                    spec_to_lowercase(names[#[trigger] at[j]]),
                    spec_to_lowercase(names[#[trigger] at[i]]),
                )),
{
    let pairs = choose|pairs: Seq<(String, T)>|
        #[trigger] lowercase_keyed(pairs, items, names) && out == pair_values(spec_sort_by_key(pairs));
    let sorted = spec_sort_by_key(pairs);
    lemma_sort_elements(pairs);
    lemma_sort_ascending(pairs);
    let at = Seq::new(out.len(), |k: int| choose|w: int| 0 <= w < pairs.len() && pairs[w] == sorted[k]);
    assert forall|k: int| 0 <= k < out.len() implies 0 <= #[trigger] at[k] < items.len() && out[k] == items[at[k]]
        && sorted[k].0@ == spec_to_lowercase(names[at[k]]) by {
        assert(pairs.contains(sorted[k]));
        let w = at[k];
        assert(pairs[w] == sorted[k]);
        assert(out[k] == sorted[k].1);
    }
    assert forall|i: int, j: int| 0 <= i < j < out.len() implies !seq_lt(
        spec_to_lowercase(names[#[trigger] at[j]]),
        spec_to_lowercase(names[#[trigger] at[i]]),
    ) by {
        assert(sorted[i].0@ == spec_to_lowercase(names[at[i]]));
        assert(sorted[j].0@ == spec_to_lowercase(names[at[j]]));
    }
    assert(at.len() == out.len() && (forall|k: int|
        0 <= k < out.len() ==> 0 <= #[trigger] at[k] < items.len() && out[k] == items[at[k]]) && (forall|i: int, j: int|
        0 <= i < j < out.len() ==> !seq_lt(
            spec_to_lowercase(names[#[trigger] at[j]]),
            spec_to_lowercase(names[#[trigger] at[i]]),
        )));
}

/// Stably sort `items` by the lowercased `names` (one per item).
pub fn sort_by_lowercase<T>(items: Vec<T>, names: &Vec<String>) -> (out: Vec<T>)
    requires
        names.len() == items.len(),
    ensures
        sorted_by_lowercase(items@, views(names@), out@),
{
    let ghost input = items@;
    let mut rest = items;
    let total: usize = rest.len();
    let mut reversed: Vec<T> = Vec::new();
    proof {
        assert(input.take(input.len() as int) =~= input);
    }
    while rest.len() > 0
        invariant
            input.len() == rest.len() + reversed.len(),
            input.len() == total,
            rest@ == input.take(rest.len() as int),
            forall|k: int| 0 <= k < reversed.len() ==> reversed@[k] == input[input.len() - 1 - k],
        decreases rest.len(),
    {
        let x = rest.pop().unwrap();
        reversed.push(x);
        assert(rest@ =~= input.take(rest.len() as int));
    }
    let mut pairs: Vec<(String, T)> = Vec::new();
    let mut taken: usize = 0;
    while reversed.len() > 0
        invariant
            taken + reversed.len() == input.len(),
            input.len() == total,
            names.len() == total,
            forall|k: int| 0 <= k < reversed.len() ==> reversed@[k] == input[input.len() - 1 - k],
            lowercase_keyed(pairs@, input.take(taken as int), views(names@).take(taken as int)),
        decreases reversed.len(),
    {
        let x = reversed.pop().unwrap();
        proof {
            assert(x == input[taken as int]);
        }
        let key = to_lowercase(names[taken].as_str());
        let ghost before = pairs@;
        pairs.push((key, x));
        proof {
            assert(views(names@)[taken as int] == names@[taken as int]@);
            assert forall|k: int| 0 <= k < taken + 1 implies (#[trigger] pairs@[k]).1 == input.take(taken + 1)[k]
                && pairs@[k].0@ == spec_to_lowercase(views(names@).take(taken + 1)[k]) by {
                if k < taken {
                    assert(pairs@[k] == before[k]);
                    assert(input.take(taken + 1)[k] == input.take(taken as int)[k]);
                    assert(views(names@).take(taken + 1)[k] == views(names@).take(taken as int)[k]);
                }
            }
        }
        taken = taken + 1;
    }
    proof {
        assert(input.take(input.len() as int) =~= input);
        assert(views(names@).take(total as int) =~= views(names@));
    }
    let ghost keyed = pairs@;
    let sorted = sort_by_key(pairs);
    let ghost all = sorted@;
    let mut back = sorted;
    let mut queue: Vec<(String, T)> = Vec::new();
    let n: usize = back.len();
    proof {
        assert(all.take(all.len() as int) =~= all);
    }
    while back.len() > 0
        invariant
            all.len() == back.len() + queue.len(),
            all.len() == n,
            back@ == all.take(back.len() as int),
            forall|k: int| 0 <= k < queue.len() ==> queue@[k] == all[all.len() - 1 - k],
        decreases back.len(),
    {
        let x = back.pop().unwrap();
        queue.push(x);
        assert(back@ =~= all.take(back.len() as int));
    }
    let mut out: Vec<T> = Vec::new();
    let mut done: usize = 0;
    while queue.len() > 0
        invariant
            done + queue.len() == all.len(),
            all.len() == n,
            forall|k: int| 0 <= k < queue.len() ==> queue@[k] == all[all.len() - 1 - k],
            out@ == pair_values(all.take(done as int)),
        decreases queue.len(),
    {
        let x = queue.pop().unwrap();
        proof {
            assert(x == all[done as int]);
        }
        out.push(x.1);
        done = done + 1;
        assert(out@ =~= pair_values(all.take(done as int)));
    }
    proof {
        assert(all.take(all.len() as int) =~= all);
        assert(lowercase_keyed(keyed, input, views(names@)));
    }
    out
}

// ------------------------------------------------------------ line lists

/// Every line trimmed.
pub open spec fn trim_all(ls: Seq<Seq<char>>) -> Seq<Seq<char>> {
    ls.map_values(|l: Seq<char>| spec_trim(l))
}

/// The non-empty lines, in order.
pub open spec fn keep_nonempty(ls: Seq<Seq<char>>) -> Seq<Seq<char>>
    decreases ls.len(),
{
    if ls.len() == 0 {
        seq![]
    } else if ls.last().len() > 0 {
        keep_nonempty(ls.drop_last()).push(ls.last())
    } else {
        keep_nonempty(ls.drop_last())
    }
}

/// The lines that are not blank (whitespace only), in order.
pub open spec fn keep_not_blank(ls: Seq<Seq<char>>) -> Seq<Seq<char>>
    decreases ls.len(),
{
    if ls.len() == 0 {
        seq![]
    } else if !is_blank(ls.last()) {
        keep_not_blank(ls.drop_last()).push(ls.last())
    } else {
        keep_not_blank(ls.drop_last())
    }
}

/// `lines()` with every line trimmed, as owned strings.
pub fn trimmed_lines(s: &str) -> (out: Vec<String>)
    ensures
        views(out@) == trim_all(spec_lines(s@)),
{
    let raw = lines(s);
    let mut out: Vec<String> = Vec::new();
    let mut i: usize = 0;
    while i < raw.len()
        invariant
            i <= raw.len(),
            views(raw@) == spec_lines(s@),
            out.len() == i,
            views(out@) == trim_all(views(raw@).take(i as int)),
        decreases raw.len() - i,
    {
        let t = trim(raw[i].as_str());
        let ghost before = out@;
        out.push(t);
        proof {
            let a = views(out@);
            let b = trim_all(views(raw@).take(i + 1));
            assert(a.len() == b.len());
            assert forall|j: int| 0 <= j < a.len() implies a[j] == b[j] by {
                if j < i {
                    assert(a[j] == views(before)[j]);
                } else {
                    assert(views(raw@).take(i + 1)[j] == raw@[i as int]@);
                }
            }
            assert(a =~= b);
        }
        i = i + 1;
    }
    assert(views(raw@).take(raw.len() as int) =~= views(raw@));
    out
}

/// The non-empty strings of `v`, in order.
pub fn nonempty_strings(v: &Vec<String>) -> (out: Vec<String>)
    ensures
        views(out@) == keep_nonempty(views(v@)),
{
    let mut out: Vec<String> = Vec::new();
    let mut i: usize = 0;
    while i < v.len()
        invariant
            i <= v.len(),
            views(out@) == keep_nonempty(views(v@).take(i as int)),
        decreases v.len() - i,
    {
        proof {
            assert(views(v@).take(i + 1).drop_last() =~= views(v@).take(i as int));
        }
        if v[i].as_str().unicode_len() > 0 {
            let ghost before = out@;
            out.push(v[i].clone());
            assert(views(out@) =~= views(before).push(v@[i as int]@));
        }
        i = i + 1;
    }
    assert(views(v@).take(v.len() as int) =~= views(v@));
    out
}


// -------------------------------------------------------------- positions

/// Index of the first element equal to `x`, or -1 (`Iterator::position`).
pub open spec fn position_of(v: Seq<Seq<char>>, x: Seq<char>) -> int
    decreases v.len(),
{
    if v.len() == 0 {
        -1
    } else if v[0] == x {
        0
    } else {
        let r = position_of(v.drop_first(), x);
        if r < 0 {
            -1
        } else {
            r + 1
        }
    }
}

/// Index of the first element equal to `x` ignoring ASCII case, or -1.
pub open spec fn position_ignore_case(v: Seq<Seq<char>>, x: Seq<char>) -> int
    decreases v.len(),
{
    if v.len() == 0 {
        -1
    } else if eq_ignore_case(v[0], x) {
        0
    } else {
        let r = position_ignore_case(v.drop_first(), x);
        if r < 0 {
            -1
        } else {
            r + 1
        }
    }
}

/// An element equal to `x` is found exactly when `x` occurs in `v`.
pub proof fn lemma_position_found(v: Seq<Seq<char>>, x: Seq<char>)
    ensures
        (position_of(v, x) >= 0) <==> v.contains(x),
        position_of(v, x) < v.len(),
        position_of(v, x) >= 0 ==> v[position_of(v, x)] == x,
    decreases v.len(),
{
    if v.len() > 0 {
        lemma_position_found(v.drop_first(), x);
        if v[0] != x {
            if v.contains(x) {
                let k = choose|k: int| 0 <= k < v.len() && v[k] == x;
                assert(v.drop_first()[k - 1] == x);
            }
            if v.drop_first().contains(x) {
                let k = choose|k: int| 0 <= k < v.len() - 1 && v.drop_first()[k] == x;
                assert(v[k + 1] == x);
            }
        } else {
            assert(v[0] == x);
        }
    }
}

/// `columns.iter().position(|c| c == name)`.
pub fn position(v: &Vec<String>, x: &str) -> (r: Option<usize>)
    ensures
        match r {
            Some(i) => position_of(views(v@), x@) == i && i < v.len(),
            None => position_of(views(v@), x@) < 0,
        },
{
    let mut i: usize = 0;
    proof {
        assert(views(v@).skip(0) =~= views(v@));
    }
    while i < v.len()
        invariant
            i <= v.len(),
            position_of(views(v@), x@) == (if position_of(views(v@).skip(i as int), x@) < 0 {
                -1
            } else {
                position_of(views(v@).skip(i as int), x@) + i
            }),
        decreases v.len() - i,
    {
        proof {
            assert(views(v@).skip(i as int)[0] == v@[i as int]@);
            assert(views(v@).skip(i as int).drop_first() =~= views(v@).skip(i + 1));
        }
        if str_eq(v[i].as_str(), x) {
            return Some(i);
        }
        i = i + 1;
    }
    proof {
        assert(views(v@).skip(i as int) =~= Seq::<Seq<char>>::empty());
    }
    None
}

/// `columns.iter().position(|c| c.eq_ignore_ascii_case(name))`.
pub fn position_ignoring_case(v: &Vec<String>, x: &str) -> (r: Option<usize>)
    ensures
        match r {
            Some(i) => position_ignore_case(views(v@), x@) == i && i < v.len(),
            None => position_ignore_case(views(v@), x@) < 0,
        },
{
    let mut i: usize = 0;
    proof {
        assert(views(v@).skip(0) =~= views(v@));
    }
    while i < v.len()
        invariant
            i <= v.len(),
            position_ignore_case(views(v@), x@) == (if position_ignore_case(
                views(v@).skip(i as int),
                x@,
            ) < 0 {
                -1
            } else {
                position_ignore_case(views(v@).skip(i as int), x@) + i
            }),
        decreases v.len() - i,
    {
        proof {
            assert(views(v@).skip(i as int)[0] == v@[i as int]@);
            assert(views(v@).skip(i as int).drop_first() =~= views(v@).skip(i + 1));
        }
        if eq_ignore_ascii_case(v[i].as_str(), x) {
            return Some(i);
        }
        i = i + 1;
    }
    proof {
        assert(views(v@).skip(i as int) =~= Seq::<Seq<char>>::empty());
    }
    None
}

/// The element at `i`, when there is one (`slice::get`).
pub open spec fn get_view(v: Seq<Seq<char>>, i: int) -> Option<Seq<char>> {
    if 0 <= i < v.len() {
        Some(v[i])
    } else {
        None
    }
}

/// A copy of the element at `i`, when there is one.
pub fn get_cloned(v: &Vec<String>, i: usize) -> (r: Option<String>)
    ensures
        match r {
            Some(s) => get_view(views(v@), i as int) == Some(s@),
            None => get_view(views(v@), i as int) is None,
        },
{
    if i < v.len() {
        Some(v[i].clone())
    } else {
        None
    }
}

} // verus!
