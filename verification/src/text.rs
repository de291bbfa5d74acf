//! Character-level helpers on strings, stated over `Seq<char>`.
use vstd::prelude::*;
use vstd::string::StrSliceExecFns;
use vstd::string::StringExecFns;

verus! {

/// The last position below `n` at which `s` holds `c`.
pub open spec fn last_index_below(s: Seq<char>, c: char, n: int) -> Option<int>
    decreases n,
{
    if n <= 0 {
        None
    } else if s[n - 1] == c {
        Some(n - 1)
    } else {
        last_index_below(s, c, n - 1)
    }
}

/// The last position at which `s` holds `c`.
pub open spec fn last_index_of(s: Seq<char>, c: char) -> Option<int> {
    last_index_below(s, c, s.len() as int)
}

/// The first position at or after `from` at which `s` holds `c`.
pub open spec fn first_index_from(s: Seq<char>, c: char, from: int) -> Option<int>
    decreases s.len() - from,
{
    if from < 0 || from >= s.len() {
        None
    } else if s[from] == c {
        Some(from)
    } else {
        first_index_from(s, c, from + 1)
    }
}

/// The first position at or after `from` where the two characters `a`, `b` follow each other.
pub open spec fn first_pair_from(s: Seq<char>, a: char, b: char, from: int) -> Option<int>
    decreases s.len() - from,
{
    if from < 0 || from + 1 >= s.len() {
        None
    } else if s[from] == a && s[from + 1] == b {
        Some(from)
    } else {
        first_pair_from(s, a, b, from + 1)
    }
}

pub proof fn lemma_last_index_below_bounds(s: Seq<char>, c: char, n: int)
    requires
        n <= s.len(),
    ensures
        last_index_below(s, c, n) matches Some(i) ==> 0 <= i < n && s[i] == c,
        last_index_below(s, c, n) is None ==> forall|j: int| 0 <= j < n ==> s[j] != c,
        last_index_below(s, c, n) matches Some(i) ==> forall|j: int| i < j < n ==> s[j] != c,
    decreases n,
{
    if n > 0 && s[n - 1] != c {
        lemma_last_index_below_bounds(s, c, n - 1);
    }
}

pub proof fn lemma_first_index_from_bounds(s: Seq<char>, c: char, from: int)
    requires
        0 <= from,
    ensures
        first_index_from(s, c, from) matches Some(i) ==> from <= i < s.len() && s[i] == c,
        first_index_from(s, c, from) matches Some(i) ==> forall|j: int| from <= j < i ==> s[j]
            != c,
        first_index_from(s, c, from) is None ==> forall|j: int| from <= j < s.len() ==> s[j]
            != c,
    decreases s.len() - from,
{
    if from < s.len() && s[from] != c {
        lemma_first_index_from_bounds(s, c, from + 1);
    }
}

pub proof fn lemma_first_pair_from_bounds(s: Seq<char>, a: char, b: char, from: int)
    requires
        0 <= from,
    ensures
        first_pair_from(s, a, b, from) matches Some(i) ==> from <= i && i + 1 < s.len() && s[i]
            == a && s[i + 1] == b,
    decreases s.len() - from,
{
    if from + 1 < s.len() && !(s[from] == a && s[from + 1] == b) {
        lemma_first_pair_from_bounds(s, a, b, from + 1);
    }
}

/// Position of the last occurrence of `c` in `s`.
pub fn rfind_char(s: &str, c: char) -> (r: Option<usize>)
    ensures
        match r {
            Some(i) => last_index_of(s@, c) == Some(i as int),
            None => last_index_of(s@, c) is None,
        },
{
    let n = s.unicode_len();
    let mut i = n;
    while i > 0
        invariant
            n == s@.len(),
            i <= n,
            last_index_of(s@, c) == last_index_below(s@, c, i as int),
        decreases i,
    {
        if s.get_char(i - 1) == c {
            return Some(i - 1);
        }
        i = i - 1;
    }
    None
}

/// Position of the first occurrence of `c` in `s` at or after `from`.
pub fn find_char_from(s: &str, c: char, from: usize) -> (r: Option<usize>)
    ensures
        match r {
            Some(i) => first_index_from(s@, c, from as int) == Some(i as int),
            None => first_index_from(s@, c, from as int) is None,
        },
{
    let n = s.unicode_len();
    let mut i = from;
    while i < n
        invariant
            n == s@.len(),
            from <= i,
            first_index_from(s@, c, from as int) == first_index_from(s@, c, i as int),
        decreases n - i,
    {
        if s.get_char(i) == c {
            return Some(i);
        }
        i = i + 1;
    }
    None
}

/// Position of the first occurrence of the pair `a b` in `s` at or after `from`.
pub fn find_pair_from(s: &str, a: char, b: char, from: usize) -> (r: Option<usize>)
    ensures
        match r {
            Some(i) => first_pair_from(s@, a, b, from as int) == Some(i as int),
            None => first_pair_from(s@, a, b, from as int) is None,
        },
{
    let n = s.unicode_len();
    let mut i = from;
    while i < n && i + 1 < n
        invariant
            n == s@.len(),
            from <= i,
            first_pair_from(s@, a, b, from as int) == first_pair_from(s@, a, b, i as int),
        decreases n - i,
    {
        if s.get_char(i) == a && s.get_char(i + 1) == b {
            return Some(i);
        }
        i = i + 1;
    }
    None
}

/// A new string holding the characters of `s` from `from` up to `to`.
pub fn substring(s: &str, from: usize, to: usize) -> (r: String)
    requires
        from <= to <= s@.len(),
    ensures
        r@ == s@.subrange(from as int, to as int),
{
    String::from_str(s.substring_char(from, to))
}

/// `a` followed by `b`, as a new string.
pub fn concat2(a: &str, b: &str) -> (r: String)
    ensures
        r@ == a@ + b@,
{
    let mut r = String::from_str(a);
    r.append(b);
    r
}

/// `a`, `b` and `c` in turn, as a new string.
pub fn concat3(a: &str, b: &str, c: &str) -> (r: String)
    ensures
        r@ == a@ + b@ + c@,
{
    let mut r = String::from_str(a);
    r.append(b);
    r.append(c);
    r
}

/// Whether two strings hold the same characters.
pub fn str_eq(a: &str, b: &str) -> (r: bool)
    ensures
        r == (a@ == b@),
{
    let n = a.unicode_len();
    let m = b.unicode_len();
    if n != m {
        return false;
    }
    let mut i: usize = 0;
    while i < n
        invariant
            n == a@.len(),
            m == b@.len(),
            n == m,
            i <= n,
            forall|j: int| 0 <= j < i ==> a@[j] == b@[j],
        decreases n - i,
    {
        if a.get_char(i) != b.get_char(i) {
            return false;
        }
        i = i + 1;
    }
    assert(a@ =~= b@);
    true
}

/// Lexicographic order on character sequences (the order of `str`, by code point).
pub open spec fn seq_lt(a: Seq<char>, b: Seq<char>) -> bool
    decreases a.len(),
{
    if b.len() == 0 {
        false
    } else if a.len() == 0 {
        true
    } else if a[0] != b[0] {
        (a[0] as int) < (b[0] as int)
    } else {
        seq_lt(a.drop_first(), b.drop_first())
    }
}

/// Three-way lexicographic comparison on characters: -1, 0 or 1.
pub fn compare_str(a: &str, b: &str) -> (r: i8)
    ensures
        r == -1 <==> seq_lt(a@, b@),
        r == 0 <==> a@ == b@,
        r == 1 <==> seq_lt(b@, a@),
        r == -1 || r == 0 || r == 1,
{
    let n = a.unicode_len();
    let m = b.unicode_len();
    let mut i: usize = 0;
    assert(a@.skip(0) =~= a@);
    assert(b@.skip(0) =~= b@);
    while i < n && i < m
        invariant
            n == a@.len(),
            m == b@.len(),
            i <= n,
            i <= m,
            a@.subrange(0, i as int) == b@.subrange(0, i as int),
            seq_lt(a@, b@) == seq_lt(a@.skip(i as int), b@.skip(i as int)),
            seq_lt(b@, a@) == seq_lt(b@.skip(i as int), a@.skip(i as int)),
        decreases n - i,
    {
        let x = a.get_char(i);
        let y = b.get_char(i);
        if x != y {
            assert(a@.skip(i as int)[0] == x);
            assert(b@.skip(i as int)[0] == y);
            if x < y {
                return -1;
            } else {
                return 1;
            }
        }
        assert(a@.skip(i as int).drop_first() =~= a@.skip(i + 1));
        assert(b@.skip(i as int).drop_first() =~= b@.skip(i + 1));
        assert(a@.subrange(0, i + 1) =~= a@.subrange(0, i as int).push(x));
        assert(b@.subrange(0, i + 1) =~= b@.subrange(0, i as int).push(y));
        i = i + 1;
    }
    if n == m {
        assert(a@ =~= a@.subrange(0, i as int));
        assert(b@ =~= b@.subrange(0, i as int));
        assert(a@.skip(i as int).len() == 0);
        0
    } else if i == n {
        assert(a@.skip(i as int).len() == 0);
        assert(b@.skip(i as int).len() > 0);
        assert(a@ != b@) by {
            assert(a@.len() != b@.len());
        }
        -1
    } else {
        assert(b@.skip(i as int).len() == 0);
        assert(a@.skip(i as int).len() > 0);
        assert(a@.len() != b@.len());
        1
    }
}


pub proof fn lemma_seq_lt_irreflexive(a: Seq<char>)
    ensures
        !seq_lt(a, a),
    decreases a.len(),
{
    if a.len() > 0 {
        lemma_seq_lt_irreflexive(a.drop_first());
    }
}

pub proof fn lemma_seq_lt_asymmetric(a: Seq<char>, b: Seq<char>)
    ensures
        seq_lt(a, b) ==> !seq_lt(b, a),
    decreases a.len(),
{
    if a.len() > 0 && b.len() > 0 && a[0] == b[0] {
        lemma_seq_lt_asymmetric(a.drop_first(), b.drop_first());
    }
}

pub proof fn lemma_seq_lt_transitive(a: Seq<char>, b: Seq<char>, c: Seq<char>)
    ensures
        seq_lt(a, b) && seq_lt(b, c) ==> seq_lt(a, c),
    decreases a.len(),
{
    if a.len() > 0 && b.len() > 0 && c.len() > 0 {
        lemma_seq_lt_transitive(a.drop_first(), b.drop_first(), c.drop_first());
    }
}

pub proof fn lemma_seq_lt_total(a: Seq<char>, b: Seq<char>)
    ensures
        a != b ==> seq_lt(a, b) || seq_lt(b, a),
    decreases a.len(),
{
    if a.len() > 0 && b.len() > 0 {
        lemma_seq_lt_total(a.drop_first(), b.drop_first());
        if a[0] == b[0] && a != b {
            assert(a.drop_first() != b.drop_first()) by {
                if a.drop_first() == b.drop_first() {
                    assert(a =~= seq![a[0]] + a.drop_first());
                    assert(b =~= seq![b[0]] + b.drop_first());
                }
            }
        }
    } else if a.len() == 0 && b.len() == 0 {
        assert(a =~= b);
    }
}

/// Every earlier name comes strictly before every later one.
pub open spec fn strictly_sorted(s: Seq<Seq<char>>) -> bool {
    forall|i: int, j: int| 0 <= i < j < s.len() ==> seq_lt(s[i], s[j])
}

/// The names of a finite set in increasing order.
pub open spec fn sorted_names(names: Set<Seq<char>>) -> Seq<Seq<char>> {
    choose|s: Seq<Seq<char>>| strictly_sorted(s) && s.to_set() == names
}

/// `parts` joined with `sep` between neighbours.
pub open spec fn join(parts: Seq<Seq<char>>, sep: Seq<char>) -> Seq<char>
    decreases parts.len(),
{
    if parts.len() == 0 {
        Seq::empty()
    } else if parts.len() == 1 {
        parts[0]
    } else {
        join(parts.drop_last(), sep) + sep + parts.last()
    }
}

pub proof fn lemma_strictly_sorted_unique(a: Seq<Seq<char>>, b: Seq<Seq<char>>)
    requires
        strictly_sorted(a),
        strictly_sorted(b),
        a.to_set() == b.to_set(),
    ensures
        a == b,
    decreases a.len(),
{
    if a.len() == 0 {
        if b.len() > 0 {
            assert(b.to_set().contains(b[0]));
        }
        assert(a =~= b);
    } else if b.len() == 0 {
        assert(a.to_set().contains(a[0]));
    } else {
        assert(b.to_set().contains(a[0]));
        assert(a.to_set().contains(b[0]));
        let j = choose|j: int| 0 <= j < b.len() && b[j] == a[0];
        let k = choose|k: int| 0 <= k < a.len() && a[k] == b[0];
        if a[0] != b[0] {
            assert(j != 0 && k != 0);
            assert(seq_lt(b[0], b[j]));
            assert(seq_lt(a[0], a[k]));
            lemma_seq_lt_asymmetric(a[0], b[0]);
            assert(false);
        }
        let a1 = a.drop_first();
        let b1 = b.drop_first();
        assert forall|x: Seq<char>| a1.to_set().contains(x) == b1.to_set().contains(x) by {
            if a1.to_set().contains(x) {
                let i = choose|i: int| 0 <= i < a1.len() && a1[i] == x;
                assert(a[i + 1] == x);
                assert(seq_lt(a[0], x));
                lemma_seq_lt_irreflexive(x);
                assert(x != b[0]);
                assert(a.to_set().contains(x));
                assert(b.to_set().contains(x));
                let m = choose|m: int| 0 <= m < b.len() && b[m] == x;
                assert(m != 0);
                assert(b1[m - 1] == x);
            }
            if b1.to_set().contains(x) {
                let i = choose|i: int| 0 <= i < b1.len() && b1[i] == x;
                assert(b[i + 1] == x);
                assert(seq_lt(b[0], x));
                lemma_seq_lt_irreflexive(x);
                assert(x != a[0]);
                assert(b.to_set().contains(x));
                assert(a.to_set().contains(x));
                let m = choose|m: int| 0 <= m < a.len() && a[m] == x;
                assert(m != 0);
                assert(a1[m - 1] == x);
            }
        }
        assert(a1.to_set() =~= b1.to_set());
        lemma_strictly_sorted_unique(a1, b1);
        assert(a =~= seq![a[0]] + a1);
        assert(b =~= seq![b[0]] + b1);
    }
}

/// The views of a list of strings.
pub open spec fn strings_view(v: Seq<String>) -> Seq<Seq<char>> {
    v.map_values(|s: String| s@)
}

/// The strings in increasing order; the strings must be distinct.
pub fn sort_strings(v: &Vec<String>) -> (r: Vec<String>)
    requires
        strings_view(v@).no_duplicates(),
    ensures
        strictly_sorted(strings_view(r@)),
        strings_view(r@).to_set() == strings_view(v@).to_set(),
{
    let mut out: Vec<String> = Vec::new();
    let mut i: usize = 0;
    while i < v.len()
        invariant
            i <= v@.len(),
            strings_view(v@).no_duplicates(),
            strictly_sorted(strings_view(out@)),
            strings_view(out@).to_set() == strings_view(v@).subrange(0, i as int).to_set(),
        decreases v@.len() - i,
    {
        let key = v[i].clone();
        let ghost kv = key@;
        let ghost ov = strings_view(out@);
        assert(!ov.to_set().contains(kv)) by {
            if ov.to_set().contains(kv) {
                let m = choose|m: int| 0 <= m < i && strings_view(v@)[m] == kv;
                assert(strings_view(v@)[i as int] == kv);
            }
        }
        let mut p: usize = 0;
        while p < out.len() && compare_str(out[p].as_str(), key.as_str()) == -1
            invariant
                p <= out@.len(),
                ov == strings_view(out@),
                kv == key@,
                forall|j: int| 0 <= j < p ==> seq_lt(ov[j], kv),
            decreases out@.len() - p,
        {
            p = p + 1;
        }
        proof {
            if p < ov.len() {
                assert(!seq_lt(ov[p as int], kv));
                assert(ov.to_set().contains(ov[p as int]));
                lemma_seq_lt_total(ov[p as int], kv);
                assert(seq_lt(kv, ov[p as int]));
                assert forall|j: int| p <= j < ov.len() implies seq_lt(kv, ov[j]) by {
                    if j > p {
                        lemma_seq_lt_transitive(kv, ov[p as int], ov[j]);
                    }
                }
            }
        }
        out.insert(p, key);
        proof {
            let nv = strings_view(out@);
            assert(nv =~= ov.insert(p as int, kv));
            assert forall|a: int, b: int| 0 <= a < b < nv.len() implies seq_lt(nv[a], nv[b]) by {
                if a < p && b < p {
                } else if a < p && b == p {
                } else if a < p && b > p {
                    assert(nv[b] == ov[b - 1]);
                } else if a == p {
                    assert(nv[b] == ov[b - 1]);
                } else {
                    assert(nv[a] == ov[a - 1]);
                    assert(nv[b] == ov[b - 1]);
                }
            }
            let pre = strings_view(v@).subrange(0, i as int);
            let pre1 = strings_view(v@).subrange(0, i + 1);
            assert(pre1 =~= pre.push(kv));
            assert(ov.to_set() == pre.to_set());
            assert forall|x: Seq<char>| nv.to_set().contains(x) == pre1.to_set().contains(x) by {
                if nv.to_set().contains(x) {
                    let m = choose|m: int| 0 <= m < nv.len() && nv[m] == x;
                    if m < p {
                        assert(ov[m] == x);
                        assert(ov.to_set().contains(x));
                    } else if m > p {
                        assert(ov[m - 1] == x);
                        assert(ov.to_set().contains(x));
                    }
                    if x != kv {
                        assert(pre.to_set().contains(x));
                        let q = choose|q: int| 0 <= q < pre.len() && pre[q] == x;
                        assert(pre1[q] == x);
                    } else {
                        assert(pre1[i as int] == x);
                    }
                }
                if pre1.to_set().contains(x) {
                    let q = choose|q: int| 0 <= q < pre1.len() && pre1[q] == x;
                    if q < i {
                        assert(pre[q] == x);
                        assert(pre.to_set().contains(x));
                        let m = choose|m: int| 0 <= m < ov.len() && ov[m] == x;
                        if m < p {
                            assert(nv[m] == x);
                        } else {
                            assert(nv[m + 1] == x);
                        }
                    } else {
                        assert(nv[p as int] == x);
                    }
                }
            }
            assert(nv.to_set() =~= strings_view(v@).subrange(0, i + 1).to_set());
        }
        i = i + 1;
    }
    assert(strings_view(v@).subrange(0, v@.len() as int) =~= strings_view(v@));
    out
}

/// The strings joined with `sep` between neighbours.
pub fn join_strings(parts: &Vec<String>, sep: &str) -> (r: String)
    ensures
        r@ == join(strings_view(parts@), sep@),
{
    let mut out = String::new();
    let mut i: usize = 0;
    while i < parts.len()
        invariant
            i <= parts@.len(),
            out@ == join(strings_view(parts@).subrange(0, i as int), sep@),
        decreases parts@.len() - i,
    {
        let ghost prefix = strings_view(parts@).subrange(0, i + 1);
        assert(prefix.drop_last() =~= strings_view(parts@).subrange(0, i as int));
        if i > 0 {
            out.append(sep);
        }
        out.append(parts[i].as_str());
        proof {
            if i == 0 {
                assert(strings_view(parts@).subrange(0, 0).len() == 0);
                assert(out@ =~= prefix[0]);
            }
        }
        i = i + 1;
    }
    assert(strings_view(parts@).subrange(0, parts@.len() as int) =~= strings_view(parts@));
    out
}


/// Whether `p` occurs in `s` at position `i`.
pub open spec fn occurs_at(s: Seq<char>, p: Seq<char>, i: int) -> bool {
    0 <= i && i + p.len() <= s.len() && s.subrange(i, i + p.len()) == p
}

/// Whether `p` occurs somewhere in `s` (the empty pattern occurs everywhere).
pub open spec fn seq_contains(s: Seq<char>, p: Seq<char>) -> bool {
    exists|i: int| occurs_at(s, p, i)
}

/// Whether `s` occurs in `text` at position `at`.
fn occurs_at_exec(text: &str, p: &str, at: usize) -> (r: bool)
    requires
        at + p@.len() <= text@.len(),
    ensures
        r == occurs_at(text@, p@, at as int),
{
    let n = text.unicode_len();
    let m = p.unicode_len();
    let mut j: usize = 0;
    while j < m
        invariant
            n == text@.len(),
            m == p@.len(),
            at + m <= text@.len(),
            j <= m,
            forall|k: int| 0 <= k < j ==> text@[at + k] == p@[k],
        decreases m - j,
    {
        if text.get_char(at + j) != p.get_char(j) {
            assert(text@.subrange(at as int, at + m)[j as int] != p@[j as int]);
            return false;
        }
        j = j + 1;
    }
    assert(text@.subrange(at as int, at + m) =~= p@);
    true
}

/// Whether `pattern` occurs in `value`.
pub fn str_contains(value: &str, pattern: &str) -> (r: bool)
    ensures
        r == seq_contains(value@, pattern@),
{
    let n = value.unicode_len();
    let m = pattern.unicode_len();
    if m > n {
        assert forall|i: int| !occurs_at(value@, pattern@, i) by {}
        return false;
    }
    let last = n - m;
    let mut i: usize = 0;
    loop
        invariant
            n == value@.len(),
            m == pattern@.len(),
            last == n - m,
            i <= last,
            forall|k: int| 0 <= k < i ==> !occurs_at(value@, pattern@, k),
        decreases last - i,
    {
        if occurs_at_exec(value, pattern, i) {
            return true;
        }
        if i == last {
            assert forall|k: int| !occurs_at(value@, pattern@, k) by {
                if 0 <= k && k + m <= n {
                    assert(k <= i);
                }
            }
            return false;
        }
        i = i + 1;
    }
}

/// Whether `value` begins with `pattern`.
pub fn str_starts_with(value: &str, pattern: &str) -> (r: bool)
    ensures
        r == occurs_at(value@, pattern@, 0),
{
    let n = value.unicode_len();
    let m = pattern.unicode_len();
    if m > n {
        return false;
    }
    occurs_at_exec(value, pattern, 0)
}

/// Whether `value` ends with `pattern`.
pub fn str_ends_with(value: &str, pattern: &str) -> (r: bool)
    ensures
        r == occurs_at(value@, pattern@, value@.len() - pattern@.len()),
{
    let n = value.unicode_len();
    let m = pattern.unicode_len();
    if m > n {
        return false;
    }
    occurs_at_exec(value, pattern, n - m)
}

/// What `str::to_uppercase` makes of the characters.
pub uninterp spec fn std_to_uppercase(s: Seq<char>) -> Seq<char>;

/// What `str::to_lowercase` makes of the characters.
pub uninterp spec fn std_to_lowercase(s: Seq<char>) -> Seq<char>;

/// Calls `str::to_uppercase` (Unicode upper-case mapping).
#[verifier::external_body]
pub(crate) fn to_uppercase(s: &str) -> (r: String)
    ensures
        r@ == std_to_uppercase(s@),
{
    s.to_uppercase()
}

/// Calls `str::to_lowercase` (Unicode lower-case mapping).
#[verifier::external_body]
pub(crate) fn to_lowercase(s: &str) -> (r: String)
    ensures
        r@ == std_to_lowercase(s@),
{
    s.to_lowercase()
}

// --- Trimming -----------------------------------------------------------------

/// Whether `c` has the Unicode `White_Space` property, which `char::is_whitespace` and
/// `str::trim` go by.
pub open spec fn is_white_space(c: char) -> bool {
    ('\u{9}' <= c && c <= '\u{d}') || c == ' ' || c == '\u{85}' || c == '\u{a0}' || c
        == '\u{1680}' || ('\u{2000}' <= c && c <= '\u{200a}') || c == '\u{2028}' || c
        == '\u{2029}' || c == '\u{202f}' || c == '\u{205f}' || c == '\u{3000}'
}

/// `s` without its leading white space.
pub open spec fn trim_start(s: Seq<char>) -> Seq<char>
    decreases s.len(),
{
    if s.len() > 0 && is_white_space(s[0]) {
        trim_start(s.drop_first())
    } else {
        s
    }
}

/// `s` without its trailing white space.
pub open spec fn trim_end(s: Seq<char>) -> Seq<char>
    decreases s.len(),
{
    if s.len() > 0 && is_white_space(s.last()) {
        trim_end(s.drop_last())
    } else {
        s
    }
}

/// `s` without leading or trailing white space, as `str::trim` leaves it.
pub open spec fn trimmed(s: Seq<char>) -> Seq<char> {
    trim_end(trim_start(s))
}

fn white_space(c: char) -> (r: bool)
    ensures
        r == is_white_space(c),
{
    ('\u{9}' <= c && c <= '\u{d}') || c == ' ' || c == '\u{85}' || c == '\u{a0}' || c
        == '\u{1680}' || ('\u{2000}' <= c && c <= '\u{200a}') || c == '\u{2028}' || c
        == '\u{2029}' || c == '\u{202f}' || c == '\u{205f}' || c == '\u{3000}'
}

/// `s` without leading or trailing white space (see [`trimmed`]).
pub fn trim(s: &str) -> (r: String)
    ensures
        r@ == trimmed(s@),
{
    let n = s.unicode_len();
    let mut i: usize = 0;
    assert(s@.subrange(0, n as int) =~= s@);
    while i < n && white_space(s.get_char(i))
        invariant
            n == s@.len(),
            i <= n,
            trim_start(s@) == trim_start(s@.subrange(i as int, n as int)),
        decreases n - i,
    {
        assert(s@.subrange(i + 1, n as int) =~= s@.subrange(i as int, n as int).drop_first());
        i = i + 1;
    }
    assert(trim_start(s@.subrange(i as int, n as int)) == s@.subrange(i as int, n as int));
    let mut j: usize = n;
    while j > i && white_space(s.get_char(j - 1))
        invariant
            n == s@.len(),
            i <= j <= n,
            trim_end(s@.subrange(i as int, n as int)) == trim_end(s@.subrange(i as int, j as int)),
        decreases j - i,
    {
        assert(s@.subrange(i as int, j - 1) =~= s@.subrange(i as int, j as int).drop_last());
        j = j - 1;
    }
    assert(trim_end(s@.subrange(i as int, j as int)) == s@.subrange(i as int, j as int));
    substring(s, i, j)
}

// --- Splitting and replacing -------------------------------------------------

/// The first position at or after `from` at which `p` occurs in `s`.
pub open spec fn first_match_from(s: Seq<char>, p: Seq<char>, from: int) -> Option<int>
    decreases s.len() + 1 - from,
{
    if from < 0 || from + p.len() > s.len() {
        None
    } else if occurs_at(s, p, from) {
        Some(from)
    } else {
        first_match_from(s, p, from + 1)
    }
}

pub proof fn lemma_first_match_from_bounds(s: Seq<char>, p: Seq<char>, from: int)
    requires
        0 <= from,
    ensures
        first_match_from(s, p, from) matches Some(i) ==> from <= i && i + p.len() <= s.len()
            && occurs_at(s, p, i),
    decreases s.len() + 1 - from,
{
    if from + p.len() <= s.len() && !occurs_at(s, p, from) {
        lemma_first_match_from_bounds(s, p, from + 1);
    }
}

/// The pieces of `s` between the matches of `d`, as `str::split` gives them. A non-empty
/// `d` is matched left to right without overlap; the empty `d` matches at the start,
/// between every two characters and at the end.
pub open spec fn split_pieces(s: Seq<char>, d: Seq<char>) -> Seq<Seq<char>>
    decreases s.len(),
{
    if d.len() == 0 {
        seq![Seq::<char>::empty()] + s.map_values(|c: char| seq![c]) + seq![Seq::<char>::empty()]
    } else {
        match first_match_from(s, d, 0) {
            Some(i) => {
                proof {
                    lemma_first_match_from_bounds(s, d, 0);
                }
                seq![s.subrange(0, i)] + split_pieces(s.subrange(i + d.len(), s.len() as int), d)
            },
            None => seq![s],
        }
    }
}

/// `s` with every match of `from` replaced by `to`, as `str::replace` gives it: the
/// pieces between the matches joined with `to`.
pub open spec fn replaced(s: Seq<char>, from: Seq<char>, to: Seq<char>) -> Seq<char> {
    join(split_pieces(s, from), to)
}

/// The first match of `p` in `s` at or after `from`.
fn find_match_from(s: &str, p: &str, from: usize) -> (r: Option<usize>)
    requires
        from <= s@.len(),
    ensures
        match r {
            Some(i) => first_match_from(s@, p@, from as int) == Some(i as int),
            None => first_match_from(s@, p@, from as int) is None,
        },
{
    let n = s.unicode_len();
    let m = p.unicode_len();
    let mut i: usize = from;
    loop
        invariant
            n == s@.len(),
            m == p@.len(),
            from <= i <= n,
            first_match_from(s@, p@, from as int) == first_match_from(s@, p@, i as int),
        decreases n - i,
    {
        if m > n - i {
            return None;
        }
        if m == 0 {
            assert(s@.subrange(i as int, i as int) =~= p@);
            return Some(i);
        }
        if occurs_at_exec(s, p, i) {
            return Some(i);
        }
        i = i + 1;
    }
}

/// Splits `s` at the matches of `d` (see [`split_pieces`]).
pub fn split(s: &str, d: &str) -> (r: Vec<String>)
    ensures
        strings_view(r@) == split_pieces(s@, d@),
    decreases s@.len(),
{
    let n = s.unicode_len();
    let m = d.unicode_len();
    if m == 0 {
        let mut out: Vec<String> = Vec::new();
        out.push(String::new());
        let mut i: usize = 0;
        while i < n
            invariant
                n == s@.len(),
                i <= n,
                strings_view(out@) == seq![Seq::<char>::empty()] + s@.subrange(0, i as int).map_values(
                    |c: char| seq![c],
                ),
            decreases n - i,
        {
            let piece = substring(s, i, i + 1);
            assert(piece@ =~= seq![s@[i as int]]);
            let ghost prev = out@;
            out.push(piece);
            assert(strings_view(out@) =~= strings_view(prev).push(piece@));
            assert(s@.subrange(0, i + 1).map_values(|c: char| seq![c]) =~= s@.subrange(
                0,
                i as int,
            ).map_values(|c: char| seq![c]).push(seq![s@[i as int]]));
            i = i + 1;
        }
        let ghost prev = out@;
        out.push(String::new());
        assert(strings_view(out@) =~= strings_view(prev).push(Seq::<char>::empty()));
        assert(s@.subrange(0, n as int) =~= s@);
        return out;
    }
    match find_match_from(s, d, 0) {
        None => {
            let mut out: Vec<String> = Vec::new();
            out.push(String::from_str(s));
            assert(strings_view(out@) =~= seq![s@]);
            out
        },
        Some(i) => {
            proof {
                lemma_first_match_from_bounds(s@, d@, 0);
            }
            let head = substring(s, 0, i);
            let rest = substring(s, i + m, n);
            let mut tail = split(rest.as_str(), d);
            let ghost tail_view = strings_view(tail@);
            let mut out: Vec<String> = Vec::new();
            out.push(head);
            let ghost first = out@;
            out.append(&mut tail);
            assert(strings_view(out@) =~= seq![head@] + tail_view);
            out
        },
    }
}

/// Replaces every match of `from` in `s` by `to` (see [`replaced`]).
pub fn replace(s: &str, from: &str, to: &str) -> (r: String)
    ensures
        r@ == replaced(s@, from@, to@),
{
    join_strings(&split(s, from), to)
}

proof fn lemma_join_prepend(a: Seq<char>, parts: Seq<Seq<char>>, sep: Seq<char>)
    requires
        parts.len() >= 1,
    ensures
        join(seq![a] + parts, sep) == a + sep + join(parts, sep),
    decreases parts.len(),
{
    let all = seq![a] + parts;
    assert(all.len() >= 2);
    assert(all.last() == parts.last());
    if parts.len() == 1 {
        assert(all.drop_last() =~= seq![a]);
        assert(join(all.drop_last(), sep) == a);
        assert(join(parts, sep) == parts[0]);
        assert(join(all, sep) == join(all.drop_last(), sep) + sep + all.last());
    } else {
        assert(all.drop_last() =~= seq![a] + parts.drop_last());
        lemma_join_prepend(a, parts.drop_last(), sep);
        assert(join(all, sep) == join(all.drop_last(), sep) + sep + all.last());
        assert(join(parts, sep) == join(parts.drop_last(), sep) + sep + parts.last());
        assert(join(all, sep) =~= a + sep + join(parts, sep));
    }
}

proof fn lemma_join_characters(s: Seq<char>)
    ensures
        join(seq![Seq::<char>::empty()] + s.map_values(|c: char| seq![c]), Seq::<char>::empty()) == s,
    decreases s.len(),
{
    let parts = seq![Seq::<char>::empty()] + s.map_values(|c: char| seq![c]);
    if s.len() == 0 {
        assert(parts =~= seq![Seq::<char>::empty()]);
    } else {
        lemma_join_characters(s.drop_last());
        assert(parts.drop_last() =~= seq![Seq::<char>::empty()] + s.drop_last().map_values(
            |c: char| seq![c],
        ));
        assert(parts.last() == seq![s.last()]);
        assert(join(parts, Seq::<char>::empty()) =~= s);
    }
}

/// Joining the pieces of a split with the delimiter gives back the string.
pub proof fn lemma_join_split(s: Seq<char>, d: Seq<char>)
    ensures
        split_pieces(s, d).len() >= 1,
        join(split_pieces(s, d), d) == s,
    decreases s.len(),
{
    if d.len() == 0 {
        let front = seq![Seq::<char>::empty()] + s.map_values(|c: char| seq![c]);
        let parts = front + seq![Seq::<char>::empty()];
        assert(d =~= Seq::<char>::empty());
        lemma_join_characters(s);
        assert(split_pieces(s, d) == parts);
        assert(parts.len() >= 2);
        assert(parts.drop_last() =~= front);
        assert(join(parts, d) == join(parts.drop_last(), d) + d + parts.last());
        assert(join(parts, d) =~= join(front, d));
    } else {
        lemma_first_match_from_bounds(s, d, 0);
        match first_match_from(s, d, 0) {
            Some(i) => {
                let rest = s.subrange(i + d.len(), s.len() as int);
                lemma_join_split(rest, d);
                lemma_join_prepend(s.subrange(0, i), split_pieces(rest, d), d);
                assert(split_pieces(s, d) == seq![s.subrange(0, i)] + split_pieces(rest, d));
                assert(s.subrange(i, i + d.len()) == d);
                assert(s =~= s.subrange(0, i) + d + rest);
            },
            None => {},
        }
    }
}

} // verus!
