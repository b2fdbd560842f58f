//! Character-level building blocks shared by the parsers and the listings:
//! whitespace trimming, prefix tests, string order and a stable sort.
use vstd::prelude::*;

verus! {

/// The characters of a string slice, in order.
pub fn chars_of(s: &str) -> (v: Vec<char>)
    ensures
        v@ == s@,
{
    let mut v: Vec<char> = Vec::new();
    for c in it: s.chars()
        invariant
            v@ == it.seq().take(it.index() as int),
    {
        v.push(c);
    }
    v
}

/// Builds a `String` from its characters (`FromIterator<char>` for `String`),
/// which holds exactly the given characters in the given order.
#[verifier::external_body]
pub(crate) fn string_from_chars(chars: &Vec<char>) -> (s: String)
    ensures
        s@ == chars@,
{
    chars.iter().collect()
}

/// A `String` holding the characters of a string slice.
pub fn to_string(s: &str) -> (r: String)
    ensures
        r@ == s@,
{
    let v = chars_of(s);
    string_from_chars(&v)
}

/// The concatenation of two character sequences as a `String`.
pub fn concat(a: &str, b: &str) -> (r: String)
    ensures
        r@ == a@ + b@,
{
    let mut v = chars_of(a);
    let w = chars_of(b);
    let mut i: usize = 0;
    while i < w.len()
        invariant
            0 <= i <= w@.len(),
            w@ == b@,
            v@ == a@ + b@.take(i as int),
        decreases w@.len() - i,
    {
        v.push(w[i]);
        i = i + 1;
        assert(b@.take(i as int) =~= b@.take(i - 1) + seq![b@[i - 1]]);
    }
    assert(b@.take(i as int) =~= b@);
    string_from_chars(&v)
}

/// Whether two string slices hold the same characters.
pub fn str_eq(a: &str, b: &str) -> (eq: bool)
    ensures
        eq == (a@ == b@),
{
    let x = chars_of(a);
    let y = chars_of(b);
    chars_eq(&x, &y)
}

/// Whether two character vectors are equal.
pub fn chars_eq(x: &Vec<char>, y: &Vec<char>) -> (eq: bool)
    ensures
        eq == (x@ == y@),
{
    if x.len() != y.len() {
        return false;
    }
    let mut i: usize = 0;
    while i < x.len()
        invariant
            x@.len() == y@.len(),
            0 <= i <= x@.len(),
            forall|j: int| 0 <= j < i ==> x@[j] == y@[j],
        decreases x@.len() - i,
    {
        if x[i] != y[i] {
            return false;
        }
        i = i + 1;
    }
    assert(x@ =~= y@);
    true
}

/// Whether a vector of strings contains one equal to `s`.
pub fn contains_string(list: &Vec<String>, s: &String) -> (found: bool)
    ensures
        found == list@.map_values(|e: String| e@).contains(s@),
{
    let ghost views = list@.map_values(|e: String| e@);
    let mut i: usize = 0;
    while i < list.len()
        invariant
            0 <= i <= list@.len(),
            views == list@.map_values(|e: String| e@),
            forall|j: int| 0 <= j < i ==> views[j] != s@,
        decreases list@.len() - i,
    {
        if list[i].eq(s) {
            assert(views[i as int] == s@);
            return true;
        }
        i = i + 1;
    }
    false
}

/// Unicode `White_Space`, the set that `char::is_whitespace` and `str::trim` use.
pub open spec fn is_whitespace_spec(c: char) -> bool {
    let n = c as u32;
    ||| 0x9 <= n <= 0xD
    ||| n == 0x20
    ||| n == 0x85
    ||| n == 0xA0
    ||| n == 0x1680
    ||| 0x2000 <= n <= 0x200A
    ||| n == 0x2028
    ||| n == 0x2029
    ||| n == 0x202F
    ||| n == 0x205F
    ||| n == 0x3000
}

/// Whether `c` is Unicode whitespace.
pub fn is_whitespace(c: char) -> (b: bool)
    ensures
        b == is_whitespace_spec(c),
{
    let n = c as u32;
    (0x9 <= n && n <= 0xD) || n == 0x20 || n == 0x85 || n == 0xA0 || n == 0x1680 || (0x2000 <= n
        && n <= 0x200A) || n == 0x2028 || n == 0x2029 || n == 0x202F || n == 0x205F || n == 0x3000
}

/// `s` without its leading whitespace.
pub open spec fn trim_start_spec(s: Seq<char>) -> Seq<char>
    decreases s.len(),
{
    if s.len() > 0 && is_whitespace_spec(s[0]) {
        trim_start_spec(s.drop_first())
    } else {
        s
    }
}

/// `s` without its trailing whitespace.
pub open spec fn trim_end_spec(s: Seq<char>) -> Seq<char>
    decreases s.len(),
{
    if s.len() > 0 && is_whitespace_spec(s.last()) {
        trim_end_spec(s.drop_last())
    } else {
        s
    }
}

/// `s` without leading or trailing whitespace, as `str::trim` gives it.
pub open spec fn trim_spec(s: Seq<char>) -> Seq<char> {
    trim_end_spec(trim_start_spec(s))
}

/// The characters of `v` from `from` up to `to`.
pub fn slice_chars(v: &Vec<char>, from: usize, to: usize) -> (r: Vec<char>)
    requires
        from <= to <= v@.len(),
    ensures
        r@ == v@.subrange(from as int, to as int),
{
    let mut r: Vec<char> = Vec::new();
    let mut i = from;
    while i < to
        invariant
            from <= i <= to <= v@.len(),
            r@ == v@.subrange(from as int, i as int),
        decreases to - i,
    {
        r.push(v[i]);
        i = i + 1;
        assert(v@.subrange(from as int, i as int) =~= v@.subrange(from as int, i - 1).push(
            v@[i - 1],
        ));
    }
    r
}

/// The characters of `v` without leading or trailing whitespace.
pub fn trim_chars(v: &Vec<char>) -> (r: Vec<char>)
    ensures
        r@ == trim_spec(v@),
{
    let mut start: usize = 0;
    assert(v@.skip(0) =~= v@);
    while start < v.len() && is_whitespace(v[start])
        invariant
            0 <= start <= v@.len(),
            trim_start_spec(v@) == trim_start_spec(v@.skip(start as int)),
        decreases v@.len() - start,
    {
        assert(v@.skip(start as int).drop_first() =~= v@.skip(start + 1));
        start = start + 1;
    }
    let ghost rest = v@.skip(start as int);
    assert(trim_start_spec(rest) == rest);
    let mut end: usize = v.len();
    while end > start && is_whitespace(v[end - 1])
        invariant
            start <= end <= v@.len(),
            rest == v@.skip(start as int),
            trim_end_spec(rest) == trim_end_spec(v@.subrange(start as int, end as int)),
        decreases end,
    {
        assert(v@.subrange(start as int, end as int).drop_last() =~= v@.subrange(
            start as int,
            end - 1,
        ));
        end = end - 1;
    }
    assert(v@.subrange(start as int, v@.len() as int) =~= rest);
    slice_chars(v, start, end)
}

/// Whether `s` begins with `prefix`.
pub open spec fn starts_with_spec(s: Seq<char>, prefix: Seq<char>) -> bool {
    prefix.len() <= s.len() && s.take(prefix.len() as int) == prefix
}

/// Whether `s` ends with `suffix`.
pub open spec fn ends_with_spec(s: Seq<char>, suffix: Seq<char>) -> bool {
    suffix.len() <= s.len() && s.skip(s.len() - suffix.len()) == suffix
}

/// Whether the characters of `v` begin with those of `prefix`.
pub fn starts_with(v: &Vec<char>, prefix: &str) -> (b: bool)
    ensures
        b == starts_with_spec(v@, prefix@),
{
    let p = chars_of(prefix);
    if p.len() > v.len() {
        return false;
    }
    let mut i: usize = 0;
    while i < p.len()
        invariant
            p@ == prefix@,
            p@.len() <= v@.len(),
            0 <= i <= p@.len(),
            forall|j: int| 0 <= j < i ==> v@[j] == p@[j],
        decreases p@.len() - i,
    {
        if v[i] != p[i] {
            assert(v@.take(p@.len() as int)[i as int] != p@[i as int]);
            return false;
        }
        i = i + 1;
    }
    assert(v@.take(p@.len() as int) =~= p@);
    true
}

/// Whether the characters of `v` end with those of `suffix`.
pub fn ends_with(v: &Vec<char>, suffix: &str) -> (b: bool)
    ensures
        b == ends_with_spec(v@, suffix@),
{
    let p = chars_of(suffix);
    if p.len() > v.len() {
        return false;
    }
    let off = v.len() - p.len();
    let mut i: usize = 0;
    while i < p.len()
        invariant
            p@ == suffix@,
            off == v@.len() - p@.len(),
            p@.len() <= v@.len(),
            0 <= i <= p@.len(),
            forall|j: int| 0 <= j < i ==> v@[off + j] == p@[j],
        decreases p@.len() - i,
    {
        assert(off + i < v.len());
        if v[off + i] != p[i] {
            assert(v@.skip(off as int)[i as int] != p@[i as int]);
            return false;
        }
        i = i + 1;
    }
    assert(v@.skip(off as int) =~= p@);
    true
}

/// Whether `c` occurs in `v`.
pub fn contains_char(v: &Vec<char>, c: char) -> (b: bool)
    ensures
        b == v@.contains(c),
{
    let mut i: usize = 0;
    while i < v.len()
        invariant
            0 <= i <= v@.len(),
            forall|j: int| 0 <= j < i ==> v@[j] != c,
        decreases v@.len() - i,
    {
        if v[i] == c {
            return true;
        }
        i = i + 1;
    }
    false
}

/// Lexicographic order on characters by code point, the order of `String`'s
/// `Ord` (UTF-8 preserves code point order).
pub open spec fn chars_lt(a: Seq<char>, b: Seq<char>) -> bool
    decreases a.len(),
{
    if a.len() == 0 {
        b.len() > 0
    } else if b.len() == 0 {
        false
    } else if a[0] != b[0] {
        (a[0] as int) < (b[0] as int)
    } else {
        chars_lt(a.drop_first(), b.drop_first())
    }
}

/// `a` does not come after `b`.
pub open spec fn chars_le(a: Seq<char>, b: Seq<char>) -> bool {
    !chars_lt(b, a)
}

pub proof fn lemma_chars_lt_irreflexive(a: Seq<char>)
    ensures
        !chars_lt(a, a),
    decreases a.len(),
{
    if a.len() > 0 {
        lemma_chars_lt_irreflexive(a.drop_first());
    }
}

pub proof fn lemma_chars_lt_total(a: Seq<char>, b: Seq<char>)
    ensures
        a != b ==> chars_lt(a, b) || chars_lt(b, a),
        !(chars_lt(a, b) && chars_lt(b, a)),
    decreases a.len(),
{
    if a.len() > 0 && b.len() > 0 {
        lemma_chars_lt_total(a.drop_first(), b.drop_first());
        if a[0] == b[0] && a.drop_first() == b.drop_first() {
            assert(a =~= seq![a[0]] + a.drop_first());
            assert(b =~= seq![b[0]] + b.drop_first());
        }
        if a[0] != b[0] {
            assert((a[0] as int) != (b[0] as int));
        }
    } else if a.len() == 0 && b.len() == 0 {
        assert(a =~= b);
    }
}

pub proof fn lemma_chars_lt_transitive(a: Seq<char>, b: Seq<char>, c: Seq<char>)
    requires
        chars_lt(a, b),
        chars_lt(b, c),
    ensures
        chars_lt(a, c),
    decreases a.len(),
{
    if a.len() > 0 && b.len() > 0 && c.len() > 0 {
        if a[0] == b[0] && b[0] == c[0] {
            lemma_chars_lt_transitive(a.drop_first(), b.drop_first(), c.drop_first());
        }
    }
}

/// `a <= b` and `b < c` give `a < c`, and `a < b` and `b <= c` give `a < c`.
pub proof fn lemma_chars_le_lt(a: Seq<char>, b: Seq<char>, c: Seq<char>)
    ensures
        chars_le(a, b) && chars_lt(b, c) ==> chars_lt(a, c),
        chars_lt(a, b) && chars_le(b, c) ==> chars_lt(a, c),
        chars_le(a, b) && chars_le(b, c) ==> chars_le(a, c),
{
    lemma_chars_lt_total(a, b);
    lemma_chars_lt_total(b, c);
    lemma_chars_lt_total(a, c);
    if chars_lt(a, b) && chars_lt(b, c) {
        lemma_chars_lt_transitive(a, b, c);
    }
    if chars_lt(c, a) && chars_lt(a, b) {
        lemma_chars_lt_transitive(c, a, b);
    }
    if chars_lt(b, c) && chars_lt(c, a) {
        lemma_chars_lt_transitive(b, c, a);
    }
}

/// Whether `a` comes strictly before `b`.
pub fn chars_less(a: &Vec<char>, b: &Vec<char>) -> (lt: bool)
    ensures
        lt == chars_lt(a@, b@),
{
    let mut i: usize = 0;
    assert(a@.skip(0) =~= a@ && b@.skip(0) =~= b@);
    while i < a.len() && i < b.len()
        invariant
            0 <= i <= a@.len(),
            i <= b@.len(),
            chars_lt(a@, b@) == chars_lt(a@.skip(i as int), b@.skip(i as int)),
        decreases a@.len() - i,
    {
        if a[i] != b[i] {
            return a[i] < b[i];
        }
        assert(a@.skip(i as int).drop_first() =~= a@.skip(i + 1));
        assert(b@.skip(i as int).drop_first() =~= b@.skip(i + 1));
        i = i + 1;
    }
    i == a.len() && i < b.len()
}

/// The keys of `s` never go down.
pub open spec fn sorted_by<T>(s: Seq<T>, key: spec_fn(T) -> Seq<char>) -> bool {
    forall|i: int, j: int| 0 <= i < j < s.len() ==> chars_le(#[trigger] key(s[i]), #[trigger] key(s[j]))
}

/// `out` rearranges `items`: `out[k]` is `items[perm[k]]`, and `perm` and
/// `inv` are inverse bijections of the positions.
pub open spec fn rearranges<T>(out: Seq<T>, items: Seq<T>, perm: Seq<int>, inv: Seq<int>) -> bool {
    &&& out.len() == items.len()
    &&& perm.len() == items.len()
    &&& inv.len() == items.len()
    &&& forall|k: int| 0 <= k < out.len() ==> 0 <= #[trigger] perm[k] < items.len() && out[k] == items[perm[k]] && inv[perm[k]] == k
    &&& forall|j: int| 0 <= j < items.len() ==> 0 <= #[trigger] inv[j] < out.len() && perm[inv[j]] == j
}

/// No two items of `s` share a key.
pub open spec fn distinct_keys<T>(s: Seq<T>, key: spec_fn(T) -> Seq<char>) -> bool {
    forall|i: int, j: int| 0 <= i < j < s.len() ==> #[trigger] key(s[i]) != #[trigger] key(s[j])
}

/// Rearranging a rearrangement of `a` rearranges `a`.
pub proof fn lemma_rearranges_compose<T>(
    a: Seq<T>,
    b: Seq<T>,
    c: Seq<T>,
    p1: Seq<int>,
    i1: Seq<int>,
    p2: Seq<int>,
    i2: Seq<int>,
)
    requires
        rearranges(b, a, p1, i1),
        rearranges(c, b, p2, i2),
    ensures
        rearranges(
            c,
            a,
            Seq::new(a.len(), |k: int| p1[p2[k]]),
            Seq::new(a.len(), |j: int| i2[i1[j]]),
        ),
{
    let perm = Seq::new(a.len(), |k: int| p1[p2[k]]);
    let inv = Seq::new(a.len(), |j: int| i2[i1[j]]);
    assert forall|k: int| 0 <= k < c.len() implies 0 <= #[trigger] perm[k] < a.len() && c[k] == a[perm[k]]
        && inv[perm[k]] == k by {
        let m = p2[k];
        assert(0 <= m < b.len() && c[k] == b[m] && i2[m] == k);
        assert(0 <= p1[m] < a.len() && b[m] == a[p1[m]] && i1[p1[m]] == m);
    }
    assert forall|j: int| 0 <= j < a.len() implies 0 <= #[trigger] inv[j] < c.len() && perm[inv[j]] == j by {
        let m = i1[j];
        assert(0 <= m < b.len() && p1[m] == j);
        assert(0 <= i2[m] < c.len() && p2[i2[m]] == m);
    }
}

/// Items sorted by distinct keys come in one order only: two sorted
/// rearrangements of the same items are equal.
pub proof fn lemma_sorted_rearrangements_equal<T>(
    items: Seq<T>,
    s: Seq<T>,
    ps: Seq<int>,
    is: Seq<int>,
    t: Seq<T>,
    pt: Seq<int>,
    it: Seq<int>,
    key: spec_fn(T) -> Seq<char>,
)
    requires
        distinct_keys(items, key),
        rearranges(s, items, ps, is),
        sorted_by(s, key),
        rearranges(t, items, pt, it),
        sorted_by(t, key),
    ensures
        s == t,
{
    lemma_rearranged_distinct(items, s, ps, is, key);
    lemma_rearranged_distinct(items, t, pt, it, key);
    lemma_sorted_prefix_equal(items, s, ps, is, t, pt, it, key, s.len() as int);
    assert(s =~= t);
}

/// A rearrangement of items with distinct keys has distinct keys.
proof fn lemma_rearranged_distinct<T>(
    items: Seq<T>,
    s: Seq<T>,
    ps: Seq<int>,
    is: Seq<int>,
    key: spec_fn(T) -> Seq<char>,
)
    requires
        distinct_keys(items, key),
        rearranges(s, items, ps, is),
    ensures
        distinct_keys(s, key),
{
    assert forall|i: int, j: int| 0 <= i < j < s.len() implies #[trigger] key(s[i]) != #[trigger] key(s[j]) by {
        let a = ps[i];
        let b = ps[j];
        assert(is[a] == i && is[b] == j);
        if a < b {
            assert(key(items[a]) != key(items[b]));
        } else if b < a {
            assert(key(items[b]) != key(items[a]));
        }
    }
}

/// In a sequence sorted by distinct keys, an earlier item has a smaller key.
proof fn lemma_sorted_distinct_lt<T>(s: Seq<T>, key: spec_fn(T) -> Seq<char>, i: int, j: int)
    requires
        sorted_by(s, key),
        distinct_keys(s, key),
        0 <= i < j < s.len(),
    ensures
        chars_lt(key(s[i]), key(s[j])),
{
    assert(chars_le(key(s[i]), key(s[j])));
    assert(key(s[i]) != key(s[j]));
    lemma_chars_lt_total(key(s[i]), key(s[j]));
}

/// The first `k` positions of two sorted rearrangements agree.
proof fn lemma_sorted_prefix_equal<T>(
    items: Seq<T>,
    s: Seq<T>,
    ps: Seq<int>,
    is: Seq<int>,
    t: Seq<T>,
    pt: Seq<int>,
    it: Seq<int>,
    key: spec_fn(T) -> Seq<char>,
    k: int,
)
    requires
        rearranges(s, items, ps, is),
        sorted_by(s, key),
        distinct_keys(s, key),
        rearranges(t, items, pt, it),
        sorted_by(t, key),
        distinct_keys(t, key),
        0 <= k <= s.len(),
    ensures
        forall|m: int| 0 <= m < k ==> #[trigger] s[m] == t[m],
    decreases k,
{
    if k > 0 {
        let n = k - 1;
        lemma_sorted_prefix_equal(items, s, ps, is, t, pt, it, key, n);
        // s[n] sits at position j of t, and t[n] at position i of s.
        let j = it[ps[n]];
        let i = is[pt[n]];
        assert(s[n] == items[ps[n]] && t[j] == items[ps[n]]);
        assert(t[n] == items[pt[n]] && s[i] == items[pt[n]]);
        if j < n {
            assert(t[j] == s[j]);
            assert(key(s[j]) != key(s[n]));
        }
        if i < n {
            assert(s[i] == t[i]);
            assert(key(t[i]) != key(t[n]));
        }
        if j > n && i > n {
            lemma_sorted_distinct_lt(t, key, n, j);
            lemma_sorted_distinct_lt(s, key, n, i);
            lemma_chars_lt_total(key(s[n]), key(s[i]));
        }
        if j == n {
            assert(s[n] == t[n]);
        }
        if i == n {
            assert(s[n] == t[n]);
        }
    }
}

/// Sorts `items` by the keys given beside them (`keys[i]` is the key of
/// `items[i]`), stably, keeping every item; the ghost result says where each
/// item went.
pub fn sort_by_keys<T>(items: Vec<T>, keys: Vec<Vec<char>>, Ghost(key): Ghost<spec_fn(T) -> Seq<char>>) -> (res: (Vec<T>, Ghost<(Seq<int>, Seq<int>)>))
    requires
        items@.len() == keys@.len(),
        forall|i: int| 0 <= i < items@.len() ==> #[trigger] keys@[i]@ == key(items@[i]),
    ensures
        rearranges(res.0@, items@, res.1@.0, res.1@.1),
        sorted_by(res.0@, key),
{
    let ghost original = items@;
    let ghost n = items@.len();
    let mut items = items;
    let mut keys = keys;
    let mut out: Vec<T> = Vec::new();
    let mut out_keys: Vec<Vec<char>> = Vec::new();
    let ghost mut perm: Seq<int> = Seq::empty();
    let ghost mut inv: Seq<int> = Seq::empty();
    let mut t: usize = 0;
    while items.len() > 0
        invariant
            items@.len() == keys@.len(),
            n == original.len(),
            t + items@.len() == n,
            t <= usize::MAX - items.len(),
            items@ == original.skip(t as int),
            forall|i: int| 0 <= i < items@.len() ==> #[trigger] keys@[i]@ == key(items@[i]),
            out@.len() == out_keys@.len(),
            out@.len() == t,
            perm.len() == t,
            inv.len() == t,
            forall|i: int| 0 <= i < out@.len() ==> #[trigger] out_keys@[i]@ == key(out@[i]),
            forall|k: int| 0 <= k < t ==> 0 <= #[trigger] perm[k] < t && out@[k] == original[perm[k]] && inv[perm[k]] == k,
            forall|j: int| 0 <= j < t ==> 0 <= #[trigger] inv[j] < t && perm[inv[j]] == j,
            sorted_by(out@, key),
        decreases items@.len(),
    {
        let ghost before_items = items@;
        let ghost before_out = out@;
        let item = items.remove(0);
        let k = keys.remove(0);
        proof {
            assert(item == original[t as int]);
            assert(items@ =~= original.skip(t + 1));
        }
        let mut p: usize = 0;
        while p < out.len() && !chars_less(&k, &out_keys[p])
            invariant
                0 <= p <= out@.len(),
                out@.len() == out_keys@.len(),
                forall|i: int| 0 <= i < out@.len() ==> #[trigger] out_keys@[i]@ == key(out@[i]),
                forall|i: int| 0 <= i < p ==> chars_le(key(#[trigger] out@[i]), k@),
            decreases out@.len() - p,
        {
            p = p + 1;
        }
        proof {
            if p < out@.len() {
                assert(chars_lt(k@, key(out@[p as int])));
            }
            assert forall|j: int| p <= j < out@.len() implies chars_lt(k@, key(#[trigger] out@[j])) by {
                lemma_chars_le_lt(k@, key(out@[p as int]), key(out@[j]));
                if j > p {
                    assert(chars_le(key(out@[p as int]), key(out@[j])));
                    lemma_chars_le_lt(k@, key(out@[p as int]), key(out@[j]));
                }
            }
        }
        let ghost before_keys = out_keys@;
        let ghost before_perm = perm;
        let ghost before_inv = inv;
        out.insert(p, item);
        out_keys.insert(p, k);
        proof {
            perm = before_perm.insert(p as int, t as int);
            inv = before_inv.map_values(|x: int| if x >= p { x + 1 } else { x }).push(p as int);
            assert forall|kk: int| 0 <= kk < t + 1 implies 0 <= #[trigger] perm[kk] < t + 1 && out@[kk] == original[perm[kk]] && inv[perm[kk]] == kk by {
                if kk < p {
                    assert(perm[kk] == before_perm[kk]);
                    assert(out@[kk] == before_out[kk]);
                } else if kk == p {
                } else {
                    assert(perm[kk] == before_perm[kk - 1]);
                    assert(out@[kk] == before_out[kk - 1]);
                }
            }
            assert forall|j: int| 0 <= j < t + 1 implies 0 <= #[trigger] inv[j] < t + 1 && perm[inv[j]] == j by {
                if j < t {
                    let x = before_inv[j];
                    if x >= p {
                        assert(inv[j] == x + 1);
                        assert(perm[x + 1] == before_perm[x]);
                    } else {
                        assert(inv[j] == x);
                        assert(perm[x] == before_perm[x]);
                    }
                }
            }
            assert forall|i: int, j: int| 0 <= i < j < out@.len() implies chars_le(
                #[trigger] key(out@[i]),
                #[trigger] key(out@[j]),
            ) by {
                if i < p && j < p {
                    assert(out@[i] == before_out[i] && out@[j] == before_out[j]);
                } else if i < p && j == p {
                    assert(out@[i] == before_out[i]);
                } else if i < p {
                    assert(out@[i] == before_out[i] && out@[j] == before_out[j - 1]);
                    assert(chars_lt(k@, key(before_out[j - 1])));
                    lemma_chars_le_lt(key(before_out[i]), k@, key(before_out[j - 1]));
                    lemma_chars_lt_total(key(before_out[i]), key(before_out[j - 1]));
                } else if i == p {
                    assert(out@[j] == before_out[j - 1]);
                    assert(chars_lt(k@, key(before_out[j - 1])));
                    lemma_chars_lt_total(k@, key(before_out[j - 1]));
                } else {
                    assert(out@[i] == before_out[i - 1] && out@[j] == before_out[j - 1]);
                }
            }
            assert forall|i: int| 0 <= i < out@.len() implies #[trigger] out_keys@[i]@ == key(
                out@[i],
            ) by {
                if i > p {
                    assert(out_keys@[i] == before_keys[i - 1]);
                }
            }
        }
        t = t + 1;
    }
    (out, Ghost((perm, inv)))
}

} // verus!

verus! {

/// Appends the characters of `s` to `v`.
pub fn push_str(v: &mut Vec<char>, s: &str)
    ensures
        final(v)@ == old(v)@ + s@,
{
    let w = chars_of(s);
    push_chars(v, &w);
}

/// Appends the characters of `w` to `v`.
pub fn push_chars(v: &mut Vec<char>, w: &Vec<char>)
    ensures
        final(v)@ == old(v)@ + w@,
{
    let ghost start = v@;
    let mut i: usize = 0;
    while i < w.len()
        invariant
            0 <= i <= w@.len(),
            v@ == start + w@.take(i as int),
        decreases w@.len() - i,
    {
        v.push(w[i]);
        i = i + 1;
        assert(w@.take(i as int) =~= w@.take(i - 1).push(w@[i - 1]));
    }
    assert(w@.take(i as int) =~= w@);
}

/// Keys that never go down and never repeat between neighbours never repeat at all.
pub proof fn lemma_sorted_distinct_neighbours<T>(s: Seq<T>, key: spec_fn(T) -> Seq<char>)
    requires
        sorted_by(s, key),
        forall|k: int| 0 < k < s.len() ==> key(#[trigger] s[k - 1]) != key(s[k]),
    ensures
        forall|a: int, b: int| 0 <= a < b < s.len() ==> chars_lt(key(#[trigger] s[a]), key(#[trigger] s[b])),
{
    assert forall|a: int, b: int| 0 <= a < b < s.len() implies chars_lt(key(#[trigger] s[a]), key(#[trigger] s[b])) by {
        lemma_sorted_step(s, key, a, b);
    }
}

proof fn lemma_sorted_step<T>(s: Seq<T>, key: spec_fn(T) -> Seq<char>, a: int, b: int)
    requires
        sorted_by(s, key),
        forall|k: int| 0 < k < s.len() ==> key(#[trigger] s[k - 1]) != key(s[k]),
        0 <= a < b < s.len(),
    ensures
        chars_lt(key(s[a]), key(s[b])),
    decreases b - a,
{
    assert(key(s[b - 1]) != key(s[b]));
    assert(chars_le(key(s[b - 1]), key(s[b])));
    lemma_chars_lt_total(key(s[b - 1]), key(s[b]));
    if a < b - 1 {
        lemma_sorted_step(s, key, a, b - 1);
        lemma_chars_lt_transitive(key(s[a]), key(s[b - 1]), key(s[b]));
    }
}

/// In a sorted sequence, the first key that repeats between neighbours is the
/// least key that repeats anywhere.
pub proof fn lemma_first_repeat_is_least<T>(s: Seq<T>, key: spec_fn(T) -> Seq<char>, i: int)
    requires
        sorted_by(s, key),
        0 < i < s.len(),
        key(s[i - 1]) == key(s[i]),
        forall|k: int| 0 < k < i ==> key(#[trigger] s[k - 1]) != key(s[k]),
    ensures
        forall|a: int, b: int|
            0 <= a < s.len() && 0 <= b < s.len() && a != b && key(s[a]) == key(s[b]) ==> chars_le(
                key(s[i]),
                #[trigger] key(s[a]),
            ) && #[trigger] key(s[b]) == key(s[a]),
{
    assert forall|a: int, b: int|
        0 <= a < s.len() && 0 <= b < s.len() && a != b && key(s[a]) == key(s[b]) implies chars_le(
            key(s[i]),
            #[trigger] key(s[a]),
        ) && #[trigger] key(s[b]) == key(s[a]) by {
        let lo = if a < b { a } else { b };
        let hi = if a < b { b } else { a };
        assert(key(s[lo]) == key(s[hi]));
        if chars_lt(key(s[a]), key(s[i])) {
            if hi >= i {
                if hi > i {
                    assert(chars_le(key(s[i]), key(s[hi])));
                }
                lemma_chars_lt_total(key(s[a]), key(s[i]));
            } else {
                assert(chars_le(key(s[lo]), key(s[lo + 1])));
                if lo + 1 < hi {
                    assert(chars_le(key(s[lo + 1]), key(s[hi])));
                }
                lemma_chars_lt_total(key(s[lo]), key(s[lo + 1]));
                assert(key(s[lo]) == key(s[lo + 1]));
                assert(0 < lo + 1 < i);
                assert(key(s[lo + 1 - 1]) != key(s[lo + 1]));
            }
        }
    }
}

} // verus!

verus! {

/// The characters of each string.
pub open spec fn views(s: Seq<String>) -> Seq<Seq<char>> {
    s.map_values(|x: String| x@)
}

/// The texts never go down.
pub open spec fn sorted_chars(s: Seq<Seq<char>>) -> bool {
    forall|i: int, j: int| 0 <= i < j < s.len() ==> chars_le(#[trigger] s[i], #[trigger] s[j])
}

pub proof fn lemma_views_rearranges(out: Seq<String>, items: Seq<String>, perm: Seq<int>, inv: Seq<int>)
    requires
        rearranges(out, items, perm, inv),
    ensures
        rearranges(views(out), views(items), perm, inv),
{
    assert forall|k: int| 0 <= k < views(out).len() implies 0 <= #[trigger] perm[k] < views(items).len()
        && views(out)[k] == views(items)[perm[k]] && inv[perm[k]] == k by {
        assert(out[k] == items[perm[k]]);
    }
}


/// A copy of a vector of strings.
pub fn clone_strings(v: &Vec<String>) -> (r: Vec<String>)
    ensures
        r@ == v@,
{
    let mut r: Vec<String> = Vec::new();
    let mut i: usize = 0;
    while i < v.len()
        invariant
            0 <= i <= v@.len(),
            r@ == v@.take(i as int),
        decreases v@.len() - i,
    {
        r.push(v[i].clone());
        i = i + 1;
        assert(v@.take(i as int) =~= v@.take(i - 1).push(v@[i - 1]));
    }
    assert(v@.take(i as int) =~= v@);
    r
}

/// `s` with each later repeat of an earlier element dropped, keeping the
/// first occurrences in order.
pub open spec fn dedup_spec(s: Seq<Seq<char>>) -> Seq<Seq<char>> {
    s.remove_duplicates(Seq::empty())
}

pub proof fn lemma_remove_duplicates_no_duplicates(s: Seq<Seq<char>>, seen: Seq<Seq<char>>)
    requires
        seen.no_duplicates(),
    ensures
        s.remove_duplicates(seen).no_duplicates(),
    decreases s.len(),
{
    if s.len() > 0 {
        if seen.contains(s[0]) {
            lemma_remove_duplicates_no_duplicates(s.skip(1), seen);
        } else {
            let next = seen + seq![s[0]];
            assert forall|i: int, j: int| 0 <= i < j < next.len() implies next[i] != next[j] by {
                if j == next.len() - 1 {
                    assert(seen.contains(seen[i]));
                }
            }
            lemma_remove_duplicates_no_duplicates(s.skip(1), next);
        }
    }
}

/// `list` with later repeats removed (first occurrences kept, in order).
pub fn dedup_strings(list: Vec<String>) -> (r: Vec<String>)
    ensures
        views(r@) == dedup_spec(views(list@)),
        views(r@).no_duplicates(),
        forall|x: Seq<char>| views(r@).contains(x) <==> views(list@).contains(x),
{
    let ghost all = views(list@);
    let mut out: Vec<String> = Vec::new();
    let mut i: usize = 0;
    assert(all.skip(0) =~= all);
    assert(views(out@) =~= Seq::<Seq<char>>::empty());
    while i < list.len()
        invariant
            0 <= i <= list@.len(),
            all == views(list@),
            all.remove_duplicates(Seq::empty()) == all.skip(i as int).remove_duplicates(views(out@)),
        decreases list@.len() - i,
    {
        let s = &list[i];
        let seen = contains_string(&out, s);
        assert(all.skip(i as int)[0] == s@);
        assert(all.skip(i as int).skip(1) =~= all.skip(i + 1));
        if !seen {
            let ghost before = views(out@);
            out.push(s.clone());
            assert(views(out@) =~= before + seq![s@]);
        }
        i = i + 1;
    }
    proof {
        assert(all.skip(i as int) =~= Seq::<Seq<char>>::empty());
        lemma_remove_duplicates_no_duplicates(all, Seq::empty());
        all.lemma_remove_duplicates_properties(Seq::empty());
        assert(all + Seq::<Seq<char>>::empty() =~= all);
    }
    out
}

} // verus!

verus! {

/// The decimal digit for `d < 10`.
pub open spec fn digit_char(d: nat) -> char {
    if d == 0 { '0' }
    else if d == 1 { '1' }
    else if d == 2 { '2' }
    else if d == 3 { '3' }
    else if d == 4 { '4' }
    else if d == 5 { '5' }
    else if d == 6 { '6' }
    else if d == 7 { '7' }
    else if d == 8 { '8' }
    else { '9' }
}

/// The decimal numeral of `n`, as `Display` writes an unsigned integer.
pub open spec fn decimal(n: nat) -> Seq<char>
    decreases n,
{
    if n < 10 {
        seq![digit_char(n)]
    } else {
        decimal(n / 10).push(digit_char(n % 10))
    }
}

pub(crate) fn digit(d: u128) -> (c: char)
    requires
        d < 10,
    ensures
        c == digit_char(d as nat),
{
    if d == 0 { '0' }
    else if d == 1 { '1' }
    else if d == 2 { '2' }
    else if d == 3 { '3' }
    else if d == 4 { '4' }
    else if d == 5 { '5' }
    else if d == 6 { '6' }
    else if d == 7 { '7' }
    else if d == 8 { '8' }
    else { '9' }
}

/// Appends the decimal numeral of `n` to `v`.
pub fn push_decimal(v: &mut Vec<char>, n: u128)
    ensures
        final(v)@ == old(v)@ + decimal(n as nat),
    decreases n,
{
    if n < 10 {
        v.push(digit(n));
    } else {
        push_decimal(v, n / 10);
        v.push(digit(n % 10));
    }
}

/// The decimal numeral of `n` as a `String`.
pub fn decimal_string(n: u128) -> (s: String)
    ensures
        s@ == decimal(n as nat),
{
    let mut v: Vec<char> = Vec::new();
    push_decimal(&mut v, n);
    string_from_chars(&v)
}

/// Joins strings with `sep` between neighbours.
pub open spec fn join_with(parts: Seq<Seq<char>>, sep: Seq<char>) -> Seq<char>
    decreases parts.len(),
{
    if parts.len() == 0 {
        Seq::empty()
    } else if parts.len() == 1 {
        parts[0]
    } else {
        join_with(parts.drop_last(), sep) + sep + parts.last()
    }
}

/// Appends `parts` joined by `sep` to `v`.
pub fn push_joined(v: &mut Vec<char>, parts: &Vec<String>, sep: &str)
    ensures
        final(v)@ == old(v)@ + join_with(views(parts@), sep@),
{
    let ghost start = v@;
    let ghost all = views(parts@);
    let mut i: usize = 0;
    while i < parts.len()
        invariant
            0 <= i <= parts@.len(),
            all == views(parts@),
            v@ == start + join_with(all.take(i as int), sep@),
        decreases parts@.len() - i,
    {
        if i > 0 {
            push_str(v, sep);
        }
        push_str(v, parts[i].as_str());
        proof {
            assert(all.take(i + 1).drop_last() =~= all.take(i as int));
            assert(all.take(i + 1).last() == parts@[i as int]@);
            if i == 0 {
                assert(all.take(1) =~= seq![parts@[0]@]);
            }
        }
        i = i + 1;
    }
    assert(all.take(i as int) =~= all);
}

} // verus!

verus! {

/// The position of the first `c` in `s`, or the length of `s` when there is none.
pub open spec fn find_char_spec(s: Seq<char>, c: char) -> nat
    decreases s.len(),
{
    if s.len() == 0 {
        0
    } else if s[0] == c {
        0
    } else {
        1 + find_char_spec(s.drop_first(), c)
    }
}

pub proof fn lemma_find_char(s: Seq<char>, c: char)
    ensures
        find_char_spec(s, c) <= s.len(),
        find_char_spec(s, c) < s.len() ==> s[find_char_spec(s, c) as int] == c,
        forall|i: int| 0 <= i < find_char_spec(s, c) ==> s[i] != c,
        find_char_spec(s, c) == s.len() <==> !s.contains(c),
    decreases s.len(),
{
    if s.len() > 0 && s[0] != c {
        lemma_find_char(s.drop_first(), c);
        assert forall|i: int| 0 <= i < find_char_spec(s, c) implies s[i] != c by {
            if i > 0 {
                assert(s[i] == s.drop_first()[i - 1]);
            }
        }
        if s.contains(c) {
            let j = choose|j: int| 0 <= j < s.len() && s[j] == c;
            assert(s.drop_first()[j - 1] == c);
        }
    }
}

/// The position of the first `c` in `v` (its length when there is none).
pub fn find_char(v: &Vec<char>, c: char) -> (i: usize)
    ensures
        i == find_char_spec(v@, c),
{
    let mut i: usize = 0;
    assert(v@.skip(0) =~= v@);
    while i < v.len() && v[i] != c
        invariant
            0 <= i <= v@.len(),
            find_char_spec(v@, c) == i + find_char_spec(v@.skip(i as int), c),
        decreases v@.len() - i,
    {
        assert(v@.skip(i as int).drop_first() =~= v@.skip(i + 1));
        i = i + 1;
    }
    i
}

/// The decimal numeral of a signed integer.
pub open spec fn signed_decimal(n: int) -> Seq<char> {
    if n < 0 {
        seq!['-'] + decimal((-n) as nat)
    } else {
        decimal(n as nat)
    }
}

/// Appends the decimal numeral of a signed 128-bit integer.
pub fn push_signed_wide(v: &mut Vec<char>, n: i128)
    ensures
        final(v)@ == old(v)@ + signed_decimal(n as int),
{
    if n < 0 {
        v.push('-');
        let m: u128 = (-(n + 1)) as u128 + 1;
        push_decimal(v, m);
        assert(seq!['-'] + decimal((-n) as nat) =~= seq!['-'].add(decimal((-n) as nat)));
    } else {
        push_decimal(v, n as u128);
    }
}

/// Appends the decimal numeral of a signed 32-bit integer.
pub fn push_signed(v: &mut Vec<char>, n: i32)
    ensures
        final(v)@ == old(v)@ + signed_decimal(n as int),
{
    if n < 0 {
        v.push('-');
        let m: i64 = -(n as i64);
        push_decimal(v, m as u128);
        assert(seq!['-'] + decimal((-n) as nat) =~= seq!['-'].add(decimal((-n) as nat)));
    } else {
        push_decimal(v, n as u128);
    }
}


/// Whether `needle` occurs in `hay` (the empty needle always does).
pub open spec fn contains_sub_spec(hay: Seq<char>, needle: Seq<char>) -> bool {
    exists|i: int| 0 <= i && i + needle.len() <= hay.len() && #[trigger] hay.subrange(i, i + needle.len()) == needle
}

fn matches_at(h: &Vec<char>, n: &Vec<char>, i: usize) -> (b: bool)
    requires
        i + n@.len() <= h@.len(),
    ensures
        b == (h@.subrange(i as int, i + n@.len()) == n@),
{
    let hl = h.len();
    let mut k: usize = 0;
    while k < n.len()
        invariant
            0 <= k <= n@.len(),
            hl == h@.len(),
            i + n@.len() <= h@.len(),
            forall|j: int| 0 <= j < k ==> h@[i + j] == n@[j],
        decreases n@.len() - k,
    {
        if h[i + k] != n[k] {
            assert(h@.subrange(i as int, i + n@.len())[k as int] != n@[k as int]);
            return false;
        }
        k = k + 1;
    }
    assert(h@.subrange(i as int, i + n@.len()) =~= n@);
    true
}

/// Whether `needle` occurs in `hay` (`str::contains` with a string pattern).
pub fn contains_str(hay: &str, needle: &str) -> (b: bool)
    ensures
        b == contains_sub_spec(hay@, needle@),
{
    let h = chars_of(hay);
    let n = chars_of(needle);
    if n.len() > h.len() {
        return false;
    }
    let last = h.len() - n.len();
    let mut i: usize = 0;
    loop
        invariant
            0 <= i <= last,
            last + n@.len() == h@.len(),
            h@ == hay@,
            n@ == needle@,
            forall|j: int| 0 <= j < i ==> #[trigger] h@.subrange(j, j + n@.len()) != n@,
        decreases last - i,
    {
        if matches_at(&h, &n, i) {
            return true;
        }
        if i == last {
            return false;
        }
        i = i + 1;
    }
}


/// `x` placed into `t` before the first element that comes after it.
pub open spec fn insert_sorted_spec(x: Seq<char>, t: Seq<Seq<char>>) -> Seq<Seq<char>>
    decreases t.len(),
{
    if t.len() == 0 {
        seq![x]
    } else if chars_lt(x, t[0]) {
        seq![x] + t
    } else {
        seq![t[0]] + insert_sorted_spec(x, t.drop_first())
    }
}

/// `s` in ascending string order (equal strings keep their order).
pub open spec fn sort_chars_spec(s: Seq<Seq<char>>) -> Seq<Seq<char>>
    decreases s.len(),
{
    if s.len() == 0 {
        Seq::empty()
    } else {
        insert_sorted_spec(s.last(), sort_chars_spec(s.drop_last()))
    }
}

pub proof fn lemma_insert_sorted_contains(x: Seq<char>, t: Seq<Seq<char>>)
    ensures
        forall|y: Seq<char>| #[trigger] insert_sorted_spec(x, t).contains(y) <==> (y == x || t.contains(y)),
        insert_sorted_spec(x, t).len() == t.len() + 1,
    decreases t.len(),
{
    if t.len() > 0 && !chars_lt(x, t[0]) {
        lemma_insert_sorted_contains(x, t.drop_first());
        let r = insert_sorted_spec(x, t);
        let rest = insert_sorted_spec(x, t.drop_first());
        assert forall|y: Seq<char>| r.contains(y) <==> (y == x || t.contains(y)) by {
            if r.contains(y) {
                let j = choose|j: int| 0 <= j < r.len() && r[j] == y;
                if j > 0 {
                    assert(rest[j - 1] == y);
                    assert(rest.contains(y));
                    if y != x {
                        assert(t.drop_first().contains(y));
                        let k = choose|k: int| 0 <= k < t.drop_first().len() && t.drop_first()[k] == y;
                        assert(t[k + 1] == y);
                    }
                }
            }
            if y == x {
                assert(rest.contains(y));
                let k = choose|k: int| 0 <= k < rest.len() && rest[k] == y;
                assert(r[k + 1] == y);
            } else if t.contains(y) {
                let k = choose|k: int| 0 <= k < t.len() && t[k] == y;
                if k == 0 {
                    assert(r[0] == y);
                } else {
                    assert(t.drop_first()[k - 1] == y);
                    assert(rest.contains(y));
                    let m = choose|m: int| 0 <= m < rest.len() && rest[m] == y;
                    assert(r[m + 1] == y);
                }
            }
        }
    } else if t.len() > 0 {
        let r = insert_sorted_spec(x, t);
        assert forall|y: Seq<char>| r.contains(y) <==> (y == x || t.contains(y)) by {
            if r.contains(y) {
                let j = choose|j: int| 0 <= j < r.len() && r[j] == y;
                if j > 0 {
                    assert(t[j - 1] == y);
                }
            }
            if y == x {
                assert(r[0] == y);
            } else if t.contains(y) {
                let k = choose|k: int| 0 <= k < t.len() && t[k] == y;
                assert(r[k + 1] == y);
            }
        }
    } else {
        let r = insert_sorted_spec(x, t);
        assert forall|y: Seq<char>| r.contains(y) <==> (y == x || t.contains(y)) by {
            if r.contains(y) {
                assert(r[0] == y);
            }
            if y == x {
                assert(r[0] == y);
            }
        }
    }
}

pub proof fn lemma_sort_chars_contains(s: Seq<Seq<char>>)
    ensures
        forall|y: Seq<char>| #[trigger] sort_chars_spec(s).contains(y) <==> s.contains(y),
        sort_chars_spec(s).len() == s.len(),
    decreases s.len(),
{
    if s.len() > 0 {
        lemma_sort_chars_contains(s.drop_last());
        lemma_insert_sorted_contains(s.last(), sort_chars_spec(s.drop_last()));
        assert forall|y: Seq<char>| sort_chars_spec(s).contains(y) <==> s.contains(y) by {
            if s.contains(y) {
                let k = choose|k: int| 0 <= k < s.len() && s[k] == y;
                if k < s.len() - 1 {
                    assert(s.drop_last()[k] == y);
                }
            }
            if s.drop_last().contains(y) {
                let k = choose|k: int| 0 <= k < s.drop_last().len() && s.drop_last()[k] == y;
                assert(s[k] == y);
            }
        }
    }
}

fn insert_sorted(x: String, t: Vec<String>) -> (r: Vec<String>)
    ensures
        views(r@) == insert_sorted_spec(x@, views(t@)),
{
    let xc = chars_of(x.as_str());
    let mut p: usize = 0;
    let ghost tv = views(t@);
    assert(tv.skip(0) =~= tv);
    while p < t.len() && !chars_less(&xc, &chars_of(t[p].as_str()))
        invariant
            0 <= p <= t@.len(),
            xc@ == x@,
            tv == views(t@),
            insert_sorted_spec(x@, tv) == tv.take(p as int) + insert_sorted_spec(x@, tv.skip(p as int)),
        decreases t@.len() - p,
    {
        assert(tv.skip(p as int)[0] == t@[p as int]@);
        assert(tv.skip(p as int).drop_first() =~= tv.skip(p + 1));
        assert(tv.take(p + 1) =~= tv.take(p as int) + seq![tv.skip(p as int)[0]]);
        p = p + 1;
    }
    let mut r: Vec<String> = Vec::new();
    let mut i: usize = 0;
    while i < p
        invariant
            0 <= i <= p <= t@.len(),
            tv == views(t@),
            views(r@) == tv.take(i as int),
        decreases p - i,
    {
        let ghost before = views(r@);
        r.push(t[i].clone());
        assert(views(r@) =~= before.push(tv[i as int]));
        assert(views(r@) =~= tv.take(i + 1));
        i = i + 1;
    }
    let ghost at = views(r@);
    let ghost xv = x@;
    r.push(x);
    assert(views(r@) =~= at.push(xv) + tv.subrange(p as int, p as int));
    let mut j: usize = p;
    while j < t.len()
        invariant
            p <= j <= t@.len(),
            tv == views(t@),
            views(r@) == at.push(x@) + tv.subrange(p as int, j as int),
        decreases t@.len() - j,
    {
        let ghost before = views(r@);
        r.push(t[j].clone());
        assert(views(r@) =~= before.push(tv[j as int]));
        assert(views(r@) =~= at.push(x@) + tv.subrange(p as int, j + 1));
        j = j + 1;
    }
    proof {
        if p < t@.len() {
            assert(tv.skip(p as int)[0] == tv[p as int]);
            assert(insert_sorted_spec(x@, tv.skip(p as int)) == seq![x@] + tv.skip(p as int));
        } else {
            assert(tv.skip(p as int) =~= Seq::<Seq<char>>::empty());
        }
        assert(tv.subrange(p as int, j as int) =~= tv.skip(p as int));
        assert(views(r@) =~= tv.take(p as int) + insert_sorted_spec(x@, tv.skip(p as int)));
    }
    r
}

/// `list` in ascending string order (see `sort_chars_spec`).
pub fn sort_strings(list: &Vec<String>) -> (r: Vec<String>)
    ensures
        views(r@) == sort_chars_spec(views(list@)),
{
    let ghost lv = views(list@);
    let mut r: Vec<String> = Vec::new();
    let mut i: usize = 0;
    while i < list.len()
        invariant
            0 <= i <= list@.len(),
            lv == views(list@),
            views(r@) == sort_chars_spec(lv.take(i as int)),
        decreases list@.len() - i,
    {
        assert(lv.take(i + 1).drop_last() =~= lv.take(i as int));
        assert(lv.take(i + 1).last() == list@[i as int]@);
        r = insert_sorted(list[i].clone(), r);
        i = i + 1;
    }
    assert(lv.take(i as int) =~= lv);
    r
}


/// The pieces of `s` between `sep` characters, empty pieces included (as
/// `str::split` with a character pattern yields them).
pub open spec fn split_spec(s: Seq<char>, sep: char) -> Seq<Seq<char>>
    decreases s.len(),
{
    let k = find_char_spec(s, sep);
    if k >= s.len() {
        seq![s]
    } else {
        seq![s.take(k as int)] + split_spec(s.skip(k as int + 1), sep)
    }
}

fn find_from(v: &Vec<char>, c: char, from: usize) -> (k: usize)
    requires
        from <= v@.len(),
    ensures
        k == from + find_char_spec(v@.skip(from as int), c),
        k <= v@.len(),
{
    proof {
        lemma_find_char(v@.skip(from as int), c);
    }
    let mut i = from;
    while i < v.len() && v[i] != c
        invariant
            from <= i <= v@.len(),
            find_char_spec(v@.skip(from as int), c) == (i - from) + find_char_spec(v@.skip(i as int), c),
        decreases v@.len() - i,
    {
        assert(v@.skip(i as int).drop_first() =~= v@.skip(i + 1));
        i = i + 1;
    }
    proof {
        if i < v@.len() {
            assert(v@.skip(i as int)[0] == c);
        } else {
            assert(v@.skip(i as int).len() == 0);
        }
    }
    i
}

/// The views of a list of character vectors.
pub open spec fn vec_views(s: Seq<Vec<char>>) -> Seq<Seq<char>> {
    s.map_values(|p: Vec<char>| p@)
}

/// The pieces of `v` between `sep` characters (see `split_spec`).
pub fn split_chars(v: &Vec<char>, sep: char) -> (r: Vec<Vec<char>>)
    ensures
        vec_views(r@) == split_spec(v@, sep),
{
    let mut r: Vec<Vec<char>> = Vec::new();
    let mut start: usize = 0;
    let mut done = false;
    assert(v@.skip(0) =~= v@);
    while !done
        invariant
            start <= v@.len(),
            !done ==> split_spec(v@, sep) == vec_views(r@) + split_spec(v@.skip(start as int), sep),
            done ==> split_spec(v@, sep) == vec_views(r@),
        decreases v@.len() - start + if done { 0int } else { 1int },
    {
        let k = find_from(v, sep, start);
        let piece = slice_chars(v, start, k);
        let ghost rest = v@.skip(start as int);
        let ghost before = vec_views(r@);
        assert(piece@ =~= rest.take(k - start));
        r.push(piece);
        assert(vec_views(r@) =~= before + seq![rest.take(k - start)]);
        if k == v.len() {
            done = true;
        } else {
            assert(rest.skip(k - start + 1) =~= v@.skip(k + 1));
            start = k + 1;
        }
    }
    r
}

/// `s` without one leading `+`.
pub open spec fn unsigned_part(s: Seq<char>) -> Seq<char> {
    if s.len() > 0 && s[0] == '+' {
        s.drop_first()
    } else {
        s
    }
}

/// Every character of `d` is an ASCII digit.
pub open spec fn all_digits(d: Seq<char>) -> bool {
    forall|i: int| 0 <= i < d.len() ==> '0' <= #[trigger] d[i] <= '9'
}

/// The value of a decimal numeral as `u64::from_str` reads it: an optional
/// `+`, then one or more ASCII digits, within `u64`.
pub open spec fn parse_u64_spec(s: Seq<char>) -> Option<u64> {
    let digits = unsigned_part(s);
    if digits.len() > 0 && all_digits(digits) && digits_value(digits) <= u64::MAX {
        Some(digits_value(digits) as u64)
    } else {
        None
    }
}

/// The value of a string of ASCII digits.
pub open spec fn digits_value(d: Seq<char>) -> nat
    decreases d.len(),
{
    if d.len() == 0 {
        0
    } else {
        digits_value(d.drop_last()) * 10 + ((d.last() as int) - ('0' as int)) as nat
    }
}

proof fn lemma_digits_value_mono(d: Seq<char>, n: int)
    requires
        0 <= n <= d.len(),
        all_digits(d),
    ensures
        digits_value(d.take(n)) <= digits_value(d),
    decreases d.len() - n,
{
    if n < d.len() {
        lemma_digits_value_mono(d, n + 1);
        assert(d.take(n + 1).drop_last() =~= d.take(n));
        assert(d.take(n + 1).last() == d[n]);
        assert(digits_value(d.take(n)) <= digits_value(d.take(n)) * 10) by (nonlinear_arith);
    } else {
        assert(d.take(n) =~= d);
    }
}

/// Parses a `u64` as `str::parse` does (see `parse_u64_spec`).
pub fn parse_u64(s: &str) -> (r: Option<u64>)
    ensures
        r == parse_u64_spec(s@),
{
    let v = chars_of(s);
    let start: usize = if v.len() > 0 && v[0] == '+' { 1 } else { 0 };
    let ghost digits = unsigned_part(s@);
    assert(v@.skip(start as int) =~= digits);
    if start == v.len() {
        return None;
    }
    let mut value: u64 = 0;
    let mut i = start;
    while i < v.len()
        invariant
            start <= i <= v@.len(),
            v@ == s@,
            v@.skip(start as int) == digits,
            digits == unsigned_part(s@),
            digits.len() > 0,
            forall|k: int| 0 <= k < i - start ==> '0' <= #[trigger] digits[k] <= '9',
            value == digits_value(digits.take(i - start)),
        decreases v@.len() - i,
    {
        let c = v[i];
        if !('0' <= c && c <= '9') {
            assert(digits[i - start] == c);
            assert(!('0' <= digits[(i - start) as int] <= '9'));
            assert(!all_digits(digits));
            return None;
        }
        let d: u64 = if c == '0' { 0 } else if c == '1' { 1 } else if c == '2' { 2 } else if c == '3' { 3 } else if c
            == '4' { 4 } else if c == '5' { 5 } else if c == '6' { 6 } else if c == '7' { 7 } else if c == '8' { 8 } else { 9 };
        assert(d == (c as int) - ('0' as int));
        let ghost t = digits.take(i + 1 - start);
        assert(t.drop_last() =~= digits.take(i - start));
        assert(t.last() == c);
        if value > (u64::MAX - d) / 10 {
            proof {
                assert(digits_value(t) == value * 10 + d);
                assert(value * 10 + d > u64::MAX) by (nonlinear_arith)
                    requires
                        value > (u64::MAX - d) / 10,
                        d <= 9,
                ;
                if all_digits(digits) {
                    lemma_digits_value_mono(digits, i + 1 - start);
                    assert(digits_value(digits) > u64::MAX);
                }
            }
            return None;
        }
        assert(value * 10 + d <= u64::MAX) by (nonlinear_arith)
            requires
                value <= (u64::MAX - d) / 10,
                d <= 9,
        ;
        value = value * 10 + d;
        i = i + 1;
    }
    assert(digits.take(i - start) =~= digits);
    Some(value)
}

} // verus!
