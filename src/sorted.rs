//! Ordering of strings and sorted, key-unique vectors of pairs.
use vstd::prelude::*;
use vstd::string::*;

verus! {

/// Lexicographic order on character sequences by code point. It is the order
/// of `str`, since UTF-8 keeps the code point order byte by byte.
pub open spec fn seq_lt(a: Seq<char>, b: Seq<char>) -> bool
    decreases a.len(),
{
    if a.len() == 0 {
        b.len() > 0
    } else if b.len() == 0 {
        false
    } else if a[0] != b[0] {
        a[0] < b[0]
    } else {
        seq_lt(a.drop_first(), b.drop_first())
    }
}

pub proof fn lemma_lt_irreflexive(a: Seq<char>)
    ensures
        !seq_lt(a, a),
    decreases a.len(),
{
    if a.len() > 0 {
        lemma_lt_irreflexive(a.drop_first());
    }
}

pub proof fn lemma_lt_total(a: Seq<char>, b: Seq<char>)
    ensures
        a != b ==> (seq_lt(a, b) || seq_lt(b, a)),
        !(seq_lt(a, b) && seq_lt(b, a)),
    decreases a.len(),
{
    if a.len() > 0 && b.len() > 0 {
        if a[0] == b[0] {
            lemma_lt_total(a.drop_first(), b.drop_first());
            if a != b {
                assert(a =~= seq![a[0]] + a.drop_first());
                assert(b =~= seq![b[0]] + b.drop_first());
            }
        } else {
        }
    } else if a.len() == 0 && b.len() == 0 {
        assert(a =~= b);
    }
}

pub proof fn lemma_lt_transitive(a: Seq<char>, b: Seq<char>, c: Seq<char>)
    requires
        seq_lt(a, b),
        seq_lt(b, c),
    ensures
        seq_lt(a, c),
    decreases a.len(),
{
    if a.len() > 0 && a[0] == b[0] && b[0] == c[0] {
        lemma_lt_transitive(a.drop_first(), b.drop_first(), c.drop_first());
    }
}

/// A sequence is smaller than any longer sequence that it begins.
pub proof fn lemma_prefix_lt(a: Seq<char>, rest: Seq<char>)
    requires
        rest.len() > 0,
    ensures
        seq_lt(a, a + rest),
    decreases a.len(),
{
    if a.len() > 0 {
        assert((a + rest).drop_first() =~= a.drop_first() + rest);
        lemma_prefix_lt(a.drop_first(), rest);
    }
}

proof fn lemma_lt_skip(a: Seq<char>, b: Seq<char>, i: int)
    requires
        0 <= i < a.len(),
        i < b.len(),
        a[i] == b[i],
    ensures
        seq_lt(a.skip(i), b.skip(i)) == seq_lt(a.skip(i + 1), b.skip(i + 1)),
{
    assert(a.skip(i).drop_first() =~= a.skip(i + 1));
    assert(b.skip(i).drop_first() =~= b.skip(i + 1));
}

/// Whether `a` comes before `b` in the order of strings.
pub fn str_lt(a: &str, b: &str) -> (r: bool)
    ensures
        r == seq_lt(a@, b@),
{
    let la = a.unicode_len();
    let lb = b.unicode_len();
    let mut i: usize = 0;
    assert(a@.skip(0) =~= a@);
    assert(b@.skip(0) =~= b@);
    while i < la && i < lb
        invariant
            la == a@.len(),
            lb == b@.len(),
            i <= la,
            i <= lb,
            seq_lt(a@, b@) == seq_lt(a@.skip(i as int), b@.skip(i as int)),
        decreases la - i,
    {
        let ca = a.get_char(i);
        let cb = b.get_char(i);
        if ca != cb {
            return ca < cb;
        }
        proof {
            lemma_lt_skip(a@, b@, i as int);
        }
        i = i + 1;
    }
    la < lb
}

/// Keys of the pairs strictly ascending: each key occurs once.
pub open spec fn keys_ascending<V>(s: Seq<(Seq<char>, V)>) -> bool {
    forall|i: int, j: int| 0 <= i < j < s.len() ==> seq_lt(#[trigger] s[i].0, #[trigger] s[j].0)
}

/// The pairs of `s` with `v` put under `k`: the pair already under `k` is
/// replaced, or else the new pair goes before the first larger key.
pub open spec fn put<V>(s: Seq<(Seq<char>, V)>, k: Seq<char>, v: V) -> Seq<(Seq<char>, V)>
    decreases s.len(),
{
    if s.len() == 0 {
        seq![(k, v)]
    } else if s[0].0 == k {
        s.update(0, (k, v))
    } else if seq_lt(k, s[0].0) {
        seq![(k, v)] + s
    } else {
        seq![s[0]] + put(s.drop_first(), k, v)
    }
}

/// Putting a pair keeps the keys ascending.
pub proof fn lemma_put_ascending<V>(s: Seq<(Seq<char>, V)>, k: Seq<char>, v: V)
    requires
        keys_ascending(s),
    ensures
        keys_ascending(put(s, k, v)),
        forall|i: int|
            0 <= i < put(s, k, v).len() ==> put(s, k, v)[i].0 == k || exists|j: int|
                0 <= j < s.len() && s[j].0 == #[trigger] put(s, k, v)[i].0,
    decreases s.len(),
{
    let r = put(s, k, v);
    if s.len() == 0 {
    } else if s[0].0 == k {
        assert forall|i: int| 0 <= i < r.len() implies r[i].0 == k || exists|j: int|
            0 <= j < s.len() && s[j].0 == #[trigger] r[i].0 by {
            if i > 0 {
                assert(s[i].0 == r[i].0);
            }
        }
    } else if seq_lt(k, s[0].0) {
        assert forall|i: int, j: int| 0 <= i < j < r.len() implies seq_lt(
            #[trigger] r[i].0,
            #[trigger] r[j].0,
        ) by {
            if i == 0 && j > 1 {
                lemma_lt_transitive(k, s[0].0, s[j - 1].0);
            }
        }
        assert forall|i: int| 0 <= i < r.len() implies r[i].0 == k || exists|j: int|
            0 <= j < s.len() && s[j].0 == #[trigger] r[i].0 by {
            if i > 0 {
                assert(s[i - 1].0 == r[i].0);
            }
        }
    } else {
        let t = s.drop_first();
        lemma_put_ascending(t, k, v);
        lemma_lt_total(k, s[0].0);
        assert forall|i: int, j: int| 0 <= i < j < r.len() implies seq_lt(
            #[trigger] r[i].0,
            #[trigger] r[j].0,
        ) by {
            if i == 0 {
                let q = put(t, k, v);
                assert(r[j] == q[j - 1]);
                if q[j - 1].0 != k {
                    let jj = choose|jj: int| 0 <= jj < t.len() && t[jj].0 == q[j - 1].0;
                    assert(s[jj + 1].0 == t[jj].0);
                }
            }
        }
        assert forall|i: int| 0 <= i < r.len() implies r[i].0 == k || exists|j: int|
            0 <= j < s.len() && s[j].0 == #[trigger] r[i].0 by {
            if i == 0 {
                assert(s[0].0 == r[0].0);
            } else {
                let q = put(t, k, v);
                assert(r[i] == q[i - 1]);
                if q[i - 1].0 != k {
                    let jj = choose|jj: int| 0 <= jj < t.len() && t[jj].0 == q[i - 1].0;
                    assert(s[jj + 1].0 == r[i].0);
                }
            }
        }
    }
}

/// Each pair after putting is the new pair or one that was there.
pub proof fn lemma_put_pairs<V>(s: Seq<(Seq<char>, V)>, k: Seq<char>, v: V)
    ensures
        forall|i: int|
            0 <= i < put(s, k, v).len() ==> put(s, k, v)[i] == (k, v) || exists|j: int|
                0 <= j < s.len() && s[j] == #[trigger] put(s, k, v)[i],
    decreases s.len(),
{
    let r = put(s, k, v);
    if s.len() == 0 {
    } else if s[0].0 == k {
        assert forall|i: int| 0 <= i < r.len() implies r[i] == (k, v) || exists|j: int|
            0 <= j < s.len() && s[j] == #[trigger] r[i] by {
            if i > 0 {
                assert(s[i] == r[i]);
            }
        }
    } else if seq_lt(k, s[0].0) {
        assert forall|i: int| 0 <= i < r.len() implies r[i] == (k, v) || exists|j: int|
            0 <= j < s.len() && s[j] == #[trigger] r[i] by {
            if i > 0 {
                assert(s[i - 1] == r[i]);
            }
        }
    } else {
        let t = s.drop_first();
        lemma_put_pairs(t, k, v);
        assert forall|i: int| 0 <= i < r.len() implies r[i] == (k, v) || exists|j: int|
            0 <= j < s.len() && s[j] == #[trigger] r[i] by {
            if i == 0 {
                assert(s[0] == r[0]);
            } else {
                let q = put(t, k, v);
                assert(r[i] == q[i - 1]);
                if q[i - 1] != (k, v) {
                    let jj = choose|jj: int| 0 <= jj < t.len() && t[jj] == q[i - 1];
                    assert(s[jj + 1] == r[i]);
                }
            }
        }
    }
}

proof fn lemma_put_skip<V>(s: Seq<(Seq<char>, V)>, k: Seq<char>, v: V, i: int)
    requires
        0 <= i < s.len(),
        seq_lt(s[i].0, k),
    ensures
        s.subrange(0, i) + put(s.subrange(i, s.len() as int), k, v) == s.subrange(0, i + 1) + put(
            s.subrange(i + 1, s.len() as int),
            k,
            v,
        ),
{
    let t = s.subrange(i, s.len() as int);
    lemma_lt_total(k, t[0].0);
    lemma_lt_irreflexive(k);
    assert(t.drop_first() =~= s.subrange(i + 1, s.len() as int));
    assert(s.subrange(0, i + 1) =~= s.subrange(0, i) + seq![t[0]]);
    assert(s.subrange(0, i) + put(t, k, v) =~= s.subrange(0, i + 1) + put(t.drop_first(), k, v));
}

/// Whether some pair has the key `k`.
pub fn has_key<V: DeepView>(v: &Vec<(String, V)>, k: &str) -> (r: bool)
    ensures
        r == exists|i: int| 0 <= i < v.deep_view().len() && v.deep_view()[i].0 == k@,
{
    let key = k.to_owned();
    let mut i: usize = 0;
    while i < v.len()
        invariant
            i <= v.len(),
            key@ == k@,
            forall|j: int| 0 <= j < i ==> v.deep_view()[j].0 != k@,
        decreases v.len() - i,
    {
        assert(v.deep_view()[i as int].0 == v[i as int].0@);
        if v[i].0 == key {
            return true;
        }
        i = i + 1;
    }
    false
}

/// Puts `val` under `k` in a vector of pairs ordered by key.
pub fn put_sorted<V: DeepView>(v: &mut Vec<(String, V)>, k: String, val: V)
    ensures
        final(v).deep_view() == put(old(v).deep_view(), k@, val.deep_view()),
{
    let ghost s = v.deep_view();
    let n = v.len();
    let mut i: usize = 0;
    assert(s.subrange(0, n as int) =~= s);
    assert(s.subrange(0, 0) + put(s.subrange(0, n as int), k@, val.deep_view()) =~= put(
        s,
        k@,
        val.deep_view(),
    ));
    while i < n && str_lt(v[i].0.as_str(), k.as_str())
        invariant
            n == v.len(),
            i <= n,
            s == v.deep_view(),
            s.subrange(0, i as int) + put(s.subrange(i as int, n as int), k@, val.deep_view())
                == put(s, k@, val.deep_view()),
        decreases n - i,
    {
        proof {
            assert(s[i as int].0 == v[i as int].0@);
            lemma_put_skip(s, k@, val.deep_view(), i as int);
        }
        i = i + 1;
    }
    let ghost t = s.subrange(i as int, n as int);
    if i == n {
        v.push((k, val));
        assert(v.deep_view() =~= s + seq![(k@, val.deep_view())]);
        assert(s.subrange(0, n as int) =~= s);
    } else if v[i].0 == k {
        assert(t[0].0 == k@);
        v.set(i, (k, val));
        assert(v.deep_view() =~= s.subrange(0, i as int) + t.update(0, (k@, val.deep_view())));
    } else {
        proof {
            assert(t[0].0 == v[i as int].0@);
            lemma_lt_total(k@, t[0].0);
        }
        v.insert(i, (k, val));
        assert(v.deep_view() =~= s.subrange(0, i as int) + (seq![(k@, val.deep_view())] + t));
    }
}

} // verus!
