use vstd::prelude::*;

use crate::node::attrs_view;

verus! {

/// No key occurs twice in `a`.
pub open spec fn keys_unique(a: Seq<(Seq<char>, Seq<char>)>) -> bool {
    forall|i: int, j: int| 0 <= i < j < a.len() ==> (#[trigger] a[i]).0 != (#[trigger] a[j]).0
}

/// Whether `k` is a key of `a`.
pub open spec fn has_key(a: Seq<(Seq<char>, Seq<char>)>, k: Seq<char>) -> bool {
    exists|i: int| 0 <= i < a.len() && (#[trigger] a[i]).0 == k
}

/// `a` with the value of `k` set to `v`: in its place where `k` is a key,
/// else added at the end.
pub open spec fn upsert(a: Seq<(Seq<char>, Seq<char>)>, k: Seq<char>, v: Seq<char>) -> Seq<
    (Seq<char>, Seq<char>),
> {
    if has_key(a, k) {
        let i = choose|i: int| 0 <= i < a.len() && (#[trigger] a[i]).0 == k;
        a.update(i, (k, v))
    } else {
        a.push((k, v))
    }
}

/// The attribute mapping that the pairs `s` give, taken in order: each key
/// once, where it first occurs, with the value of its last occurrence.
pub open spec fn normalized(s: Seq<(Seq<char>, Seq<char>)>) -> Seq<(Seq<char>, Seq<char>)>
    decreases s.len(),
{
    if s.len() == 0 {
        Seq::empty()
    } else {
        upsert(normalized(s.drop_last()), s.last().0, s.last().1)
    }
}

proof fn lemma_upsert_unique(a: Seq<(Seq<char>, Seq<char>)>, k: Seq<char>, v: Seq<char>)
    requires
        keys_unique(a),
    ensures
        keys_unique(upsert(a, k, v)),
{
}

/// A normalized mapping has each key once.
pub proof fn lemma_normalized_unique(s: Seq<(Seq<char>, Seq<char>)>)
    ensures
        keys_unique(normalized(s)),
    decreases s.len(),
{
    if s.len() > 0 {
        lemma_normalized_unique(s.drop_last());
        lemma_upsert_unique(normalized(s.drop_last()), s.last().0, s.last().1);
    }
}

/// A mapping whose keys are unique normalizes to itself.
pub proof fn lemma_unique_normalized(s: Seq<(Seq<char>, Seq<char>)>)
    requires
        keys_unique(s),
    ensures
        normalized(s) == s,
    decreases s.len(),
{
    if s.len() > 0 {
        let p = s.drop_last();
        assert(keys_unique(p)) by {
            assert forall|i: int, j: int| 0 <= i < j < p.len() implies (#[trigger] p[i]).0 != (
            #[trigger] p[j]).0 by {
                assert(p[i] == s[i] && p[j] == s[j]);
            }
        }
        lemma_unique_normalized(p);
        assert(!has_key(p, s.last().0)) by {
            if has_key(p, s.last().0) {
                let i = choose|i: int| 0 <= i < p.len() && (#[trigger] p[i]).0 == s.last().0;
                assert(s[i] == p[i]);
                assert(s[i].0 == s[s.len() - 1].0);
            }
        }
        assert(p.push((s.last().0, s.last().1)) =~= s);
    }
}

/// Normalizing is idempotent: normalizing a normalized mapping gives it back.
pub proof fn lemma_normalize_idempotent(s: Seq<(Seq<char>, Seq<char>)>)
    ensures
        normalized(normalized(s)) == normalized(s),
{
    lemma_normalized_unique(s);
    lemma_unique_normalized(normalized(s));
}

/// The value that the mapping `a` gives the key `k`.
pub open spec fn value_of(a: Seq<(Seq<char>, Seq<char>)>, k: Seq<char>) -> Option<Seq<char>> {
    if has_key(a, k) {
        Option::Some(a[choose|i: int| 0 <= i < a.len() && (#[trigger] a[i]).0 == k].1)
    } else {
        Option::None
    }
}

/// The value of the last occurrence of the key `k` among the pairs `s`.
pub open spec fn last_value(s: Seq<(Seq<char>, Seq<char>)>, k: Seq<char>) -> Option<Seq<char>>
    decreases s.len(),
{
    if s.len() == 0 {
        Option::None
    } else if s.last().0 == k {
        Option::Some(s.last().1)
    } else {
        last_value(s.drop_last(), k)
    }
}

proof fn lemma_value_at(a: Seq<(Seq<char>, Seq<char>)>, i: int)
    requires
        keys_unique(a),
        0 <= i < a.len(),
    ensures
        value_of(a, a[i].0) == Option::Some(a[i].1),
{
    assert(has_key(a, a[i].0));
}

/// Normalizing keeps the last value given to each key: the normalized mapping
/// gives a key the value of its last occurrence, and has no key that the pairs
/// do not name.
pub proof fn lemma_normalized_last_wins(s: Seq<(Seq<char>, Seq<char>)>, k: Seq<char>)
    ensures
        value_of(normalized(s), k) == last_value(s, k),
    decreases s.len(),
{
    if s.len() > 0 {
        let p = s.drop_last();
        let n = normalized(p);
        let (k2, v2) = s.last();
        lemma_normalized_last_wins(p, k);
        lemma_normalized_unique(p);
        lemma_upsert_unique(n, k2, v2);
        let u = upsert(n, k2, v2);
        if has_key(n, k2) {
            let j = choose|i: int| 0 <= i < n.len() && (#[trigger] n[i]).0 == k2;
            assert(u[j] == (k2, v2));
            if k == k2 {
                lemma_value_at(u, j);
            } else if has_key(n, k) {
                let i = choose|i: int| 0 <= i < n.len() && (#[trigger] n[i]).0 == k;
                assert(i != j);
                assert(u[i] == n[i]);
                lemma_value_at(u, i);
                lemma_value_at(n, i);
            } else {
                assert forall|i: int| 0 <= i < u.len() implies (#[trigger] u[i]).0 != k by {
                    if i != j {
                        assert(u[i] == n[i]);
                    }
                }
            }
        } else {
            assert(u[n.len() as int] == (k2, v2));
            if k == k2 {
                lemma_value_at(u, n.len() as int);
            } else if has_key(n, k) {
                let i = choose|i: int| 0 <= i < n.len() && (#[trigger] n[i]).0 == k;
                assert(u[i] == n[i]);
                lemma_value_at(u, i);
                lemma_value_at(n, i);
            } else {
                assert forall|i: int| 0 <= i < u.len() implies (#[trigger] u[i]).0 != k by {
                    if i < n.len() {
                        assert(u[i] == n[i]);
                    }
                }
            }
        }
    }
}

/// Sets the value of `k` to `v` in `out`, as [`upsert`] says.
pub fn upsert_attr(out: &mut Vec<(String, String)>, k: String, v: String)
    requires
        keys_unique(attrs_view(old(out)@)),
    ensures
        attrs_view(final(out)@) == upsert(attrs_view(old(out)@), k@, v@),
        keys_unique(attrs_view(final(out)@)),
{
    let ghost a = attrs_view(out@);
    let mut j: usize = 0;
    while j < out.len()
        invariant
            j <= out.len(),
            out@ == old(out)@,
            a == attrs_view(out@),
            keys_unique(a),
            forall|i: int| 0 <= i < j ==> (#[trigger] a[i]).0 != k@,
        decreases out.len() - j,
    {
        if out[j].0 == k {
            proof {
                assert(a[j as int].0 == k@);
                assert(has_key(a, k@));
                let c = choose|i: int| 0 <= i < a.len() && (#[trigger] a[i]).0 == k@;
                assert(c == j);
            }
            out[j] = (k, v);
            proof {
                assert(attrs_view(out@) =~= a.update(j as int, (k@, v@)));
                lemma_upsert_unique(a, k@, v@);
            }
            return;
        }
        j += 1;
    }
    out.push((k, v));
    proof {
        assert(!has_key(a, k@));
        assert(attrs_view(out@) =~= a.push((k@, v@)));
        lemma_upsert_unique(a, k@, v@);
    }
}

/// The model of a list of string pairs.
pub open spec fn str_pairs_view(s: Seq<(&str, &str)>) -> Seq<(Seq<char>, Seq<char>)> {
    Seq::new(s.len(), |i: int| (s[i].0@, s[i].1@))
}

/// Normalizes the pairs `s`, as [`normalized`] says.
pub fn normalize_pairs(s: &[(&str, &str)]) -> (r: Vec<(String, String)>)
    ensures
        attrs_view(r@) == normalized(str_pairs_view(s@)),
        keys_unique(attrs_view(r@)),
{
    let ghost p = str_pairs_view(s@);
    let mut out: Vec<(String, String)> = Vec::new();
    let mut i: usize = 0;
    proof {
        assert(attrs_view(out@) =~= normalized(p.subrange(0, 0)));
    }
    while i < s.len()
        invariant
            i <= s.len(),
            p == str_pairs_view(s@),
            attrs_view(out@) == normalized(p.subrange(0, i as int)),
            keys_unique(attrs_view(out@)),
        decreases s.len() - i,
    {
        let (k, v) = s[i];
        upsert_attr(&mut out, k.to_owned(), v.to_owned());
        proof {
            let q = p.subrange(0, i + 1);
            assert(q.drop_last() =~= p.subrange(0, i as int));
        }
        i += 1;
    }
    assert(p.subrange(0, s.len() as int) =~= p);
    out
}

/// Normalizes the pairs `s`, as [`normalized`] says.
pub fn normalize_strings(s: &Vec<(String, String)>) -> (r: Vec<(String, String)>)
    ensures
        attrs_view(r@) == normalized(attrs_view(s@)),
        keys_unique(attrs_view(r@)),
{
    let ghost p = attrs_view(s@);
    let mut out: Vec<(String, String)> = Vec::new();
    let mut i: usize = 0;
    proof {
        assert(attrs_view(out@) =~= normalized(p.subrange(0, 0)));
    }
    while i < s.len()
        invariant
            i <= s.len(),
            p == attrs_view(s@),
            attrs_view(out@) == normalized(p.subrange(0, i as int)),
            keys_unique(attrs_view(out@)),
        decreases s.len() - i,
    {
        let k = s[i].0.clone();
        let v = s[i].1.clone();
        upsert_attr(&mut out, k, v);
        proof {
            let q = p.subrange(0, i + 1);
            assert(q.drop_last() =~= p.subrange(0, i as int));
        }
        i += 1;
    }
    assert(p.subrange(0, s.len() as int) =~= p);
    out
}

/// Inputs that give a tag's attributes.
pub trait IntoAttrs: Sized {
    /// The key/value pairs of the input, in its own order.
    spec fn attr_pairs(&self) -> Seq<(Seq<char>, Seq<char>)>;

    /// The attribute mapping of the input: its pairs normalized.
    fn into_attrs(self) -> (r: Vec<(String, String)>)
        ensures
            attrs_view(r@) == normalized(self.attr_pairs()),
            keys_unique(attrs_view(r@)),
    ;
}

impl IntoAttrs for Vec<(String, String)> {
    open spec fn attr_pairs(&self) -> Seq<(Seq<char>, Seq<char>)> {
        attrs_view(self@)
    }

    fn into_attrs(self) -> (r: Vec<(String, String)>) {
        normalize_strings(&self)
    }
}

impl IntoAttrs for Vec<(&str, &str)> {
    open spec fn attr_pairs(&self) -> Seq<(Seq<char>, Seq<char>)> {
        str_pairs_view(self@)
    }

    fn into_attrs(self) -> (r: Vec<(String, String)>) {
        normalize_pairs(self.as_slice())
    }
}

impl IntoAttrs for &[(&str, &str)] {
    open spec fn attr_pairs(&self) -> Seq<(Seq<char>, Seq<char>)> {
        str_pairs_view(self@)
    }

    fn into_attrs(self) -> (r: Vec<(String, String)>) {
        normalize_pairs(self)
    }
}

impl<const N: usize> IntoAttrs for [(&str, &str); N] {
    open spec fn attr_pairs(&self) -> Seq<(Seq<char>, Seq<char>)> {
        str_pairs_view(self@)
    }

    fn into_attrs(self) -> (r: Vec<(String, String)>) {
        normalize_pairs(self.as_slice())
    }
}

impl IntoAttrs for Option<&[(&str, &str)]> {
    open spec fn attr_pairs(&self) -> Seq<(Seq<char>, Seq<char>)> {
        match self {
            Option::Some(s) => str_pairs_view(s@),
            Option::None => Seq::empty(),
        }
    }

    fn into_attrs(self) -> (r: Vec<(String, String)>) {
        match self {
            Option::Some(s) => normalize_pairs(s),
            Option::None => Vec::new(),
        }
    }
}

} // verus!
