//! Name-keyed collections kept in the order a `BTreeMap<String, _>` walks
//! them: strictly ascending by name, one entry per name.
//!
//! Names compare as Rust compares strings, character by character on their
//! code points; a proper prefix comes first.
use vstd::prelude::*;
use crate::text::{chars_of, strings_view};

verus! {

/// `a` sorts strictly before `b`.
pub open spec fn str_lt(a: Seq<char>, b: Seq<char>) -> bool
    decreases a.len(),
{
    if a.len() == 0 {
        b.len() > 0
    } else if b.len() == 0 {
        false
    } else if a[0] != b[0] {
        (a[0] as int) < (b[0] as int)
    } else {
        str_lt(a.drop_first(), b.drop_first())
    }
}

/// No name sorts before itself.
pub proof fn lemma_str_lt_irreflexive(a: Seq<char>)
    ensures
        !str_lt(a, a),
    decreases a.len(),
{
    if a.len() > 0 {
        lemma_str_lt_irreflexive(a.drop_first());
    }
}

/// Sorting before is transitive.
pub proof fn lemma_str_lt_transitive(a: Seq<char>, b: Seq<char>, c: Seq<char>)
    requires
        str_lt(a, b),
        str_lt(b, c),
    ensures
        str_lt(a, c),
    decreases a.len(),
{
    if a.len() > 0 && b.len() > 0 && c.len() > 0 {
        if a[0] == b[0] && b[0] == c[0] {
            lemma_str_lt_transitive(a.drop_first(), b.drop_first(), c.drop_first());
        }
    }
}

/// Two different names are ordered one way or the other.
pub proof fn lemma_str_lt_total(a: Seq<char>, b: Seq<char>)
    requires
        a != b,
    ensures
        str_lt(a, b) || str_lt(b, a),
    decreases a.len(),
{
    if a.len() > 0 && b.len() > 0 {
        if a[0] == b[0] {
            if a.drop_first() == b.drop_first() {
                assert(a =~= seq![a[0]] + a.drop_first());
                assert(b =~= seq![b[0]] + b.drop_first());
            }
            lemma_str_lt_total(a.drop_first(), b.drop_first());
        } else {
        }
    } else if a.len() == 0 && b.len() == 0 {
        assert(a =~= b);
    }
}

/// Whether `a` sorts strictly before `b`.
pub fn str_less(a: &str, b: &str) -> (r: bool)
    ensures
        r == str_lt(a@, b@),
{
    let va = chars_of(a);
    let vb = chars_of(b);
    let mut i: usize = 0;
    assert(a@.skip(0) =~= a@);
    assert(b@.skip(0) =~= b@);
    while i < va.len() && i < vb.len()
        invariant
            i <= va.len(),
            i <= vb.len(),
            va@ == a@,
            vb@ == b@,
            forall|j: int| 0 <= j < i ==> va@[j] == vb@[j],
            str_lt(a@, b@) == str_lt(a@.skip(i as int), b@.skip(i as int)),
        decreases va.len() - i,
    {
        let x = va[i];
        let y = vb[i];
        if x != y {
            assert(a@.skip(i as int)[0] == x);
            assert(b@.skip(i as int)[0] == y);
            return x < y;
        }
        assert(a@.skip(i as int).drop_first() =~= a@.skip(i + 1));
        assert(b@.skip(i as int).drop_first() =~= b@.skip(i + 1));
        i = i + 1;
    }
    i == va.len() && i < vb.len()
}

/// A value filed under a name.
pub trait Named {
    /// The name this value is filed under.
    spec fn key_of(&self) -> Seq<char>;
}

/// A run-time value filed under a name it can hand out.
pub trait Keyed: Named {
    /// The name this value is filed under.
    fn key(&self) -> (r: &str)
        ensures
            r@ == self.key_of(),
    ;
}

impl Named for String {
    open spec fn key_of(&self) -> Seq<char> {
        self@
    }
}

impl Keyed for String {
    fn key(&self) -> (r: &str) {
        self.as_str()
    }
}

impl Named for Seq<char> {
    open spec fn key_of(&self) -> Seq<char> {
        *self
    }
}

/// The names of a sequence of entries, in order.
pub open spec fn keys_of<T: Named>(s: Seq<T>) -> Seq<Seq<char>> {
    s.map_values(|x: T| x.key_of())
}

/// Every name sorts strictly before every later one.
pub open spec fn strictly_sorted(k: Seq<Seq<char>>) -> bool {
    forall|i: int, j: int| 0 <= i < j < k.len() ==> str_lt(#[trigger] k[i], #[trigger] k[j])
}

/// Whether the entries of `v` are filed strictly by name: each name sorts
/// strictly before the next.
pub fn is_strictly_sorted<T: Keyed>(v: &Vec<T>) -> (r: bool)
    ensures
        r == strictly_sorted(keys_of(v@)),
{
    if v.len() == 0 {
        return true;
    }
    let mut i: usize = 1;
    while i < v.len()
        invariant
            1 <= i <= v@.len(),
            strictly_sorted(keys_of(v@).take(i as int)),
        decreases v.len() - i,
    {
        let ghost k = keys_of(v@);
        if !str_less(v[i - 1].key(), v[i].key()) {
            assert(!strictly_sorted(k)) by {
                assert(!str_lt(k[i - 1], k[i as int]));
            }
            return false;
        }
        assert(strictly_sorted(k.take(i + 1))) by {
            assert forall|a: int, b: int| 0 <= a < b < i + 1 implies str_lt(
                #[trigger] k.take(i + 1)[a],
                #[trigger] k.take(i + 1)[b],
            ) by {
                if b == i {
                    if a < i - 1 {
                        assert(str_lt(k.take(i as int)[a], k.take(i as int)[i - 1]));
                        lemma_str_lt_transitive(k[a], k[i - 1], k[b]);
                    }
                } else {
                    assert(str_lt(k.take(i as int)[a], k.take(i as int)[b]));
                }
            }
        }
        i = i + 1;
    }
    assert(keys_of(v@).take(i as int) =~= keys_of(v@));
    true
}

/// The position of the first entry filed under `key`.
pub open spec fn find_key<T: Named>(s: Seq<T>, key: Seq<char>) -> Option<int>
    decreases s.len(),
{
    if s.len() == 0 {
        None
    } else if s[0].key_of() == key {
        Some(0)
    } else {
        match find_key(s.drop_first(), key) {
            Some(i) => Some(i + 1),
            None => None,
        }
    }
}

/// The first entry filed under `key`.
pub open spec fn lookup<T: Named>(s: Seq<T>, key: Seq<char>) -> Option<T> {
    match find_key(s, key) {
        Some(i) => Some(s[i]),
        None => None,
    }
}

/// Whether some entry is filed under `key`.
pub open spec fn has_key<T: Named>(s: Seq<T>, key: Seq<char>) -> bool {
    find_key(s, key) is Some
}

/// `find_key` names the first position whose name matches, and only a
/// position whose name matches.
pub proof fn lemma_find_key<T: Named>(s: Seq<T>, key: Seq<char>)
    ensures
        match find_key(s, key) {
            Some(i) => 0 <= i < s.len() && s[i].key_of() == key && forall|j: int|
                0 <= j < i ==> (#[trigger] s[j]).key_of() != key,
            None => forall|j: int| 0 <= j < s.len() ==> (#[trigger] s[j]).key_of() != key,
        },
    decreases s.len(),
{
    if s.len() > 0 {
        lemma_find_key(s.drop_first(), key);
        match find_key(s, key) {
            Some(i) => {
                assert forall|j: int| 0 <= j < i implies (#[trigger] s[j]).key_of() != key by {
                    if j > 0 {
                        assert(s[j] == s.drop_first()[j - 1]);
                    }
                }
            },
            None => {
                assert forall|j: int| 0 <= j < s.len() implies (#[trigger] s[j]).key_of() != key by {
                    if j > 0 {
                        assert(s[j] == s.drop_first()[j - 1]);
                    }
                }
            },
        }
    }
}

/// The first position whose name matches is the one `find_key` names.
pub proof fn lemma_find_key_at<T: Named>(s: Seq<T>, key: Seq<char>, i: int)
    requires
        0 <= i < s.len(),
        s[i].key_of() == key,
        forall|j: int| 0 <= j < i ==> (#[trigger] s[j]).key_of() != key,
    ensures
        find_key(s, key) == Some(i),
{
    lemma_find_key(s, key);
    match find_key(s, key) {
        Some(k) => {
            if k < i {
                assert(s[k].key_of() != key);
            }
        },
        None => {
            assert(s[i].key_of() != key);
        },
    }
}

/// In a strictly sorted sequence every entry is the first of its name.
pub proof fn lemma_find_key_sorted<T: Named>(s: Seq<T>, i: int)
    requires
        strictly_sorted(keys_of(s)),
        0 <= i < s.len(),
    ensures
        find_key(s, s[i].key_of()) == Some(i),
{
    assert forall|j: int| 0 <= j < i implies (#[trigger] s[j]).key_of() != s[i].key_of() by {
        assert(str_lt(keys_of(s)[j], keys_of(s)[i]));
        lemma_str_lt_irreflexive(s[i].key_of());
    }
    lemma_find_key_at(s, s[i].key_of(), i);
}

/// The position of the first entry filed under `key`, `None` when there is
/// none.
pub fn find_position<T: Keyed>(v: &Vec<T>, key: &str) -> (r: Option<usize>)
    ensures
        match r {
            Some(i) => find_key(v@, key@) == Some(i as int),
            None => find_key(v@, key@) is None,
        },
{
    let mut i: usize = 0;
    while i < v.len()
        invariant
            i <= v.len(),
            forall|j: int| 0 <= j < i ==> (#[trigger] v@[j]).key_of() != key@,
        decreases v.len() - i,
    {
        let k = v[i].key();
        if crate::text::str_eq(k, key) {
            proof {
                lemma_find_key_at(v@, key@, i as int);
            }
            return Some(i);
        }
        i = i + 1;
    }
    proof {
        lemma_find_key(v@, key@);
    }
    None
}

/// The first entry filed under `key`, `None` when there is none.
pub fn lookup_entry<'a, T: Keyed>(v: &'a Vec<T>, key: &str) -> (r: Option<&'a T>)
    ensures
        match r {
            Some(x) => lookup(v@, key@) == Some(*x),
            None => lookup(v@, key@) is None,
        },
{
    proof {
        lemma_find_key(v@, key@);
    }
    match find_position(v, key) {
        Some(i) => Some(&v[i]),
        None => None,
    }
}

/// Whether some entry is filed under `key`.
pub fn contains_key<T: Keyed>(v: &Vec<T>, key: &str) -> (r: bool)
    ensures
        r == has_key(v@, key@),
{
    find_position(v, key).is_some()
}

/// `s` with `x` filed under its name: it replaces the entry of that name, or
/// goes in before the first entry whose name sorts after its own.
pub open spec fn sorted_insert<T: Named>(s: Seq<T>, x: T) -> Seq<T>
    decreases s.len(),
{
    if s.len() == 0 {
        seq![x]
    } else if s[0].key_of() == x.key_of() {
        seq![x] + s.drop_first()
    } else if str_lt(x.key_of(), s[0].key_of()) {
        seq![x] + s
    } else {
        seq![s[0]] + sorted_insert(s.drop_first(), x)
    }
}

/// Whether some entry is filed under `key`, said over the names.
pub proof fn lemma_has_key<T: Named>(s: Seq<T>, key: Seq<char>)
    ensures
        has_key(s, key) <==> keys_of(s).contains(key),
{
    lemma_find_key(s, key);
    if has_key(s, key) {
        let i: int = find_key(s, key)->0;
        assert(keys_of(s)[i] == key);
    }
    if keys_of(s).contains(key) {
        let i: int = choose|i: int| 0 <= i < keys_of(s).len() && keys_of(s)[i] == key;
        assert(s[i].key_of() == key);
    }
}

/// Filing an entry keeps a strictly sorted sequence strictly sorted, the
/// names it holds are the old ones and the new one, and the new entry is
/// the one filed under its name.
pub proof fn lemma_sorted_insert<T: Named>(s: Seq<T>, x: T)
    requires
        strictly_sorted(keys_of(s)),
    ensures
        strictly_sorted(keys_of(sorted_insert(s, x))),
        forall|k: Seq<char>|
            #![trigger keys_of(sorted_insert(s, x)).contains(k)]
            keys_of(sorted_insert(s, x)).contains(k) <==> (keys_of(s).contains(k) || k == x.key_of()),
        sorted_insert(s, x).contains(x),
        lookup(sorted_insert(s, x), x.key_of()) == Some(x),
    decreases s.len(),
{
    let r = sorted_insert(s, x);
    let xk = x.key_of();
    if s.len() == 0 {
        assert(keys_of(r) =~= seq![xk]);
        assert(r[0] == x);
        assert forall|k: Seq<char>|
            #![trigger keys_of(r).contains(k)]
            keys_of(r).contains(k) <==> (keys_of(s).contains(k) || k == xk) by {
            if k == xk {
                assert(keys_of(r)[0] == k);
            }
        }
    } else {
        let t = s.drop_first();
        let s0k = s[0].key_of();
        assert(keys_of(t) =~= keys_of(s).drop_first());
        assert(keys_of(s) =~= seq![s0k] + keys_of(t));
        assert(strictly_sorted(keys_of(t)));
        if s0k == xk {
            assert(r =~= seq![x] + t);
            assert(keys_of(r) =~= keys_of(s));
            assert(r[0] == x);
            assert(keys_of(s)[0] == xk);
        } else if str_lt(xk, s0k) {
            assert(r =~= seq![x] + s);
            assert(keys_of(r) =~= seq![xk] + keys_of(s));
            assert(r[0] == x);
            assert forall|i: int, j: int| 0 <= i < j < keys_of(r).len() implies str_lt(
                #[trigger] keys_of(r)[i],
                #[trigger] keys_of(r)[j],
            ) by {
                if i == 0 && j > 1 {
                    assert(str_lt(keys_of(s)[0], keys_of(s)[j - 1]));
                    lemma_str_lt_transitive(xk, s0k, keys_of(s)[j - 1]);
                } else if i > 0 {
                    assert(keys_of(r)[i] == keys_of(s)[i - 1]);
                    assert(keys_of(r)[j] == keys_of(s)[j - 1]);
                }
            }
            assert forall|k: Seq<char>|
                #![trigger keys_of(r).contains(k)]
                keys_of(r).contains(k) <==> (keys_of(s).contains(k) || k == xk) by {
                if keys_of(s).contains(k) {
                    let i: int = choose|i: int| 0 <= i < keys_of(s).len() && keys_of(s)[i] == k;
                    assert(keys_of(r)[i + 1] == k);
                }
                if keys_of(r).contains(k) && k != xk {
                    let i: int = choose|i: int| 0 <= i < keys_of(r).len() && keys_of(r)[i] == k;
                    assert(keys_of(s)[i - 1] == k);
                }
                if k == xk {
                    assert(keys_of(r)[0] == k);
                }
            }
        } else {
            lemma_str_lt_total(xk, s0k);
            lemma_sorted_insert(t, x);
            let rt = sorted_insert(t, x);
            assert(r =~= seq![s[0]] + rt);
            assert(keys_of(r) =~= seq![s0k] + keys_of(rt));
            assert forall|j: int| 0 <= j < keys_of(rt).len() implies str_lt(
                s0k,
                #[trigger] keys_of(rt)[j],
            ) by {
                let k = keys_of(rt)[j];
                assert(keys_of(rt).contains(k));
                if k != xk {
                    let p: int = choose|p: int| 0 <= p < keys_of(t).len() && keys_of(t)[p] == k;
                    assert(keys_of(s)[p + 1] == k);
                    assert(str_lt(keys_of(s)[0], keys_of(s)[p + 1]));
                }
            }
            assert forall|i: int, j: int| 0 <= i < j < keys_of(r).len() implies str_lt(
                #[trigger] keys_of(r)[i],
                #[trigger] keys_of(r)[j],
            ) by {
                if i == 0 {
                    assert(keys_of(r)[j] == keys_of(rt)[j - 1]);
                } else {
                    assert(keys_of(r)[i] == keys_of(rt)[i - 1]);
                    assert(keys_of(r)[j] == keys_of(rt)[j - 1]);
                }
            }
            assert forall|k: Seq<char>|
                #![trigger keys_of(r).contains(k)]
                keys_of(r).contains(k) <==> (keys_of(s).contains(k) || k == xk) by {
                if keys_of(s).contains(k) {
                    let i: int = choose|i: int| 0 <= i < keys_of(s).len() && keys_of(s)[i] == k;
                    if i == 0 {
                        assert(keys_of(r)[0] == k);
                    } else {
                        assert(keys_of(t)[i - 1] == k);
                        assert(keys_of(rt).contains(k));
                        let q: int = choose|q: int| 0 <= q < keys_of(rt).len() && keys_of(rt)[q] == k;
                        assert(keys_of(r)[q + 1] == k);
                    }
                }
                if keys_of(r).contains(k) {
                    let i: int = choose|i: int| 0 <= i < keys_of(r).len() && keys_of(r)[i] == k;
                    if i == 0 {
                        assert(keys_of(s)[0] == k);
                    } else {
                        assert(keys_of(rt)[i - 1] == k);
                        assert(keys_of(rt).contains(k));
                        if k != xk {
                            let p: int = choose|p: int| 0 <= p < keys_of(t).len() && keys_of(t)[p] == k;
                            assert(keys_of(s)[p + 1] == k);
                        }
                    }
                }
                if k == xk {
                    assert(keys_of(rt).contains(k));
                    let q: int = choose|q: int| 0 <= q < keys_of(rt).len() && keys_of(rt)[q] == k;
                    assert(keys_of(r)[q + 1] == k);
                }
            }
            let q: int = choose|q: int| 0 <= q < rt.len() && rt[q] == x;
            assert(r[q + 1] == x);
        }
    }
    let p: int = choose|p: int| 0 <= p < r.len() && r[p] == x;
    lemma_find_key_sorted(r, p);
}

/// Files `x` under its name in the strictly sorted `v`.
pub fn insert_sorted<T: Keyed>(v: &mut Vec<T>, x: T)
    ensures
        final(v)@ == sorted_insert(old(v)@, x),
{
    let ghost s = v@;
    let mut i: usize = 0;
    assert(s.skip(0) =~= s);
    assert(s.take(0) + s =~= s);
    while i < v.len()
        invariant
            i <= v.len(),
            v@ == s,
            s == old(v)@,
            forall|j: int|
                0 <= j < i ==> (#[trigger] s[j]).key_of() != x.key_of() && !str_lt(
                    x.key_of(),
                    s[j].key_of(),
                ),
            sorted_insert(s, x) == s.take(i as int) + sorted_insert(s.skip(i as int), x),
        decreases v.len() - i,
    {
        let k = v[i].key();
        let xk = x.key();
        assert(s.skip(i as int)[0] == s[i as int]);
        assert(s.skip(i as int).drop_first() =~= s.skip(i + 1));
        if crate::text::str_eq(k, xk) {
            assert(sorted_insert(s.skip(i as int), x) =~= seq![x] + s.skip(i + 1));
            v[i] = x;
            assert(v@ =~= s.take(i as int) + sorted_insert(s.skip(i as int), x));
            assert(v@ == sorted_insert(s, x));
            return;
        }
        if str_less(xk, k) {
            assert(sorted_insert(s.skip(i as int), x) =~= seq![x] + s.skip(i as int));
            v.insert(i, x);
            assert(v@ =~= s.take(i as int) + sorted_insert(s.skip(i as int), x));
            assert(v@ == sorted_insert(s, x));
            return;
        }
        assert(sorted_insert(s.skip(i as int), x) =~= seq![s[i as int]] + sorted_insert(s.skip(i + 1), x));
        assert(s.take(i + 1) =~= s.take(i as int).push(s[i as int]));
        i = i + 1;
    }
    assert(s.skip(i as int) =~= Seq::<T>::empty());
    assert(s.take(i as int) =~= s);
    v.push(x);
    assert(v@ =~= s + seq![x]);
}

/// The entries of `s` filed one after another, later ones replacing earlier
/// ones of the same name: what collecting them into a `BTreeMap` keeps.
pub open spec fn keyed_from<T: Named>(s: Seq<T>) -> Seq<T>
    decreases s.len(),
{
    if s.len() == 0 {
        seq![]
    } else {
        sorted_insert(keyed_from(s.drop_last()), s.last())
    }
}

/// Filing entries one after another gives a strictly sorted sequence.
pub proof fn lemma_keyed_from_sorted<T: Named>(s: Seq<T>)
    ensures
        strictly_sorted(keys_of(keyed_from(s))),
    decreases s.len(),
{
    if s.len() > 0 {
        lemma_keyed_from_sorted(s.drop_last());
        lemma_sorted_insert(keyed_from(s.drop_last()), s.last());
    } else {
        assert(keys_of(keyed_from(s)) =~= Seq::<Seq<char>>::empty());
    }
}

/// A name-preserving map commutes with looking up a name.
pub proof fn lemma_find_key_map<A: Named, B: Named>(s: Seq<A>, f: spec_fn(A) -> B, k: Seq<char>)
    requires
        forall|a: A| #[trigger] f(a).key_of() == a.key_of(),
    ensures
        find_key(s.map_values(f), k) == find_key(s, k),
    decreases s.len(),
{
    if s.len() > 0 {
        assert(s.map_values(f).drop_first() =~= s.drop_first().map_values(f));
        assert(s.map_values(f)[0] == f(s[0]));
        lemma_find_key_map(s.drop_first(), f, k);
    }
}

/// A name-preserving map keeps the names.
pub proof fn lemma_keys_map<A: Named, B: Named>(s: Seq<A>, f: spec_fn(A) -> B)
    requires
        forall|a: A| #[trigger] f(a).key_of() == a.key_of(),
    ensures
        keys_of(s.map_values(f)) == keys_of(s),
{
    assert(keys_of(s.map_values(f)) =~= keys_of(s)) by {
        assert forall|i: int| 0 <= i < s.len() implies keys_of(s.map_values(f))[i] == keys_of(s)[i] by {
            assert(f(s[i]).key_of() == s[i].key_of());
        }
    }
}

/// A name-preserving map commutes with filing an entry.
pub proof fn lemma_sorted_insert_map<A: Named, B: Named>(s: Seq<A>, x: A, f: spec_fn(A) -> B)
    requires
        forall|a: A| #[trigger] f(a).key_of() == a.key_of(),
    ensures
        sorted_insert(s, x).map_values(f) == sorted_insert(s.map_values(f), f(x)),
    decreases s.len(),
{
    let m = s.map_values(f);
    assert(f(x).key_of() == x.key_of());
    if s.len() == 0 {
        assert(sorted_insert(s, x).map_values(f) =~= seq![f(x)]);
    } else {
        assert(m[0] == f(s[0]));
        assert(f(s[0]).key_of() == s[0].key_of());
        assert(m.drop_first() =~= s.drop_first().map_values(f));
        if s[0].key_of() == x.key_of() {
            assert(sorted_insert(s, x).map_values(f) =~= seq![f(x)] + m.drop_first());
        } else if str_lt(x.key_of(), s[0].key_of()) {
            assert(sorted_insert(s, x).map_values(f) =~= seq![f(x)] + m);
        } else {
            lemma_sorted_insert_map(s.drop_first(), x, f);
            assert(sorted_insert(s, x).map_values(f) =~= seq![m[0]] + sorted_insert(
                m.drop_first(),
                f(x),
            ));
        }
    }
}

/// A name-preserving map commutes with filing entries one after another.
pub proof fn lemma_keyed_from_map<A: Named, B: Named>(s: Seq<A>, f: spec_fn(A) -> B)
    requires
        forall|a: A| #[trigger] f(a).key_of() == a.key_of(),
    ensures
        keyed_from(s).map_values(f) == keyed_from(s.map_values(f)),
    decreases s.len(),
{
    if s.len() > 0 {
        lemma_keyed_from_map(s.drop_last(), f);
        assert(s.map_values(f).drop_last() =~= s.drop_last().map_values(f));
        lemma_sorted_insert_map(keyed_from(s.drop_last()), s.last(), f);
    } else {
        assert(keyed_from(s).map_values(f) =~= keyed_from(s.map_values(f)));
    }
}

/// The entries of `items` filed one after another by name.
pub fn build_keyed<T: Keyed>(items: Vec<T>) -> (r: Vec<T>)
    ensures
        r@ == keyed_from(items@),
{
    let ghost orig = items@;
    let mut rest = items;
    let total: usize = rest.len();
    let mut out: Vec<T> = Vec::new();
    let mut k: usize = 0;
    assert(orig.take(0) =~= Seq::<T>::empty());
    assert(orig.skip(0) =~= orig);
    while rest.len() > 0
        invariant
            k <= orig.len(),
            orig.len() == total,
            rest@ == orig.skip(k as int),
            out@ == keyed_from(orig.take(k as int)),
        decreases rest.len(),
    {
        assert(rest@.len() == orig.len() - k);
        let x = rest.remove(0);
        assert(orig.take(k + 1).drop_last() =~= orig.take(k as int));
        assert(orig.take(k + 1).last() == orig[k as int]);
        insert_sorted(&mut out, x);
        assert(rest@ =~= orig.skip(k + 1));
        k = k + 1;
    }
    assert(orig.take(k as int) =~= orig);
    out
}

/// A name-preserving map commutes with looking up an entry.
pub proof fn lemma_lookup_map<A: Named, B: Named>(s: Seq<A>, f: spec_fn(A) -> B, k: Seq<char>)
    requires
        forall|a: A| #[trigger] f(a).key_of() == a.key_of(),
    ensures
        lookup(s.map_values(f), k) == match lookup(s, k) {
            Some(x) => Some(f(x)),
            None => None,
        },
        has_key(s.map_values(f), k) == has_key(s, k),
{
    lemma_find_key_map(s, f, k);
    lemma_find_key(s, k);
}

/// The names of `a`, in order, that `b` does not hold.
pub open spec fn names_not_in(a: Seq<Seq<char>>, b: Seq<Seq<char>>) -> Seq<Seq<char>>
    decreases a.len(),
{
    if a.len() == 0 {
        seq![]
    } else if b.contains(a.last()) {
        names_not_in(a.drop_last(), b)
    } else {
        names_not_in(a.drop_last(), b).push(a.last())
    }
}

/// Nothing is left of `a` when `b` holds every name of it.
pub proof fn lemma_names_not_in_empty(a: Seq<Seq<char>>, b: Seq<Seq<char>>)
    requires
        forall|i: int| 0 <= i < a.len() ==> b.contains(#[trigger] a[i]),
    ensures
        names_not_in(a, b).len() == 0,
    decreases a.len(),
{
    if a.len() > 0 {
        assert(b.contains(a[a.len() - 1]));
        lemma_names_not_in_empty(a.drop_last(), b);
    }
}

/// The names of `a`, in order, that `b` does not hold.
pub fn strings_not_in(a: &Vec<String>, b: &Vec<String>) -> (r: Vec<String>)
    ensures
        strings_view(r@) == names_not_in(strings_view(a@), strings_view(b@)),
{
    let ghost av = strings_view(a@);
    let ghost bv = strings_view(b@);
    let mut out: Vec<String> = Vec::new();
    let mut i: usize = 0;
    assert(av.take(0) =~= Seq::<Seq<char>>::empty());
    while i < a.len()
        invariant
            i <= a.len(),
            av == strings_view(a@),
            bv == strings_view(b@),
            strings_view(out@) == names_not_in(av.take(i as int), bv),
        decreases a.len() - i,
    {
        proof {
            lemma_has_key(b@, a@[i as int]@);
            lemma_lookup_map(b@, |s: String| s@, a@[i as int]@);
            assert(b@.map_values(|s: String| s@) =~= bv);
            assert(keys_of(b@) =~= bv);
            assert(av.take(i + 1).drop_last() =~= av.take(i as int));
            assert(av.take(i + 1).last() == a@[i as int]@);
        }
        if !contains_key(b, a[i].as_str()) {
            let ghost prev = out@;
            out.push(a[i].clone());
            assert(strings_view(out@) =~= strings_view(prev).push(a@[i as int]@));
        }
        i = i + 1;
    }
    assert(av.take(i as int) =~= av);
    out
}

/// Whether `v` holds a string equal to `s`.
pub fn contains_str(v: &Vec<String>, s: &str) -> (r: bool)
    ensures
        r == strings_view(v@).contains(s@),
{
    proof {
        lemma_has_key(v@, s@);
        assert(keys_of(v@) =~= strings_view(v@));
    }
    contains_key(v, s)
}

/// The names of the entries of `v`, in order.
pub fn names_of<T: Keyed>(v: &Vec<T>) -> (r: Vec<String>)
    ensures
        strings_view(r@) == keys_of(v@),
{
    let mut out: Vec<String> = Vec::new();
    let mut i: usize = 0;
    while i < v.len()
        invariant
            i <= v.len(),
            strings_view(out@) == keys_of(v@.take(i as int)),
        decreases v.len() - i,
    {
        let ghost prev = out@;
        out.push(v[i].key().to_string());
        i = i + 1;
        assert(keys_of(v@.take(i as int)) =~= keys_of(v@.take((i - 1) as int)).push(v@[i - 1].key_of()));
        assert(strings_view(out@) =~= strings_view(prev).push(v@[i - 1].key_of()));
    }
    assert(v@.take(i as int) =~= v@);
    out
}

/// Every name of `a` is one of `a`'s, so nothing of it is left.
pub proof fn lemma_names_not_in_self(a: Seq<Seq<char>>)
    ensures
        names_not_in(a, a).len() == 0,
{
    assert forall|i: int| 0 <= i < a.len() implies a.contains(#[trigger] a[i]) by {}
    lemma_names_not_in_empty(a, a);
}

} // verus!
