//! Ordered key/value lists whose keys are unique up to letter case.
//!
//! Request headers, route parameters, query parameters, scratch state and
//! response headers are all kept in a `Pairs`. Its model is the sequence of
//! `(key, value)` texts in insertion order. Keys keep the spelling they were
//! set with; two keys are the same key when their lowercase forms agree.

use vstd::prelude::*;
use crate::text::{lowercase, same_key, to_lowercase};

verus! {

/// No two entries of `s` have the same key.
pub open spec fn unique_keys(s: Seq<(Seq<char>, Seq<char>)>) -> bool {
    forall|i: int, j: int| 0 <= i < j < s.len() ==> !same_key(#[trigger] s[i].0, #[trigger] s[j].0)
}

/// The value of the first entry of `s` whose key has the lowercase form
/// `folded`.
pub open spec fn lookup_folded(s: Seq<(Seq<char>, Seq<char>)>, folded: Seq<char>) -> Option<
    Seq<char>,
>
    decreases s.len(),
{
    if s.len() == 0 {
        None
    } else {
        match lookup_folded(s.drop_last(), folded) {
            Some(v) => Some(v),
            None => if lowercase(s.last().0) == folded {
                Some(s.last().1)
            } else {
                None
            },
        }
    }
}

/// `s` without the entries whose key has the lowercase form `folded`.
pub open spec fn drop_folded(s: Seq<(Seq<char>, Seq<char>)>, folded: Seq<char>) -> Seq<
    (Seq<char>, Seq<char>),
>
    decreases s.len(),
{
    if s.len() == 0 {
        s
    } else if lowercase(s.last().0) == folded {
        drop_folded(s.drop_last(), folded)
    } else {
        drop_folded(s.drop_last(), folded).push(s.last())
    }
}

/// The value that `s` holds for `key`, whatever the letter case of either.
pub open spec fn lookup(s: Seq<(Seq<char>, Seq<char>)>, key: Seq<char>) -> Option<Seq<char>> {
    lookup_folded(s, lowercase(key))
}

/// `s` without any entry for `key`.
pub open spec fn remove(s: Seq<(Seq<char>, Seq<char>)>, key: Seq<char>) -> Seq<
    (Seq<char>, Seq<char>),
> {
    drop_folded(s, lowercase(key))
}

/// `s` after `key` is set to `value`: an earlier entry for `key` goes, and
/// `(key, value)` is appended.
pub open spec fn put(s: Seq<(Seq<char>, Seq<char>)>, key: Seq<char>, value: Seq<char>) -> Seq<
    (Seq<char>, Seq<char>),
> {
    remove(s, key).push((key, value))
}

/// The position of the first of `keys` that equals `wanted`.
pub fn position(keys: &Vec<String>, wanted: &String) -> (r: Option<usize>)
    ensures
        match r {
            Some(i) => i < keys@.len() && keys@[i as int]@ == wanted@ && forall|j: int|
                0 <= j < i ==> keys@[j]@ != wanted@,
            None => forall|j: int| 0 <= j < keys@.len() ==> keys@[j]@ != wanted@,
        },
{
    let n: usize = keys.len();
    let mut i: usize = 0;
    while i < n
        invariant
            n == keys@.len(),
            i <= n,
            forall|j: int| 0 <= j < i ==> keys@[j]@ != wanted@,
        decreases n - i,
    {
        if keys[i] == *wanted {
            return Some(i);
        }
        i += 1;
    }
    None
}

/// Of the first `n` of `entries`, those at whose position `keys` does not
/// hold `wanted`, and the keys at those positions.
pub open spec fn others(
    entries: Seq<(Seq<char>, Seq<char>)>,
    keys: Seq<Seq<char>>,
    wanted: Seq<char>,
    n: nat,
) -> (Seq<(Seq<char>, Seq<char>)>, Seq<Seq<char>>)
    decreases n,
{
    if n == 0 {
        (Seq::empty(), Seq::empty())
    } else {
        let (kept, kept_keys) = others(entries, keys, wanted, (n - 1) as nat);
        if keys[n - 1] == wanted {
            (kept, kept_keys)
        } else {
            (kept.push(entries[n - 1]), kept_keys.push(keys[n - 1]))
        }
    }
}

/// The entries at whose position `keys` does not hold `wanted`, and the
/// keys at those positions.
pub fn keep_others(entries: &Vec<(String, String)>, keys: &Vec<String>, wanted: &String) -> (r: (
    Vec<(String, String)>,
    Vec<String>,
))
    requires
        keys@.len() == entries@.len(),
    ensures
        (r.0.deep_view(), r.1.deep_view()) == others(
            entries.deep_view(),
            keys.deep_view(),
            wanted@,
            entries@.len(),
        ),
{
    let n: usize = entries.len();
    let mut kept: Vec<(String, String)> = Vec::new();
    let mut kept_keys: Vec<String> = Vec::new();
    let mut i: usize = 0;
    assert(kept.deep_view() == Seq::<(Seq<char>, Seq<char>)>::empty());
    assert(kept_keys.deep_view() == Seq::<Seq<char>>::empty());
    while i < n
        invariant
            n == entries@.len(),
            n == keys@.len(),
            i <= n,
            (kept.deep_view(), kept_keys.deep_view()) == others(
                entries.deep_view(),
                keys.deep_view(),
                wanted@,
                i as nat,
            ),
        decreases n - i,
    {
        let ghost before = kept.deep_view();
        let ghost before_keys = kept_keys.deep_view();
        assert(keys.deep_view()[i as int] == keys@[i as int]@);
        if keys[i] != *wanted {
            let key = entries[i].0.clone();
            let value = entries[i].1.clone();
            let low = keys[i].clone();
            kept.push((key, value));
            kept_keys.push(low);
            assert(kept.deep_view() == before.push(entries.deep_view()[i as int]));
            assert(kept_keys.deep_view() == before_keys.push(keys.deep_view()[i as int]));
        }
        i += 1;
    }
    (kept, kept_keys)
}

/// Whether `keys` holds the lowercase form of the key of each of `entries`,
/// position by position, and no text twice.
pub open spec fn folded_keys(entries: Seq<(Seq<char>, Seq<char>)>, keys: Seq<Seq<char>>) -> bool {
    &&& keys.len() == entries.len()
    &&& forall|i: int| 0 <= i < entries.len() ==> #[trigger] keys[i] == lowercase(entries[i].0)
    &&& forall|i: int, j: int| 0 <= i < j < keys.len() ==> #[trigger] keys[i] != #[trigger] keys[j]
}

/// An ordered list of `(key, value)` entries with unique keys.
#[derive(Debug)]
pub struct Pairs {
    entries: Vec<(String, String)>,
    /// The lowercase form of each entry's key, entry by entry.
    folded: Vec<String>,
}

impl View for Pairs {
    type V = Seq<(Seq<char>, Seq<char>)>;

    closed spec fn view(&self) -> Seq<(Seq<char>, Seq<char>)> {
        self.entries.deep_view()
    }
}

impl Pairs {
    #[verifier::type_invariant]
    spec fn well_formed(&self) -> bool {
        folded_keys(self.entries.deep_view(), self.folded.deep_view())
    }

    /// The empty list.
    pub fn new() -> (r: Pairs)
        ensures
            r@ == Seq::<(Seq<char>, Seq<char>)>::empty(),
    {
        let r = Pairs { entries: Vec::new(), folded: Vec::new() };
        assert(r@ == Seq::<(Seq<char>, Seq<char>)>::empty());
        r
    }

    /// The number of entries.
    pub fn len(&self) -> (n: usize)
        ensures
            n == self@.len(),
    {
        self.entries.len()
    }

    /// The entry at position `i`, if there is one.
    pub fn entry(&self, i: usize) -> (r: Option<(&str, &str)>)
        ensures
            match r {
                Some(e) => i < self@.len() && (e.0@, e.1@) == self@[i as int],
                None => i >= self@.len(),
            },
    {
        if i < self.entries.len() {
            Some((self.entries[i].0.as_str(), self.entries[i].1.as_str()))
        } else {
            None
        }
    }

    /// The keys of distinct entries are distinct keys.
    pub fn keys_are_unique(&self)
        ensures
            unique_keys(self@),
    {
        proof {
            use_type_invariant(self);
            assert forall|i: int, j: int| 0 <= i < j < self@.len() implies !same_key(
                #[trigger] self@[i].0,
                #[trigger] self@[j].0,
            ) by {
                assert(self.folded.deep_view()[i] == lowercase(self@[i].0));
                assert(self.folded.deep_view()[j] == lowercase(self@[j].0));
            }
        }
    }
}

impl Clone for Pairs {
    /// A list with the same entries.
    fn clone(&self) -> (r: Pairs)
        ensures
            r@ == self@,
    {
        proof {
            use_type_invariant(self);
        }
        let n: usize = self.entries.len();
        let mut entries: Vec<(String, String)> = Vec::new();
        let mut folded: Vec<String> = Vec::new();
        let mut i: usize = 0;
        while i < n
            invariant
                n == self.entries@.len(),
                n == self.folded@.len(),
                i <= n,
                entries@.len() == i,
                folded@.len() == i,
                forall|a: int| 0 <= a < i ==> (#[trigger] entries@[a]).deep_view() == self@[a],
                forall|a: int| 0 <= a < i ==> (#[trigger] folded@[a])@ == self.folded@[a]@,
            decreases n - i,
        {
            let key = self.entries[i].0.clone();
            let value = self.entries[i].1.clone();
            let low = self.folded[i].clone();
            entries.push((key, value));
            folded.push(low);
            i += 1;
        }
        assert(entries.deep_view() == self@);
        assert(folded.deep_view() == self.folded.deep_view());
        Pairs { entries, folded }
    }
}

/// The value that `obj` holds for `key`, whatever the letter case of either.
pub fn get_vec(obj: &Pairs, key: &str) -> (r: Option<String>)
    ensures
        match r {
            Some(v) => lookup(obj@, key@) == Some(v@),
            None => lookup(obj@, key@) is None,
        },
{
    proof {
        use_type_invariant(obj);
    }
    let wanted = to_lowercase(key);
    match position(&obj.folded, &wanted) {
        Some(i) => {
            proof {
                assert forall|j: int| 0 <= j < obj@.len() implies (lowercase(
                    #[trigger] obj@[j].0,
                ) == wanted@ <==> j == i) by {
                    assert(obj.folded.deep_view()[i as int] == obj.folded@[i as int]@);
                    assert(obj.folded.deep_view()[j] == obj.folded@[j]@);
                    assert(obj.folded.deep_view()[j] == lowercase(obj@[j].0));
                }
                lemma_lookup_found(obj@, wanted@, i as int);
            }
            Some(obj.entries[i].1.clone())
        },
        None => {
            proof {
                assert forall|j: int| 0 <= j < obj@.len() implies lowercase(
                    #[trigger] obj@[j].0,
                ) != wanted@ by {
                    assert(obj.folded.deep_view()[j] == obj.folded@[j]@);
                    assert(obj.folded.deep_view()[j] == lowercase(obj@[j].0));
                }
                lemma_lookup_missing(obj@, wanted@);
            }
            None
        },
    }
}

/// `obj` after `key` is set to `value`: an earlier entry for `key`, in any
/// letter case, goes, and `(key, value)` is appended.
pub fn set_vec(obj: &Pairs, key: String, value: String) -> (r: Pairs)
    ensures
        r@ == put(obj@, key@, value@),
        unique_keys(r@),
{
    proof {
        use_type_invariant(obj);
        lemma_others(obj@, obj.folded.deep_view(), lowercase(key@), obj@.len());
        assert(obj@.take(obj@.len() as int) == obj@);
    }
    let wanted = to_lowercase(key.as_str());
    let (mut entries, mut folded) = keep_others(&obj.entries, &obj.folded, &wanted);
    let ghost kept = entries.deep_view();
    let ghost kept_keys = folded.deep_view();
    entries.push((key, value));
    folded.push(wanted);
    assert(entries.deep_view() == kept.push((key@, value@)));
    assert(folded.deep_view() == kept_keys.push(lowercase(key@)));
    let r = Pairs { entries, folded };
    r.keys_are_unique();
    r
}

/// `obj` without the entry for `key`, in any letter case.
pub fn del_vec(obj: &Pairs, key: &str) -> (r: Pairs)
    ensures
        r@ == remove(obj@, key@),
        unique_keys(r@),
{
    proof {
        use_type_invariant(obj);
        lemma_others(obj@, obj.folded.deep_view(), lowercase(key@), obj@.len());
        assert(obj@.take(obj@.len() as int) == obj@);
    }
    let wanted = to_lowercase(key);
    let (entries, folded) = keep_others(&obj.entries, &obj.folded, &wanted);
    let r = Pairs { entries, folded };
    r.keys_are_unique();
    r
}

/// Where `keys` holds the lowercase forms of the keys of `entries`, keeping
/// the others of the first `n` entries drops the entries whose key folds to
/// `wanted`, and the keys kept are again the lowercase forms of the keys of
/// the entries kept.
pub proof fn lemma_others(
    entries: Seq<(Seq<char>, Seq<char>)>,
    keys: Seq<Seq<char>>,
    wanted: Seq<char>,
    n: nat,
)
    requires
        n <= entries.len(),
        folded_keys(entries, keys),
    ensures
        others(entries, keys, wanted, n).0 == drop_folded(entries.take(n as int), wanted),
        folded_keys(others(entries, keys, wanted, n).0, others(entries, keys, wanted, n).1),
        forall|i: int|
            0 <= i < others(entries, keys, wanted, n).1.len() ==> #[trigger] others(
                entries,
                keys,
                wanted,
                n,
            ).1[i] != wanted,
        forall|i: int|
            0 <= i < others(entries, keys, wanted, n).1.len() ==> exists|j: int|
                0 <= j < n && #[trigger] keys[j] == (#[trigger] others(entries, keys, wanted, n).1[i]),
    decreases n,
{
    if n > 0 {
        let m = (n - 1) as nat;
        lemma_others(entries, keys, wanted, m);
        let (kept, kept_keys) = others(entries, keys, wanted, m);
        let (more, more_keys) = others(entries, keys, wanted, n);
        assert(entries.take(n as int).drop_last() == entries.take(m as int));
        assert(entries.take(n as int).last() == entries[n - 1]);
        assert(keys[n - 1] == lowercase(entries[n - 1].0));
        if keys[n - 1] != wanted {
            assert forall|i: int| 0 <= i < more_keys.len() implies exists|j: int|
                0 <= j < n && #[trigger] keys[j] == #[trigger] more_keys[i] by {
                if i < kept_keys.len() {
                    assert(more_keys[i] == kept_keys[i]);
                    let j = choose|j: int| 0 <= j < m && #[trigger] keys[j] == kept_keys[i];
                    assert(0 <= j < n && keys[j] == more_keys[i]);
                } else {
                    assert(keys[n - 1] == more_keys[i]);
                }
            }
            assert forall|i: int, j: int| 0 <= i < j < more_keys.len() implies #[trigger] more_keys[i]
                != #[trigger] more_keys[j] by {
                if j < kept_keys.len() {
                    assert(more_keys[i] == kept_keys[i] && more_keys[j] == kept_keys[j]);
                } else {
                    assert(more_keys[i] == kept_keys[i]);
                    let k = choose|k: int| 0 <= k < m && #[trigger] keys[k] == kept_keys[i];
                    assert(keys[k] != keys[n - 1]);
                }
            }
            assert forall|i: int| 0 <= i < more.len() implies #[trigger] more_keys[i] == lowercase(
                more[i].0,
            ) by {
                if i < kept.len() {
                    assert(more_keys[i] == kept_keys[i] && more[i] == kept[i]);
                }
            }
        } else {
            assert forall|i: int| 0 <= i < more_keys.len() implies exists|j: int|
                0 <= j < n && #[trigger] keys[j] == #[trigger] more_keys[i] by {
                let j = choose|j: int| 0 <= j < m && #[trigger] keys[j] == kept_keys[i];
                assert(0 <= j < n && keys[j] == more_keys[i]);
            }
        }
    }
}

/// Where position `i` is the only one whose key folds to `folded`, looking
/// `folded` up gives the value at `i`.
pub proof fn lemma_lookup_found(s: Seq<(Seq<char>, Seq<char>)>, folded: Seq<char>, i: int)
    requires
        0 <= i < s.len(),
        lowercase(s[i].0) == folded,
        forall|j: int| 0 <= j < i ==> lowercase(#[trigger] s[j].0) != folded,
    ensures
        lookup_folded(s, folded) == Some(s[i].1),
    decreases s.len(),
{
    let t = s.drop_last();
    if i < s.len() - 1 {
        assert forall|j: int| 0 <= j < i implies lowercase(#[trigger] t[j].0) != folded by {
            assert(t[j] == s[j]);
        }
        lemma_lookup_found(t, folded, i);
    } else {
        assert forall|j: int| 0 <= j < t.len() implies lowercase(#[trigger] t[j].0) != folded by {
            assert(t[j] == s[j]);
        }
        lemma_lookup_missing(t, folded);
    }
}

/// Where no key folds to `folded`, looking `folded` up gives nothing.
pub proof fn lemma_lookup_missing(s: Seq<(Seq<char>, Seq<char>)>, folded: Seq<char>)
    requires
        forall|j: int| 0 <= j < s.len() ==> lowercase(#[trigger] s[j].0) != folded,
    ensures
        lookup_folded(s, folded) is None,
    decreases s.len(),
{
    if s.len() > 0 {
        let t = s.drop_last();
        assert forall|j: int| 0 <= j < t.len() implies lowercase(#[trigger] t[j].0) != folded by {
            assert(t[j] == s[j]);
        }
        lemma_lookup_missing(t, folded);
        assert(s.last() == s[s.len() - 1]);
    }
}

/// Every entry that stays when the keys folding to `folded` are dropped is
/// an entry of `s`, and its key does not fold to `folded`.
pub proof fn lemma_drop_members(s: Seq<(Seq<char>, Seq<char>)>, folded: Seq<char>)
    ensures
        forall|i: int|
            0 <= i < drop_folded(s, folded).len() ==> lowercase(
                (#[trigger] drop_folded(s, folded)[i]).0,
            ) != folded && s.contains(drop_folded(s, folded)[i]),
    decreases s.len(),
{
    if s.len() > 0 {
        let t = s.drop_last();
        lemma_drop_members(t, folded);
        let d = drop_folded(s, folded);
        assert forall|i: int| 0 <= i < d.len() implies lowercase((#[trigger] d[i]).0) != folded
            && s.contains(d[i]) by {
            if i < drop_folded(t, folded).len() {
                let e = drop_folded(t, folded)[i];
                assert(t.contains(e));
                let j = choose|j: int| 0 <= j < t.len() && t[j] == e;
                assert(s[j] == e);
            } else {
                assert(d[i] == s[s.len() - 1]);
            }
        }
    }
}

/// Looking `other` up after the keys folding to `folded` were dropped.
pub proof fn lemma_drop_lookup(s: Seq<(Seq<char>, Seq<char>)>, folded: Seq<char>, other: Seq<char>)
    ensures
        lookup_folded(drop_folded(s, folded), other) == if folded == other {
            None
        } else {
            lookup_folded(s, other)
        },
    decreases s.len(),
{
    if s.len() > 0 {
        let t = s.drop_last();
        lemma_drop_lookup(t, folded, other);
        if lowercase(s.last().0) != folded {
            let d = drop_folded(t, folded).push(s.last());
            assert(d.drop_last() == drop_folded(t, folded));
            assert(d.last() == s.last());
        }
    }
}

/// Lookups are case-insensitive: keys that differ in letter case only find
/// the same value, and setting or deleting either has the same effect on
/// which entries stay.
pub proof fn law_keys_ignore_case(s: Seq<(Seq<char>, Seq<char>)>, a: Seq<char>, b: Seq<char>)
    requires
        same_key(a, b),
    ensures
        lookup(s, a) == lookup(s, b),
        remove(s, a) == remove(s, b),
{
}

/// After `key` is set to `value`, a lookup of the same key in any letter
/// case finds `value`, and a lookup of any other key finds what it found
/// before.
pub proof fn law_set_then_get(
    s: Seq<(Seq<char>, Seq<char>)>,
    key: Seq<char>,
    value: Seq<char>,
    other: Seq<char>,
)
    ensures
        lookup(put(s, key, value), other) == if same_key(key, other) {
            Some(value)
        } else {
            lookup(s, other)
        },
{
    lemma_drop_lookup(s, lowercase(key), lowercase(other));
    let r = remove(s, key);
    let p = r.push((key, value));
    assert(p.drop_last() == r);
    assert(p.last() == (key, value));
}

/// After `key` is deleted, a lookup of the same key in any letter case finds
/// nothing, and a lookup of any other key finds what it found before.
pub proof fn law_del_then_get(s: Seq<(Seq<char>, Seq<char>)>, key: Seq<char>, other: Seq<char>)
    ensures
        lookup(remove(s, key), other) == if same_key(key, other) {
            None
        } else {
            lookup(s, other)
        },
{
    lemma_drop_lookup(s, lowercase(key), lowercase(other));
}

/// Setting a key removes the entry that it had before appending the new
/// one: of the result, the last entry is `(key, value)` and no other entry
/// has the same key.
pub proof fn law_set_replaces(s: Seq<(Seq<char>, Seq<char>)>, key: Seq<char>, value: Seq<char>)
    ensures
        put(s, key, value).len() >= 1,
        put(s, key, value).last() == (key, value),
        forall|i: int|
            0 <= i < put(s, key, value).len() - 1 ==> !same_key(
                (#[trigger] put(s, key, value)[i]).0,
                key,
            ),
{
    lemma_drop_members(s, lowercase(key));
    let r = remove(s, key);
    let p = put(s, key, value);
    assert forall|i: int| 0 <= i < p.len() - 1 implies !same_key((#[trigger] p[i]).0, key) by {
        assert(p[i] == r[i]);
    }
}

/// Deleting a key leaves no entry with that key.
pub proof fn law_del_removes(s: Seq<(Seq<char>, Seq<char>)>, key: Seq<char>)
    ensures
        forall|i: int|
            0 <= i < remove(s, key).len() ==> !same_key((#[trigger] remove(s, key)[i]).0, key),
{
    lemma_drop_members(s, lowercase(key));
}

/// Deleting a key keeps the keys unique.
pub proof fn law_del_keeps_unique(s: Seq<(Seq<char>, Seq<char>)>, key: Seq<char>)
    requires
        unique_keys(s),
    ensures
        unique_keys(remove(s, key)),
    decreases s.len(),
{
    if s.len() > 0 {
        let t = s.drop_last();
        assert(unique_keys(t)) by {
            assert forall|i: int, j: int| 0 <= i < j < t.len() implies !same_key(
                #[trigger] t[i].0,
                #[trigger] t[j].0,
            ) by {
                assert(t[i] == s[i] && t[j] == s[j]);
            }
        }
        law_del_keeps_unique(t, key);
        lemma_drop_members(t, lowercase(key));
        let d = remove(s, key);
        let dt = remove(t, key);
        if lowercase(s.last().0) != lowercase(key) {
            assert forall|i: int, j: int| 0 <= i < j < d.len() implies !same_key(
                #[trigger] d[i].0,
                #[trigger] d[j].0,
            ) by {
                if j < dt.len() {
                    assert(d[i] == dt[i] && d[j] == dt[j]);
                } else {
                    assert(d[i] == dt[i]);
                    assert(t.contains(dt[i]));
                    let k = choose|k: int| 0 <= k < t.len() && t[k] == dt[i];
                    assert(s[k] == dt[i]);
                    assert(d[j] == s[s.len() - 1]);
                }
            }
        }
    }
}

/// Setting a key keeps the keys unique: no two entries with the same key
/// ever stand side by side.
pub proof fn law_set_keeps_unique(s: Seq<(Seq<char>, Seq<char>)>, key: Seq<char>, value: Seq<char>)
    requires
        unique_keys(s),
    ensures
        unique_keys(put(s, key, value)),
{
    law_del_keeps_unique(s, key);
    law_set_replaces(s, key, value);
    let r = remove(s, key);
    let p = put(s, key, value);
    assert forall|i: int, j: int| 0 <= i < j < p.len() implies !same_key(
        #[trigger] p[i].0,
        #[trigger] p[j].0,
    ) by {
        if j < r.len() {
            assert(p[i] == r[i] && p[j] == r[j]);
        } else {
            assert(p[j] == (key, value));
        }
    }
}

} // verus!
