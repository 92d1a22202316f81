//! Sequences of records ordered by a strictly increasing integer key:
//! the storage shape of every owner table. A table holds at most one
//! record per key, and its order is the key order, so iterating a table
//! is iterating its keys in ascending order.

use vstd::prelude::*;

verus! {

/// A record with an integer key.
pub trait Keyed: Sized {
    spec fn key(self) -> int;

    fn key_of(&self) -> (r: u128)
        ensures
            r == self.key(),
    ;
}

/// Keys strictly increase along the sequence.
pub open spec fn sorted_by_key<T: Keyed>(s: Seq<T>) -> bool {
    forall|i: int, j: int| 0 <= i < j < s.len() ==> #[trigger] s[i].key() < #[trigger] s[j].key()
}

/// No key occurs twice.
pub open spec fn unique_keys<T: Keyed>(s: Seq<T>) -> bool {
    forall|i: int, j: int|
        0 <= i < s.len() && 0 <= j < s.len() && i != j ==> #[trigger] s[i].key() != #[trigger] s[j].key()
}

pub open spec fn has_key<T: Keyed>(s: Seq<T>, k: int) -> bool {
    exists|i: int| 0 <= i < s.len() && #[trigger] s[i].key() == k
}

pub open spec fn key_index<T: Keyed>(s: Seq<T>, k: int) -> int {
    choose|i: int| 0 <= i < s.len() && #[trigger] s[i].key() == k
}

/// The record stored under `k`, if any.
pub open spec fn lookup<T: Keyed>(s: Seq<T>, k: int) -> Option<T> {
    if has_key(s, k) {
        Some(s[key_index(s, k)])
    } else {
        None
    }
}

pub proof fn lemma_sorted_unique<T: Keyed>(s: Seq<T>)
    requires
        sorted_by_key(s),
    ensures
        unique_keys(s),
{
    assert forall|i: int, j: int|
        0 <= i < s.len() && 0 <= j < s.len() && i != j implies #[trigger] s[i].key() != #[trigger] s[j].key() by {
        if i < j {
            assert(s[i].key() < s[j].key());
        } else {
            assert(s[j].key() < s[i].key());
        }
    }
}

/// In a table with unique keys, the record at index `i` is the one
/// `lookup` finds under its key.
pub proof fn lemma_key_index<T: Keyed>(s: Seq<T>, i: int)
    requires
        unique_keys(s),
        0 <= i < s.len(),
    ensures
        has_key(s, s[i].key()),
        key_index(s, s[i].key()) == i,
        lookup(s, s[i].key()) == Some(s[i]),
{
    let k = s[i].key();
    assert(s[i].key() == k);
    assert(has_key(s, k));
    let j = key_index(s, k);
    assert(s[j].key() == k);
}

/// Replacing a record by one with the same key keeps the order and
/// changes `lookup` at that key only.
pub proof fn lemma_update_same_key<T: Keyed>(s: Seq<T>, i: int, x: T)
    requires
        sorted_by_key(s),
        0 <= i < s.len(),
        x.key() == s[i].key(),
    ensures
        sorted_by_key(s.update(i, x)),
        forall|k: int| #[trigger] lookup(s.update(i, x), k) == if k == x.key() {
            Some(x)
        } else {
            lookup(s, k)
        },
{
    let t = s.update(i, x);
    assert forall|a: int, b: int| 0 <= a < b < t.len() implies #[trigger] t[a].key() < #[trigger] t[b].key() by {
        assert(s[a].key() < s[b].key());
    }
    lemma_sorted_unique(s);
    lemma_sorted_unique(t);
    assert forall|k: int| #[trigger] lookup(t, k) == if k == x.key() {
        Some(x)
    } else {
        lookup(s, k)
    } by {
        if k == x.key() {
            lemma_key_index(t, i);
        } else {
            if has_key(s, k) {
                let j = key_index(s, k);
                assert(j != i);
                assert(t[j] == s[j]);
                lemma_key_index(t, j);
            } else {
                if has_key(t, k) {
                    let j = key_index(t, k);
                    assert(j != i);
                    assert(s[j].key() == k);
                }
            }
        }
    }
}

/// Linear search for the index of the record stored under `k`.
pub fn find_key<T: Keyed>(v: &Vec<T>, k: u128) -> (r: Option<usize>)
    requires
        unique_keys(v@),
    ensures
        r is None <==> !has_key(v@, k as int),
        r matches Some(i) ==> i < v@.len() && v@[i as int].key() == k && key_index(v@, k as int) == i,
        r matches Some(i) ==> lookup(v@, k as int) == Some(v@[i as int]),
        r is None ==> lookup(v@, k as int) is None,
{
    let mut i: usize = 0;
    while i < v.len()
        invariant
            unique_keys(v@),
            i <= v@.len(),
            forall|j: int| 0 <= j < i ==> #[trigger] v@[j].key() != k,
        decreases v@.len() - i,
    {
        if v[i].key_of() == k {
            proof {
                lemma_key_index(v@, i as int);
            }
            return Some(i);
        }
        i = i + 1;
    }
    None
}

pub open spec fn is_split<T: Keyed>(s: Seq<T>, k: int, i: int) -> bool {
    0 <= i <= s.len() && (forall|j: int| 0 <= j < i ==> #[trigger] s[j].key() < k) && (forall|j: int|
        i <= j < s.len() ==> #[trigger] s[j].key() >= k)
}

/// The index at which records with keys below `k` end.
pub open spec fn split_index<T: Keyed>(s: Seq<T>, k: int) -> int {
    choose|i: int| #[trigger] is_split(s, k, i)
}

pub proof fn lemma_split_unique<T: Keyed>(s: Seq<T>, k: int, i: int)
    requires
        is_split(s, k, i),
    ensures
        split_index(s, k) == i,
{
    assert(is_split(s, k, i));
    let c = split_index(s, k);
    assert(is_split(s, k, c));
    if c < i {
        assert(s[c].key() < k);
    } else if i < c {
        assert(s[i].key() < k);
    }
}

/// `s` with the record under `k` removed and, when `x` is given, `x`
/// placed at its key's position.
pub open spec fn replace_at_key<T: Keyed>(s: Seq<T>, k: int, x: Option<T>) -> Seq<T> {
    let i = split_index(s, k);
    let rest = if i < s.len() && s[i].key() == k {
        s.skip(i + 1)
    } else {
        s.skip(i)
    };
    match x {
        Some(r) => s.take(i).push(r) + rest,
        None => s.take(i) + rest,
    }
}

/// Finds the split position for `k` in a sorted table.
pub fn find_split<T: Keyed>(v: &Vec<T>, k: u128) -> (r: usize)
    requires
        sorted_by_key(v@),
    ensures
        r as int == split_index(v@, k as int),
        r <= v@.len(),
{
    let mut i: usize = 0;
    while i < v.len() && v[i].key_of() < k
        invariant
            sorted_by_key(v@),
            i <= v@.len(),
            forall|j: int| 0 <= j < i ==> #[trigger] v@[j].key() < k,
        decreases v@.len() - i,
    {
        i = i + 1;
    }
    proof {
        assert forall|j: int| i <= j < v@.len() implies #[trigger] v@[j].key() >= k by {
            if j > i {
                assert(v@[i as int].key() < v@[j].key());
            }
        }
        lemma_split_unique(v@, k as int, i as int);
    }
    i
}

/// Stores `x` under `k` (or removes the record under `k` when `x` is
/// `None`), keeping the table in key order.
pub fn replace_keyed<T: Keyed>(v: &mut Vec<T>, k: u128, x: Option<T>)
    requires
        sorted_by_key(old(v)@),
        x matches Some(r) ==> r.key() == k,
    ensures
        final(v)@ == replace_at_key(old(v)@, k as int, x),
{
    let ghost s = v@;
    let pos = find_split(v, k);
    proof {
        lemma_split_exists(s, k as int);
    }
    let hit = pos < v.len() && v[pos].key_of() == k;
    match x {
        None => {
            if hit {
                v.remove(pos);
            }
        },
        Some(r) => {
            if hit {
                v.set(pos, r);
            } else {
                v.insert(pos, r);
            }
        },
    }
    proof {
        assert(v@ =~= replace_at_key(s, k as int, x));
    }
}

/// A property every record of `s`, and the replacement, has is had by every
/// record of the result.
pub proof fn lemma_replace_keeps<T: Keyed>(s: Seq<T>, k: int, x: Option<T>, p: spec_fn(T) -> bool)
    requires
        forall|i: int| 0 <= i < s.len() ==> #[trigger] p(s[i]),
        x matches Some(r) ==> p(r),
        0 <= split_index(s, k) <= s.len(),
    ensures
        forall|j: int|
            0 <= j < replace_at_key(s, k, x).len() ==> #[trigger] p(replace_at_key(s, k, x)[j]),
{
    let i = split_index(s, k);
    let t = replace_at_key(s, k, x);
    let rest = if i < s.len() && s[i].key() == k {
        s.skip(i + 1)
    } else {
        s.skip(i)
    };
    assert forall|j: int| 0 <= j < t.len() implies #[trigger] p(t[j]) by {
        match x {
            Some(r) => {
                if j < i {
                    assert(t[j] == s[j]);
                } else if j == i {
                    assert(t[j] == r);
                } else {
                    assert(t[j] == rest[j - i - 1]);
                }
            },
            None => {
                if j < i {
                    assert(t[j] == s[j]);
                } else {
                    assert(t[j] == rest[j - i]);
                }
            },
        }
    }
}

/// Replacing or removing the record under `k` keeps the order and changes
/// `lookup` at `k` only.
pub proof fn lemma_replace_at_key<T: Keyed>(s: Seq<T>, k: int, x: Option<T>)
    requires
        sorted_by_key(s),
        x matches Some(r) ==> r.key() == k,
    ensures
        sorted_by_key(replace_at_key(s, k, x)),
        forall|q: int| #[trigger] lookup(replace_at_key(s, k, x), q) == if q == k {
            x
        } else {
            lookup(s, q)
        },
{
    let i = split_index(s, k);
    lemma_split_exists(s, k);
    assert(is_split(s, k, i));
    let hit = i < s.len() && s[i].key() == k;
    let rest = if hit {
        s.skip(i + 1)
    } else {
        s.skip(i)
    };
    let front = s.take(i);
    let t = replace_at_key(s, k, x);
    assert forall|j: int| 0 <= j < rest.len() implies #[trigger] rest[j].key() > k by {
        if hit {
            assert(rest[j] == s[i + 1 + j]);
            assert(s[i].key() < s[i + 1 + j].key());
        } else {
            assert(rest[j] == s[i + j]);
            assert(s[i + j].key() >= k);
        }
    }
    let mid: Seq<T> = match x {
        Some(r) => seq![r],
        None => seq![],
    };
    assert(t =~= front + mid + rest) by {
        match x {
            Some(r) => {
                assert(front.push(r) =~= front + seq![r]);
            },
            None => {
                assert(front + mid =~= front);
            },
        }
    }
    let off = front.len() + mid.len();
    assert forall|a: int, b: int| 0 <= a < b < t.len() implies #[trigger] t[a].key() < #[trigger] t[b].key() by {
        if b < front.len() {
            assert(t[a] == s[a] && t[b] == s[b]);
        } else if b < off {
            assert(t[a] == s[a]);
        } else {
            let bb = b - off;
            assert(t[b] == rest[bb]);
            if a < front.len() {
                assert(t[a] == s[a]);
                assert(s[a].key() < k);
            } else if a < off {
            } else {
                let aa = a - off;
                assert(t[a] == rest[aa]);
                if hit {
                    assert(rest[aa] == s[i + 1 + aa]);
                    assert(rest[bb] == s[i + 1 + bb]);
                } else {
                    assert(rest[aa] == s[i + aa]);
                    assert(rest[bb] == s[i + bb]);
                }
            }
        }
    }
    lemma_sorted_unique(s);
    lemma_sorted_unique(t);
    assert forall|q: int| #[trigger] lookup(t, q) == if q == k {
        x
    } else {
        lookup(s, q)
    } by {
        if q == k {
            match x {
                Some(r) => {
                    assert(t[front.len() as int] == r);
                    lemma_key_index(t, front.len() as int);
                },
                None => {
                    if has_key(t, q) {
                        let j = key_index(t, q);
                        if j < front.len() {
                            assert(t[j] == s[j]);
                        } else {
                            assert(t[j] == rest[j - front.len()]);
                        }
                    }
                },
            }
        } else {
            if has_key(s, q) {
                let j = key_index(s, q);
                if j < i {
                    assert(t[j] == s[j]);
                    lemma_key_index(t, j);
                } else if hit && j == i {
                    assert(false);
                } else {
                    let jj = if hit {
                        j - (i + 1)
                    } else {
                        j - i
                    };
                    assert(rest[jj] == s[j]);
                    assert(t[off + jj] == rest[jj]);
                    lemma_key_index(t, off + jj);
                }
            } else {
                if has_key(t, q) {
                    let j = key_index(t, q);
                    if j < front.len() {
                        assert(t[j] == s[j]);
                    } else if j < off {
                    } else {
                        let jj = j - off;
                        assert(t[j] == rest[jj]);
                        if hit {
                            assert(rest[jj] == s[i + 1 + jj]);
                        } else {
                            assert(rest[jj] == s[i + jj]);
                        }
                    }
                }
            }
        }
    }
}

/// A sorted sequence has a split position for every key.
pub proof fn lemma_split_exists<T: Keyed>(s: Seq<T>, k: int)
    requires
        sorted_by_key(s),
    ensures
        is_split(s, k, split_index(s, k)),
    decreases s.len(),
{
    let n = s.len();
    // the first index whose key is not below k
    if forall|j: int| 0 <= j < n ==> #[trigger] s[j].key() < k {
        assert(is_split(s, k, n as int));
    } else {
        let j0 = choose|j: int| 0 <= j < n && !(#[trigger] s[j].key() < k);
        lemma_first_not_below(s, k, j0);
    }
}

proof fn lemma_first_not_below<T: Keyed>(s: Seq<T>, k: int, j0: int)
    requires
        sorted_by_key(s),
        0 <= j0 < s.len(),
        s[j0].key() >= k,
    ensures
        is_split(s, k, split_index(s, k)),
    decreases j0,
{
    if j0 == 0 || s[j0 - 1].key() < k {
        assert forall|j: int| 0 <= j < j0 implies #[trigger] s[j].key() < k by {
            if j < j0 - 1 {
                assert(s[j].key() < s[j0 - 1].key());
            }
        }
        assert forall|j: int| j0 <= j < s.len() implies #[trigger] s[j].key() >= k by {
            if j > j0 {
                assert(s[j0].key() < s[j].key());
            }
        }
        assert(is_split(s, k, j0));
    } else {
        lemma_first_not_below(s, k, j0 - 1);
    }
}

/// A key-preserving image of a table finds, under each key, the image of
/// what the table finds there.
pub proof fn lemma_lookup_map<T: Keyed, U: Keyed>(s: Seq<T>, f: spec_fn(T) -> U, q: int)
    requires
        unique_keys(s),
        forall|x: T| #[trigger] f(x).key() == x.key(),
    ensures
        lookup(s.map_values(f), q) == match lookup(s, q) {
            Some(r) => Some(f(r)),
            None => None,
        },
{
    let t = s.map_values(f);
    if has_key(s, q) {
        let i = key_index(s, q);
        assert(t[i].key() == q);
        assert(has_key(t, q));
        let j = key_index(t, q);
        assert(s[j].key() == t[j].key());
        assert(i == j);
    } else if has_key(t, q) {
        let j = key_index(t, q);
        assert(s[j].key() == t[j].key());
        assert(has_key(s, q));
    }
}

/// A key-preserving image of a table in key order is in key order.
pub proof fn lemma_map_sorted<T: Keyed, U: Keyed>(s: Seq<T>, f: spec_fn(T) -> U)
    requires
        sorted_by_key(s),
        forall|x: T| #[trigger] f(x).key() == x.key(),
    ensures
        sorted_by_key(s.map_values(f)),
{
    let t = s.map_values(f);
    assert forall|i: int, j: int| 0 <= i < j < t.len() implies #[trigger] t[i].key() < #[trigger] t[j].key() by {
        assert(s[i].key() < s[j].key());
    }
}

/// Dropping the first record of a table in key order forgets exactly its
/// key.
proof fn lemma_lookup_skip_first<T: Keyed>(s: Seq<T>, q: int)
    requires
        sorted_by_key(s),
        s.len() > 0,
    ensures
        lookup(s.skip(1), q) == if q == s[0].key() {
            None
        } else {
            lookup(s, q)
        },
{
    let t = s.skip(1);
    lemma_sorted_unique(s);
    if has_key(t, q) {
        let j = key_index(t, q);
        assert(t[j] == s[j + 1]);
        assert(s[0].key() < s[j + 1].key());
        assert(has_key(s, q));
        lemma_key_index(s, j + 1);
    } else if q != s[0].key() && has_key(s, q) {
        let i = key_index(s, q);
        assert(i != 0);
        assert(t[i - 1] == s[i]);
        assert(has_key(t, q));
    }
}

/// Two tables in key order that find the same record under every key are
/// the same table.
pub proof fn lemma_lookup_ext<T: Keyed>(a: Seq<T>, b: Seq<T>)
    requires
        sorted_by_key(a),
        sorted_by_key(b),
        forall|q: int| #[trigger] lookup(a, q) == lookup(b, q),
    ensures
        a == b,
    decreases a.len() + b.len(),
{
    lemma_sorted_unique(a);
    lemma_sorted_unique(b);
    if a.len() == 0 || b.len() == 0 {
        if a.len() > 0 {
            lemma_key_index(a, 0);
            assert(lookup(b, a[0].key()) is Some);
        } else if b.len() > 0 {
            lemma_key_index(b, 0);
            assert(lookup(a, b[0].key()) is Some);
        }
        assert(a =~= b);
    } else {
        let ka = a[0].key();
        let kb = b[0].key();
        lemma_key_index(a, 0);
        lemma_key_index(b, 0);
        assert(lookup(b, ka) == Some(a[0]));
        assert(lookup(a, kb) == Some(b[0]));
        let j = key_index(b, ka);
        let i = key_index(a, kb);
        if i > 0 {
            assert(a[0].key() < a[i].key());
        }
        if j > 0 {
            assert(b[0].key() < b[j].key());
        }
        assert(ka == kb);
        assert(a[0] == b[0]);
        assert forall|q: int| #[trigger] lookup(a.skip(1), q) == lookup(b.skip(1), q) by {
            lemma_lookup_skip_first(a, q);
            lemma_lookup_skip_first(b, q);
        }
        assert(sorted_by_key(a.skip(1)));
        assert(sorted_by_key(b.skip(1)));
        lemma_lookup_ext(a.skip(1), b.skip(1));
        assert(a =~= seq![a[0]] + a.skip(1));
        assert(b =~= seq![b[0]] + b.skip(1));
    }
}

} // verus!

verus! {

/// The least index below `n` at which `p` holds, if any.
pub open spec fn first_index_where(n: int, p: spec_fn(int) -> bool) -> Option<int> {
    if exists|j: int| 0 <= j < n && #[trigger] p(j) {
        Some(choose|j: int| 0 <= j < n && #[trigger] p(j) && forall|k: int| 0 <= k < j ==> !#[trigger] p(k))
    } else {
        None
    }
}

pub proof fn lemma_first_index_where(n: int, p: spec_fn(int) -> bool, j: int)
    requires
        0 <= j < n,
        p(j),
        forall|k: int| 0 <= k < j ==> !#[trigger] p(k),
    ensures
        first_index_where(n, p) == Some(j),
{
    assert(0 <= j < n && p(j));
    let c = choose|c: int| 0 <= c < n && #[trigger] p(c) && forall|k: int| 0 <= k < c ==> !#[trigger] p(k);
    assert(0 <= j < n && p(j) && forall|k: int| 0 <= k < j ==> !#[trigger] p(k));
    assert(0 <= c < n && p(c) && forall|k: int| 0 <= k < c ==> !#[trigger] p(k));
    if c < j {
        assert(!p(c));
    } else if j < c {
        assert(!p(j));
    }
}

pub proof fn lemma_no_index_where(n: int, p: spec_fn(int) -> bool)
    requires
        forall|k: int| 0 <= k < n ==> !#[trigger] p(k),
    ensures
        first_index_where(n, p) is None,
{
    if exists|j: int| 0 <= j < n && #[trigger] p(j) {
        let j = choose|j: int| 0 <= j < n && #[trigger] p(j);
        assert(!p(j));
    }
}

} // verus!
