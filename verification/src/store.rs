//! A store keyed by the static type of the value it holds.
//!
//! Heterogeneous values live in one container as values of a single erased
//! universe type `U`. Every concrete storable type carries a `TypeKey` — a
//! stable, per-type identifier — and an injection into the universe; the
//! store keeps at most one value per key, so inserting a second value of the
//! same type replaces the first.

use vstd::prelude::*;

verus! {

/// An erased value that remembers which concrete type it came from.
///
/// `key_of` is the `TypeKey` of the concrete type behind the erased value.
pub trait Keyed: Sized {
    /// The `TypeKey` of the concrete type this erased value holds.
    spec fn key_of(self) -> int;
}

/// A concrete type that can be stored in a `TypedStore` over universe `U`.
///
/// Two values of the same concrete type always map to the same key, and the
/// injection into the universe is lossless: `unwrap_ref` and `unwrap_mut`
/// recover exactly the injected value, and refuse values of any other type.
pub trait TypeKeyed<U: Keyed>: Sized {
    /// The `TypeKey` of this type: the sole key it occupies in a store.
    spec fn key() -> int;

    /// The erased form of a value of this type.
    spec fn inj(self) -> U;

    /// The injection respects the key, is lossless, and owns its key: every
    /// erased value carrying this type's key is the image of some value.
    proof fn lemma_inj_props()
        ensures
            forall|a: Self| (#[trigger] a.inj()).key_of() == Self::key(),
            forall|a: Self, b: Self| a.inj() == b.inj() ==> a == b,
            forall|u: U| #[trigger] u.key_of() == Self::key() ==> exists|a: Self| u == a.inj(),
    ;

    /// Erase a value of this type.
    fn wrap(self) -> (u: U)
        ensures
            u == self.inj(),
    ;

    /// Recover a shared reference from an erased value, if it is of this type.
    fn unwrap_ref(u: &U) -> (r: Option<&Self>)
        ensures
            match r {
                Some(t) => *u == t.inj(),
                None => u.key_of() != Self::key(),
            },
    ;

    /// Recover a mutable reference from an erased value, if it is of this type.
    fn unwrap_mut(u: &mut U) -> (r: Option<&mut Self>)
        ensures
            r.is_none() ==> old(u).key_of() != Self::key() && *final(u) == *old(u),
            r.is_some() ==> old(u).key_of() == Self::key() && *old(u) == (*r.unwrap()).inj()
                && *final(u) == (*final(r.unwrap())).inj(),
    ;
}

/// The mapping from `TypeKey` to erased value that a sequence of erased
/// entries represents; a later entry wins over an earlier one with the same
/// key (the store's invariant rules that case out).
pub open spec fn as_map<U: Keyed>(s: Seq<U>) -> Map<int, U>
    decreases s.len(),
{
    if s.len() == 0 {
        Map::empty()
    } else {
        as_map(s.drop_last()).insert(s.last().key_of(), s.last())
    }
}

/// No two entries carry the same `TypeKey`.
pub open spec fn distinct_keys<U: Keyed>(s: Seq<U>) -> bool {
    forall|i: int, j: int|
        0 <= i < j < s.len() ==> (#[trigger] s[i]).key_of() != (#[trigger] s[j]).key_of()
}

proof fn lemma_as_map_contains<U: Keyed>(s: Seq<U>, k: int)
    ensures
        as_map(s).contains_key(k) <==> exists|i: int| 0 <= i < s.len() && (#[trigger] s[i]).key_of() == k,
    decreases s.len(),
{
    if s.len() > 0 {
        lemma_as_map_contains(s.drop_last(), k);
        if s.last().key_of() == k {
            assert(s[s.len() - 1].key_of() == k);
        } else if as_map(s).contains_key(k) {
            let i = choose|i: int| 0 <= i < s.drop_last().len() && (#[trigger] s.drop_last()[i]).key_of() == k;
            assert(s[i].key_of() == k);
        } else {
            assert forall|i: int| 0 <= i < s.len() implies (#[trigger] s[i]).key_of() != k by {
                if i < s.len() - 1 {
                    assert(s.drop_last()[i] == s[i]);
                }
            }
        }
    }
}

proof fn lemma_as_map_index<U: Keyed>(s: Seq<U>, i: int)
    requires
        distinct_keys(s),
        0 <= i < s.len(),
    ensures
        as_map(s).contains_key(s[i].key_of()),
        as_map(s)[s[i].key_of()] == s[i],
    decreases s.len(),
{
    lemma_as_map_contains(s, s[i].key_of());
    if i < s.len() - 1 {
        assert(s.drop_last()[i] == s[i]);
        assert(distinct_keys(s.drop_last())) by {
            assert forall|p: int, q: int|
                0 <= p < q < s.drop_last().len() implies (#[trigger] s.drop_last()[p]).key_of()
                != (#[trigger] s.drop_last()[q]).key_of() by {
                assert(s.drop_last()[p] == s[p]);
                assert(s.drop_last()[q] == s[q]);
            }
        }
        lemma_as_map_index(s.drop_last(), i);
        assert(s.last().key_of() != s[i].key_of());
    }
}

proof fn lemma_as_map_update<U: Keyed>(s: Seq<U>, i: int, v: U)
    requires
        distinct_keys(s),
        0 <= i < s.len(),
        v.key_of() == s[i].key_of(),
    ensures
        distinct_keys(s.update(i, v)),
        as_map(s.update(i, v)) == as_map(s).insert(v.key_of(), v),
    decreases s.len(),
{
    let t = s.update(i, v);
    assert forall|p: int, q: int|
        0 <= p < q < t.len() implies (#[trigger] t[p]).key_of() != (#[trigger] t[q]).key_of() by {
        assert(s[p].key_of() != s[q].key_of());
    }
    if i == s.len() - 1 {
        assert(t.drop_last() =~= s.drop_last());
        assert(as_map(t) == as_map(s.drop_last()).insert(v.key_of(), v));
        assert(as_map(s) == as_map(s.drop_last()).insert(s.last().key_of(), s.last()));
        assert(as_map(t) =~= as_map(s).insert(v.key_of(), v));
    } else {
        assert(distinct_keys(s.drop_last())) by {
            assert forall|p: int, q: int|
                0 <= p < q < s.drop_last().len() implies (#[trigger] s.drop_last()[p]).key_of()
                != (#[trigger] s.drop_last()[q]).key_of() by {
                assert(s.drop_last()[p] == s[p]);
                assert(s.drop_last()[q] == s[q]);
            }
        }
        assert(s.drop_last()[i] == s[i]);
        lemma_as_map_update(s.drop_last(), i, v);
        assert(t.drop_last() =~= s.drop_last().update(i, v));
        assert(t.last() == s.last());
        assert(s.last().key_of() != v.key_of());
        assert(as_map(t) == as_map(s.drop_last().update(i, v)).insert(s.last().key_of(), s.last()));
        assert(as_map(t) =~= as_map(s).insert(v.key_of(), v));
    }
}

proof fn lemma_as_map_push<U: Keyed>(s: Seq<U>, v: U)
    requires
        distinct_keys(s),
        forall|i: int| 0 <= i < s.len() ==> (#[trigger] s[i]).key_of() != v.key_of(),
    ensures
        distinct_keys(s.push(v)),
        as_map(s.push(v)) == as_map(s).insert(v.key_of(), v),
{
    let t = s.push(v);
    assert(t.drop_last() =~= s);
    assert(t.last() == v);
    assert forall|p: int, q: int|
        0 <= p < q < t.len() implies (#[trigger] t[p]).key_of() != (#[trigger] t[q]).key_of() by {
        if q < t.len() - 1 {
            assert(t[p] == s[p] && t[q] == s[q]);
        } else {
            assert(t[p] == s[p] && t[q] == v);
        }
    }
}

/// Law: type keys are collision free — the erased forms of values of two
/// key-distinct storable types are never the same value, so a lookup for one
/// type can never surface a value stored as the other.
pub proof fn lemma_type_key_collision_free<U: Keyed, T1: TypeKeyed<U>, T2: TypeKeyed<U>>(
    a: T1,
    b: T2,
)
    requires
        T1::key() != T2::key(),
    ensures
        a.inj() != b.inj(),
{
    T1::lemma_inj_props();
    T2::lemma_inj_props();
}

/// Law: inserting a value of one type leaves the slot of every key-distinct
/// type exactly as it was.
pub proof fn lemma_insert_isolated<U: Keyed, T1: TypeKeyed<U>, T2: TypeKeyed<U>>(
    m: Map<int, U>,
    b: T2,
)
    requires
        T1::key() != T2::key(),
    ensures
        m.insert(T2::key(), b.inj()).contains_key(T1::key()) == m.contains_key(T1::key()),
        m.contains_key(T1::key()) ==> m.insert(T2::key(), b.inj())[T1::key()] == m[T1::key()],
{
}

/// Law: inserting a second value of the same type replaces the first — the
/// store afterwards is as if only the second insert had happened.
pub proof fn lemma_insert_replaces<U: Keyed, T: TypeKeyed<U>>(m: Map<int, U>, a: T, b: T)
    ensures
        m.insert(T::key(), a.inj()).insert(T::key(), b.inj()) == m.insert(T::key(), b.inj()),
{
    assert(m.insert(T::key(), a.inj()).insert(T::key(), b.inj()) =~= m.insert(T::key(), b.inj()));
}

/// The store state after performing `entries` inserts, in order, on `m0`.
pub open spec fn inserted_all<U>(m0: Map<int, U>, entries: Seq<(int, U)>) -> Map<int, U>
    decreases entries.len(),
{
    if entries.len() == 0 {
        m0
    } else {
        inserted_all(m0, entries.drop_last()).insert(entries.last().0, entries.last().1)
    }
}

/// Law: a lookup for a key under which nothing was ever inserted finds
/// absence — never a default or fallback value.
pub proof fn lemma_lookup_never_added<U>(m0: Map<int, U>, entries: Seq<(int, U)>, k: int)
    requires
        !m0.contains_key(k),
        forall|i: int| 0 <= i < entries.len() ==> (#[trigger] entries[i]).0 != k,
    ensures
        !inserted_all(m0, entries).contains_key(k),
    decreases entries.len(),
{
    if entries.len() > 0 {
        assert forall|i: int| 0 <= i < entries.drop_last().len() implies (#[trigger] entries.drop_last()[i]).0
            != k by {
            assert(entries.drop_last()[i] == entries[i]);
        }
        lemma_lookup_never_added(m0, entries.drop_last(), k);
    }
}

/// A homogeneous container keyed by the static type of each value it holds:
/// at most one value per `TypeKey`, inserted by type, fetched by type.
pub struct TypedStore<U> {
    entries: Vec<U>,
}

impl<U: Keyed> View for TypedStore<U> {
    type V = Map<int, U>;

    closed spec fn view(&self) -> Map<int, U> {
        as_map(self.entries@)
    }
}

impl<U: Keyed> TypedStore<U> {
    /// The store's invariant: one entry per `TypeKey`.
    pub closed spec fn wf(&self) -> bool {
        distinct_keys(self.entries@)
    }

    /// Create an empty store.
    pub fn new() -> (r: Self)
        ensures
            r.wf(),
            r@ == Map::<int, U>::empty(),
    {
        TypedStore { entries: Vec::new() }
    }

    /// The position of the entry with `T`'s key, if one is present.
    fn find_index<T: TypeKeyed<U>>(&self) -> (r: Option<usize>)
        requires
            self.wf(),
        ensures
            match r {
                Some(i) => i < self.entries@.len() && self.entries@[i as int].key_of() == T::key(),
                None => forall|j: int|
                    0 <= j < self.entries@.len() ==> (#[trigger] self.entries@[j]).key_of() != T::key(),
            },
    {
        proof {
            T::lemma_inj_props();
        }
        let n = self.entries.len();
        let mut i: usize = 0;
        while i < n
            invariant
                n == self.entries@.len(),
                i <= n,
                forall|j: int| 0 <= j < i ==> (#[trigger] self.entries@[j]).key_of() != T::key(),
                forall|a: T| (#[trigger] a.inj()).key_of() == T::key(),
                forall|u: U| #[trigger] u.key_of() == T::key() ==> exists|a: T| u == a.inj(),
            decreases n - i,
        {
            if T::unwrap_ref(&self.entries[i]).is_some() {
                return Some(i);
            }
            i += 1;
        }
        None
    }

    /// Store `value`, replacing any prior value of type `T`; always succeeds.
    pub fn insert<T: TypeKeyed<U>>(&mut self, value: T)
        requires
            old(self).wf(),
        ensures
            final(self).wf(),
            final(self)@ == old(self)@.insert(T::key(), value.inj()),
    {
        proof {
            T::lemma_inj_props();
        }
        let idx = self.find_index::<T>();
        match idx {
            Some(i) => {
                let ghost s = self.entries@;
                proof {
                    lemma_as_map_update(s, i as int, value.inj());
                }
                self.entries[i] = value.wrap();
            }
            None => {
                let ghost s = self.entries@;
                proof {
                    lemma_as_map_push(s, value.inj());
                }
                self.entries.push(value.wrap());
            }
        }
    }

    /// A read-only reference to the stored value of type `T`, if present.
    pub fn get<T: TypeKeyed<U>>(&self) -> (r: Option<&T>)
        requires
            self.wf(),
        ensures
            match r {
                Some(t) => self@.contains_key(T::key()) && self@[T::key()] == t.inj(),
                None => !self@.contains_key(T::key()),
            },
    {
        proof {
            T::lemma_inj_props();
            lemma_as_map_contains(self.entries@, T::key());
        }
        match self.find_index::<T>() {
            Some(i) => {
                proof {
                    lemma_as_map_index(self.entries@, i as int);
                }
                T::unwrap_ref(&self.entries[i])
            }
            None => None,
        }
    }

    /// A mutable reference to the stored value of type `T`, if present; the
    /// store afterwards holds whatever the caller leaves behind the reference.
    pub fn get_mut<T: TypeKeyed<U>>(&mut self) -> (r: Option<&mut T>)
        requires
            old(self).wf(),
        ensures
            final(self).wf(),
            r.is_none() ==> !old(self)@.contains_key(T::key()) && *final(self) == *old(self),
            r.is_some() ==> old(self)@.contains_key(T::key())
                && old(self)@[T::key()] == (*r.unwrap()).inj()
                && final(self)@ == old(self)@.insert(T::key(), (*final(r.unwrap())).inj()),
    {
        proof {
            T::lemma_inj_props();
            lemma_as_map_contains(old(self).entries@, T::key());
        }
        let idx = self.find_index::<T>();
        match idx {
            Some(i) => {
                let ghost s = self.entries@;
                proof {
                    lemma_as_map_index(s, i as int);
                }
                let e = &mut self.entries[i];
                let r = T::unwrap_mut(e);
                proof {
                    if r.is_some() {
                        lemma_as_map_update(s, i as int, (*final(r.unwrap())).inj());
                    }
                }
                r
            }
            None => None,
        }
    }
}

} // verus!
