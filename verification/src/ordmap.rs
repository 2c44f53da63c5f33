//! Maps from text to values, kept in the order of their keys.
use crate::text::{
    is_before, precedes, precedes_from_asymmetric, precedes_from_transitive, precedes_total, same,
};
use vstd::prelude::*;

verus! {

/// A map with text keys. Its entries stand in the order of their keys, each
/// key once, so walking the entries walks the map in key order.
#[derive(Debug)]
pub struct OrdMap<V> {
    pub(crate) entries: Vec<(String, V)>,
}

/// Entries as pairs of key text and value.
pub open spec fn items_of<V>(entries: Seq<(String, V)>) -> Seq<(Seq<char>, V)> {
    entries.map_values(|e: (String, V)| (e.0@, e.1))
}

impl<V> View for OrdMap<V> {
    type V = Seq<(Seq<char>, V)>;

    open(crate) spec fn view(&self) -> Seq<(Seq<char>, V)> {
        items_of(self.entries@)
    }
}

/// Whether the keys stand in order, each once.
pub open spec fn in_key_order<V>(s: Seq<(Seq<char>, V)>) -> bool {
    forall|i: int, j: int| 0 <= i < j < s.len() ==> precedes(#[trigger] s[i].0, #[trigger] s[j].0)
}

/// The first position at or after `i` whose key does not come before `k`.
pub open spec fn slot_from<V>(s: Seq<(Seq<char>, V)>, k: Seq<char>, i: int) -> int
    decreases s.len() - i,
{
    if i < 0 || i >= s.len() {
        s.len() as int
    } else if !precedes(s[i].0, k) {
        i
    } else {
        slot_from(s, k, i + 1)
    }
}

/// Where the key `k` stands, or would stand.
pub open spec fn slot<V>(s: Seq<(Seq<char>, V)>, k: Seq<char>) -> int {
    slot_from(s, k, 0)
}

/// Whether the map holds the key `k`.
pub open spec fn holds_key<V>(s: Seq<(Seq<char>, V)>, k: Seq<char>) -> bool {
    slot(s, k) < s.len() && s[slot(s, k)].0 == k
}

/// The value at the key `k`.
pub open spec fn lookup<V>(s: Seq<(Seq<char>, V)>, k: Seq<char>) -> Option<V> {
    if holds_key(s, k) {
        Some(s[slot(s, k)].1)
    } else {
        None
    }
}

/// The map with `k` bound to `v`, whatever it was bound to before.
pub open spec fn with_entry<V>(s: Seq<(Seq<char>, V)>, k: Seq<char>, v: V) -> Seq<(Seq<char>, V)> {
    if holds_key(s, k) {
        s.update(slot(s, k), (k, v))
    } else {
        s.insert(slot(s, k), (k, v))
    }
}

/// The map with the entries of `other` added in turn.
pub open spec fn with_entries<V>(
    s: Seq<(Seq<char>, V)>,
    other: Seq<(Seq<char>, V)>,
) -> Seq<(Seq<char>, V)>
    decreases other.len(),
{
    if other.len() == 0 {
        s
    } else {
        with_entry(with_entries(s, other.drop_last()), other.last().0, other.last().1)
    }
}

/// What `slot_from` finds.
pub proof fn slot_from_props<V>(s: Seq<(Seq<char>, V)>, k: Seq<char>, i: int)
    requires
        0 <= i <= s.len(),
    ensures
        i <= slot_from(s, k, i) <= s.len(),
        forall|j: int| i <= j < slot_from(s, k, i) ==> precedes(#[trigger] s[j].0, k),
        slot_from(s, k, i) < s.len() ==> !precedes(s[slot_from(s, k, i)].0, k),
    decreases s.len() - i,
{
    if i < s.len() && precedes(s[i].0, k) {
        slot_from_props(s, k, i + 1);
    }
}

/// In an ordered map a key stands at its slot and nowhere else.
pub proof fn key_at_slot<V>(s: Seq<(Seq<char>, V)>, k: Seq<char>, i: int)
    requires
        in_key_order(s),
        0 <= i < s.len(),
        s[i].0 == k,
    ensures
        slot(s, k) == i,
{
    slot_from_props(s, k, 0);
    let p = slot(s, k);
    if i < p {
        assert(precedes(s[i].0, k));
        precedes_from_asymmetric(k, k, 0);
    }
    if p < i {
        assert(precedes(s[p].0, s[i].0));
    }
}

/// In an ordered map, an entry before the slot of `k` has a smaller key, the
/// others a greater one or `k` itself.
proof fn order_around_slot<V>(s: Seq<(Seq<char>, V)>, k: Seq<char>, i: int)
    requires
        in_key_order(s),
        0 <= i < s.len(),
    ensures
        i < slot(s, k) ==> precedes(s[i].0, k),
        i >= slot(s, k) ==> s[i].0 == k || precedes(k, s[i].0),
        i > slot(s, k) ==> precedes(k, s[i].0),
{
    slot_from_props(s, k, 0);
    let p = slot(s, k);
    if i >= p {
        if s[p].0 != k {
            precedes_total(s[p].0, k);
        }
        if i > p {
            assert(precedes(s[p].0, s[i].0));
            if s[p].0 != k {
                precedes_from_transitive(k, s[p].0, s[i].0, 0);
            }
        }
    }
}

/// Adding an entry keeps the keys in order.
pub proof fn with_entry_keeps_order<V>(s: Seq<(Seq<char>, V)>, k: Seq<char>, v: V)
    requires
        in_key_order(s),
    ensures
        in_key_order(with_entry(s, k, v)),
{
    slot_from_props(s, k, 0);
    let p = slot(s, k);
    let t = with_entry(s, k, v);
    assert forall|i: int, j: int| 0 <= i < j < t.len() implies precedes(
        #[trigger] t[i].0,
        #[trigger] t[j].0,
    ) by {
        if holds_key(s, k) {
            assert(t[i].0 == s[i].0);
            assert(t[j].0 == s[j].0);
        } else {
            let i0 = if i < p {
                i
            } else {
                i - 1
            };
            let j0 = if j < p {
                j
            } else {
                j - 1
            };
            if i == p {
                order_around_slot(s, k, j0);
                assert(t[j] == s[j0]);
                assert(s[j0].0 != k) by {
                    if s[j0].0 == k {
                        key_at_slot(s, k, j0);
                    }
                }
            } else if j == p {
                order_around_slot(s, k, i0);
                assert(t[i] == s[i0]);
            } else {
                assert(t[i] == s[i0]);
                assert(t[j] == s[j0]);
                assert(precedes(s[i0].0, s[j0].0));
            }
        }
    }
}

/// In an ordered map a key is held exactly if some entry has it.
pub proof fn holds_key_iff<V>(s: Seq<(Seq<char>, V)>, k: Seq<char>)
    requires
        in_key_order(s),
    ensures
        holds_key(s, k) <==> exists|i: int| 0 <= i < s.len() && #[trigger] s[i].0 == k,
{
    slot_from_props(s, k, 0);
    if exists|i: int| 0 <= i < s.len() && #[trigger] s[i].0 == k {
        let i = choose|i: int| 0 <= i < s.len() && #[trigger] s[i].0 == k;
        key_at_slot(s, k, i);
    }
    if holds_key(s, k) {
        assert(s[slot(s, k)].0 == k);
    }
}

/// Looking a key up after adding an entry gives the new value at its key and
/// the old value at every other.
pub proof fn lookup_after_with_entry<V>(
    s: Seq<(Seq<char>, V)>,
    k: Seq<char>,
    v: V,
    other: Seq<char>,
)
    requires
        in_key_order(s),
    ensures
        lookup(with_entry(s, k, v), other) == (if other == k {
            Some(v)
        } else {
            lookup(s, other)
        }),
{
    let t = with_entry(s, k, v);
    let p = slot(s, k);
    slot_from_props(s, k, 0);
    slot_from_props(s, other, 0);
    with_entry_keeps_order(s, k, v);
    slot_from_props(t, other, 0);
    holds_key_iff(s, other);
    holds_key_iff(t, other);
    if other == k {
        assert(t[p] == (k, v));
        key_at_slot(t, k, p);
    } else {
        if holds_key(s, other) {
            let q = slot(s, other);
            let q1 = if holds_key(s, k) || q < p {
                q
            } else {
                q + 1
            };
            assert(t[q1] == s[q]);
            key_at_slot(t, other, q1);
        } else if holds_key(t, other) {
            let q = slot(t, other);
            let q0 = if holds_key(s, k) || q < p {
                q
            } else {
                q - 1
            };
            assert(q != p);
            assert(s[q0] == t[q]);
            assert(s[q0].0 == other);
        }
    }
}

/// Where a key stands depends on the keys alone.
pub proof fn slot_from_by_keys<V, W>(
    s: Seq<(Seq<char>, V)>,
    t: Seq<(Seq<char>, W)>,
    k: Seq<char>,
    i: int,
)
    requires
        s.len() == t.len(),
        forall|j: int| 0 <= j < s.len() ==> #[trigger] s[j].0 == t[j].0,
    ensures
        slot_from(s, k, i) == slot_from(t, k, i),
    decreases s.len() - i,
{
    if 0 <= i < s.len() {
        assert(s[i].0 == t[i].0);
        slot_from_by_keys(s, t, k, i + 1);
    }
}

/// The map with every value rewritten by `f`.
pub open spec fn map_items<V, W>(
    s: Seq<(Seq<char>, V)>,
    f: spec_fn(V) -> W,
) -> Seq<(Seq<char>, W)> {
    s.map_values(|e: (Seq<char>, V)| (e.0, f(e.1)))
}

/// Rewriting the values keeps the keys in order.
pub proof fn map_items_keeps_order<V, W>(s: Seq<(Seq<char>, V)>, f: spec_fn(V) -> W)
    requires
        in_key_order(s),
    ensures
        in_key_order(map_items(s, f)),
{
    let t = map_items(s, f);
    assert forall|i: int, j: int| 0 <= i < j < t.len() implies precedes(
        #[trigger] t[i].0,
        #[trigger] t[j].0,
    ) by {
        assert(t[i].0 == s[i].0 && t[j].0 == s[j].0);
    }
}

/// Adding an entry and rewriting the values can be done in either order.
pub proof fn with_entry_map<V, W>(
    s: Seq<(Seq<char>, V)>,
    k: Seq<char>,
    v: V,
    f: spec_fn(V) -> W,
)
    ensures
        map_items(with_entry(s, k, v), f) == with_entry(map_items(s, f), k, f(v)),
{
    let t = map_items(s, f);
    assert forall|j: int| 0 <= j < s.len() implies #[trigger] s[j].0 == t[j].0 by {}
    slot_from_by_keys(s, t, k, 0);
    slot_from_props(s, k, 0);
    assert(map_items(with_entry(s, k, v), f) =~= with_entry(t, k, f(v)));
}

impl<V> OrdMap<V> {
    #[verifier::type_invariant]
    pub(crate) open spec fn ordered(&self) -> bool {
        in_key_order(self@)
    }

    /// The empty map.
    pub fn new() -> (r: Self)
        ensures
            r@ == Seq::<(Seq<char>, V)>::empty(),
    {
        let r = OrdMap { entries: Vec::new() };
        assert(r@ =~= Seq::<(Seq<char>, V)>::empty());
        r
    }

    /// Where the key stands, or would stand.
    fn find_slot(&self, key: &str) -> (r: usize)
        ensures
            r == slot(self@, key@),
            r <= self.entries.len(),
    {
        let mut i: usize = 0;
        while i < self.entries.len()
            invariant
                i <= self.entries.len(),
                slot(self@, key@) == slot_from(self@, key@, i as int),
            decreases self.entries.len() - i,
        {
            assert(self@[i as int].0 == self.entries@[i as int].0@);
            if !is_before(&self.entries[i].0, key) {
                return i;
            }
            i += 1;
        }
        i
    }

    /// The value at the key.
    pub fn get(&self, key: &str) -> (r: Option<&V>)
        ensures
            match r {
                Some(v) => lookup(self@, key@) == Some(*v),
                None => lookup(self@, key@) is None,
            },
    {
        let p = self.find_slot(key);
        if p < self.entries.len() {
            assert(self@[p as int] == (self.entries@[p as int].0@, self.entries@[p as int].1));
            if same(&self.entries[p].0, key) {
                return Some(&self.entries[p].1);
            }
        }
        None
    }

    /// The entries, in the order of their keys.
    pub fn entries(&self) -> (r: &Vec<(String, V)>)
        ensures
            items_of(r@) == self@,
            in_key_order(self@),
    {
        proof {
            use_type_invariant(self);
        }
        &self.entries
    }

    /// Binds the key to the value.
    pub fn insert(&mut self, key: String, value: V)
        ensures
            final(self)@ == with_entry(old(self)@, key@, value),
            in_key_order(final(self)@),
    {
        let ghost start = self@;
        let p = self.find_slot(&key);
        proof {
            use_type_invariant(&*self);
            with_entry_keeps_order(start, key@, value);
            if p < self.entries.len() {
                assert(start[p as int].0 == self.entries@[p as int].0@);
            }
        }
        let mut entries: Vec<(String, V)> = Vec::new();
        std::mem::swap(&mut entries, &mut self.entries);
        let ghost e0 = entries@;
        let ghost kv = (key, value);
        if p < entries.len() && entries[p].0 == key {
            entries[p] = (key, value);
            assert(items_of(entries@) =~= start.update(p as int, (kv.0@, kv.1)));
        } else {
            entries.insert(p, (key, value));
            proof {
                assert(entries@ == e0.insert(p as int, kv));
                assert(items_of(entries@) =~= start.insert(p as int, (kv.0@, kv.1)));
            }
        }
        self.entries = entries;
    }
}

} // verus!
