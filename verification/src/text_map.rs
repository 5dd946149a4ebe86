//! Maps from names to values, kept in the order of the names.

use vstd::prelude::*;

use crate::order::{law_before_is_total, law_text_order_is_total, text_order};
use crate::text::{before, same, stands_before};

verus! {

/// Names with their values, as views.
pub type Pairs<T> = Seq<(Seq<char>, T)>;

/// The names ascend strictly.
pub open spec fn ascending<T>(e: Pairs<T>) -> bool {
    forall|i: int, j: int|
        0 <= i < j < e.len() ==> before((#[trigger] e[i]).0, (#[trigger] e[j]).0)
}

pub open spec fn has_name<T>(e: Pairs<T>, name: Seq<char>) -> bool {
    exists|i: int| 0 <= i < e.len() && (#[trigger] e[i]).0 == name
}

pub open spec fn value_of<T>(e: Pairs<T>, name: Seq<char>) -> T {
    e[choose|i: int| 0 <= i < e.len() && (#[trigger] e[i]).0 == name].1
}

/// The variables as a map.
pub open spec fn map_of<T>(e: Pairs<T>) -> Map<Seq<char>, T> {
    Map::new(|name: Seq<char>| has_name(e, name), |name: Seq<char>| value_of(e, name))
}

/// The pairs of `m` in the order of their names.
pub open spec fn listing<T>(m: Map<Seq<char>, T>) -> Pairs<T> {
    choose|e: Pairs<T>| ascending(e) && #[trigger] map_of(e) == m
}

proof fn lemma_names_differ<T>(e: Pairs<T>, i: int, j: int)
    requires
        ascending(e),
        0 <= i < e.len(),
        0 <= j < e.len(),
        e[i].0 == e[j].0,
    ensures
        i == j,
{
    law_before_is_total(e[i].0, e[j].0);
    if i < j {
        assert(before(e[i].0, e[j].0));
    } else if j < i {
        assert(before(e[j].0, e[i].0));
    }
}

pub proof fn lemma_entry<T>(e: Pairs<T>, i: int)
    requires
        ascending(e),
        0 <= i < e.len(),
    ensures
        map_of(e).contains_key(e[i].0),
        map_of(e)[e[i].0] == e[i].1,
{
    let k = choose|k: int| 0 <= k < e.len() && (#[trigger] e[k]).0 == e[i].0;
    lemma_names_differ(e, i, k);
}

/// A map has one listing in the order of the names.
pub proof fn law_listing_is_unique<T>(a: Pairs<T>, b: Pairs<T>)
    requires
        ascending(a),
        ascending(b),
        map_of(a) == map_of(b),
    ensures
        a == b,
    decreases a.len(),
{
    if a.len() == 0 || b.len() == 0 {
        if a.len() > 0 {
            lemma_entry(a, 0);
            assert(has_name(b, a[0].0));
        }
        if b.len() > 0 {
            lemma_entry(b, 0);
            assert(has_name(a, b[0].0));
        }
        assert(a =~= b);
    } else {
        let x = a.last().0;
        let y = b.last().0;
        lemma_entry(a, a.len() - 1);
        lemma_entry(b, b.len() - 1);
        assert(has_name(b, x));
        assert(has_name(a, y));
        let i = choose|i: int| 0 <= i < b.len() && (#[trigger] b[i]).0 == x;
        let j = choose|j: int| 0 <= j < a.len() && (#[trigger] a[j]).0 == y;
        if i < b.len() - 1 {
            assert(before(x, y));
            law_before_is_total(x, y);
        }
        assert(x == y);
        lemma_entry(b, i);
        assert(a.last() == b.last());
        let c = a.drop_last();
        let d = b.drop_last();
        assert(map_of(c) =~= map_of(a).remove(x)) by {
            lemma_without_last(a);
        }
        assert(map_of(d) =~= map_of(b).remove(y)) by {
            lemma_without_last(b);
        }
        law_listing_is_unique(c, d);
        assert(a =~= c.push(a.last()));
        assert(b =~= d.push(b.last()));
    }
}

proof fn lemma_without_last<T>(e: Pairs<T>)
    requires
        ascending(e),
        e.len() > 0,
    ensures
        map_of(e.drop_last()) =~= map_of(e).remove(e.last().0),
{
    let c = e.drop_last();
    let m = map_of(e).remove(e.last().0);
    assert(ascending(c));
    assert forall|name: Seq<char>| #[trigger]
        map_of(c).contains_key(name) <==> m.contains_key(name) by {
        if has_name(c, name) {
            let i = choose|i: int| 0 <= i < c.len() && (#[trigger] c[i]).0 == name;
            assert(e[i].0 == name);
            if name == e.last().0 {
                lemma_names_differ(e, i, e.len() - 1);
            }
        }
        if has_name(e, name) && name != e.last().0 {
            let i = choose|i: int| 0 <= i < e.len() && (#[trigger] e[i]).0 == name;
            assert(c[i].0 == name);
        }
    }
    assert forall|name: Seq<char>| #[trigger] map_of(c).contains_key(name) implies map_of(c)[name]
        == m[name] by {
        let i = choose|i: int| 0 <= i < c.len() && (#[trigger] c[i]).0 == name;
        lemma_entry(c, i);
        assert(e[i] == c[i]);
        lemma_entry(e, i);
    }
}

proof fn lemma_replaced<T>(e: Pairs<T>, k: int, value: T)
    requires
        ascending(e),
        0 <= k < e.len(),
    ensures
        ascending(e.update(k, (e[k].0, value))),
        map_of(e.update(k, (e[k].0, value))) == map_of(e).insert(e[k].0, value),
{
    let f = e.update(k, (e[k].0, value));
    assert forall|i: int, j: int| 0 <= i < j < f.len() implies before(
        (#[trigger] f[i]).0,
        (#[trigger] f[j]).0,
    ) by {
        assert(before(e[i].0, e[j].0));
    }
    let m = map_of(e).insert(e[k].0, value);
    assert forall|name: Seq<char>| #[trigger]
        map_of(f).contains_key(name) <==> m.contains_key(name) by {
        if has_name(f, name) {
            let i = choose|i: int| 0 <= i < f.len() && (#[trigger] f[i]).0 == name;
            assert(e[i].0 == name);
        }
        if has_name(e, name) {
            let i = choose|i: int| 0 <= i < e.len() && (#[trigger] e[i]).0 == name;
            assert(f[i].0 == name);
        }
        assert(f[k].0 == e[k].0);
    }
    assert forall|name: Seq<char>| #[trigger] map_of(f).contains_key(name) implies map_of(f)[name]
        == m[name] by {
        let i = choose|i: int| 0 <= i < f.len() && (#[trigger] f[i]).0 == name;
        lemma_entry(f, i);
        lemma_entry(e, i);
        if name == e[k].0 {
            lemma_names_differ(e, i, k);
        }
    }
    assert(map_of(f) =~= m);
}

proof fn lemma_inserted<T>(e: Pairs<T>, k: int, name: Seq<char>, value: T)
    requires
        ascending(e),
        0 <= k <= e.len(),
        forall|i: int| 0 <= i < k ==> before((#[trigger] e[i]).0, name),
        k < e.len() ==> !before(e[k].0, name) && e[k].0 != name,
    ensures
        ascending(e.insert(k, (name, value))),
        map_of(e.insert(k, (name, value))) == map_of(e).insert(name, value),
{
    law_text_order_is_total();
    let leq = text_order();
    let f = e.insert(k, (name, value));
    assert forall|i: int, j: int| 0 <= i < j < f.len() implies before(
        (#[trigger] f[i]).0,
        (#[trigger] f[j]).0,
    ) by {
        if i == k {
            assert(leq(name, e[k].0));
            if j - 1 > k {
                assert(before(e[k].0, e[j - 1].0));
                law_before_is_total(e[k].0, e[j - 1].0);
                assert(leq(e[k].0, e[j - 1].0));
                assert(leq(name, e[j - 1].0));
                if e[j - 1].0 == name {
                    assert(leq(e[k].0, name));
                    assert(e[k].0 == name);
                }
            }
            law_before_is_total(name, e[j - 1].0);
        } else if j == k {
            assert(before(e[i].0, name));
        } else {
            let from = if i < k {
                i
            } else {
                i - 1
            };
            let to = if j < k {
                j
            } else {
                j - 1
            };
            assert(before(e[from].0, e[to].0));
        }
    }
    let m = map_of(e).insert(name, value);
    assert forall|n: Seq<char>| #[trigger] map_of(f).contains_key(n) <==> m.contains_key(n) by {
        if has_name(f, n) {
            let i = choose|i: int| 0 <= i < f.len() && (#[trigger] f[i]).0 == n;
            if i < k {
                assert(e[i].0 == n);
            } else if i > k {
                assert(e[i - 1].0 == n);
            }
        }
        if has_name(e, n) {
            let i = choose|i: int| 0 <= i < e.len() && (#[trigger] e[i]).0 == n;
            if i < k {
                assert(f[i].0 == n);
            } else {
                assert(f[i + 1].0 == n);
            }
        }
        assert(f[k].0 == name);
    }
    assert forall|n: Seq<char>| #[trigger] map_of(f).contains_key(n) implies map_of(f)[n]
        == m[n] by {
        let i = choose|i: int| 0 <= i < f.len() && (#[trigger] f[i]).0 == n;
        lemma_entry(f, i);
        if n == name {
            lemma_names_differ(f, i, k);
        } else if i < k {
            lemma_entry(e, i);
        } else {
            lemma_entry(e, i - 1);
        }
    }
    assert(map_of(f) =~= m);
}

proof fn lemma_removed<T>(e: Pairs<T>, k: int)
    requires
        ascending(e),
        0 <= k < e.len(),
    ensures
        ascending(e.remove(k)),
        map_of(e.remove(k)) == map_of(e).remove(e[k].0),
{
    let f = e.remove(k);
    let m = map_of(e).remove(e[k].0);
    assert forall|i: int, j: int| 0 <= i < j < f.len() implies before(
        (#[trigger] f[i]).0,
        (#[trigger] f[j]).0,
    ) by {
        let from = if i < k {
            i
        } else {
            i + 1
        };
        let to = if j < k {
            j
        } else {
            j + 1
        };
        assert(before(e[from].0, e[to].0));
    }
    assert forall|n: Seq<char>| #[trigger] map_of(f).contains_key(n) <==> m.contains_key(n) by {
        if has_name(f, n) {
            let i = choose|i: int| 0 <= i < f.len() && (#[trigger] f[i]).0 == n;
            let from = if i < k {
                i
            } else {
                i + 1
            };
            assert(e[from].0 == n);
            if n == e[k].0 {
                lemma_names_differ(e, from, k);
            }
        }
        if has_name(e, n) && n != e[k].0 {
            let i = choose|i: int| 0 <= i < e.len() && (#[trigger] e[i]).0 == n;
            if i < k {
                assert(f[i].0 == n);
            } else {
                assert(f[i - 1].0 == n);
            }
        }
    }
    assert forall|n: Seq<char>| #[trigger] map_of(f).contains_key(n) implies map_of(f)[n]
        == m[n] by {
        let i = choose|i: int| 0 <= i < f.len() && (#[trigger] f[i]).0 == n;
        lemma_entry(f, i);
        if i < k {
            lemma_entry(e, i);
        } else {
            lemma_entry(e, i + 1);
        }
    }
    assert(map_of(f) =~= m);
}

/// How many of the first entries `e[i..]`, together with the `i` before them, stand
/// before `name`.
spec fn place_of<T>(e: Pairs<T>, name: Seq<char>, i: nat) -> nat
    decreases e.len() - i,
{
    if i < e.len() && before(e[i as int].0, name) {
        place_of(e, name, i + 1)
    } else {
        i
    }
}

proof fn lemma_place<T>(e: Pairs<T>, name: Seq<char>, i: nat)
    requires
        i <= e.len(),
        forall|j: int| 0 <= j < i ==> before((#[trigger] e[j]).0, name),
    ensures
        i <= place_of(e, name, i) <= e.len(),
        forall|j: int| 0 <= j < place_of(e, name, i) ==> before((#[trigger] e[j]).0, name),
        place_of(e, name, i) < e.len() ==> !before(e[place_of(e, name, i) as int].0, name),
    decreases e.len() - i,
{
    if i < e.len() && before(e[i as int].0, name) {
        lemma_place(e, name, i + 1);
    }
}

/// Every finite map has a listing: its names ascend, and it holds each entry of the
/// map and nothing else.
pub proof fn law_listing_lists_the_map<T>(m: Map<Seq<char>, T>)
    requires
        m.dom().finite(),
    ensures
        ascending(listing(m)),
        map_of(listing(m)) == m,
    decreases m.dom().len(),
{
    if m.dom().len() == 0 {
        let e = Seq::<(Seq<char>, T)>::empty();
        assert(m.dom() =~= Set::empty());
        assert(map_of(e) =~= m);
        assert(ascending(e));
    } else {
        let name = m.dom().choose();
        let rest = m.remove(name);
        law_listing_lists_the_map(rest);
        let e = listing(rest);
        lemma_place(e, name, 0);
        let k = place_of(e, name, 0);
        if k < e.len() {
            lemma_entry(e, k as int);
        }
        lemma_inserted(e, k as int, name, m[name]);
        let f = e.insert(k as int, (name, m[name]));
        assert(map_of(f) =~= m);
        assert(ascending(f));
    }
}

/// A listing has as many entries as the map has names.
pub proof fn lemma_listing_len<T>(m: Map<Seq<char>, T>)
    requires
        m.dom().finite(),
    ensures
        listing(m).len() == m.dom().len(),
    decreases m.dom().len(),
{
    law_listing_lists_the_map(m);
    let e = listing(m);
    if e.len() == 0 {
        assert(m.dom() =~= Set::empty()) by {
            assert forall|name: Seq<char>| !m.dom().contains(name) by {
                assert(m.contains_key(name) == has_name(e, name));
            }
        }
    } else {
        let last = e.last().0;
        lemma_without_last(e);
        lemma_entry(e, e.len() - 1);
        let rest = m.remove(last);
        law_listing_lists_the_map(rest);
        assert(ascending(e.drop_last()));
        law_listing_is_unique(e.drop_last(), listing(rest));
        assert(rest.dom() =~= m.dom().remove(last));
        lemma_listing_len(rest);
    }
}

/// The map of one more entry.
pub proof fn lemma_next_entry<T>(e: Pairs<T>, k: int)
    requires
        ascending(e),
        0 <= k < e.len(),
    ensures
        map_of(e.take(k + 1)) == map_of(e.take(k)).insert(e[k].0, e[k].1),
{
    let now = e.take(k + 1);
    assert(ascending(now));
    assert(now.drop_last() =~= e.take(k));
    lemma_without_last(now);
    lemma_entry(now, k);
    assert(map_of(now) =~= map_of(e.take(k)).insert(e[k].0, e[k].1));
}

/// A map from names to values.
#[derive(Debug)]
pub struct TextMap<V: View> {
    entries: Vec<(String, V)>,
}

/// The entries by their views.
pub open spec fn entry_views<V: View>(v: Seq<(String, V)>) -> Pairs<V::V> {
    v.map_values(|p: (String, V)| (p.0@, p.1@))
}

impl<V: View> TextMap<V> {
    #[verifier::type_invariant]
    spec fn inv(self) -> bool {
        ascending(entry_views(self.entries@))
    }
}

impl<V: View> View for TextMap<V> {
    type V = Map<Seq<char>, V::V>;

    closed spec fn view(&self) -> Map<Seq<char>, V::V> {
        map_of(entry_views(self.entries@))
    }
}

impl<V: View> TextMap<V> {
    /// The map without entries.
    pub fn new() -> (m: TextMap<V>)
        ensures
            m@ == Map::<Seq<char>, V::V>::empty(),
    {
        let entries: Vec<(String, V)> = Vec::new();
        assert(entry_views(entries@) =~= Seq::empty());
        let m = TextMap { entries };
        assert(m@ =~= Map::<Seq<char>, V::V>::empty());
        m
    }

    /// Number of entries.
    pub fn len(&self) -> (n: usize)
        ensures
            n == listing(self@).len(),
            ascending(listing(self@)),
            map_of(listing(self@)) == self@,
    {
        proof {
            use_type_invariant(self);
            let e = entry_views(self.entries@);
            law_listing_is_unique(e, listing(map_of(e)));
        }
        self.entries.len()
    }

    /// The name with number `i`, in the order of the names.
    pub fn name_at(&self, i: usize) -> (name: &str)
        requires
            i < listing(self@).len(),
        ensures
            name@ == listing(self@)[i as int].0,
            self@.contains_key(name@),
    {
        proof {
            use_type_invariant(self);
            let e = entry_views(self.entries@);
            law_listing_is_unique(e, listing(map_of(e)));
            lemma_entry(e, i as int);
        }
        self.entries[i].0.as_str()
    }

    /// The value with number `i`, in the order of the names.
    pub fn value_at(&self, i: usize) -> (value: &V)
        requires
            i < listing(self@).len(),
        ensures
            value@ == listing(self@)[i as int].1,
            value@ == self@[listing(self@)[i as int].0],
    {
        proof {
            use_type_invariant(self);
            let e = entry_views(self.entries@);
            law_listing_is_unique(e, listing(map_of(e)));
            lemma_entry(e, i as int);
        }
        &self.entries[i].1
    }

    /// Sets the value of `name`, in place of an earlier one.
    pub fn set(&mut self, name: &str, value: V)
        ensures
            final(self)@ == old(self)@.insert(name@, value@),
    {
        proof {
            use_type_invariant(&*self);
        }
        let mut entries: Vec<(String, V)> = Vec::new();
        std::mem::swap(&mut entries, &mut self.entries);
        let ghost e = entry_views(entries@);
        let mut k: usize = 0;
        while k < entries.len() && stands_before(entries[k].0.as_str(), name)
            invariant
                k <= entries@.len(),
                e == entry_views(entries@),
                forall|i: int| 0 <= i < k ==> before((#[trigger] e[i]).0, name@),
            decreases entries.len() - k,
        {
            assert(e[k as int].0 == entries@[k as int].0@);
            k = k + 1;
        }
        let pair = (name.to_owned(), value);
        if k < entries.len() && same(entries[k].0.as_str(), name) {
            assert(e[k as int].0 == name@);
            entries.set(k, pair);
            proof {
                assert(entry_views(entries@) =~= e.update(k as int, (name@, value@)));
                lemma_replaced(e, k as int, value@);
            }
        } else {
            entries.insert(k, pair);
            proof {
                assert(entry_views(entries@) =~= e.insert(k as int, (name@, value@)));
                if k < e.len() {
                    assert(e[k as int].0 == old(self).entries@[k as int].0@);
                }
                lemma_inserted(e, k as int, name@, value@);
            }
        }
        self.entries = entries;
    }

    fn position(&self, name: &str) -> (r: Option<usize>)
        ensures
            match r {
                Some(k) => k < self.entries@.len() && self.entries@[k as int].0@ == name@,
                None => !has_name(entry_views(self.entries@), name@),
            },
    {
        let ghost e = entry_views(self.entries@);
        let mut k: usize = 0;
        while k < self.entries.len()
            invariant
                k <= self.entries@.len(),
                e == entry_views(self.entries@),
                forall|i: int| 0 <= i < k ==> (#[trigger] e[i]).0 != name@,
            decreases self.entries.len() - k,
        {
            assert(e[k as int].0 == self.entries@[k as int].0@);
            if same(self.entries[k].0.as_str(), name) {
                return Some(k);
            }
            k = k + 1;
        }
        None
    }

    /// The value of `name`.
    pub fn get(&self, name: &str) -> (r: Option<&V>)
        ensures
            match r {
                Some(value) => self@.contains_key(name@) && self@[name@] == value@,
                None => !self@.contains_key(name@),
            },
            ascending(listing(self@)),
            map_of(listing(self@)) == self@,
    {
        proof {
            use_type_invariant(self);
            let e = entry_views(self.entries@);
            law_listing_is_unique(e, listing(map_of(e)));
        }
        match self.position(name) {
            Some(k) => {
                proof {
                    lemma_entry(entry_views(self.entries@), k as int);
                }
                Some(&self.entries[k].1)
            },
            None => None,
        }
    }

    /// Takes the entry of `name` out.
    pub fn remove(&mut self, name: &str) -> (r: Option<V>)
        ensures
            final(self)@ == old(self)@.remove(name@),
            match r {
                Some(value) => old(self)@.contains_key(name@) && old(self)@[name@] == value@,
                None => !old(self)@.contains_key(name@),
            },
    {
        proof {
            use_type_invariant(&*self);
        }
        match self.position(name) {
            Some(k) => {
                let mut entries: Vec<(String, V)> = Vec::new();
                std::mem::swap(&mut entries, &mut self.entries);
                let ghost e = entry_views(entries@);
                proof {
                    lemma_entry(e, k as int);
                    lemma_removed(e, k as int);
                }
                let pair = entries.remove(k);
                assert(entry_views(entries@) =~= e.remove(k as int));
                self.entries = entries;
                Some(pair.1)
            },
            None => {
                assert(self@ =~= self@.remove(name@));
                None
            },
        }
    }
}

} // verus!
