//! A map from names to values that is walked in the order of the names.
use crate::text;
use vstd::prelude::*;

verus! {

/// Each name comes before the names that follow it.
pub open spec fn increasing(names: Seq<Seq<char>>) -> bool {
    forall|i: int, j: int| 0 <= i < j < names.len() ==> text::text_less(names[i], names[j])
}

/// Names at different places of an order are different.
proof fn names_differ(names: Seq<Seq<char>>, i: int, j: int)
    requires
        increasing(names),
        0 <= i < names.len(),
        0 <= j < names.len(),
        i != j,
    ensures
        names[i] != names[j],
{
    text::text_less_irreflexive(names[i]);
}

/// A map from names to values. Its two lists hold the entries in the order of the names.
pub struct OrderedMap<V> {
    names: Vec<String>,
    values: Vec<V>,
}

impl<V> View for OrderedMap<V> {
    type V = Map<Seq<char>, V>;

    closed spec fn view(&self) -> Map<Seq<char>, V> {
        Map::new(
            |k: Seq<char>| self.keys().contains(k),
            |k: Seq<char>| self.values@[self.keys().index_of(k)],
        )
    }
}

impl<V> OrderedMap<V> {
    /// The names, in the order in which they are walked.
    pub closed spec fn keys(&self) -> Seq<Seq<char>> {
        text::texts(self.names@)
    }

    /// Each name stands once, in order, with its value.
    pub closed spec fn wf(&self) -> bool {
        &&& self.names@.len() == self.values@.len()
        &&& increasing(self.keys())
    }

    /// The names are walked in order, and they are those of the map.
    pub proof fn keys_in_order(&self)
        requires
            self.wf(),
        ensures
            increasing(self.keys()),
            forall|k: Seq<char>| self@.dom().contains(k) <==> self.keys().contains(k),
            forall|i: int|
                0 <= i < self.keys().len() ==> self@.dom().contains(#[trigger] self.keys()[i]),
    {
    }

    proof fn value_at(&self, i: int)
        requires
            self.wf(),
            0 <= i < self.keys().len(),
        ensures
            self@.dom().contains(self.keys()[i]),
            self@[self.keys()[i]] == self.values@[i],
    {
        let j = self.keys().index_of(self.keys()[i]);
        if j != i {
            names_differ(self.keys(), i, j);
        }
    }

    /// The map without entries.
    pub fn new() -> (r: Self)
        ensures
            r.wf(),
            r@ == Map::<Seq<char>, V>::empty(),
            r.keys() == Seq::<Seq<char>>::empty(),
    {
        let r = OrderedMap { names: Vec::new(), values: Vec::new() };
        assert(r.keys() =~= Seq::<Seq<char>>::empty());
        assert(r@ =~= Map::<Seq<char>, V>::empty());
        r
    }

    /// The number of entries.
    pub fn len(&self) -> (r: usize)
        ensures
            r == self.keys().len(),
    {
        self.names.len()
    }

    /// The name at place `i` of the order.
    pub fn key(&self, i: usize) -> (r: &str)
        requires
            i < self.keys().len(),
        ensures
            r@ == self.keys()[i as int],
    {
        self.names[i].as_str()
    }

    /// The value of the name at place `i` of the order.
    pub fn value(&self, i: usize) -> (r: &V)
        requires
            self.wf(),
            i < self.keys().len(),
        ensures
            *r == self@[self.keys()[i as int]],
    {
        proof {
            self.value_at(i as int);
        }
        &self.values[i]
    }

    /// The number of names that come before `key`.
    fn place(&self, key: &str) -> (p: usize)
        requires
            self.wf(),
        ensures
            p <= self.names@.len(),
            forall|j: int| 0 <= j < p ==> text::text_less(#[trigger] self.keys()[j], key@),
            forall|j: int|
                p <= j < self.names@.len() ==> !text::text_less(#[trigger] self.keys()[j], key@),
    {
        let mut lo: usize = 0;
        let mut hi: usize = self.names.len();
        while lo < hi
            invariant
                self.wf(),
                lo <= hi <= self.names@.len(),
                forall|j: int| 0 <= j < lo ==> text::text_less(#[trigger] self.keys()[j], key@),
                forall|j: int|
                    hi <= j < self.names@.len() ==> !text::text_less(#[trigger] self.keys()[j], key@),
            decreases hi - lo,
        {
            let mid: usize = lo + (hi - lo) / 2;
            let ghost middle = self.keys()[mid as int];
            if text::comes_before(self.names[mid].as_str(), key) {
                assert forall|j: int| 0 <= j < mid + 1 implies text::text_less(
                    #[trigger] self.keys()[j],
                    key@,
                ) by {
                    if j < mid {
                        text::text_less_transitive(self.keys()[j], middle, key@);
                    }
                }
                lo = mid + 1;
            } else {
                assert forall|j: int| mid <= j < self.names@.len() implies !text::text_less(
                    #[trigger] self.keys()[j],
                    key@,
                ) by {
                    if j > mid && text::text_less(self.keys()[j], key@) {
                        text::text_less_transitive(middle, self.keys()[j], key@);
                    }
                }
                hi = mid;
            }
        }
        lo
    }

    /// The place of `key` in the order, where it has one.
    fn find(&self, key: &str) -> (r: (usize, bool))
        requires
            self.wf(),
        ensures
            r.0 <= self.names@.len(),
            r.1 == self@.dom().contains(key@),
            r.1 ==> r.0 < self.names@.len() && self.keys()[r.0 as int] == key@,
            forall|j: int| 0 <= j < r.0 ==> text::text_less(#[trigger] self.keys()[j], key@),
            !r.1 ==> forall|j: int|
                r.0 <= j < self.names@.len() ==> text::text_less(key@, #[trigger] self.keys()[j]),
    {
        let p = self.place(key);
        if p < self.names.len() && text::same_text(self.names[p].as_str(), key) {
            proof {
                self.value_at(p as int);
            }
            (p, true)
        } else {
            proof {
                text::text_less_irreflexive(key@);
                assert forall|j: int| 0 <= j < self.names@.len() implies self.keys()[j]
                    != key@ by {
                    if j > p && self.keys()[j] == key@ {
                        assert(text::text_less(self.keys()[p as int], self.keys()[j]));
                    }
                }
                assert forall|j: int| p <= j < self.names@.len() implies text::text_less(
                    key@,
                    #[trigger] self.keys()[j],
                ) by {
                    text::text_less_total(key@, self.keys()[j]);
                }
            }
            (p, false)
        }
    }

    /// Whether `key` has a value.
    pub fn contains_key(&self, key: &str) -> (r: bool)
        requires
            self.wf(),
        ensures
            r == self@.dom().contains(key@),
    {
        self.find(key).1
    }

    /// The value of `key`, where it has one.
    pub fn get(&self, key: &str) -> (r: Option<&V>)
        requires
            self.wf(),
        ensures
            match r {
                Some(v) => self@.dom().contains(key@) && *v == self@[key@],
                None => !self@.dom().contains(key@),
            },
    {
        let (p, found) = self.find(key);
        if found {
            proof {
                self.value_at(p as int);
            }
            Some(&self.values[p])
        } else {
            None
        }
    }

    /// Gives `key` the value `value`, in the place of one that it had.
    pub fn insert(&mut self, key: String, value: V)
        requires
            old(self).wf(),
        ensures
            final(self).wf(),
            final(self)@ == old(self)@.insert(key@, value),
    {
        let (p, found) = self.find(key.as_str());
        let ghost before = *self;
        let ghost name = key@;
        if found {
            self.values[p] = value;
            proof {
                assert(self.keys() =~= before.keys());
                self.entries_after(before, name, value, |j: int| j, |i: int| i, p as int);
            }
        } else {
            self.names.insert(p, key);
            self.values.insert(p, value);
            proof {
                assert(self.keys() =~= before.keys().insert(p as int, name));
                self.entries_after(
                    before,
                    name,
                    value,
                    |j: int|
                        if j < p {
                            j
                        } else {
                            j + 1
                        },
                    |i: int|
                        if i < p {
                            i
                        } else {
                            i - 1
                        },
                    p as int,
                );
            }
        }
    }

    /// Where `name` stands in `self` at `p` with `value`, each other place `i` of `self` holds
    /// the entry of `before` at `back(i)`, and the name at each place `j` of `before` stands in
    /// `self` at `moved(j)`, `self` is `before` with the entry of `name` put in.
    proof fn entries_after(
        &self,
        before: Self,
        name: Seq<char>,
        value: V,
        moved: spec_fn(int) -> int,
        back: spec_fn(int) -> int,
        p: int,
    )
        requires
            before.wf(),
            self.wf(),
            0 <= p < self.keys().len(),
            self.keys()[p] == name,
            self.values@[p] == value,
            forall|j: int|
                0 <= j < before.keys().len() ==> 0 <= #[trigger] moved(j) < self.keys().len()
                    && self.keys()[moved(j)] == before.keys()[j],
            forall|i: int|
                0 <= i < self.keys().len() && i != p ==> 0 <= #[trigger] back(i)
                    < before.keys().len() && self.keys()[i] == before.keys()[back(i)]
                    && self.values@[i] == before.values@[back(i)],
        ensures
            self@ == before@.insert(name, value),
    {
        self.value_at(p);
        let after = before@.insert(name, value);
        assert forall|k: Seq<char>| #[trigger] self@.dom().contains(k) implies after.dom().contains(
            k,
        ) && self@[k] == after[k] by {
            let i = self.keys().index_of(k);
            self.value_at(i);
            if i != p {
                before.value_at(back(i));
                names_differ(self.keys(), i, p);
            }
        }
        assert forall|k: Seq<char>| #[trigger] after.dom().contains(k) implies self@.dom().contains(
            k,
        ) by {
            if k != name {
                let j = before.keys().index_of(k);
                assert(self.keys()[moved(j)] == k);
            }
        }
        assert(self@.dom() =~= after.dom());
        assert(self@ =~= after);
    }
}

impl<T> OrderedMap<Vec<T>> {
    /// Puts `item` at the end of the list of `key`, which is empty where `key` had none.
    pub fn push_to(&mut self, key: String, item: T)
        requires
            old(self).wf(),
        ensures
            final(self).wf(),
            final(self)@.dom() == old(self)@.dom().insert(key@),
            final(self)@[key@]@ == (if old(self)@.dom().contains(key@) {
                old(self)@[key@]@
            } else {
                Seq::empty()
            }).push(item),
            forall|k: Seq<char>|
                k != key@ && old(self)@.dom().contains(k) ==> final(self)@[k] == old(self)@[k],
    {
        let (p, found) = self.find(key.as_str());
        let mut list: Vec<T> = Vec::new();
        if found {
            proof {
                self.value_at(p as int);
            }
            let ghost before = *self;
            let old_list = &mut self.values[p];
            std::mem::swap(old_list, &mut list);
            proof {
                assert(self.keys() =~= before.keys());
                self.entries_after(
                    before,
                    key@,
                    self.values@[p as int],
                    |j: int| j,
                    |i: int| i,
                    p as int,
                );
            }
        }
        list.push(item);
        self.insert(key, list);
    }
}

/// Two orders of the same names are the same order.
pub proof fn order_is_determined(a: Seq<Seq<char>>, b: Seq<Seq<char>>)
    requires
        increasing(a),
        increasing(b),
        forall|k: Seq<char>| a.contains(k) <==> b.contains(k),
    ensures
        a == b,
    decreases a.len(),
{
    if a.len() == 0 {
        if b.len() > 0 {
            assert(b.contains(b[0]));
        }
    } else {
        assert(a.contains(a[0]));
        assert(b.len() > 0);
        assert(b.contains(b[0]));
        if a[0] != b[0] {
            let i = a.index_of(b[0]);
            let j = b.index_of(a[0]);
            assert(text::text_less(a[0], a[i]));
            assert(text::text_less(b[0], b[j]));
            text::text_less_transitive(a[0], b[0], a[0]);
            text::text_less_irreflexive(a[0]);
        }
        let x = a.skip(1);
        let y = b.skip(1);
        assert forall|k: Seq<char>| x.contains(k) <==> y.contains(k) by {
            text::text_less_irreflexive(k);
            if x.contains(k) {
                let i = x.index_of(k);
                assert(a[i + 1] == k);
                assert(a.contains(k));
                assert(text::text_less(a[0], a[i + 1]));
                let j = b.index_of(k);
                assert(y[j - 1] == k);
            }
            if y.contains(k) {
                let j = y.index_of(k);
                assert(b[j + 1] == k);
                assert(b.contains(k));
                assert(text::text_less(b[0], b[j + 1]));
                let i = a.index_of(k);
                assert(x[i - 1] == k);
            }
        }
        order_is_determined(x, y);
        assert(a =~= seq![a[0]] + x);
        assert(b =~= seq![b[0]] + y);
    }
}

/// The names of a finite set, in their order.
pub open spec fn in_order(names: Set<Seq<char>>) -> Seq<Seq<char>> {
    choose|list: Seq<Seq<char>>| lists_in_order(list, names)
}

/// `list` has the names of the set, each once, in their order.
pub open spec fn lists_in_order(list: Seq<Seq<char>>, names: Set<Seq<char>>) -> bool {
    &&& increasing(list)
    &&& forall|k: Seq<char>| names.contains(k) <==> #[trigger] list.contains(k)
}

/// A list of the names of a set in their order is the list of its names in their order.
pub proof fn list_is_in_order(list: Seq<Seq<char>>, names: Set<Seq<char>>)
    requires
        lists_in_order(list, names),
    ensures
        in_order(names) == list,
{
    let chosen = in_order(names);
    assert(lists_in_order(chosen, names));
    assert forall|k: Seq<char>| chosen.contains(k) <==> list.contains(k) by {
        assert(chosen.contains(k) <==> names.contains(k));
    }
    order_is_determined(chosen, list);
}

/// The list with `name` at its place in the order.
spec fn put_in(list: Seq<Seq<char>>, name: Seq<char>) -> Seq<Seq<char>>
    decreases list.len(),
{
    if list.len() == 0 {
        seq![name]
    } else if text::text_less(name, list[0]) {
        seq![name] + list
    } else {
        seq![list[0]] + put_in(list.skip(1), name)
    }
}

proof fn put_in_keeps_order(list: Seq<Seq<char>>, name: Seq<char>)
    requires
        increasing(list),
        !list.contains(name),
    ensures
        increasing(put_in(list, name)),
        forall|k: Seq<char>| #[trigger]
            put_in(list, name).contains(k) <==> list.contains(k) || k == name,
    decreases list.len(),
{
    let longer = put_in(list, name);
    if list.len() == 0 {
        assert forall|k: Seq<char>| #[trigger] longer.contains(k) <==> list.contains(k) || k
            == name by {
            assert(longer[0] == name);
        }
    } else if text::text_less(name, list[0]) {
        assert forall|i: int, j: int| 0 <= i < j < longer.len() implies text::text_less(
            longer[i],
            longer[j],
        ) by {
            if i > 0 {
                assert(longer[i] == list[i - 1]);
            }
            assert(longer[j] == list[j - 1]);
            if i == 0 && j > 1 {
                text::text_less_transitive(name, list[0], list[j - 1]);
            }
        }
        assert forall|k: Seq<char>| #[trigger] longer.contains(k) <==> list.contains(k) || k
            == name by {
            if list.contains(k) {
                assert(longer[list.index_of(k) + 1] == k);
            }
            if longer.contains(k) && k != name {
                assert(list[longer.index_of(k) - 1] == k);
            }
            assert(longer[0] == name);
        }
    } else {
        let rest = list.skip(1);
        let tail = put_in(rest, name);
        assert forall|k: Seq<char>| #[trigger] rest.contains(k) implies list.contains(k)
            && text::text_less(list[0], k) by {
            assert(list[rest.index_of(k) + 1] == k);
        }
        assert forall|i: int, j: int| 0 <= i < j < rest.len() implies text::text_less(
            rest[i],
            rest[j],
        ) by {
            assert(text::text_less(list[i + 1], list[j + 1]));
        }
        put_in_keeps_order(rest, name);
        assert(list.contains(list[0]));
        text::text_less_total(name, list[0]);
        assert forall|i: int, j: int| 0 <= i < j < longer.len() implies text::text_less(
            longer[i],
            longer[j],
        ) by {
            assert(longer[j] == tail[j - 1]);
            if i > 0 {
                assert(longer[i] == tail[i - 1]);
            } else {
                assert(tail.contains(tail[j - 1]));
            }
        }
        assert forall|k: Seq<char>| #[trigger] longer.contains(k) <==> list.contains(k) || k
            == name by {
            if longer.contains(k) {
                let i = longer.index_of(k);
                if i > 0 {
                    assert(tail[i - 1] == k);
                    assert(tail.contains(k));
                }
            }
            if list.contains(k) {
                let i = list.index_of(k);
                if i > 0 {
                    assert(rest[i - 1] == k);
                    assert(tail.contains(k));
                    assert(longer[tail.index_of(k) + 1] == k);
                } else {
                    assert(longer[0] == k);
                }
            }
            if k == name {
                assert(tail.contains(k));
                assert(longer[tail.index_of(k) + 1] == k);
            }
        }
    }
}

/// The names of a finite set have an order.
pub proof fn finite_names_have_an_order(names: Set<Seq<char>>)
    requires
        names.finite(),
    ensures
        lists_in_order(in_order(names), names),
    decreases names.len(),
{
    if names.len() == 0 {
        assert(names =~= Set::empty());
        assert(lists_in_order(Seq::empty(), names));
    } else {
        let name = names.choose();
        let fewer = names.remove(name);
        finite_names_have_an_order(fewer);
        let list = in_order(fewer);
        assert(!list.contains(name));
        put_in_keeps_order(list, name);
        assert forall|k: Seq<char>| names.contains(k) <==> #[trigger] put_in(
            list,
            name,
        ).contains(k) by {
            assert(list.contains(k) <==> fewer.contains(k));
        }
        assert(lists_in_order(put_in(list, name), names));
    }
}

/// Names in their order: a set has them all and no others, none stands twice, and of two the
/// first is at its end, or has the smaller character, where they first differ.
pub proof fn names_go_up(list: Seq<Seq<char>>, names: Set<Seq<char>>, i: int, j: int)
    requires
        lists_in_order(list, names),
        0 <= i < j < list.len(),
    ensures
        forall|k: Seq<char>| names.contains(k) <==> exists|i: int|
            0 <= i < list.len() && #[trigger] list[i] == k,
        list[i] != list[j],
        exists|k: int| text::parts_at(list[i], list[j], k),
        in_order(names) == list,
{
    list_is_in_order(list, names);
    assert forall|k: Seq<char>| names.contains(k) <==> exists|i: int|
        0 <= i < list.len() && #[trigger] list[i] == k by {
        assert(names.contains(k) <==> list.contains(k));
    }
    names_differ(list, i, j);
    text::order_is_by_first_difference(list[i], list[j]);
}

} // verus!
