//! The inheritance between the structs of a source file: a struct is a child of the struct
//! that its first field holds, as PostgreSQL derives one kind of node from another.
use crate::items::{Item, StructItem};
use crate::items;
use crate::ordered::OrderedMap;
use crate::text;
use vstd::hash_map::StringHashMap;
use vstd::prelude::*;

verus! {

/// The name of the type of the first field, the last along its path, where there is a first
/// field and its type is a path.
pub open spec fn first_field_type(s: items::StructView) -> Option<Seq<char>> {
    if s.fields.len() > 0 && s.fields[0] is Some && s.fields[0]->0.len() > 0 {
        Some(s.fields[0]->0.last())
    } else {
        None
    }
}

/// The places of the structs among the items, in order.
pub open spec fn struct_places(items: Seq<items::ItemView>) -> Seq<int>
    decreases items.len(),
{
    if items.len() == 0 {
        Seq::empty()
    } else if items.last() is Struct {
        struct_places(items.drop_last()).push(items.len() - 1)
    } else {
        struct_places(items.drop_last())
    }
}

/// The structs among the items, in order.
pub open spec fn structs(items: Seq<items::ItemView>) -> Seq<items::StructView> {
    Seq::new(struct_places(items).len(), |k: int| items[struct_places(items)[k]]->Struct_0)
}

/// The place of the last of the structs that has the name, where there is one.
pub open spec fn offset_of(structs: Seq<items::StructView>, name: Seq<char>) -> Option<int>
    decreases structs.len(),
{
    if structs.len() == 0 {
        None
    } else if structs.last().ident == name {
        Some(structs.len() - 1)
    } else {
        offset_of(structs.drop_last(), name)
    }
}

/// The link that struct `k` makes: from the place that its name stands for to that of the
/// struct that its first field holds.
pub open spec fn link_of(structs: Seq<items::StructView>, k: int) -> Option<(int, int)> {
    match first_field_type(structs[k]) {
        Some(parent) => match (offset_of(structs, structs[k].ident), offset_of(structs, parent)) {
            (Some(c), Some(p)) => Some((c, p)),
            _ => None,
        },
        None => None,
    }
}

/// The links that the first `n` structs make, in order, each from child to parent.
pub open spec fn links(structs: Seq<items::StructView>, n: int) -> Seq<(int, int)>
    decreases n,
{
    if n <= 0 {
        Seq::empty()
    } else {
        match link_of(structs, n - 1) {
            Some(link) => links(structs, n - 1).push(link),
            None => links(structs, n - 1),
        }
    }
}

/// The children that the links give to `p`, in the order of the links.
pub open spec fn children_of(links: Seq<(int, int)>, p: int) -> Seq<int>
    decreases links.len(),
{
    if links.len() == 0 {
        Seq::empty()
    } else if links.last().1 == p {
        children_of(links.drop_last(), p).push(links.last().0)
    } else {
        children_of(links.drop_last(), p)
    }
}

/// The parent that the last link from `c` gives to `c`.
pub open spec fn parent_of(links: Seq<(int, int)>, c: int) -> Option<int>
    decreases links.len(),
{
    if links.len() == 0 {
        None
    } else if links.last().0 == c {
        Some(links.last().1)
    } else {
        parent_of(links.drop_last(), c)
    }
}

/// Places of a table, as mathematical integers.
pub open spec fn offsets(list: Seq<usize>) -> Seq<int> {
    Seq::new(list.len(), |i: int| list[i] as int)
}

/// A node of a graph of structs.
pub struct StructDescriptor<'a> {
    /// The struct itself.
    pub struct_: &'a StructItem,
    /// Its place among the items that the graph was made from.
    pub items_offset: usize,
    /// The place of the struct that its first field holds.
    pub parent: Option<usize>,
    /// The places of the structs whose first field holds this one.
    pub children: Vec<usize>,
}

/// The inheritance between the structs of a list of items.
pub struct StructGraph<'a> {
    /// From the name of a struct to its place among the descriptors.
    pub name_tab: StringHashMap<usize>,
    /// From the place of an item to the place of its descriptor.
    pub item_offset_tab: Vec<Option<usize>>,
    /// The structs, in the order of the items.
    pub descriptors: Vec<StructDescriptor<'a>>,
}

impl StructDescriptor<'_> {
    /// The links of this node are those that `links` gives to place `k`.
    pub open spec fn linked(&self, links: Seq<(int, int)>, k: int) -> bool {
        &&& offsets(self.children@) == children_of(links, k)
        &&& match self.parent {
            Some(p) => parent_of(links, k) == Some(p as int),
            None => parent_of(links, k) is None,
        }
    }
}

/// The table leads from the name of each struct to the last of that name.
pub open spec fn names_places(tab: Map<Seq<char>, usize>, structs: Seq<items::StructView>) -> bool {
    forall|name: Seq<char>|
        match offset_of(structs, name) {
            Some(k) => #[trigger] tab.dom().contains(name) && tab[name] == k,
            None => !tab.dom().contains(name),
        }
}

impl StructGraph<'_> {
    /// What the descriptors say of the structs themselves.
    pub open spec fn structs(&self) -> Seq<items::StructView> {
        Seq::new(self.descriptors@.len(), |k: int| self.descriptors@[k].struct_@)
    }

    /// The tables agree with the structs.
    pub open spec fn wf(&self) -> bool {
        let structs = self.structs();
        &&& names_places(self.name_tab@, structs)
        &&& forall|k: int|
            0 <= k < structs.len() ==> (#[trigger] self.descriptors@[k]).linked(
                links(structs, structs.len() as int),
                k,
            )
    }

    /// The graph is that of the items: one descriptor for each struct, in order.
    pub open spec fn describes(&self, items: Seq<items::ItemView>) -> bool {
        &&& self.structs() == structs(items)
        &&& forall|k: int|
            0 <= k < self.descriptors@.len() ==> (#[trigger] self.descriptors@[k]).items_offset
                == struct_places(items)[k]
        &&& self.item_offset_tab@.len() == items.len()
        &&& forall|i: int|
            0 <= i < items.len() ==> match #[trigger] self.item_offset_tab@[i] {
                Some(k) => k < self.descriptors@.len() && struct_places(items)[k as int] == i,
                None => !(items[i] is Struct),
            }
    }
}

/// What the name of a struct stands for is a struct of that name.
proof fn offset_has_name(structs: Seq<items::StructView>, name: Seq<char>)
    ensures
        offset_of(structs, name) matches Some(k) ==> 0 <= k < structs.len()
            && structs[k].ident == name,
    decreases structs.len(),
{
    if structs.len() > 0 {
        offset_has_name(structs.drop_last(), name);
    }
}

/// The name of each struct stands for a struct.
proof fn name_has_offset(structs: Seq<items::StructView>, k: int)
    requires
        0 <= k < structs.len(),
    ensures
        offset_of(structs, structs[k].ident) matches Some(c) && 0 <= c < structs.len()
            && structs[c].ident == structs[k].ident,
    decreases structs.len(),
{
    if k < structs.len() - 1 {
        name_has_offset(structs.drop_last(), k);
    }
    offset_has_name(structs, structs[k].ident);
}

/// Each place of a struct is the place of one of the items, and it is a struct.
pub proof fn places_are_structs(items: Seq<items::ItemView>)
    ensures
        forall|k: int|
            0 <= k < struct_places(items).len() ==> 0 <= #[trigger] struct_places(items)[k]
                < items.len() && items[struct_places(items)[k]] is Struct,
    decreases items.len(),
{
    if items.len() > 0 {
        places_are_structs(items.drop_last());
    }
}

/// The name of the type of the first field of `s`.
pub fn first_field_name(s: &StructItem) -> (r: Option<&str>)
    ensures
        match r {
            Some(name) => first_field_type(s@) == Some(name@),
            None => first_field_type(s@) is None,
        },
{
    if s.fields.len() == 0 {
        return None;
    }
    match &s.fields[0] {
        Some(path) => {
            assert(s@.fields[0] == Some(text::texts(path@)));
            if path.len() == 0 {
                None
            } else {
                Some(path[path.len() - 1].as_str())
            }
        },
        None => None,
    }
}

impl<'a> StructGraph<'a> {
    /// The graph of the structs among `items`.
    pub fn from_items(items: &'a [Item]) -> (r: StructGraph<'a>)
        ensures
            r.wf(),
            r.describes(items::views(items@)),
    {
        let ghost all = items::views(items@);
        let mut descriptors: Vec<StructDescriptor<'a>> = Vec::new();
        let mut name_tab: StringHashMap<usize> = StringHashMap::new();
        let mut item_offset_tab: Vec<Option<usize>> = Vec::new();
        let mut i: usize = 0;
        while i < items.len()
            invariant
                i <= items@.len(),
                all == items::views(items@),
                descriptors@.len() == struct_places(all.take(i as int)).len(),
                descriptors@.len() <= i,
                forall|k: int|
                    0 <= k < descriptors@.len() ==> {
                        &&& (#[trigger] descriptors@[k]).items_offset == struct_places(
                            all.take(i as int),
                        )[k]
                        &&& 0 <= struct_places(all.take(i as int))[k] < i
                        &&& all[struct_places(all.take(i as int))[k]] == items::ItemView::Struct(
                            descriptors@[k].struct_@,
                        )
                        &&& descriptors@[k].parent is None
                        &&& descriptors@[k].children@.len() == 0
                    },
                names_places(
                    name_tab@,
                    Seq::new(descriptors@.len(), |k: int| descriptors@[k].struct_@),
                ),
                item_offset_tab@.len() == i,
                forall|j: int|
                    0 <= j < i ==> match #[trigger] item_offset_tab@[j] {
                        Some(k) => k < descriptors@.len() && struct_places(
                            all.take(i as int),
                        )[k as int] == j,
                        None => !(all[j] is Struct),
                    },
            decreases items@.len() - i,
        {
            let ghost before = Seq::new(descriptors@.len(), |k: int| descriptors@[k].struct_@);
            assert(all.take(i + 1).drop_last() =~= all.take(i as int));
            assert(all.take(i + 1).last() == all[i as int]);
            if let Item::Struct(struct_) = &items[i] {
                let next_offset: usize = descriptors.len();
                descriptors.push(
                    StructDescriptor {
                        struct_,
                        items_offset: i,
                        parent: None,
                        children: Vec::new(),
                    },
                );
                name_tab.insert(struct_.ident.clone(), next_offset);
                item_offset_tab.push(Some(next_offset));
                proof {
                    let after = Seq::new(descriptors@.len(), |k: int| descriptors@[k].struct_@);
                    assert(after.drop_last() =~= before);
                    assert(after.last().ident == struct_.ident@);
                }
            } else {
                item_offset_tab.push(None);
            }
            i += 1;
        }
        assert(all.take(i as int) =~= all);
        let ghost structs_ = structs(all);
        let ghost table = Seq::new(descriptors@.len(), |k: int| descriptors@[k].struct_@);
        assert(table =~= structs_);
        let count: usize = descriptors.len();
        assert forall|k: int| 0 <= k < count implies (#[trigger] descriptors@[k]).linked(
            links(structs_, 0),
            k,
        ) by {
            assert(descriptors@[k].items_offset == struct_places(all)[k]);
            assert(offsets(descriptors@[k].children@) =~= children_of(links(structs_, 0), k));
        }
        let mut n: usize = 0;
        while n < count
            invariant
                n <= count == descriptors@.len() == structs_.len(),
                names_places(name_tab@, structs_),
                forall|k: int|
                    0 <= k < count ==> {
                        &&& (#[trigger] descriptors@[k]).items_offset == struct_places(all)[k]
                        &&& descriptors@[k].struct_@ == structs_[k]
                        &&& descriptors@[k].linked(links(structs_, n as int), k)
                    },
            decreases count - n,
        {
            let struct_: &'a StructItem = descriptors[n].struct_;
            let ghost earlier = links(structs_, n as int);
            if let Some(parent) = first_field_name(struct_) {
                if let Some(p) = name_tab.get(parent) {
                    let parent_offset: usize = *p;
                    proof {
                        name_has_offset(structs_, n as int);
                        offset_has_name(structs_, parent@);
                        assert(name_tab@.dom().contains(struct_.ident@));
                    }
                    if let Some(c) = name_tab.get(struct_.ident.as_str()) {
                        let child_offset: usize = *c;
                        let ghost before = descriptors@;
                        descriptors[child_offset].parent = Some(parent_offset);
                        descriptors[parent_offset].children.push(child_offset);
                        proof {
                            let later = links(structs_, n + 1);
                            assert(later.drop_last() =~= earlier);
                            assert forall|k: int| 0 <= k < count implies (
                            #[trigger] descriptors@[k]).linked(later, k) && descriptors@[k].struct_
                                == before[k].struct_ && descriptors@[k].items_offset
                                == before[k].items_offset by {
                                assert(before[k].linked(earlier, k));
                                assert(offsets(descriptors@[k].children@) =~= children_of(
                                    later,
                                    k,
                                ));
                            }
                        }
                    }
                }
            }
            n += 1;
        }
        let r = StructGraph { name_tab, item_offset_tab, descriptors };
        assert(r.structs() =~= structs_);
        r
    }
}

/// Struct `c` is a child of struct `p`.
pub open spec fn is_child(structs: Seq<items::StructView>, p: int, c: int) -> bool {
    links(structs, structs.len() as int).contains((c, p))
}

/// `path` leads from its first struct to its last, each time from a struct to one of its
/// children, and after the first meets no name of `seen`.
pub open spec fn descends(
    structs: Seq<items::StructView>,
    seen: Set<Seq<char>>,
    path: Seq<int>,
) -> bool {
    &&& path.len() > 0
    &&& forall|i: int| 0 <= i < path.len() ==> 0 <= #[trigger] path[i] < structs.len()
    &&& forall|i: int|
        #![trigger path[i]]
        1 <= i < path.len() ==> is_child(structs, path[i - 1], path[i]) && !seen.contains(
            structs[path[i]].ident,
        )
}

/// The names of the structs that a path leads to from `node` past no name of `seen`.
pub open spec fn names_below(
    structs: Seq<items::StructView>,
    node: int,
    seen: Set<Seq<char>>,
) -> Set<Seq<char>> {
    Set::new(
        |name: Seq<char>|
            exists|path: Seq<int>| #[trigger]
                descends(structs, seen, path) && path[0] == node && structs[path.last()].ident
                    == name,
    )
}

/// The number of structs whose name is not in `seen`.
pub closed spec fn unseen(structs: Seq<items::StructView>, seen: Set<Seq<char>>) -> nat
    decreases structs.len(),
{
    if structs.len() == 0 {
        0
    } else {
        unseen(structs.drop_last(), seen) + if seen.contains(structs.last().ident) {
            0nat
        } else {
            1nat
        }
    }
}

proof fn unseen_shrinks(structs: Seq<items::StructView>, less: Set<Seq<char>>, more: Set<Seq<char>>)
    requires
        less.subset_of(more),
    ensures
        unseen(structs, more) <= unseen(structs, less),
    decreases structs.len(),
{
    if structs.len() > 0 {
        unseen_shrinks(structs.drop_last(), less, more);
    }
}

proof fn unseen_shrinks_by_one(
    structs: Seq<items::StructView>,
    less: Set<Seq<char>>,
    more: Set<Seq<char>>,
    k: int,
)
    requires
        less.subset_of(more),
        0 <= k < structs.len(),
        !less.contains(structs[k].ident),
        more.contains(structs[k].ident),
    ensures
        unseen(structs, more) < unseen(structs, less),
    decreases structs.len(),
{
    if k == structs.len() - 1 {
        unseen_shrinks(structs.drop_last(), less, more);
    } else {
        unseen_shrinks_by_one(structs.drop_last(), less, more, k);
    }
}

/// A struct that has a child, and the child, are each what their name stands for.
proof fn links_join_named(structs: Seq<items::StructView>, n: int, link: (int, int))
    requires
        n <= structs.len(),
        links(structs, n).contains(link),
    ensures
        0 <= link.0 < structs.len(),
        0 <= link.1 < structs.len(),
        offset_of(structs, structs[link.0].ident) == Some(link.0),
        offset_of(structs, structs[link.1].ident) == Some(link.1),
    decreases n,
{
    if n > 0 {
        let earlier = links(structs, n - 1);
        match link_of(structs, n - 1) {
            Some(last) => {
                let i = links(structs, n).index_of(link);
                if i < earlier.len() {
                    assert(earlier[i] == link);
                    links_join_named(structs, n - 1, link);
                } else {
                    offset_has_name(structs, structs[n - 1].ident);
                    offset_has_name(structs, first_field_type(structs[n - 1])->0);
                }
            },
            None => {
                links_join_named(structs, n - 1, link);
            },
        }
    }
}

/// The list of children holds the children.
proof fn children_are_linked(links: Seq<(int, int)>, p: int)
    ensures
        forall|c: int| children_of(links, p).contains(c) <==> #[trigger] links.contains((c, p)),
    decreases links.len(),
{
    if links.len() > 0 {
        let earlier = links.drop_last();
        children_are_linked(earlier, p);
        assert forall|c: int|
            children_of(links, p).contains(c) <==> #[trigger] links.contains((c, p)) by {
            let list = children_of(links, p);
            if list.contains(c) {
                let i = list.index_of(c);
                if i < children_of(earlier, p).len() {
                    assert(children_of(earlier, p)[i] == c);
                    assert(earlier.contains((c, p)));
                    let j = earlier.index_of((c, p));
                    assert(links[j] == (c, p));
                } else {
                    assert(links[links.len() - 1] == (c, p));
                }
            }
            if links.contains((c, p)) {
                let j = links.index_of((c, p));
                if j < earlier.len() {
                    assert(earlier[j] == (c, p));
                    assert(earlier.contains((c, p)));
                    assert(children_of(earlier, p).contains(c));
                    let i = children_of(earlier, p).index_of(c);
                    assert(list[i] == c);
                } else {
                    assert(list[list.len() - 1] == c);
                }
            }
        }
    }
}

/// The children of one struct, one after the other.
pub struct StructDescriptorChildren<'a> {
    pub offset: usize,
    pub descriptor: &'a StructDescriptor<'a>,
}

impl<'a> StructDescriptor<'a> {
    /// The children of this struct, from the first on.
    pub fn children(&'a self) -> (r: StructDescriptorChildren<'a>)
        ensures
            r.offset == 0,
            r.descriptor == self,
    {
        StructDescriptorChildren { offset: 0, descriptor: self }
    }
}

impl StructDescriptorChildren<'_> {
    /// The place of the next child in the table of descriptors.
    pub fn next(&mut self) -> (r: Option<usize>)
        ensures
            final(self).descriptor == old(self).descriptor,
            match r {
                Some(k) => {
                    &&& old(self).offset < old(self).descriptor.children@.len()
                    &&& k == old(self).descriptor.children@[old(self).offset as int]
                    &&& final(self).offset == old(self).offset + 1
                },
                None => {
                    &&& old(self).offset >= old(self).descriptor.children@.len()
                    &&& final(self).offset == old(self).offset
                },
            },
    {
        if self.offset >= self.descriptor.children.len() {
            None
        } else {
            let k: usize = self.descriptor.children[self.offset];
            self.offset += 1;
            Some(k)
        }
    }
}

/// What a walk through the children of `node` has met so far: everything in `now` that was
/// not in `before` is below `node`, and with each such struct its children are in `now`.
spec fn walked(
    structs: Seq<items::StructView>,
    node: int,
    before: Set<Seq<char>>,
    now: Set<Seq<char>>,
) -> bool {
    &&& before.subset_of(now)
    &&& forall|name: Seq<char>| #[trigger]
        now.contains(name) && !before.contains(name) ==> names_below(
            structs,
            node,
            before,
        ).contains(name)
    &&& forall|v: int, c: int| #[trigger]
        is_child(structs, v, c) && now.contains(structs[v].ident) && !before.contains(
            structs[v].ident,
        ) ==> now.contains(structs[c].ident)
}

/// A walk that has gone on below a child is still a walk below the parent.
proof fn walk_goes_on(
    structs: Seq<items::StructView>,
    node: int,
    child: int,
    before: Set<Seq<char>>,
    now: Set<Seq<char>>,
    after: Set<Seq<char>>,
)
    requires
        0 <= node < structs.len(),
        is_child(structs, node, child),
        walked(structs, node, before, now),
        !now.contains(structs[child].ident),
        after == now.union(names_below(structs, child, now.insert(structs[child].ident))),
    ensures
        walked(structs, node, before, after),
        after.contains(structs[child].ident),
{
    let met = now.insert(structs[child].ident);
    links_join_named(structs, structs.len() as int, (child, node));
    assert(descends(structs, met, seq![child]));
    assert(names_below(structs, child, met).contains(structs[child].ident));
    assert forall|name: Seq<char>| #[trigger]
        after.contains(name) && !before.contains(name) implies names_below(
        structs,
        node,
        before,
    ).contains(name) by {
        if !now.contains(name) {
            let path = choose|path: Seq<int>| #[trigger]
                descends(structs, met, path) && path[0] == child && structs[path.last()].ident
                    == name;
            let longer = seq![node] + path;
            assert forall|i: int| #![trigger longer[i]] 1 <= i < longer.len() implies is_child(
                structs,
                longer[i - 1],
                longer[i],
            ) && !before.contains(structs[longer[i]].ident) by {
                assert(longer[i] == path[i - 1]);
                if i > 1 {
                    assert(longer[i - 1] == path[i - 2]);
                }
            }
            assert(descends(structs, before, longer));
            assert(longer.last() == path.last());
        }
    }
    assert forall|v: int, c: int| #[trigger]
        is_child(structs, v, c) && after.contains(structs[v].ident) && !before.contains(
            structs[v].ident,
        ) implies after.contains(structs[c].ident) by {
        links_join_named(structs, structs.len() as int, (c, v));
        if !now.contains(structs[v].ident) {
            let path = choose|path: Seq<int>| #[trigger]
                descends(structs, met, path) && path[0] == child && structs[path.last()].ident
                    == structs[v].ident;
            let w = path.last();
            if path.len() > 1 {
                assert(is_child(structs, path[path.len() - 2], path[path.len() - 1]));
                links_join_named(structs, structs.len() as int, (w, path[path.len() - 2]));
            }
            assert(w == v);
            if !met.contains(structs[c].ident) {
                let longer = path.push(c);
                assert forall|i: int| #![trigger longer[i]] 1 <= i < longer.len() implies is_child(
                    structs,
                    longer[i - 1],
                    longer[i],
                ) && !met.contains(structs[longer[i]].ident) by {
                    if i < path.len() {
                        assert(longer[i] == path[i]);
                        assert(longer[i - 1] == path[i - 1]);
                    }
                }
                assert(descends(structs, met, longer));
                assert(longer.last() == c);
            }
        }
    }
}

/// A walk that has met all children of `node` has met everything below it.
proof fn walk_is_complete(
    structs: Seq<items::StructView>,
    node: int,
    before: Set<Seq<char>>,
    now: Set<Seq<char>>,
)
    requires
        0 <= node < structs.len(),
        before.contains(structs[node].ident),
        walked(structs, node, before, now),
        forall|c: int| #[trigger] is_child(structs, node, c) ==> now.contains(structs[c].ident),
    ensures
        now == before.union(names_below(structs, node, before)),
{
    let below = names_below(structs, node, before);
    assert forall|name: Seq<char>| #[trigger] below.contains(name) implies now.contains(name) by {
        let path = choose|path: Seq<int>| #[trigger]
            descends(structs, before, path) && path[0] == node && structs[path.last()].ident
                == name;
        path_is_met(structs, node, before, now, path, path.len() - 1);
    }
    assert(now =~= before.union(below));
}

proof fn path_is_met(
    structs: Seq<items::StructView>,
    node: int,
    before: Set<Seq<char>>,
    now: Set<Seq<char>>,
    path: Seq<int>,
    i: int,
)
    requires
        0 <= node < structs.len(),
        before.contains(structs[node].ident),
        walked(structs, node, before, now),
        forall|c: int| #[trigger] is_child(structs, node, c) ==> now.contains(structs[c].ident),
        descends(structs, before, path),
        path[0] == node,
        0 <= i < path.len(),
    ensures
        now.contains(structs[path[i]].ident),
    decreases i,
{
    if i > 0 {
        path_is_met(structs, node, before, now, path, i - 1);
        assert(is_child(structs, path[i - 1], path[i]));
        if i > 1 {
            assert(!before.contains(structs[path[i - 1]].ident));
        }
    }
}

/// Adds to `node_set` the name of the struct at `node` and the names of the structs below it
/// that a path leads to without meeting a name that was there before.
pub fn dfs_find_nodes(node: usize, graph: &StructGraph, node_set: &mut OrderedMap<()>)
    requires
        graph.wf(),
        node < graph.descriptors@.len(),
        old(node_set).wf(),
    ensures
        final(node_set).wf(),
        final(node_set)@.dom() == old(node_set)@.dom().union(
            names_below(
                graph.structs(),
                node as int,
                old(node_set)@.dom().insert(graph.structs()[node as int].ident),
            ),
        ),
    decreases
        unseen(
            graph.structs(),
            old(node_set)@.dom().insert(graph.structs()[node as int].ident),
        ),
{
    let ghost structs_ = graph.structs();
    let ghost all = links(structs_, structs_.len() as int);
    let descriptor = &graph.descriptors[node];
    let ghost before = node_set@.dom().insert(structs_[node as int].ident);
    node_set.insert(descriptor.struct_.ident.clone(), ());
    assert(node_set@.dom() =~= before);
    assert(descriptor.linked(all, node as int));
    proof {
        children_are_linked(all, node as int);
    }
    let mut children = descriptor.children();
    loop
        invariant
            graph.wf(),
            node_set.wf(),
            structs_ == graph.structs(),
            all == links(structs_, structs_.len() as int),
            node < structs_.len(),
            children.descriptor == descriptor,
            children.offset <= descriptor.children@.len(),
            offsets(descriptor.children@) == children_of(all, node as int),
            forall|c: int|
                children_of(all, node as int).contains(c) <==> #[trigger] all.contains(
                    (c, node as int),
                ),
            walked(structs_, node as int, before, node_set@.dom()),
            before == old(node_set)@.dom().insert(structs_[node as int].ident),
            forall|j: int|
                0 <= j < children.offset ==> node_set@.dom().contains(
                    structs_[#[trigger] descriptor.children@[j] as int].ident,
                ),
        ensures
            children.offset == descriptor.children@.len(),
        decreases descriptor.children@.len() - children.offset,
    {
        let child: usize = match children.next() {
            Some(child) => child,
            None => {
                break;
            },
        };
        let ghost now = node_set@.dom();
        proof {
            assert(offsets(descriptor.children@)[children.offset - 1] == child);
            assert(children_of(all, node as int).contains(child as int));
            assert(all.contains((child as int, node as int)));
            links_join_named(structs_, structs_.len() as int, (child as int, node as int));
        }
        if !node_set.contains_key(graph.descriptors[child].struct_.ident.as_str()) {
            proof {
                unseen_shrinks_by_one(
                    structs_,
                    before,
                    now.insert(structs_[child as int].ident),
                    child as int,
                );
            }
            dfs_find_nodes(child, graph, node_set);
            proof {
                walk_goes_on(
                    structs_,
                    node as int,
                    child as int,
                    before,
                    now,
                    node_set@.dom(),
                );
            }
        }
    }
    proof {
        assert forall|c: int| #[trigger]
            is_child(structs_, node as int, c) implies node_set@.dom().contains(
            structs_[c].ident,
        ) by {
            assert(all.contains((c, node as int)));
            let j = offsets(descriptor.children@).index_of(c);
            assert(descriptor.children@[j] as int == c);
        }
        walk_is_complete(structs_, node as int, before, node_set@.dom());
        assert(descends(structs_, before, seq![node as int]));
        assert(names_below(structs_, node as int, before).contains(structs_[node as int].ident));
        assert(node_set@.dom() =~= old(node_set)@.dom().union(
            names_below(structs_, node as int, before),
        ));
    }
}

/// No two of the structs have the same name.
pub open spec fn distinct(structs: Seq<items::StructView>) -> bool {
    forall|i: int, j: int|
        0 <= i < j < structs.len() ==> structs[i].ident != structs[j].ident
}

/// Where no two structs have the same name, a name stands for the struct that has it.
proof fn name_stands_for_itself(structs: Seq<items::StructView>, k: int)
    requires
        distinct(structs),
        0 <= k < structs.len(),
    ensures
        offset_of(structs, structs[k].ident) == Some(k),
{
    name_has_offset(structs, k);
}

/// Each link is made by one of the structs.
proof fn link_has_maker(structs: Seq<items::StructView>, n: int, link: (int, int))
    requires
        links(structs, n).contains(link),
    ensures
        exists|k: int| 0 <= k < n && #[trigger] link_of(structs, k) == Some(link),
    decreases n,
{
    if n > 0 {
        let i = links(structs, n).index_of(link);
        if link_of(structs, n - 1) != Some(link) {
            assert(links(structs, n - 1)[i] == link);
            link_has_maker(structs, n - 1, link);
        }
    }
}

/// Each struct makes its link.
proof fn maker_has_link(structs: Seq<items::StructView>, n: int, k: int)
    requires
        0 <= k < n,
        link_of(structs, k) is Some,
    ensures
        links(structs, n).contains(link_of(structs, k)->0),
    decreases n,
{
    let all = links(structs, n);
    if k == n - 1 {
        assert(all[all.len() - 1] == link_of(structs, k)->0);
    } else {
        maker_has_link(structs, n - 1, k);
        let i = links(structs, n - 1).index_of(link_of(structs, k)->0);
        assert(all[i] == link_of(structs, k)->0);
    }
}

/// Where no two structs have the same name, the children of a struct are the structs whose
/// first field holds it.
pub proof fn child_holds_parent(structs: Seq<items::StructView>, p: int, c: int)
    requires
        distinct(structs),
    ensures
        is_child(structs, p, c) <==> {
            &&& 0 <= p < structs.len()
            &&& 0 <= c < structs.len()
            &&& first_field_type(structs[c]) == Some(structs[p].ident)
        },
{
    let n = structs.len() as int;
    if is_child(structs, p, c) {
        links_join_named(structs, n, (c, p));
        link_has_maker(structs, n, (c, p));
        let k = choose|k: int| 0 <= k < n && #[trigger] link_of(structs, k) == Some((c, p));
        name_stands_for_itself(structs, k);
        offset_has_name(structs, first_field_type(structs[k])->0);
    }
    if 0 <= p < n && 0 <= c < n && first_field_type(structs[c]) == Some(structs[p].ident) {
        name_stands_for_itself(structs, p);
        name_stands_for_itself(structs, c);
        assert(link_of(structs, c) == Some((c, p)));
        maker_has_link(structs, n, c);
    }
}

/// The parent of a struct is the parent that a link gives it.
proof fn parent_is_linked(links: Seq<(int, int)>, c: int)
    ensures
        parent_of(links, c) matches Some(p) ==> links.contains((c, p)),
        parent_of(links, c) is None ==> forall|p: int| !#[trigger] links.contains((c, p)),
    decreases links.len(),
{
    if links.len() > 0 {
        let earlier = links.drop_last();
        parent_is_linked(earlier, c);
        if links.last().0 == c {
            assert(links[links.len() - 1] == (c, links.last().1));
        } else {
            if let Some(p) = parent_of(links, c) {
                let i = earlier.index_of((c, p));
                assert(links[i] == (c, p));
            } else {
                assert forall|p: int| !#[trigger] links.contains((c, p)) by {
                    if links.contains((c, p)) {
                        let i = links.index_of((c, p));
                        assert(earlier[i] == (c, p));
                        assert(earlier.contains((c, p)));
                    }
                }
            }
        }
    }
}

/// Where no two structs have the same name, the links go both ways: a struct is among the
/// children of its parent and of no other.
pub proof fn links_go_both_ways(graph: StructGraph, p: int, c: int)
    requires
        graph.wf(),
        distinct(graph.structs()),
        0 <= p < graph.descriptors@.len(),
        0 <= c < graph.descriptors@.len(),
    ensures
        offsets(graph.descriptors@[p].children@).contains(c) <==> (
        graph.descriptors@[c].parent matches Some(q) && q == p),
{
    let structs = graph.structs();
    let all = links(structs, structs.len() as int);
    assert(graph.descriptors@[p].linked(all, p));
    assert(graph.descriptors@[c].linked(all, c));
    children_are_linked(all, p);
    parent_is_linked(all, c);
    assert(all.contains((c, p)) == is_child(structs, p, c));
    child_holds_parent(structs, p, c);
    if let Some(q) = parent_of(all, c) {
        assert(is_child(structs, q, c));
        child_holds_parent(structs, q, c);
    }
}

/// What a walk from `node` leaves behind has all children of `node`.
pub proof fn walks_meet_all_children(
    structs: Seq<items::StructView>,
    node: int,
    c: int,
    before: Set<Seq<char>>,
)
    requires
        is_child(structs, node, c),
    ensures
        before.union(names_below(structs, node, before.insert(structs[node].ident))).contains(
            structs[node].ident,
        ),
        before.union(names_below(structs, node, before.insert(structs[node].ident))).contains(
            structs[c].ident,
        ),
{
    let seen = before.insert(structs[node].ident);
    links_join_named(structs, structs.len() as int, (c, node));
    assert(descends(structs, seen, seq![node]));
    assert(names_below(structs, node, seen).contains(structs[node].ident));
    if !seen.contains(structs[c].ident) {
        let path = seq![node, c];
        assert(descends(structs, seen, path));
        assert(path.last() == c);
        assert(names_below(structs, node, seen).contains(structs[c].ident));
    }
}

/// The places of the structs go up.
proof fn places_go_up(items: Seq<items::ItemView>)
    ensures
        forall|j: int, k: int|
            0 <= j < k < struct_places(items).len() ==> struct_places(items)[j]
                < struct_places(items)[k],
    decreases items.len(),
{
    if items.len() > 0 {
        places_go_up(items.drop_last());
        places_are_structs(items.drop_last());
    }
}

/// The tables lead back and forth: from a struct to its item, and from there to the struct.
pub proof fn tables_lead_back(graph: StructGraph, items: Seq<items::ItemView>, k: int)
    requires
        graph.describes(items),
        0 <= k < graph.descriptors@.len(),
    ensures
        graph.descriptors@[k].items_offset < items.len(),
        graph.item_offset_tab@[graph.descriptors@[k].items_offset as int] matches Some(j) && j == k,
{
    assert(graph.structs().len() == struct_places(items).len());
    places_are_structs(items);
    places_go_up(items);
    assert(graph.descriptors@[k].items_offset == struct_places(items)[k]);
    let i = struct_places(items)[k];
    assert(items[i] is Struct);
    match graph.item_offset_tab@[i] {
        Some(j) => {
            if j < k {
                assert(struct_places(items)[j as int] < struct_places(items)[k]);
            } else if j > k {
                assert(struct_places(items)[k] < struct_places(items)[j as int]);
            }
        },
        None => {},
    }
}

/// Structs of the same names, with fields of the same types, in the same order.
pub open spec fn same_structs(a: Seq<items::StructView>, b: Seq<items::StructView>) -> bool {
    &&& a.len() == b.len()
    &&& forall|k: int|
        0 <= k < a.len() ==> a[k].ident == (#[trigger] b[k]).ident && a[k].fields == b[k].fields
}

proof fn same_offset(a: Seq<items::StructView>, b: Seq<items::StructView>, name: Seq<char>)
    requires
        same_structs(a, b),
    ensures
        offset_of(a, name) == offset_of(b, name),
    decreases a.len(),
{
    if a.len() > 0 {
        assert(a.last().ident == b[b.len() - 1].ident);
        assert forall|k: int| 0 <= k < a.drop_last().len() implies a.drop_last()[k].ident == (
        #[trigger] b.drop_last()[k]).ident && a.drop_last()[k].fields == b.drop_last()[k].fields by {
            assert(a[k].ident == b[k].ident);
        }
        same_offset(a.drop_last(), b.drop_last(), name);
    }
}

proof fn same_links(a: Seq<items::StructView>, b: Seq<items::StructView>, n: int)
    requires
        same_structs(a, b),
        n <= a.len(),
    ensures
        links(a, n) == links(b, n),
    decreases n,
{
    if n > 0 {
        same_links(a, b, n - 1);
        assert(a[n - 1].ident == b[n - 1].ident);
        assert(first_field_type(a[n - 1]) == first_field_type(b[n - 1]));
        same_offset(a, b, a[n - 1].ident);
        if let Some(parent) = first_field_type(a[n - 1]) {
            same_offset(a, b, parent);
        }
    }
}

proof fn same_descent(
    a: Seq<items::StructView>,
    b: Seq<items::StructView>,
    seen: Set<Seq<char>>,
    path: Seq<int>,
)
    requires
        same_structs(a, b),
        descends(a, seen, path),
    ensures
        descends(b, seen, path),
        a[path.last()].ident == b[path.last()].ident,
{
    same_links(a, b, a.len() as int);
    assert forall|i: int| 1 <= i < path.len() implies is_child(b, path[i - 1], #[trigger] path[i])
        && !seen.contains(b[path[i]].ident) by {
        assert(is_child(a, path[i - 1], path[i]));
        assert(a[path[i]].ident == b[path[i]].ident);
    }
    assert(0 <= path[path.len() - 1] < a.len());
}

/// What a walk finds depends on the names of the structs and the types of their fields alone.
pub proof fn same_names_below(
    a: Seq<items::StructView>,
    b: Seq<items::StructView>,
    node: int,
    seen: Set<Seq<char>>,
)
    requires
        same_structs(a, b),
    ensures
        names_below(a, node, seen) == names_below(b, node, seen),
{
    assert(same_structs(b, a));
    assert forall|name: Seq<char>|
        names_below(a, node, seen).contains(name) <==> #[trigger] names_below(
            b,
            node,
            seen,
        ).contains(name) by {
        if names_below(a, node, seen).contains(name) {
            let path = choose|path: Seq<int>| #[trigger]
                descends(a, seen, path) && path[0] == node && a[path.last()].ident == name;
            same_descent(a, b, seen, path);
        }
        if names_below(b, node, seen).contains(name) {
            let path = choose|path: Seq<int>| #[trigger]
                descends(b, seen, path) && path[0] == node && b[path.last()].ident == name;
            same_descent(b, a, seen, path);
        }
    }
    assert(names_below(a, node, seen) =~= names_below(b, node, seen));
}

proof fn places_stay(before: Seq<items::ItemView>, after: Seq<items::ItemView>)
    requires
        items::keeps_items(before, after),
    ensures
        struct_places(after) == struct_places(before),
    decreases before.len(),
{
    if before.len() > 0 {
        assert(items::keeps_item(before.last(), after[after.len() - 1]));
        assert forall|i: int| 0 <= i < before.drop_last().len() implies items::keeps_item(
            before.drop_last()[i],
            #[trigger] after.drop_last()[i],
        ) by {
            assert(items::keeps_item(before[i], after[i]));
        }
        places_stay(before.drop_last(), after.drop_last());
    }
}

/// Where items stay what they are, so do the names of the structs among them, the types of their
/// fields, and their places.
pub proof fn structs_stay(before: Seq<items::ItemView>, after: Seq<items::ItemView>)
    requires
        items::keeps_items(before, after),
    ensures
        struct_places(after) == struct_places(before),
        same_structs(structs(before), structs(after)),
{
    places_stay(before, after);
    places_are_structs(before);
    assert forall|k: int| 0 <= k < structs(before).len() implies structs(before)[k].ident == (
    #[trigger] structs(after)[k]).ident && structs(before)[k].fields == structs(after)[k].fields by {
        let place = struct_places(before)[k];
        assert(items::keeps_item(before[place], after[place]));
    }
}

/// The first field of the struct has a type whose path ends with the name.
pub open spec fn begins_with_type(s: items::StructView, name: Seq<char>) -> bool {
    s.fields.len() > 0 && s.fields[0] is Some && s.fields[0]->0.len() > 0
        && s.fields[0]->0[s.fields[0]->0.len() - 1] == name
}

/// The type of the first field is told by the last name along its path, whatever stands before
/// that name, whatever fields follow, and whatever else the struct is; a struct without fields, or
/// whose first field has a type that is no path, has none.
pub proof fn first_field_is_told_by_its_last_name(
    ident: Seq<char>,
    path: Seq<Seq<char>>,
    name: Seq<char>,
    rest: Seq<Option<Seq<Seq<char>>>>,
    tokens: Seq<char>,
)
    ensures
        first_field_type(
            items::StructView { ident, fields: seq![Some(path.push(name))] + rest, tokens },
        ) == Some(name),
        first_field_type(items::StructView { ident, fields: seq![None] + rest, tokens }) is None,
        first_field_type(items::StructView { ident, fields: Seq::empty(), tokens }) is None,
{
}

/// The name of the type of the first field, as far as there is one.
pub proof fn first_field_types(s: items::StructView, name: Seq<char>)
    ensures
        first_field_type(s) == Some(name) <==> begins_with_type(s, name),
{
}

/// The structs of a list are all its items that are structs, in their order.
pub proof fn all_structs_have_places(items: Seq<items::ItemView>, i: int)
    ensures
        struct_places(items).contains(i) <==> 0 <= i < items.len() && items[i] is Struct,
        forall|j: int, k: int|
            0 <= j < k < struct_places(items).len() ==> struct_places(items)[j]
                < struct_places(items)[k],
        structs(items).len() == struct_places(items).len(),
        forall|k: int|
            0 <= k < structs(items).len() ==> items[struct_places(items)[k]]
                == items::ItemView::Struct(#[trigger] structs(items)[k]),
{
    places_are_structs(items);
    places_go_up(items);
    if 0 <= i < items.len() && items[i] is Struct {
        struct_has_place(items, i);
    }
    assert forall|k: int| 0 <= k < structs(items).len() implies items[struct_places(items)[k]]
        == items::ItemView::Struct(#[trigger] structs(items)[k]) by {
        assert(items[struct_places(items)[k]] is Struct);
    }
}

proof fn struct_has_place(items: Seq<items::ItemView>, i: int)
    requires
        0 <= i < items.len(),
        items[i] is Struct,
    ensures
        struct_places(items).contains(i),
    decreases items.len(),
{
    let places = struct_places(items);
    if i == items.len() - 1 {
        assert(places[places.len() - 1] == i);
    } else {
        struct_has_place(items.drop_last(), i);
        let k = struct_places(items.drop_last()).index_of(i);
        assert(places[k] == i);
    }
}

/// A name stands for the last struct that has it, and for none where none has it.
pub proof fn names_stand_for_the_last(structs: Seq<items::StructView>, name: Seq<char>, k: int)
    ensures
        offset_of(structs, name) == Some(k) <==> {
            &&& 0 <= k < structs.len()
            &&& structs[k].ident == name
            &&& forall|j: int| k < j < structs.len() ==> (#[trigger] structs[j]).ident != name
        },
        offset_of(structs, name) is None <==> forall|j: int|
            0 <= j < structs.len() ==> (#[trigger] structs[j]).ident != name,
    decreases structs.len(),
{
    if structs.len() > 0 {
        let fewer = structs.drop_last();
        let n = structs.len() - 1;
        names_stand_for_the_last(fewer, name, k);
        if structs[n].ident != name {
            if offset_of(fewer, name) == Some(k) {
                assert forall|j: int| k < j < structs.len() implies (#[trigger] structs[j]).ident
                    != name by {
                    if j < n {
                        assert(fewer[j].ident == structs[j].ident);
                    }
                }
            }
            if 0 <= k < structs.len() && structs[k].ident == name && forall|j: int|
                k < j < structs.len() ==> (#[trigger] structs[j]).ident != name {
                assert forall|j: int| k < j < fewer.len() implies (#[trigger] fewer[j]).ident
                    != name by {
                    assert(structs[j].ident != name);
                }
            }
            if offset_of(fewer, name) is None {
                assert forall|j: int| 0 <= j < structs.len() implies (#[trigger] structs[j]).ident
                    != name by {
                    if j < n {
                        assert(fewer[j].ident == structs[j].ident);
                    }
                }
            }
            if forall|j: int| 0 <= j < structs.len() ==> (#[trigger] structs[j]).ident != name {
                assert forall|j: int| 0 <= j < fewer.len() implies (#[trigger] fewer[j]).ident
                    != name by {
                    assert(structs[j].ident != name);
                }
            }
        } else {
            assert(structs[n].ident == name);
        }
    }
}

/// The struct is the last of its name.
pub open spec fn is_last_of_its_name(structs: Seq<items::StructView>, k: int) -> bool {
    &&& 0 <= k < structs.len()
    &&& forall|j: int| k < j < structs.len() ==> (#[trigger] structs[j]).ident != structs[k].ident
}

/// A struct is a child of another exactly where both are the last of their names and a struct of
/// the name of the child has a first field whose type is of the name of the parent.
pub proof fn children_begin_with_their_parent(structs: Seq<items::StructView>, p: int, c: int)
    ensures
        is_child(structs, p, c) <==> {
            &&& is_last_of_its_name(structs, p)
            &&& is_last_of_its_name(structs, c)
            &&& exists|k: int|
                0 <= k < structs.len() && (#[trigger] structs[k]).ident == structs[c].ident
                    && begins_with_type(structs[k], structs[p].ident)
        },
{
    let n = structs.len() as int;
    if is_child(structs, p, c) {
        link_has_maker(structs, n, (c, p));
        let k = choose|k: int| 0 <= k < n && #[trigger] link_of(structs, k) == Some((c, p));
        let parent = first_field_type(structs[k])->0;
        names_stand_for_the_last(structs, structs[k].ident, c);
        names_stand_for_the_last(structs, parent, p);
        assert(begins_with_type(structs[k], structs[p].ident));
    }
    if is_last_of_its_name(structs, p) && is_last_of_its_name(structs, c) && exists|k: int|
        0 <= k < structs.len() && (#[trigger] structs[k]).ident == structs[c].ident
            && begins_with_type(structs[k], structs[p].ident) {
        let k = choose|k: int|
            0 <= k < structs.len() && (#[trigger] structs[k]).ident == structs[c].ident
                && begins_with_type(structs[k], structs[p].ident);
        names_stand_for_the_last(structs, structs[c].ident, c);
        names_stand_for_the_last(structs, structs[p].ident, p);
        assert(link_of(structs, k) == Some((c, p)));
        maker_has_link(structs, n, k);
    }
}

/// A graph lists all children of a struct and no others, and each struct that is a child of some
/// has a parent, of which it is one.
pub proof fn graphs_list_all_children(graph: StructGraph, p: int, c: int)
    requires
        graph.wf(),
        0 <= p < graph.descriptors@.len(),
        0 <= c < graph.descriptors@.len(),
    ensures
        offsets(graph.descriptors@[p].children@).contains(c) <==> is_child(graph.structs(), p, c),
        graph.descriptors@[c].parent matches Some(q) ==> is_child(graph.structs(), q as int, c),
        is_child(graph.structs(), p, c) ==> graph.descriptors@[c].parent is Some,
{
    let structs = graph.structs();
    let all = links(structs, structs.len() as int);
    assert(graph.descriptors@[p].linked(all, p));
    assert(graph.descriptors@[c].linked(all, c));
    children_are_linked(all, p);
    parent_is_linked(all, c);
    assert(all.contains((c, p)) == is_child(structs, p, c));
}

/// A link more gives its parent one child more, behind the others, and its child that parent, in
/// the place of the one before; it leaves the children of other structs and the parents of others.
pub proof fn children_follow_the_links(links: Seq<(int, int)>, c: int, p: int, other: int)
    ensures
        children_of(Seq::empty(), p) == Seq::<int>::empty(),
        parent_of(Seq::empty(), c) is None,
        children_of(links.push((c, p)), p) == children_of(links, p).push(c),
        parent_of(links.push((c, p)), c) == Some(p),
        other != p ==> children_of(links.push((c, p)), other) == children_of(links, other),
        other != c ==> parent_of(links.push((c, p)), other) == parent_of(links, other),
{
    assert(links.push((c, p)).drop_last() =~= links);
}

} // verus!
