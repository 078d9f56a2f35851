//! The structs that PostgreSQL treats as nodes, and the trait implementations that they get.
use crate::graph;
use crate::graph::{dfs_find_nodes, StructGraph};
use crate::items;
use crate::items::Item;
use crate::ordered;
use crate::ordered::OrderedMap;
use crate::text;
use vstd::prelude::*;
use vstd::string::*;

verus! {

/// A struct whose first field is the tag of a node.
pub open spec fn is_root(s: items::StructView) -> bool {
    graph::first_field_type(s) == Some("NodeTag"@)
}

/// The names found by a walk from each root among the first `n` structs, in turn. A walk does
/// not go past a name that was found before.
pub open spec fn node_names(structs: Seq<items::StructView>, n: int) -> Set<Seq<char>>
    decreases n,
{
    if n <= 0 {
        Set::empty()
    } else {
        let found = node_names(structs, n - 1);
        if is_root(structs[n - 1]) {
            found.union(
                graph::names_below(structs, n - 1, found.insert(structs[n - 1].ident)),
            )
        } else {
            found
        }
    }
}

/// The implementations that a node of this name gets.
pub open spec fn node_impls(name: Seq<char>) -> Seq<char> {
    "impl pg_sys::seal::Sealed for "@ + name + " {}\nimpl pg_sys::PgNode for "@ + name
        + " {}\nimpl ::core::fmt::Display for "@ + name
        + " {\n    fn fmt(&self, f: &mut ::core::fmt::Formatter<'_>) -> ::core::fmt::Result {\n        self.display_node().fmt(f)\n    }\n}\n"@
}

/// The implementations that the nodes of these names get, one after the other.
pub open spec fn impls_text(names: Seq<Seq<char>>) -> Seq<char> {
    text::concat(Seq::new(names.len(), |i: int| node_impls(names[i])))
}

/// The names of the nodes among the structs of a graph.
pub fn find_nodes(graph: &StructGraph) -> (r: OrderedMap<()>)
    requires
        graph.wf(),
    ensures
        r.wf(),
        r@.dom() == node_names(graph.structs(), graph.structs().len() as int),
{
    let ghost structs = graph.structs();
    let mut node_set: OrderedMap<()> = OrderedMap::new();
    let mut k: usize = 0;
    assert(node_set@.dom() =~= Set::empty());
    while k < graph.descriptors.len()
        invariant
            graph.wf(),
            node_set.wf(),
            structs == graph.structs(),
            k <= structs.len(),
            node_set@.dom() == node_names(structs, k as int),
        decreases structs.len() - k,
    {
        if let Some(name) = graph::first_field_name(graph.descriptors[k].struct_) {
            if text::same_text(name, "NodeTag") {
                dfs_find_nodes(k, graph, &mut node_set);
            }
        }
        k += 1;
    }
    node_set
}

/// Appends the implementations that the node of this name gets.
fn append_node_impls(out: &mut String, name: &str)
    ensures
        final(out)@ == old(out)@ + node_impls(name@),
{
    out.append("impl pg_sys::seal::Sealed for ");
    out.append(name);
    out.append(" {}\nimpl pg_sys::PgNode for ");
    out.append(name);
    out.append(" {}\nimpl ::core::fmt::Display for ");
    out.append(name);
    out.append(
        " {\n    fn fmt(&self, f: &mut ::core::fmt::Formatter<'_>) -> ::core::fmt::Result {\n        self.display_node().fmt(f)\n    }\n}\n",
    );
    assert(out@ =~= old(out)@ + node_impls(name@));
}

/// The implementations of the marker trait `PgNode`, and of `Display`, for each node among
/// the structs of `items`, in the order of their names.
pub fn impl_pg_node(items: &[Item]) -> (r: String)
    ensures
        r@ == impls_text(
            ordered::in_order(
                node_names(
                    graph::structs(items::views(items@)),
                    graph::structs(items::views(items@)).len() as int,
                ),
            ),
        ),
{
    let struct_graph = StructGraph::from_items(items);
    let node_set = find_nodes(&struct_graph);
    let ghost names = node_set.keys();
    let ghost pieces = Seq::new(names.len(), |i: int| node_impls(names[i]));
    proof {
        node_set.keys_in_order();
        ordered::list_is_in_order(names, node_set@.dom());
    }
    let mut out = String::new();
    let mut i: usize = 0;
    while i < node_set.len()
        invariant
            i <= names.len(),
            names == node_set.keys(),
            pieces == Seq::new(names.len(), |i: int| node_impls(names[i])),
            out@ == text::concat(pieces.take(i as int)),
        decreases names.len() - i,
    {
        append_node_impls(&mut out, node_set.key(i));
        assert(pieces.take(i + 1).drop_last() =~= pieces.take(i as int));
        assert(pieces.take(i + 1).last() == pieces[i as int]);
        i += 1;
    }
    assert(pieces.take(i as int) =~= pieces);
    out
}

/// A root, or a struct that a path from child to child leads to from a root.
pub open spec fn is_node(structs: Seq<items::StructView>, k: int) -> bool {
    exists|path: Seq<int>| #[trigger]
        graph::descends(structs, Set::empty(), path) && is_root(structs[path[0]]) && path.last()
            == k
}

/// No struct that begins with a tag has the name of a later one.
pub open spec fn roots_are_last(structs: Seq<items::StructView>) -> bool {
    forall|r: int|
        0 <= r < structs.len() && is_root(#[trigger] structs[r]) ==> graph::is_last_of_its_name(
            structs,
            r,
        )
}

/// Two places of structs that are the last of one name are the same place.
proof fn last_of_a_name_is_one(structs: Seq<items::StructView>, a: int, b: int)
    requires
        graph::is_last_of_its_name(structs, a),
        graph::is_last_of_its_name(structs, b),
        structs[a].ident == structs[b].ident,
    ensures
        a == b,
{
    if a < b {
        assert(structs[b].ident != structs[a].ident);
    } else if b < a {
        assert(structs[a].ident != structs[b].ident);
    }
}

/// The names that were found have with each struct its children.
proof fn found_names_are_closed(structs: Seq<items::StructView>, n: int, v: int, c: int)
    requires
        roots_are_last(structs),
        n <= structs.len(),
        graph::is_child(structs, v, c),
        node_names(structs, n).contains(structs[v].ident),
    ensures
        node_names(structs, n).contains(structs[c].ident),
    decreases n,
{
    graph::children_begin_with_their_parent(structs, v, c);
    if n > 0 {
        let found = node_names(structs, n - 1);
        if found.contains(structs[v].ident) {
            found_names_are_closed(structs, n - 1, v, c);
        } else {
            let met = found.insert(structs[n - 1].ident);
            let path = choose|path: Seq<int>| #[trigger]
                graph::descends(structs, met, path) && path[0] == n - 1
                    && structs[path.last()].ident == structs[v].ident;
            assert(0 <= path[path.len() - 1] < structs.len());
            if path.len() > 1 {
                graph::children_begin_with_their_parent(
                    structs,
                    path[path.len() - 2],
                    path[path.len() - 1],
                );
            }
            last_of_a_name_is_one(structs, path.last(), v);
            assert(path.last() == v);
            if met.contains(structs[c].ident) {
                assert(graph::descends(structs, met, seq![n - 1]));
                assert(graph::names_below(structs, n - 1, met).contains(structs[n - 1].ident));
            } else {
                let longer = path.push(c);
                assert forall|i: int| #![trigger longer[i]] 1 <= i < longer.len() implies
                    graph::is_child(structs, longer[i - 1], longer[i]) && !met.contains(
                    structs[longer[i]].ident,
                ) by {
                    if i < path.len() {
                        assert(longer[i] == path[i]);
                        assert(longer[i - 1] == path[i - 1]);
                    }
                }
                assert(graph::descends(structs, met, longer));
                assert(longer.last() == c);
            }
        }
    }
}

/// What is found from the first `n` structs belongs to nodes.
proof fn found_names_are_nodes(structs: Seq<items::StructView>, n: int, name: Seq<char>)
    requires
        n <= structs.len(),
        node_names(structs, n).contains(name),
    ensures
        exists|k: int|
            0 <= k < structs.len() && structs[k].ident == name && #[trigger] is_node(structs, k),
    decreases n,
{
    if n > 0 {
        let found = node_names(structs, n - 1);
        if found.contains(name) {
            found_names_are_nodes(structs, n - 1, name);
        } else {
            let met = found.insert(structs[n - 1].ident);
            let path = choose|path: Seq<int>| #[trigger]
                graph::descends(structs, met, path) && path[0] == n - 1
                    && structs[path.last()].ident == name;
            assert(graph::descends(structs, Set::empty(), path));
            assert(0 <= path[path.len() - 1] < structs.len());
            assert(is_node(structs, path.last()));
        }
    }
}

/// What the first structs gave is still there later, and the name of each root is found.
proof fn roots_are_found(structs: Seq<items::StructView>, n: int, r: int)
    requires
        0 <= r < n <= structs.len(),
        is_root(structs[r]),
    ensures
        node_names(structs, n).contains(structs[r].ident),
    decreases n,
{
    if r == n - 1 {
        let met = node_names(structs, n - 1).insert(structs[r].ident);
        assert(graph::descends(structs, met, seq![r]));
        assert(graph::names_below(structs, r, met).contains(structs[r].ident));
    } else {
        roots_are_found(structs, n - 1, r);
    }
}

proof fn path_is_found(structs: Seq<items::StructView>, path: Seq<int>, i: int)
    requires
        graph::distinct(structs),
        graph::descends(structs, Set::empty(), path),
        is_root(structs[path[0]]),
        0 <= i < path.len(),
    ensures
        node_names(structs, structs.len() as int).contains(structs[path[i]].ident),
    decreases i,
{
    if i == 0 {
        assert(0 <= path[0] < structs.len());
        roots_are_found(structs, structs.len() as int, path[0]);
    } else {
        path_is_found(structs, path, i - 1);
        assert(graph::is_child(structs, path[i - 1], path[i]));
        assert(roots_are_last(structs));
        found_names_are_closed(structs, structs.len() as int, path[i - 1], path[i]);
    }
}

/// Where no two structs have the same name, the names found are those of the nodes: the
/// structs that begin with a tag, and those that derive from them, directly or through others.
pub proof fn nodes_are_what_derives_from_roots(structs: Seq<items::StructView>, k: int)
    requires
        graph::distinct(structs),
        0 <= k < structs.len(),
    ensures
        node_names(structs, structs.len() as int).contains(structs[k].ident) <==> is_node(
            structs,
            k,
        ),
{
    let names = node_names(structs, structs.len() as int);
    if names.contains(structs[k].ident) {
        found_names_are_nodes(structs, structs.len() as int, structs[k].ident);
    }
    if is_node(structs, k) {
        let path = choose|path: Seq<int>| #[trigger]
            graph::descends(structs, Set::empty(), path) && is_root(structs[path[0]])
                && path.last() == k;
        path_is_found(structs, path, path.len() - 1);
    }
}

/// A name that is found is the name of a struct.
pub proof fn nodes_are_structs(structs: Seq<items::StructView>, name: Seq<char>)
    requires
        node_names(structs, structs.len() as int).contains(name),
    ensures
        exists|k: int| 0 <= k < structs.len() && #[trigger] structs[k].ident == name,
{
    found_names_are_nodes(structs, structs.len() as int, name);
}

/// The names of all structs.
spec fn all_names(structs: Seq<items::StructView>) -> Set<Seq<char>>
    decreases structs.len(),
{
    if structs.len() == 0 {
        Set::empty()
    } else {
        all_names(structs.drop_last()).insert(structs.last().ident)
    }
}

proof fn names_are_finite(structs: Seq<items::StructView>)
    ensures
        all_names(structs).finite(),
        forall|k: int|
            0 <= k < structs.len() ==> all_names(structs).contains(#[trigger] structs[k].ident),
    decreases structs.len(),
{
    if structs.len() > 0 {
        names_are_finite(structs.drop_last());
        assert forall|k: int| 0 <= k < structs.len() implies all_names(structs).contains(
            #[trigger] structs[k].ident,
        ) by {
            if k < structs.len() - 1 {
                assert(structs.drop_last()[k].ident == structs[k].ident);
            }
        }
    }
}

/// Each node gets its implementations once, in the order of the names.
pub proof fn every_node_is_marked(structs: Seq<items::StructView>)
    ensures
        ordered::lists_in_order(
            ordered::in_order(node_names(structs, structs.len() as int)),
            node_names(structs, structs.len() as int),
        ),
{
    let names = node_names(structs, structs.len() as int);
    names_are_finite(structs);
    assert(names.subset_of(all_names(structs))) by {
        assert forall|name: Seq<char>| names.contains(name) implies all_names(structs).contains(
            name,
        ) by {
            nodes_are_structs(structs, name);
        }
    }
    vstd::set_lib::lemma_set_subset_finite(all_names(structs), names);
    ordered::finite_names_have_an_order(names);
}

/// Which structs are nodes depends on the names of the structs and the types of their fields
/// alone.
pub proof fn same_nodes(a: Seq<items::StructView>, b: Seq<items::StructView>, n: int)
    requires
        graph::same_structs(a, b),
        n <= a.len(),
    ensures
        node_names(a, n) == node_names(b, n),
    decreases n,
{
    if n > 0 {
        same_nodes(a, b, n - 1);
        assert(a[n - 1].ident == b[n - 1].ident);
        graph::same_names_below(a, b, n - 1, node_names(a, n - 1).insert(a[n - 1].ident));
    }
}

/// A struct is a root exactly where it has fields and the type of the first is a path that ends
/// with `NodeTag`, whatever stands before that name, whatever and however many fields follow, and
/// whatever its own name is.
pub proof fn roots_begin_with_a_tag(
    s: items::StructView,
    ident: Seq<char>,
    path: Seq<Seq<char>>,
    rest: Seq<Option<Seq<Seq<char>>>>,
    tokens: Seq<char>,
)
    ensures
        is_root(s) <==> (s.fields.len() > 0 && (s.fields[0] matches Some(p) && p.len() > 0
            && p.last() == "NodeTag"@)),
        is_root(
            items::StructView { ident, fields: seq![Some(path.push("NodeTag"@))] + rest, tokens },
        ),
{
    graph::first_field_is_told_by_its_last_name(ident, path, "NodeTag"@, rest, tokens);
}

/// Each struct that begins with a tag is a node, whatever other structs there are.
pub proof fn each_tagged_struct_is_a_node(structs: Seq<items::StructView>, k: int)
    requires
        0 <= k < structs.len(),
        structs[k].fields.len() > 0,
        structs[k].fields[0] is Some,
        structs[k].fields[0]->0.len() > 0,
        structs[k].fields[0]->0.last() == "NodeTag"@,
    ensures
        node_names(structs, structs.len() as int).contains(structs[k].ident),
{
    roots_are_found(structs, structs.len() as int, k);
}

/// A chain of structs, each of which begins with the one before it, from a struct that begins with
/// a tag.
pub open spec fn is_chain(structs: Seq<items::StructView>, path: Seq<int>) -> bool {
    &&& path.len() > 0
    &&& forall|i: int| 0 <= i < path.len() ==> 0 <= #[trigger] path[i] < structs.len()
    &&& graph::begins_with_type(structs[path[0]], "NodeTag"@)
    &&& forall|i: int|
        0 < i < path.len() ==> graph::begins_with_type(
            structs[#[trigger] path[i]],
            structs[path[i - 1]].ident,
        )
}

/// Where no two structs have the same name, a struct is a node exactly where a chain of structs,
/// each of which begins with the one before it, leads to it from a struct that begins with a tag.
pub proof fn nodes_are_at_the_ends_of_chains(structs: Seq<items::StructView>, k: int)
    requires
        forall|i: int, j: int| 0 <= i < j < structs.len() ==> structs[i].ident != structs[j].ident,
        0 <= k < structs.len(),
    ensures
        node_names(structs, structs.len() as int).contains(structs[k].ident) <==> exists|
            path: Seq<int>,
        | #[trigger] is_chain(structs, path) && path.last() == k,
{
    nodes_are_what_derives_from_roots(structs, k);
    if is_node(structs, k) {
        let path = choose|path: Seq<int>| #[trigger]
            graph::descends(structs, Set::empty(), path) && is_root(structs[path[0]])
                && path.last() == k;
        assert forall|i: int| 0 < i < path.len() implies graph::begins_with_type(
            structs[#[trigger] path[i]],
            structs[path[i - 1]].ident,
        ) by {
            graph::child_holds_parent(structs, path[i - 1], path[i]);
        }
        assert(is_chain(structs, path));
    }
    if exists|path: Seq<int>| #[trigger] is_chain(structs, path) && path.last() == k {
        let path = choose|path: Seq<int>| #[trigger] is_chain(structs, path) && path.last() == k;
        assert forall|i: int| #![trigger path[i]] 1 <= i < path.len() implies graph::is_child(
            structs,
            path[i - 1],
            path[i],
        ) by {
            assert(0 <= path[i - 1] < structs.len());
            graph::child_holds_parent(structs, path[i - 1], path[i]);
        }
        assert(graph::descends(structs, Set::empty(), path));
        assert(is_root(structs[path[0]]));
        assert(is_node(structs, k));
    }
}

/// What a node of any name gets: the seal, the marker, and the way it is displayed, each for that
/// name.
pub proof fn marks_of_a_node(name: Seq<char>)
    ensures
        node_impls(name) == "impl pg_sys::seal::Sealed for "@ + name
            + " {}\nimpl pg_sys::PgNode for "@ + name + " {}\nimpl ::core::fmt::Display for "@ + name
            + " {\n    fn fmt(&self, f: &mut ::core::fmt::Formatter<'_>) -> ::core::fmt::Result {\n        self.display_node().fmt(f)\n    }\n}\n"@,
{
}

/// The implementations of names: of none, of one, and of one list after another.
pub proof fn nodes_are_marked_one_by_one(a: Seq<Seq<char>>, b: Seq<Seq<char>>, name: Seq<char>)
    ensures
        impls_text(Seq::empty()) == Seq::<char>::empty(),
        impls_text(seq![name]) == node_impls(name),
        impls_text(a + b) == impls_text(a) + impls_text(b),
{
    let pieces = |names: Seq<Seq<char>>| Seq::new(names.len(), |i: int| node_impls(names[i]));
    assert(pieces(Seq::empty()) =~= Seq::empty());
    assert(pieces(seq![name]) =~= seq![node_impls(name)]);
    assert(pieces(a + b) =~= pieces(a) + pieces(b));
    text::texts_follow_each_other(pieces(a), pieces(b), node_impls(name));
}

/// Each struct that begins with a tag has its implementations in the text.
pub proof fn each_tagged_struct_is_marked(structs: Seq<items::StructView>, k: int)
    requires
        0 <= k < structs.len(),
        structs[k].fields.len() > 0,
        structs[k].fields[0] is Some,
        structs[k].fields[0]->0.len() > 0,
        structs[k].fields[0]->0.last() == "NodeTag"@,
    ensures
        exists|a: Seq<char>, b: Seq<char>|
            impls_text(ordered::in_order(node_names(structs, structs.len() as int)))
                == #[trigger] (a + node_impls(structs[k].ident) + b),
{
    each_tagged_struct_is_a_node(structs, k);
    each_node_is_marked(structs, structs[k].ident);
}

/// Each node has its implementations in the text.
pub proof fn each_node_is_marked(structs: Seq<items::StructView>, name: Seq<char>)
    requires
        node_names(structs, structs.len() as int).contains(name),
    ensures
        exists|a: Seq<char>, b: Seq<char>|
            impls_text(ordered::in_order(node_names(structs, structs.len() as int)))
                == #[trigger] (a + node_impls(name) + b),
{
    every_node_is_marked(structs);
    let names = ordered::in_order(node_names(structs, structs.len() as int));
    assert(names.contains(name));
    let i = names.index_of(name);
    let pieces = Seq::new(names.len(), |i: int| node_impls(names[i]));
    text::each_text_stands_in_the_whole(pieces, i);
    assert(impls_text(names) == text::concat(pieces.take(i)) + node_impls(name) + text::concat(
        pieces.skip(i + 1),
    ));
}

/// With each node its children are nodes, also where names stand for more than one struct, as long
/// as no struct that begins with a tag has the name of a later one.
pub proof fn children_of_nodes_are_nodes(structs: Seq<items::StructView>, p: int, c: int)
    requires
        forall|r: int, j: int|
            0 <= r < j < structs.len() && graph::begins_with_type(
                #[trigger] structs[r],
                "NodeTag"@,
            ) ==> (#[trigger] structs[j]).ident != structs[r].ident,
        graph::is_child(structs, p, c),
        node_names(structs, structs.len() as int).contains(structs[p].ident),
    ensures
        node_names(structs, structs.len() as int).contains(structs[c].ident),
{
    assert forall|r: int|
        0 <= r < structs.len() && is_root(#[trigger] structs[r]) implies graph::is_last_of_its_name(
        structs,
        r,
    ) by {
        graph::first_field_types(structs[r], "NodeTag"@);
    }
    found_names_are_closed(structs, structs.len() as int, p, c);
}

/// Each name that is found is that of a struct that begins with a tag, or of one that a path from
/// parent to child leads to from such a struct, whatever names the structs have.
pub proof fn found_names_derive_from_roots(structs: Seq<items::StructView>, name: Seq<char>)
    requires
        node_names(structs, structs.len() as int).contains(name),
    ensures
        exists|path: Seq<int>|
            {
                &&& path.len() > 0
                &&& forall|i: int| 0 <= i < path.len() ==> 0 <= #[trigger] path[i] < structs.len()
                &&& graph::begins_with_type(structs[path[0]], "NodeTag"@)
                &&& forall|i: int|
                    #![trigger path[i]]
                    1 <= i < path.len() ==> graph::is_child(structs, path[i - 1], path[i])
                &&& structs[#[trigger] path.last()].ident == name
            },
{
    found_names_are_nodes(structs, structs.len() as int, name);
    let k = choose|k: int|
        0 <= k < structs.len() && structs[k].ident == name && #[trigger] is_node(structs, k);
    let path = choose|path: Seq<int>| #[trigger]
        graph::descends(structs, Set::empty(), path) && is_root(structs[path[0]]) && path.last()
            == k;
    graph::first_field_types(structs[path[0]], "NodeTag"@);
    assert(structs[path.last()].ident == name);
}

} // verus!
