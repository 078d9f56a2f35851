//! The constants that stand for the object identifiers of PostgreSQL's built-in objects.
use crate::graph;
use crate::items;
use crate::items::{ConstItem, Item};
use crate::ordered;
use crate::ordered::OrderedMap;
use crate::text;
use vstd::prelude::*;
use vstd::string::*;

verus! {

/// The name of a constant that holds an object identifier.
pub open spec fn is_oid_name(name: Seq<char>) -> bool {
    ||| text::ends_in(name, "OID"@) && name != "HEAP_HASOID"@
    ||| text::ends_in(name, "RelationId"@)
    ||| name == "TemplateDbOid"@
}

/// A constant of type `u32` that has the name of an object identifier.
pub open spec fn is_oid_const(item: items::ItemView) -> bool {
    item matches items::ItemView::Const(c) && c.ty == "u32"@ && is_oid_name(c.ident)
}

/// The object identifiers among the items: from the name of each to the value of the last
/// constant of that name.
pub open spec fn oids_of(items: Seq<items::ItemView>) -> Map<Seq<char>, Seq<char>>
    decreases items.len(),
{
    if items.len() == 0 {
        Map::empty()
    } else {
        let earlier = oids_of(items.drop_last());
        if is_oid_const(items.last()) {
            earlier.insert(items.last()->Const_0.ident, items.last()->Const_0.expr)
        } else {
            earlier
        }
    }
}

/// The map with the characters of each value in its place.
pub open spec fn value_texts(m: Map<Seq<char>, String>) -> Map<Seq<char>, Seq<char>> {
    m.map_values(|s: String| s@)
}

/// A constant of type `Oid` with the name and the value of `c`.
pub open spec fn as_oid(c: items::ConstView) -> items::ConstView {
    items::ConstView {
        ident: c.ident,
        ty: "Oid"@,
        expr: "Oid("@ + c.expr + ")"@,
        tokens: "pub const "@ + c.ident + ": Oid = Oid("@ + c.expr + ");"@,
    }
}

/// What becomes of an item: a `u32` constant that `oids` holds, with that value, is retyped.
pub open spec fn with_oid_type(
    item: items::ItemView,
    oids: Map<Seq<char>, Seq<char>>,
) -> items::ItemView {
    match item {
        items::ItemView::Const(c) => if c.ty == "u32"@ && oids.dom().contains(c.ident)
            && oids[c.ident] == c.expr {
            items::ItemView::Const(as_oid(c))
        } else {
            item
        },
        _ => item,
    }
}

/// What becomes of each item of a list.
pub open spec fn with_oid_types(
    items: Seq<items::ItemView>,
    oids: Map<Seq<char>, Seq<char>>,
) -> Seq<items::ItemView> {
    Seq::new(items.len(), |i: int| with_oid_type(items[i], oids))
}

/// Whether `name` is that of a constant that holds an object identifier.
pub fn is_builtin_oid(name: &str) -> (r: bool)
    ensures
        r == is_oid_name(name@),
        r <==> {
            ||| name@ != "HEAP_HASOID"@ && exists|p: Seq<char>| name@ == #[trigger] (p + "OID"@)
            ||| exists|p: Seq<char>| name@ == #[trigger] (p + "RelationId"@)
            ||| name@ == "TemplateDbOid"@
        },
{
    proof {
        text::ending_is_a_tail(name@, "OID"@);
        text::ending_is_a_tail(name@, "RelationId"@);
    }
    text::ends_with(name, "OID") && !text::same_text(name, "HEAP_HASOID") || text::ends_with(
        name,
        "RelationId",
    ) || text::same_text(name, "TemplateDbOid")
}

/// The object identifiers among `items`.
pub fn extract_oids(items: &[Item]) -> (r: OrderedMap<String>)
    ensures
        r.wf(),
        value_texts(r@) == oids_of(items::views(items@)),
{
    let ghost all = items::views(items@);
    let mut oids: OrderedMap<String> = OrderedMap::new();
    let mut i: usize = 0;
    assert(value_texts(oids@) =~= oids_of(all.take(0)));
    while i < items.len()
        invariant
            i <= items@.len(),
            all == items::views(items@),
            oids.wf(),
            value_texts(oids@) == oids_of(all.take(i as int)),
        decreases items@.len() - i,
    {
        assert(all.take(i + 1).drop_last() =~= all.take(i as int));
        assert(all.take(i + 1).last() == all[i as int]);
        if let Item::Const(c) = &items[i] {
            if text::same_text(c.ty.as_str(), "u32") && is_builtin_oid(c.ident.as_str()) {
                let ghost before = oids@;
                oids.insert(c.ident.clone(), c.expr.clone());
                assert(value_texts(oids@) =~= value_texts(before).insert(c.ident@, c.expr@));
            }
        }
        i += 1;
    }
    assert(all.take(i as int) =~= all);
    oids
}

/// The constant of type `Oid` with the name and the value of `c`.
fn oid_const(c: &ConstItem) -> (r: ConstItem)
    ensures
        r@ == as_oid(c@),
{
    let mut expr = "Oid(".to_owned();
    expr.append(c.expr.as_str());
    expr.append(")");
    let mut tokens = "pub const ".to_owned();
    tokens.append(c.ident.as_str());
    tokens.append(": Oid = Oid(");
    tokens.append(c.expr.as_str());
    tokens.append(");");
    ConstItem { ident: c.ident.clone(), ty: "Oid".to_owned(), expr, tokens }
}

/// The items, with each `u32` constant that `oids` holds, with that value, made an `Oid`.
pub fn rewrite_oid_consts(items: Vec<Item>, oids: &OrderedMap<String>) -> (r: Vec<Item>)
    requires
        oids.wf(),
    ensures
        items::views(r@) == with_oid_types(items::views(items@), value_texts(oids@)),
{
    let mut items = items;
    let ghost all = items::views(items@);
    let ghost map = value_texts(oids@);
    let mut i: usize = 0;
    while i < items.len()
        invariant
            i <= items@.len() == all.len(),
            oids.wf(),
            map == value_texts(oids@),
            forall|j: int| 0 <= j < i ==> (#[trigger] items@[j])@ == with_oid_type(all[j], map),
            forall|j: int| i <= j < all.len() ==> (#[trigger] items@[j])@ == all[j],
        decreases items@.len() - i,
    {
        assert(items@[i as int]@ == all[i as int]);
        let new_item: Option<ConstItem> = match &items[i] {
            Item::Const(c) => {
                if text::same_text(c.ty.as_str(), "u32") {
                    match oids.get(c.ident.as_str()) {
                        Some(expr) => if text::same_text(expr.as_str(), c.expr.as_str()) {
                            Some(oid_const(c))
                        } else {
                            None
                        },
                        None => None,
                    }
                } else {
                    None
                }
            },
            _ => None,
        };
        if let Some(c) = new_item {
            items[i] = Item::Const(c);
        }
        i += 1;
    }
    assert(items::views(items@) =~= with_oid_types(all, map));
    items
}

/// The variant of one object identifier in the enumeration of all.
pub open spec fn variant_text(name: Seq<char>, value: Seq<char>) -> Seq<char> {
    "    "@ + name + " = "@ + value + ",\n"@
}

/// The arm that leads from the number of one object identifier to its variant.
pub open spec fn arm_text(name: Seq<char>, value: Seq<char>) -> Seq<char> {
    "            "@ + value + " => Ok(BuiltinOid::"@ + name + "),\n"@
}

/// The enumeration of the object identifiers, in the order of their names, and the function
/// from their numbers.
pub open spec fn oid_impl_text(oids: Map<Seq<char>, Seq<char>>) -> Seq<char> {
    let names = ordered::in_order(oids.dom());
    "use crate::{NotBuiltinOid};\n\n#[derive(Copy, Clone, Eq, PartialEq, Hash, Ord, PartialOrd, Debug)]\npub enum BuiltinOid {\n"@
        + text::concat(Seq::new(names.len(), |i: int| variant_text(names[i], oids[names[i]])))
        + "}\n\nimpl BuiltinOid {\n    pub const fn from_u32(uint: u32) -> Result<BuiltinOid, NotBuiltinOid> {\n        match uint {\n            0 => Err(NotBuiltinOid::Invalid),\n"@
        + text::concat(Seq::new(names.len(), |i: int| arm_text(names[i], oids[names[i]])))
        + "            _ => Err(NotBuiltinOid::Ambiguous),\n        }\n    }\n}\n"@
}

/// The enumeration of the object identifiers and the function from their numbers.
pub fn format_builtin_oid_impl(oids: &OrderedMap<String>) -> (r: String)
    requires
        oids.wf(),
    ensures
        r@ == oid_impl_text(value_texts(oids@)),
{
    let ghost map = value_texts(oids@);
    let ghost names = oids.keys();
    let ghost variants = Seq::new(names.len(), |i: int| variant_text(names[i], map[names[i]]));
    let ghost arms = Seq::new(names.len(), |i: int| arm_text(names[i], map[names[i]]));
    proof {
        oids.keys_in_order();
        assert(map.dom() =~= oids@.dom());
        ordered::list_is_in_order(names, map.dom());
    }
    let mut enum_variants = String::new();
    let mut from_impl = String::new();
    let mut i: usize = 0;
    while i < oids.len()
        invariant
            i <= names.len(),
            oids.wf(),
            names == oids.keys(),
            map == value_texts(oids@),
            forall|k: int| 0 <= k < names.len() ==> oids@.dom().contains(#[trigger] names[k]),
            variants == Seq::new(names.len(), |i: int| variant_text(names[i], map[names[i]])),
            arms == Seq::new(names.len(), |i: int| arm_text(names[i], map[names[i]])),
            enum_variants@ == text::concat(variants.take(i as int)),
            from_impl@ == text::concat(arms.take(i as int)),
        decreases names.len() - i,
    {
        let ghost variants_before = enum_variants@;
        let ghost arms_before = from_impl@;
        let ident = oids.key(i);
        let expr = oids.value(i);
        assert(map[names[i as int]] == expr@);
        enum_variants.append("    ");
        enum_variants.append(ident);
        enum_variants.append(" = ");
        enum_variants.append(expr.as_str());
        enum_variants.append(",\n");
        from_impl.append("            ");
        from_impl.append(expr.as_str());
        from_impl.append(" => Ok(BuiltinOid::");
        from_impl.append(ident);
        from_impl.append("),\n");
        proof {
            assert(variants.take(i + 1).drop_last() =~= variants.take(i as int));
            assert(variants.take(i + 1).last() == variants[i as int]);
            assert(arms.take(i + 1).drop_last() =~= arms.take(i as int));
            assert(arms.take(i + 1).last() == arms[i as int]);
            assert(enum_variants@ =~= variants_before + variants[i as int]);
            assert(from_impl@ =~= arms_before + arms[i as int]);
        }
        i += 1;
    }
    assert(variants.take(i as int) =~= variants);
    assert(arms.take(i as int) =~= arms);
    let mut out =
        "use crate::{NotBuiltinOid};\n\n#[derive(Copy, Clone, Eq, PartialEq, Hash, Ord, PartialOrd, Debug)]\npub enum BuiltinOid {\n".to_owned();
    out.append(enum_variants.as_str());
    out.append(
        "}\n\nimpl BuiltinOid {\n    pub const fn from_u32(uint: u32) -> Result<BuiltinOid, NotBuiltinOid> {\n        match uint {\n            0 => Err(NotBuiltinOid::Invalid),\n",
    );
    out.append(from_impl.as_str());
    out.append("            _ => Err(NotBuiltinOid::Ambiguous),\n        }\n    }\n}\n");
    out
}

/// The names that are found are names of object identifiers.
proof fn found_names_are_oid_names(items: Seq<items::ItemView>, name: Seq<char>)
    requires
        oids_of(items).dom().contains(name),
    ensures
        is_oid_name(name),
    decreases items.len(),
{
    if items.len() > 0 {
        if !(is_oid_const(items.last()) && items.last()->Const_0.ident == name) {
            found_names_are_oid_names(items.drop_last(), name);
        }
    }
}

/// The last constant of its name gives the value that is found.
proof fn last_const_is_found(items: Seq<items::ItemView>, i: int)
    requires
        0 <= i < items.len(),
        is_oid_const(items[i]),
        forall|j: int|
            i < j < items.len() && #[trigger] is_oid_const(items[j])
                ==> items[j]->Const_0.ident != items[i]->Const_0.ident,
    ensures
        oids_of(items).dom().contains(items[i]->Const_0.ident),
        oids_of(items)[items[i]->Const_0.ident] == items[i]->Const_0.expr,
    decreases items.len(),
{
    if i < items.len() - 1 {
        assert forall|j: int|
            i < j < items.drop_last().len() && #[trigger] is_oid_const(
                items.drop_last()[j],
            ) implies items.drop_last()[j]->Const_0.ident != items[i]->Const_0.ident by {
            assert(is_oid_const(items[j]));
        }
        last_const_is_found(items.drop_last(), i);
        assert(is_oid_const(items[items.len() - 1]) ==> items[items.len() - 1]->Const_0.ident
            != items[i]->Const_0.ident);
    }
}

/// With the object identifiers found among the items themselves, each constant that holds one
/// and is the last of its name becomes an `Oid`.
pub proof fn oid_consts_are_retyped(items: Seq<items::ItemView>, i: int)
    requires
        0 <= i < items.len(),
        is_oid_const(items[i]),
        forall|j: int|
            i < j < items.len() && #[trigger] is_oid_const(items[j])
                ==> items[j]->Const_0.ident != items[i]->Const_0.ident,
    ensures
        with_oid_types(items, oids_of(items))[i] == items::ItemView::Const(
            as_oid(items[i]->Const_0),
        ),
{
    last_const_is_found(items, i);
}

/// With the object identifiers found among the items themselves, nothing but a constant that
/// holds one changes.
pub proof fn other_items_are_kept(items: Seq<items::ItemView>, i: int)
    requires
        0 <= i < items.len(),
        !is_oid_const(items[i]),
    ensures
        with_oid_types(items, oids_of(items))[i] == items[i],
{
    if let items::ItemView::Const(c) = items[i] {
        if oids_of(items).dom().contains(c.ident) {
            found_names_are_oid_names(items, c.ident);
        }
    }
}

/// A constant of type `u32` keeps its type, and no other gets it.
proof fn oid_types_stay(before: items::ItemView, after: items::ItemView)
    requires
        items::keeps_item(before, after),
    ensures
        before is Const <==> after is Const,
        before is Const ==> (before->Const_0.ty == "u32"@ <==> after->Const_0.ty == "u32"@),
{
    reveal_strlit("u32");
    reveal_strlit("extern");
    assert("extern"@.len() == 6);
    assert(!text::occurs_in("u32"@, "extern"@));
}

/// Where items stay what they are but for calling conventions and foreign items, each constant
/// that holds an object identifier, is the last of its name and has a value that stays becomes an
/// `Oid` of its own name and value.
pub proof fn oid_consts_of_the_source_are_retyped(
    before: Seq<items::ItemView>,
    after: Seq<items::ItemView>,
    i: int,
)
    requires
        items::keeps_items(before, after),
        0 <= i < before.len(),
        is_oid_const(before[i]),
        forall|j: int|
            i < j < before.len() && #[trigger] is_oid_const(before[j])
                ==> before[j]->Const_0.ident != before[i]->Const_0.ident,
        !text::occurs_in(before[i]->Const_0.expr, "extern"@),
    ensures
        with_oid_types(after, oids_of(before))[i] == items::ItemView::Const(
            as_oid(before[i]->Const_0),
        ),
{
    last_const_is_found(before, i);
    assert(items::keeps_item(before[i], after[i]));
    oid_types_stay(before[i], after[i]);
}

/// Where items stay what they are but for calling conventions and foreign items, nothing but a
/// constant that holds an object identifier is retyped.
pub proof fn other_items_of_the_source_are_kept(
    before: Seq<items::ItemView>,
    after: Seq<items::ItemView>,
    i: int,
)
    requires
        items::keeps_items(before, after),
        0 <= i < before.len(),
        !is_oid_const(before[i]),
    ensures
        with_oid_types(after, oids_of(before))[i] == after[i],
{
    assert(items::keeps_item(before[i], after[i]));
    oid_types_stay(before[i], after[i]);
    if let items::ItemView::Const(c) = after[i] {
        if oids_of(before).dom().contains(c.ident) {
            found_names_are_oid_names(before, c.ident);
        }
    }
}

/// What was rewritten once is not rewritten again.
pub proof fn rewriting_again_changes_nothing(
    items: Seq<items::ItemView>,
    oids: Map<Seq<char>, Seq<char>>,
)
    ensures
        with_oid_types(with_oid_types(items, oids), oids) == with_oid_types(items, oids),
{
    reveal_strlit("u32");
    reveal_strlit("Oid");
    assert("Oid"@[0] != "u32"@[0]);
    assert(with_oid_types(with_oid_types(items, oids), oids) =~= with_oid_types(items, oids));
}

/// Rewriting constants leaves the structs as they are.
pub proof fn structs_are_kept(items: Seq<items::ItemView>, oids: Map<Seq<char>, Seq<char>>)
    ensures
        graph::struct_places(with_oid_types(items, oids)) == graph::struct_places(items),
        graph::structs(with_oid_types(items, oids)) == graph::structs(items),
{
    places_are_kept(items, oids);
    graph::places_are_structs(items);
    assert(graph::structs(with_oid_types(items, oids)) =~= graph::structs(items));
}

proof fn places_are_kept(items: Seq<items::ItemView>, oids: Map<Seq<char>, Seq<char>>)
    ensures
        graph::struct_places(with_oid_types(items, oids)) == graph::struct_places(items),
    decreases items.len(),
{
    if items.len() > 0 {
        places_are_kept(items.drop_last(), oids);
        assert(with_oid_types(items, oids).drop_last() =~= with_oid_types(
            items.drop_last(),
            oids,
        ));
    }
}

/// There are finitely many object identifiers, so their enumeration lists each of them once, in
/// the order of their names.
pub proof fn every_oid_is_enumerated(items: Seq<items::ItemView>)
    ensures
        ordered::lists_in_order(
            ordered::in_order(oids_of(items).dom()),
            oids_of(items).dom(),
        ),
{
    oids_are_finite(items);
    ordered::finite_names_have_an_order(oids_of(items).dom());
}

proof fn oids_are_finite(items: Seq<items::ItemView>)
    ensures
        oids_of(items).dom().finite(),
    decreases items.len(),
{
    if items.len() > 0 {
        oids_are_finite(items.drop_last());
    }
}

/// A name is that of an object identifier where it ends in `OID`, whatever stands before, but for
/// `HEAP_HASOID` alone, where it ends in `RelationId`, and where it is `TemplateDbOid`; nowhere
/// else.
pub proof fn names_of_object_identifiers(p: Seq<char>, name: Seq<char>)
    ensures
        is_oid_name(p + "OID"@) <==> p != "HEAP_HAS"@,
        is_oid_name(p + "RelationId"@),
        is_oid_name("TemplateDbOid"@),
        is_oid_name(name) ==> name == "TemplateDbOid"@ || (exists|q: Seq<char>|
            name == #[trigger] (q + "OID"@)) || (exists|q: Seq<char>|
            name == #[trigger] (q + "RelationId"@)),
{
    reveal_strlit("OID");
    reveal_strlit("RelationId");
    reveal_strlit("TemplateDbOid");
    reveal_strlit("HEAP_HAS");
    reveal_strlit("HEAP_HASOID");
    text::tail_ends(p, "OID"@);
    text::tail_ends(p, "RelationId"@);
    text::ending_is_a_tail(name, "OID"@);
    text::ending_is_a_tail(name, "RelationId"@);
    assert("HEAP_HAS"@ + "OID"@ =~= "HEAP_HASOID"@);
    let s = p + "OID"@;
    assert(s.take(p.len() as int) =~= p);
    if s == "HEAP_HASOID"@ {
        assert(p =~= "HEAP_HAS"@);
    }
    assert(s[s.len() - 1] == 'D');
    if text::ends_in(s, "RelationId"@) {
        let q = choose|q: Seq<char>| s == #[trigger] (q + "RelationId"@);
        text::ending_is_a_tail(s, "RelationId"@);
        assert((q + "RelationId"@)[s.len() - 1] == 'd');
    }
    assert("TemplateDbOid"@[12] == 'd');
}

/// The object identifiers of a list: the names of its `u32` constants that are names of object
/// identifiers, each with the value of the last such constant.
pub proof fn object_identifiers_of_a_list(items: Seq<items::ItemView>, name: Seq<char>)
    ensures
        oids_of(items).dom().contains(name) <==> is_oid_name(name) && exists|i: int|
            {
                &&& 0 <= i < items.len()
                &&& #[trigger] items[i] is Const
                &&& items[i]->Const_0.ident == name
                &&& items[i]->Const_0.ty == "u32"@
            },
        oids_of(items).dom().contains(name) ==> exists|i: int|
            {
                &&& 0 <= i < items.len()
                &&& #[trigger] items[i] is Const
                &&& items[i]->Const_0.ident == name
                &&& items[i]->Const_0.ty == "u32"@
                &&& items[i]->Const_0.expr == oids_of(items)[name]
                &&& forall|j: int|
                    i < j < items.len() && #[trigger] items[j] is Const && items[j]->Const_0.ident
                        == name ==> items[j]->Const_0.ty != "u32"@
            },
    decreases items.len(),
{
    if items.len() > 0 {
        let fewer = items.drop_last();
        let n = items.len() - 1;
        object_identifiers_of_a_list(fewer, name);
        if items[n] is Const && items[n]->Const_0.ident == name && items[n]->Const_0.ty == "u32"@ {
            assert(items[n] is Const);
        } else {
            if oids_of(fewer).dom().contains(name) {
                let i = choose|i: int|
                    {
                        &&& 0 <= i < fewer.len()
                        &&& #[trigger] fewer[i] is Const
                        &&& fewer[i]->Const_0.ident == name
                        &&& fewer[i]->Const_0.ty == "u32"@
                        &&& fewer[i]->Const_0.expr == oids_of(fewer)[name]
                        &&& forall|j: int|
                            i < j < fewer.len() && #[trigger] fewer[j] is Const
                                && fewer[j]->Const_0.ident == name ==> fewer[j]->Const_0.ty
                                != "u32"@
                    };
                assert(items[i] is Const);
                assert forall|j: int|
                    i < j < items.len() && #[trigger] items[j] is Const && items[j]->Const_0.ident
                        == name implies items[j]->Const_0.ty != "u32"@ by {
                    if j < n {
                        assert(fewer[j] is Const);
                    }
                }
            }
            if exists|i: int|
                {
                    &&& 0 <= i < items.len()
                    &&& #[trigger] items[i] is Const
                    &&& items[i]->Const_0.ident == name
                    &&& items[i]->Const_0.ty == "u32"@
                } {
                let i = choose|i: int|
                    {
                        &&& 0 <= i < items.len()
                        &&& #[trigger] items[i] is Const
                        &&& items[i]->Const_0.ident == name
                        &&& items[i]->Const_0.ty == "u32"@
                    };
                assert(fewer[i] is Const);
            }
        }
    }
}

/// A constant is retyped exactly where its type is `u32` and an object identifier of its name has
/// its value, and then it is written with its own name and value, as an `Oid`; nothing else
/// changes.
pub proof fn constants_become_object_identifiers(
    item: items::ItemView,
    oids: Map<Seq<char>, Seq<char>>,
)
    ensures
        match item {
            items::ItemView::Const(c) => if c.ty == seq!['u', '3', '2'] && oids.dom().contains(
                c.ident,
            ) && oids[c.ident] == c.expr {
                &&& with_oid_type(item, oids) is Const
                &&& with_oid_type(item, oids)->Const_0.ident == c.ident
                &&& with_oid_type(item, oids)->Const_0.ty == seq!['O', 'i', 'd']
                &&& with_oid_type(item, oids)->Const_0.expr == "Oid("@ + c.expr + ")"@
                &&& with_oid_type(item, oids)->Const_0.tokens == "pub const "@ + c.ident
                    + ": Oid = Oid("@ + c.expr + ");"@
            } else {
                with_oid_type(item, oids) == item
            },
            _ => with_oid_type(item, oids) == item,
        },
{
    reveal_strlit("u32");
    reveal_strlit("Oid");
    assert("u32"@ =~= seq!['u', '3', '2']);
    assert("Oid"@ =~= seq!['O', 'i', 'd']);
}

/// Each item of a list is looked at by itself, and stays in its place.
pub proof fn items_are_retyped_in_place(
    items: Seq<items::ItemView>,
    oids: Map<Seq<char>, Seq<char>>,
    i: int,
)
    requires
        0 <= i < items.len(),
    ensures
        with_oid_types(items, oids).len() == items.len(),
        with_oid_types(items, oids)[i] == with_oid_type(items[i], oids),
        with_oid_types(items, oids)[i] is Struct <==> items[i] is Struct,
        with_oid_types(items, oids)[i] is ForeignMod <==> items[i] is ForeignMod,
        items[i] is ForeignMod ==> with_oid_types(items, oids)[i] == items[i],
{
}

/// Every `u32` constant with the name of an object identifier that is the last of its name becomes
/// an `Oid` and a variant of the enumeration.
pub proof fn each_object_identifier_is_found(items: Seq<items::ItemView>, i: int)
    requires
        0 <= i < items.len(),
        items[i] is Const,
        items[i]->Const_0.ty == "u32"@,
        items[i]->Const_0.ident == "TemplateDbOid"@ || (exists|p: Seq<char>|
            p != "HEAP_HAS"@ && items[i]->Const_0.ident == #[trigger] (p + "OID"@)) || (exists|
            p: Seq<char>,
        | items[i]->Const_0.ident == #[trigger] (p + "RelationId"@)),
        forall|j: int|
            i < j < items.len() && #[trigger] items[j] is Const
                ==> items[j]->Const_0.ident != items[i]->Const_0.ident,
    ensures
        oids_of(items).dom().contains(items[i]->Const_0.ident),
        oids_of(items)[items[i]->Const_0.ident] == items[i]->Const_0.expr,
        with_oid_types(items, oids_of(items))[i]->Const_0.tokens == "pub const "@
            + items[i]->Const_0.ident + ": Oid = Oid("@ + items[i]->Const_0.expr + ");"@,
{
    let name = items[i]->Const_0.ident;
    names_of_object_identifiers(Seq::empty(), name);
    if exists|p: Seq<char>| p != "HEAP_HAS"@ && name == #[trigger] (p + "OID"@) {
        let p = choose|p: Seq<char>| p != "HEAP_HAS"@ && name == #[trigger] (p + "OID"@);
        names_of_object_identifiers(p, name);
    }
    if exists|p: Seq<char>| name == #[trigger] (p + "RelationId"@) {
        let p = choose|p: Seq<char>| name == #[trigger] (p + "RelationId"@);
        names_of_object_identifiers(p, name);
    }
    oid_consts_are_retyped(items, i);
    last_const_is_found(items, i);
}

/// The enumeration: a variant for each object identifier, in the order of the names, with its
/// value, and for each an arm that leads from its value to its variant, between the one for zero
/// and the one for all other numbers.
pub proof fn object_identifiers_are_enumerated(
    oids: Map<Seq<char>, Seq<char>>,
    names: Seq<Seq<char>>,
)
    requires
        ordered::lists_in_order(names, oids.dom()),
    ensures
        oid_impl_text(oids)
            == "use crate::{NotBuiltinOid};\n\n#[derive(Copy, Clone, Eq, PartialEq, Hash, Ord, PartialOrd, Debug)]\npub enum BuiltinOid {\n"@
            + text::concat(
            Seq::new(names.len(), |i: int| "    "@ + names[i] + " = "@ + oids[names[i]] + ",\n"@),
        )
            + "}\n\nimpl BuiltinOid {\n    pub const fn from_u32(uint: u32) -> Result<BuiltinOid, NotBuiltinOid> {\n        match uint {\n            0 => Err(NotBuiltinOid::Invalid),\n"@
            + text::concat(
            Seq::new(
                names.len(),
                |i: int|
                    "            "@ + oids[names[i]] + " => Ok(BuiltinOid::"@ + names[i] + "),\n"@,
            ),
        ) + "            _ => Err(NotBuiltinOid::Ambiguous),\n        }\n    }\n}\n"@,
{
    ordered::list_is_in_order(names, oids.dom());
    assert(Seq::new(names.len(), |i: int| variant_text(names[i], oids[names[i]])) =~= Seq::new(
        names.len(),
        |i: int| "    "@ + names[i] + " = "@ + oids[names[i]] + ",\n"@,
    ));
    assert(Seq::new(names.len(), |i: int| arm_text(names[i], oids[names[i]])) =~= Seq::new(
        names.len(),
        |i: int| "            "@ + oids[names[i]] + " => Ok(BuiltinOid::"@ + names[i] + "),\n"@,
    ));
}

/// A map of texts has the same names, each with the characters of its text.
pub proof fn values_keep_their_names(m: Map<Seq<char>, String>, name: Seq<char>)
    ensures
        value_texts(m).dom().contains(name) <==> m.dom().contains(name),
        m.dom().contains(name) ==> value_texts(m)[name] == m[name]@,
{
}

} // verus!
