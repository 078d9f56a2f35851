//! From the text that the generator of bindings gives to the sources of the bindings.
use crate::enums;
use crate::enums::EnumNames;
use crate::graph;
use crate::items;
use crate::items::Item;
use crate::linkage;
use crate::nodes;
use crate::oids;
use crate::ordered;
use crate::ordered::OrderedMap;
use crate::text;
use vstd::prelude::*;
use vstd::string::*;

verus! {

/// The whole item as it is written.
pub open spec fn tokens_of(item: items::ItemView) -> Seq<char> {
    match item {
        items::ItemView::Const(c) => c.tokens,
        items::ItemView::Struct(s) => s.tokens,
        items::ItemView::ForeignMod { tokens } => tokens,
        items::ItemView::Other { tokens } => tokens,
    }
}

/// The item as it is written, a block of foreign items with the guard in front of it.
pub open spec fn guarded(item: items::ItemView) -> Seq<char> {
    if item is ForeignMod {
        "#[pgrx_macros::pg_guard]\n"@ + tokens_of(item) + "\n"@
    } else {
        tokens_of(item) + "\n"@
    }
}

/// The items one after the other, the blocks of foreign items guarded.
pub open spec fn guarded_text(list: Seq<items::ItemView>) -> Seq<char> {
    text::concat(Seq::new(list.len(), |i: int| guarded(list[i])))
}

/// The implementations for the nodes among the items.
pub open spec fn node_impls_text(list: Seq<items::ItemView>) -> Seq<char> {
    nodes::impls_text(
        ordered::in_order(
            nodes::node_names(graph::structs(list), graph::structs(list).len() as int),
        ),
    )
}

/// The items after all rewriting: object identifiers retyped, foreign items guarded, nodes
/// marked.
pub open spec fn rewritten_text(
    list: Seq<items::ItemView>,
    oids: Map<Seq<char>, Seq<char>>,
) -> Seq<char> {
    guarded_text(oids::with_oid_types(list, oids)) + node_impls_text(
        oids::with_oid_types(list, oids),
    )
}

/// The items one after the other, each block of foreign items under `#[pg_guard]`.
pub fn apply_pg_guard(items: &Vec<Item>) -> (r: String)
    ensures
        r@ == guarded_text(items::views(items@)),
        r@ == text::concat(
            Seq::new(
                items@.len(),
                |i: int|
                    match items@[i] {
                        Item::ForeignMod { tokens } => "#[pgrx_macros::pg_guard]\n"@ + tokens@
                            + "\n"@,
                        Item::Const(c) => c.tokens@ + "\n"@,
                        Item::Struct(s) => s.tokens@ + "\n"@,
                        Item::Other { tokens } => tokens@ + "\n"@,
                    },
            ),
        ),
{
    let ghost list = items::views(items@);
    let ghost pieces = Seq::new(list.len(), |i: int| guarded(list[i]));
    let mut out = String::new();
    let mut i: usize = 0;
    while i < items.len()
        invariant
            i <= items@.len(),
            list == items::views(items@),
            pieces == Seq::new(list.len(), |i: int| guarded(list[i])),
            out@ == text::concat(pieces.take(i as int)),
        decreases items@.len() - i,
    {
        let ghost before = out@;
        match &items[i] {
            Item::ForeignMod { tokens } => {
                out.append("#[pgrx_macros::pg_guard]\n");
                out.append(tokens.as_str());
            },
            Item::Const(c) => out.append(c.tokens.as_str()),
            Item::Struct(s) => out.append(s.tokens.as_str()),
            Item::Other { tokens } => out.append(tokens.as_str()),
        }
        out.append("\n");
        proof {
            assert(out@ =~= before + pieces[i as int]);
            assert(pieces.take(i + 1).drop_last() =~= pieces.take(i as int));
            assert(pieces.take(i + 1).last() == pieces[i as int]);
        }
        i += 1;
    }
    assert(pieces.take(i as int) =~= pieces);
    assert(pieces =~= Seq::new(
        items@.len(),
        |i: int|
            match items@[i] {
                Item::ForeignMod { tokens } => "#[pgrx_macros::pg_guard]\n"@ + tokens@ + "\n"@,
                Item::Const(c) => c.tokens@ + "\n"@,
                Item::Struct(s) => s.tokens@ + "\n"@,
                Item::Other { tokens } => tokens@ + "\n"@,
            },
    ));
    out
}

/// The items after all rewriting, where `oids` are the object identifiers.
pub fn rewrite_items(items: Vec<Item>, oids: &OrderedMap<String>) -> (r: String)
    requires
        oids.wf(),
    ensures
        r@ == rewritten_text(items::views(items@), oids::value_texts(oids@)),
{
    let items_vec = oids::rewrite_oid_consts(items, oids);
    let mut out = apply_pg_guard(&items_vec);
    let pgnode_impls = nodes::impl_pg_node(items_vec.as_slice());
    out.append(pgnode_impls.as_str());
    out
}

/// The text of which the items are rewritten: what the generator gave, the deprecated
/// constants, and the declarations of the C shim.
pub fn binding_source(bindings: &str, enum_names: &EnumNames, cshim: &str) -> (r: String)
    requires
        enum_names.wf(),
    ensures
        r@ == bindings@ + enums::consts_text(enum_names@) + cshim@,
        r@ == source_text(bindings@, enum_names@, cshim@),
{
    let mut r = bindings.to_owned();
    let consts = enum_names.deprecated_consts();
    r.append(consts.as_str());
    r.append(cshim);
    r
}

/// The text of which the items are rewritten.
pub open spec fn source_text(
    bindings: Seq<char>,
    enumerations: Map<Seq<char>, enums::Variants>,
    cshim: Seq<char>,
) -> Seq<char> {
    bindings + enums::consts_text(enumerations) + cshim
}

/// The sources of the bindings and of the enumeration of object identifiers.
pub struct Sources {
    pub binding: String,
    pub binding_oids: String,
}

/// The imports that the bindings begin with.
pub open spec fn imports() -> Seq<char> {
    "use crate as pg_sys;\nuse crate::{Datum, MultiXactId, Oid, PgNode, TransactionId};\n"@
}

/// The sources, from the items of the text that the generator gave and the same items after the
/// foreign ones among them were linked.
pub open spec fn are_sources_of(
    sources: Sources,
    source: Seq<items::ItemView>,
    linked: Seq<items::ItemView>,
) -> bool {
    &&& sources.binding@ == imports() + rewritten_text(linked, oids::oids_of(source))
    &&& sources.binding_oids@ == oids::oid_impl_text(oids::oids_of(source))
}

/// The sources, from the items of the text that the generator gave and the same items after the
/// foreign ones among them were linked.
pub fn sources_of(source: &Vec<Item>, linked: Vec<Item>) -> (r: Sources)
    ensures
        are_sources_of(r, items::views(source@), items::views(linked@)),
{
    let oids = oids::extract_oids(source.as_slice());
    let rewritten = rewrite_items(linked, &oids);
    let mut binding =
        "use crate as pg_sys;\nuse crate::{Datum, MultiXactId, Oid, PgNode, TransactionId};\n".to_owned();
    binding.append(rewritten.as_str());
    let binding_oids = oids::format_builtin_oid_impl(&oids);
    Sources { binding, binding_oids }
}

/// The sources of the bindings, from the text that the generator gave. The items that are
/// rewritten are those of the text, with their foreign items linked.
pub fn generate_bindings(source: &str) -> (r: Result<Sources, syn::Error>)
    ensures
        match r {
            Ok(sources) => {
                &&& items::parsed_items(source@) is Some
                &&& linkage::linked_items(source@) is Some
                &&& items::keeps_items(
                    items::parsed_items(source@)->0,
                    linkage::linked_items(source@)->0,
                )
                &&& are_sources_of(
                    sources,
                    items::parsed_items(source@)->0,
                    linkage::linked_items(source@)->0,
                )
            },
            Err(_) => items::parsed_items(source@) is None,
        },
{
    let items: Vec<Item> = match items::parse_items(source) {
        Ok(list) => list,
        Err(e) => {
            return Err(e);
        },
    };
    match linkage::link_items(source) {
        Ok(linked) => Ok(sources_of(&items, linked)),
        Err(e) => Err(e),
    }
}

/// The line that generated files begin with.
pub open spec fn header() -> Seq<char> {
    "/* Automatically generated by bindgen. Do not hand-edit. */\n"@
}

/// The C source of the shim.
pub open spec fn cshim_text(
    headers: Seq<char>,
    wrappers: Seq<char>,
    by_hand: Seq<char>,
) -> Seq<char> {
    header() + headers + "\n"@ + wrappers + "\n"@ + by_hand
}

/// A generated file with the line that such files begin with.
pub open spec fn headed(contents: Seq<char>) -> Seq<char> {
    header() + contents
}

/// A generated file with the line that such files begin with.
pub fn with_header(contents: &str) -> (r: String)
    ensures
        r@ == header() + contents@,
        r@ == headed(contents@),
{
    let mut r = "/* Automatically generated by bindgen. Do not hand-edit. */\n".to_owned();
    r.append(contents);
    r
}

/// The C source of the shim: the headers, the wrappers around inline functions that the
/// generator wrote, and the wrappers written by hand.
pub fn cshim_source(headers: &str, wrappers: &str, by_hand: &str) -> (r: String)
    ensures
        r@ == header() + headers@ + "\n"@ + wrappers@ + "\n"@ + by_hand@,
        r@ == cshim_text(headers@, wrappers@, by_hand@),
{
    let mut r = with_header(headers);
    r.append("\n");
    r.append(wrappers);
    r.append("\n");
    r.append(by_hand);
    r
}

/// The nodes among the rewritten items are those among the items as they were.
pub proof fn nodes_do_not_depend_on_retyping(
    list: Seq<items::ItemView>,
    oids: Map<Seq<char>, Seq<char>>,
)
    ensures
        node_impls_text(oids::with_oid_types(list, oids)) == node_impls_text(list),
{
    oids::structs_are_kept(list, oids);
}

/// The nodes that are marked are those among the items that the generator gave.
pub proof fn nodes_are_those_of_the_source(
    source: Seq<items::ItemView>,
    linked: Seq<items::ItemView>,
    oids: Map<Seq<char>, Seq<char>>,
)
    requires
        items::keeps_items(source, linked),
    ensures
        rewritten_text(linked, oids) == guarded_text(oids::with_oid_types(linked, oids))
            + node_impls_text(source),
{
    nodes_do_not_depend_on_retyping(linked, oids);
    graph::structs_stay(source, linked);
    nodes::same_nodes(
        graph::structs(source),
        graph::structs(linked),
        graph::structs(source).len() as int,
    );
}

/// An item of the text that the generator gave is written as it is, where it is no constant that
/// holds an object identifier and the word `extern` does not stand in it.
pub proof fn other_items_are_written_as_they_are(
    source: Seq<items::ItemView>,
    linked: Seq<items::ItemView>,
    i: int,
)
    requires
        items::keeps_items(source, linked),
        0 <= i < source.len(),
        !oids::is_oid_const(source[i]),
        !text::occurs_in(tokens_of(source[i]), "extern"@),
    ensures
        guarded(oids::with_oid_types(linked, oids::oids_of(source))[i]) == guarded(source[i]),
{
    assert(items::keeps_item(source[i], linked[i]));
    oids::other_items_of_the_source_are_kept(source, linked, i);
}

/// Each block of foreign items, whatever stands in it, is written behind the guard; each other
/// item is written as it is; a line ends after each.
pub proof fn each_foreign_block_is_guarded(
    tokens: Seq<char>,
    c: items::ConstView,
    s: items::StructView,
)
    ensures
        guarded(items::ItemView::ForeignMod { tokens }) == "#[pgrx_macros::pg_guard]\n"@ + tokens
            + "\n"@,
        guarded(items::ItemView::Other { tokens }) == tokens + "\n"@,
        guarded(items::ItemView::Const(c)) == c.tokens + "\n"@,
        guarded(items::ItemView::Struct(s)) == s.tokens + "\n"@,
{
}

/// Items are written one by one: none, one, and one list after another.
pub proof fn items_are_written_one_by_one(
    a: Seq<items::ItemView>,
    b: Seq<items::ItemView>,
    item: items::ItemView,
)
    ensures
        guarded_text(Seq::empty()) == Seq::<char>::empty(),
        guarded_text(seq![item]) == guarded(item),
        guarded_text(a + b) == guarded_text(a) + guarded_text(b),
{
    let pieces = |list: Seq<items::ItemView>| Seq::new(list.len(), |i: int| guarded(list[i]));
    assert(pieces(Seq::empty()) =~= Seq::empty());
    assert(pieces(seq![item]) =~= seq![guarded(item)]);
    assert(pieces(a + b) =~= pieces(a) + pieces(b));
    text::texts_follow_each_other(pieces(a), pieces(b), guarded(item));
}

/// Each block of foreign items of the text that the generator gave stands in the bindings behind
/// the guard, in the form that linking gave it.
pub proof fn foreign_blocks_of_the_source_are_guarded(
    source: Seq<items::ItemView>,
    linked: Seq<items::ItemView>,
    i: int,
)
    requires
        items::keeps_items(source, linked),
        0 <= i < source.len(),
        source[i] is ForeignMod,
    ensures
        linked[i] is ForeignMod,
        exists|a: Seq<char>, b: Seq<char>|
            rewritten_text(linked, oids::oids_of(source)) == #[trigger] (a + (
            "#[pgrx_macros::pg_guard]\n"@ + linked[i]->ForeignMod_tokens + "\n"@) + b),
{
    assert(items::keeps_item(source[i], linked[i]));
    let oids = oids::oids_of(source);
    let list = oids::with_oid_types(linked, oids);
    let pieces = Seq::new(list.len(), |i: int| guarded(list[i]));
    let piece = "#[pgrx_macros::pg_guard]\n"@ + linked[i]->ForeignMod_tokens + "\n"@;
    assert(pieces[i] == piece);
    text::each_text_stands_in_the_whole(pieces, i);
    let a = text::concat(pieces.take(i));
    let b = text::concat(pieces.skip(i + 1)) + node_impls_text(list);
    assert(rewritten_text(linked, oids) =~= a + piece + b);
}

/// Each struct of the text that the generator gave that begins with a tag, whatever follows it, is
/// marked as a node in the bindings.
pub proof fn tagged_structs_of_the_source_are_marked(
    source: Seq<items::ItemView>,
    linked: Seq<items::ItemView>,
    i: int,
)
    requires
        items::keeps_items(source, linked),
        0 <= i < source.len(),
        source[i] is Struct,
        source[i]->Struct_0.fields.len() > 0,
        source[i]->Struct_0.fields[0] is Some,
        source[i]->Struct_0.fields[0]->0.len() > 0,
        source[i]->Struct_0.fields[0]->0.last() == "NodeTag"@,
    ensures
        exists|a: Seq<char>, b: Seq<char>|
            rewritten_text(linked, oids::oids_of(source)) == #[trigger] (a + nodes::node_impls(
                source[i]->Struct_0.ident,
            ) + b),
{
    let oids = oids::oids_of(source);
    nodes_are_those_of_the_source(source, linked, oids);
    graph::all_structs_have_places(source, i);
    let structs = graph::structs(source);
    let k = graph::struct_places(source).index_of(i);
    assert(source[graph::struct_places(source)[k]] == items::ItemView::Struct(structs[k]));
    nodes::each_tagged_struct_is_marked(structs, k);
    let impls = nodes::node_impls(source[i]->Struct_0.ident);
    let (a, b) = choose|a: Seq<char>, b: Seq<char>|
        nodes::impls_text(ordered::in_order(nodes::node_names(structs, structs.len() as int)))
            == #[trigger] (a + impls + b);
    let before = guarded_text(oids::with_oid_types(linked, oids)) + a;
    assert(rewritten_text(linked, oids) =~= before + impls + b);
}

/// Each `u32` constant of the text that the generator gave that has the name of an object
/// identifier, is the last of its name and holds no calling convention stands in the bindings as
/// an `Oid`, under its own name and with its own value.
pub proof fn object_identifiers_of_the_source_are_written(
    source: Seq<items::ItemView>,
    linked: Seq<items::ItemView>,
    i: int,
)
    requires
        items::keeps_items(source, linked),
        0 <= i < source.len(),
        source[i] is Const,
        source[i]->Const_0.ty == "u32"@,
        exists|p: Seq<char>|
            p != "HEAP_HAS"@ && source[i]->Const_0.ident == #[trigger] (p + "OID"@),
        forall|j: int|
            i < j < source.len() && #[trigger] source[j] is Const ==> source[j]->Const_0.ident
                != source[i]->Const_0.ident,
        !text::occurs_in(source[i]->Const_0.expr, "extern"@),
    ensures
        exists|a: Seq<char>, b: Seq<char>|
            rewritten_text(linked, oids::oids_of(source)) == #[trigger] (a + ("pub const "@
                + source[i]->Const_0.ident + ": Oid = Oid("@ + source[i]->Const_0.expr + ");"@
                + "\n"@) + b),
{
    let oids = oids::oids_of(source);
    let c = source[i]->Const_0;
    let p = choose|p: Seq<char>| p != "HEAP_HAS"@ && c.ident == #[trigger] (p + "OID"@);
    oids::names_of_object_identifiers(p, c.ident);
    oids::oid_consts_of_the_source_are_retyped(source, linked, i);
    let list = oids::with_oid_types(linked, oids);
    let pieces = Seq::new(list.len(), |i: int| guarded(list[i]));
    let piece = "pub const "@ + c.ident + ": Oid = Oid("@ + c.expr + ");"@ + "\n"@;
    assert(pieces[i] == piece);
    text::each_text_stands_in_the_whole(pieces, i);
    let a = text::concat(pieces.take(i));
    let b = text::concat(pieces.skip(i + 1)) + node_impls_text(list);
    assert(rewritten_text(linked, oids) =~= a + piece + b);
}

/// The bindings are the imports, the items and the marks of the nodes; the other source is the
/// enumeration of the object identifiers of the text that the generator gave.
pub proof fn sources_are_made_of_their_parts(
    sources: Sources,
    source: Seq<items::ItemView>,
    linked: Seq<items::ItemView>,
)
    requires
        are_sources_of(sources, source, linked),
    ensures
        sources.binding@
            == "use crate as pg_sys;\nuse crate::{Datum, MultiXactId, Oid, PgNode, TransactionId};\n"@
            + (guarded_text(oids::with_oid_types(linked, oids::oids_of(source))) + node_impls_text(
            oids::with_oid_types(linked, oids::oids_of(source)),
        )),
        sources.binding_oids@ == oids::oid_impl_text(oids::oids_of(source)),
{
}

/// The marks of the nodes are those of the names found among all structs, in the order of the
/// names.
pub proof fn marks_are_those_of_the_structs(list: Seq<items::ItemView>, names: Seq<Seq<char>>)
    requires
        ordered::lists_in_order(
            names,
            nodes::node_names(graph::structs(list), graph::structs(list).len() as int),
        ),
    ensures
        node_impls_text(list) == nodes::impls_text(names),
{
    ordered::list_is_in_order(
        names,
        nodes::node_names(graph::structs(list), graph::structs(list).len() as int),
    );
}

/// Texts are put together in their order: what is rewritten, and the C source of the shim, which
/// begins with the line that all generated files begin with.
pub proof fn files_are_put_together_in_order(
    first: Seq<char>,
    second: Seq<char>,
    third: Seq<char>,
    enumerations: Map<Seq<char>, enums::Variants>,
)
    ensures
        source_text(first, enumerations, third) == first + enums::consts_text(enumerations) + third,
        header() == "/* Automatically generated by bindgen. Do not hand-edit. */\n"@,
        headed(first) == "/* Automatically generated by bindgen. Do not hand-edit. */\n"@ + first,
        cshim_text(first, second, third)
            == "/* Automatically generated by bindgen. Do not hand-edit. */\n"@ + first + seq!['\n']
            + second + seq!['\n'] + third,
{
    reveal_strlit("\n");
    assert("\n"@ =~= seq!['\n']);
}

} // verus!
