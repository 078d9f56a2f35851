use pgrx_bindgen::archive::Bindings;
use pgrx_bindgen::enums::{EnumNames, EnumVariantValue};
use pgrx_bindgen::graph::{dfs_find_nodes, first_field_name, StructGraph};
use pgrx_bindgen::items::{ConstItem, Item, StructItem};
use pgrx_bindgen::nodes::{find_nodes, impl_pg_node};
use pgrx_bindgen::oids::{
    extract_oids, format_builtin_oid_impl, is_builtin_oid, rewrite_oid_consts,
};
use pgrx_bindgen::ordered::OrderedMap;
use pgrx_bindgen::rewrite::{
    apply_pg_guard, binding_source, cshim_source, generate_bindings, rewrite_items, sources_of,
    with_header,
};

fn constant(ident: &str, ty: &str, expr: &str) -> Item {
    Item::Const(ConstItem {
        ident: ident.to_string(),
        ty: ty.to_string(),
        expr: expr.to_string(),
        tokens: format!("pub const {} : {} = {} ;", ident, ty, expr),
    })
}

fn structure(ident: &str, first: Option<&str>) -> Item {
    Item::Struct(StructItem {
        ident: ident.to_string(),
        fields: match first {
            Some(name) => vec![Some(vec!["pg_sys".to_string(), name.to_string()]), None],
            None => Vec::new(),
        },
        tokens: format!("struct {}", ident),
    })
}

fn names(set: &OrderedMap<()>) -> Vec<String> {
    (0..set.len()).map(|i| set.key(i).to_string()).collect()
}

fn impls(name: &str) -> String {
    format!(
        "impl pg_sys::seal::Sealed for {0} {{}}\nimpl pg_sys::PgNode for {0} {{}}\nimpl ::core::fmt::Display for {0} {{\n    fn fmt(&self, f: &mut ::core::fmt::Formatter<'_>) -> ::core::fmt::Result {{\n        self.display_node().fmt(f)\n    }}\n}}\n",
        name
    )
}

#[test]
fn names_of_object_identifiers() {
    for name in ["BOOLOID", "OID", "TypeRelationId", "RelationId", "TemplateDbOid"] {
        assert!(is_builtin_oid(name));
    }
    for name in ["HEAP_HASOID", "OIDS", "Oid", "TemplateDbOids", "RelationIds", ""] {
        assert!(!is_builtin_oid(name));
    }
}

#[test]
fn object_identifiers_are_extracted_in_order() {
    let items = vec![
        constant("TEXTOID", "u32", "25"),
        constant("BOOLOID", "u32", "16"),
        constant("INT8OID", "i32", "20"),
        constant("HEAP_HASOID", "u32", "8"),
        constant("NAMEDATALEN", "u32", "64"),
        constant("TEXTOID", "u32", "26"),
        structure("SOMEOID", None),
    ];
    let oids = extract_oids(&items);
    assert_eq!(oids.len(), 2);
    assert_eq!((oids.key(0), oids.value(0).as_str()), ("BOOLOID", "16"));
    assert_eq!((oids.key(1), oids.value(1).as_str()), ("TEXTOID", "26"));
}

#[test]
fn object_identifiers_are_retyped() {
    let items = || {
        vec![
            constant("TEXTOID", "u32", "25"),
            constant("BOOLOID", "u32", "16"),
            constant("TEXTOID", "u32", "26"),
            constant("NAMEDATALEN", "u32", "64"),
            structure("S", None),
        ]
    };
    let oids = extract_oids(&items());
    let rewritten = rewrite_oid_consts(items(), &oids);
    assert_eq!(rewritten.len(), 5);
    let tokens: Vec<String> = rewritten
        .iter()
        .map(|item| match item {
            Item::Const(c) => format!("{}|{}|{}|{}", c.ident, c.ty, c.expr, c.tokens),
            Item::Struct(s) => s.tokens.clone(),
            _ => panic!("another item"),
        })
        .collect();
    assert_eq!(tokens[0], "TEXTOID|u32|25|pub const TEXTOID : u32 = 25 ;");
    assert_eq!(tokens[1], "BOOLOID|Oid|Oid(16)|pub const BOOLOID: Oid = Oid(16);");
    assert_eq!(tokens[2], "TEXTOID|Oid|Oid(26)|pub const TEXTOID: Oid = Oid(26);");
    assert_eq!(tokens[3], "NAMEDATALEN|u32|64|pub const NAMEDATALEN : u32 = 64 ;");
    assert_eq!(tokens[4], "struct S");

    let again = apply_pg_guard(&rewrite_oid_consts(rewrite_oid_consts(items(), &oids), &oids));
    assert_eq!(again, apply_pg_guard(&rewritten));
}

#[test]
fn the_enumeration_of_object_identifiers() {
    let oids = extract_oids(&vec![constant("TEXTOID", "u32", "25"), constant("BOOLOID", "u32", "16")]);
    assert_eq!(
        format_builtin_oid_impl(&oids),
        "use crate::{NotBuiltinOid};

#[derive(Copy, Clone, Eq, PartialEq, Hash, Ord, PartialOrd, Debug)]
pub enum BuiltinOid {
    BOOLOID = 16,
    TEXTOID = 25,
}

impl BuiltinOid {
    pub const fn from_u32(uint: u32) -> Result<BuiltinOid, NotBuiltinOid> {
        match uint {
            0 => Err(NotBuiltinOid::Invalid),
            16 => Ok(BuiltinOid::BOOLOID),
            25 => Ok(BuiltinOid::TEXTOID),
            _ => Err(NotBuiltinOid::Ambiguous),
        }
    }
}
"
    );
}

#[test]
fn structs_are_linked_both_ways() {
    let items = vec![
        structure("Expr", Some("NodeTag")),
        constant("X", "u32", "1"),
        structure("Var", Some("Expr")),
        structure("Const", Some("Expr")),
        structure("Lone", None),
        structure("Odd", Some("Missing")),
    ];
    let graph = StructGraph::from_items(&items);
    assert_eq!(graph.descriptors.len(), 5);
    assert_eq!(graph.item_offset_tab, vec![Some(0), None, Some(1), Some(2), Some(3), Some(4)]);
    assert_eq!(graph.descriptors[0].children, vec![1, 2]);
    assert_eq!(graph.descriptors[0].parent, None);
    assert_eq!(graph.descriptors[1].parent, Some(0));
    assert_eq!(graph.descriptors[2].parent, Some(0));
    assert_eq!(graph.descriptors[2].items_offset, 3);
    assert_eq!(graph.descriptors[4].parent, None);
    assert_eq!(graph.name_tab.get("Lone"), Some(&3));
    assert_eq!(first_field_name(graph.descriptors[1].struct_), Some("Expr"));

    let mut children = graph.descriptors[0].children();
    assert_eq!(children.next(), Some(1));
    assert_eq!(children.next(), Some(2));
    assert_eq!(children.next(), None);
    assert_eq!(children.next(), None);
}

#[test]
fn a_struct_without_a_named_first_type_has_no_parent() {
    let odd = |fields: Vec<Option<Vec<String>>>| {
        Item::Struct(StructItem { ident: "S".to_string(), fields, tokens: String::new() })
    };
    for item in [odd(Vec::new()), odd(vec![None]), odd(vec![Some(Vec::new())])] {
        let items = vec![item];
        let graph = StructGraph::from_items(&items);
        assert_eq!(first_field_name(graph.descriptors[0].struct_), None);
        assert_eq!(graph.descriptors[0].parent, None);
    }
}

#[test]
fn nodes_derive_from_roots() {
    let items = vec![
        structure("Plan", Some("NodeTag")),
        structure("Scan", Some("Plan")),
        structure("SeqScan", Some("Scan")),
        structure("Alien", Some("Other")),
        structure("Other", None),
        structure("Agg", Some("Plan")),
    ];
    let graph = StructGraph::from_items(&items);
    assert_eq!(names(&find_nodes(&graph)), ["Agg", "Plan", "Scan", "SeqScan"]);
    assert_eq!(
        impl_pg_node(&items),
        impls("Agg") + &impls("Plan") + &impls("Scan") + &impls("SeqScan")
    );
}

#[test]
fn a_walk_does_not_go_past_known_names() {
    let items = vec![
        structure("A", Some("NodeTag")),
        structure("B", Some("A")),
        structure("C", Some("B")),
        structure("D", Some("A")),
    ];
    let graph = StructGraph::from_items(&items);
    let mut set: OrderedMap<()> = OrderedMap::new();
    set.insert("B".to_string(), ());
    dfs_find_nodes(0, &graph, &mut set);
    assert_eq!(names(&set), ["A", "B", "D"]);
    dfs_find_nodes(1, &graph, &mut set);
    assert_eq!(names(&set), ["A", "B", "C", "D"]);
}

#[test]
fn cycles_end() {
    let items = vec![
        structure("NodeTag", Some("B")),
        structure("B", Some("NodeTag")),
        structure("Own", Some("Own")),
    ];
    let graph = StructGraph::from_items(&items);
    assert_eq!(graph.descriptors[2].children, vec![2]);
    assert_eq!(names(&find_nodes(&graph)), ["B", "NodeTag"]);
}

#[test]
fn a_repeated_name_stands_for_its_last_struct() {
    let items = vec![
        structure("A", Some("NodeTag")),
        structure("A", Some("B")),
        structure("B", Some("NodeTag")),
        structure("C", Some("A")),
    ];
    let graph = StructGraph::from_items(&items);
    assert_eq!(graph.name_tab.get("A"), Some(&1));
    assert!(graph.descriptors[0].children.is_empty());
    assert_eq!(graph.descriptors[1].children, vec![3]);
    assert_eq!(graph.descriptors[2].children, vec![1]);
    assert_eq!(names(&find_nodes(&graph)), ["A", "B"]);
}

#[test]
fn foreign_blocks_are_guarded() {
    let items = vec![
        Item::Other { tokens: "use x ;".to_string() },
        Item::ForeignMod { tokens: "block".to_string() },
        structure("S", None),
        constant("X", "u32", "1"),
    ];
    assert_eq!(
        apply_pg_guard(&items),
        "use x ;\n#[pgrx_macros::pg_guard]\nblock\nstruct S\npub const X : u32 = 1 ;\n"
    );
}

#[test]
fn nodes_follow_the_items() {
    let items = vec![constant("BOOLOID", "u32", "16"), structure("N", Some("NodeTag"))];
    let oids = extract_oids(&items);
    assert_eq!(
        rewrite_items(items, &oids),
        "pub const BOOLOID: Oid = Oid(16);\nstruct N\n".to_string() + &impls("N")
    );
}

#[test]
fn the_text_that_is_rewritten() {
    let mut enums = EnumNames::new();
    enums.enum_variant_behavior(Some("E"), "V", EnumVariantValue::Unsigned(3));
    assert_eq!(
        binding_source("first", &enums, "last"),
        "first\n#[deprecated(since = \"0.12.0\", note = \"you want pg_sys::E::V\")]\npub const E_V: u32 = 3;last"
    );
}

const SOURCE: &str = "
/// of type bool
pub const BOOLOID: u32 = 16;
pub const NAMEDATALEN: u32 = 64;
#[repr(C)]
pub struct Expr { pub type_: NodeTag }
pub struct Var(pub crate::Expr, pub u8);
pub struct Empty;
pub struct Pointer { pub p: *mut Expr }
pub type Callback = fn(u32) -> u32;
unsafe extern \"C\" { pub fn f(x: u32); }
";

#[test]
fn sources_are_generated_from_text() {
    let sources = match generate_bindings(SOURCE) {
        Ok(sources) => sources,
        Err(_) => panic!("the source is a Rust file"),
    };
    let start = "use crate as pg_sys;\nuse crate::{Datum, MultiXactId, Oid, PgNode, TransactionId};\n\
                 pub const BOOLOID: Oid = Oid(16);\npub const NAMEDATALEN : u32 = 64 ;\n";
    assert!(sources.binding.starts_with(start), "{}", sources.binding);
    assert!(sources.binding.contains(
        "\n#[pgrx_macros::pg_guard]\nunsafe extern \"C-unwind\" {"
    ));
    let linked = "link (name = \"postgres\"))] pub fn f (x : u32) ;";
    assert!(sources.binding.contains(linked), "{}", sources.binding);
    assert!(sources.binding.contains("\npub struct Empty ;\n"));
    assert!(sources.binding.ends_with(&(impls("Expr") + &impls("Var"))), "{}", sources.binding);
    assert!(sources.binding_oids.contains("    BOOLOID = 16,\n"));
    assert!(!sources.binding_oids.contains("NAMEDATALEN"));
    assert!(syn::parse_file(&sources.binding).is_ok());
    assert!(syn::parse_file(&sources.binding_oids).is_ok());
}

#[test]
fn object_identifiers_come_from_the_first_list() {
    let sources =
        sources_of(&vec![constant("AOID", "u32", "1")], vec![constant("AOID", "u32", "2")]);
    assert!(sources.binding.ends_with("pub const AOID : u32 = 2 ;\n"));
    assert!(sources.binding_oids.contains("AOID = 1,"));
}

#[test]
fn texts_that_are_not_rust_are_errors() {
    assert!(generate_bindings("pub const").is_err());
    assert!(generate_bindings("extern \"C\" {").is_err());
}

#[test]
fn sources_of_items() {
    let source = vec![constant("XOID", "u32", "7")];
    let sources = sources_of(&source, vec![constant("XOID", "u32", "7"), constant("Y", "u32", "7")]);
    assert_eq!(
        sources.binding,
        "use crate as pg_sys;\nuse crate::{Datum, MultiXactId, Oid, PgNode, TransactionId};\n\
         pub const XOID: Oid = Oid(7);\npub const Y : u32 = 7 ;\n"
    );
}

#[test]
fn generated_files_begin_with_a_header() {
    assert_eq!(
        with_header("x"),
        "/* Automatically generated by bindgen. Do not hand-edit. */\nx"
    );
    assert_eq!(
        cshim_source("h", "w", "c"),
        "/* Automatically generated by bindgen. Do not hand-edit. */\nh\nw\nc"
    );
}

#[test]
fn archives_give_back_what_they_keep() {
    let files = Bindings {
        binding: "pub const Ä: u32 = 1;\n".repeat(1000),
        binding_oids: String::new(),
        binding_cshim: "int x;".to_string(),
    };
    let archive = match files.pack() {
        Ok(archive) => archive,
        Err(_) => panic!("the files can be packed"),
    };
    let back = match Bindings::unzip(&archive) {
        Ok(back) => back,
        Err(_) => panic!("the archive can be read"),
    };
    assert_eq!(back.binding, files.binding);
    assert_eq!(back.binding_oids, files.binding_oids);
    assert_eq!(back.binding_cshim, files.binding_cshim);
    assert!(archive.len() < files.binding.len());
}

#[test]
fn the_archive_depends_on_the_files_alone() {
    let pack = |oids: &str| {
        let files = Bindings {
            binding: "a".to_string(),
            binding_oids: oids.to_string(),
            binding_cshim: "c".to_string(),
        };
        match files.pack() {
            Ok(archive) => archive,
            Err(_) => panic!("the files can be packed"),
        }
    };
    assert_eq!(pack("b"), pack("b"));
    assert_ne!(pack("b"), pack("d"));
}

#[test]
fn what_is_no_archive_cannot_be_read() {
    assert!(Bindings::unzip(b"PK").is_err());
    assert!(Bindings::unzip(&[]).is_err());
}
