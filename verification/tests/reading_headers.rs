use pgrx_bindgen::callbacks::{
    blocklisted_type_implements_trait, will_parse_macro, DeriveTrait, ImplementsTrait, MacroParsing,
};
use pgrx_bindgen::enums::{EnumNames, EnumVariantValue};
use pgrx_bindgen::items::Item;
use pgrx_bindgen::linkage::{
    function_linkage, function_linkages, link_items, link_with_cshim, static_linkage,
    unwinding_abi, unwinding_abis, Attr,
};
use pgrx_bindgen::options::{
    add_allowlists, add_blocklists, add_derives, build_cshim, builtin_include_args, clang_args,
    extra_bindgen_clang_args, find_include, include_args, pg_target_includes, sysroot_warning,
    Allowed, Blocked, IncludeDir,
};
use quote::ToTokens;

fn strings(list: &[&str]) -> Vec<String> {
    list.iter().map(|s| s.to_string()).collect()
}

#[test]
fn clashing_macros_are_ignored() {
    for name in ["FP_NAN", "IPPORT_RESERVED", "M_PI", "M_2_SQRTPI"] {
        assert_eq!(will_parse_macro(name), MacroParsing::Ignore);
    }
    for name in ["M_PI_3", "FP_", "", "NAMEDATALEN"] {
        assert_eq!(will_parse_macro(name), MacroParsing::Default);
    }
}

#[test]
fn traits_of_types_written_by_hand() {
    for name in ["Datum", "NullableDatum", "Oid", "TransactionId"] {
        for (derive, answer) in [
            (DeriveTrait::Copy, ImplementsTrait::Yes),
            (DeriveTrait::Debug, ImplementsTrait::Yes),
            (DeriveTrait::Default, ImplementsTrait::No),
            (DeriveTrait::Hash, ImplementsTrait::No),
            (DeriveTrait::PartialEqOrPartialOrd, ImplementsTrait::No),
        ] {
            assert_eq!(blocklisted_type_implements_trait(name, derive), Some(answer));
        }
    }
    assert_eq!(blocklisted_type_implements_trait("MultiXactId", DeriveTrait::Copy), None);
}

#[test]
fn variants_become_deprecated_constants() {
    let mut names = EnumNames::new();
    names.enum_variant_behavior(Some("enum Zebra"), "Z_A", EnumVariantValue::Signed(-1));
    names.enum_variant_behavior(Some("  Ape "), "A_T", EnumVariantValue::Boolean(true));
    names.enum_variant_behavior(Some("Zebra"), "Z_B", EnumVariantValue::Signed(2147483648));
    names.enum_variant_behavior(Some("Zebra"), "Z_C", EnumVariantValue::Unsigned(4294967295));
    names.enum_variant_behavior(Some("Zebra"), "Z_D", EnumVariantValue::Unsigned(4294967296));
    names.enum_variant_behavior(Some("Ape"), "A_F", EnumVariantValue::Boolean(false));
    assert_eq!(
        names.deprecated_consts(),
        r#"
#[deprecated(since = "0.12.0", note = "you want pg_sys::Ape::A_T")]
pub const Ape_A_T: bool = true;
#[deprecated(since = "0.12.0", note = "you want pg_sys::Ape::A_F")]
pub const Ape_A_F: bool = false;
#[deprecated(since = "0.12.0", note = "you want pg_sys::Zebra::Z_A")]
pub const Zebra_Z_A: i32 = -1;
#[deprecated(since = "0.12.0", note = "you want pg_sys::Zebra::Z_B")]
pub const Zebra_Z_B: i64 = 2147483648;
#[deprecated(since = "0.12.0", note = "you want pg_sys::Zebra::Z_C")]
pub const Zebra_Z_C: u32 = 4294967295;
#[deprecated(since = "0.12.0", note = "you want pg_sys::Zebra::Z_D")]
pub const Zebra_Z_D: u64 = 4294967296;"#
    );
}

#[test]
fn bounds_of_the_signed_constants() {
    let mut names = EnumNames::new();
    for v in [-2147483649, -2147483648, 2147483647] {
        names.enum_variant_behavior(Some("E"), "V", EnumVariantValue::Signed(v));
    }
    let text = names.deprecated_consts();
    assert!(text.contains("E_V: i64 = -2147483649;"));
    assert!(text.contains("E_V: i32 = -2147483648;"));
    assert!(text.contains("E_V: i32 = 2147483647;"));
}

#[test]
fn some_variants_are_left_out() {
    let mut names = EnumNames::new();
    names.enum_variant_behavior(None, "A", EnumVariantValue::Signed(1));
    names.enum_variant_behavior(Some("enum NodeTag"), "T_List", EnumVariantValue::Signed(1));
    names.enum_variant_behavior(Some("(unnamed at x.h:1:1)"), "A", EnumVariantValue::Signed(1));
    names.enum_variant_behavior(Some("enum (anonymous at y)"), "A", EnumVariantValue::Signed(1));
    names.enum_variant_behavior(Some("Kind"), "SOME_OID_KIND", EnumVariantValue::Signed(1));
    assert_eq!(names.deprecated_consts(), "");
    names.enum_variant_behavior(Some("NodeTags"), "A", EnumVariantValue::Signed(1));
    assert!(names.deprecated_consts().contains("NodeTags_A: i32 = 1;"));
}

fn named(name: &str, value: &str) -> Attr {
    Attr::NameValue { name: Some(name.to_string()), value: Some(value.to_string()) }
}

#[test]
fn shim_functions_are_guarded() {
    let shim = vec![Attr::Other, named("link_name", "SpinLockInit__pgrx_cshim")];
    assert!(link_with_cshim(&shim));
    assert_eq!(function_linkage(&shim), "#[cfg(feature = \"cshim\")]");
}

#[test]
fn other_foreign_items_are_linked_to_postgres() {
    let link = "#[cfg_attr(target_os = \"windows\", link(name = \"postgres\"))]";
    for attrs in [
        vec![],
        vec![Attr::Other],
        vec![named("doc", "x__pgrx_cshim")],
        vec![named("link_name", "__pgrx_cshim_x")],
        vec![Attr::NameValue { name: Some("link_name".to_string()), value: None }],
        vec![Attr::NameValue { name: None, value: Some("__pgrx_cshim".to_string()) }],
    ] {
        assert!(!link_with_cshim(&attrs));
        assert_eq!(function_linkage(&attrs), link);
    }
    assert_eq!(static_linkage(), link);
}

#[test]
fn each_function_gets_its_own_linkage() {
    let functions = vec![vec![], vec![named("link_name", "g__pgrx_cshim")], vec![Attr::Other]];
    let link = "#[cfg_attr(target_os = \"windows\", link(name = \"postgres\"))]";
    assert_eq!(function_linkages(&functions), [link, "#[cfg(feature = \"cshim\")]", link]);
    assert!(function_linkages(&vec![]).is_empty());
}

#[test]
fn c_functions_may_unwind() {
    assert_eq!(unwinding_abi("C").as_deref(), Some("C-unwind"));
    assert_eq!(unwinding_abi("C-unwind"), None);
    assert_eq!(unwinding_abi("system"), None);
    assert_eq!(unwinding_abi("c"), None);
    assert_eq!(
        unwinding_abis(&strings(&["system", "C", ""])),
        [None, Some("C-unwind".to_string()), None]
    );
}

fn tokens(source: &str) -> Vec<String> {
    match syn::parse_file(source) {
        Ok(file) => file.items.iter().map(|item| item.to_token_stream().to_string()).collect(),
        Err(e) => panic!("{}", e),
    }
}

fn linked(source: &str) -> Vec<String> {
    match link_items(source) {
        Ok(items) => items
            .into_iter()
            .map(|item| match item {
                Item::Const(c) => c.tokens,
                Item::Struct(s) => s.tokens,
                Item::ForeignMod { tokens } => tokens,
                Item::Other { tokens } => tokens,
            })
            .collect(),
        Err(e) => panic!("{}", e),
    }
}

#[test]
fn foreign_items_of_a_file_are_linked() {
    let source = "
        pub const A: u32 = 1;
        #[doc = \"block\"]
        unsafe extern \"C\" {
            pub fn f(x: u32);
            #[doc = \"g\"]
            #[link_name = \"g__pgrx_cshim\"]
            pub fn g();
            #[link_name = \"v__pgrx_cshim\"]
            pub static mut v: u32;
            pub type T;
        }
        extern \"C-unwind\" { pub fn h(); }
        mod inner { extern \"system\" { #[r#link_name = \"k__pgrx_cshim\"] pub fn k(); } }
    ";
    let expected = "
        pub const A: u32 = 1;
        #[doc = \"block\"]
        unsafe extern \"C-unwind\" {
            #[cfg_attr(target_os = \"windows\", link(name = \"postgres\"))]
            pub fn f(x: u32);
            #[cfg(feature = \"cshim\")]
            #[doc = \"g\"]
            #[link_name = \"g__pgrx_cshim\"]
            pub fn g();
            #[cfg_attr(target_os = \"windows\", link(name = \"postgres\"))]
            #[link_name = \"v__pgrx_cshim\"]
            pub static mut v: u32;
            pub type T;
        }
        extern \"C-unwind\" {
            #[cfg_attr(target_os = \"windows\", link(name = \"postgres\"))]
            pub fn h();
        }
        mod inner {
            extern \"system\" {
                #[cfg_attr(target_os = \"windows\", link(name = \"postgres\"))]
                #[r#link_name = \"k__pgrx_cshim\"]
                pub fn k();
            }
        }
    ";
    assert_eq!(linked(source), tokens(expected));
}

#[test]
fn calling_conventions_of_a_file_unwind() {
    let source = "
        pub type Callback = Option<unsafe extern \"C\" fn(f: extern r\"C\" fn()) -> u32>;
        pub struct S { pub f: extern r\"system\" fn(), pub g: extern fn() }
        pub extern \"C\" fn defined() { println!(\"extern \\\"C\\\"\") }
        extern \"C\" { pub fn f(cb: extern \"C\" fn()); }
    ";
    let expected = "
        pub type Callback = Option<unsafe extern \"C-unwind\" fn(f: extern \"C-unwind\" fn()) -> u32>;
        pub struct S { pub f: extern r\"system\" fn(), pub g: extern fn() }
        pub extern \"C-unwind\" fn defined() { println!(\"extern \\\"C\\\"\") }
        extern \"C-unwind\" {
            #[cfg_attr(target_os = \"windows\", link(name = \"postgres\"))]
            pub fn f(cb: extern \"C-unwind\" fn());
        }
    ";
    assert_eq!(linked(source), tokens(expected));
}

#[test]
fn what_is_no_rust_file_cannot_be_linked() {
    assert!(link_items("extern \"C\" {").is_err());
    assert!(link_items("pub const").is_err());
    assert!(linked("").is_empty());
}

#[test]
fn linking_keeps_the_items() {
    let source = "
        pub const AOID: u32 = 1;
        pub const F: extern \"C\" fn() = { extern \"C\" fn f() {} f };
        pub struct S { pub a: pg_sys::Node, pub f: Option<unsafe extern \"C\" fn()> }
        extern \"C\" { pub fn f(); }
        pub type T = u32;
    ";
    let items = match link_items(source) {
        Ok(items) => items,
        Err(e) => panic!("{}", e),
    };
    assert_eq!(items.len(), 5);
    match &items[0] {
        Item::Const(c) => {
            assert_eq!((c.ident.as_str(), c.ty.as_str(), c.expr.as_str()), ("AOID", "u32", "1"))
        }
        _ => panic!("a constant"),
    }
    match &items[1] {
        Item::Const(c) => {
            assert_eq!(c.ident, "F");
            assert_eq!(c.ty, "extern \"C-unwind\" fn ()");
            assert!(c.expr.contains("extern \"C-unwind\" fn f"));
        }
        _ => panic!("a constant"),
    }
    match &items[2] {
        Item::Struct(s) => {
            assert_eq!(s.ident, "S");
            assert_eq!(
                s.fields,
                [Some(strings(&["pg_sys", "Node"])), Some(strings(&["Option"]))]
            );
        }
        _ => panic!("a struct"),
    }
    assert!(matches!(items[3], Item::ForeignMod { .. }));
    match &items[4] {
        Item::Other { tokens } => assert_eq!(tokens, "pub type T = u32 ;"),
        _ => panic!("another item"),
    }
}

#[test]
fn enumerations_are_listed_in_order() {
    let mut names = EnumNames::new();
    for name in ["Z", "A", "M", "A"] {
        names.enum_variant_behavior(Some(name), "v", EnumVariantValue::Signed(1));
    }
    let text = names.deprecated_consts();
    assert_eq!(text.matches("pub const A_v").count(), 2);
    assert_eq!(text.matches("pub const M_v").count(), 1);
    let place = |name: &str| text.rfind(&format!("pub const {}_v", name));
    assert!(place("A") < place("M") && place("M") < place("Z"));
}

#[test]
fn blocklist_is_complete() {
    let rules = add_blocklists();
    assert_eq!(rules.len(), 36);
    assert_eq!(rules[0], (Blocked::Type, "Datum"));
    assert!(rules.contains(&(Blocked::Var, "_*(?:HAVE|have)_.*")));
    assert!(rules.contains(&(Blocked::Item, "ERROR")));
    assert_eq!(rules[35], (Blocked::Function, "IsQueryIdEnabled"));
    assert_eq!(rules.iter().filter(|r| r.0 == Blocked::Function).count(), 28);
}

#[test]
fn directories_are_escaped_in_the_allowlist() {
    let rules = add_allowlists(&strings(&["/usr/include/postgresql/17.1/server-x/", "/(a)+/"]));
    assert_eq!(
        rules,
        vec![
            (Allowed::File, r"/usr/include/postgresql/17\.1/server\-x/.*".to_string()),
            (Allowed::File, r"/\(a\)\+/.*".to_string()),
            (Allowed::Item, "PGERROR".to_string()),
            (Allowed::Item, "SIG.*".to_string()),
        ]
    );
    assert_eq!(add_allowlists(&Vec::new()).len(), 2);
}

#[test]
fn every_meta_character_is_escaped() {
    let rules = add_allowlists(&strings(&[r"\.+*?()|[]{}^$#&-~a%/!"]));
    assert_eq!(rules[0].1, r"\\\.\+\*\?\(\)\|\[\]\{\}\^\$\#\&\-\~a%/!.*");
}

#[test]
fn derived_traits() {
    let d = add_derives();
    assert!(d.debug && d.copy && d.default);
    assert!(!(d.eq || d.partialeq || d.hash || d.ord || d.partialord));
}

#[test]
fn directories_of_headers() {
    assert_eq!(pg_target_includes(""), vec![IncludeDir::Server]);
    assert_eq!(
        pg_target_includes("msvc"),
        vec![
            IncludeDir::Server,
            IncludeDir::Package,
            IncludeDir::ServerPortWin32,
            IncludeDir::ServerPortWin32Msvc
        ]
    );
    assert_eq!(find_include("\\\\?\\C:\\pg\\include\\"), "C:\\pg\\include\\");
    assert_eq!(find_include("/usr/include/"), "/usr/include/");
}

#[test]
fn flags_for_directories() {
    assert_eq!(include_args(&strings(&["/a/", "/b/"])), strings(&["-I/a/", "-I/b/"]));
    let includes = vec![Some("/x".to_string()), None, Some("/y".to_string())];
    assert_eq!(builtin_include_args(false, &includes), strings(&["-I/x", "-I/y"]));
    assert!(builtin_include_args(true, &includes).is_empty());
}

#[test]
fn flags_are_split_into_words() {
    let args = extra_bindgen_clang_args("", "-DNAME='a b' -isysroot /sdk -I\"/x y\"");
    assert_eq!(args.args, strings(&["-DNAME=a b", "-isysroot", "/sdk", "-I/x y"]));
    assert_eq!(args.sysroot, Some("/sdk".to_string()));
}

#[test]
fn flags_that_cannot_be_split_are_dropped() {
    let args = extra_bindgen_clang_args("linux", "-D'unclosed");
    assert!(args.args.is_empty());
    assert_eq!(args.sysroot, None);
}

#[test]
fn flags_by_operating_system() {
    let flags = ["-isysroot", "/one", "-isysroot", "/two"];
    let windows = clang_args("windows", strings(&flags));
    assert!(windows.args.is_empty());
    assert_eq!(windows.sysroot, Some("/one".to_string()));
    let macos = clang_args("macos", strings(&flags));
    assert_eq!(macos.args, strings(&flags));
    assert_eq!(macos.sysroot, None);
    assert_eq!(clang_args("", strings(&["-x", "-isysroot"])).sysroot, None);
    assert_eq!(clang_args("", Vec::new()).sysroot, None);
}

#[test]
fn warning_about_the_sdk() {
    assert_eq!(
        sysroot_warning(15, "/sdk"),
        "cargo:warning=postgres v15 was compiled against an SDK Root which does not seem to exist \
         on this machine (/sdk). You may need to re-run `cargo pgrx init` and/or update your \
         command line tools."
    );
}

#[test]
fn flags_for_the_shim() {
    let includes = strings(&["/inc/"]);
    let extra = strings(&["-DX"]);
    assert_eq!(
        build_cshim(true, false, false, &includes, extra.clone()),
        strings(&["-ffunction-sections", "-fdata-sections", "-I/inc/", "-DX"])
    );
    assert_eq!(
        build_cshim(false, true, false, &Vec::new(), Vec::new()),
        strings(&["-ffunction-sections", "-fdata-sections"])
    );
    assert_eq!(
        build_cshim(false, false, true, &includes, extra),
        strings(&["/Gy", "/Gw", "-I/inc/", "-DX"])
    );
    assert!(build_cshim(false, false, false, &Vec::new(), Vec::new()).is_empty());
}
