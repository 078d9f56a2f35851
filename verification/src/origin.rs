//! Where the bindings of a build come from, and what else the build does.
use crate::text;
use vstd::prelude::*;
use vstd::string::*;

verus! {

/// Where the bindings come from.
pub enum BindingOrigin {
    /// The archive at this path, which the environment names.
    Archive(String),
    /// The archive that is kept for the documentation service.
    DocsArchive,
    /// They are generated.
    Generate,
}

/// The value of `PGRX_BUILD_VERBOSE` that has the environment dumped.
pub open spec fn asks_for_dump(value: Option<Seq<char>>) -> bool {
    value == Some("true"@)
}

/// The value of `DOCS_RS` that says that the build is for the documentation service.
pub open spec fn says_docs_rs(value: Option<Seq<char>>) -> bool {
    value == Some("1"@)
}

/// Where the bindings come from.
pub open spec fn origin_of(pgrx_binding: Option<String>, docs_rs: bool) -> BindingOrigin {
    if pgrx_binding is Some {
        BindingOrigin::Archive(pgrx_binding->0)
    } else if docs_rs {
        BindingOrigin::DocsArchive
    } else {
        BindingOrigin::Generate
    }
}

/// The path of the archive that is kept for the documentation service.
pub open spec fn docs_path(manifest_dir: Seq<char>, separator: char, major: nat) -> Seq<char> {
    manifest_dir + seq![separator] + "assets"@ + seq![separator] + "pg"@ + text::decimal_text(major)
        + ".zip"@
}

/// The C shim is compiled.
pub open spec fn needs_cshim(docs_rs: bool, feature_cshim: bool) -> bool {
    feature_cshim && !docs_rs
}

/// Whether the value of a variable, where it has one, is `expected`.
pub fn is_set_to(value: Option<&str>, expected: &str) -> (r: bool)
    ensures
        r == (value matches Some(v) && v@ == expected@),
{
    match value {
        Some(v) => text::same_text(v, expected),
        None => false,
    }
}

/// Whether the environment is dumped, given the value of `PGRX_BUILD_VERBOSE`.
pub fn is_verbose(value: Option<&str>) -> (r: bool)
    ensures
        r == (value matches Some(v) && v@ == "true"@),
        r == asks_for_dump(crate::cargo::text_option(value)),
{
    is_set_to(value, "true")
}

/// Whether the build is for the documentation service, given the value of `DOCS_RS`.
pub fn is_docs_rs(value: Option<&str>) -> (r: bool)
    ensures
        r == (value matches Some(v) && v@ == "1"@),
        r == says_docs_rs(crate::cargo::text_option(value)),
{
    is_set_to(value, "1")
}

/// Where the bindings come from: the archive that the environment names, before that of the
/// documentation service, before their generation.
pub fn binding_origin(pgrx_binding: Option<String>, docs_rs: bool) -> (r: BindingOrigin)
    ensures
        r == match pgrx_binding {
            Some(path) => BindingOrigin::Archive(path),
            None => if docs_rs {
                BindingOrigin::DocsArchive
            } else {
                BindingOrigin::Generate
            },
        },
        r == origin_of(pgrx_binding, docs_rs),
{
    match pgrx_binding {
        Some(path) => BindingOrigin::Archive(path),
        None => if docs_rs {
            BindingOrigin::DocsArchive
        } else {
            BindingOrigin::Generate
        },
    }
}

/// The path of the archive that is kept for the documentation service.
pub fn docs_archive_path(manifest_dir: &str, separator: char, major: u16) -> (r: String)
    ensures
        r@ == manifest_dir@ + seq![separator] + "assets"@ + seq![separator] + "pg"@
            + text::decimal_text(major as nat) + ".zip"@,
        r@ == docs_path(manifest_dir@, separator, major as nat),
{
    let mut r = manifest_dir.to_owned();
    r.push(separator);
    r.append("assets");
    r.push(separator);
    r.append("pg");
    let number = text::decimal(major as u64);
    r.append(number.as_str());
    r.append(".zip");
    assert(r@ =~= manifest_dir@ + seq![separator] + "assets"@ + seq![separator] + "pg"@
        + text::decimal_text(major as nat) + ".zip"@);
    r
}

/// Whether the C shim is compiled: it is not for the documentation service, and only where its
/// feature is on.
pub fn builds_cshim(docs_rs: bool, feature_cshim: bool) -> (r: bool)
    ensures
        r == (!docs_rs && feature_cshim),
        r == needs_cshim(docs_rs, feature_cshim),
{
    !docs_rs && feature_cshim
}

/// A variable counts as set only where it has a value and that value is the one asked for, to
/// the letter.
pub proof fn variables_count_to_the_letter(value: Seq<char>)
    ensures
        !asks_for_dump(None),
        !says_docs_rs(None),
        asks_for_dump(Some(value)) <==> value == seq!['t', 'r', 'u', 'e'],
        says_docs_rs(Some(value)) <==> value == seq!['1'],
{
    reveal_strlit("true");
    reveal_strlit("1");
    assert("true"@ =~= seq!['t', 'r', 'u', 'e']);
    assert("1"@ =~= seq!['1']);
}

/// An archive that the environment names is taken whatever else holds, and no other is taken for
/// it; bindings are generated exactly where there is neither such an archive nor the
/// documentation service.
pub proof fn named_archives_come_first(pgrx_binding: Option<String>, docs_rs: bool)
    ensures
        origin_of(pgrx_binding, docs_rs) is Archive <==> pgrx_binding is Some,
        pgrx_binding matches Some(path) ==> origin_of(pgrx_binding, docs_rs)->Archive_0 == path,
        origin_of(pgrx_binding, docs_rs) is Generate <==> pgrx_binding is None && !docs_rs,
        origin_of(pgrx_binding, docs_rs) is DocsArchive <==> pgrx_binding is None && docs_rs,
{
}

/// The archive for the documentation service lies below the directory of the manifest, under the
/// name of its major version.
pub proof fn docs_archives_lie_below_the_manifest(
    manifest_dir: Seq<char>,
    separator: char,
    major: nat,
)
    ensures
        exists|digits: Seq<char>|
            {
                &&& docs_path(manifest_dir, separator, major) == #[trigger] (manifest_dir
                    + seq![separator] + "assets"@ + seq![separator] + "pg"@ + digits + ".zip"@)
                &&& text::decimal_value(digits) == major
                &&& digits.len() > 0
                &&& forall|i: int| 0 <= i < digits.len() ==> '0' <= #[trigger] digits[i] <= '9'
                &&& digits.len() > 1 ==> digits[0] != '0'
            },
{
    let digits = text::decimal_text(major);
    text::decimal_digits_give_the_number(major);
    assert(docs_path(manifest_dir, separator, major) == manifest_dir + seq![separator] + "assets"@
        + seq![separator] + "pg"@ + digits + ".zip"@);
}

/// The documentation service never has the C shim compiled, and any other build has it compiled
/// exactly where the feature is on.
pub proof fn cshim_is_built_for_its_feature(docs_rs: bool, feature_cshim: bool)
    ensures
        docs_rs ==> !needs_cshim(docs_rs, feature_cshim),
        !docs_rs ==> needs_cshim(docs_rs, feature_cshim) == feature_cshim,
{
}

} // verus!
