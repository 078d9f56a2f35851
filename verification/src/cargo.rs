//! The lines with which a build script speaks to Cargo.
use crate::text;
use vstd::prelude::*;
use vstd::string::*;

verus! {

/// The line that has the build run again when the environment variable `name` changes.
pub open spec fn env_line(name: Seq<char>) -> Seq<char> {
    "cargo:rerun-if-env-changed="@ + name
}

/// The line that has the build run again when the file at `path` changes.
pub open spec fn file_line(path: Seq<char>) -> Seq<char> {
    "cargo:rerun-if-changed="@ + path
}

/// The lines for the variables that do not depend on the target.
pub open spec fn fixed_lines() -> Seq<Seq<char>> {
    seq![
        env_line("PGRX_PG_CONFIG_PATH"@),
        env_line("PGRX_PG_CONFIG_AS_ENV"@),
        env_line("LLVM_CONFIG_PATH"@),
        env_line("LIBCLANG_PATH"@),
        env_line("LIBCLANG_STATIC_PATH"@),
        env_line("BINDGEN_EXTRA_CLANG_ARGS"@),
    ]
}

/// The lines for the variables of the target: one under its name, one under its name with
/// underscores for hyphens.
pub open spec fn target_lines(target: Seq<char>) -> Seq<Seq<char>> {
    seq![
        env_line("BINDGEN_EXTRA_CLANG_ARGS_"@ + target),
        env_line("BINDGEN_EXTRA_CLANG_ARGS_"@ + text::replaced(target, '-', '_')),
    ]
}

/// The lines for the file of the configuration, where there is one.
pub open spec fn config_lines(config: Option<Seq<char>>) -> Seq<Seq<char>> {
    match config {
        Some(path) => seq![file_line(path)],
        None => Seq::empty(),
    }
}

/// All lines, or, where the target is not known, those that do not depend on it.
pub open spec fn rerun_lines(target: Option<Seq<char>>, config: Option<Seq<char>>) -> Seq<
    Seq<char>,
> {
    match target {
        Some(target) => fixed_lines() + target_lines(target) + config_lines(config),
        None => fixed_lines(),
    }
}

/// The line that has libraries looked for in the directory at `path`.
pub open spec fn search_line(path: Seq<char>) -> Seq<char> {
    "cargo:rustc-link-search="@ + path
}

/// The line that hands the path of `pg_config` on to the build scripts of dependents.
pub open spec fn metadata_line(path: Seq<char>) -> Seq<char> {
    "cargo:PG_CONFIG="@ + path
}

/// The characters of an optional text.
pub open spec fn text_option(s: Option<&str>) -> Option<Seq<char>> {
    match s {
        Some(s) => Some(s@),
        None => None,
    }
}

/// The line that has the build run again when the environment variable `name` changes.
pub fn rerun_if_env_changed(name: &str) -> (r: String)
    ensures
        r@ == env_line(name@),
{
    let mut r = "cargo:rerun-if-env-changed=".to_owned();
    r.append(name);
    r
}

/// The line that has the build run again when the file at `path` changes.
pub fn rerun_if_changed(path: &str) -> (r: String)
    ensures
        r@ == file_line(path@),
{
    let mut r = "cargo:rerun-if-changed=".to_owned();
    r.append(path);
    r
}

/// The line that has libraries looked for in the directory at `path`.
pub fn link_search(path: &str) -> (r: String)
    ensures
        r@ == "cargo:rustc-link-search="@ + path@,
        r@ == search_line(path@),
{
    let mut r = "cargo:rustc-link-search=".to_owned();
    r.append(path);
    r
}

/// The line that hands the path of `pg_config` on to the build scripts of dependents.
pub fn pg_config_metadata(path: &str) -> (r: String)
    ensures
        r@ == "cargo:PG_CONFIG="@ + path@,
        r@ == metadata_line(path@),
{
    let mut r = "cargo:PG_CONFIG=".to_owned();
    r.append(path);
    r
}

/// The lines that say on what the build depends, in the order in which they are printed.
/// Without a target, only those before the target is asked for.
pub fn emit_rerun_if_changed(target: Option<&str>, config: Option<&str>) -> (r: Vec<String>)
    ensures
        text::texts(r@) == rerun_lines(text_option(target), text_option(config)),
{
    let mut r: Vec<String> = Vec::new();
    r.push(rerun_if_env_changed("PGRX_PG_CONFIG_PATH"));
    r.push(rerun_if_env_changed("PGRX_PG_CONFIG_AS_ENV"));
    r.push(rerun_if_env_changed("LLVM_CONFIG_PATH"));
    r.push(rerun_if_env_changed("LIBCLANG_PATH"));
    r.push(rerun_if_env_changed("LIBCLANG_STATIC_PATH"));
    r.push(rerun_if_env_changed("BINDGEN_EXTRA_CLANG_ARGS"));
    assert(text::texts(r@) =~= fixed_lines());
    if let Some(target) = target {
        let mut variable = "BINDGEN_EXTRA_CLANG_ARGS_".to_owned();
        variable.append(target);
        r.push(rerun_if_env_changed(variable.as_str()));
        let mut underscored = "BINDGEN_EXTRA_CLANG_ARGS_".to_owned();
        let name = text::replace(target, '-', '_');
        underscored.append(name.as_str());
        r.push(rerun_if_env_changed(underscored.as_str()));
        assert(text::texts(r@) =~= fixed_lines() + target_lines(target@));
        if let Some(path) = config {
            r.push(rerun_if_changed(path));
        }
        assert(text::texts(r@) =~= fixed_lines() + target_lines(target@) + config_lines(
            text_option(config),
        ));
    }
    r
}

/// What a build depends on: without a target, six variables of fixed names; with one, two more
/// that bear its name, as it is and with underscores for hyphens, and the file of the
/// configuration, where there is one.
pub proof fn lines_name_what_a_build_depends_on(
    target: Seq<char>,
    config: Option<Seq<char>>,
    path: Seq<char>,
)
    ensures
        rerun_lines(None, config) == seq![
            "cargo:rerun-if-env-changed="@ + "PGRX_PG_CONFIG_PATH"@,
            "cargo:rerun-if-env-changed="@ + "PGRX_PG_CONFIG_AS_ENV"@,
            "cargo:rerun-if-env-changed="@ + "LLVM_CONFIG_PATH"@,
            "cargo:rerun-if-env-changed="@ + "LIBCLANG_PATH"@,
            "cargo:rerun-if-env-changed="@ + "LIBCLANG_STATIC_PATH"@,
            "cargo:rerun-if-env-changed="@ + "BINDGEN_EXTRA_CLANG_ARGS"@,
        ],
        rerun_lines(Some(target), None).len() == 8,
        rerun_lines(Some(target), None).take(6) == rerun_lines(None, None),
        rerun_lines(Some(target), None)[6] == "cargo:rerun-if-env-changed="@
            + ("BINDGEN_EXTRA_CLANG_ARGS_"@ + target),
        exists|name: Seq<char>|
            {
                &&& rerun_lines(Some(target), None)[7] == "cargo:rerun-if-env-changed="@ + (
                #[trigger] ("BINDGEN_EXTRA_CLANG_ARGS_"@ + name))
                &&& name.len() == target.len()
                &&& forall|i: int|
                    0 <= i < target.len() ==> #[trigger] name[i] == (if target[i] == '-' {
                        '_'
                    } else {
                        target[i]
                    })
            },
        rerun_lines(Some(target), Some(path)) == rerun_lines(Some(target), None).push(
            "cargo:rerun-if-changed="@ + path,
        ),
{
    let lines = rerun_lines(Some(target), None);
    let name = text::replaced(target, '-', '_');
    assert(rerun_lines(None, config) =~= fixed_lines());
    assert(lines.take(6) =~= fixed_lines());
    text::one_character_is_replaced(target, '-', '_');
    assert(lines[7] == "cargo:rerun-if-env-changed="@ + ("BINDGEN_EXTRA_CLANG_ARGS_"@ + name));
    assert(rerun_lines(Some(target), Some(path)) =~= lines.push("cargo:rerun-if-changed="@ + path));
}

/// Each line is a word of Cargo's and then the name or the path that it is about, whatever that is.
pub proof fn lines_hold_the_name(name: Seq<char>)
    ensures
        env_line(name) == "cargo:rerun-if-env-changed="@ + name,
        file_line(name) == "cargo:rerun-if-changed="@ + name,
        search_line(name) == "cargo:rustc-link-search="@ + name,
        metadata_line(name) == "cargo:PG_CONFIG="@ + name,
{
}

/// An optional text has the characters of the text, whatever they are.
pub proof fn optional_texts_keep_their_characters(s: &str)
    ensures
        text_option(Some(s)) == Some(s@),
        text_option(None) is None,
{
}

} // verus!
