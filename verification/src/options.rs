//! What the generator of bindings and the C compiler are told: which declarations are left
//! out, which are taken, what is derived, and with which flags headers are read.
use crate::text;
use vstd::prelude::*;
use vstd::string::*;

verus! {

/// The kind of declaration that a pattern leaves out.
#[derive(Clone, Copy, Debug, PartialEq, Eq, Structural)]
pub enum Blocked {
    Type,
    Var,
    Function,
    Item,
}

/// The kind of thing that a pattern takes in.
#[derive(Clone, Copy, Debug, PartialEq, Eq, Structural)]
pub enum Allowed {
    File,
    Item,
}

/// The patterns of a list of rules, each with its kind.
pub open spec fn blocked_rules(list: Seq<(Blocked, &'static str)>) -> Seq<(Blocked, Seq<char>)> {
    Seq::new(list.len(), |i: int| (list[i].0, list[i].1@))
}

/// The patterns of a list of rules, each with its kind.
pub open spec fn allowed_rules(list: Seq<(Allowed, String)>) -> Seq<(Allowed, Seq<char>)> {
    Seq::new(list.len(), |i: int| (list[i].0, list[i].1@))
}

/// What is left out of the bindings, because it is written by hand, means nothing to Rust, or
/// clashes on some system.
pub open spec fn blocklist() -> Seq<(Blocked, Seq<char>)> {
    seq![
        (Blocked::Type, "Datum"@),
        (Blocked::Type, "Oid"@),
        (Blocked::Type, "TransactionId"@),
        (Blocked::Type, "MultiXactId"@),
        (Blocked::Var, "CONFIGURE_ARGS"@),
        (Blocked::Var, "_*(?:HAVE|have)_.*"@),
        (Blocked::Var, "_[A-Z_]+_H"@),
        (Blocked::Function, "pg_re_throw"@),
        (Blocked::Function, "err(start|code|msg|detail|context_msg|hint|finish)"@),
        (Blocked::Function, "heap_getattr"@),
        (Blocked::Function, "BufferGetBlock"@),
        (Blocked::Function, "BufferGetPage"@),
        (Blocked::Function, "BufferIsLocal"@),
        (Blocked::Function, "GetMemoryChunkContext"@),
        (Blocked::Function, "GETSTRUCT"@),
        (Blocked::Function, "MAXALIGN"@),
        (Blocked::Function, "MemoryContextIsValid"@),
        (Blocked::Function, "MemoryContextSwitchTo"@),
        (Blocked::Function, "TYPEALIGN"@),
        (Blocked::Function, "TransactionIdIsNormal"@),
        (Blocked::Function, "expression_tree_walker"@),
        (Blocked::Function, "get_pg_major_minor_version_string"@),
        (Blocked::Function, "get_pg_major_version_num"@),
        (Blocked::Function, "get_pg_major_version_string"@),
        (Blocked::Function, "get_pg_version_string"@),
        (Blocked::Function, "heap_tuple_get_struct"@),
        (Blocked::Function, "planstate_tree_walker"@),
        (Blocked::Function, "query_or_expression_tree_walker"@),
        (Blocked::Function, "query_tree_walker"@),
        (Blocked::Function, "range_table_entry_walker"@),
        (Blocked::Function, "range_table_walker"@),
        (Blocked::Function, "raw_expression_tree_walker"@),
        (Blocked::Function, "type_is_array"@),
        (Blocked::Function, "varsize_any"@),
        (Blocked::Item, "ERROR"@),
        (Blocked::Function, "IsQueryIdEnabled"@),
    ]
}

/// What is left out of the bindings.
pub fn add_blocklists() -> (r: Vec<(Blocked, &'static str)>)
    ensures
        blocked_rules(r@) == blocklist(),
{
    let r: Vec<(Blocked, &'static str)> = vec![
        (Blocked::Type, "Datum"),
        (Blocked::Type, "Oid"),
        (Blocked::Type, "TransactionId"),
        (Blocked::Type, "MultiXactId"),
        (Blocked::Var, "CONFIGURE_ARGS"),
        (Blocked::Var, "_*(?:HAVE|have)_.*"),
        (Blocked::Var, "_[A-Z_]+_H"),
        (Blocked::Function, "pg_re_throw"),
        (Blocked::Function, "err(start|code|msg|detail|context_msg|hint|finish)"),
        (Blocked::Function, "heap_getattr"),
        (Blocked::Function, "BufferGetBlock"),
        (Blocked::Function, "BufferGetPage"),
        (Blocked::Function, "BufferIsLocal"),
        (Blocked::Function, "GetMemoryChunkContext"),
        (Blocked::Function, "GETSTRUCT"),
        (Blocked::Function, "MAXALIGN"),
        (Blocked::Function, "MemoryContextIsValid"),
        (Blocked::Function, "MemoryContextSwitchTo"),
        (Blocked::Function, "TYPEALIGN"),
        (Blocked::Function, "TransactionIdIsNormal"),
        (Blocked::Function, "expression_tree_walker"),
        (Blocked::Function, "get_pg_major_minor_version_string"),
        (Blocked::Function, "get_pg_major_version_num"),
        (Blocked::Function, "get_pg_major_version_string"),
        (Blocked::Function, "get_pg_version_string"),
        (Blocked::Function, "heap_tuple_get_struct"),
        (Blocked::Function, "planstate_tree_walker"),
        (Blocked::Function, "query_or_expression_tree_walker"),
        (Blocked::Function, "query_tree_walker"),
        (Blocked::Function, "range_table_entry_walker"),
        (Blocked::Function, "range_table_walker"),
        (Blocked::Function, "raw_expression_tree_walker"),
        (Blocked::Function, "type_is_array"),
        (Blocked::Function, "varsize_any"),
        (Blocked::Item, "ERROR"),
        (Blocked::Function, "IsQueryIdEnabled"),
    ];
    assert(blocked_rules(r@) =~= blocklist());
    r
}

/// A character that has a meaning of its own in a pattern.
pub open spec fn is_meta(c: char) -> bool {
    ||| c == '\\'
    ||| c == '.'
    ||| c == '+'
    ||| c == '*'
    ||| c == '?'
    ||| c == '('
    ||| c == ')'
    ||| c == '|'
    ||| c == '['
    ||| c == ']'
    ||| c == '{'
    ||| c == '}'
    ||| c == '^'
    ||| c == '$'
    ||| c == '#'
    ||| c == '&'
    ||| c == '-'
    ||| c == '~'
}

/// `s` with a backslash before each character that has a meaning of its own in a pattern.
pub open spec fn escaped(s: Seq<char>) -> Seq<char> {
    text::concat(
        Seq::new(
            s.len(),
            |i: int|
                if is_meta(s[i]) {
                    seq!['\\', s[i]]
                } else {
                    seq![s[i]]
                },
        ),
    )
}

/// `regex::escape`: a backslash before each of the meta characters of a pattern, everything
/// else as it is.
#[verifier::external_body]
fn escape(s: &str) -> (r: String)
    ensures
        r@ == escaped(s@),
{
    regex::escape(s)
}

/// What is taken into the bindings: each file below one of the directories, and two kinds of
/// items.
pub open spec fn allowlist(includes: Seq<Seq<char>>) -> Seq<(Allowed, Seq<char>)> {
    Seq::new(includes.len(), |i: int| (Allowed::File, escaped(includes[i]) + ".*"@)) + seq![
        (Allowed::Item, "PGERROR"@),
        (Allowed::Item, "SIG.*"@),
    ]
}

/// What is taken into the bindings, where the headers of PostgreSQL lie below the directories
/// `pg_target_includes`.
pub fn add_allowlists(pg_target_includes: &Vec<String>) -> (r: Vec<(Allowed, String)>)
    ensures
        allowed_rules(r@) == allowlist(text::texts(pg_target_includes@)),
{
    let ghost includes = text::texts(pg_target_includes@);
    let ghost all = allowlist(includes);
    let mut r: Vec<(Allowed, String)> = Vec::new();
    let mut i: usize = 0;
    while i < pg_target_includes.len()
        invariant
            i <= pg_target_includes@.len(),
            includes == text::texts(pg_target_includes@),
            all == allowlist(includes),
            allowed_rules(r@) == all.take(i as int),
        decreases pg_target_includes@.len() - i,
    {
        let ghost before = r@;
        let mut pattern = escape(pg_target_includes[i].as_str());
        pattern.append(".*");
        r.push((Allowed::File, pattern));
        proof {
            assert(allowed_rules(r@) =~= allowed_rules(before).push((Allowed::File, pattern@)));
            assert(all.take(i + 1) =~= all.take(i as int).push(all[i as int]));
        }
        i += 1;
    }
    let ghost files = r@;
    r.push((Allowed::Item, "PGERROR".to_owned()));
    r.push((Allowed::Item, "SIG.*".to_owned()));
    proof {
        assert(allowed_rules(r@) =~= allowed_rules(files).push((Allowed::Item, "PGERROR"@)).push(
            (Allowed::Item, "SIG.*"@),
        ));
        assert(all =~= all.take(i as int).push((Allowed::Item, "PGERROR"@)).push(
            (Allowed::Item, "SIG.*"@),
        ));
    }
    r
}

/// Which traits are derived for the types of the bindings.
#[derive(Clone, Copy, Debug, PartialEq, Eq, Structural)]
pub struct Derives {
    pub debug: bool,
    pub copy: bool,
    pub default: bool,
    pub eq: bool,
    pub partialeq: bool,
    pub hash: bool,
    pub ord: bool,
    pub partialord: bool,
}

/// Which traits are derived.
pub open spec fn derives() -> Derives {
    Derives {
        debug: true,
        copy: true,
        default: true,
        eq: false,
        partialeq: false,
        hash: false,
        ord: false,
        partialord: false,
    }
}

/// Types are printed, copied and made by default; they are neither compared nor hashed.
pub fn add_derives() -> (r: Derives)
    ensures
        r.debug && r.copy && r.default,
        !r.eq && !r.partialeq && !r.hash && !r.ord && !r.partialord,
        r == derives(),
{
    Derives {
        debug: true,
        copy: true,
        default: true,
        eq: false,
        partialeq: false,
        hash: false,
        ord: false,
        partialord: false,
    }
}

/// A directory of headers that `pg_config` knows of.
#[derive(Clone, Copy, Debug, PartialEq, Eq, Structural)]
pub enum IncludeDir {
    Server,
    Package,
    ServerPortWin32,
    ServerPortWin32Msvc,
}

/// The directories whose headers are read, in the order in which they are searched.
pub open spec fn include_dirs(target_env: Seq<char>) -> Seq<IncludeDir> {
    if target_env == "msvc"@ {
        seq![
            IncludeDir::Server,
            IncludeDir::Package,
            IncludeDir::ServerPortWin32,
            IncludeDir::ServerPortWin32Msvc,
        ]
    } else {
        seq![IncludeDir::Server]
    }
}

/// The path without the mark of a verbatim path in front of it.
pub open spec fn plain_path(path: Seq<char>) -> Seq<char> {
    text::without_prefix_text(path, "\\\\?\\"@)
}

/// The directories whose headers bindings for the environment are made from, in the order in
/// which they are searched.
pub fn pg_target_includes(target_env: &str) -> (r: Vec<IncludeDir>)
    ensures
        r@ == if target_env@ == "msvc"@ {
            seq![
                IncludeDir::Server,
                IncludeDir::Package,
                IncludeDir::ServerPortWin32,
                IncludeDir::ServerPortWin32Msvc,
            ]
        } else {
            seq![IncludeDir::Server]
        },
        r@ == include_dirs(target_env@),
{
    let mut r: Vec<IncludeDir> = vec![IncludeDir::Server];
    if text::same_text(target_env, "msvc") {
        r.push(IncludeDir::Package);
        r.push(IncludeDir::ServerPortWin32);
        r.push(IncludeDir::ServerPortWin32Msvc);
    }
    r
}

/// The path of a directory of headers, without the mark of a verbatim path that Windows puts
/// in front of it.
pub fn find_include(path: &str) -> (r: String)
    ensures
        r@ == text::without_prefix_text(path@, "\\\\?\\"@),
        r@ == plain_path(path@),
{
    text::without_prefix(path, "\\\\?\\")
}

/// The flags that have headers looked for in the directories.
pub open spec fn include_flags(paths: Seq<Seq<char>>) -> Seq<Seq<char>> {
    Seq::new(paths.len(), |i: int| "-I"@ + paths[i])
}

/// The flag that has headers looked for in the directory at `path`.
fn include_flag(path: &str) -> (r: String)
    ensures
        r@ == "-I"@ + path@,
{
    let mut r = "-I".to_owned();
    r.append(path);
    r
}

/// Puts the flags for the directories at the end of `flags`.
fn push_include_flags(flags: &mut Vec<String>, paths: &Vec<String>)
    ensures
        text::texts(final(flags)@) == text::texts(old(flags)@) + include_flags(
            text::texts(paths@),
        ),
{
    let ghost before = text::texts(flags@);
    let ghost all = include_flags(text::texts(paths@));
    let mut i: usize = 0;
    assert(before + all.take(0) =~= before);
    while i < paths.len()
        invariant
            i <= paths@.len(),
            all == include_flags(text::texts(paths@)),
            text::texts(flags@) == before + all.take(i as int),
        decreases paths@.len() - i,
    {
        let ghost so_far = flags@;
        let flag = include_flag(paths[i].as_str());
        flags.push(flag);
        proof {
            assert(text::texts(flags@) =~= text::texts(so_far).push(flag@));
            assert(before + all.take(i + 1) =~= (before + all.take(i as int)).push(
                all[i as int],
            ));
        }
        i += 1;
    }
    assert(all.take(i as int) =~= all);
}

/// The flags that have headers looked for in the directories at `paths`.
pub fn include_args(paths: &Vec<String>) -> (r: Vec<String>)
    ensures
        text::texts(r@) == include_flags(text::texts(paths@)),
{
    let mut r: Vec<String> = Vec::new();
    push_include_flags(&mut r, paths);
    assert(text::texts(r@) =~= include_flags(text::texts(paths@)));
    r
}

/// Those of the paths that are text, in order.
pub open spec fn readable(paths: Seq<Option<String>>) -> Seq<Seq<char>>
    decreases paths.len(),
{
    if paths.len() == 0 {
        Seq::empty()
    } else {
        match paths.last() {
            Some(path) => readable(paths.drop_last()).push(path@),
            None => readable(paths.drop_last()),
        }
    }
}

/// The flags for the directories of the compiler's own headers.
pub open spec fn builtin_flags(autodetect: bool, includes: Seq<Option<String>>) -> Seq<Seq<char>> {
    if autodetect {
        Seq::empty()
    } else {
        include_flags(readable(includes))
    }
}

/// The flags for the directories of the compiler's own headers. They are given only where the
/// generator does not look for these directories itself; a path that is not text is passed
/// over.
pub fn builtin_include_args(autodetect: bool, includes: &Vec<Option<String>>) -> (r: Vec<String>)
    ensures
        text::texts(r@) == if autodetect {
            Seq::empty()
        } else {
            include_flags(readable(includes@))
        },
        text::texts(r@) == builtin_flags(autodetect, includes@),
{
    let mut r: Vec<String> = Vec::new();
    if autodetect {
        assert(text::texts(r@) =~= Seq::empty());
        return r;
    }
    let mut i: usize = 0;
    assert(text::texts(r@) =~= include_flags(readable(includes@.take(0))));
    while i < includes.len()
        invariant
            i <= includes@.len(),
            text::texts(r@) == include_flags(readable(includes@.take(i as int))),
        decreases includes@.len() - i,
    {
        assert(includes@.take(i + 1).drop_last() =~= includes@.take(i as int));
        if let Some(path) = &includes[i] {
            let ghost before = r@;
            let flag = include_flag(path.as_str());
            r.push(flag);
            proof {
                assert(text::texts(r@) =~= text::texts(before).push(flag@));
                assert(include_flags(readable(includes@.take(i + 1))) =~= include_flags(
                    readable(includes@.take(i as int)),
                ).push(flag@));
            }
        }
        i += 1;
    }
    assert(includes@.take(i as int) =~= includes@);
    r
}

/// The flags for the compiler, and the root of the SDK that they name.
pub struct ClangArgs {
    pub args: Vec<String>,
    pub sysroot: Option<String>,
}

/// What follows the first `-isysroot` that something follows.
pub open spec fn sysroot_of(flags: Seq<Seq<char>>) -> Option<Seq<char>>
    decreases flags.len(),
{
    if flags.len() < 2 {
        None
    } else if flags[0] == "-isysroot"@ {
        Some(flags[1])
    } else {
        sysroot_of(flags.skip(1))
    }
}

/// The arguments are the flags, except on Windows; the root of the SDK is looked at except on
/// macOS.
pub open spec fn chosen_args(
    args: ClangArgs,
    target_os: Seq<char>,
    flags: Seq<Seq<char>>,
) -> bool {
    &&& text::texts(args.args@) == if target_os != "windows"@ {
        flags
    } else {
        Seq::empty()
    }
    &&& match args.sysroot {
        Some(root) => target_os != "macos"@ && sysroot_of(flags) == Some(root@),
        None => target_os == "macos"@ || sysroot_of(flags) is None,
    }
}

/// What follows the first `-isysroot` in `flags`.
fn find_sysroot(flags: &Vec<String>) -> (r: Option<String>)
    ensures
        match r {
            Some(root) => sysroot_of(text::texts(flags@)) == Some(root@),
            None => sysroot_of(text::texts(flags@)) is None,
        },
{
    let ghost all = text::texts(flags@);
    let mut i: usize = 0;
    assert(all.skip(0) =~= all);
    while i < flags.len() && flags.len() - i >= 2
        invariant
            i <= flags@.len(),
            all == text::texts(flags@),
            sysroot_of(all) == sysroot_of(all.skip(i as int)),
        decreases flags@.len() - i,
    {
        if text::same_text(flags[i].as_str(), "-isysroot") {
            return Some(flags[i + 1].clone());
        }
        assert(all.skip(i as int).skip(1) =~= all.skip(i + 1));
        i += 1;
    }
    None
}

/// The flags for the compiler, from the words of the flags that PostgreSQL was built with.
pub fn clang_args(target_os: &str, flags: Vec<String>) -> (r: ClangArgs)
    ensures
        chosen_args(r, target_os@, text::texts(flags@)),
        target_os@ != "windows"@ ==> text::texts(r.args@) == text::texts(flags@),
        target_os@ == "windows"@ ==> r.args@.len() == 0,
        target_os@ == "macos"@ ==> r.sysroot is None,
        target_os@ != "macos"@ ==> (r.sysroot is Some <==> exists|i: int|
            0 <= i < flags@.len() - 1 && (#[trigger] flags@[i])@ == "-isysroot"@),
{
    proof {
        root_follows_the_first_flag(text::texts(flags@));
        assert forall|i: int| 0 <= i < flags@.len() implies (#[trigger] flags@[i])@ == text::texts(
            flags@,
        )[i] by {}
    }
    let sysroot: Option<String> = if text::same_text(target_os, "macos") {
        None
    } else {
        find_sysroot(&flags)
    };
    if text::same_text(target_os, "windows") {
        let args: Vec<String> = Vec::new();
        assert(text::texts(args@) =~= Seq::empty());
        ClangArgs { args, sysroot }
    } else {
        ClangArgs { args: flags, sysroot }
    }
}

/// The words of a command line as `shlex::split` takes it apart; `None` where it is not one.
pub uninterp spec fn shell_words(line: Seq<char>) -> Option<Seq<Seq<char>>>;

/// `shlex::split`: the words of `line` by the rules of a POSIX shell. The result depends on
/// the line alone. What the words of a given line are is not said.
#[verifier::external_body]
fn split_words(line: &str) -> (r: Option<Vec<String>>)
    ensures
        match r {
            Some(words) => shell_words(line@) == Some(text::texts(words@)),
            None => shell_words(line@) is None,
        },
{
    shlex::split(line)
}

/// The words of a command line; none where it is not one.
pub open spec fn words_or_none(line: Seq<char>) -> Seq<Seq<char>> {
    match shell_words(line) {
        Some(words) => words,
        None => Seq::empty(),
    }
}

/// The flags for the compiler, from the preprocessor flags that PostgreSQL was built with.
pub fn extra_bindgen_clang_args(target_os: &str, cppflags: &str) -> (r: ClangArgs)
    ensures
        chosen_args(r, target_os@, words_or_none(cppflags@)),
        target_os@ != "windows"@ ==> match shell_words(cppflags@) {
            Some(words) => text::texts(r.args@) == words,
            None => r.args@.len() == 0,
        },
        target_os@ == "windows"@ ==> r.args@.len() == 0,
{
    let flags: Vec<String> = match split_words(cppflags) {
        Some(words) => words,
        None => {
            let none: Vec<String> = Vec::new();
            assert(text::texts(none@) =~= Seq::empty());
            none
        },
    };
    clang_args(target_os, flags)
}

/// The warning that the root of an SDK is not there.
pub open spec fn warning_text(major_version: nat, root: Seq<char>) -> Seq<char> {
    "cargo:warning=postgres v"@ + text::decimal_text(major_version)
        + " was compiled against an SDK Root which does not seem to exist on this machine ("@ + root
        + "). You may need to re-run `cargo pgrx init` and/or update your command line tools."@
}

/// The warning that the root of the SDK that PostgreSQL was built with is not there.
pub fn sysroot_warning(major_version: u16, root: &str) -> (r: String)
    ensures
        r@ == "cargo:warning=postgres v"@ + text::decimal_text(major_version as nat)
            + " was compiled against an SDK Root which does not seem to exist on this machine ("@
            + root@
            + "). You may need to re-run `cargo pgrx init` and/or update your command line tools."@,
        r@ == warning_text(major_version as nat, root@),
{
    let mut r = "cargo:warning=postgres v".to_owned();
    let number = text::decimal(major_version as u64);
    r.append(number.as_str());
    r.append(
        " was compiled against an SDK Root which does not seem to exist on this machine (",
    );
    r.append(root);
    r.append(
        "). You may need to re-run `cargo pgrx init` and/or update your command line tools.",
    );
    r
}

/// The flags with which the compiler puts each function and each variable in a section of its
/// own.
pub open spec fn section_flags(like_gnu_or_clang: bool, like_msvc: bool) -> Seq<Seq<char>> {
    (if like_gnu_or_clang {
        seq!["-ffunction-sections"@, "-fdata-sections"@]
    } else {
        Seq::empty()
    }) + (if like_msvc {
        seq!["/Gy"@, "/Gw"@]
    } else {
        Seq::empty()
    })
}

/// The flags with which the C shim is compiled, in order.
pub open spec fn cshim_flags(
    like_gnu: bool,
    like_clang: bool,
    like_msvc: bool,
    includes: Seq<Seq<char>>,
    extra: Seq<Seq<char>>,
) -> Seq<Seq<char>> {
    section_flags(like_gnu || like_clang, like_msvc) + include_flags(includes) + extra
}

/// The flags with which the C shim is compiled: those of the compiler's family, the directories
/// of headers, and the flags that PostgreSQL was built with.
pub fn build_cshim(
    like_gnu: bool,
    like_clang: bool,
    like_msvc: bool,
    includes: &Vec<String>,
    extra: Vec<String>,
) -> (r: Vec<String>)
    ensures
        text::texts(r@) == section_flags(like_gnu || like_clang, like_msvc) + include_flags(
            text::texts(includes@),
        ) + text::texts(extra@),
        text::texts(r@) == cshim_flags(
            like_gnu,
            like_clang,
            like_msvc,
            text::texts(includes@),
            text::texts(extra@),
        ),
{
    let mut flags: Vec<String> = Vec::new();
    if like_gnu || like_clang {
        flags.push("-ffunction-sections".to_owned());
        flags.push("-fdata-sections".to_owned());
    }
    if like_msvc {
        flags.push("/Gy".to_owned());
        flags.push("/Gw".to_owned());
    }
    assert(text::texts(flags@) =~= section_flags(like_gnu || like_clang, like_msvc));
    push_include_flags(&mut flags, includes);
    let ghost before = flags@;
    let ghost tail = extra@;
    let mut extra = extra;
    flags.append(&mut extra);
    assert(text::texts(flags@) =~= text::texts(before) + text::texts(tail));
    flags
}

/// Of each kind of declaration these are left out, and no others.
pub proof fn left_out_declarations(kind: Blocked, pattern: Seq<char>)
    ensures
        blocklist().contains((kind, pattern)) <==> match kind {
            Blocked::Type => {
                ||| pattern == "Datum"@
                ||| pattern == "Oid"@
                ||| pattern == "TransactionId"@
                ||| pattern == "MultiXactId"@
            },
            Blocked::Var => {
                ||| pattern == "CONFIGURE_ARGS"@
                ||| pattern == "_*(?:HAVE|have)_.*"@
                ||| pattern == "_[A-Z_]+_H"@
            },
            Blocked::Function => {
                ||| pattern == "pg_re_throw"@
                ||| pattern == "err(start|code|msg|detail|context_msg|hint|finish)"@
                ||| pattern == "heap_getattr"@
                ||| pattern == "BufferGetBlock"@
                ||| pattern == "BufferGetPage"@
                ||| pattern == "BufferIsLocal"@
                ||| pattern == "GetMemoryChunkContext"@
                ||| pattern == "GETSTRUCT"@
                ||| pattern == "MAXALIGN"@
                ||| pattern == "MemoryContextIsValid"@
                ||| pattern == "MemoryContextSwitchTo"@
                ||| pattern == "TYPEALIGN"@
                ||| pattern == "TransactionIdIsNormal"@
                ||| pattern == "expression_tree_walker"@
                ||| pattern == "get_pg_major_minor_version_string"@
                ||| pattern == "get_pg_major_version_num"@
                ||| pattern == "get_pg_major_version_string"@
                ||| pattern == "get_pg_version_string"@
                ||| pattern == "heap_tuple_get_struct"@
                ||| pattern == "planstate_tree_walker"@
                ||| pattern == "query_or_expression_tree_walker"@
                ||| pattern == "query_tree_walker"@
                ||| pattern == "range_table_entry_walker"@
                ||| pattern == "range_table_walker"@
                ||| pattern == "raw_expression_tree_walker"@
                ||| pattern == "type_is_array"@
                ||| pattern == "varsize_any"@
                ||| pattern == "IsQueryIdEnabled"@
            },
            Blocked::Item => {
                ||| pattern == "ERROR"@
            },
        },
        blocklist().len() == 36,
{
    assert(blocklist()[0] == (Blocked::Type, "Datum"@));
    assert(blocklist()[1] == (Blocked::Type, "Oid"@));
    assert(blocklist()[2] == (Blocked::Type, "TransactionId"@));
    assert(blocklist()[3] == (Blocked::Type, "MultiXactId"@));
    assert(blocklist()[4] == (Blocked::Var, "CONFIGURE_ARGS"@));
    assert(blocklist()[5] == (Blocked::Var, "_*(?:HAVE|have)_.*"@));
    assert(blocklist()[6] == (Blocked::Var, "_[A-Z_]+_H"@));
    assert(blocklist()[7] == (Blocked::Function, "pg_re_throw"@));
    assert(blocklist()[8] == (Blocked::Function, "err(start|code|msg|detail|context_msg|hint|finish)"@));
    assert(blocklist()[9] == (Blocked::Function, "heap_getattr"@));
    assert(blocklist()[10] == (Blocked::Function, "BufferGetBlock"@));
    assert(blocklist()[11] == (Blocked::Function, "BufferGetPage"@));
    assert(blocklist()[12] == (Blocked::Function, "BufferIsLocal"@));
    assert(blocklist()[13] == (Blocked::Function, "GetMemoryChunkContext"@));
    assert(blocklist()[14] == (Blocked::Function, "GETSTRUCT"@));
    assert(blocklist()[15] == (Blocked::Function, "MAXALIGN"@));
    assert(blocklist()[16] == (Blocked::Function, "MemoryContextIsValid"@));
    assert(blocklist()[17] == (Blocked::Function, "MemoryContextSwitchTo"@));
    assert(blocklist()[18] == (Blocked::Function, "TYPEALIGN"@));
    assert(blocklist()[19] == (Blocked::Function, "TransactionIdIsNormal"@));
    assert(blocklist()[20] == (Blocked::Function, "expression_tree_walker"@));
    assert(blocklist()[21] == (Blocked::Function, "get_pg_major_minor_version_string"@));
    assert(blocklist()[22] == (Blocked::Function, "get_pg_major_version_num"@));
    assert(blocklist()[23] == (Blocked::Function, "get_pg_major_version_string"@));
    assert(blocklist()[24] == (Blocked::Function, "get_pg_version_string"@));
    assert(blocklist()[25] == (Blocked::Function, "heap_tuple_get_struct"@));
    assert(blocklist()[26] == (Blocked::Function, "planstate_tree_walker"@));
    assert(blocklist()[27] == (Blocked::Function, "query_or_expression_tree_walker"@));
    assert(blocklist()[28] == (Blocked::Function, "query_tree_walker"@));
    assert(blocklist()[29] == (Blocked::Function, "range_table_entry_walker"@));
    assert(blocklist()[30] == (Blocked::Function, "range_table_walker"@));
    assert(blocklist()[31] == (Blocked::Function, "raw_expression_tree_walker"@));
    assert(blocklist()[32] == (Blocked::Function, "type_is_array"@));
    assert(blocklist()[33] == (Blocked::Function, "varsize_any"@));
    assert(blocklist()[34] == (Blocked::Item, "ERROR"@));
    assert(blocklist()[35] == (Blocked::Function, "IsQueryIdEnabled"@));
}

/// The characters that have a meaning of their own in a pattern are these, and no others.
pub proof fn meta_characters(c: char)
    ensures
        is_meta(c) <==> seq![
            '\\', '.', '+', '*', '?', '(', ')', '|', '[', ']', '{', '}', '^', '$', '#', '&', '-', '~',
        ].contains(c),
{
    let list = seq![
        '\\', '.', '+', '*', '?', '(', ')', '|', '[', ']', '{', '}', '^', '$', '#', '&', '-', '~',
    ];
    assert(list[0] == '\\' && list[1] == '.' && list[2] == '+' && list[3] == '*' && list[4] == '?'
        && list[5] == '(' && list[6] == ')' && list[7] == '|' && list[8] == '[' && list[9] == ']'
        && list[10] == '{' && list[11] == '}' && list[12] == '^' && list[13] == '$' && list[14]
        == '#' && list[15] == '&' && list[16] == '-' && list[17] == '~');
}

/// Texts are escaped character by character: one that has a meaning of its own gets a backslash
/// before it, any other stays alone.
pub proof fn characters_are_escaped_one_by_one(a: Seq<char>, b: Seq<char>, c: char)
    ensures
        escaped(Seq::empty()) == Seq::<char>::empty(),
        is_meta(c) ==> escaped(seq![c]) == seq!['\\', c],
        !is_meta(c) ==> escaped(seq![c]) == seq![c],
        escaped(a + b) == escaped(a) + escaped(b),
{
    let pieces = |s: Seq<char>|
        Seq::new(
            s.len(),
            |i: int|
                if is_meta(s[i]) {
                    seq!['\\', s[i]]
                } else {
                    seq![s[i]]
                },
        );
    assert(pieces(Seq::empty()) =~= Seq::empty());
    assert(pieces(seq![c]) =~= seq![pieces(seq![c])[0]]);
    assert(pieces(a + b) =~= pieces(a) + pieces(b));
    text::texts_follow_each_other(pieces(a), pieces(b), pieces(seq![c])[0]);
}

/// What is taken in: for each directory, in order, the files whose path begins with it, taken to
/// the letter, and after them two kinds of items.
pub proof fn taken_in_declarations(includes: Seq<Seq<char>>)
    ensures
        allowlist(includes).len() == includes.len() + 2,
        forall|i: int|
            0 <= i < includes.len() ==> #[trigger] allowlist(includes)[i] == (
                Allowed::File,
                escaped(includes[i]) + seq!['.', '*'],
            ),
        allowlist(includes)[includes.len() as int] == (Allowed::Item, "PGERROR"@),
        allowlist(includes)[includes.len() as int + 1] == (Allowed::Item, "SIG.*"@),
{
    reveal_strlit(".*");
    assert(".*"@ =~= seq!['.', '*']);
}

/// Headers are looked for below the server's directory, and on Windows with Visual C++, and there
/// only, in three more directories after it.
pub proof fn directories_of_an_environment(target_env: Seq<char>)
    ensures
        include_dirs(target_env)[0] is Server,
        target_env == "msvc"@ ==> {
            &&& include_dirs(target_env).len() == 4
            &&& include_dirs(target_env)[1] is Package
            &&& include_dirs(target_env)[2] is ServerPortWin32
            &&& include_dirs(target_env)[3] is ServerPortWin32Msvc
        },
        target_env != "msvc"@ ==> include_dirs(target_env).len() == 1,
{
}

/// A path loses the mark of a verbatim path, `\\\\?\\`, where it begins with it, and only there.
pub proof fn verbatim_mark_is_taken_off(rest: Seq<char>, other: Seq<char>)
    ensures
        plain_path(seq!['\\', '\\', '?', '\\'] + rest) == rest,
        !(other.len() >= 4 && other[0] == '\\' && other[1] == '\\' && other[2] == '?' && other[3]
            == '\\') ==> plain_path(other) == other,
{
    reveal_strlit("\\\\?\\");
    assert("\\\\?\\"@ =~= seq!['\\', '\\', '?', '\\']);
    text::prefix_is_taken_off(other, "\\\\?\\"@, rest);
    if exists|after: Seq<char>| other == #[trigger] ("\\\\?\\"@ + after) {
        assert(other[0] == '\\' && other[1] == '\\' && other[2] == '?' && other[3] == '\\');
    }
}

/// Each directory gets a flag of its own, in its place.
pub proof fn each_directory_has_its_flag(paths: Seq<Seq<char>>)
    ensures
        include_flags(paths).len() == paths.len(),
        forall|i: int|
            0 <= i < paths.len() ==> #[trigger] include_flags(paths)[i] == seq!['-', 'I']
                + paths[i],
{
    reveal_strlit("-I");
    assert("-I"@ =~= seq!['-', 'I']);
}

/// Paths that are text are kept one by one, in order; others are passed over.
pub proof fn paths_are_kept_one_by_one(
    a: Seq<Option<String>>,
    b: Seq<Option<String>>,
    path: String,
)
    ensures
        readable(seq![Some(path)]) == seq![path@],
        readable(seq![None]) == Seq::<Seq<char>>::empty(),
        readable(Seq::empty()) == Seq::<Seq<char>>::empty(),
        readable(a + b) == readable(a) + readable(b),
    decreases b.len(),
{
    reveal_with_fuel(readable, 2);
    assert(seq![Some(path)].drop_last() =~= Seq::empty());
    assert(seq![None::<String>].drop_last() =~= Seq::empty());
    assert(readable(seq![Some(path)]) =~= seq![path@]);
    if b.len() == 0 {
        assert(a + b =~= a);
        assert(readable(a) + readable(b) =~= readable(a));
    } else {
        paths_are_kept_one_by_one(a, b.drop_last(), path);
        assert((a + b).drop_last() =~= a + b.drop_last());
        assert(readable(a + b) =~= readable(a) + readable(b));
    }
}

/// The root of the SDK is what follows the first flag that names one, where something follows it.
pub proof fn root_follows_the_first_flag(flags: Seq<Seq<char>>)
    ensures
        match sysroot_of(flags) {
            Some(root) => exists|i: int|
                {
                    &&& 0 <= i < flags.len() - 1
                    &&& #[trigger] flags[i] == "-isysroot"@
                    &&& flags[i + 1] == root
                    &&& forall|j: int| 0 <= j < i ==> #[trigger] flags[j] != "-isysroot"@
                },
            None => forall|i: int|
                0 <= i < flags.len() - 1 ==> #[trigger] flags[i] != "-isysroot"@,
        },
    decreases flags.len(),
{
    if flags.len() >= 2 && flags[0] != "-isysroot"@ {
        let rest = flags.skip(1);
        root_follows_the_first_flag(rest);
        match sysroot_of(flags) {
            Some(root) => {
                let i = choose|i: int|
                    {
                        &&& 0 <= i < rest.len() - 1
                        &&& #[trigger] rest[i] == "-isysroot"@
                        &&& rest[i + 1] == root
                        &&& forall|j: int| 0 <= j < i ==> #[trigger] rest[j] != "-isysroot"@
                    };
                assert forall|j: int| 0 <= j < i + 1 implies #[trigger] flags[j]
                    != "-isysroot"@ by {
                    if j > 0 {
                        assert(rest[j - 1] == flags[j]);
                    }
                }
                assert(flags[i + 1] == "-isysroot"@);
            },
            None => {
                assert forall|i: int| 0 <= i < flags.len() - 1 implies #[trigger] flags[i]
                    != "-isysroot"@ by {
                    if i > 0 {
                        assert(rest[i - 1] == flags[i]);
                    }
                }
            },
        }
    }
}

/// On each system but Windows the compiler gets all flags, in their order; on Windows it gets none
/// of them. On each system but macOS the root of the SDK is the one that the flags name; on macOS
/// it is not looked at.
pub proof fn flags_depend_on_windows_alone(
    args: ClangArgs,
    target_os: Seq<char>,
    flags: Seq<Seq<char>>,
)
    requires
        chosen_args(args, target_os, flags),
    ensures
        target_os != seq!['w', 'i', 'n', 'd', 'o', 'w', 's'] ==> {
            &&& args.args@.len() == flags.len()
            &&& forall|i: int| 0 <= i < flags.len() ==> (#[trigger] args.args@[i])@ == flags[i]
        },
        target_os == seq!['w', 'i', 'n', 'd', 'o', 'w', 's'] ==> args.args@.len() == 0,
        target_os == seq!['m', 'a', 'c', 'o', 's'] ==> args.sysroot is None,
        target_os != seq!['m', 'a', 'c', 'o', 's'] ==> match args.sysroot {
            Some(root) => exists|i: int|
                {
                    &&& 0 <= i < flags.len() - 1
                    &&& #[trigger] flags[i] == "-isysroot"@
                    &&& flags[i + 1] == root@
                    &&& forall|j: int| 0 <= j < i ==> #[trigger] flags[j] != "-isysroot"@
                },
            None => forall|i: int|
                0 <= i < flags.len() - 1 ==> #[trigger] flags[i] != "-isysroot"@,
        },
{
    reveal_strlit("windows");
    reveal_strlit("macos");
    assert("windows"@ =~= seq!['w', 'i', 'n', 'd', 'o', 'w', 's']);
    assert("macos"@ =~= seq!['m', 'a', 'c', 'o', 's']);
    root_follows_the_first_flag(flags);
    assert(text::texts(args.args@).len() == args.args@.len());
    assert forall|i: int| 0 <= i < args.args@.len() implies (#[trigger] args.args@[i])@
        == text::texts(args.args@)[i] by {}
}

/// Flags that PostgreSQL was built with stand for themselves where they are a command line, and
/// for none where they are not.
pub proof fn words_are_those_of_the_line(line: Seq<char>)
    ensures
        shell_words(line) matches Some(words) ==> words_or_none(line) == words,
        shell_words(line) is None ==> words_or_none(line).len() == 0,
{
}

/// The flags of the C shim: two for compilers like GCC and like Clang, two for those like Visual
/// C++, then a flag for each directory, then the flags that PostgreSQL was built with.
pub proof fn flags_of_the_shim(
    like_gnu: bool,
    like_clang: bool,
    like_msvc: bool,
    includes: Seq<Seq<char>>,
    extra: Seq<Seq<char>>,
)
    ensures
        ({
            let all = cshim_flags(like_gnu, like_clang, like_msvc, includes, extra);
            let unix: int = if like_gnu || like_clang {
                2
            } else {
                0
            };
            let windows: int = if like_msvc {
                2
            } else {
                0
            };
            let first = unix + windows;
            &&& all.len() == first + includes.len() + extra.len()
            &&& unix > 0 ==> all[0] == "-ffunction-sections"@ && all[1] == "-fdata-sections"@
            &&& windows > 0 ==> all[unix] == "/Gy"@ && all[unix + 1] == "/Gw"@
            &&& all.subrange(first, first + includes.len()) == Seq::new(
                includes.len(),
                |i: int| "-I"@ + includes[i],
            )
            &&& all.skip(first + includes.len()) == extra
        }),
{
    let all = cshim_flags(like_gnu, like_clang, like_msvc, includes, extra);
    let first = all.len() - includes.len() - extra.len();
    assert(all.subrange(first, first + includes.len()) =~= Seq::new(
        includes.len(),
        |i: int| "-I"@ + includes[i],
    ));
    assert(all.skip(first + includes.len()) =~= extra);
}

/// The warning names the version and the root that is missing.
pub proof fn warnings_name_the_root(major_version: nat, root: Seq<char>)
    ensures
        exists|digits: Seq<char>|
            {
                &&& warning_text(major_version, root) == #[trigger] ("cargo:warning=postgres v"@
                    + digits
                    + " was compiled against an SDK Root which does not seem to exist on this machine ("@
                    + root
                    + "). You may need to re-run `cargo pgrx init` and/or update your command line tools."@)
                &&& text::decimal_value(digits) == major_version
            },
{
    text::decimal_digits_give_the_number(major_version);
    let digits = text::decimal_text(major_version);
    assert(warning_text(major_version, root) == "cargo:warning=postgres v"@ + digits
        + " was compiled against an SDK Root which does not seem to exist on this machine ("@ + root
        + "). You may need to re-run `cargo pgrx init` and/or update your command line tools."@);
}

/// Three traits are derived, and the five by which values are compared or hashed are not.
pub proof fn derived_traits()
    ensures
        derives().debug,
        derives().copy,
        derives().default,
        !derives().eq,
        !derives().partialeq,
        !derives().hash,
        !derives().ord,
        !derives().partialord,
{
}

/// Where the generator looks for the compiler's own headers it gets no flags for them; elsewhere
/// each directory whose path is text has its flag.
pub proof fn own_headers_have_flags_or_are_looked_for(includes: Seq<Option<String>>)
    ensures
        builtin_flags(true, includes).len() == 0,
        builtin_flags(false, includes).len() == readable(includes).len(),
        forall|i: int|
            0 <= i < readable(includes).len() ==> #[trigger] builtin_flags(false, includes)[i]
                == seq!['-', 'I'] + readable(includes)[i],
{
    each_directory_has_its_flag(readable(includes));
}

/// Rules keep their kinds and their patterns, each in its place.
pub proof fn rules_keep_their_places(
    blocked: Seq<(Blocked, &'static str)>,
    allowed: Seq<(Allowed, String)>,
)
    ensures
        blocked_rules(blocked).len() == blocked.len(),
        forall|i: int|
            0 <= i < blocked.len() ==> (#[trigger] blocked_rules(blocked)[i]).0 == blocked[i].0
                && blocked_rules(blocked)[i].1 == blocked[i].1@,
        allowed_rules(allowed).len() == allowed.len(),
        forall|i: int|
            0 <= i < allowed.len() ==> (#[trigger] allowed_rules(allowed)[i]).0 == allowed[i].0
                && allowed_rules(allowed)[i].1 == allowed[i].1@,
{
}

} // verus!
