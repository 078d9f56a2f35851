use pgrx_bindgen::cargo::{
    emit_rerun_if_changed, link_search, pg_config_metadata, rerun_if_changed, rerun_if_env_changed,
};
use pgrx_bindgen::origin::{
    binding_origin, builds_cshim, docs_archive_path, is_docs_rs, is_set_to, is_verbose,
    BindingOrigin,
};
use pgrx_bindgen::target::{guess_env, guess_os};
use pgrx_bindgen::version::{
    config_name, feature_variable, header_for, is_yanked, select_version, version_mismatch,
    yanked_notice, FeatureError, PgMinorVersion, PgVersion,
};

fn release(major: u16, minor: u16) -> PgVersion {
    PgVersion { major, minor: PgMinorVersion::Release(minor) }
}

#[test]
fn os_is_guessed_from_the_triple() {
    assert_eq!(guess_os("aarch64-macos"), "macos");
    assert_eq!(guess_os("x86_64-macos-something"), "macos");
    assert_eq!(guess_os("macos"), "");
    assert_eq!(guess_os("x86_64-unknown-linux-gnu"), "");
    assert_eq!(guess_os("aarch64-apple-darwin"), "");
    assert_eq!(guess_os(""), "");
}

#[test]
fn env_is_guessed_from_the_triple() {
    assert_eq!(guess_env("x86_64-pc-windows-msvc"), "msvc");
    assert_eq!(guess_env("x86_64-pc-windows-gnu"), "");
    assert_eq!(guess_env("x86_64-msvc-windows"), "");
    assert_eq!(guess_env("msvc"), "");
    assert_eq!(guess_env("-msvc"), "msvc");
}

#[test]
fn yanked_versions_are_refused() {
    for (major, minor) in [(17, 1), (16, 5), (15, 9), (14, 14), (13, 17)] {
        assert!(is_yanked(&release(major, minor)));
        assert!(!is_yanked(&release(major, minor + 1)));
        assert!(header_for(major).is_some());
    }
    assert!(!is_yanked(&PgVersion { major: 17, minor: PgMinorVersion::Beta(1) }));
    assert!(!is_yanked(&PgVersion { major: 17, minor: PgMinorVersion::Rc(1) }));
    assert!(!is_yanked(&PgVersion { major: 17, minor: PgMinorVersion::Latest }));
}

#[test]
fn the_notice_names_the_version_and_its_series() {
    assert_eq!(
        yanked_notice(&release(14, 14)).unwrap(),
        "Postgres v14.14 is incompatible with other versions in this major series and is not \
         supported by pgrx.  Please upgrade to the latest version in the v14 series."
    );
    assert!(yanked_notice(&release(14, 15)).is_none());
}

#[test]
fn headers_of_supported_versions() {
    assert_eq!(header_for(13).unwrap(), "pg13.h");
    assert_eq!(header_for(17).unwrap(), "pg17.h");
    assert!(header_for(12).is_none());
    assert!(header_for(18).is_none());
}

#[test]
fn names_of_a_version() {
    assert_eq!(config_name(16), "pg16");
    assert_eq!(feature_variable(9), "CARGO_FEATURE_PG9");
}

#[test]
fn the_one_enabled_feature_is_chosen() {
    let features = vec![(13, false), (14, false), (15, true), (16, false), (17, false)];
    assert!(matches!(select_version(&features), Ok(15)));
}

#[test]
fn no_feature_is_an_error() {
    let features = vec![(13, false), (14, false)];
    let error = select_version(&features).unwrap_err_or_panic();
    assert!(matches!(&error, FeatureError::Missing { supported } if supported == &vec![13, 14]));
    assert_eq!(
        error.message(),
        "Did not find `pg$VERSION` feature. `pgrx-pg-sys` requires one of `pg13`, `pg14` to be set"
    );
}

#[test]
fn several_features_are_an_error() {
    let features = vec![(13, true), (14, false), (15, true), (16, true)];
    let error = select_version(&features).unwrap_err_or_panic();
    assert!(matches!(&error, FeatureError::Multiple { found } if found == &vec![13, 15, 16]));
    assert_eq!(
        error.message(),
        "Multiple `pg$VERSION` features found.\n`--no-default-features` may be required.\n\
         Found: pg13, pg15, pg16"
    );
}

trait ErrorOf {
    fn unwrap_err_or_panic(self) -> FeatureError;
}

impl ErrorOf for Result<u16, FeatureError> {
    fn unwrap_err_or_panic(self) -> FeatureError {
        match self {
            Ok(major) => panic!("chose {}", major),
            Err(error) => error,
        }
    }
}

#[test]
fn versions_must_agree() {
    assert!(version_mismatch(17, 17).is_none());
    assert_eq!(
        version_mismatch(17, 16).unwrap(),
        "Feature flag `pg17` does not match version from the environment-described PgConfig (`16`)"
    );
}

#[test]
fn rerun_lines_for_a_target() {
    let lines = emit_rerun_if_changed(Some("x86_64-unknown-linux-gnu"), Some("/home/u/.pgrx/config.toml"));
    assert_eq!(
        lines,
        vec![
            "cargo:rerun-if-env-changed=PGRX_PG_CONFIG_PATH",
            "cargo:rerun-if-env-changed=PGRX_PG_CONFIG_AS_ENV",
            "cargo:rerun-if-env-changed=LLVM_CONFIG_PATH",
            "cargo:rerun-if-env-changed=LIBCLANG_PATH",
            "cargo:rerun-if-env-changed=LIBCLANG_STATIC_PATH",
            "cargo:rerun-if-env-changed=BINDGEN_EXTRA_CLANG_ARGS",
            "cargo:rerun-if-env-changed=BINDGEN_EXTRA_CLANG_ARGS_x86_64-unknown-linux-gnu",
            "cargo:rerun-if-env-changed=BINDGEN_EXTRA_CLANG_ARGS_x86_64_unknown_linux_gnu",
            "cargo:rerun-if-changed=/home/u/.pgrx/config.toml",
        ]
    );
}

#[test]
fn rerun_lines_without_a_configuration_or_a_target() {
    assert_eq!(emit_rerun_if_changed(Some("t"), None).len(), 8);
    let fixed = emit_rerun_if_changed(None, Some("ignored"));
    assert_eq!(fixed.len(), 6);
    assert_eq!(fixed[5], "cargo:rerun-if-env-changed=BINDGEN_EXTRA_CLANG_ARGS");
}

#[test]
fn single_lines() {
    assert_eq!(rerun_if_env_changed("DOCS_RS"), "cargo:rerun-if-env-changed=DOCS_RS");
    assert_eq!(rerun_if_changed("a/b"), "cargo:rerun-if-changed=a/b");
    assert_eq!(link_search("/usr/lib"), "cargo:rustc-link-search=/usr/lib");
    assert_eq!(pg_config_metadata("/usr/bin/pg_config"), "cargo:PG_CONFIG=/usr/bin/pg_config");
}

#[test]
fn switches_of_the_environment() {
    assert!(is_verbose(Some("true")));
    assert!(!is_verbose(Some("1")));
    assert!(!is_verbose(None));
    assert!(is_docs_rs(Some("1")));
    assert!(!is_docs_rs(Some("true")));
    assert!(is_set_to(Some("x"), "x"));
    assert!(!is_set_to(None, ""));
}

#[test]
fn origins_of_bindings() {
    assert!(matches!(
        binding_origin(Some("b.zip".to_string()), true),
        BindingOrigin::Archive(path) if path == "b.zip"
    ));
    assert!(matches!(binding_origin(None, true), BindingOrigin::DocsArchive));
    assert!(matches!(binding_origin(None, false), BindingOrigin::Generate));
    assert_eq!(docs_archive_path("/crate", '/', 16), "/crate/assets/pg16.zip");
    assert!(builds_cshim(false, true));
    assert!(!builds_cshim(true, true));
    assert!(!builds_cshim(false, false));
}
