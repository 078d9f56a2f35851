//! The versions of PostgreSQL: which are refused, which are supported, and which one a build
//! is for.
use crate::text;
use vstd::prelude::*;
use vstd::string::*;

verus! {

/// What follows the major version of a release.
#[derive(Clone, Copy, Debug, PartialEq, Eq, Structural)]
pub enum PgMinorVersion {
    Latest,
    Release(u16),
    Beta(u16),
    Rc(u16),
}

/// A version of PostgreSQL.
#[derive(Clone, Copy, Debug, PartialEq, Eq, Structural)]
pub struct PgVersion {
    pub major: u16,
    pub minor: PgMinorVersion,
}

/// The releases that the community replaced because they broke the ABI of their series.
pub open spec fn is_yanked_version(version: PgVersion) -> bool {
    ||| version.major == 17 && version.minor == PgMinorVersion::Release(1)
    ||| version.major == 16 && version.minor == PgMinorVersion::Release(5)
    ||| version.major == 15 && version.minor == PgMinorVersion::Release(9)
    ||| version.major == 14 && version.minor == PgMinorVersion::Release(14)
    ||| version.major == 13 && version.minor == PgMinorVersion::Release(17)
}

/// Why release `minor` of the series `major` is refused.
pub open spec fn yanked_text(major: nat, minor: nat) -> Seq<char> {
    "Postgres v"@ + text::decimal_text(major) + "."@ + text::decimal_text(minor)
        + " is incompatible with other versions in this major series and is not supported by pgrx.  Please upgrade to the latest version in the v"@
        + text::decimal_text(major) + " series."@
}

/// Whether bindings for `version` are refused.
pub fn is_yanked(version: &PgVersion) -> (r: bool)
    ensures
        r == is_yanked_version(*version),
{
    match version.minor {
        PgMinorVersion::Release(minor) => (version.major == 17 && minor == 1) || (version.major
            == 16 && minor == 5) || (version.major == 15 && minor == 9) || (version.major == 14
            && minor == 14) || (version.major == 13 && minor == 17),
        _ => false,
    }
}

/// Why bindings for `version` are refused, where they are.
pub fn yanked_notice(version: &PgVersion) -> (r: Option<String>)
    ensures
        match r {
            Some(notice) => is_yanked_version(*version) && notice@ == yanked_text(
                version.major as nat,
                version.minor->Release_0 as nat,
            ),
            None => !is_yanked_version(*version),
        },
{
    if !is_yanked(version) {
        return None;
    }
    match version.minor {
        PgMinorVersion::Release(minor) => {
            let major_text = text::decimal(version.major as u64);
            let minor_text = text::decimal(minor as u64);
            let mut notice = "Postgres v".to_owned();
            notice.append(major_text.as_str());
            notice.append(".");
            notice.append(minor_text.as_str());
            notice.append(
                " is incompatible with other versions in this major series and is not supported by pgrx.  Please upgrade to the latest version in the v",
            );
            notice.append(major_text.as_str());
            notice.append(" series.");
            Some(notice)
        },
        _ => None,
    }
}

/// The header that the bindings of a supported major version are made from.
pub open spec fn header_name(major: u16) -> Option<Seq<char>> {
    if 13 <= major <= 17 {
        Some("pg"@ + text::decimal_text(major as nat) + ".h"@)
    } else {
        None
    }
}

/// The header that the bindings of `major` are made from; `None` where it is not supported.
pub fn header_for(major: u16) -> (r: Option<String>)
    ensures
        match r {
            Some(name) => header_name(major) == Some(name@),
            None => header_name(major) is None,
        },
{
    if 13 <= major && major <= 17 {
        let mut name = config_name(major);
        name.append(".h");
        Some(name)
    } else {
        None
    }
}

/// The name of a major version among the features and in the configuration.
pub fn config_name(major: u16) -> (r: String)
    ensures
        r@ == "pg"@ + text::decimal_text(major as nat),
        r@ == config_text(major as nat),
{
    let mut name = "pg".to_owned();
    let number = text::decimal(major as u64);
    name.append(number.as_str());
    name
}

/// The environment variable that is set where the feature of `major` is on.
pub fn feature_variable(major: u16) -> (r: String)
    ensures
        r@ == "CARGO_FEATURE_PG"@ + text::decimal_text(major as nat),
        r@ == feature_text(major as nat),
{
    let mut name = "CARGO_FEATURE_PG".to_owned();
    let number = text::decimal(major as u64);
    name.append(number.as_str());
    name
}

/// Why no version could be chosen.
pub enum FeatureError {
    /// No feature is on. These are the major versions that have one.
    Missing { supported: Vec<u16> },
    /// The features of several major versions are on.
    Multiple { found: Vec<u16> },
}

/// The major versions of a list, each with whether its feature is on.
pub open spec fn majors(features: Seq<(u16, bool)>) -> Seq<u16> {
    Seq::new(features.len(), |i: int| features[i].0)
}

/// The major versions whose feature is on, in the order of the list.
pub open spec fn enabled(features: Seq<(u16, bool)>) -> Seq<u16>
    decreases features.len(),
{
    if features.len() == 0 {
        Seq::empty()
    } else if features.last().1 {
        enabled(features.drop_last()).push(features.last().0)
    } else {
        enabled(features.drop_last())
    }
}

/// The names of major versions, each between two marks.
pub open spec fn marked_names(majors: Seq<u16>, mark: Seq<char>) -> Seq<Seq<char>> {
    Seq::new(
        majors.len(),
        |i: int| mark + "pg"@ + text::decimal_text(majors[i] as nat) + mark,
    )
}

/// What the error says.
pub open spec fn error_text(error: FeatureError) -> Seq<char> {
    match error {
        FeatureError::Missing { supported } =>
            "Did not find `pg$VERSION` feature. `pgrx-pg-sys` requires one of "@ + text::joined(
            marked_names(supported@, "`"@),
            ", "@,
        ) + " to be set"@,
        FeatureError::Multiple { found } =>
            "Multiple `pg$VERSION` features found.\n`--no-default-features` may be required.\nFound: "@
            + text::joined(marked_names(found@, ""@), ", "@),
    }
}

/// The one major version whose feature is on. Each entry of `features` is a supported major
/// version and whether its feature is on.
pub fn select_version(features: &Vec<(u16, bool)>) -> (r: Result<u16, FeatureError>)
    ensures
        match r {
            Ok(major) => enabled(features@).len() == 1 && enabled(features@)[0] == major,
            Err(FeatureError::Missing { supported }) => enabled(features@).len() == 0
                && supported@ == majors(features@),
            Err(FeatureError::Multiple { found }) => enabled(features@).len() > 1 && found@
                == enabled(features@),
        },
        match r {
            Ok(major) => exists|k: int|
                {
                    &&& 0 <= k < features@.len()
                    &&& #[trigger] features@[k] == (major, true)
                    &&& forall|i: int|
                        0 <= i < features@.len() && i != k ==> !(#[trigger] features@[i]).1
                },
            Err(FeatureError::Missing { supported }) => {
                &&& forall|i: int| 0 <= i < features@.len() ==> !(#[trigger] features@[i]).1
                &&& supported@.len() == features@.len()
                &&& forall|i: int|
                    0 <= i < features@.len() ==> supported@[i] == (#[trigger] features@[i]).0
            },
            Err(FeatureError::Multiple { found }) => exists|j: int, k: int|
                0 <= j < k < features@.len() && (#[trigger] features@[j]).1 && (
                #[trigger] features@[k]).1,
        },
{
    let mut found: Vec<u16> = Vec::new();
    let mut supported: Vec<u16> = Vec::new();
    let mut i: usize = 0;
    while i < features.len()
        invariant
            i <= features@.len(),
            found@ == enabled(features@.take(i as int)),
            supported@ == majors(features@.take(i as int)),
        decreases features@.len() - i,
    {
        assert(features@.take(i + 1).drop_last() =~= features@.take(i as int));
        let (major, on): (u16, bool) = features[i];
        supported.push(major);
        if on {
            found.push(major);
        }
        assert(supported@ =~= majors(features@.take(i + 1)));
        i += 1;
    }
    assert(features@.take(i as int) =~= features@);
    proof {
        found_features_are_on(features@);
    }
    if found.len() == 1 {
        Ok(found[0])
    } else if found.len() == 0 {
        Err(FeatureError::Missing { supported })
    } else {
        Err(FeatureError::Multiple { found })
    }
}

/// The names of major versions, each between two marks, with commas between them.
fn list_names(majors: &Vec<u16>, mark: &str) -> (r: String)
    ensures
        r@ == text::joined(marked_names(majors@, mark@), ", "@),
{
    let mut names: Vec<String> = Vec::new();
    let mut i: usize = 0;
    while i < majors.len()
        invariant
            i <= majors@.len(),
            text::texts(names@) == marked_names(majors@, mark@).take(i as int),
        decreases majors@.len() - i,
    {
        let mut name = mark.to_owned();
        let version = config_name(majors[i]);
        name.append(version.as_str());
        name.append(mark);
        let ghost before = names@;
        names.push(name);
        proof {
            assert(name@ =~= marked_names(majors@, mark@)[i as int]);
            assert(text::texts(names@) =~= text::texts(before).push(name@));
            assert(marked_names(majors@, mark@).take(i + 1) =~= marked_names(
                majors@,
                mark@,
            ).take(i as int).push(name@));
        }
        i += 1;
    }
    assert(marked_names(majors@, mark@).take(i as int) =~= marked_names(majors@, mark@));
    text::join(&names, ", ")
}

impl FeatureError {
    /// What the error says.
    pub fn message(&self) -> (r: String)
        ensures
            r@ == error_text(*self),
    {
        match self {
            FeatureError::Missing { supported } => {
                let mut r =
                    "Did not find `pg$VERSION` feature. `pgrx-pg-sys` requires one of ".to_owned();
                let names = list_names(supported, "`");
                r.append(names.as_str());
                r.append(" to be set");
                r
            },
            FeatureError::Multiple { found } => {
                let mut r =
                    "Multiple `pg$VERSION` features found.\n`--no-default-features` may be required.\nFound: ".to_owned();
                let names = list_names(found, "");
                r.append(names.as_str());
                r
            },
        }
    }
}

/// The name of a major version among the features and in the configuration.
pub open spec fn config_text(major: nat) -> Seq<char> {
    "pg"@ + text::decimal_text(major)
}

/// The environment variable that is set where the feature of a major version is on.
pub open spec fn feature_text(major: nat) -> Seq<char> {
    "CARGO_FEATURE_PG"@ + text::decimal_text(major)
}

/// What is wrong where the version from the environment is not the one of the feature.
pub open spec fn mismatch_text(found: nat, from_env: nat) -> Seq<char> {
    "Feature flag `pg"@ + text::decimal_text(found)
        + "` does not match version from the environment-described PgConfig (`"@
        + text::decimal_text(from_env) + "`)"@
}

/// The version from the environment is that of the feature.
pub open spec fn versions_agree(found: u16, from_env: u16) -> bool {
    found == from_env
}

/// What is wrong with a `pg_config` from the environment, of major version `from_env`, for the
/// feature of `found`; `None` where they agree.
pub fn version_mismatch(found: u16, from_env: u16) -> (r: Option<String>)
    ensures
        match r {
            Some(message) => found != from_env && message@ == mismatch_text(
                found as nat,
                from_env as nat,
            ),
            None => found == from_env,
        },
        r is None <==> versions_agree(found, from_env),
{
    if found == from_env {
        return None;
    }
    let mut message = "Feature flag `pg".to_owned();
    let number = text::decimal(found as u64);
    message.append(number.as_str());
    message.append("` does not match version from the environment-described PgConfig (`");
    let other = text::decimal(from_env as u64);
    message.append(other.as_str());
    message.append("`)");
    Some(message)
}

/// Where exactly one of the features is on, its version is chosen.
pub proof fn chosen_version_is_the_one_enabled(features: Seq<(u16, bool)>, k: int)
    requires
        0 <= k < features.len(),
        features[k].1,
        forall|i: int| 0 <= i < features.len() && i != k ==> !(#[trigger] features[i]).1,
    ensures
        enabled(features) == seq![features[k].0],
    decreases features.len(),
{
    if k == features.len() - 1 {
        none_enabled(features.drop_last());
        assert(enabled(features) =~= seq![features[k].0]);
    } else {
        assert(!features[features.len() - 1].1);
        chosen_version_is_the_one_enabled(features.drop_last(), k);
    }
}

/// Where none of the features is on, none is found.
pub proof fn none_enabled(features: Seq<(u16, bool)>)
    requires
        forall|i: int| 0 <= i < features.len() ==> !(#[trigger] features[i]).1,
    ensures
        enabled(features).len() == 0,
    decreases features.len(),
{
    if features.len() > 0 {
        none_enabled(features.drop_last());
    }
}

/// Where two of the features are on, more than one is found.
pub proof fn several_enabled(features: Seq<(u16, bool)>, j: int, k: int)
    requires
        0 <= j < k < features.len(),
        features[j].1,
        features[k].1,
    ensures
        enabled(features).len() > 1,
    decreases features.len(),
{
    if k == features.len() - 1 {
        one_enabled(features.drop_last(), j);
    } else {
        several_enabled(features.drop_last(), j, k);
    }
}

proof fn one_enabled(features: Seq<(u16, bool)>, j: int)
    requires
        0 <= j < features.len(),
        features[j].1,
    ensures
        enabled(features).len() > 0,
    decreases features.len(),
{
    if j < features.len() - 1 {
        one_enabled(features.drop_last(), j);
    }
}

/// Each version that was yanked is a release of a series that is supported.
pub proof fn yanked_versions_are_of_supported_series(version: PgVersion)
    requires
        is_yanked_version(version),
    ensures
        header_name(version.major) is Some,
        version.minor is Release,
{
}

/// Of each series from 13 to 17 exactly one release is refused; of other series none is, and
/// neither is a version that is no numbered release.
pub proof fn one_release_of_each_series_is_refused(major: u16, minor: u16)
    ensures
        is_yanked_version(PgVersion { major, minor: PgMinorVersion::Release(minor) }) <==> {
            &&& 13 <= major <= 17
            &&& major == 13 ==> minor == 17
            &&& major == 14 ==> minor == 14
            &&& major == 15 ==> minor == 9
            &&& major == 16 ==> minor == 5
            &&& major == 17 ==> minor == 1
        },
        !is_yanked_version(PgVersion { major, minor: PgMinorVersion::Latest }),
        !is_yanked_version(PgVersion { major, minor: PgMinorVersion::Beta(minor) }),
        !is_yanked_version(PgVersion { major, minor: PgMinorVersion::Rc(minor) }),
{
}

/// A refusal names the version, and twice its series.
pub proof fn refusals_name_the_version(major: nat, minor: nat)
    ensures
        exists|series: Seq<char>, release: Seq<char>|
            {
                &&& yanked_text(major, minor) == #[trigger] ("Postgres v"@ + series + "."@ + release
                    + " is incompatible with other versions in this major series and is not supported by pgrx.  Please upgrade to the latest version in the v"@
                    + series + " series."@)
                &&& text::decimal_value(series) == major
                &&& text::decimal_value(release) == minor
            },
{
    text::decimal_digits_give_the_number(major);
    text::decimal_digits_give_the_number(minor);
    let series = text::decimal_text(major);
    let release = text::decimal_text(minor);
    assert(yanked_text(major, minor) == "Postgres v"@ + series + "."@ + release
        + " is incompatible with other versions in this major series and is not supported by pgrx.  Please upgrade to the latest version in the v"@
        + series + " series."@);
}

/// The series from 13 to 17 have a header, named after the number, and no others have one.
pub proof fn supported_series_have_headers(major: u16)
    ensures
        header_name(major) is Some <==> major == 13 || major == 14 || major == 15 || major == 16
            || major == 17,
        header_name(major) is Some ==> exists|digits: Seq<char>|
            {
                &&& header_name(major)->0 == #[trigger] ("pg"@ + digits + ".h"@)
                &&& text::decimal_value(digits) == major
                &&& digits.len() == 2
            },
{
    if header_name(major) is Some {
        let digits = text::decimal_text(major as nat);
        text::decimal_digits_give_the_number(major as nat);
        text::decimal_digits_give_the_number((major / 10) as nat);
        assert(header_name(major)->0 == "pg"@ + digits + ".h"@);
    }
}

/// The names of a major version are made of its number.
pub proof fn names_hold_the_number(major: nat)
    ensures
        exists|digits: Seq<char>|
            {
                &&& config_text(major) == "pg"@ + digits
                &&& feature_text(major) == #[trigger] ("CARGO_FEATURE_PG"@ + digits)
                &&& text::decimal_value(digits) == major
                &&& digits.len() > 1 ==> digits[0] != '0'
            },
{
    text::decimal_digits_give_the_number(major);
    assert(feature_text(major) == "CARGO_FEATURE_PG"@ + text::decimal_text(major));
}

/// Of a list with one entry its version is found where its feature is on, and nothing else; of one
/// list after another what is found of each is found, in this order.
pub proof fn features_are_found_one_by_one(
    a: Seq<(u16, bool)>,
    b: Seq<(u16, bool)>,
    major: u16,
)
    ensures
        enabled(seq![(major, true)]) == seq![major],
        enabled(seq![(major, false)]) == Seq::<u16>::empty(),
        enabled(Seq::empty()) == Seq::<u16>::empty(),
        enabled(a + b) == enabled(a) + enabled(b),
        majors(seq![(major, true)]) == seq![major],
        majors(seq![(major, false)]) == seq![major],
        majors(a + b) == majors(a) + majors(b),
    decreases b.len(),
{
    reveal_with_fuel(enabled, 2);
    assert(seq![(major, true)].drop_last() =~= Seq::empty());
    assert(seq![(major, false)].drop_last() =~= Seq::empty());
    assert(enabled(seq![(major, true)]) =~= seq![major]);
    assert(majors(seq![(major, true)]) =~= seq![major]);
    assert(majors(seq![(major, false)]) =~= seq![major]);
    assert(majors(a + b) =~= majors(a) + majors(b));
    if b.len() == 0 {
        assert(a + b =~= a);
        assert(enabled(a) + enabled(b) =~= enabled(a));
    } else {
        features_are_found_one_by_one(a, b.drop_last(), major);
        assert((a + b).drop_last() =~= a + b.drop_last());
        assert(enabled(a + b) =~= enabled(a) + enabled(b));
    }
}

/// An error lists versions by their names: where no feature is on, those that have one, in
/// backquotes; where several are on, those.
pub proof fn errors_list_the_versions(error: FeatureError)
    ensures
        error matches FeatureError::Missing { supported } ==> exists|list: Seq<Seq<char>>|
            {
                &&& error_text(error)
                    == "Did not find `pg$VERSION` feature. `pgrx-pg-sys` requires one of "@
                    + #[trigger] text::joined(list, ", "@) + " to be set"@
                &&& list.len() == supported@.len()
                &&& forall|i: int|
                    0 <= i < list.len() ==> #[trigger] list[i] == "`"@ + "pg"@
                        + text::decimal_text(supported@[i] as nat) + "`"@
            },
        error matches FeatureError::Multiple { found } ==> exists|list: Seq<Seq<char>>|
            {
                &&& error_text(error)
                    == "Multiple `pg$VERSION` features found.\n`--no-default-features` may be required.\nFound: "@
                    + #[trigger] text::joined(list, ", "@)
                &&& list.len() == found@.len()
                &&& forall|i: int|
                    0 <= i < list.len() ==> #[trigger] list[i] == "pg"@ + text::decimal_text(
                        found@[i] as nat,
                    )
            },
{
    reveal_strlit("");
    match error {
        FeatureError::Missing { supported } => {
            let list = marked_names(supported@, "`"@);
            assert(error_text(error)
                == "Did not find `pg$VERSION` feature. `pgrx-pg-sys` requires one of "@
                + text::joined(list, ", "@) + " to be set"@);
        },
        FeatureError::Multiple { found } => {
            let list = marked_names(found@, ""@);
            assert forall|i: int| 0 <= i < list.len() implies #[trigger] list[i] == "pg"@
                + text::decimal_text(found@[i] as nat) by {
                assert(list[i] =~= "pg"@ + text::decimal_text(found@[i] as nat));
            }
            assert(error_text(error)
                == "Multiple `pg$VERSION` features found.\n`--no-default-features` may be required.\nFound: "@
                + text::joined(list, ", "@));
        },
    }
}

/// A mismatch names the version of the feature first and that of the environment second.
pub proof fn mismatches_name_both_versions(found: nat, from_env: nat)
    ensures
        exists|first: Seq<char>, second: Seq<char>|
            {
                &&& mismatch_text(found, from_env) == #[trigger] ("Feature flag `pg"@ + first
                    + "` does not match version from the environment-described PgConfig (`"@ + second
                    + "`)"@)
                &&& text::decimal_value(first) == found
                &&& text::decimal_value(second) == from_env
            },
{
    text::decimal_digits_give_the_number(found);
    text::decimal_digits_give_the_number(from_env);
    let first = text::decimal_text(found);
    let second = text::decimal_text(from_env);
    assert(mismatch_text(found, from_env) == "Feature flag `pg"@ + first
        + "` does not match version from the environment-described PgConfig (`"@ + second + "`)"@);
}

/// How many features are on tells which: one, none, or two of them at least.
pub proof fn found_features_are_on(features: Seq<(u16, bool)>)
    ensures
        enabled(features).len() == 0 ==> forall|i: int|
            0 <= i < features.len() ==> !(#[trigger] features[i]).1,
        enabled(features).len() == 1 ==> exists|k: int|
            {
                &&& 0 <= k < features.len()
                &&& #[trigger] features[k] == (enabled(features)[0], true)
                &&& forall|i: int| 0 <= i < features.len() && i != k ==> !(#[trigger] features[i]).1
            },
        enabled(features).len() > 1 ==> exists|j: int, k: int|
            0 <= j < k < features.len() && (#[trigger] features[j]).1 && (#[trigger] features[k]).1,
{
    if enabled(features).len() == 0 {
        assert forall|i: int| 0 <= i < features.len() implies !(#[trigger] features[i]).1 by {
            if features[i].1 {
                one_enabled(features, i);
            }
        }
    } else {
        if forall|i: int| 0 <= i < features.len() ==> !(#[trigger] features[i]).1 {
            none_enabled(features);
        }
        let k = choose|k: int| 0 <= k < features.len() && (#[trigger] features[k]).1;
        if forall|i: int| 0 <= i < features.len() && i != k ==> !(#[trigger] features[i]).1 {
            chosen_version_is_the_one_enabled(features, k);
            assert(features[k] == (enabled(features)[0], true));
        } else {
            let j = choose|j: int|
                0 <= j < features.len() && j != k && (#[trigger] features[j]).1;
            if j < k {
                several_enabled(features, j, k);
                assert(features[j].1 && features[k].1);
            } else {
                several_enabled(features, k, j);
                assert(features[k].1 && features[j].1);
            }
        }
    }
}

/// Versions agree only where neither is greater than the other.
pub proof fn agreement_is_equality(found: u16, from_env: u16)
    ensures
        versions_agree(found, from_env) <==> !(found < from_env) && !(found > from_env),
{
}

} // verus!
