//! What is answered while C headers are read: which macros are skipped, and which traits the
//! types that are written by hand implement.
use crate::text;
use vstd::prelude::*;

verus! {

/// What is done with a macro.
#[derive(Clone, Copy, Debug, PartialEq, Eq, Structural)]
pub enum MacroParsing {
    Ignore,
    Default,
}

/// A trait that may be derived for a type.
#[derive(Clone, Copy, Debug, PartialEq, Eq, Structural)]
pub enum DeriveTrait {
    Copy,
    Debug,
    Default,
    Hash,
    PartialEqOrPartialOrd,
}

/// Whether a type implements a trait.
#[derive(Clone, Copy, Debug, PartialEq, Eq, Structural)]
pub enum ImplementsTrait {
    Yes,
    No,
}

/// The macros whose definitions clash, or whose values are those of well-known constants.
pub open spec fn ignored_macros() -> Seq<Seq<char>> {
    seq![
        "FP_INFINITE"@,
        "FP_NAN"@,
        "FP_NORMAL"@,
        "FP_SUBNORMAL"@,
        "FP_ZERO"@,
        "IPPORT_RESERVED"@,
        "M_E"@,
        "M_LOG2E"@,
        "M_LOG10E"@,
        "M_LN2"@,
        "M_LN10"@,
        "M_PI"@,
        "M_PI_2"@,
        "M_PI_4"@,
        "M_1_PI"@,
        "M_2_PI"@,
        "M_SQRT2"@,
        "M_SQRT1_2"@,
        "M_2_SQRTPI"@,
    ]
}

/// The types that are written by hand.
pub open spec fn blocklisted_types() -> Seq<Seq<char>> {
    seq!["Datum"@, "NullableDatum"@, "Oid"@, "TransactionId"@]
}

/// The texts of a list of literals.
pub open spec fn literals(list: Seq<&'static str>) -> Seq<Seq<char>> {
    Seq::new(list.len(), |i: int| list[i]@)
}

/// What is done with a macro of that name.
pub open spec fn macro_parsing(name: Seq<char>) -> MacroParsing {
    if ignored_macros().contains(name) {
        MacroParsing::Ignore
    } else {
        MacroParsing::Default
    }
}

/// Whether a type of that name, where it is written by hand, implements a trait.
pub open spec fn trait_answer(name: Seq<char>, derive_trait: DeriveTrait) -> Option<
    ImplementsTrait,
> {
    if !blocklisted_types().contains(name) {
        None
    } else if derive_trait is Copy || derive_trait is Debug {
        Some(ImplementsTrait::Yes)
    } else {
        Some(ImplementsTrait::No)
    }
}

/// Whether `name` is one of the texts of `list`.
fn is_listed(list: &Vec<&'static str>, name: &str) -> (r: bool)
    ensures
        r == literals(list@).contains(name@),
{
    let mut i: usize = 0;
    while i < list.len()
        invariant
            i <= list@.len(),
            forall|j: int| 0 <= j < i ==> list@[j]@ != name@,
        decreases list@.len() - i,
    {
        if text::same_text(list[i], name) {
            assert(literals(list@)[i as int] == name@);
            return true;
        }
        i += 1;
    }
    false
}

/// What is done with the macro `name`.
pub fn will_parse_macro(name: &str) -> (r: MacroParsing)
    ensures
        r == if ignored_macros().contains(name@) {
            MacroParsing::Ignore
        } else {
            MacroParsing::Default
        },
        r == macro_parsing(name@),
{
    let ignore_macros: Vec<&'static str> = vec![
        "FP_INFINITE",
        "FP_NAN",
        "FP_NORMAL",
        "FP_SUBNORMAL",
        "FP_ZERO",
        "IPPORT_RESERVED",
        "M_E",
        "M_LOG2E",
        "M_LOG10E",
        "M_LN2",
        "M_LN10",
        "M_PI",
        "M_PI_2",
        "M_PI_4",
        "M_1_PI",
        "M_2_PI",
        "M_SQRT2",
        "M_SQRT1_2",
        "M_2_SQRTPI",
    ];
    assert(literals(ignore_macros@) =~= ignored_macros());
    if is_listed(&ignore_macros, name) {
        MacroParsing::Ignore
    } else {
        MacroParsing::Default
    }
}

/// Whether the type `name`, where it is one of those written by hand, implements the trait:
/// they are copied and printed, and nothing else.
pub fn blocklisted_type_implements_trait(name: &str, derive_trait: DeriveTrait) -> (r: Option<
    ImplementsTrait,
>)
    ensures
        r == if !blocklisted_types().contains(name@) {
            None
        } else if derive_trait is Copy || derive_trait is Debug {
            Some(ImplementsTrait::Yes)
        } else {
            Some(ImplementsTrait::No)
        },
        r == trait_answer(name@, derive_trait),
{
    let types: Vec<&'static str> = vec!["Datum", "NullableDatum", "Oid", "TransactionId"];
    assert(literals(types@) =~= blocklisted_types());
    if !is_listed(&types, name) {
        return None;
    }
    match derive_trait {
        DeriveTrait::Copy => Some(ImplementsTrait::Yes),
        DeriveTrait::Debug => Some(ImplementsTrait::Yes),
        _ => Some(ImplementsTrait::No),
    }
}

/// The macros that are skipped are these, and no others.
pub proof fn skipped_macros(name: Seq<char>)
    ensures
        macro_parsing(name) is Ignore <==> {
            ||| name == "FP_INFINITE"@
            ||| name == "FP_NAN"@
            ||| name == "FP_NORMAL"@
            ||| name == "FP_SUBNORMAL"@
            ||| name == "FP_ZERO"@
            ||| name == "IPPORT_RESERVED"@
            ||| name == "M_E"@
            ||| name == "M_LOG2E"@
            ||| name == "M_LOG10E"@
            ||| name == "M_LN2"@
            ||| name == "M_LN10"@
            ||| name == "M_PI"@
            ||| name == "M_PI_2"@
            ||| name == "M_PI_4"@
            ||| name == "M_1_PI"@
            ||| name == "M_2_PI"@
            ||| name == "M_SQRT2"@
            ||| name == "M_SQRT1_2"@
            ||| name == "M_2_SQRTPI"@
        },
{
    assert(ignored_macros()[0] == "FP_INFINITE"@);
    assert(ignored_macros()[1] == "FP_NAN"@);
    assert(ignored_macros()[2] == "FP_NORMAL"@);
    assert(ignored_macros()[3] == "FP_SUBNORMAL"@);
    assert(ignored_macros()[4] == "FP_ZERO"@);
    assert(ignored_macros()[5] == "IPPORT_RESERVED"@);
    assert(ignored_macros()[6] == "M_E"@);
    assert(ignored_macros()[7] == "M_LOG2E"@);
    assert(ignored_macros()[8] == "M_LOG10E"@);
    assert(ignored_macros()[9] == "M_LN2"@);
    assert(ignored_macros()[10] == "M_LN10"@);
    assert(ignored_macros()[11] == "M_PI"@);
    assert(ignored_macros()[12] == "M_PI_2"@);
    assert(ignored_macros()[13] == "M_PI_4"@);
    assert(ignored_macros()[14] == "M_1_PI"@);
    assert(ignored_macros()[15] == "M_2_PI"@);
    assert(ignored_macros()[16] == "M_SQRT2"@);
    assert(ignored_macros()[17] == "M_SQRT1_2"@);
    assert(ignored_macros()[18] == "M_2_SQRTPI"@);
}

/// Of the types that are written by hand, and of no others, something is answered: that they are
/// copied and printed, and that they have no default, are not hashed and not compared.
pub proof fn traits_of_hand_written_types(name: Seq<char>, derive_trait: DeriveTrait)
    ensures
        trait_answer(name, derive_trait) is Some <==> name == "Datum"@ || name
            == "NullableDatum"@ || name == "Oid"@ || name == "TransactionId"@,
        trait_answer(name, derive_trait) is Some ==> (trait_answer(name, derive_trait)->0 is No
            <==> derive_trait is Default || derive_trait is Hash
            || derive_trait is PartialEqOrPartialOrd),
{
    assert(blocklisted_types()[0] == "Datum"@);
    assert(blocklisted_types()[1] == "NullableDatum"@);
    assert(blocklisted_types()[2] == "Oid"@);
    assert(blocklisted_types()[3] == "TransactionId"@);
}

/// Literals keep their characters, each in its place.
pub proof fn literals_keep_their_places(list: Seq<&'static str>)
    ensures
        literals(list).len() == list.len(),
        forall|i: int| 0 <= i < list.len() ==> #[trigger] literals(list)[i] == list[i]@,
{
}

} // verus!
