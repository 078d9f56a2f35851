//! What a target triple says about the operating system and the environment.
use crate::text;
use vstd::prelude::*;

verus! {

/// The operating system that a target triple names, as far as it matters.
pub open spec fn os_of(target: Seq<char>) -> Seq<char> {
    if text::occurs_in(target, "-macos"@) {
        "macos"@
    } else {
        ""@
    }
}

/// The environment that a target triple names, as far as it matters.
pub open spec fn env_of(target: Seq<char>) -> Seq<char> {
    if text::ends_in(target, "-msvc"@) {
        "msvc"@
    } else {
        ""@
    }
}

/// The operating system that `target` names, as far as the generation of bindings tells them
/// apart.
pub fn guess_os(target: &str) -> (r: &'static str)
    ensures
        r@ == if text::occurs_in(target@, "-macos"@) {
            "macos"@
        } else {
            ""@
        },
        r@ == os_of(target@),
{
    if text::contains(target, "-macos") {
        "macos"
    } else {
        ""
    }
}

/// The environment that `target` names, as far as the generation of bindings tells them apart.
pub fn guess_env(target: &str) -> (r: &'static str)
    ensures
        r@ == if text::ends_in(target@, "-msvc"@) {
            "msvc"@
        } else {
            ""@
        },
        r@ == env_of(target@),
{
    if text::ends_with(target, "-msvc") {
        "msvc"
    } else {
        ""
    }
}

/// Whatever stands before and after `-macos` in a triple, the system is macOS; where it does not
/// stand in it, no system is named.
pub proof fn macos_is_told_by_its_mark(before: Seq<char>, after: Seq<char>, other: Seq<char>)
    ensures
        os_of(before + "-macos"@ + after) == "macos"@,
        (forall|a: Seq<char>, b: Seq<char>| other != #[trigger] (a + "-macos"@ + b)) ==> os_of(other)
            == Seq::<char>::empty(),
{
    text::middle_occurs(before, "-macos"@, after);
    text::occurrence_is_a_middle(other, "-macos"@);
    reveal_strlit("");
    assert(""@ =~= Seq::<char>::empty());
}

/// Whatever stands before `-msvc` at the end of a triple, the environment is that of Visual C++;
/// where a triple does not end so, no environment is named.
pub proof fn msvc_is_told_by_the_end(before: Seq<char>, other: Seq<char>)
    ensures
        env_of(before + "-msvc"@) == "msvc"@,
        (forall|a: Seq<char>| other != #[trigger] (a + "-msvc"@)) ==> env_of(other)
            == Seq::<char>::empty(),
{
    text::tail_ends(before, "-msvc"@);
    text::ending_is_a_tail(other, "-msvc"@);
    reveal_strlit("");
    assert(""@ =~= Seq::<char>::empty());
}

} // verus!
