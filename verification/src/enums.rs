//! The enumerations met while C headers are read, and the deprecated constants that stand for
//! their variants.
use crate::ordered;
use crate::ordered::OrderedMap;
use crate::text;
use vstd::prelude::*;
use vstd::string::*;

verus! {

/// The value of a variant of a C enumeration.
#[derive(Clone, Copy, Debug, PartialEq, Eq, Structural)]
pub enum EnumVariantValue {
    Boolean(bool),
    Signed(i64),
    Unsigned(u64),
}

/// Variants, each with its name and its value.
pub type Variants = Seq<(Seq<char>, EnumVariantValue)>;

/// The enumerations that were met, each with its variants in the order in which they came.
pub struct EnumNames {
    map: OrderedMap<Vec<(String, EnumVariantValue)>>,
}

/// The names and the values in a list of variants.
pub open spec fn variants_of(list: Seq<(String, EnumVariantValue)>) -> Variants {
    Seq::new(list.len(), |i: int| (list[i].0@, list[i].1))
}

impl View for EnumNames {
    type V = Map<Seq<char>, Variants>;

    closed spec fn view(&self) -> Map<Seq<char>, Variants> {
        self.map@.map_values(|list: Vec<(String, EnumVariantValue)>| variants_of(list@))
    }
}

/// The name of an enumeration without the keyword before it and the white space around it.
pub open spec fn bare_name(name: Seq<char>) -> Seq<char> {
    text::trim_text(text::without_prefix_text(name, "enum"@))
}

/// An enumeration that gets no constants: it is rewritten by itself, or has no name in C.
pub open spec fn is_left_out(name: Seq<char>) -> bool {
    ||| name == "NodeTag"@
    ||| text::occurs_in(name, "unnamed at"@)
    ||| text::occurs_in(name, "anonymous at"@)
}

/// The name under which a variant is recorded, where it is.
pub open spec fn recorded_under(enum_name: Option<Seq<char>>, variant: Seq<char>) -> Option<
    Seq<char>,
> {
    match enum_name {
        Some(name) => if is_left_out(bare_name(name)) || text::occurs_in(variant, "OID"@) {
            None
        } else {
            Some(bare_name(name))
        },
        None => None,
    }
}

/// The variants recorded under `name`.
pub open spec fn variants_under(map: Map<Seq<char>, Variants>, name: Seq<char>) -> Variants {
    if map.dom().contains(name) {
        map[name]
    } else {
        Seq::empty()
    }
}

/// The record after a variant was met.
pub open spec fn with_variant(
    map: Map<Seq<char>, Variants>,
    enum_name: Option<Seq<char>>,
    variant: Seq<char>,
    value: EnumVariantValue,
) -> Map<Seq<char>, Variants> {
    match recorded_under(enum_name, variant) {
        Some(name) => map.insert(name, variants_under(map, name).push((variant, value))),
        None => map,
    }
}

/// The type of the constant for a value, and the value as it is written.
pub open spec fn typed_value(value: EnumVariantValue) -> (Seq<char>, Seq<char>) {
    match value {
        EnumVariantValue::Boolean(b) => (
            "bool"@,
            if b {
                "true"@
            } else {
                "false"@
            },
        ),
        EnumVariantValue::Signed(v) => (
            if i32::MIN <= v <= i32::MAX {
                "i32"@
            } else {
                "i64"@
            },
            text::signed_decimal_text(v as int),
        ),
        EnumVariantValue::Unsigned(v) => (
            if v <= u32::MAX {
                "u32"@
            } else {
                "u64"@
            },
            text::decimal_text(v as nat),
        ),
    }
}

/// The deprecated constant for one variant of the enumeration `module`.
pub open spec fn const_text(module: Seq<char>, variant: (Seq<char>, EnumVariantValue)) -> Seq<
    char,
> {
    "\n#[deprecated(since = \"0.12.0\", note = \"you want pg_sys::"@ + module + "::"@ + variant.0
        + "\")]\npub const "@ + module + "_"@ + variant.0 + ": "@ + typed_value(variant.1).0
        + " = "@ + typed_value(variant.1).1 + ";"@
}

/// The deprecated constants for the variants of the enumeration `module`.
pub open spec fn module_text(module: Seq<char>, variants: Variants) -> Seq<char> {
    text::concat(Seq::new(variants.len(), |i: int| const_text(module, variants[i])))
}

/// The deprecated constants for all enumerations, in the order of their names.
pub open spec fn consts_text(map: Map<Seq<char>, Variants>) -> Seq<char> {
    let names = ordered::in_order(map.dom());
    text::concat(Seq::new(names.len(), |i: int| module_text(names[i], map[names[i]])))
}

/// The deprecated constant for one variant.
fn const_for(module: &str, name: &str, value: EnumVariantValue) -> (r: String)
    ensures
        r@ == const_text(module@, (name@, value)),
{
    let (ty, number): (&str, String) = match value {
        EnumVariantValue::Boolean(b) => if b {
            ("bool", "true".to_owned())
        } else {
            ("bool", "false".to_owned())
        },
        EnumVariantValue::Signed(v) => if -0x8000_0000 <= v && v <= 0x7fff_ffff {
            ("i32", text::signed_decimal(v))
        } else {
            ("i64", text::signed_decimal(v))
        },
        EnumVariantValue::Unsigned(v) => if v <= 0xffff_ffff {
            ("u32", text::decimal(v))
        } else {
            ("u64", text::decimal(v))
        },
    };
    let mut out = "\n#[deprecated(since = \"0.12.0\", note = \"you want pg_sys::".to_owned();
    out.append(module);
    out.append("::");
    out.append(name);
    out.append("\")]\npub const ");
    out.append(module);
    out.append("_");
    out.append(name);
    out.append(": ");
    out.append(ty);
    out.append(" = ");
    out.append(number.as_str());
    out.append(";");
    out
}

/// The deprecated constants for the variants of one enumeration.
fn consts_for(module: &str, variants: &Vec<(String, EnumVariantValue)>) -> (r: String)
    ensures
        r@ == module_text(module@, variants_of(variants@)),
{
    let ghost list = variants_of(variants@);
    let ghost pieces = Seq::new(list.len(), |i: int| const_text(module@, list[i]));
    let mut out = String::new();
    let mut i: usize = 0;
    while i < variants.len()
        invariant
            i <= variants@.len(),
            list == variants_of(variants@),
            pieces == Seq::new(list.len(), |i: int| const_text(module@, list[i])),
            out@ == text::concat(pieces.take(i as int)),
        decreases variants@.len() - i,
    {
        let piece = const_for(module, variants[i].0.as_str(), variants[i].1);
        out.append(piece.as_str());
        assert(pieces.take(i + 1).drop_last() =~= pieces.take(i as int));
        assert(pieces.take(i + 1).last() == pieces[i as int]);
        i += 1;
    }
    assert(pieces.take(i as int) =~= pieces);
    out
}

impl EnumNames {
    /// The names are in order.
    pub closed spec fn wf(&self) -> bool {
        self.map.wf()
    }

    /// The record before any variant was met.
    pub fn new() -> (r: Self)
        ensures
            r.wf(),
            r@ == Map::<Seq<char>, Variants>::empty(),
    {
        let r = EnumNames { map: OrderedMap::new() };
        assert(r@ =~= Map::<Seq<char>, Variants>::empty());
        r
    }

    /// Records a variant that was met.
    pub fn enum_variant_behavior(
        &mut self,
        enum_name: Option<&str>,
        variant_name: &str,
        variant_value: EnumVariantValue,
    )
        requires
            old(self).wf(),
        ensures
            final(self).wf(),
            final(self)@ == with_variant(
                old(self)@,
                match enum_name {
                    Some(name) => Some(name@),
                    None => None,
                },
                variant_name@,
                variant_value,
            ),
    {
        if let Some(name) = enum_name {
            let stripped = text::without_prefix(name, "enum");
            let key = text::trim(stripped.as_str());
            if !(text::same_text(key.as_str(), "NodeTag") || text::contains(
                key.as_str(),
                "unnamed at",
            ) || text::contains(key.as_str(), "anonymous at") || text::contains(
                variant_name,
                "OID",
            )) {
                let ghost before = self.map@;
                let ghost under = key@;
                self.map.push_to(key, (variant_name.to_owned(), variant_value));
                proof {
                    let expected = with_variant(
                        old(self)@,
                        Some(name@),
                        variant_name@,
                        variant_value,
                    );
                    assert(variants_of(self.map@[under]@) =~= variants_under(
                        old(self)@,
                        under,
                    ).push((variant_name@, variant_value)));
                    assert(self@ =~= expected);
                }
            }
        }
    }

    /// The deprecated constants for the variants of all enumerations.
    pub fn deprecated_consts(&self) -> (r: String)
        requires
            self.wf(),
        ensures
            r@ == consts_text(self@),
    {
        let ghost names = self.map.keys();
        let ghost map = self@;
        let ghost pieces = Seq::new(names.len(), |i: int| module_text(names[i], map[names[i]]));
        proof {
            self.map.keys_in_order();
            assert(map.dom() =~= self.map@.dom());
            ordered::list_is_in_order(names, map.dom());
        }
        let mut out = String::new();
        let mut i: usize = 0;
        while i < self.map.len()
            invariant
                i <= names.len(),
                self.map.wf(),
                names == self.map.keys(),
                map == self@,
                forall|k: int|
                    0 <= k < names.len() ==> self.map@.dom().contains(#[trigger] names[k]),
                pieces == Seq::new(names.len(), |i: int| module_text(names[i], map[names[i]])),
                out@ == text::concat(pieces.take(i as int)),
            decreases names.len() - i,
        {
            let piece = consts_for(self.map.key(i), self.map.value(i));
            out.append(piece.as_str());
            assert(pieces.take(i + 1).drop_last() =~= pieces.take(i as int));
            assert(pieces.take(i + 1).last() == pieces[i as int]);
            i += 1;
        }
        assert(pieces.take(i as int) =~= pieces);
        out
    }
}

/// No variant stands under a name that is left out, and none has a name that could be taken
/// for that of an object identifier.
pub open spec fn admissible(map: Map<Seq<char>, Variants>) -> bool {
    forall|name: Seq<char>| #[trigger]
        map.dom().contains(name) ==> !is_left_out(name) && forall|i: int|
            0 <= i < map[name].len() ==> !text::occurs_in((#[trigger] map[name][i]).0, "OID"@)
}

/// A variant that is met: the name of its enumeration, where it has one, its own name, and its
/// value.
pub type Meeting = (Option<Seq<char>>, Seq<char>, EnumVariantValue);

/// The record after variants were met, one after the other.
pub open spec fn recorded(meetings: Seq<Meeting>) -> Map<Seq<char>, Variants>
    decreases meetings.len(),
{
    if meetings.len() == 0 {
        Map::empty()
    } else {
        let last = meetings.last();
        with_variant(recorded(meetings.drop_last()), last.0, last.1, last.2)
    }
}

/// Those of the variants that are recorded under `name`, in the order in which they were met.
pub open spec fn met_under(meetings: Seq<Meeting>, name: Seq<char>) -> Variants
    decreases meetings.len(),
{
    if meetings.len() == 0 {
        Seq::empty()
    } else {
        let last = meetings.last();
        if recorded_under(last.0, last.1) == Some(name) {
            met_under(meetings.drop_last(), name).push((last.1, last.2))
        } else {
            met_under(meetings.drop_last(), name)
        }
    }
}

/// Whatever variants are met, none is recorded under a name that is left out, and none that
/// could be taken for an object identifier.
pub proof fn records_are_admissible(meetings: Seq<Meeting>)
    ensures
        admissible(recorded(meetings)),
    decreases meetings.len(),
{
    if meetings.len() > 0 {
        records_are_admissible(meetings.drop_last());
    }
}

/// Under each name stand the variants that were met for it, in the order in which they were
/// met.
pub proof fn records_follow_the_meetings(meetings: Seq<Meeting>, name: Seq<char>)
    ensures
        variants_under(recorded(meetings), name) == met_under(meetings, name),
    decreases meetings.len(),
{
    if meetings.len() > 0 {
        records_follow_the_meetings(meetings.drop_last(), name);
    }
}

/// There are finitely many enumerations on record, so the deprecated constants list each of them
/// once, in the order of their names.
pub proof fn every_enumeration_is_listed(meetings: Seq<Meeting>)
    ensures
        ordered::lists_in_order(
            ordered::in_order(recorded(meetings).dom()),
            recorded(meetings).dom(),
        ),
{
    records_are_finite(meetings);
    ordered::finite_names_have_an_order(recorded(meetings).dom());
}

proof fn records_are_finite(meetings: Seq<Meeting>)
    ensures
        recorded(meetings).dom().finite(),
    decreases meetings.len(),
{
    if meetings.len() > 0 {
        records_are_finite(meetings.drop_last());
    }
}

/// Meeting a variant takes nothing away: what was recorded stays, in its order.
pub proof fn records_are_kept(
    map: Map<Seq<char>, Variants>,
    enum_name: Option<Seq<char>>,
    variant: Seq<char>,
    value: EnumVariantValue,
    name: Seq<char>,
    i: int,
)
    requires
        map.dom().contains(name),
        0 <= i < map[name].len(),
    ensures
        with_variant(map, enum_name, variant, value).dom().contains(name),
        i < with_variant(map, enum_name, variant, value)[name].len(),
        with_variant(map, enum_name, variant, value)[name][i] == map[name][i],
{
}

/// The constant of a variant bears the name of its enumeration and its own, in the note and in its
/// name, and has the type and the value of the variant: `bool` with `true` or `false` for a
/// boolean and for nothing else, and for a number the smaller of two types that it fits into, with
/// its decimal digits.
pub proof fn constants_have_the_type_of_the_value(
    module: Seq<char>,
    variant: Seq<char>,
    value: EnumVariantValue,
)
    ensures
        exists|ty: Seq<char>, number: Seq<char>|
            {
                &&& const_text(module, (variant, value)) == #[trigger] (
                "\n#[deprecated(since = \"0.12.0\", note = \"you want pg_sys::"@ + module + "::"@
                    + variant + "\")]\npub const "@ + module + "_"@ + variant + ": "@ + ty + " = "@
                    + number + ";"@)
                &&& match value {
                    EnumVariantValue::Boolean(b) => {
                        &&& ty == seq!['b', 'o', 'o', 'l']
                        &&& b ==> number == seq!['t', 'r', 'u', 'e']
                        &&& !b ==> number == seq!['f', 'a', 'l', 's', 'e']
                    },
                    EnumVariantValue::Signed(v) => {
                        &&& -2147483648 <= v <= 2147483647 ==> ty == seq!['i', '3', '2']
                        &&& !(-2147483648 <= v <= 2147483647) ==> ty == seq!['i', '6', '4']
                        &&& v >= 0 ==> is_number(number, v as nat)
                        &&& v < 0 ==> number.len() > 0 && number[0] == '-' && is_number(
                            number.skip(1),
                            (0 - v) as nat,
                        )
                    },
                    EnumVariantValue::Unsigned(v) => {
                        &&& v <= 4294967295 ==> ty == seq!['u', '3', '2']
                        &&& v > 4294967295 ==> ty == seq!['u', '6', '4']
                        &&& is_number(number, v as nat)
                    },
                }
            },
{
    let (ty, number) = typed_value(value);
    reveal_strlit("bool");
    reveal_strlit("true");
    reveal_strlit("false");
    reveal_strlit("i32");
    reveal_strlit("i64");
    reveal_strlit("u32");
    reveal_strlit("u64");
    assert("bool"@ =~= seq!['b', 'o', 'o', 'l']);
    assert("true"@ =~= seq!['t', 'r', 'u', 'e']);
    assert("false"@ =~= seq!['f', 'a', 'l', 's', 'e']);
    assert("i32"@ =~= seq!['i', '3', '2']);
    assert("i64"@ =~= seq!['i', '6', '4']);
    assert("u32"@ =~= seq!['u', '3', '2']);
    assert("u64"@ =~= seq!['u', '6', '4']);
    match value {
        EnumVariantValue::Boolean(_) => {},
        EnumVariantValue::Signed(v) => {
            if v >= 0 {
                text::decimal_digits_give_the_number(v as nat);
            } else {
                text::decimal_digits_give_the_number((0 - v) as nat);
                assert(number.skip(1) =~= text::decimal_text((0 - v) as nat));
            }
        },
        EnumVariantValue::Unsigned(v) => {
            text::decimal_digits_give_the_number(v as nat);
        },
    }
    assert(const_text(module, (variant, value))
        == "\n#[deprecated(since = \"0.12.0\", note = \"you want pg_sys::"@ + module + "::"@ + variant
        + "\")]\npub const "@ + module + "_"@ + variant + ": "@ + ty + " = "@ + number + ";"@);
}

/// The text is the number in decimal digits, without zeros in front of it.
pub open spec fn is_number(t: Seq<char>, n: nat) -> bool {
    &&& t.len() > 0
    &&& forall|i: int| 0 <= i < t.len() ==> '0' <= #[trigger] t[i] <= '9'
    &&& t.len() > 1 ==> t[0] != '0'
    &&& text::decimal_value(t) == n
}

/// The keyword in front of a name and the white space around it do not count; a name without the
/// keyword loses the white space alone.
pub proof fn names_are_bare(before: Seq<char>, inner: Seq<char>, after: Seq<char>)
    requires
        forall|i: int| 0 <= i < before.len() ==> text::is_white_space(#[trigger] before[i]),
        forall|i: int| 0 <= i < after.len() ==> text::is_white_space(#[trigger] after[i]),
        inner.len() > 0 ==> !text::is_white_space(inner[0]) && !text::is_white_space(
            inner[inner.len() - 1],
        ),
    ensures
        bare_name("enum"@ + (before + inner + after)) == inner,
        (forall|rest: Seq<char>| before + inner + after != #[trigger] ("enum"@ + rest))
            ==> bare_name(before + inner + after) == inner,
{
    let s = before + inner + after;
    text::prefix_is_taken_off(s, "enum"@, s);
    text::white_space_around_is_trimmed(before, inner, after);
}

/// A variant is recorded under the bare name of its enumeration, unless that is `NodeTag` or holds
/// one of the two marks of an enumeration without a name, or `OID` stands in the variant's own
/// name, or the enumeration is not given.
pub proof fn variants_are_recorded_by_name(name: Seq<char>, variant: Seq<char>)
    ensures
        recorded_under(None, variant) is None,
        recorded_under(Some(name), variant) is None <==> {
            ||| bare_name(name) == "NodeTag"@
            ||| exists|a: Seq<char>, b: Seq<char>| bare_name(name) == #[trigger] (a
                + "unnamed at"@ + b)
            ||| exists|a: Seq<char>, b: Seq<char>| bare_name(name) == #[trigger] (a
                + "anonymous at"@ + b)
            ||| exists|a: Seq<char>, b: Seq<char>| variant == #[trigger] (a + "OID"@ + b)
        },
        recorded_under(Some(name), variant) is Some ==> recorded_under(Some(name), variant)->0
            == bare_name(name),
{
    text::occurrence_is_a_middle(bare_name(name), "unnamed at"@);
    text::occurrence_is_a_middle(bare_name(name), "anonymous at"@);
    text::occurrence_is_a_middle(variant, "OID"@);
}

/// Meeting a variant that is recorded puts it behind those recorded under its name before, and
/// leaves what stands under other names; one that is not recorded changes nothing.
pub proof fn a_variant_goes_to_the_end_of_its_name(
    map: Map<Seq<char>, Variants>,
    enum_name: Option<Seq<char>>,
    variant: Seq<char>,
    value: EnumVariantValue,
    other: Seq<char>,
)
    ensures
        match recorded_under(enum_name, variant) {
            None => with_variant(map, enum_name, variant, value) == map,
            Some(name) => {
                let after = with_variant(map, enum_name, variant, value);
                &&& after.dom().contains(name)
                &&& after[name].last() == (variant, value)
                &&& map.dom().contains(name) ==> after[name].drop_last() == map[name]
                &&& !map.dom().contains(name) ==> after[name].len() == 1
                &&& after[name].len() > 0
                &&& other != name ==> (after.dom().contains(other) <==> map.dom().contains(other))
                    && after[other] == map[other]
            },
        },
{
    if let Some(name) = recorded_under(enum_name, variant) {
        let after = with_variant(map, enum_name, variant, value);
        assert(after[name].drop_last() =~= variants_under(map, name));
    }
}

/// The constants: enumeration after enumeration in the order of their names, and within each
/// variant after variant in the order in which they were met.
pub proof fn constants_follow_names_and_meetings(
    map: Map<Seq<char>, Variants>,
    names: Seq<Seq<char>>,
)
    requires
        ordered::lists_in_order(names, map.dom()),
    ensures
        consts_text(map) == text::concat(
            Seq::new(
                names.len(),
                |i: int|
                    text::concat(
                        Seq::new(
                            map[names[i]].len(),
                            |j: int| const_text(names[i], map[names[i]][j]),
                        ),
                    ),
            ),
        ),
{
    ordered::list_is_in_order(names, map.dom());
    let pieces = Seq::new(
        names.len(),
        |i: int|
            text::concat(
                Seq::new(map[names[i]].len(), |j: int| const_text(names[i], map[names[i]][j])),
            ),
    );
    let modules = Seq::new(names.len(), |i: int| module_text(names[i], map[names[i]]));
    assert forall|i: int| 0 <= i < names.len() implies modules[i] == #[trigger] pieces[i] by {
        assert(Seq::new(map[names[i]].len(), |j: int| const_text(names[i], map[names[i]][j]))
            =~= Seq::new(map[names[i]].len(), |k: int| const_text(names[i], map[names[i]][k])));
    }
    assert(modules =~= pieces);
}

/// Each recorded variant has its constant in the text.
pub proof fn each_variant_has_its_constant(
    map: Map<Seq<char>, Variants>,
    names: Seq<Seq<char>>,
    name: Seq<char>,
    j: int,
)
    requires
        ordered::lists_in_order(names, map.dom()),
        map.dom().contains(name),
        0 <= j < map[name].len(),
    ensures
        exists|a: Seq<char>, b: Seq<char>|
            consts_text(map) == #[trigger] (a + const_text(name, map[name][j]) + b),
{
    ordered::list_is_in_order(names, map.dom());
    assert(names.contains(name));
    let i = names.index_of(name);
    let modules = Seq::new(names.len(), |i: int| module_text(names[i], map[names[i]]));
    let consts = Seq::new(map[name].len(), |i: int| const_text(name, map[name][i]));
    text::each_text_stands_in_the_whole(modules, i);
    text::each_text_stands_in_the_whole(consts, j);
    let a = text::concat(modules.take(i)) + text::concat(consts.take(j));
    let b = text::concat(consts.skip(j + 1)) + text::concat(modules.skip(i + 1));
    assert(consts_text(map) =~= a + const_text(name, map[name][j]) + b);
}

/// Variants keep their names and their values, each in its place.
pub proof fn variants_keep_their_places(list: Seq<(String, EnumVariantValue)>)
    ensures
        variants_of(list).len() == list.len(),
        forall|i: int|
            0 <= i < list.len() ==> (#[trigger] variants_of(list)[i]).0 == list[i].0@
                && variants_of(list)[i].1 == list[i].1,
{
}

} // verus!
