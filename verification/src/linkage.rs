//! How foreign items are linked, and the calling convention under which they unwind.
use crate::items;
use crate::items::{Item, Kind};
use crate::text;
use syn::parse::Parser;
use syn::visit_mut::VisitMut;
use vstd::prelude::*;

verus! {

/// An attribute, as far as its meaning for linking goes: a name that is given a value, with
/// the name where it is a single identifier and the value where it is a string, or any other.
pub enum Attr {
    NameValue { name: Option<String>, value: Option<String> },
    Other,
}

/// What an attribute holds: the name and the value where it is a name that is given a value,
/// each as far as it is known.
pub type AttributeView = Option<(Option<Seq<char>>, Option<Seq<char>>)>;

/// The characters of a text, where there is one.
pub open spec fn optional(t: Option<String>) -> Option<Seq<char>> {
    match t {
        Some(t) => Some(t@),
        None => None,
    }
}

impl View for Attr {
    type V = AttributeView;

    open spec fn view(&self) -> AttributeView {
        match self {
            Attr::NameValue { name, value } => Some((optional(*name), optional(*value))),
            Attr::Other => None,
        }
    }
}

/// What each attribute of a list holds.
pub open spec fn views(attrs: Seq<Attr>) -> Seq<AttributeView> {
    Seq::new(attrs.len(), |i: int| attrs[i]@)
}

/// What the attributes of each item hold.
pub open spec fn attributes(items: Seq<Vec<Attr>>) -> Seq<Seq<AttributeView>> {
    Seq::new(items.len(), |i: int| views(items[i]@))
}

/// The attribute gives the item a link name that ends with the suffix of the C shim.
pub open spec fn names_cshim(attr: AttributeView) -> bool {
    attr matches Some((Some(name), Some(value))) && name == "link_name"@ && text::ends_in(
        value,
        "__pgrx_cshim"@,
    )
}

/// One of the attributes gives the item a link name that ends with the suffix of the C shim.
pub open spec fn links_with_cshim(attrs: Seq<AttributeView>) -> bool {
    exists|i: int| 0 <= i < attrs.len() && names_cshim(#[trigger] attrs[i])
}

/// The attribute of an item that exists only where the C shim is built.
pub open spec fn cshim_guard() -> Seq<char> {
    "#[cfg(feature = \"cshim\")]"@
}

/// The attribute of an item that PostgreSQL itself exports.
pub open spec fn postgres_link() -> Seq<char> {
    "#[cfg_attr(target_os = \"windows\", link(name = \"postgres\"))]"@
}

/// The attribute that a foreign function with these attributes gets in front of them.
pub open spec fn linkage_text(attrs: Seq<AttributeView>) -> Seq<char> {
    if links_with_cshim(attrs) {
        cshim_guard()
    } else {
        postgres_link()
    }
}

/// The attribute that each foreign function gets in front of its own.
pub open spec fn linkages(functions: Seq<Seq<AttributeView>>) -> Seq<Seq<char>> {
    Seq::new(functions.len(), |i: int| linkage_text(functions[i]))
}

/// Whether one of the attributes gives a link name that ends with the suffix of the C shim.
pub fn link_with_cshim(attrs: &Vec<Attr>) -> (r: bool)
    ensures
        r == links_with_cshim(views(attrs@)),
{
    let mut i: usize = 0;
    while i < attrs.len()
        invariant
            i <= attrs@.len(),
            forall|j: int| 0 <= j < i ==> !names_cshim(#[trigger] views(attrs@)[j]),
        decreases attrs@.len() - i,
    {
        if let Attr::NameValue { name: Some(name), value: Some(value) } = &attrs[i] {
            if text::same_text(name.as_str(), "link_name") && text::ends_with(
                value.as_str(),
                "__pgrx_cshim",
            ) {
                assert(names_cshim(views(attrs@)[i as int]));
                return true;
            }
        }
        i += 1;
    }
    false
}

/// The attribute that a foreign function with these attributes gets in front of them.
pub fn function_linkage(attrs: &Vec<Attr>) -> (r: &'static str)
    ensures
        r@ == linkage_text(views(attrs@)),
{
    if link_with_cshim(attrs) {
        "#[cfg(feature = \"cshim\")]"
    } else {
        "#[cfg_attr(target_os = \"windows\", link(name = \"postgres\"))]"
    }
}

/// The attribute that a foreign variable gets in front of its own.
pub fn static_linkage() -> (r: &'static str)
    ensures
        r@ == postgres_link(),
{
    "#[cfg_attr(target_os = \"windows\", link(name = \"postgres\"))]"
}

/// The attribute that each foreign function gets in front of its own.
pub fn function_linkages(functions: &Vec<Vec<Attr>>) -> (r: Vec<String>)
    ensures
        text::texts(r@) == linkages(attributes(functions@)),
{
    let mut r: Vec<String> = Vec::new();
    let mut i: usize = 0;
    while i < functions.len()
        invariant
            i <= functions@.len(),
            text::texts(r@) == linkages(attributes(functions@)).take(i as int),
        decreases functions@.len() - i,
    {
        let ghost before = r@;
        r.push(function_linkage(&functions[i]).to_owned());
        proof {
            let all = linkages(attributes(functions@));
            assert(text::texts(r@) =~= text::texts(before).push(all[i as int]));
            assert(all.take(i + 1) =~= all.take(i as int).push(all[i as int]));
        }
        i += 1;
    }
    assert(linkages(attributes(functions@)).take(i as int) =~= linkages(attributes(functions@)));
    r
}

/// The calling convention that the one called `name` gives way to, if it does.
pub open spec fn replacement(name: Seq<char>) -> Option<Seq<char>> {
    if name == "C"@ {
        Some("C-unwind"@)
    } else {
        None
    }
}

/// The calling convention that the one called `name` is after the rewriting.
pub open spec fn unwinding_abi_text(name: Seq<char>) -> Seq<char> {
    match replacement(name) {
        Some(new_name) => new_name,
        None => name,
    }
}

/// What each calling convention gives way to, if it does.
pub open spec fn replacements(names: Seq<Seq<char>>) -> Seq<Option<Seq<char>>> {
    Seq::new(names.len(), |i: int| replacement(names[i]))
}

/// The characters of each text that there is.
pub open spec fn optionals(list: Seq<Option<String>>) -> Seq<Option<Seq<char>>> {
    Seq::new(list.len(), |i: int| optional(list[i]))
}

/// The calling convention that the one called `name` gives way to: that of C, with unwinding,
/// for that of C; each other stays.
pub fn unwinding_abi(name: &str) -> (r: Option<String>)
    ensures
        optional(r) == replacement(name@),
{
    if text::same_text(name, "C") {
        Some("C-unwind".to_owned())
    } else {
        None
    }
}

/// What each calling convention gives way to, if it does.
pub fn unwinding_abis(names: &Vec<String>) -> (r: Vec<Option<String>>)
    ensures
        optionals(r@) == replacements(text::texts(names@)),
{
    let mut r: Vec<Option<String>> = Vec::new();
    let mut i: usize = 0;
    while i < names.len()
        invariant
            i <= names@.len(),
            optionals(r@) == replacements(text::texts(names@)).take(i as int),
        decreases names@.len() - i,
    {
        let ghost before = r@;
        r.push(unwinding_abi(names[i].as_str()));
        proof {
            let all = replacements(text::texts(names@));
            assert(optionals(r@) =~= optionals(before).push(all[i as int]));
            assert(all.take(i + 1) =~= all.take(i as int).push(all[i as int]));
        }
        i += 1;
    }
    assert(replacements(text::texts(names@)).take(i as int) =~= replacements(text::texts(names@)));
    r
}

/// `syn::Attribute`: an attribute of an item.
#[verifier::external_type_specification]
#[verifier::external_body]
pub struct ExAttribute(syn::Attribute);

/// `syn::ForeignItemFn`: a foreign function.
#[verifier::external_type_specification]
#[verifier::external_body]
pub struct ExForeignItemFn(syn::ForeignItemFn);

/// `syn::ForeignItemStatic`: a foreign variable.
#[verifier::external_type_specification]
#[verifier::external_body]
pub struct ExForeignItemStatic(syn::ForeignItemStatic);

/// `syn::Abi`: a calling convention, such as `extern "C"`.
#[verifier::external_type_specification]
#[verifier::external_body]
pub struct ExAbi(syn::Abi);

/// A walk over the foreign items of a file: what the attributes of the functions met so far
/// mean, the attributes that the functions still to be met get, and those that a variable gets.
struct ForeignItems {
    functions: Vec<Vec<Attr>>,
    linkages: std::vec::IntoIter<Vec<syn::Attribute>>,
    variable: Vec<syn::Attribute>,
}

impl VisitMut for ForeignItems {
    /// Notes the attributes of a foreign function, and puts the next ones that are at hand, if
    /// any, in front of them. Nothing is said of the result.
    #[verifier::external_body]
    fn visit_foreign_item_fn_mut(&mut self, func: &mut syn::ForeignItemFn) {
        self.functions.push(func.attrs.iter().map(|attr| match &attr.meta {
            syn::Meta::NameValue(kv) => Attr::NameValue {
                name: kv.path.get_ident().map(|ident| ident.to_string()),
                value: match &kv.value {
                    syn::Expr::Lit(syn::ExprLit { lit: syn::Lit::Str(s), .. }) => Some(s.value()),
                    _ => None,
                },
            },
            _ => Attr::Other,
        }).collect());
        func.attrs.splice(0..0, self.linkages.next().unwrap_or_default());
    }

    /// Puts the attributes for a variable in front of those of a foreign variable. Nothing is
    /// said of the result.
    #[verifier::external_body]
    fn visit_foreign_item_static_mut(&mut self, variable: &mut syn::ForeignItemStatic) {
        variable.attrs.splice(0..0, self.variable.clone());
    }
}

/// A walk over the calling conventions of a file: the names met so far, and for those still to
/// be met what they give way to.
struct Conventions {
    names: Vec<String>,
    replacements: std::vec::IntoIter<Option<String>>,
}

impl VisitMut for Conventions {
    /// Notes the name of a calling convention that has one, and replaces it by the next one that
    /// is at hand, if any. Nothing is said of the result.
    #[verifier::external_body]
    fn visit_abi_mut(&mut self, abi: &mut syn::Abi) {
        if let Some(name) = &mut abi.name {
            self.names.push(name.value());
            if let Some(new_name) = self.replacements.next().flatten() {
                *name = syn::LitStr::new(&new_name, name.span());
            }
        }
    }
}

/// The attributes of each foreign function of the Rust file that `source` is, in the order in
/// which `VisitMut::visit_file_mut` of `syn` meets them; `None` where it is not one. It does not
/// meet what stands in the tokens of a macro call, and is not led on into foreign functions and
/// variables.
pub uninterp spec fn foreign_functions(source: Seq<char>) -> Option<Seq<Seq<AttributeView>>>;

/// The names of the calling conventions of the Rust file that `source` is, in the order in which
/// `VisitMut::visit_file_mut` of `syn` meets them; `None` where it is not one. It does not meet
/// what stands in the tokens of a macro call; a convention without a name is passed over.
pub uninterp spec fn conventions(source: Seq<char>) -> Option<Seq<Seq<char>>>;

/// The items of the Rust file that `source` is, after `VisitMut::visit_file_mut` of `syn` put
/// the attributes `functions[i]` in front of those of the foreign function that it meets at `i`,
/// the attributes `variable` in front of those of each foreign variable, and then, where
/// `conventions[i]` is a name, that one in the place of the calling convention that it meets at
/// `i`. `None` where `source` is no Rust file or one of the texts is no list of attributes.
pub uninterp spec fn relinked(
    source: Seq<char>,
    functions: Seq<Seq<char>>,
    variable: Seq<char>,
    conventions: Seq<Option<Seq<char>>>,
) -> Option<Seq<items::ItemView>>;

/// Each of the texts is one of the attributes by which foreign items are linked.
pub open spec fn are_link_attributes(texts: Seq<Seq<char>>) -> bool {
    forall|i: int|
        0 <= i < texts.len() ==> (#[trigger] texts[i] == cshim_guard() || texts[i]
            == postgres_link())
}

/// `syn::parse_file`, and `VisitMut::visit_file_mut` of `syn` on the file, which meets the foreign
/// functions and the calling conventions. The results depend on the text alone, outside of a
/// procedural macro, in which the compiler splits texts into tokens. What they are of a given text
/// is not said, but for that there are some exactly where the text is a Rust file.
#[verifier::external_body]
fn read_items(source: &str) -> (r: Result<(Vec<Vec<Attr>>, Vec<String>), syn::Error>)
    ensures
        match r {
            Ok((functions, names)) => {
                &&& items::parsed_items(source@) is Some
                &&& foreign_functions(source@) == Some(attributes(functions@))
                &&& conventions(source@) == Some(text::texts(names@))
            },
            Err(_) => {
                &&& items::parsed_items(source@) is None
                &&& foreign_functions(source@) is None
                &&& conventions(source@) is None
            },
        },
{
    let mut file = syn::parse_file(source)?;
    let linkages = vec![].into_iter();
    let mut foreign = ForeignItems { functions: vec![], linkages, variable: vec![] };
    foreign.visit_file_mut(&mut file);
    let mut abis = Conventions { names: vec![], replacements: vec![].into_iter() };
    abis.visit_file_mut(&mut file);
    Ok((foreign.functions, abis.names))
}

/// `syn::Attribute::parse_outer` on each of the texts of attributes, `syn::parse_file`,
/// `VisitMut::visit_file_mut` of `syn` on the file, which puts the attributes and the names in,
/// and the items of the file. The result depends on the texts alone, outside of a procedural
/// macro, in which tokens are printed otherwise. What it is of given texts is not said, but for
/// two things. The attributes by which foreign items are linked can be put into each Rust file.
/// And the walk changes nothing but calling conventions and what stands in blocks of foreign
/// items, both of which are written with the word `extern`: each item stays in its place, and stays
/// what it is but for what stands beside that word.
#[verifier::external_body]
fn write_items(
    source: &str,
    functions: Vec<String>,
    variable: &str,
    conventions: Vec<Option<String>>,
) -> (r: Result<Vec<(Kind, String)>, syn::Error>)
    ensures
        match r {
            Ok(list) => {
                &&& relinked(
                    source@,
                    text::texts(functions@),
                    variable@,
                    optionals(conventions@),
                ) == Some(items::items_of(list@))
                &&& items::parsed_items(source@) is Some
                &&& items::keeps_items(items::parsed_items(source@)->0, items::items_of(list@))
            },
            Err(_) => relinked(
                source@,
                text::texts(functions@),
                variable@,
                optionals(conventions@),
            ) is None,
        },
        items::parsed_items(source@) is Some && are_link_attributes(
            text::texts(functions@).push(variable@),
        ) ==> r is Ok,
{
    let mut file = syn::parse_file(source)?;
    let parse = |text: &str| syn::Attribute::parse_outer.parse_str(text);
    let texts = functions.iter().map(|text| parse(text)).collect::<syn::Result<Vec<_>>>()?;
    let (linkages, variable) = (texts.into_iter(), parse(variable)?);
    let mut foreign = ForeignItems { functions: vec![], linkages, variable };
    foreign.visit_file_mut(&mut file);
    let mut abis = Conventions { names: vec![], replacements: conventions.into_iter() };
    abis.visit_file_mut(&mut file);
    Ok(items::read_file(&file))
}

/// The items of the Rust file that `source` is, with each foreign item linked and each C function
/// allowed to unwind; `None` where it is not one.
pub open spec fn linked_items(source: Seq<char>) -> Option<Seq<items::ItemView>> {
    match (foreign_functions(source), conventions(source)) {
        (Some(functions), Some(names)) => relinked(
            source,
            linkages(functions),
            postgres_link(),
            replacements(names),
        ),
        _ => None,
    }
}

/// The items of the Rust file that `source` is, with each foreign item linked and each C function
/// allowed to unwind. Apart from that they are its items as they are.
pub fn link_items(source: &str) -> (r: Result<Vec<Item>, syn::Error>)
    ensures
        match r {
            Ok(list) => {
                &&& linked_items(source@) == Some(items::views(list@))
                &&& items::parsed_items(source@) is Some
                &&& items::keeps_items(items::parsed_items(source@)->0, items::views(list@))
            },
            Err(_) => linked_items(source@) is None && items::parsed_items(source@) is None,
        },
{
    let (functions, names): (Vec<Vec<Attr>>, Vec<String>) = match read_items(source) {
        Ok(read) => read,
        Err(e) => {
            return Err(e);
        },
    };
    match write_items(
        source,
        function_linkages(&functions),
        static_linkage(),
        unwinding_abis(&names),
    ) {
        Ok(list) => Ok(items::make_items(list)),
        Err(e) => Err(e),
    }
}

/// Of a file that is linked: each foreign function is given the guard of the C shim where one of
/// its attributes gives it a link name of the shim, and else the link to PostgreSQL; each foreign
/// variable is given the latter; and each calling convention is replaced where it is plain C and
/// only there, so that after it none is plain C.
pub proof fn all_foreign_items_are_linked(source: Seq<char>)
    requires
        linked_items(source) is Some,
    ensures
        foreign_functions(source) is Some,
        conventions(source) is Some,
        exists|functions: Seq<Seq<char>>, replaced: Seq<Option<Seq<char>>>|
            {
                let names = conventions(source)->0;
                &&& linked_items(source) == #[trigger] relinked(
                    source,
                    functions,
                    postgres_link(),
                    replaced,
                )
                &&& functions.len() == (foreign_functions(source)->0).len()
                &&& forall|i: int|
                    0 <= i < functions.len() ==> #[trigger] functions[i] == (if links_with_cshim(
                        (foreign_functions(source)->0)[i],
                    ) {
                        cshim_guard()
                    } else {
                        postgres_link()
                    })
                &&& replaced.len() == names.len()
                &&& forall|i: int|
                    0 <= i < names.len() ==> match #[trigger] replaced[i] {
                        Some(new_name) => names[i] == "C"@ && new_name != "C"@ && new_name
                            == "C-unwind"@,
                        None => names[i] != "C"@,
                    }
            },
{
    reveal_strlit("C");
    reveal_strlit("C-unwind");
    assert("C-unwind"@.len() != "C"@.len());
    let functions = linkages(foreign_functions(source)->0);
    let replaced = replacements(conventions(source)->0);
    assert(linked_items(source) == relinked(source, functions, postgres_link(), replaced));
}

/// After one rewriting no calling convention is plain C, and a second changes nothing.
pub proof fn unwinding_abi_is_final(name: Seq<char>)
    ensures
        unwinding_abi_text(name) != "C"@,
        replacement(unwinding_abi_text(name)) is None,
{
    reveal_strlit("C");
    reveal_strlit("C-unwind");
    assert("C-unwind"@.len() != "C"@.len());
}

/// An attribute names the C shim exactly where it gives the name `link_name` a text that ends with
/// the suffix of the shim, whatever stands before it.
pub proof fn shim_is_told_by_the_link_name(
    name: Seq<char>,
    value: Seq<char>,
    before: Seq<char>,
    any: Option<Seq<char>>,
)
    ensures
        names_cshim(Some((Some("link_name"@), Some(before + "__pgrx_cshim"@)))),
        names_cshim(Some((Some(name), Some(value)))) <==> name == "link_name"@ && exists|
            p: Seq<char>,
        | value == #[trigger] (p + "__pgrx_cshim"@),
        !names_cshim(None),
        !names_cshim(Some((None, any))),
        !names_cshim(Some((any, None))),
{
    text::tail_ends(before, "__pgrx_cshim"@);
    text::ending_is_a_tail(value, "__pgrx_cshim"@);
}

/// A foreign function gets the guard of the C shim where one of its attributes names the shim,
/// wherever that one stands and whatever others there are, and else the link to PostgreSQL.
pub proof fn one_attribute_decides(
    before: Seq<AttributeView>,
    attr: AttributeView,
    after: Seq<AttributeView>,
    others: Seq<AttributeView>,
)
    ensures
        names_cshim(attr) ==> linkage_text(before.push(attr) + after)
            == "#[cfg(feature = \"cshim\")]"@,
        (forall|i: int| 0 <= i < others.len() ==> !names_cshim(#[trigger] others[i]))
            ==> linkage_text(others)
            == "#[cfg_attr(target_os = \"windows\", link(name = \"postgres\"))]"@,
        postgres_link() == "#[cfg_attr(target_os = \"windows\", link(name = \"postgres\"))]"@,
{
    let all = before.push(attr) + after;
    assert(all[before.len() as int] == attr);
}

/// Each foreign function and each calling convention is decided by itself, in its place; the
/// convention of C alone is replaced.
pub proof fn each_is_decided_by_itself(
    functions: Seq<Seq<AttributeView>>,
    names: Seq<Seq<char>>,
    name: Seq<char>,
)
    ensures
        linkages(functions).len() == functions.len(),
        forall|i: int|
            0 <= i < functions.len() ==> #[trigger] linkages(functions)[i] == linkage_text(
                functions[i],
            ),
        replacements(names).len() == names.len(),
        forall|i: int|
            0 <= i < names.len() ==> #[trigger] replacements(names)[i] == replacement(names[i]),
        replacement(seq!['C']) == Some("C-unwind"@),
        name != seq!['C'] ==> replacement(name) is None,
{
    reveal_strlit("C");
    assert("C"@ =~= seq!['C']);
}

/// What is known of attributes: the name and the value where there are both, each by itself, and
/// those of each item in its place.
pub proof fn attributes_keep_what_they_hold(
    name: String,
    value: String,
    items: Seq<Vec<Attr>>,
)
    ensures
        (Attr::NameValue { name: Some(name), value: Some(value) })@ == Some(
            (Some(name@), Some(value@)),
        ),
        (Attr::NameValue { name: Some(name), value: None })@ == Some(
            (Some(name@), None::<Seq<char>>),
        ),
        (Attr::NameValue { name: None, value: Some(value) })@ == Some(
            (None::<Seq<char>>, Some(value@)),
        ),
        (Attr::NameValue { name: None, value: None })@ == Some(
            (None::<Seq<char>>, None::<Seq<char>>),
        ),
        Attr::Other@ is None,
        attributes(items).len() == items.len(),
        forall|i: int|
            0 <= i < items.len() ==> (#[trigger] attributes(items)[i]).len() == items[i]@.len(),
        forall|i: int, j: int|
            0 <= i < items.len() && 0 <= j < items[i]@.len() ==> #[trigger] attributes(items)[i][j]
                == items[i]@[j]@,
{
}

} // verus!
