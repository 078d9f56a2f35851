//! The items of a source file, as far as the rewriting of bindings reads them.
use crate::text;
use quote::ToTokens;
use syn::{Item as Syntax, Type};
use vstd::prelude::*;

verus! {

/// A constant: its name, and its type and its value as the tokens that they are written in.
pub struct ConstItem {
    pub ident: String,
    pub ty: String,
    pub expr: String,
    pub tokens: String,
}

/// A struct: its name, and for each field, in order, the names along the path of its type,
/// where the type is a path.
pub struct StructItem {
    pub ident: String,
    pub fields: Vec<Option<Vec<String>>>,
    pub tokens: String,
}

/// An item of a source file. `tokens` is the whole item as it is written.
pub enum Item {
    Const(ConstItem),
    Struct(StructItem),
    ForeignMod { tokens: String },
    Other { tokens: String },
}

/// What a constant holds.
pub struct ConstView {
    pub ident: Seq<char>,
    pub ty: Seq<char>,
    pub expr: Seq<char>,
    pub tokens: Seq<char>,
}

/// What a struct holds.
pub struct StructView {
    pub ident: Seq<char>,
    pub fields: Seq<Option<Seq<Seq<char>>>>,
    pub tokens: Seq<char>,
}

/// The names along the path of each type that is one.
pub open spec fn paths(fields: Seq<Option<Vec<String>>>) -> Seq<Option<Seq<Seq<char>>>> {
    Seq::new(
        fields.len(),
        |i: int|
            match fields[i] {
                Some(path) => Some(text::texts(path@)),
                None => None,
            },
    )
}

/// What an item holds.
pub enum ItemView {
    Const(ConstView),
    Struct(StructView),
    ForeignMod { tokens: Seq<char> },
    Other { tokens: Seq<char> },
}

impl View for ConstItem {
    type V = ConstView;

    open spec fn view(&self) -> ConstView {
        ConstView { ident: self.ident@, ty: self.ty@, expr: self.expr@, tokens: self.tokens@ }
    }
}

impl View for StructItem {
    type V = StructView;

    open spec fn view(&self) -> StructView {
        StructView {
            ident: self.ident@,
            fields: paths(self.fields@),
            tokens: self.tokens@,
        }
    }
}

impl View for Item {
    type V = ItemView;

    open spec fn view(&self) -> ItemView {
        match self {
            Item::Const(c) => ItemView::Const(c@),
            Item::Struct(s) => ItemView::Struct(s@),
            Item::ForeignMod { tokens } => ItemView::ForeignMod { tokens: tokens@ },
            Item::Other { tokens } => ItemView::Other { tokens: tokens@ },
        }
    }
}

/// What each item of a list holds.
pub open spec fn views(items: Seq<Item>) -> Seq<ItemView> {
    Seq::new(items.len(), |i: int| items[i]@)
}

/// `syn::Error`: why a source text is not a Rust file.
#[verifier::external_type_specification]
#[verifier::external_body]
pub struct ExSynError(syn::Error);

/// What distinguishes an item: of a constant its name, its type and its value, of a struct its
/// name and the paths of the types of its fields.
pub enum Kind {
    Const(String, String, String),
    Struct(String, Vec<Option<Vec<String>>>),
    ForeignMod,
    Other,
}

/// What an item holds that is of that kind and written in these tokens.
pub open spec fn item_of(kind: Kind, tokens: Seq<char>) -> ItemView {
    match kind {
        Kind::Const(ident, ty, expr) => ItemView::Const(
            ConstView { ident: ident@, ty: ty@, expr: expr@, tokens },
        ),
        Kind::Struct(ident, fields) => ItemView::Struct(
            StructView { ident: ident@, fields: paths(fields@), tokens },
        ),
        Kind::ForeignMod => ItemView::ForeignMod { tokens },
        Kind::Other => ItemView::Other { tokens },
    }
}

/// What the items hold that are of these kinds and written in these tokens.
pub open spec fn items_of(list: Seq<(Kind, String)>) -> Seq<ItemView> {
    Seq::new(list.len(), |i: int| item_of(list[i].0, list[i].1@))
}

/// A text that is kept where the word `extern` does not stand in it, and else keeps the word.
pub open spec fn keeps_text(before: Seq<char>, after: Seq<char>) -> bool {
    if text::occurs_in(before, "extern"@) {
        text::occurs_in(after, "extern"@)
    } else {
        after == before
    }
}

/// An item that stays what it is, but for what stands beside the word `extern` in it: a constant
/// of the same name, a struct of the same name with fields of the same types, a block of foreign
/// items, or any other.
pub open spec fn keeps_item(before: ItemView, after: ItemView) -> bool {
    match (before, after) {
        (ItemView::Const(b), ItemView::Const(a)) => {
            &&& a.ident == b.ident
            &&& keeps_text(b.ty, a.ty)
            &&& keeps_text(b.expr, a.expr)
            &&& keeps_text(b.tokens, a.tokens)
        },
        (ItemView::Struct(b), ItemView::Struct(a)) => {
            &&& a.ident == b.ident
            &&& a.fields == b.fields
            &&& keeps_text(b.tokens, a.tokens)
        },
        (ItemView::ForeignMod { tokens: b }, ItemView::ForeignMod { tokens: a }) => keeps_text(b, a),
        (ItemView::Other { tokens: b }, ItemView::Other { tokens: a }) => keeps_text(b, a),
        _ => false,
    }
}

/// Items of which each stays what it is, but for what stands beside the word `extern` in it.
pub open spec fn keeps_items(before: Seq<ItemView>, after: Seq<ItemView>) -> bool {
    &&& after.len() == before.len()
    &&& forall|i: int| 0 <= i < before.len() ==> keeps_item(before[i], #[trigger] after[i])
}

/// `syn::File`: the syntax tree of a source file.
#[verifier::external_type_specification]
#[verifier::external_body]
pub struct ExFile(syn::File);

/// The items of a `syn::File`: of each its tokens and what distinguishes it. Nothing is said of
/// the result.
#[verifier::external_body]
pub(crate) fn read_file(file: &syn::File) -> Vec<(Kind, String)> {
    file.items.iter().map(|item| (match item {
        Syntax::Const(c) => Kind::Const(
            c.ident.to_string(),
            c.ty.to_token_stream().to_string(),
            c.expr.to_token_stream().to_string(),
        ),
        Syntax::Struct(s) => Kind::Struct(s.ident.to_string(), s.fields.iter().map(|f| match &f.ty {
            Type::Path(p) => Some(p.path.segments.iter().map(|n| n.ident.to_string()).collect()),
            _ => None,
        }).collect()),
        Syntax::ForeignMod(_) => Kind::ForeignMod,
        _ => Kind::Other,
    }, item.to_token_stream().to_string())).collect()
}

/// The items of the Rust file that `source` is, as `syn::parse_file` reads it; `None` where
/// it is not one.
pub uninterp spec fn parsed_items(source: Seq<char>) -> Option<Seq<ItemView>>;

/// `syn::parse_file`, and of each item its tokens and what distinguishes it. The result depends
/// on the text alone, outside of a procedural macro, in which tokens are printed otherwise. What
/// the items of a given text are is not said.
#[verifier::external_body]
fn parse_file(source: &str) -> (r: Result<Vec<(Kind, String)>, syn::Error>)
    ensures
        match r {
            Ok(list) => parsed_items(source@) == Some(items_of(list@)),
            Err(_) => parsed_items(source@) is None,
        },
{
    Ok(read_file(&syn::parse_file(source)?))
}

/// The items that are of these kinds and written in these tokens.
pub fn make_items(list: Vec<(Kind, String)>) -> (r: Vec<Item>)
    ensures
        views(r@) == items_of(list@),
{
    let ghost all = items_of(list@);
    let mut items: Vec<Item> = Vec::new();
    for entry in it: list
        invariant
            all == items_of(it.seq()),
            views(items@) == all.take(it.index()),
    {
        let (kind, tokens): (Kind, String) = entry;
        let item: Item = match kind {
            Kind::Const(ident, ty, expr) => Item::Const(ConstItem { ident, ty, expr, tokens }),
            Kind::Struct(ident, fields) => Item::Struct(StructItem { ident, fields, tokens }),
            Kind::ForeignMod => Item::ForeignMod { tokens },
            Kind::Other => Item::Other { tokens },
        };
        let ghost before = items@;
        items.push(item);
        proof {
            assert(views(items@) =~= views(before).push(item@));
            assert(all.take(it.index() + 1) =~= all.take(it.index()).push(all[it.index()]));
        }
    }
    assert(all.take(all.len() as int) =~= all);
    items
}

/// The items of the Rust file that `source` is.
pub fn parse_items(source: &str) -> (r: Result<Vec<Item>, syn::Error>)
    ensures
        match r {
            Ok(items) => parsed_items(source@) == Some(views(items@)),
            Err(_) => parsed_items(source@) is None,
        },
{
    match parse_file(source) {
        Ok(list) => Ok(make_items(list)),
        Err(e) => Err(e),
    }
}

/// Items keep what distinguishes them, and their tokens: constants their name, type and value,
/// structs their name and the paths of the types of their fields.
pub proof fn items_keep_what_they_hold(
    ident: String,
    ty: String,
    expr: String,
    fields: Vec<Option<Vec<String>>>,
    tokens: Seq<char>,
)
    ensures
        item_of(Kind::Const(ident, ty, expr), tokens) == ItemView::Const(
            ConstView { ident: ident@, ty: ty@, expr: expr@, tokens },
        ),
        item_of(Kind::Struct(ident, fields), tokens) is Struct,
        item_of(Kind::Struct(ident, fields), tokens)->Struct_0.ident == ident@,
        item_of(Kind::Struct(ident, fields), tokens)->Struct_0.tokens == tokens,
        item_of(Kind::Struct(ident, fields), tokens)->Struct_0.fields.len() == fields@.len(),
        forall|i: int|
            0 <= i < fields@.len() ==> match fields@[i] {
                Some(path) => {
                    let names = #[trigger] paths(fields@)[i];
                    &&& names is Some
                    &&& names->0.len() == path@.len()
                    &&& forall|j: int| 0 <= j < path@.len() ==> #[trigger] names->0[j] == path@[j]@
                },
                None => paths(fields@)[i] is None,
            },
        item_of(Kind::Struct(ident, fields), tokens)->Struct_0.fields == paths(fields@),
        item_of(Kind::ForeignMod, tokens) == (ItemView::ForeignMod { tokens }),
        item_of(Kind::Other, tokens) == (ItemView::Other { tokens }),
{
}

/// What is seen of items is what they hold, each in its place.
pub proof fn views_show_what_items_hold(
    c: ConstItem,
    s: StructItem,
    tokens: String,
    items: Seq<Item>,
)
    ensures
        Item::Const(c)@ == ItemView::Const(
            ConstView { ident: c.ident@, ty: c.ty@, expr: c.expr@, tokens: c.tokens@ },
        ),
        Item::Struct(s)@ == ItemView::Struct(
            StructView { ident: s.ident@, fields: paths(s.fields@), tokens: s.tokens@ },
        ),
        (Item::ForeignMod { tokens })@ == (ItemView::ForeignMod { tokens: tokens@ }),
        (Item::Other { tokens })@ == (ItemView::Other { tokens: tokens@ }),
        views(items).len() == items.len(),
        forall|i: int| 0 <= i < items.len() ==> #[trigger] views(items)[i] == items[i]@,
{
}

} // verus!
