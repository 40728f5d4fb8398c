//! The bridge to the `syn` parser.
//!
//! Everything `syn` produces is opaque here; each `external_body` function
//! below makes one step of the conversion from the parsed syntax tree to the
//! plain model in `host`, and the verified functions assemble the model. The
//! whole boundary is summed up by one name, `parsed_decls`: the host
//! declarations a source text parses to, a function of the text alone.

use crate::host::{
    HostArg, HostAttr, HostDecl, HostDiscriminant, HostEnum, HostField, HostMember, HostMethod, HostParam,
    HostStruct, HostTrait, HostType, HostVariant,
};
use crate::Error;
use vstd::prelude::*;

verus! {

#[verifier::external_type_specification]
#[verifier::external_body]
pub struct ExSynItem(syn::Item);

#[verifier::external_type_specification]
#[verifier::external_body]
pub struct ExSynItemStruct(syn::ItemStruct);

#[verifier::external_type_specification]
#[verifier::external_body]
pub struct ExSynItemEnum(syn::ItemEnum);

#[verifier::external_type_specification]
#[verifier::external_body]
pub struct ExSynItemTrait(syn::ItemTrait);

#[verifier::external_type_specification]
#[verifier::external_body]
pub struct ExSynField(syn::Field);

#[verifier::external_type_specification]
#[verifier::external_body]
pub struct ExSynAttribute(syn::Attribute);

#[verifier::external_type_specification]
#[verifier::external_body]
pub struct ExSynVariant(syn::Variant);

#[verifier::external_type_specification]
#[verifier::external_body]
pub struct ExSynTraitItem(syn::TraitItem);

#[verifier::external_type_specification]
#[verifier::external_body]
pub struct ExSynTraitItemFn(syn::TraitItemFn);

#[verifier::external_type_specification]
#[verifier::external_body]
pub struct ExSynFnArg(syn::FnArg);

#[verifier::external_type_specification]
#[verifier::external_body]
pub struct ExSynType(syn::Type);

#[verifier::external_type_specification]
#[verifier::external_body]
pub struct ExSynGenericArgument(syn::GenericArgument);

#[verifier::external_type_specification]
#[verifier::external_body]
pub struct ExSynPathArguments(syn::PathArguments);

#[verifier::external_type_specification]
#[verifier::external_body]
pub struct ExSynExpr(syn::Expr);

/// A top-level item sorted by the three declaration kinds extraction handles.
pub enum ItemCase {
    Struct(syn::ItemStruct),
    Enum(syn::ItemEnum),
    Trait(syn::ItemTrait),
    Other,
}

/// The host declarations a source text parses to: `None` exactly when the
/// text is not a syntactically valid Rust file, otherwise the file's items in
/// source order, reduced to the host model. `syn::parse_file` and the
/// reduction depend on the text alone, so this is a function of it.
pub uninterp spec fn parsed_decls(s: Seq<char>) -> Option<Seq<HostDecl>>;

/// Relies on `syn::parse_file`: parses a complete Rust source file into its
/// syntax tree, succeeding exactly on syntactically valid files; the result
/// depends on the text alone, and its items, reduced to the host model by
/// `items_to_host`, are what `parsed_decls` names. On failure the error's
/// display text is handed back.
#[verifier::external_body]
fn parse_source(source: &str) -> (r: Result<Vec<HostDecl>, String>)
    ensures
        (r is Ok) == (parsed_decls(source@) is Some),
        r is Ok ==> r->Ok_0@ == parsed_decls(source@)->Some_0,
{
    match syn::parse_file(source) {
        Ok(f) => Ok(items_to_host(&f.items)),
        Err(e) => Err(e.to_string()),
    }
}

/// Relies on the variants of `syn::Item`: tells struct, enum and trait items
/// from every other item kind.
#[verifier::external_body]
fn item_case(i: &syn::Item) -> (r: ItemCase) {
    match i {
        syn::Item::Struct(s) => ItemCase::Struct(s.clone()),
        syn::Item::Enum(e) => ItemCase::Enum(e.clone()),
        syn::Item::Trait(t) => ItemCase::Trait(t.clone()),
        _ => ItemCase::Other,
    }
}

/// Relies on the `ident`, `attrs` and `fields` fields of `syn::ItemStruct`,
/// and on `syn::Fields::into_iter`, which yields the fields of a named or
/// tuple struct in order and nothing for a unit struct.
#[verifier::external_body]
fn split_struct(s: &syn::ItemStruct) -> (r: (String, Vec<syn::Attribute>, Vec<syn::Field>)) {
    (s.ident.to_string(), s.attrs.clone(), s.fields.clone().into_iter().collect())
}

/// Relies on the `ident`, `ty` and `attrs` fields of `syn::Field`.
#[verifier::external_body]
fn split_field(f: &syn::Field) -> (r: (Option<String>, HostType, Vec<syn::Attribute>)) {
    let name = match &f.ident {
        Some(i) => Some(i.to_string()),
        None => None,
    };
    (name, convert_type(&f.ty), f.attrs.clone())
}

/// Relies on the `ident`, `attrs` and `variants` fields of `syn::ItemEnum`.
#[verifier::external_body]
fn split_enum(e: &syn::ItemEnum) -> (r: (String, Vec<syn::Attribute>, Vec<syn::Variant>)) {
    (e.ident.to_string(), e.attrs.clone(), e.variants.iter().cloned().collect())
}

/// Relies on the `ident`, `attrs` and `discriminant` fields of
/// `syn::Variant`.
#[verifier::external_body]
fn split_variant(v: &syn::Variant) -> (r: (String, HostDiscriminant, Vec<syn::Attribute>)) {
    let value = match &v.discriminant {
        Some((_, e)) => disc_value(e),
        None => HostDiscriminant::Absent,
    };
    (v.ident.to_string(), value, v.attrs.clone())
}

/// Relies on `syn::Expr` and `syn::Lit`: a string-literal discriminant
/// carries its value; an integer literal carries its base-10 digits, as
/// `syn::LitInt::base10_digits` converts them; a plain-identifier path
/// carries the identifier; every other expression shape is `Other`.
#[verifier::external_body]
fn disc_value(e: &syn::Expr) -> (r: HostDiscriminant) {
    match e {
        syn::Expr::Lit(el) => match &el.lit {
            syn::Lit::Str(s) => HostDiscriminant::Str(s.value()),
            syn::Lit::Int(i) => HostDiscriminant::Int(i.base10_digits().to_string()),
            _ => HostDiscriminant::Other,
        },
        syn::Expr::Path(p) => match p.path.get_ident() {
            Some(id) => HostDiscriminant::Ident(id.to_string()),
            None => HostDiscriminant::Other,
        },
        _ => HostDiscriminant::Other,
    }
}

/// Relies on the `ident`, `attrs` and `items` fields of `syn::ItemTrait`.
#[verifier::external_body]
fn split_trait(t: &syn::ItemTrait) -> (r: (String, Vec<syn::Attribute>, Vec<syn::TraitItem>)) {
    (t.ident.to_string(), t.attrs.clone(), t.items.clone())
}

/// Relies on the variants of `syn::TraitItem`: hands back function-shaped
/// members, which are the only ones extraction considers.
#[verifier::external_body]
fn trait_item_fn(ti: &syn::TraitItem) -> (r: Option<syn::TraitItemFn>) {
    match ti {
        syn::TraitItem::Fn(f) => Some(f.clone()),
        _ => None,
    }
}

/// Relies on the `sig` and `attrs` fields of `syn::TraitItemFn` and on
/// `syn::ReturnType`: the method's name, its inputs in order, its declared
/// return type if any, and its attributes.
#[verifier::external_body]
fn split_method(m: &syn::TraitItemFn) -> (r: (
    String,
    Vec<syn::FnArg>,
    Option<HostType>,
    Vec<syn::Attribute>,
)) {
    let ret = match &m.sig.output {
        syn::ReturnType::Type(_, ty) => Some(convert_type(ty)),
        syn::ReturnType::Default => None,
    };
    (m.sig.ident.to_string(), m.sig.inputs.iter().cloned().collect(), ret, m.attrs.clone())
}

/// Relies on the variants of `syn::FnArg`: tells the receiver from a typed
/// parameter.
#[verifier::external_body]
fn fn_arg_param(a: &syn::FnArg) -> (r: HostParam) {
    match a {
        syn::FnArg::Receiver(_) => HostParam::Receiver,
        syn::FnArg::Typed(pt) => HostParam::Typed(convert_type(&pt.ty)),
    }
}

/// Relies on `syn::Type` and `syn::Path`: a path type is read as its last
/// segment's name plus that segment's generic arguments; every other type
/// shape is unsupported for the mapping.
#[verifier::external_body]
fn convert_type(t: &syn::Type) -> (r: HostType) {
    match t {
        syn::Type::Path(tp) => match tp.path.segments.last() {
            Some(seg) => HostType::Named {
                name: seg.ident.to_string(),
                args: convert_path_args(&seg.arguments),
            },
            None => HostType::Unsupported,
        },
        _ => HostType::Unsupported,
    }
}

/// Relies on `syn::PathArguments`: angle-bracketed arguments are converted
/// one for one; the empty case and parenthesized arguments carry none.
#[verifier::external_body]
fn convert_path_args(a: &syn::PathArguments) -> (r: Vec<HostArg>) {
    match a {
        syn::PathArguments::AngleBracketed(ab) => ab.args.iter().map(convert_generic_arg).collect(),
        _ => Vec::new(),
    }
}

/// Relies on `syn::GenericArgument`: a type argument is converted; lifetimes,
/// const arguments, bindings and constraints are kept only as placeholders.
#[verifier::external_body]
fn convert_generic_arg(g: &syn::GenericArgument) -> (r: HostArg) {
    match g {
        syn::GenericArgument::Type(t) => HostArg::Ty(convert_type(t)),
        _ => HostArg::Other,
    }
}

/// Relies on `syn::Attribute::path` and `syn::Path::get_ident`: the
/// attribute's path when it is a single plain identifier.
#[verifier::external_body]
fn attr_name(a: &syn::Attribute) -> (r: Option<String>) {
    match a.path().get_ident() {
        Some(i) => Some(i.to_string()),
        None => None,
    }
}

/// Relies on `syn::Meta::NameValue` and `syn::Lit::Str`: the literal text of
/// a `name = "..."` attribute, as doc comments parse to; `None` for every
/// other attribute shape.
#[verifier::external_body]
fn attr_str_value(a: &syn::Attribute) -> (r: Option<String>) {
    match &a.meta {
        syn::Meta::NameValue(nv) => match &nv.value {
            syn::Expr::Lit(el) => match &el.lit {
                syn::Lit::Str(s) => Some(s.value()),
                _ => None,
            },
            _ => None,
        },
        _ => None,
    }
}

/// Relies on the `Debug` rendering of `syn::Attribute` (syn's `extra-traits`
/// feature): a textual dump of the attribute's syntax tree.
#[verifier::external_body]
fn attr_text(a: &syn::Attribute) -> (r: String) {
    format!("{:?}", a)
}

fn attrs_to_host(attrs: &Vec<syn::Attribute>) -> Vec<HostAttr> {
    let mut out: Vec<HostAttr> = Vec::new();
    let mut j: usize = 0;
    while j < attrs.len()
        decreases attrs@.len() - j,
    {
        let a = &attrs[j];
        let name = attr_name(a);
        let str_value = attr_str_value(a);
        let text = attr_text(a);
        out.push(HostAttr { name, str_value, text });
        j = j + 1;
    }
    out
}

fn struct_to_host(s: &syn::ItemStruct) -> HostStruct {
    let (name, attrs, fields) = split_struct(s);
    let mut out_fields: Vec<HostField> = Vec::new();
    let mut j: usize = 0;
    while j < fields.len()
        decreases fields@.len() - j,
    {
        let (fname, ty, fattrs) = split_field(&fields[j]);
        out_fields.push(HostField { name: fname, ty, attrs: attrs_to_host(&fattrs) });
        j = j + 1;
    }
    HostStruct { name, fields: out_fields, attrs: attrs_to_host(&attrs) }
}

pub(crate) fn enum_to_host(e: &syn::ItemEnum) -> HostEnum {
    let (name, attrs, variants) = split_enum(e);
    let mut out_variants: Vec<HostVariant> = Vec::new();
    let mut j: usize = 0;
    while j < variants.len()
        decreases variants@.len() - j,
    {
        let (vname, value, vattrs) = split_variant(&variants[j]);
        out_variants.push(HostVariant { name: vname, value, attrs: attrs_to_host(&vattrs) });
        j = j + 1;
    }
    HostEnum { name, variants: out_variants, attrs: attrs_to_host(&attrs) }
}

fn trait_to_host(t: &syn::ItemTrait) -> HostTrait {
    let (name, attrs, items) = split_trait(t);
    let mut members: Vec<HostMember> = Vec::new();
    let mut j: usize = 0;
    while j < items.len()
        decreases items@.len() - j,
    {
        match trait_item_fn(&items[j]) {
            Some(m) => {
                let (mname, inputs, ret, mattrs) = split_method(&m);
                let mut params: Vec<HostParam> = Vec::new();
                let mut k: usize = 0;
                while k < inputs.len()
                    decreases inputs@.len() - k,
                {
                    let p = fn_arg_param(&inputs[k]);
                    params.push(p);
                    k = k + 1;
                }
                members.push(
                    HostMember::Method(
                        HostMethod { name: mname, params, ret, attrs: attrs_to_host(&mattrs) },
                    ),
                );
            },
            None => {
                members.push(HostMember::Other);
            },
        }
        j = j + 1;
    }
    HostTrait { name, members, attrs: attrs_to_host(&attrs) }
}

/// Reduces parsed items to the plain host model, in source order.
fn items_to_host(items: &Vec<syn::Item>) -> Vec<HostDecl> {
    let mut decls: Vec<HostDecl> = Vec::new();
    let mut j: usize = 0;
    while j < items.len()
        decreases items@.len() - j,
    {
        match item_case(&items[j]) {
            ItemCase::Struct(s) => {
                let d = struct_to_host(&s);
                decls.push(HostDecl::Struct(d));
            },
            ItemCase::Enum(e) => {
                let d = enum_to_host(&e);
                decls.push(HostDecl::Enum(d));
            },
            ItemCase::Trait(t) => {
                let d = trait_to_host(&t);
                decls.push(HostDecl::Trait(d));
            },
            ItemCase::Other => {
                decls.push(HostDecl::Other);
            },
        }
        j = j + 1;
    }
    decls
}

/// Parses a source file into the plain host model, in source order. Fails
/// exactly when the text is not a syntactically valid Rust file.
pub(crate) fn parse_host(source: &str) -> (r: Result<Vec<HostDecl>, Error>)
    ensures
        (r is Ok) == (parsed_decls(source@) is Some),
        r is Ok ==> r->Ok_0@ == parsed_decls(source@)->Some_0,
        r is Err ==> r->Err_0 is Parse,
{
    match parse_source(source) {
        Err(msg) => Err(Error::Parse(msg)),
        Ok(decls) => Ok(decls),
    }
}

} // verus!
