//! Extraction: from the host declaration model to the TypeScript-oriented
//! declaration mapping.

use crate::enums::{resolve_enum, variant_model, variants_models, EnumValue, VariantModel};
use crate::frontend::{parse_host, parsed_decls};
use crate::host::{
    HostAttr, HostDecl, HostEnum, HostField, HostMember, HostMethod, HostParam, HostStruct,
    HostTrait, HostType,
};
use crate::text::{
    camel_case, camel_spec, contains_seq, contains_str, dec_nat, str_eq, trim_spec, trim_ws,
    usize_decimal,
};
use crate::Error;
use vstd::prelude::*;
use vstd::string::*;

verus! {

/// Options for the extraction process. The flags besides the pipeline's
/// behavior reproduced here are accepted configuration knobs with no effect
/// on extraction as it stands: `embed_structs`, `follow_structs` and
/// `no_anon_structs` are reserved extension points, and extraction-time
/// `sort_alphabetically` is not read by the pipeline (the rendering options
/// carry their own sort flag).
#[derive(Debug, Clone, Copy, PartialEq, Eq)]
pub struct ExtractOptions {
    pub embed_structs: bool,
    pub follow_structs: bool,
    pub no_anon_structs: bool,
    pub sort_alphabetically: bool,
}

impl Default for ExtractOptions {
    fn default() -> (r: Self)
        ensures
            r == (ExtractOptions {
                embed_structs: false,
                follow_structs: false,
                no_anon_structs: false,
                sort_alphabetically: false,
            }),
    {
        ExtractOptions {
            embed_structs: false,
            follow_structs: false,
            no_anon_structs: false,
            sort_alphabetically: false,
        }
    }
}

// ---------------------------------------------------------------------------
// The abstract declaration model
// ---------------------------------------------------------------------------

/// The abstract value of an extracted field.
pub ghost struct FieldModel {
    pub name: Seq<char>,
    pub ts_type: Seq<char>,
    pub optional: bool,
    pub doc: Option<Seq<char>>,
}

/// The abstract value of an extracted method parameter.
pub ghost struct ParamModel {
    pub name: Seq<char>,
    pub ts_type: Seq<char>,
}

/// The abstract value of an extracted method.
pub ghost struct MethodModel {
    pub name: Seq<char>,
    pub params: Seq<ParamModel>,
    pub return_type: Seq<char>,
    pub doc: Option<Seq<char>>,
}

/// The abstract value of an extracted declaration.
pub ghost enum DeclModel {
    Interface { name: Seq<char>, fields: Seq<FieldModel>, doc: Option<Seq<char>> },
    Enum { name: Seq<char>, variants: Seq<VariantModel>, doc: Option<Seq<char>> },
    Trait { name: Seq<char>, methods: Seq<MethodModel>, doc: Option<Seq<char>> },
}

/// The name a declaration is keyed by in the mapping.
pub open spec fn decl_name(d: DeclModel) -> Seq<char> {
    match d {
        DeclModel::Interface { name, .. } => name,
        DeclModel::Enum { name, .. } => name,
        DeclModel::Trait { name, .. } => name,
    }
}

pub open spec fn doc_view(o: Option<String>) -> Option<Seq<char>> {
    match o {
        Some(s) => Some(s@),
        None => None,
    }
}

// ---------------------------------------------------------------------------
// Extracted declarations (executable)
// ---------------------------------------------------------------------------

/// An extracted field: name already translated to camelCase, type already
/// resolved to text.
#[derive(Debug, PartialEq)]
pub struct TypescriptField {
    pub name: String,
    pub ts_type: String,
    pub optional: bool,
    pub doc: Option<String>,
}

impl View for TypescriptField {
    type V = FieldModel;

    open spec fn view(&self) -> FieldModel {
        FieldModel {
            name: self.name@,
            ts_type: self.ts_type@,
            optional: self.optional,
            doc: doc_view(self.doc),
        }
    }
}

/// An extracted method parameter: a synthesized positional name and the
/// resolved type text.
#[derive(Debug, PartialEq)]
pub struct TypescriptParam {
    pub name: String,
    pub ts_type: String,
}

impl View for TypescriptParam {
    type V = ParamModel;

    open spec fn view(&self) -> ParamModel {
        ParamModel { name: self.name@, ts_type: self.ts_type@ }
    }
}

/// An extracted method of a behavioral interface.
#[derive(Debug, PartialEq)]
pub struct TypescriptMethod {
    pub name: String,
    pub params: Vec<TypescriptParam>,
    pub return_type: String,
    pub doc: Option<String>,
}

impl View for TypescriptMethod {
    type V = MethodModel;

    open spec fn view(&self) -> MethodModel {
        MethodModel {
            name: self.name@,
            params: self.params@.map_values(|p: TypescriptParam| p@),
            return_type: self.return_type@,
            doc: doc_view(self.doc),
        }
    }
}

/// An extracted declaration: an interface from a record, an enum from an
/// enumeration, or an interface-shaped view of a behavioral interface. An
/// enum carries, per variant, the name and the resolved explicit
/// discriminant value if one is present.
#[derive(Debug, PartialEq)]
pub enum TypescriptType {
    Interface { name: String, fields: Vec<TypescriptField>, doc: Option<String> },
    Enum { name: String, variants: Vec<(String, Option<EnumValue>)>, doc: Option<String> },
    Trait { name: String, methods: Vec<TypescriptMethod>, doc: Option<String> },
}

impl View for TypescriptType {
    type V = DeclModel;

    open spec fn view(&self) -> DeclModel {
        match self {
            TypescriptType::Interface { name, fields, doc } => DeclModel::Interface {
                name: name@,
                fields: fields@.map_values(|f: TypescriptField| f@),
                doc: doc_view(*doc),
            },
            TypescriptType::Enum { name, variants, doc } => DeclModel::Enum {
                name: name@,
                variants: variants@.map_values(
                    |p: (String, Option<EnumValue>)| variant_model(p),
                ),
                doc: doc_view(*doc),
            },
            TypescriptType::Trait { name, methods, doc } => DeclModel::Trait {
                name: name@,
                methods: methods@.map_values(|m: TypescriptMethod| m@),
                doc: doc_view(*doc),
            },
        }
    }
}

impl TypescriptType {
    /// The declaration's name, the key it is mapped under.
    pub fn name(&self) -> (r: &String)
        ensures
            r@ == decl_name(self@),
    {
        match self {
            TypescriptType::Interface { name, .. } => name,
            TypescriptType::Enum { name, .. } => name,
            TypescriptType::Trait { name, .. } => name,
        }
    }
}

// ---------------------------------------------------------------------------
// Type resolution
// ---------------------------------------------------------------------------

/// The fixed table from host type names to TypeScript primitives: textual
/// string types to `string`, numeric types to `number`, `bool` to `boolean`;
/// an unrecognized name passes through unchanged, assumed to name another
/// declared type.
pub open spec fn type_table(name: Seq<char>) -> Seq<char> {
    if name == "String"@ || name == "str"@ {
        "string"@
    } else if name == "i8"@ || name == "i16"@ || name == "i32"@ || name == "i64"@ || name == "u8"@
        || name == "u16"@ || name == "u32"@ || name == "u64"@ || name == "f32"@ || name == "f64"@
        || name == "isize"@ || name == "usize"@ {
        "number"@
    } else if name == "bool"@ {
        "boolean"@
    } else if name == "Vec"@ {
        "Array"@
    } else if name == "Option"@ {
        Seq::<char>::empty()
    } else {
        name
    }
}

/// The resolved text of a host type: the single-argument optional wrapper
/// unwraps to its argument, the single-argument sequence wrapper maps to
/// `T[]`, other named types go through the primitive table, and unsupported
/// shapes fall back to `any`.
pub open spec fn resolve_type(t: HostType) -> Seq<char>
    decreases t,
{
    match t {
        HostType::Named { name, args } => {
            if name@ == "Option"@ && args@.len() == 1 && args@[0] is Ty {
                resolve_type(args@[0]->Ty_0)
            } else if name@ == "Vec"@ && args@.len() == 1 && args@[0] is Ty {
                resolve_type(args@[0]->Ty_0) + "[]"@
            } else {
                type_table(name@)
            }
        },
        HostType::Unsupported => "any"@,
    }
}

/// The fixed primitive table, as executable code.
pub fn rust_to_typescript_type(name: &str) -> (r: String)
    ensures
        r@ == type_table(name@),
{
    if str_eq(name, "String") || str_eq(name, "str") {
        String::from_str("string")
    } else if str_eq(name, "i8") || str_eq(name, "i16") || str_eq(name, "i32") || str_eq(
        name,
        "i64",
    ) || str_eq(name, "u8") || str_eq(name, "u16") || str_eq(name, "u32") || str_eq(name, "u64")
        || str_eq(name, "f32") || str_eq(name, "f64") || str_eq(name, "isize") || str_eq(
        name,
        "usize",
    ) {
        String::from_str("number")
    } else if str_eq(name, "bool") {
        String::from_str("boolean")
    } else if str_eq(name, "Vec") {
        String::from_str("Array")
    } else if str_eq(name, "Option") {
        String::new()
    } else {
        String::from_str(name)
    }
}

/// Resolves a host type to its TypeScript text.
pub fn resolve_type_text(t: &HostType) -> (r: String)
    ensures
        r@ == resolve_type(*t),
    decreases *t,
{
    match t {
        HostType::Named { name, args } => {
            if args.len() == 1 {
                if str_eq(name.as_str(), "Option") {
                    match &args[0] {
                        crate::host::HostArg::Ty(inner) => {
                            return resolve_type_text(inner);
                        },
                        crate::host::HostArg::Other => {},
                    }
                } else if str_eq(name.as_str(), "Vec") {
                    match &args[0] {
                        crate::host::HostArg::Ty(inner) => {
                            let mut s = resolve_type_text(inner);
                            s.append("[]");
                            return s;
                        },
                        crate::host::HostArg::Other => {},
                    }
                }
            }
            rust_to_typescript_type(name.as_str())
        },
        HostType::Unsupported => String::from_str("any"),
    }
}

// ---------------------------------------------------------------------------
// Optionality and documentation
// ---------------------------------------------------------------------------

/// Whether the attribute's path is the given single identifier.
pub open spec fn attr_named(a: HostAttr, what: Seq<char>) -> bool {
    match a.name {
        Some(n) => n@ == what,
        None => false,
    }
}

/// A field is optional when its declared type is the optional wrapper, or a
/// serialization attribute textually holds the skip-if-absent marker. The
/// marker test is a named heuristic: a substring check on the attribute's
/// debug text, not a structured parse of the attribute.
pub open spec fn is_optional_spec(ty: HostType, attrs: Seq<HostAttr>) -> bool {
    (match ty {
        HostType::Named { name, .. } => name@ == "Option"@,
        HostType::Unsupported => false,
    }) || exists|i: int|
        0 <= i < attrs.len() && attr_named(#[trigger] attrs[i], "serde"@) && contains_seq(
            attrs[i].text@,
            "skip_serializing_if"@,
        )
}

pub fn is_optional_field(ty: &HostType, attrs: &Vec<HostAttr>) -> (r: bool)
    ensures
        r == is_optional_spec(*ty, attrs@),
{
    match ty {
        HostType::Named { name, .. } => {
            if str_eq(name.as_str(), "Option") {
                return true;
            }
        },
        HostType::Unsupported => {},
    }
    let mut j: usize = 0;
    while j < attrs.len()
        invariant
            j <= attrs@.len(),
            forall|i: int|
                0 <= i < j ==> !(attr_named(#[trigger] attrs@[i], "serde"@) && contains_seq(
                    attrs@[i].text@,
                    "skip_serializing_if"@,
                )),
        decreases attrs@.len() - j,
    {
        let a = &attrs[j];
        let mut is_serde = false;
        match &a.name {
            Some(n) => {
                if str_eq(n.as_str(), "serde") {
                    is_serde = true;
                }
            },
            None => {},
        }
        if is_serde {
            if contains_str(a.text.as_str(), "skip_serializing_if") {
                return true;
            }
        }
        j = j + 1;
    }
    false
}

/// The doc value an attribute carries: the string literal of a
/// `doc = "..."`-shaped attribute, which is how a line doc comment parses.
pub open spec fn attr_doc_value(a: HostAttr) -> Option<Seq<char>> {
    if attr_named(a, "doc"@) {
        match a.str_value {
            Some(v) => Some(v@),
            None => None,
        }
    } else {
        None
    }
}

/// The first line-doc-comment attribute's text, trimmed. Only the first
/// matching attribute is used; further doc lines are not concatenated.
pub open spec fn first_doc(attrs: Seq<HostAttr>) -> Option<Seq<char>>
    decreases attrs.len(),
{
    if attrs.len() == 0 {
        None
    } else {
        match attr_doc_value(attrs[0]) {
            Some(v) => Some(trim_spec(v)),
            None => first_doc(attrs.drop_first()),
        }
    }
}

pub fn extract_doc(attrs: &Vec<HostAttr>) -> (r: Option<String>)
    ensures
        doc_view(r) == first_doc(attrs@),
{
    proof {
        assert(attrs@.skip(0) =~= attrs@);
    }
    let mut j: usize = 0;
    while j < attrs.len()
        invariant
            j <= attrs@.len(),
            first_doc(attrs@) == first_doc(attrs@.skip(j as int)),
        decreases attrs@.len() - j,
    {
        let a = &attrs[j];
        proof {
            assert(attrs@.skip(j as int).drop_first() =~= attrs@.skip(j + 1));
            assert(attrs@.skip(j as int)[0] == attrs@[j as int]);
        }
        let mut is_doc = false;
        match &a.name {
            Some(n) => {
                if str_eq(n.as_str(), "doc") {
                    is_doc = true;
                }
            },
            None => {},
        }
        if is_doc {
            match &a.str_value {
                Some(v) => {
                    let t = trim_ws(v.as_str());
                    return Some(t);
                },
                None => {},
            }
        }
        j = j + 1;
    }
    proof {
        assert(attrs@.skip(attrs@.len() as int) =~= Seq::<HostAttr>::empty());
    }
    None
}

// ---------------------------------------------------------------------------
// Field, method and declaration extraction
// ---------------------------------------------------------------------------

pub open spec fn unwrap_field_name(o: Option<String>) -> Seq<char> {
    match o {
        Some(s) => s@,
        None => Seq::<char>::empty(),
    }
}

/// The extracted model of one named field.
pub open spec fn field_model(f: HostField) -> FieldModel {
    FieldModel {
        name: camel_spec(unwrap_field_name(f.name)),
        ts_type: resolve_type(f.ty),
        optional: is_optional_spec(f.ty, f.attrs@),
        doc: first_doc(f.attrs@),
    }
}

/// The fields of an interface: each named host field in order; unnamed
/// (tuple) fields are skipped.
pub open spec fn interface_fields(fields: Seq<HostField>) -> Seq<FieldModel>
    decreases fields.len(),
{
    if fields.len() == 0 {
        Seq::<FieldModel>::empty()
    } else {
        let rest = interface_fields(fields.drop_first());
        if fields[0].name is Some {
            seq![field_model(fields[0])] + rest
        } else {
            rest
        }
    }
}

fn extract_fields(fields: &Vec<HostField>) -> (r: Vec<TypescriptField>)
    ensures
        r@.map_values(|f: TypescriptField| f@) == interface_fields(fields@),
{
    let mut out: Vec<TypescriptField> = Vec::new();
    proof {
        assert(fields@.skip(0) =~= fields@);
        assert(out@.map_values(|f: TypescriptField| f@) =~= Seq::<FieldModel>::empty());
        assert(Seq::<FieldModel>::empty() + interface_fields(fields@) =~= interface_fields(
            fields@,
        ));
    }
    let mut j: usize = 0;
    while j < fields.len()
        invariant
            j <= fields@.len(),
            interface_fields(fields@) == out@.map_values(|f: TypescriptField| f@)
                + interface_fields(fields@.skip(j as int)),
        decreases fields@.len() - j,
    {
        let f = &fields[j];
        proof {
            assert(fields@.skip(j as int).drop_first() =~= fields@.skip(j + 1));
            assert(fields@.skip(j as int)[0] == fields@[j as int]);
        }
        let ghost out_before = out@;
        match &f.name {
            Some(n) => {
                let name = camel_case(n.as_str());
                let ts_type = resolve_type_text(&f.ty);
                let optional = is_optional_field(&f.ty, &f.attrs);
                let doc = extract_doc(&f.attrs);
                let tf = TypescriptField { name, ts_type, optional, doc };
                proof {
                    assert(tf@ == field_model(fields@[j as int]));
                }
                out.push(tf);
                proof {
                    assert(out@.map_values(|f2: TypescriptField| f2@) =~= out_before.map_values(
                        |f2: TypescriptField| f2@,
                    ).push(field_model(fields@[j as int])));
                    assert(out@.map_values(|f2: TypescriptField| f2@) + interface_fields(
                        fields@.skip(j + 1),
                    ) =~= out_before.map_values(|f2: TypescriptField| f2@) + (seq![
                        field_model(fields@[j as int]),
                    ] + interface_fields(fields@.skip(j + 1))));
                }
            },
            None => {},
        }
        j = j + 1;
    }
    proof {
        assert(fields@.skip(fields@.len() as int) =~= Seq::<HostField>::empty());
        assert(out@.map_values(|f: TypescriptField| f@) =~= out@.map_values(
            |f: TypescriptField| f@,
        ) + interface_fields(Seq::<HostField>::empty()));
    }
    out
}

/// The parameters of a method: each non-receiver parameter, in order, named
/// `arg` + its zero-based position among the non-receiver parameters; the
/// host language's declared parameter names are discarded. An optional
/// wrapper in a parameter type unwraps without keeping an optionality mark:
/// parameters carry none, a known inconsistency with fields that is kept.
pub open spec fn method_params_from(params: Seq<HostParam>, next: int) -> Seq<ParamModel>
    decreases params.len(),
{
    if params.len() == 0 {
        Seq::<ParamModel>::empty()
    } else {
        match params[0] {
            HostParam::Receiver => method_params_from(params.drop_first(), next),
            HostParam::Typed(t) => seq![
                ParamModel { name: "arg"@ + dec_nat(next), ts_type: resolve_type(t) },
            ] + method_params_from(params.drop_first(), next + 1),
        }
    }
}

fn extract_params(params: &Vec<HostParam>) -> (r: Vec<TypescriptParam>)
    ensures
        r@.map_values(|p: TypescriptParam| p@) == method_params_from(params@, 0),
{
    let mut out: Vec<TypescriptParam> = Vec::new();
    proof {
        assert(params@.skip(0) =~= params@);
        assert(out@.map_values(|p: TypescriptParam| p@) =~= Seq::<ParamModel>::empty());
        assert(Seq::<ParamModel>::empty() + method_params_from(params@, 0)
            =~= method_params_from(params@, 0));
    }
    let mut next: usize = 0;
    let mut j: usize = 0;
    while j < params.len()
        invariant
            j <= params@.len(),
            next <= j,
            method_params_from(params@, 0) == out@.map_values(|p: TypescriptParam| p@)
                + method_params_from(params@.skip(j as int), next as int),
        decreases params@.len() - j,
    {
        proof {
            assert(params@.skip(j as int).drop_first() =~= params@.skip(j + 1));
            assert(params@.skip(j as int)[0] == params@[j as int]);
        }
        let ghost out_before = out@;
        match &params[j] {
            HostParam::Receiver => {},
            HostParam::Typed(t) => {
                let mut name = String::from_str("arg");
                let numeral = usize_decimal(next);
                name.append(numeral.as_str());
                let ts_type = resolve_type_text(t);
                let tp = TypescriptParam { name, ts_type };
                let ghost pm = ParamModel {
                    name: "arg"@ + dec_nat(next as int),
                    ts_type: resolve_type(params@[j as int]->Typed_0),
                };
                proof {
                    assert(tp@ == pm);
                }
                out.push(tp);
                next = next + 1;
                proof {
                    assert(out@.map_values(|p2: TypescriptParam| p2@) =~= out_before.map_values(
                        |p2: TypescriptParam| p2@,
                    ).push(pm));
                    assert(out@.map_values(|p2: TypescriptParam| p2@) + method_params_from(
                        params@.skip(j + 1),
                        next as int,
                    ) =~= out_before.map_values(|p2: TypescriptParam| p2@) + (seq![pm]
                        + method_params_from(params@.skip(j + 1), next as int)));
                }
            },
        }
        j = j + 1;
    }
    proof {
        assert(params@.skip(params@.len() as int) =~= Seq::<HostParam>::empty());
        assert(out@.map_values(|p: TypescriptParam| p@) =~= out@.map_values(
            |p: TypescriptParam| p@,
        ) + method_params_from(Seq::<HostParam>::empty(), next as int));
    }
    out
}

/// The extracted model of one method. A signature without a declared return
/// type maps to `void`.
pub open spec fn method_model(m: HostMethod) -> MethodModel {
    MethodModel {
        name: m.name@,
        params: method_params_from(m.params@, 0),
        return_type: match m.ret {
            Some(t) => resolve_type(t),
            None => "void"@,
        },
        doc: first_doc(m.attrs@),
    }
}

/// The methods of a trait-as-interface: each function-shaped member in
/// order; other member kinds are silently skipped.
pub open spec fn trait_methods(members: Seq<HostMember>) -> Seq<MethodModel>
    decreases members.len(),
{
    if members.len() == 0 {
        Seq::<MethodModel>::empty()
    } else {
        let rest = trait_methods(members.drop_first());
        match members[0] {
            HostMember::Method(m) => seq![method_model(m)] + rest,
            HostMember::Other => rest,
        }
    }
}

fn extract_methods(members: &Vec<HostMember>) -> (r: Vec<TypescriptMethod>)
    ensures
        r@.map_values(|m: TypescriptMethod| m@) == trait_methods(members@),
{
    let mut out: Vec<TypescriptMethod> = Vec::new();
    proof {
        assert(members@.skip(0) =~= members@);
        assert(out@.map_values(|m: TypescriptMethod| m@) =~= Seq::<MethodModel>::empty());
        assert(Seq::<MethodModel>::empty() + trait_methods(members@) =~= trait_methods(members@));
    }
    let mut j: usize = 0;
    while j < members.len()
        invariant
            j <= members@.len(),
            trait_methods(members@) == out@.map_values(|m: TypescriptMethod| m@) + trait_methods(
                members@.skip(j as int),
            ),
        decreases members@.len() - j,
    {
        proof {
            assert(members@.skip(j as int).drop_first() =~= members@.skip(j + 1));
            assert(members@.skip(j as int)[0] == members@[j as int]);
        }
        let ghost out_before = out@;
        match &members[j] {
            HostMember::Method(m) => {
                let params = extract_params(&m.params);
                let return_type = match &m.ret {
                    Some(t) => resolve_type_text(t),
                    None => String::from_str("void"),
                };
                let doc = extract_doc(&m.attrs);
                let tm = TypescriptMethod { name: m.name.clone(), params, return_type, doc };
                proof {
                    assert(tm@ == method_model(members@[j as int]->Method_0));
                }
                out.push(tm);
                proof {
                    let ghost mm = method_model(members@[j as int]->Method_0);
                    assert(out@.map_values(|m2: TypescriptMethod| m2@) =~= out_before.map_values(
                        |m2: TypescriptMethod| m2@,
                    ).push(mm));
                    assert(out@.map_values(|m2: TypescriptMethod| m2@) + trait_methods(
                        members@.skip(j + 1),
                    ) =~= out_before.map_values(|m2: TypescriptMethod| m2@) + (seq![mm]
                        + trait_methods(members@.skip(j + 1))));
                }
            },
            HostMember::Other => {},
        }
        j = j + 1;
    }
    proof {
        assert(members@.skip(members@.len() as int) =~= Seq::<HostMember>::empty());
        assert(out@.map_values(|m: TypescriptMethod| m@) =~= out@.map_values(
            |m: TypescriptMethod| m@,
        ) + trait_methods(Seq::<HostMember>::empty()));
    }
    out
}

/// A record declaration becomes an interface.
pub open spec fn struct_model(s: HostStruct) -> DeclModel {
    DeclModel::Interface {
        name: s.name@,
        fields: interface_fields(s.fields@),
        doc: first_doc(s.attrs@),
    }
}

/// An enumeration declaration becomes an enum of its variants, in
/// declaration order, each with its resolved explicit value; an integer
/// discriminant beyond the 64-bit signed range fails the whole extraction,
/// carrying the literal's digits.
pub open spec fn enum_decl_model(e: HostEnum) -> Result<DeclModel, Seq<char>> {
    match variants_models(e.variants@) {
        Ok(vs) => Ok(
            DeclModel::Enum { name: e.name@, variants: vs, doc: first_doc(e.attrs@) },
        ),
        Err(t) => Err(t),
    }
}

/// A behavioral-interface declaration becomes a trait-as-interface.
pub open spec fn trait_model(t: HostTrait) -> DeclModel {
    DeclModel::Trait {
        name: t.name@,
        methods: trait_methods(t.members@),
        doc: first_doc(t.attrs@),
    }
}

pub fn extract_struct_decl(s: &HostStruct) -> (r: TypescriptType)
    ensures
        r@ == struct_model(*s),
{
    TypescriptType::Interface {
        name: s.name.clone(),
        fields: extract_fields(&s.fields),
        doc: extract_doc(&s.attrs),
    }
}

pub fn extract_enum_decl(e: &HostEnum) -> (r: Result<TypescriptType, Error>)
    ensures
        match r {
            Ok(t) => enum_decl_model(*e) == Result::<DeclModel, Seq<char>>::Ok(t@),
            Err(err) => (match err {
                Error::NumberOutOfRange(t) => enum_decl_model(*e) == Result::<
                    DeclModel,
                    Seq<char>,
                >::Err(t@),
                Error::Parse(_) => false,
            }),
        },
{
    match resolve_enum(e) {
        Ok(ex) => Ok(
            TypescriptType::Enum { name: ex.name, variants: ex.variants, doc: ex.doc },
        ),
        Err(err) => Err(err),
    }
}

pub fn extract_trait_decl(t: &HostTrait) -> (r: TypescriptType)
    ensures
        r@ == trait_model(*t),
{
    TypescriptType::Trait {
        name: t.name.clone(),
        methods: extract_methods(&t.members),
        doc: extract_doc(&t.attrs),
    }
}

// ---------------------------------------------------------------------------
// The declaration mapping
// ---------------------------------------------------------------------------

/// The mapping is well-formed when no name is held twice.
pub open spec fn map_wf(m: Seq<DeclModel>) -> bool {
    forall|i: int, j: int|
        0 <= i < j < m.len() ==> decl_name(#[trigger] m[i]) != decl_name(#[trigger] m[j])
}

/// Whether the mapping holds a declaration under the given name.
pub open spec fn map_contains(m: Seq<DeclModel>, name: Seq<char>) -> bool {
    exists|i: int| 0 <= i < m.len() && decl_name(#[trigger] m[i]) == name
}

/// The position of the declaration with the given name.
pub open spec fn map_index_of(m: Seq<DeclModel>, name: Seq<char>) -> int {
    choose|i: int| 0 <= i < m.len() && decl_name(#[trigger] m[i]) == name
}

/// Insertion with last-write-wins overwrite: a declaration whose name is
/// already held replaces the earlier one in place; a new name is appended.
pub open spec fn map_insert(m: Seq<DeclModel>, d: DeclModel) -> Seq<DeclModel> {
    if map_contains(m, decl_name(d)) {
        m.update(map_index_of(m, decl_name(d)), d)
    } else {
        m.push(d)
    }
}

/// The declaration mapping: declaration name to declaration, in insertion
/// order, with last-write-wins overwrite on a repeated name.
#[derive(Debug)]
pub struct TypeMap {
    decls: Vec<TypescriptType>,
}

impl View for TypeMap {
    type V = Seq<DeclModel>;

    closed spec fn view(&self) -> Seq<DeclModel> {
        self.decls@.map_values(|d: TypescriptType| d@)
    }
}

/// The position of the first declaration with the given name.
fn find_name(decls: &Vec<TypescriptType>, name: &String) -> (r: Option<usize>)
    ensures
        match r {
            Some(j) => j < decls@.len() && decl_name(decls@[j as int]@) == name@,
            None => forall|i: int|
                0 <= i < decls@.len() ==> decl_name(#[trigger] decls@[i]@) != name@,
        },
{
    let mut j: usize = 0;
    while j < decls.len()
        invariant
            j <= decls@.len(),
            forall|i: int| 0 <= i < j ==> decl_name(#[trigger] decls@[i]@) != name@,
        decreases decls@.len() - j,
    {
        if str_eq(decls[j].name().as_str(), name.as_str()) {
            return Some(j);
        }
        j = j + 1;
    }
    None
}

impl TypeMap {
    /// An empty mapping.
    pub fn new() -> (r: Self)
        ensures
            r@ == Seq::<DeclModel>::empty(),
            map_wf(r@),
    {
        let r = TypeMap { decls: Vec::new() };
        proof {
            assert(r@ =~= Seq::<DeclModel>::empty());
        }
        r
    }

    /// The number of declarations held.
    pub fn len(&self) -> (r: usize)
        ensures
            r == self@.len(),
    {
        self.decls.len()
    }

    /// The declarations, in mapping order.
    pub fn items(&self) -> (r: &Vec<TypescriptType>)
        ensures
            r@.map_values(|d: TypescriptType| d@) == self@,
    {
        &self.decls
    }

    /// Inserts a declaration under its name.
    pub fn insert(&mut self, d: TypescriptType)
        requires
            map_wf(old(self)@),
        ensures
            final(self)@ == map_insert(old(self)@, d@),
            map_wf(final(self)@),
    {
        let ghost m0 = self@;
        let ghost decls0 = self.decls@;
        let pos = find_name(&self.decls, d.name());
        match pos {
            Some(j) => {
                let ghost dm = d@;
                let _replaced = self.decls.remove(j);
                self.decls.insert(j, d);
                proof {
                    assert(m0[j as int] == decls0[j as int]@);
                    assert(decl_name(m0[j as int]) == decl_name(dm));
                    assert(map_contains(m0, decl_name(dm)));
                    let i = map_index_of(m0, decl_name(dm));
                    assert(0 <= i < m0.len() && decl_name(m0[i]) == decl_name(dm)) by {
                        assert(map_contains(m0, decl_name(dm)));
                    }
                    assert(i == j as int) by {
                        if i != j as int {
                            assert(decl_name(m0[i]) != decl_name(m0[j as int]));
                        }
                    }
                    assert(self.decls@ =~= decls0.update(j as int, d));
                    assert(self@ =~= m0.update(j as int, dm));
                    assert forall|a: int, b: int|
                        0 <= a < b < self@.len() implies decl_name(#[trigger] self@[a])
                        != decl_name(#[trigger] self@[b]) by {
                        assert(decl_name(self@[a]) == decl_name(m0[a]));
                        assert(decl_name(self@[b]) == decl_name(m0[b]));
                    }
                }
            },
            None => {
                self.decls.push(d);
                proof {
                    assert(!map_contains(m0, decl_name(d@)));
                    assert(self@ =~= m0.push(d@));
                    assert forall|a: int, b: int|
                        0 <= a < b < self@.len() implies decl_name(#[trigger] self@[a])
                        != decl_name(#[trigger] self@[b]) by {
                        if b < m0.len() {
                            assert(self@[a] == m0[a]);
                            assert(self@[b] == m0[b]);
                        } else {
                            assert(self@[b] == d@);
                            assert(self@[a] == m0[a]);
                            assert(decl_name(m0[a]) != decl_name(d@));
                        }
                    }
                }
            },
        }
    }

    /// Whether a declaration with the given name is held.
    pub fn contains_key(&self, name: &str) -> (r: bool)
        ensures
            r == map_contains(self@, name@),
    {
        let mut j: usize = 0;
        while j < self.decls.len()
            invariant
                j <= self.decls@.len(),
                self@ == self.decls@.map_values(|t: TypescriptType| t@),
                forall|i: int| 0 <= i < j ==> decl_name(#[trigger] self@[i]) != name@,
            decreases self.decls@.len() - j,
        {
            if str_eq(self.decls[j].name().as_str(), name) {
                proof {
                    assert(decl_name(self@[j as int]) == name@);
                }
                return true;
            }
            j = j + 1;
        }
        false
    }

    /// The declaration held under the given name.
    pub fn get(&self, name: &str) -> (r: Option<&TypescriptType>)
        ensures
            match r {
                Some(t) => map_contains(self@, name@) && decl_name(t@) == name@ && (exists|i: int|
                    0 <= i < self@.len() && #[trigger] self@[i] == t@),
                None => !map_contains(self@, name@),
            },
    {
        let mut j: usize = 0;
        while j < self.decls.len()
            invariant
                j <= self.decls@.len(),
                self@ == self.decls@.map_values(|t: TypescriptType| t@),
                forall|i: int| 0 <= i < j ==> decl_name(#[trigger] self@[i]) != name@,
            decreases self.decls@.len() - j,
        {
            if str_eq(self.decls[j].name().as_str(), name) {
                proof {
                    assert(decl_name(self@[j as int]) == name@);
                    assert(self@[j as int] == self.decls@[j as int]@);
                }
                return Some(&self.decls[j]);
            }
            j = j + 1;
        }
        None
    }
}

// ---------------------------------------------------------------------------
// Copying extracted declarations
// ---------------------------------------------------------------------------

fn clone_opt_string(o: &Option<String>) -> (r: Option<String>)
    ensures
        doc_view(r) == doc_view(*o),
{
    match o {
        Some(s) => Some(s.clone()),
        None => None,
    }
}

fn clone_fields(v: &Vec<TypescriptField>) -> (r: Vec<TypescriptField>)
    ensures
        r@.map_values(|f: TypescriptField| f@) == v@.map_values(|f: TypescriptField| f@),
{
    let mut out: Vec<TypescriptField> = Vec::new();
    let mut j: usize = 0;
    while j < v.len()
        invariant
            j <= v@.len(),
            out@.len() == j,
            forall|i: int| 0 <= i < j ==> #[trigger] out@[i]@ == v@[i]@,
        decreases v@.len() - j,
    {
        let f = &v[j];
        out.push(
            TypescriptField {
                name: f.name.clone(),
                ts_type: f.ts_type.clone(),
                optional: f.optional,
                doc: clone_opt_string(&f.doc),
            },
        );
        j = j + 1;
    }
    proof {
        assert(out@.map_values(|f: TypescriptField| f@) =~= v@.map_values(
            |f: TypescriptField| f@,
        ));
    }
    out
}

fn clone_enum_value(v: &EnumValue) -> (r: EnumValue)
    ensures
        r@ == v@,
{
    match v {
        EnumValue::String(s) => EnumValue::String(s.clone()),
        EnumValue::Number(n) => EnumValue::Number(*n),
        EnumValue::Identifier(i) => EnumValue::Identifier(i.clone()),
    }
}

fn clone_variants(v: &Vec<(String, Option<EnumValue>)>) -> (r: Vec<(String, Option<EnumValue>)>)
    ensures
        r@.map_values(|p: (String, Option<EnumValue>)| variant_model(p)) == v@.map_values(
            |p: (String, Option<EnumValue>)| variant_model(p),
        ),
{
    let mut out: Vec<(String, Option<EnumValue>)> = Vec::new();
    let mut j: usize = 0;
    while j < v.len()
        invariant
            j <= v@.len(),
            out@.len() == j,
            forall|i: int|
                0 <= i < j ==> variant_model(#[trigger] out@[i]) == variant_model(v@[i]),
        decreases v@.len() - j,
    {
        let p = &v[j];
        let value = match &p.1 {
            Some(ev) => Some(clone_enum_value(ev)),
            None => None,
        };
        out.push((p.0.clone(), value));
        j = j + 1;
    }
    proof {
        assert(out@.map_values(|p: (String, Option<EnumValue>)| variant_model(p)) =~= v@.map_values(
            |p: (String, Option<EnumValue>)| variant_model(p),
        ));
    }
    out
}

fn clone_params(v: &Vec<TypescriptParam>) -> (r: Vec<TypescriptParam>)
    ensures
        r@.map_values(|p: TypescriptParam| p@) == v@.map_values(|p: TypescriptParam| p@),
{
    let mut out: Vec<TypescriptParam> = Vec::new();
    let mut j: usize = 0;
    while j < v.len()
        invariant
            j <= v@.len(),
            out@.len() == j,
            forall|i: int| 0 <= i < j ==> #[trigger] out@[i]@ == v@[i]@,
        decreases v@.len() - j,
    {
        let p = &v[j];
        out.push(TypescriptParam { name: p.name.clone(), ts_type: p.ts_type.clone() });
        j = j + 1;
    }
    proof {
        assert(out@.map_values(|p: TypescriptParam| p@) =~= v@.map_values(
            |p: TypescriptParam| p@,
        ));
    }
    out
}

fn clone_methods(v: &Vec<TypescriptMethod>) -> (r: Vec<TypescriptMethod>)
    ensures
        r@.map_values(|m: TypescriptMethod| m@) == v@.map_values(|m: TypescriptMethod| m@),
{
    let mut out: Vec<TypescriptMethod> = Vec::new();
    let mut j: usize = 0;
    while j < v.len()
        invariant
            j <= v@.len(),
            out@.len() == j,
            forall|i: int| 0 <= i < j ==> #[trigger] out@[i]@ == v@[i]@,
        decreases v@.len() - j,
    {
        let m = &v[j];
        out.push(
            TypescriptMethod {
                name: m.name.clone(),
                params: clone_params(&m.params),
                return_type: m.return_type.clone(),
                doc: clone_opt_string(&m.doc),
            },
        );
        j = j + 1;
    }
    proof {
        assert(out@.map_values(|m: TypescriptMethod| m@) =~= v@.map_values(
            |m: TypescriptMethod| m@,
        ));
    }
    out
}

/// A copy of an extracted declaration with the same abstract value.
pub fn clone_decl(t: &TypescriptType) -> (r: TypescriptType)
    ensures
        r@ == t@,
{
    match t {
        TypescriptType::Interface { name, fields, doc } => TypescriptType::Interface {
            name: name.clone(),
            fields: clone_fields(fields),
            doc: clone_opt_string(doc),
        },
        TypescriptType::Enum { name, variants, doc } => TypescriptType::Enum {
            name: name.clone(),
            variants: clone_variants(variants),
            doc: clone_opt_string(doc),
        },
        TypescriptType::Trait { name, methods, doc } => TypescriptType::Trait {
            name: name.clone(),
            methods: clone_methods(methods),
            doc: clone_opt_string(doc),
        },
    }
}

impl TypeMap {
    /// A copy of the whole mapping with the same abstract value.
    pub fn duplicate(&self) -> (r: TypeMap)
        ensures
            r@ == self@,
    {
        let mut out: Vec<TypescriptType> = Vec::new();
        let mut j: usize = 0;
        while j < self.decls.len()
            invariant
                j <= self.decls@.len(),
                out@.len() == j,
                forall|i: int| 0 <= i < j ==> #[trigger] out@[i]@ == self.decls@[i]@,
            decreases self.decls@.len() - j,
        {
            let d = clone_decl(&self.decls[j]);
            out.push(d);
            j = j + 1;
        }
        let r = TypeMap { decls: out };
        proof {
            assert(r@ =~= self@);
        }
        r
    }
}

// ---------------------------------------------------------------------------
// The extractor
// ---------------------------------------------------------------------------

/// One host declaration applied to the mapping; an enum whose discriminant
/// does not fit fails, carrying the literal's digits.
pub open spec fn apply_decl(m: Seq<DeclModel>, d: HostDecl) -> Result<Seq<DeclModel>, Seq<char>> {
    match d {
        HostDecl::Struct(s) => Ok(map_insert(m, struct_model(s))),
        HostDecl::Enum(e) => match enum_decl_model(e) {
            Ok(dm) => Ok(map_insert(m, dm)),
            Err(t) => Err(t),
        },
        HostDecl::Trait(t) => Ok(map_insert(m, trait_model(t))),
        HostDecl::Other => Ok(m),
    }
}

/// The host declarations applied to the mapping in order; a later
/// declaration with an already-held name overwrites the earlier one, and the
/// first failing declaration fails the whole extraction.
pub open spec fn apply_decls(m: Seq<DeclModel>, ds: Seq<HostDecl>) -> Result<
    Seq<DeclModel>,
    Seq<char>,
>
    decreases ds.len(),
{
    if ds.len() == 0 {
        Ok(m)
    } else {
        match apply_decl(m, ds[0]) {
            Ok(m2) => apply_decls(m2, ds.drop_first()),
            Err(t) => Err(t),
        }
    }
}

/// Applies parsed host declarations to a mapping, in order. On failure the
/// mapping may hold a partial result: callers work on a copy and discard it,
/// so that a failed extraction yields no partial mapping.
pub fn apply_host_decls(map: &mut TypeMap, decls: &Vec<HostDecl>) -> (r: Result<(), Error>)
    requires
        map_wf(old(map)@),
    ensures
        match r {
            Ok(_) => apply_decls(old(map)@, decls@) == Result::<Seq<DeclModel>, Seq<char>>::Ok(
                final(map)@,
            ) && map_wf(final(map)@),
            Err(err) => (match err {
                Error::NumberOutOfRange(t) => apply_decls(old(map)@, decls@) == Result::<
                    Seq<DeclModel>,
                    Seq<char>,
                >::Err(t@),
                Error::Parse(_) => false,
            }),
        },
{
    let ghost m0 = old(map)@;
    proof {
        assert(decls@.skip(0) =~= decls@);
    }
    let mut j: usize = 0;
    while j < decls.len()
        invariant
            j <= decls@.len(),
            m0 == old(map)@,
            map_wf(map@),
            apply_decls(m0, decls@) == apply_decls(map@, decls@.skip(j as int)),
        decreases decls@.len() - j,
    {
        proof {
            assert(decls@.skip(j as int).drop_first() =~= decls@.skip(j + 1));
            assert(decls@.skip(j as int)[0] == decls@[j as int]);
        }
        match &decls[j] {
            HostDecl::Struct(s) => {
                let d = extract_struct_decl(s);
                map.insert(d);
            },
            HostDecl::Enum(e) => {
                match extract_enum_decl(e) {
                    Ok(d) => {
                        map.insert(d);
                    },
                    Err(err) => {
                        proof {
                            match &err {
                                Error::NumberOutOfRange(t) => {
                                    assert(apply_decl(map@, decls@[j as int]) == Result::<
                                        Seq<DeclModel>,
                                        Seq<char>,
                                    >::Err(t@));
                                    assert(apply_decls(map@, decls@.skip(j as int)) == Result::<
                                        Seq<DeclModel>,
                                        Seq<char>,
                                    >::Err(t@));
                                },
                                Error::Parse(_) => {},
                            }
                        }
                        return Err(err);
                    },
                }
            },
            HostDecl::Trait(t) => {
                let d = extract_trait_decl(t);
                map.insert(d);
            },
            HostDecl::Other => {},
        }
        j = j + 1;
    }
    proof {
        assert(decls@.skip(decls@.len() as int) =~= Seq::<HostDecl>::empty());
    }
    Ok(())
}

/// The extractor: the options and the mapping built so far. Repeated
/// `extract` calls accumulate declarations into the same mapping.
#[derive(Debug)]
pub struct Extractor {
    pub options: ExtractOptions,
    pub result: TypeMap,
}

impl Extractor {
    pub fn new(options: ExtractOptions) -> (r: Self)
        ensures
            r.options == options,
            r.result@ == Seq::<DeclModel>::empty(),
            map_wf(r.result@),
    {
        Extractor { options, result: TypeMap::new() }
    }

    /// Extracts the declarations of a source file into the mapping and hands
    /// back a copy of the whole mapping. Fails exactly when the text is not
    /// a syntactically valid Rust file, or an enum discriminant integer
    /// literal does not fit a 64-bit signed integer; the mapping is then
    /// unchanged and no partial result is returned.
    pub fn extract(&mut self, source: &str) -> (r: Result<TypeMap, Error>)
        requires
            map_wf(old(self).result@),
        ensures
            final(self).options == old(self).options,
            map_wf(final(self).result@),
            match r {
                Ok(m) => parsed_decls(source@) is Some && apply_decls(
                    old(self).result@,
                    parsed_decls(source@)->Some_0,
                ) == Result::<Seq<DeclModel>, Seq<char>>::Ok(final(self).result@) && m@
                    == final(self).result@,
                Err(e) => *final(self) == *old(self) && (match e {
                    Error::Parse(_) => parsed_decls(source@) is None,
                    Error::NumberOutOfRange(t) => parsed_decls(source@) is Some && apply_decls(
                        old(self).result@,
                        parsed_decls(source@)->Some_0,
                    ) == Result::<Seq<DeclModel>, Seq<char>>::Err(t@),
                }),
            },
    {
        match parse_host(source) {
            Err(e) => Err(e),
            Ok(decls) => {
                let mut work = self.result.duplicate();
                match apply_host_decls(&mut work, &decls) {
                    Err(e) => Err(e),
                    Ok(_unit) => {
                        self.result = work;
                        let m = self.result.duplicate();
                        Ok(m)
                    },
                }
            },
        }
    }
}

/// Extracts the declarations of a source file with a fresh extractor. Fails
/// exactly on an unparseable file or an out-of-range enum discriminant; no
/// partial mapping is returned.
pub fn extract(source: &str, options: ExtractOptions) -> (r: Result<TypeMap, Error>)
    ensures
        match r {
            Ok(m) => map_wf(m@) && parsed_decls(source@) is Some && apply_decls(
                Seq::<DeclModel>::empty(),
                parsed_decls(source@)->Some_0,
            ) == Result::<Seq<DeclModel>, Seq<char>>::Ok(m@),
            Err(e) => (match e {
                Error::Parse(_) => parsed_decls(source@) is None,
                Error::NumberOutOfRange(t) => parsed_decls(source@) is Some && apply_decls(
                    Seq::<DeclModel>::empty(),
                    parsed_decls(source@)->Some_0,
                ) == Result::<Seq<DeclModel>, Seq<char>>::Err(t@),
            }),
        },
{
    let mut extractor = Extractor::new(options);
    extractor.extract(source)
}

} // verus!
