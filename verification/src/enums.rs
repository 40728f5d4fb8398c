//! Standalone enum extraction: explicit discriminant values and the two
//! enum rendering modes.

use crate::extract::{doc_view, extract_doc, first_doc};
use crate::frontend::enum_to_host;
use crate::host::{HostDiscriminant, HostEnum};
use crate::text::{
    all_dec_digits, dec_int, dec_nat, digits_value, i64_decimal, parse_i64_digits, usize_decimal,
};
use crate::Error;
use vstd::prelude::*;
use vstd::string::*;

verus! {

/// An enum variant's explicit value: a string literal, a 64-bit signed
/// integer, or a symbolic reference to another constant, emitted as-is.
#[derive(Debug, PartialEq)]
pub enum EnumValue {
    String(String),
    Number(i64),
    Identifier(String),
}

/// The abstract value of an explicit enum value.
pub ghost enum ValueModel {
    Str(Seq<char>),
    Num(int),
    Ident(Seq<char>),
}

impl View for EnumValue {
    type V = ValueModel;

    open spec fn view(&self) -> ValueModel {
        match self {
            EnumValue::String(s) => ValueModel::Str(s@),
            EnumValue::Number(n) => ValueModel::Num(*n as int),
            EnumValue::Identifier(i) => ValueModel::Ident(i@),
        }
    }
}

/// The textual form of an explicit value: string values quoted, numbers bare
/// decimal, identifiers bare.
pub open spec fn value_text(v: ValueModel) -> Seq<char> {
    match v {
        ValueModel::Str(s) => seq!['"'] + s + seq!['"'],
        ValueModel::Num(n) => dec_int(n),
        ValueModel::Ident(i) => i,
    }
}

impl EnumValue {
    /// Renders the value in its TypeScript form.
    pub fn to_typescript(&self) -> (r: String)
        ensures
            r@ == value_text(self@),
    {
        match self {
            EnumValue::String(s) => {
                let mut out = String::from_str("\"");
                out.append(s.as_str());
                out.append("\"");
                proof {
                    reveal_strlit("\"");
                    assert("\""@ =~= seq!['"']);
                }
                out
            },
            EnumValue::Number(n) => i64_decimal(*n),
            EnumValue::Identifier(i) => i.clone(),
        }
    }
}

pub open spec fn opt_value_model(o: Option<EnumValue>) -> Option<ValueModel> {
    match o {
        Some(v) => Some(v@),
        None => None,
    }
}

/// The abstract value of one extracted variant.
pub ghost struct VariantModel {
    pub name: Seq<char>,
    pub value: Option<ValueModel>,
}

pub open spec fn variant_model(p: (String, Option<EnumValue>)) -> VariantModel {
    VariantModel { name: p.0@, value: opt_value_model(p.1) }
}

/// The abstract value of an extracted enumeration.
pub ghost struct ExtractedEnumModel {
    pub name: Seq<char>,
    pub variants: Seq<VariantModel>,
    pub doc: Option<Seq<char>>,
}

/// An extracted enumeration: the declaration name, the variants in
/// declaration order with their resolved explicit values, and the
/// declaration's documentation.
#[derive(Debug, PartialEq)]
pub struct ExtractedEnum {
    pub name: String,
    pub variants: Vec<(String, Option<EnumValue>)>,
    pub doc: Option<String>,
}

impl View for ExtractedEnum {
    type V = ExtractedEnumModel;

    open spec fn view(&self) -> ExtractedEnumModel {
        ExtractedEnumModel {
            name: self.name@,
            variants: self.variants@.map_values(|p: (String, Option<EnumValue>)| variant_model(p)),
            doc: doc_view(self.doc),
        }
    }
}

// ---------------------------------------------------------------------------
// The enum value resolver
// ---------------------------------------------------------------------------

/// Whether a digit string denotes a value that fits a 64-bit signed integer.
pub open spec fn int_fits(digits: Seq<char>) -> bool {
    digits.len() > 0 && all_dec_digits(digits) && digits_value(digits) <= i64::MAX
}

/// The resolved explicit value of one discriminant: a string literal yields
/// a string value; an integer literal yields its number, and fails the whole
/// extraction when it does not fit a 64-bit signed integer; a bare
/// identifier yields the identifier verbatim; any other shape, and an absent
/// discriminant, yield no explicit value.
pub open spec fn resolve_discriminant(d: HostDiscriminant) -> Result<Option<ValueModel>, Seq<
    char,
>> {
    match d {
        HostDiscriminant::Absent => Ok(None),
        HostDiscriminant::Str(s) => Ok(Some(ValueModel::Str(s@))),
        HostDiscriminant::Int(digits) => if int_fits(digits@) {
            Ok(Some(ValueModel::Num(digits_value(digits@))))
        } else {
            Err(digits@)
        },
        HostDiscriminant::Ident(i) => Ok(Some(ValueModel::Ident(i@))),
        HostDiscriminant::Other => Ok(None),
    }
}

/// Resolves one variant's discriminant.
pub fn resolve_variant_value(d: &HostDiscriminant) -> (r: Result<Option<EnumValue>, Error>)
    ensures
        match r {
            Ok(v) => resolve_discriminant(*d) == Result::<Option<ValueModel>, Seq<char>>::Ok(
                opt_value_model(v),
            ),
            Err(err) => (match err {
                Error::NumberOutOfRange(t) => resolve_discriminant(*d) == Result::<
                    Option<ValueModel>,
                    Seq<char>,
                >::Err(t@),
                Error::Parse(_) => false,
            }),
        },
{
    match d {
        HostDiscriminant::Absent => Ok(None),
        HostDiscriminant::Str(s) => Ok(Some(EnumValue::String(s.clone()))),
        HostDiscriminant::Int(digits) => match parse_i64_digits(digits.as_str()) {
            Some(v) => Ok(Some(EnumValue::Number(v))),
            None => Err(Error::NumberOutOfRange(digits.clone())),
        },
        HostDiscriminant::Ident(i) => Ok(Some(EnumValue::Identifier(i.clone()))),
        HostDiscriminant::Other => Ok(None),
    }
}

/// The resolved variants of an enumeration, in declaration order; the first
/// discriminant that does not fit fails the whole extraction.
pub open spec fn variants_models(vs: Seq<crate::host::HostVariant>) -> Result<
    Seq<VariantModel>,
    Seq<char>,
>
    decreases vs.len(),
{
    if vs.len() == 0 {
        Ok(Seq::<VariantModel>::empty())
    } else {
        match resolve_discriminant(vs[0].value) {
            Err(t) => Err(t),
            Ok(v) => match variants_models(vs.drop_first()) {
                Err(t) => Err(t),
                Ok(rest) => Ok(seq![VariantModel { name: vs[0].name@, value: v }] + rest),
            },
        }
    }
}

/// Extracts an enumeration from the host model: variant order is preserved
/// and each explicit value is resolved.
pub fn resolve_enum(e: &HostEnum) -> (r: Result<ExtractedEnum, Error>)
    ensures
        match r {
            Ok(ex) => variants_models(e.variants@) == Result::<Seq<VariantModel>, Seq<char>>::Ok(
                ex@.variants,
            ) && ex@.name == e.name@ && ex@.doc == first_doc(e.attrs@),
            Err(err) => (match err {
                Error::NumberOutOfRange(t) => variants_models(e.variants@) == Result::<
                    Seq<VariantModel>,
                    Seq<char>,
                >::Err(t@),
                Error::Parse(_) => false,
            }),
        },
{
    let mut out: Vec<(String, Option<EnumValue>)> = Vec::new();
    proof {
        assert(e.variants@.skip(0) =~= e.variants@);
        assert(out@.map_values(|p: (String, Option<EnumValue>)| variant_model(p)) =~= Seq::<
            VariantModel,
        >::empty());
    }
    let mut j: usize = 0;
    while j < e.variants.len()
        invariant
            j <= e.variants@.len(),
            variants_models(e.variants@) == (match variants_models(e.variants@.skip(j as int)) {
                Ok(rest) => Result::<Seq<VariantModel>, Seq<char>>::Ok(
                    out@.map_values(|p: (String, Option<EnumValue>)| variant_model(p)) + rest,
                ),
                Err(t) => Result::<Seq<VariantModel>, Seq<char>>::Err(t),
            }),
        decreases e.variants@.len() - j,
    {
        proof {
            assert(e.variants@.skip(j as int).drop_first() =~= e.variants@.skip(j + 1));
            assert(e.variants@.skip(j as int)[0] == e.variants@[j as int]);
        }
        let v = &e.variants[j];
        let ghost out_before = out@;
        match resolve_variant_value(&v.value) {
            Err(err) => {
                return Err(err);
            },
            Ok(val) => {
                let ghost vm = VariantModel {
                    name: e.variants@[j as int].name@,
                    value: opt_value_model(val),
                };
                out.push((v.name.clone(), val));
                proof {
                    assert(variant_model(out@.last()) == vm);
                    assert(out@.map_values(|p: (String, Option<EnumValue>)| variant_model(p))
                        =~= out_before.map_values(
                        |p: (String, Option<EnumValue>)| variant_model(p),
                    ).push(vm));
                    match variants_models(e.variants@.skip(j + 1)) {
                        Ok(rest) => {
                            assert(out@.map_values(
                                |p: (String, Option<EnumValue>)| variant_model(p),
                            ) + rest =~= out_before.map_values(
                                |p: (String, Option<EnumValue>)| variant_model(p),
                            ) + (seq![vm] + rest));
                        },
                        Err(_) => {},
                    }
                }
            },
        }
        j = j + 1;
    }
    proof {
        assert(e.variants@.skip(e.variants@.len() as int) =~= Seq::<
            crate::host::HostVariant,
        >::empty());
    }
    let doc = extract_doc(&e.attrs);
    Ok(ExtractedEnum { name: e.name.clone(), variants: out, doc })
}

/// Extracts an enumeration declaration from the parsed tree. The only
/// failure is an integer discriminant out of the 64-bit signed range.
pub fn extract_enum(item: &syn::ItemEnum) -> (r: Result<ExtractedEnum, Error>)
    ensures
        match r {
            Ok(_) => true,
            Err(err) => err is NumberOutOfRange,
        },
{
    let host = enum_to_host(item);
    resolve_enum(&host)
}

// ---------------------------------------------------------------------------
// Rendering
// ---------------------------------------------------------------------------

/// A documentation block above a declaration.
pub open spec fn doc_block(doc: Option<Seq<char>>) -> Seq<char> {
    match doc {
        Some(d) => "/**\n * "@ + d + "\n */\n"@,
        None => Seq::<char>::empty(),
    }
}

/// One variant line in enum mode: the explicit value's textual form, or the
/// variant's zero-based position when no explicit value is present.
pub open spec fn enum_variant_line(v: VariantModel, i: int) -> Seq<char> {
    "    "@ + v.name + " = "@ + (match v.value {
        Some(val) => value_text(val),
        None => dec_nat(i),
    }) + ",\n"@
}

/// The variant lines of an enum-mode body, numbering positions from `i`.
pub open spec fn enum_body(vs: Seq<VariantModel>, i: int) -> Seq<char>
    decreases vs.len(),
{
    if vs.len() == 0 {
        Seq::<char>::empty()
    } else {
        enum_variant_line(vs[0], i) + enum_body(vs.drop_first(), i + 1)
    }
}

/// One variant in union-type mode: the explicit value's textual form, or the
/// variant name as a quoted string literal. The ordinal fallback never
/// applies in this mode.
pub open spec fn union_variant_text(v: VariantModel) -> Seq<char> {
    match v.value {
        Some(val) => value_text(val),
        None => seq!['"'] + v.name + seq!['"'],
    }
}

/// The members of a union-type body.
pub open spec fn union_body(vs: Seq<VariantModel>, first: bool) -> Seq<char>
    decreases vs.len(),
{
    if vs.len() == 0 {
        Seq::<char>::empty()
    } else {
        (if first {
            "\n    "@
        } else {
            " |\n    "@
        }) + union_variant_text(vs[0]) + union_body(vs.drop_first(), false)
    }
}

/// The full rendering of one extracted enumeration.
pub open spec fn enum_render(e: ExtractedEnumModel, as_sum_type: bool) -> Seq<char> {
    doc_block(e.doc) + (if as_sum_type {
        "export type "@ + e.name + " ="@ + union_body(e.variants, true) + ";\n"@
    } else {
        "export enum "@ + e.name + " {\n"@ + enum_body(e.variants, 0) + "}\n"@
    })
}

/// Appends the variant lines of enum mode, ordinals counted from zero.
pub(crate) fn append_enum_variants(out: &mut String, variants: &Vec<(String, Option<EnumValue>)>)
    ensures
        final(out)@ == old(out)@ + enum_body(
            variants@.map_values(|p: (String, Option<EnumValue>)| variant_model(p)),
            0,
        ),
{
    let ghost vs = variants@.map_values(|p: (String, Option<EnumValue>)| variant_model(p));
    let ghost head0 = out@;
    proof {
        assert(vs.skip(0) =~= vs);
    }
    let mut j: usize = 0;
    while j < variants.len()
        invariant
            j <= variants@.len(),
            vs == variants@.map_values(|p: (String, Option<EnumValue>)| variant_model(p)),
            vs.len() == variants@.len(),
            head0 + enum_body(vs, 0) == out@ + enum_body(vs.skip(j as int), j as int),
        decreases variants@.len() - j,
    {
        proof {
            assert(vs.skip(j as int).drop_first() =~= vs.skip(j + 1));
            assert(vs.skip(j as int)[0] == vs[j as int]);
            assert(vs[j as int] == variant_model(variants@[j as int]));
        }
        let v = &variants[j];
        out.append("    ");
        out.append(v.0.as_str());
        out.append(" = ");
        match &v.1 {
            Some(val) => {
                let t = val.to_typescript();
                out.append(t.as_str());
            },
            None => {
                let t = usize_decimal(j);
                out.append(t.as_str());
            },
        }
        out.append(",\n");
        j = j + 1;
    }
    proof {
        assert(vs.skip(vs.len() as int) =~= Seq::<VariantModel>::empty());
    }
}

/// Appends the members of union-type mode: each variant's explicit value, or
/// its name as a quoted string literal.
pub(crate) fn append_union_variants(out: &mut String, variants: &Vec<(String, Option<EnumValue>)>)
    ensures
        final(out)@ == old(out)@ + union_body(
            variants@.map_values(|p: (String, Option<EnumValue>)| variant_model(p)),
            true,
        ),
{
    let ghost vs = variants@.map_values(|p: (String, Option<EnumValue>)| variant_model(p));
    let ghost head0 = out@;
    proof {
        assert(vs.skip(0) =~= vs);
    }
    let mut j: usize = 0;
    while j < variants.len()
        invariant
            j <= variants@.len(),
            vs == variants@.map_values(|p: (String, Option<EnumValue>)| variant_model(p)),
            vs.len() == variants@.len(),
            head0 + union_body(vs, true) == out@ + union_body(vs.skip(j as int), j == 0),
        decreases variants@.len() - j,
    {
        proof {
            assert(vs.skip(j as int).drop_first() =~= vs.skip(j + 1));
            assert(vs.skip(j as int)[0] == vs[j as int]);
            assert(vs[j as int] == variant_model(variants@[j as int]));
        }
        if j == 0 {
            out.append("\n    ");
        } else {
            out.append(" |\n    ");
        }
        let v = &variants[j];
        match &v.1 {
            Some(val) => {
                let t = val.to_typescript();
                out.append(t.as_str());
            },
            None => {
                out.append("\"");
                out.append(v.0.as_str());
                out.append("\"");
                proof {
                    reveal_strlit("\"");
                    assert("\""@ =~= seq!['"']);
                }
            },
        }
        j = j + 1;
    }
    proof {
        assert(vs.skip(vs.len() as int) =~= Seq::<VariantModel>::empty());
    }
}

/// Renders an extracted enumeration, as a numeric enum or as a union of
/// per-variant literals.
pub fn generate_typescript_enum(extracted: &ExtractedEnum, as_sum_type: bool) -> (r: String)
    ensures
        r@ == enum_render(extracted@, as_sum_type),
{
    let mut out = String::new();
    match &extracted.doc {
        Some(d) => {
            out.append("/**\n * ");
            out.append(d.as_str());
            out.append("\n */\n");
        },
        None => {},
    }
    if as_sum_type {
        out.append("export type ");
        out.append(extracted.name.as_str());
        out.append(" =");
        append_union_variants(&mut out, &extracted.variants);
        out.append(";\n");
        proof {
            assert(out@ =~= enum_render(extracted@, as_sum_type));
        }
        out
    } else {
        out.append("export enum ");
        out.append(extracted.name.as_str());
        out.append(" {\n");
        append_enum_variants(&mut out, &extracted.variants);
        out.append("}\n");
        proof {
            assert(out@ =~= enum_render(extracted@, as_sum_type));
        }
        out
    }
}

} // verus!
