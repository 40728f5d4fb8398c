//! Rendering: from the declaration mapping to TypeScript source text.

use crate::enums::{
    append_enum_variants, append_union_variants, doc_block, enum_body, union_body, EnumValue,
    VariantModel,
};
use crate::extract::{
    decl_name, doc_view, DeclModel, FieldModel, MethodModel, ParamModel, TypeMap, TypescriptField,
    TypescriptMethod, TypescriptParam, TypescriptType,
};
use crate::text::{lex_lt, str_leq};
use vstd::prelude::*;
use vstd::string::*;

verus! {

/// The abstract value of the rendering options.
pub ghost struct OptionsModel {
    pub namespace: Option<Seq<char>>,
    pub preamble: Option<Seq<char>>,
    pub sum_types: bool,
    pub sort: bool,
}

/// Rendering options: an optional namespace to wrap all declarations, an
/// optional preamble block, the enum rendering mode, and alphabetical
/// sorting of declarations, fields and methods.
#[derive(Debug, Clone, PartialEq)]
pub struct GeneratorOptions {
    pub namespace: Option<String>,
    pub preamble: Option<String>,
    pub generate_enums_as_sum_types: bool,
    pub sort_alphabetically: bool,
}

impl View for GeneratorOptions {
    type V = OptionsModel;

    open spec fn view(&self) -> OptionsModel {
        OptionsModel {
            namespace: doc_view(self.namespace),
            preamble: doc_view(self.preamble),
            sum_types: self.generate_enums_as_sum_types,
            sort: self.sort_alphabetically,
        }
    }
}

impl Default for GeneratorOptions {
    fn default() -> (r: Self)
        ensures
            r@ == (OptionsModel {
                namespace: None,
                preamble: Some("// generated using bel\n// DO NOT MODIFY"@),
                sum_types: false,
                sort: false,
            }),
    {
        GeneratorOptions {
            namespace: None,
            preamble: Some(String::from_str("// generated using bel\n// DO NOT MODIFY")),
            generate_enums_as_sum_types: false,
            sort_alphabetically: false,
        }
    }
}

// ---------------------------------------------------------------------------
// Alphabetical sorting
// ---------------------------------------------------------------------------

/// `x` placed into `s` directly before the first element whose key orders
/// strictly above `x`'s key; with equal keys `x` lands after, which keeps
/// the sort stable.
pub open spec fn insert_sorted<T>(x: T, s: Seq<T>, key: spec_fn(T) -> Seq<char>) -> Seq<T>
    decreases s.len(),
{
    if s.len() == 0 {
        seq![x]
    } else if lex_lt(key(x), key(s[0])) {
        seq![x] + s
    } else {
        seq![s[0]] + insert_sorted(x, s.drop_first(), key)
    }
}

/// Stable insertion sort by key, in lexicographic code point order.
pub open spec fn sort_by<T>(s: Seq<T>, key: spec_fn(T) -> Seq<char>) -> Seq<T>
    decreases s.len(),
{
    if s.len() == 0 {
        Seq::<T>::empty()
    } else {
        insert_sorted(s.last(), sort_by(s.drop_last(), key), key)
    }
}

/// Inserting at the first index whose key orders strictly above the new
/// key is what `insert_sorted` does.
proof fn lemma_insert_sorted_at<T>(x: T, s: Seq<T>, key: spec_fn(T) -> Seq<char>, idx: int)
    requires
        0 <= idx <= s.len(),
        forall|k: int| 0 <= k < idx ==> !lex_lt(key(x), key(#[trigger] s[k])),
        idx == s.len() || lex_lt(key(x), key(s[idx])),
    ensures
        insert_sorted(x, s, key) == s.insert(idx, x),
    decreases s.len(),
{
    if s.len() == 0 {
        assert(insert_sorted(x, s, key) =~= s.insert(0, x));
    } else if lex_lt(key(x), key(s[0])) {
        assert(idx == 0);
        assert(seq![x] + s =~= s.insert(0, x));
    } else {
        assert(idx >= 1);
        lemma_insert_sorted_at(x, s.drop_first(), key, idx - 1);
        assert(seq![s[0]] + s.drop_first().insert(idx - 1, x) =~= s.insert(idx, x));
    }
}

pub open spec fn field_key() -> spec_fn(FieldModel) -> Seq<char> {
    |f: FieldModel| f.name
}

pub open spec fn method_key() -> spec_fn(MethodModel) -> Seq<char> {
    |m: MethodModel| m.name
}

pub open spec fn decl_key() -> spec_fn(DeclModel) -> Seq<char> {
    |d: DeclModel| decl_name(d)
}

fn clone_field(f: &TypescriptField) -> (r: TypescriptField)
    ensures
        r@ == f@,
{
    TypescriptField {
        name: f.name.clone(),
        ts_type: f.ts_type.clone(),
        optional: f.optional,
        doc: match &f.doc {
            Some(d) => Some(d.clone()),
            None => None,
        },
    }
}

fn sorted_fields(fields: &Vec<TypescriptField>) -> (r: Vec<TypescriptField>)
    ensures
        r@.map_values(|f: TypescriptField| f@) == sort_by(
            fields@.map_values(|f: TypescriptField| f@),
            field_key(),
        ),
{
    let ghost models = fields@.map_values(|f: TypescriptField| f@);
    let mut out: Vec<TypescriptField> = Vec::new();
    proof {
        assert(models.take(0) =~= Seq::<FieldModel>::empty());
        assert(out@.map_values(|f: TypescriptField| f@) =~= sort_by(models.take(0), field_key()));
    }
    let mut i: usize = 0;
    while i < fields.len()
        invariant
            i <= fields@.len(),
            models == fields@.map_values(|f: TypescriptField| f@),
            models.len() == fields@.len(),
            out@.map_values(|f: TypescriptField| f@) == sort_by(models.take(i as int), field_key()),
        decreases fields@.len() - i,
    {
        let x = clone_field(&fields[i]);
        let ghost out_models = out@.map_values(|f: TypescriptField| f@);
        let mut idx: usize = 0;
        while idx < out.len() && str_leq(out[idx].name.as_str(), x.name.as_str())
            invariant
                idx <= out@.len(),
                x@ == models[i as int],
                out_models == out@.map_values(|f: TypescriptField| f@),
                forall|k: int| 0 <= k < idx ==> !lex_lt(x@.name, #[trigger] out_models[k].name),
            decreases out@.len() - idx,
        {
            proof {
                assert(out_models[idx as int] == out@[idx as int]@);
            }
            idx = idx + 1;
        }
        proof {
            assert(idx < out@.len() ==> out_models[idx as int] == out@[idx as int]@);
            lemma_insert_sorted_at(x@, out_models, field_key(), idx as int);
        }
        out.insert(idx, x);
        proof {
            assert(out@.map_values(|f: TypescriptField| f@) =~= out_models.insert(
                idx as int,
                models[i as int],
            ));
            assert(models.take(i + 1).drop_last() =~= models.take(i as int));
            assert(models.take(i + 1).last() == models[i as int]);
        }
        i = i + 1;
    }
    proof {
        assert(models.take(models.len() as int) =~= models);
    }
    out
}

fn clone_method(m: &TypescriptMethod) -> (r: TypescriptMethod)
    ensures
        r@ == m@,
{
    let mut params: Vec<TypescriptParam> = Vec::new();
    let mut j: usize = 0;
    while j < m.params.len()
        invariant
            j <= m.params@.len(),
            params@.len() == j,
            forall|k: int| 0 <= k < j ==> #[trigger] params@[k]@ == m.params@[k]@,
        decreases m.params@.len() - j,
    {
        let p = &m.params[j];
        params.push(TypescriptParam { name: p.name.clone(), ts_type: p.ts_type.clone() });
        j = j + 1;
    }
    proof {
        assert(params@.map_values(|p: TypescriptParam| p@) =~= m.params@.map_values(
            |p: TypescriptParam| p@,
        ));
    }
    TypescriptMethod {
        name: m.name.clone(),
        params,
        return_type: m.return_type.clone(),
        doc: match &m.doc {
            Some(d) => Some(d.clone()),
            None => None,
        },
    }
}

fn sorted_methods(methods: &Vec<TypescriptMethod>) -> (r: Vec<TypescriptMethod>)
    ensures
        r@.map_values(|m: TypescriptMethod| m@) == sort_by(
            methods@.map_values(|m: TypescriptMethod| m@),
            method_key(),
        ),
{
    let ghost models = methods@.map_values(|m: TypescriptMethod| m@);
    let mut out: Vec<TypescriptMethod> = Vec::new();
    proof {
        assert(models.take(0) =~= Seq::<MethodModel>::empty());
        assert(out@.map_values(|m: TypescriptMethod| m@) =~= sort_by(
            models.take(0),
            method_key(),
        ));
    }
    let mut i: usize = 0;
    while i < methods.len()
        invariant
            i <= methods@.len(),
            models == methods@.map_values(|m: TypescriptMethod| m@),
            models.len() == methods@.len(),
            out@.map_values(|m: TypescriptMethod| m@) == sort_by(
                models.take(i as int),
                method_key(),
            ),
        decreases methods@.len() - i,
    {
        let x = clone_method(&methods[i]);
        let ghost out_models = out@.map_values(|m: TypescriptMethod| m@);
        let mut idx: usize = 0;
        while idx < out.len() && str_leq(out[idx].name.as_str(), x.name.as_str())
            invariant
                idx <= out@.len(),
                x@ == models[i as int],
                out_models == out@.map_values(|m: TypescriptMethod| m@),
                forall|k: int| 0 <= k < idx ==> !lex_lt(x@.name, #[trigger] out_models[k].name),
            decreases out@.len() - idx,
        {
            proof {
                assert(out_models[idx as int] == out@[idx as int]@);
            }
            idx = idx + 1;
        }
        proof {
            assert(idx < out@.len() ==> out_models[idx as int] == out@[idx as int]@);
            lemma_insert_sorted_at(x@, out_models, method_key(), idx as int);
        }
        out.insert(idx, x);
        proof {
            assert(out@.map_values(|m: TypescriptMethod| m@) =~= out_models.insert(
                idx as int,
                models[i as int],
            ));
            assert(models.take(i + 1).drop_last() =~= models.take(i as int));
            assert(models.take(i + 1).last() == models[i as int]);
        }
        i = i + 1;
    }
    proof {
        assert(models.take(models.len() as int) =~= models);
    }
    out
}

fn sorted_decls(decls: &Vec<TypescriptType>) -> (r: Vec<TypescriptType>)
    ensures
        r@.map_values(|d: TypescriptType| d@) == sort_by(
            decls@.map_values(|d: TypescriptType| d@),
            decl_key(),
        ),
{
    let ghost models = decls@.map_values(|d: TypescriptType| d@);
    let mut out: Vec<TypescriptType> = Vec::new();
    proof {
        assert(models.take(0) =~= Seq::<DeclModel>::empty());
        assert(out@.map_values(|d: TypescriptType| d@) =~= sort_by(models.take(0), decl_key()));
    }
    let mut i: usize = 0;
    while i < decls.len()
        invariant
            i <= decls@.len(),
            models == decls@.map_values(|d: TypescriptType| d@),
            models.len() == decls@.len(),
            out@.map_values(|d: TypescriptType| d@) == sort_by(models.take(i as int), decl_key()),
        decreases decls@.len() - i,
    {
        let x = crate::extract::clone_decl(&decls[i]);
        let ghost out_models = out@.map_values(|d: TypescriptType| d@);
        let mut idx: usize = 0;
        while idx < out.len() && str_leq(out[idx].name().as_str(), x.name().as_str())
            invariant
                idx <= out@.len(),
                x@ == models[i as int],
                out_models == out@.map_values(|d: TypescriptType| d@),
                forall|k: int|
                    0 <= k < idx ==> !lex_lt(decl_name(x@), decl_name(#[trigger] out_models[k])),
            decreases out@.len() - idx,
        {
            proof {
                assert(out_models[idx as int] == out@[idx as int]@);
            }
            idx = idx + 1;
        }
        proof {
            assert(idx < out@.len() ==> out_models[idx as int] == out@[idx as int]@);
            lemma_insert_sorted_at(x@, out_models, decl_key(), idx as int);
        }
        out.insert(idx, x);
        proof {
            assert(out@.map_values(|d: TypescriptType| d@) =~= out_models.insert(
                idx as int,
                models[i as int],
            ));
            assert(models.take(i + 1).drop_last() =~= models.take(i as int));
            assert(models.take(i + 1).last() == models[i as int]);
        }
        i = i + 1;
    }
    proof {
        assert(models.take(models.len() as int) =~= models);
    }
    out
}

// ---------------------------------------------------------------------------
// Rendering, specified
// ---------------------------------------------------------------------------

/// One field line: its documentation block, then indentation, name, `?` when
/// optional, `: ` and the resolved type text.
pub open spec fn field_line(f: FieldModel) -> Seq<char> {
    doc_block(f.doc) + "    "@ + f.name + (if f.optional {
        "?"@
    } else {
        Seq::<char>::empty()
    }) + ": "@ + f.ts_type + "\n"@
}

pub open spec fn fields_body(fs: Seq<FieldModel>) -> Seq<char>
    decreases fs.len(),
{
    if fs.len() == 0 {
        Seq::<char>::empty()
    } else {
        field_line(fs[0]) + fields_body(fs.drop_first())
    }
}

pub open spec fn param_fragment(p: ParamModel) -> Seq<char> {
    p.name + ": "@ + p.ts_type
}

pub open spec fn params_joined(ps: Seq<ParamModel>) -> Seq<char>
    decreases ps.len(),
{
    if ps.len() == 0 {
        Seq::<char>::empty()
    } else if ps.len() == 1 {
        param_fragment(ps[0])
    } else {
        param_fragment(ps[0]) + ", "@ + params_joined(ps.drop_first())
    }
}

/// One method line: its documentation block, then indentation, name, the
/// parameter list and the return type.
pub open spec fn method_line(m: MethodModel) -> Seq<char> {
    doc_block(m.doc) + "    "@ + m.name + "("@ + params_joined(m.params) + "): "@ + m.return_type
        + "\n"@
}

pub open spec fn methods_body(ms: Seq<MethodModel>) -> Seq<char>
    decreases ms.len(),
{
    if ms.len() == 0 {
        Seq::<char>::empty()
    } else {
        method_line(ms[0]) + methods_body(ms.drop_first())
    }
}

/// One declaration's rendering. Fields and methods are sorted by name when
/// the sort flag is set; variant order is always declaration order.
pub open spec fn decl_render(d: DeclModel, sum_types: bool, sort: bool) -> Seq<char> {
    match d {
        DeclModel::Interface { name, fields, doc } => doc_block(doc) + "export interface "@ + name
            + " {\n"@ + fields_body(
            if sort {
                sort_by(fields, field_key())
            } else {
                fields
            },
        ) + "}\n"@,
        DeclModel::Enum { name, variants, doc } => doc_block(doc) + (if sum_types {
            "export type "@ + name + " ="@ + union_body(variants, true) + ";\n"@
        } else {
            "export enum "@ + name + " {\n"@ + enum_body(variants, 0) + "}\n"@
        }),
        DeclModel::Trait { name, methods, doc } => doc_block(doc) + "export interface "@ + name
            + " {\n"@ + methods_body(
            if sort {
                sort_by(methods, method_key())
            } else {
                methods
            },
        ) + "}\n"@,
    }
}

/// The declarations' renderings in order, one blank line after each.
pub open spec fn decls_render(ds: Seq<DeclModel>, sum_types: bool, sort: bool) -> Seq<char>
    decreases ds.len(),
{
    if ds.len() == 0 {
        Seq::<char>::empty()
    } else {
        decl_render(ds[0], sum_types, sort) + "\n"@ + decls_render(ds.drop_first(), sum_types, sort)
    }
}

/// The whole output: the preamble, the namespace opening, the declarations
/// (in insertion order, or sorted by name when the sort flag is set), and
/// the namespace closing.
pub open spec fn render_output(decls: Seq<DeclModel>, opts: OptionsModel) -> Seq<char> {
    (match opts.preamble {
        Some(p) => p + "\n"@,
        None => Seq::<char>::empty(),
    }) + (match opts.namespace {
        Some(ns) => "export namespace "@ + ns + " {\n"@,
        None => Seq::<char>::empty(),
    }) + decls_render(
        if opts.sort {
            sort_by(decls, decl_key())
        } else {
            decls
        },
        opts.sum_types,
        opts.sort,
    ) + (match opts.namespace {
        Some(_) => " }\n"@,
        None => Seq::<char>::empty(),
    })
}

// ---------------------------------------------------------------------------
// Rendering, executable
// ---------------------------------------------------------------------------

fn append_doc(out: &mut String, doc: &Option<String>)
    ensures
        final(out)@ == old(out)@ + doc_block(doc_view(*doc)),
{
    match doc {
        Some(d) => {
            out.append("/**\n * ");
            out.append(d.as_str());
            out.append("\n */\n");
        },
        None => {},
    }
}

#[verifier::rlimit(60)]
fn append_fields(out: &mut String, fields: &Vec<TypescriptField>)
    ensures
        final(out)@ == old(out)@ + fields_body(fields@.map_values(|f: TypescriptField| f@)),
{
    let ghost models = fields@.map_values(|f: TypescriptField| f@);
    let ghost head0 = out@;
    proof {
        assert(models.skip(0) =~= models);
    }
    let mut j: usize = 0;
    while j < fields.len()
        invariant
            j <= fields@.len(),
            models == fields@.map_values(|f: TypescriptField| f@),
            models.len() == fields@.len(),
            head0 + fields_body(models) == out@ + fields_body(models.skip(j as int)),
        decreases fields@.len() - j,
    {
        proof {
            assert(models.skip(j as int).drop_first() =~= models.skip(j + 1));
            assert(models.skip(j as int)[0] == models[j as int]);
            assert(models[j as int] == fields@[j as int]@);
        }
        let ghost out_prev = out@;
        let f = &fields[j];
        append_doc(out, &f.doc);
        out.append("    ");
        out.append(f.name.as_str());
        if f.optional {
            out.append("?");
        }
        out.append(": ");
        out.append(f.ts_type.as_str());
        out.append("\n");
        proof {
            assert(out@ =~= out_prev + field_line(models[j as int]));
            assert(out_prev + (field_line(models[j as int]) + fields_body(models.skip(j + 1)))
                =~= out@ + fields_body(models.skip(j + 1)));
        }
        j = j + 1;
    }
    proof {
        assert(models.skip(models.len() as int) =~= Seq::<FieldModel>::empty());
    }
}

#[verifier::rlimit(60)]
fn append_methods(out: &mut String, methods: &Vec<TypescriptMethod>)
    ensures
        final(out)@ == old(out)@ + methods_body(methods@.map_values(|m: TypescriptMethod| m@)),
{
    let ghost models = methods@.map_values(|m: TypescriptMethod| m@);
    let ghost head0 = out@;
    proof {
        assert(models.skip(0) =~= models);
    }
    let mut j: usize = 0;
    while j < methods.len()
        invariant
            j <= methods@.len(),
            models == methods@.map_values(|m: TypescriptMethod| m@),
            models.len() == methods@.len(),
            head0 + methods_body(models) == out@ + methods_body(models.skip(j as int)),
        decreases methods@.len() - j,
    {
        proof {
            assert(models.skip(j as int).drop_first() =~= models.skip(j + 1));
            assert(models.skip(j as int)[0] == models[j as int]);
            assert(models[j as int] == methods@[j as int]@);
        }
        let m = &methods[j];
        append_doc(out, &m.doc);
        out.append("    ");
        out.append(m.name.as_str());
        out.append("(");
        let ghost pmodels = m.params@.map_values(|p: TypescriptParam| p@);
        let ghost phead = out@;
        proof {
            assert(pmodels.skip(0) =~= pmodels);
        }
        let mut k: usize = 0;
        while k < m.params.len()
            invariant
                k <= m.params@.len(),
                pmodels == m.params@.map_values(|p: TypescriptParam| p@),
                pmodels.len() == m.params@.len(),
                phead + params_joined(pmodels) == out@ + (if k == 0 {
                    params_joined(pmodels)
                } else {
                    if k < pmodels.len() {
                        ", "@ + params_joined(pmodels.skip(k as int))
                    } else {
                        Seq::<char>::empty()
                    }
                }),
            decreases m.params@.len() - k,
        {
            proof {
                assert(pmodels.skip(k as int).drop_first() =~= pmodels.skip(k + 1));
                assert(pmodels.skip(k as int)[0] == pmodels[k as int]);
                assert(pmodels[k as int] == m.params@[k as int]@);
            }
            if k > 0 {
                out.append(", ");
            }
            let p = &m.params[k];
            out.append(p.name.as_str());
            out.append(": ");
            out.append(p.ts_type.as_str());
            k = k + 1;
        }
        proof {
            if pmodels.len() > 0 {
                assert(pmodels.skip(pmodels.len() as int) =~= Seq::<ParamModel>::empty());
            }
        }
        out.append("): ");
        out.append(m.return_type.as_str());
        out.append("\n");
        j = j + 1;
    }
    proof {
        assert(models.skip(models.len() as int) =~= Seq::<MethodModel>::empty());
    }
}

/// Renders one declaration into the output.
#[verifier::rlimit(100)]
fn append_decl(out: &mut String, d: &TypescriptType, sum_types: bool, sort: bool)
    ensures
        final(out)@ == old(out)@ + decl_render(d@, sum_types, sort),
{
    match d {
        TypescriptType::Interface { name, fields, doc } => {
            append_doc(out, doc);
            out.append("export interface ");
            out.append(name.as_str());
            out.append(" {\n");
            if sort {
                let sorted = sorted_fields(fields);
                append_fields(out, &sorted);
            } else {
                append_fields(out, fields);
            }
            out.append("}\n");
        },
        TypescriptType::Enum { name, variants, doc } => {
            append_doc(out, doc);
            if sum_types {
                out.append("export type ");
                out.append(name.as_str());
                out.append(" =");
                append_union_variants(out, variants);
                out.append(";\n");
            } else {
                out.append("export enum ");
                out.append(name.as_str());
                out.append(" {\n");
                append_enum_variants(out, variants);
                out.append("}\n");
            }
        },
        TypescriptType::Trait { name, methods, doc } => {
            append_doc(out, doc);
            out.append("export interface ");
            out.append(name.as_str());
            out.append(" {\n");
            if sort {
                let sorted = sorted_methods(methods);
                append_methods(out, &sorted);
            } else {
                append_methods(out, methods);
            }
            out.append("}\n");
        },
    }
}

#[verifier::rlimit(60)]
fn append_decls(out: &mut String, decls: &Vec<TypescriptType>, sum_types: bool, sort: bool)
    ensures
        final(out)@ == old(out)@ + decls_render(
            decls@.map_values(|d: TypescriptType| d@),
            sum_types,
            sort,
        ),
{
    let ghost models = decls@.map_values(|d: TypescriptType| d@);
    let ghost head0 = out@;
    proof {
        assert(models.skip(0) =~= models);
    }
    let mut j: usize = 0;
    while j < decls.len()
        invariant
            j <= decls@.len(),
            models == decls@.map_values(|d: TypescriptType| d@),
            models.len() == decls@.len(),
            head0 + decls_render(models, sum_types, sort) == out@ + decls_render(
                models.skip(j as int),
                sum_types,
                sort,
            ),
        decreases decls@.len() - j,
    {
        proof {
            assert(models.skip(j as int).drop_first() =~= models.skip(j + 1));
            assert(models.skip(j as int)[0] == models[j as int]);
            assert(models[j as int] == decls@[j as int]@);
        }
        append_decl(out, &decls[j], sum_types, sort);
        out.append("\n");
        j = j + 1;
    }
    proof {
        assert(models.skip(models.len() as int) =~= Seq::<DeclModel>::empty());
    }
}

/// The TypeScript code generator.
#[derive(Debug)]
pub struct Generator {
    pub options: GeneratorOptions,
}

impl Generator {
    pub fn new(options: GeneratorOptions) -> (r: Self)
        ensures
            r.options == options,
    {
        Generator { options }
    }

    /// Renders the declaration mapping into TypeScript source text:
    /// preamble, namespace opening, the declarations in deterministic order,
    /// namespace closing. Rendering builds the text in memory and cannot
    /// fail.
    pub fn generate(&self, types: &TypeMap) -> (r: String)
        ensures
            r@ == render_output(types@, self.options@),
    {
        let mut out = String::new();
        match &self.options.preamble {
            Some(p) => {
                out.append(p.as_str());
                out.append("\n");
            },
            None => {},
        }
        match &self.options.namespace {
            Some(ns) => {
                out.append("export namespace ");
                out.append(ns.as_str());
                out.append(" {\n");
            },
            None => {},
        }
        let items = types.items();
        if self.options.sort_alphabetically {
            let ordered = sorted_decls(items);
            append_decls(
                &mut out,
                &ordered,
                self.options.generate_enums_as_sum_types,
                self.options.sort_alphabetically,
            );
        } else {
            append_decls(
                &mut out,
                items,
                self.options.generate_enums_as_sum_types,
                self.options.sort_alphabetically,
            );
        }
        match &self.options.namespace {
            Some(_) => {
                out.append(" }\n");
            },
            None => {},
        }
        out
    }
}

/// Renders a declaration mapping with the given options.
pub fn generate(types: &TypeMap, options: GeneratorOptions) -> (r: String)
    ensures
        r@ == render_output(types@, options@),
{
    let generator = Generator::new(options);
    generator.generate(types)
}

} // verus!
