//! TypeScript type expressions and their textual rendering.

use vstd::prelude::*;
use vstd::string::*;

verus! {

/// TypeScript primitive types.
#[derive(Debug, Clone, PartialEq)]
pub enum TsPrimitive {
    String,
    Number,
    Boolean,
    Any,
    Void,
    Null,
    Undefined,
}

/// The keyword a primitive renders as.
pub open spec fn primitive_text(p: TsPrimitive) -> Seq<char> {
    match p {
        TsPrimitive::String => "string"@,
        TsPrimitive::Number => "number"@,
        TsPrimitive::Boolean => "boolean"@,
        TsPrimitive::Any => "any"@,
        TsPrimitive::Void => "void"@,
        TsPrimitive::Null => "null"@,
        TsPrimitive::Undefined => "undefined"@,
    }
}

impl TsPrimitive {
    pub fn as_str(&self) -> (r: &'static str)
        ensures
            r@ == primitive_text(*self),
    {
        match self {
            TsPrimitive::String => "string",
            TsPrimitive::Number => "number",
            TsPrimitive::Boolean => "boolean",
            TsPrimitive::Any => "any",
            TsPrimitive::Void => "void",
            TsPrimitive::Null => "null",
            TsPrimitive::Undefined => "undefined",
        }
    }
}

/// A TypeScript type expression. The tree owns its nested types exclusively:
/// cross-references to other declarations appear by name only, as
/// `Reference`.
#[derive(Debug, PartialEq)]
pub enum TsType {
    Primitive(TsPrimitive),
    Array(Box<TsType>),
    Object(Vec<TsProperty>),
    Union(Vec<TsType>),
    Reference(String),
    Function { params: Vec<TsParameter>, return_type: Box<TsType> },
    Generic { base: String, args: Vec<TsType> },
}

/// A property of an object type.
#[derive(Debug, PartialEq)]
pub struct TsProperty {
    pub name: String,
    pub ts_type: TsType,
    pub optional: bool,
    pub readonly: bool,
}

/// A parameter of a function type.
#[derive(Debug, PartialEq)]
pub struct TsParameter {
    pub name: String,
    pub ts_type: TsType,
    pub optional: bool,
}

/// The textual rendering of a type expression.
pub open spec fn ts_text(t: TsType) -> Seq<char>
    decreases t,
{
    match t {
        TsType::Primitive(p) => primitive_text(p),
        TsType::Array(inner) => ts_text(*inner) + "[]"@,
        TsType::Object(props) => "{ "@ + props_text(props@) + " }"@,
        TsType::Union(members) => types_joined(members@, " | "@),
        TsType::Reference(name) => name@,
        TsType::Function { params, return_type } => "("@ + params_text(params@) + ") => "@
            + ts_text(*return_type),
        TsType::Generic { base, args } => base@ + "<"@ + types_joined(args@, ", "@) + ">"@,
    }
}

/// One object property line: `readonly`, name, `?`, `: `, type.
pub open spec fn prop_text(p: TsProperty) -> Seq<char>
    decreases p,
{
    (if p.readonly {
        "readonly "@
    } else {
        Seq::<char>::empty()
    }) + p.name@ + (if p.optional {
        "?"@
    } else {
        Seq::<char>::empty()
    }) + ": "@ + ts_text(p.ts_type)
}

/// Object properties joined by `", "`.
pub open spec fn props_text(props: Seq<TsProperty>) -> Seq<char>
    decreases props,
{
    if props.len() == 0 {
        Seq::<char>::empty()
    } else if props.len() == 1 {
        prop_text(props[0])
    } else {
        prop_text(props[0]) + ", "@ + props_text(props.drop_first())
    }
}

/// One function parameter: name, `?`, `: `, type.
pub open spec fn param_text(p: TsParameter) -> Seq<char>
    decreases p,
{
    p.name@ + (if p.optional {
        "?"@
    } else {
        Seq::<char>::empty()
    }) + ": "@ + ts_text(p.ts_type)
}

/// Function parameters joined by `", "`.
pub open spec fn params_text(params: Seq<TsParameter>) -> Seq<char>
    decreases params,
{
    if params.len() == 0 {
        Seq::<char>::empty()
    } else if params.len() == 1 {
        param_text(params[0])
    } else {
        param_text(params[0]) + ", "@ + params_text(params.drop_first())
    }
}

/// Type expressions joined by a separator.
pub open spec fn types_joined(members: Seq<TsType>, sep: Seq<char>) -> Seq<char>
    decreases members,
{
    if members.len() == 0 {
        Seq::<char>::empty()
    } else if members.len() == 1 {
        ts_text(members[0])
    } else {
        ts_text(members[0]) + sep + types_joined(members.drop_first(), sep)
    }
}

proof fn lemma_props_text_push(props: Seq<TsProperty>, p: TsProperty)
    ensures
        props.len() == 0 ==> props_text(props.push(p)) == prop_text(p),
        props.len() > 0 ==> props_text(props.push(p)) == props_text(props) + ", "@ + prop_text(p),
    decreases props.len(),
{
    if props.len() == 0 {
        assert(props.push(p)[0] == p);
    } else {
        lemma_props_text_push(props.drop_first(), p);
        assert(props.push(p).drop_first() =~= props.drop_first().push(p));
        if props.len() == 1 {
            assert(props_text(props.push(p)) == prop_text(props[0]) + ", "@ + prop_text(p));
        }
    }
}

proof fn lemma_params_text_push(params: Seq<TsParameter>, p: TsParameter)
    ensures
        params.len() == 0 ==> params_text(params.push(p)) == param_text(p),
        params.len() > 0 ==> params_text(params.push(p)) == params_text(params) + ", "@
            + param_text(p),
    decreases params.len(),
{
    if params.len() == 0 {
        assert(params.push(p)[0] == p);
    } else {
        lemma_params_text_push(params.drop_first(), p);
        assert(params.push(p).drop_first() =~= params.drop_first().push(p));
    }
}

proof fn lemma_types_joined_push(members: Seq<TsType>, t: TsType, sep: Seq<char>)
    ensures
        members.len() == 0 ==> types_joined(members.push(t), sep) == ts_text(t),
        members.len() > 0 ==> types_joined(members.push(t), sep) == types_joined(members, sep)
            + sep + ts_text(t),
    decreases members.len(),
{
    if members.len() == 0 {
        assert(members.push(t)[0] == t);
    } else {
        lemma_types_joined_push(members.drop_first(), t, sep);
        assert(members.push(t).drop_first() =~= members.drop_first().push(t));
    }
}

fn render_object(props: &Vec<TsProperty>) -> (r: String)
    ensures
        r@ == "{ "@ + props_text(props@) + " }"@,
    decreases *props,
{
    let mut s = String::from_str("{ ");
    let mut i: usize = 0;
    #[verifier::loop_isolation(false)]
    while i < props.len()
        invariant
            i <= props@.len(),
            s@ == "{ "@ + props_text(props@.take(i as int)),
        decreases props@.len() - i,
    {
        if i > 0 {
            s.append(", ");
        }
        let p = &props[i];
        if p.readonly {
            s.append("readonly ");
        }
        s.append(p.name.as_str());
        if p.optional {
            s.append("?");
        }
        s.append(": ");
        let t = (&p.ts_type).to_typescript();
        s.append(t.as_str());
        proof {
            lemma_props_text_push(props@.take(i as int), props@[i as int]);
            assert(props@.take(i as int).push(props@[i as int]) =~= props@.take(i + 1));
            assert(s@ == "{ "@ + props_text(props@.take(i + 1)));
        }
        i = i + 1;
    }
    proof {
        assert(props@.take(props@.len() as int) =~= props@);
    }
    s.append(" }");
    s
}

fn render_joined(members: &Vec<TsType>, sep: &str, head: String) -> (r: String)
    requires
        sep@ == " | "@ || sep@ == ", "@,
    ensures
        r@ == head@ + types_joined(members@, sep@),
    decreases *members,
{
    let mut s = head;
    let mut i: usize = 0;
    #[verifier::loop_isolation(false)]
    while i < members.len()
        invariant
            i <= members@.len(),
            s@ == head@ + types_joined(members@.take(i as int), sep@),
        decreases members@.len() - i,
    {
        if i > 0 {
            s.append(sep);
        }
        let t = (&members[i]).to_typescript();
        s.append(t.as_str());
        proof {
            lemma_types_joined_push(members@.take(i as int), members@[i as int], sep@);
            assert(members@.take(i as int).push(members@[i as int]) =~= members@.take(i + 1));
        }
        i = i + 1;
    }
    proof {
        assert(members@.take(members@.len() as int) =~= members@);
    }
    s
}

fn render_params(params: &Vec<TsParameter>) -> (r: String)
    ensures
        r@ == "("@ + params_text(params@) + ") => "@,
    decreases *params,
{
    let mut s = String::from_str("(");
    let mut i: usize = 0;
    #[verifier::loop_isolation(false)]
    while i < params.len()
        invariant
            i <= params@.len(),
            s@ == "("@ + params_text(params@.take(i as int)),
        decreases params@.len() - i,
    {
        if i > 0 {
            s.append(", ");
        }
        let p = &params[i];
        s.append(p.name.as_str());
        if p.optional {
            s.append("?");
        }
        s.append(": ");
        let t = (&p.ts_type).to_typescript();
        s.append(t.as_str());
        proof {
            lemma_params_text_push(params@.take(i as int), params@[i as int]);
            assert(params@.take(i as int).push(params@[i as int]) =~= params@.take(i + 1));
        }
        i = i + 1;
    }
    proof {
        assert(params@.take(params@.len() as int) =~= params@);
    }
    s.append(") => ");
    s
}

impl TsType {
    /// Renders the type expression as TypeScript source text.
    pub fn to_typescript(&self) -> (r: String)
        ensures
            r@ == ts_text(*self),
        decreases *self,
    {
        match self {
            TsType::Primitive(p) => String::from_str(p.as_str()),
            TsType::Array(inner) => {
                let mut s = (&**inner).to_typescript();
                s.append("[]");
                s
            },
            TsType::Object(props) => render_object(props),
            TsType::Union(members) => render_joined(members, " | ", String::new()),
            TsType::Reference(name) => name.clone(),
            TsType::Function { params, return_type } => {
                let mut s = render_params(params);
                let rt = (&**return_type).to_typescript();
                s.append(rt.as_str());
                s
            },
            TsType::Generic { base, args } => {
                let mut head = base.clone();
                head.append("<");
                let mut s = render_joined(args, ", ", head);
                s.append(">");
                s
            },
        }
    }

    /// A copy of the type expression: the tree is rebuilt node by node and
    /// renders identically. (A derived `Clone` is not available on this
    /// recursive type.)
    pub fn duplicate(&self) -> (r: TsType)
        ensures
            ts_text(r) == ts_text(*self),
        decreases *self,
    {
        match self {
            TsType::Primitive(p) => TsType::Primitive(duplicate_primitive(p)),
            TsType::Array(inner) => TsType::Array(Box::new((&**inner).duplicate())),
            TsType::Object(props) => TsType::Object(duplicate_props(props)),
            TsType::Union(members) => {
                let ms = duplicate_types(members);
                proof {
                    lemma_types_joined_congruent(ms@, members@, " | "@);
                }
                TsType::Union(ms)
            },
            TsType::Reference(name) => TsType::Reference(name.clone()),
            TsType::Function { params, return_type } => TsType::Function {
                params: duplicate_params(params),
                return_type: Box::new((&**return_type).duplicate()),
            },
            TsType::Generic { base, args } => {
                let ms = duplicate_types(args);
                proof {
                    lemma_types_joined_congruent(ms@, args@, ", "@);
                }
                TsType::Generic { base: base.clone(), args: ms }
            },
        }
    }

    /// The `string` primitive.
    pub fn string() -> (r: Self)
        ensures
            r == TsType::Primitive(TsPrimitive::String),
    {
        TsType::Primitive(TsPrimitive::String)
    }

    /// The `number` primitive.
    pub fn number() -> (r: Self)
        ensures
            r == TsType::Primitive(TsPrimitive::Number),
    {
        TsType::Primitive(TsPrimitive::Number)
    }

    /// The `boolean` primitive.
    pub fn boolean() -> (r: Self)
        ensures
            r == TsType::Primitive(TsPrimitive::Boolean),
    {
        TsType::Primitive(TsPrimitive::Boolean)
    }

    /// An array of the given element type.
    pub fn array(inner: TsType) -> (r: Self)
        ensures
            r is Array && *r->Array_0 == inner,
    {
        TsType::Array(Box::new(inner))
    }

    /// A reference to another declared type, by name.
    pub fn reference(name: String) -> (r: Self)
        ensures
            r == TsType::Reference(name),
    {
        TsType::Reference(name)
    }

    /// The type made optional: a union with `undefined`.
    pub fn optional(self) -> (r: Self)
        ensures
            r is Union && r->Union_0@ == seq![self, TsType::Primitive(TsPrimitive::Undefined)],
    {
        let r = TsType::Union(vec![self, TsType::Primitive(TsPrimitive::Undefined)]);
        proof {
            assert(r->Union_0@ =~= seq![self, TsType::Primitive(TsPrimitive::Undefined)]);
        }
        r
    }
}

fn duplicate_primitive(p: &TsPrimitive) -> (r: TsPrimitive)
    ensures
        r == *p,
{
    match p {
        TsPrimitive::String => TsPrimitive::String,
        TsPrimitive::Number => TsPrimitive::Number,
        TsPrimitive::Boolean => TsPrimitive::Boolean,
        TsPrimitive::Any => TsPrimitive::Any,
        TsPrimitive::Void => TsPrimitive::Void,
        TsPrimitive::Null => TsPrimitive::Null,
        TsPrimitive::Undefined => TsPrimitive::Undefined,
    }
}

proof fn lemma_props_text_congruent(a: Seq<TsProperty>, b: Seq<TsProperty>)
    requires
        a.len() == b.len(),
        forall|k: int| 0 <= k < a.len() ==> prop_text(#[trigger] a[k]) == prop_text(b[k]),
    ensures
        props_text(a) == props_text(b),
    decreases a.len(),
{
    if a.len() > 0 {
        assert forall|k: int| 0 <= k < a.drop_first().len() implies prop_text(
            #[trigger] a.drop_first()[k],
        ) == prop_text(b.drop_first()[k]) by {
            assert(a.drop_first()[k] == a[k + 1]);
            assert(b.drop_first()[k] == b[k + 1]);
        }
        lemma_props_text_congruent(a.drop_first(), b.drop_first());
    }
}

proof fn lemma_params_text_congruent(a: Seq<TsParameter>, b: Seq<TsParameter>)
    requires
        a.len() == b.len(),
        forall|k: int| 0 <= k < a.len() ==> param_text(#[trigger] a[k]) == param_text(b[k]),
    ensures
        params_text(a) == params_text(b),
    decreases a.len(),
{
    if a.len() > 0 {
        assert forall|k: int| 0 <= k < a.drop_first().len() implies param_text(
            #[trigger] a.drop_first()[k],
        ) == param_text(b.drop_first()[k]) by {
            assert(a.drop_first()[k] == a[k + 1]);
            assert(b.drop_first()[k] == b[k + 1]);
        }
        lemma_params_text_congruent(a.drop_first(), b.drop_first());
    }
}

proof fn lemma_types_joined_congruent(a: Seq<TsType>, b: Seq<TsType>, sep: Seq<char>)
    requires
        a.len() == b.len(),
        forall|k: int| 0 <= k < a.len() ==> ts_text(#[trigger] a[k]) == ts_text(b[k]),
    ensures
        types_joined(a, sep) == types_joined(b, sep),
    decreases a.len(),
{
    if a.len() > 0 {
        assert forall|k: int| 0 <= k < a.drop_first().len() implies ts_text(
            #[trigger] a.drop_first()[k],
        ) == ts_text(b.drop_first()[k]) by {
            assert(a.drop_first()[k] == a[k + 1]);
            assert(b.drop_first()[k] == b[k + 1]);
        }
        lemma_types_joined_congruent(a.drop_first(), b.drop_first(), sep);
    }
}

fn duplicate_props(props: &Vec<TsProperty>) -> (r: Vec<TsProperty>)
    ensures
        props_text(r@) == props_text(props@),
    decreases *props,
{
    let mut out: Vec<TsProperty> = Vec::new();
    let mut j: usize = 0;
    while j < props.len()
        invariant
            j <= props@.len(),
            out@.len() == j,
            forall|k: int| 0 <= k < j ==> prop_text(#[trigger] out@[k]) == prop_text(props@[k]),
        decreases props@.len() - j,
    {
        let p = &props[j];
        let t = (&p.ts_type).duplicate();
        let q = TsProperty {
            name: p.name.clone(),
            ts_type: t,
            optional: p.optional,
            readonly: p.readonly,
        };
        proof {
            assert(prop_text(q) == prop_text(props@[j as int]));
        }
        out.push(q);
        j = j + 1;
    }
    proof {
        lemma_props_text_congruent(out@, props@);
    }
    out
}

fn duplicate_params(params: &Vec<TsParameter>) -> (r: Vec<TsParameter>)
    ensures
        params_text(r@) == params_text(params@),
    decreases *params,
{
    let mut out: Vec<TsParameter> = Vec::new();
    let mut j: usize = 0;
    while j < params.len()
        invariant
            j <= params@.len(),
            out@.len() == j,
            forall|k: int| 0 <= k < j ==> param_text(#[trigger] out@[k]) == param_text(params@[k]),
        decreases params@.len() - j,
    {
        let p = &params[j];
        let t = (&p.ts_type).duplicate();
        let q = TsParameter { name: p.name.clone(), ts_type: t, optional: p.optional };
        proof {
            assert(param_text(q) == param_text(params@[j as int]));
        }
        out.push(q);
        j = j + 1;
    }
    proof {
        lemma_params_text_congruent(out@, params@);
    }
    out
}

fn duplicate_types(members: &Vec<TsType>) -> (r: Vec<TsType>)
    ensures
        r@.len() == members@.len(),
        forall|k: int| 0 <= k < members@.len() ==> ts_text(#[trigger] r@[k]) == ts_text(
            members@[k],
        ),
    decreases *members,
{
    let mut out: Vec<TsType> = Vec::new();
    let mut j: usize = 0;
    while j < members.len()
        invariant
            j <= members@.len(),
            out@.len() == j,
            forall|k: int| 0 <= k < j ==> ts_text(#[trigger] out@[k]) == ts_text(members@[k]),
        decreases members@.len() - j,
    {
        let t = (&members[j]).duplicate();
        out.push(t);
        j = j + 1;
    }
    out
}

} // verus!
