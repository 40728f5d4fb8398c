//! Laws of the library, proved over the extraction and rendering
//! specifications.

use crate::enums::{
    enum_body, enum_render, enum_variant_line, union_body, union_variant_text, ExtractedEnumModel,
    VariantModel,
};
use crate::extract::{
    attr_named, decl_name, field_model, interface_fields, map_contains, map_index_of, map_insert,
    map_wf, method_params_from, resolve_type, DeclModel,
};
use crate::generator::{decl_render, insert_sorted, sort_by};
use crate::host::{HostArg, HostField, HostParam, HostType};
use crate::text::{
    contains_seq, dec_nat, lemma_lex_lt_trans, lex_leq, lex_lt,
};
use vstd::prelude::*;

verus! {

// ---------------------------------------------------------------------------
// Record fields
// ---------------------------------------------------------------------------

/// The named fields of a record, in declaration order.
pub open spec fn named_fields(fs: Seq<HostField>) -> Seq<HostField>
    decreases fs.len(),
{
    if fs.len() == 0 {
        Seq::<HostField>::empty()
    } else {
        let rest = named_fields(fs.drop_first());
        if fs[0].name is Some {
            seq![fs[0]] + rest
        } else {
            rest
        }
    }
}

/// Law: an interface extracted from a record holds exactly one field for
/// each named host field, in declaration order, and each is the extraction
/// of that field — so a record with N named fields yields exactly N field
/// lines, each exactly once.
pub proof fn lemma_interface_fields_exact(fs: Seq<HostField>)
    ensures
        interface_fields(fs).len() == named_fields(fs).len(),
        forall|i: int|
            0 <= i < interface_fields(fs).len() ==> #[trigger] interface_fields(fs)[i]
                == field_model(named_fields(fs)[i]),
    decreases fs.len(),
{
    if fs.len() == 0 {
    } else {
        lemma_interface_fields_exact(fs.drop_first());
        if fs[0].name is Some {
            assert forall|i: int| 0 <= i < interface_fields(fs).len() implies #[trigger]
            interface_fields(fs)[i] == field_model(named_fields(fs)[i]) by {
                if i > 0 {
                    assert(interface_fields(fs)[i] == interface_fields(fs.drop_first())[i - 1]);
                    assert(named_fields(fs)[i] == named_fields(fs.drop_first())[i - 1]);
                }
            }
        }
    }
}

/// Law: when no serialization attribute carries the skip-if-absent marker,
/// a field is optional exactly when its host type is the optional-wrapper
/// generic.
pub proof fn lemma_optional_iff_wrapper(f: HostField)
    requires
        forall|i: int|
            0 <= i < f.attrs@.len() ==> !(attr_named(#[trigger] f.attrs@[i], "serde"@)
                && contains_seq(f.attrs@[i].text@, "skip_serializing_if"@)),
    ensures
        field_model(f).optional == (match f.ty {
            HostType::Named { name, .. } => name@ == "Option"@,
            HostType::Unsupported => false,
        }),
{
}

// ---------------------------------------------------------------------------
// Type resolution
// ---------------------------------------------------------------------------

/// Law: the single-argument sequence wrapper resolves to its element's
/// resolved text with `[]` appended — one `[]` per nesting level.
pub proof fn lemma_sequence_wrapper(t: HostType, inner: HostType)
    requires
        match t {
            HostType::Named { name, args } => name@ == "Vec"@ && args@.len() == 1 && args@[0]
                == HostArg::Ty(inner),
            HostType::Unsupported => false,
        },
    ensures
        resolve_type(t) == resolve_type(inner) + "[]"@,
{
    reveal_strlit("Vec");
    reveal_strlit("Option");
    assert("Vec"@.len() == 3);
    assert("Option"@.len() == 6);
}

/// Law: the single-argument optional wrapper unwraps to its argument's
/// resolved text; the optionality is tracked on the field alone.
pub proof fn lemma_optional_wrapper(t: HostType, inner: HostType)
    requires
        match t {
            HostType::Named { name, args } => name@ == "Option"@ && args@.len() == 1 && args@[0]
                == HostArg::Ty(inner),
            HostType::Unsupported => false,
        },
    ensures
        resolve_type(t) == resolve_type(inner),
{
}

// ---------------------------------------------------------------------------
// Method parameters
// ---------------------------------------------------------------------------

/// The number of non-receiver parameters.
pub open spec fn typed_count(ps: Seq<HostParam>) -> int
    decreases ps.len(),
{
    if ps.len() == 0 {
        0
    } else {
        (match ps[0] {
            HostParam::Receiver => 0int,
            HostParam::Typed(_) => 1int,
        }) + typed_count(ps.drop_first())
    }
}

/// Law: a method renders one parameter per non-receiver host parameter, and
/// the k-th of them is named `arg` + (n + k), whatever the host declared —
/// numbering among the non-receiver parameters alone.
pub proof fn lemma_param_names(ps: Seq<HostParam>, n: int, k: int)
    requires
        n >= 0,
        0 <= k < method_params_from(ps, n).len(),
    ensures
        method_params_from(ps, n).len() == typed_count(ps),
        method_params_from(ps, n)[k].name == "arg"@ + dec_nat(n + k),
    decreases ps.len(),
{
    lemma_param_count(ps, n);
    match ps[0] {
        HostParam::Receiver => {
            lemma_param_names(ps.drop_first(), n, k);
        },
        HostParam::Typed(_) => {
            if k > 0 {
                lemma_param_names(ps.drop_first(), n + 1, k - 1);
                assert(method_params_from(ps, n)[k] == method_params_from(
                    ps.drop_first(),
                    n + 1,
                )[k - 1]);
            }
        },
    }
}

proof fn lemma_param_count(ps: Seq<HostParam>, n: int)
    ensures
        method_params_from(ps, n).len() == typed_count(ps),
    decreases ps.len(),
{
    if ps.len() > 0 {
        match ps[0] {
            HostParam::Receiver => {
                lemma_param_count(ps.drop_first(), n);
            },
            HostParam::Typed(_) => {
                lemma_param_count(ps.drop_first(), n + 1);
            },
        }
    }
}

// ---------------------------------------------------------------------------
// Enum rendering order
// ---------------------------------------------------------------------------

/// Law: the ordinal-mode body decomposes at every position k into the lines
/// before it, the k-th variant's line numbered i + k, and the lines after —
/// so variants without explicit values receive 0..N-1 in declaration order.
pub proof fn lemma_enum_body_split(vs: Seq<VariantModel>, i: int, k: int)
    requires
        0 <= k < vs.len(),
    ensures
        enum_body(vs, i) == enum_body(vs.take(k), i) + enum_variant_line(vs[k], i + k) + enum_body(
            vs.skip(k + 1),
            i + k + 1,
        ),
    decreases k,
{
    if k == 0 {
        assert(vs.take(0) =~= Seq::<VariantModel>::empty());
        assert(vs.drop_first() =~= vs.skip(1));
        assert(enum_body(vs.take(0), i) + enum_variant_line(vs[0], i) + enum_body(vs.skip(1), i + 1)
            =~= enum_variant_line(vs[0], i) + enum_body(vs.skip(1), i + 1));
    } else {
        lemma_enum_body_split(vs.drop_first(), i + 1, k - 1);
        assert(vs.drop_first().take(k - 1) =~= vs.take(k).drop_first());
        assert(vs.drop_first()[k - 1] == vs[k]);
        assert(vs.drop_first().skip(k) =~= vs.skip(k + 1));
        assert(vs.take(k)[0] == vs[0]);
        assert(enum_variant_line(vs[0], i) + (enum_body(vs.take(k).drop_first(), i + 1)
            + enum_variant_line(vs[k], i + k) + enum_body(vs.skip(k + 1), i + k + 1)) =~= (
        enum_variant_line(vs[0], i) + enum_body(vs.take(k).drop_first(), i + 1))
            + enum_variant_line(vs[k], i + k) + enum_body(vs.skip(k + 1), i + k + 1));
    }
}

/// Law: a variant without an explicit value renders, at position i, as its
/// name with the ordinal i in enum mode.
pub proof fn lemma_ordinal_line(v: VariantModel, i: int)
    requires
        v.value is None,
    ensures
        enum_variant_line(v, i) == "    "@ + v.name + " = "@ + dec_nat(i) + ",\n"@,
{
}

/// Law: the union-type body decomposes at every position k, and a variant
/// without an explicit value contributes its name as a quoted string
/// literal — the ordinal fallback never applies in union mode.
pub proof fn lemma_union_body_split(vs: Seq<VariantModel>, first: bool, k: int)
    requires
        0 <= k < vs.len(),
    ensures
        union_body(vs, first) == union_body(vs.take(k), first) + (if first && k == 0 {
            "\n    "@
        } else {
            " |\n    "@
        }) + union_variant_text(vs[k]) + union_body(vs.skip(k + 1), false),
    decreases k,
{
    if k == 0 {
        assert(vs.take(0) =~= Seq::<VariantModel>::empty());
        assert(vs.drop_first() =~= vs.skip(1));
        assert(union_body(vs.take(0), first) + (if first {
            "\n    "@
        } else {
            " |\n    "@
        }) + union_variant_text(vs[0]) + union_body(vs.skip(1), false) =~= (if first {
            "\n    "@
        } else {
            " |\n    "@
        }) + union_variant_text(vs[0]) + union_body(vs.skip(1), false));
    } else {
        lemma_union_body_split(vs.drop_first(), false, k - 1);
        assert(vs.drop_first().take(k - 1) =~= vs.take(k).drop_first());
        assert(vs.drop_first()[k - 1] == vs[k]);
        assert(vs.drop_first().skip(k) =~= vs.skip(k + 1));
        assert(vs.take(k)[0] == vs[0]);
        let sep0 = if first {
            "\n    "@
        } else {
            " |\n    "@
        };
        assert(sep0 + union_variant_text(vs[0]) + (union_body(vs.take(k).drop_first(), false)
            + " |\n    "@ + union_variant_text(vs[k]) + union_body(vs.skip(k + 1), false)) =~= (sep0
            + union_variant_text(vs[0]) + union_body(vs.take(k).drop_first(), false)) + " |\n    "@
            + union_variant_text(vs[k]) + union_body(vs.skip(k + 1), false));
    }
}

/// Law: the mapping renderer and the standalone enum renderer produce the
/// same text for the same enum declaration, in either mode.
pub proof fn lemma_enum_render_agree(
    name: Seq<char>,
    vs: Seq<VariantModel>,
    doc: Option<Seq<char>>,
    sum_types: bool,
    sort: bool,
)
    ensures
        decl_render(DeclModel::Enum { name, variants: vs, doc }, sum_types, sort) == enum_render(
            ExtractedEnumModel { name, variants: vs, doc },
            sum_types,
        ),
{
}

// ---------------------------------------------------------------------------
// Alphabetical order
// ---------------------------------------------------------------------------

/// Keys appear in non-decreasing lexicographic order.
pub open spec fn sorted_by_key<T>(s: Seq<T>, key: spec_fn(T) -> Seq<char>) -> bool {
    forall|i: int, j: int|
        0 <= i < j < s.len() ==> lex_leq(key(#[trigger] s[i]), key(#[trigger] s[j]))
}

proof fn lemma_lex_lt_irrefl(a: Seq<char>)
    ensures
        !lex_lt(a, a),
    decreases a.len(),
{
    if a.len() > 0 {
        lemma_lex_lt_irrefl(a.drop_first());
    }
}

proof fn lemma_insert_sorted_elems<T>(x: T, s: Seq<T>, key: spec_fn(T) -> Seq<char>)
    ensures
        insert_sorted(x, s, key).len() == s.len() + 1,
        forall|k: int|
            0 <= k < insert_sorted(x, s, key).len() ==> #[trigger] insert_sorted(x, s, key)[k] == x
                || s.contains(insert_sorted(x, s, key)[k]),
    decreases s.len(),
{
    if s.len() == 0 {
    } else if lex_lt(key(x), key(s[0])) {
        assert forall|k: int| 0 <= k < insert_sorted(x, s, key).len() implies #[trigger]
        insert_sorted(x, s, key)[k] == x || s.contains(insert_sorted(x, s, key)[k]) by {
            if k > 0 {
                assert(insert_sorted(x, s, key)[k] == s[k - 1]);
            }
        }
    } else {
        lemma_insert_sorted_elems(x, s.drop_first(), key);
        assert forall|k: int| 0 <= k < insert_sorted(x, s, key).len() implies #[trigger]
        insert_sorted(x, s, key)[k] == x || s.contains(insert_sorted(x, s, key)[k]) by {
            if k == 0 {
                assert(insert_sorted(x, s, key)[0] == s[0]);
                assert(s.contains(s[0]));
            } else {
                let e = insert_sorted(x, s, key)[k];
                assert(e == insert_sorted(x, s.drop_first(), key)[k - 1]);
                if e != x {
                    assert(s.drop_first().contains(e));
                    let idx = choose|idx: int|
                        0 <= idx < s.drop_first().len() && s.drop_first()[idx] == e;
                    assert(s[idx + 1] == e);
                    assert(s.contains(e));
                }
            }
        }
    }
}

proof fn lemma_insert_sorted_keeps<T>(x: T, s: Seq<T>, key: spec_fn(T) -> Seq<char>)
    requires
        sorted_by_key(s, key),
    ensures
        sorted_by_key(insert_sorted(x, s, key), key),
    decreases s.len(),
{
    if s.len() == 0 {
    } else if lex_lt(key(x), key(s[0])) {
        let ins = insert_sorted(x, s, key);
        assert forall|i: int, j: int| 0 <= i < j < ins.len() implies lex_leq(
            key(#[trigger] ins[i]),
            key(#[trigger] ins[j]),
        ) by {
            if i == 0 {
                assert(ins[j] == s[j - 1]);
                if lex_lt(key(s[j - 1]), key(x)) {
                    lemma_lex_lt_trans(key(s[j - 1]), key(x), key(s[0]));
                    if j == 1 {
                        lemma_lex_lt_irrefl(key(s[0]));
                    } else {
                        assert(lex_leq(key(s[0]), key(s[j - 1])));
                    }
                }
            } else {
                assert(ins[i] == s[i - 1]);
                assert(ins[j] == s[j - 1]);
            }
        }
    } else {
        assert(sorted_by_key(s.drop_first(), key)) by {
            assert forall|i: int, j: int| 0 <= i < j < s.drop_first().len() implies lex_leq(
                key(#[trigger] s.drop_first()[i]),
                key(#[trigger] s.drop_first()[j]),
            ) by {
                assert(s.drop_first()[i] == s[i + 1]);
                assert(s.drop_first()[j] == s[j + 1]);
            }
        }
        lemma_insert_sorted_keeps(x, s.drop_first(), key);
        lemma_insert_sorted_elems(x, s.drop_first(), key);
        let ins = insert_sorted(x, s, key);
        let ins_rest = insert_sorted(x, s.drop_first(), key);
        assert forall|i: int, j: int| 0 <= i < j < ins.len() implies lex_leq(
            key(#[trigger] ins[i]),
            key(#[trigger] ins[j]),
        ) by {
            if i == 0 {
                assert(ins[0] == s[0]);
                let e = ins[j];
                assert(e == ins_rest[j - 1]);
                if e == x {
                    assert(!lex_lt(key(x), key(s[0])));
                } else {
                    assert(s.drop_first().contains(e));
                    let idx = choose|idx: int|
                        0 <= idx < s.drop_first().len() && s.drop_first()[idx] == e;
                    assert(s[idx + 1] == e);
                    assert(lex_leq(key(s[0]), key(s[idx + 1])));
                }
            } else {
                assert(ins[i] == ins_rest[i - 1]);
                assert(ins[j] == ins_rest[j - 1]);
            }
        }
    }
}

proof fn lemma_insert_sorted_multiset<T>(x: T, s: Seq<T>, key: spec_fn(T) -> Seq<char>)
    ensures
        insert_sorted(x, s, key).to_multiset() == s.to_multiset().insert(x),
    decreases s.len(),
{
    broadcast use vstd::seq_lib::group_to_multiset_ensures;

    if s.len() == 0 {
        assert(seq![x] =~= Seq::<T>::empty().push(x));
        assert(Seq::<T>::empty().push(x).to_multiset() =~= Seq::<T>::empty().to_multiset().insert(
            x,
        ));
        assert(insert_sorted(x, s, key).to_multiset() =~= s.to_multiset().insert(x));
    } else if lex_lt(key(x), key(s[0])) {
        vstd::seq_lib::lemma_multiset_commutative(seq![x], s);
        assert(seq![x] =~= Seq::<T>::empty().push(x));
        assert(seq![x].to_multiset() =~= Seq::<T>::empty().to_multiset().insert(x));
        assert(insert_sorted(x, s, key).to_multiset() =~= s.to_multiset().insert(x));
    } else {
        lemma_insert_sorted_multiset(x, s.drop_first(), key);
        let rest_ins = insert_sorted(x, s.drop_first(), key);
        vstd::seq_lib::lemma_multiset_commutative(seq![s[0]], rest_ins);
        vstd::seq_lib::lemma_multiset_commutative(seq![s[0]], s.drop_first());
        assert(s =~= seq![s[0]] + s.drop_first());
        assert(insert_sorted(x, s, key).to_multiset() =~= s.to_multiset().insert(x));
    }
}

/// Law: sorting permutes — the sorted sequence holds exactly the same
/// declarations, each exactly as often as before.
pub proof fn lemma_sort_by_permutes<T>(s: Seq<T>, key: spec_fn(T) -> Seq<char>)
    ensures
        sort_by(s, key).to_multiset() == s.to_multiset(),
    decreases s.len(),
{
    broadcast use vstd::seq_lib::group_to_multiset_ensures;

    if s.len() > 0 {
        lemma_sort_by_permutes(s.drop_last(), key);
        lemma_insert_sorted_multiset(s.last(), sort_by(s.drop_last(), key), key);
        assert(s =~= s.drop_last().push(s.last()));
    }
}

/// Law: with alphabetical sorting, keys come out in non-decreasing
/// lexicographic code point order — of two declarations, the one whose name
/// orders first is emitted strictly before the other.
pub proof fn lemma_sort_by_sorted<T>(s: Seq<T>, key: spec_fn(T) -> Seq<char>)
    ensures
        sorted_by_key(sort_by(s, key), key),
    decreases s.len(),
{
    if s.len() > 0 {
        lemma_sort_by_sorted(s.drop_last(), key);
        lemma_insert_sorted_keeps(s.last(), sort_by(s.drop_last(), key), key);
    }
}

// ---------------------------------------------------------------------------
// Last-write-wins
// ---------------------------------------------------------------------------

/// Law: inserting a declaration whose name is already mapped replaces the
/// earlier entry in place — afterwards the mapping holds exactly one entry
/// under that name, with the later declaration's content, every other entry
/// unchanged; a fresh name is appended.
pub proof fn lemma_last_write_wins(m: Seq<DeclModel>, d: DeclModel)
    requires
        map_wf(m),
    ensures
        map_wf(map_insert(m, d)),
        map_contains(map_insert(m, d), decl_name(d)),
        forall|i: int|
            0 <= i < map_insert(m, d).len() && decl_name(#[trigger] map_insert(m, d)[i])
                == decl_name(d) ==> map_insert(m, d)[i] == d,
        map_contains(m, decl_name(d)) ==> map_insert(m, d).len() == m.len(),
        !map_contains(m, decl_name(d)) ==> map_insert(m, d).len() == m.len() + 1,
        forall|i: int|
            0 <= i < m.len() && decl_name(#[trigger] m[i]) != decl_name(d) ==> map_insert(m, d)[i]
                == m[i],
{
    let r = map_insert(m, d);
    if map_contains(m, decl_name(d)) {
        let idx = map_index_of(m, decl_name(d));
        assert(0 <= idx < m.len() && decl_name(m[idx]) == decl_name(d)) by {
            assert(map_contains(m, decl_name(d)));
        }
        assert(r == m.update(idx, d));
        assert(decl_name(r[idx]) == decl_name(d));
        assert(map_contains(r, decl_name(d)));
        assert forall|i: int|
            0 <= i < r.len() && decl_name(#[trigger] r[i]) == decl_name(d) implies r[i] == d by {
            if i != idx {
                assert(r[i] == m[i]);
                assert(decl_name(m[i]) != decl_name(m[idx]));
            }
        }
        assert forall|a: int, b: int| 0 <= a < b < r.len() implies decl_name(#[trigger] r[a])
            != decl_name(#[trigger] r[b]) by {
            assert(decl_name(r[a]) == decl_name(m[a]));
            assert(decl_name(r[b]) == decl_name(m[b]));
        }
    } else {
        assert(r == m.push(d));
        assert(decl_name(r[m.len() as int]) == decl_name(d));
        assert(map_contains(r, decl_name(d)));
        assert forall|i: int|
            0 <= i < r.len() && decl_name(#[trigger] r[i]) == decl_name(d) implies r[i] == d by {
            if i < m.len() {
                assert(r[i] == m[i]);
                assert(!map_contains(m, decl_name(d)));
            }
        }
        assert forall|a: int, b: int| 0 <= a < b < r.len() implies decl_name(#[trigger] r[a])
            != decl_name(#[trigger] r[b]) by {
            if b < m.len() {
                assert(r[a] == m[a]);
                assert(r[b] == m[b]);
            } else {
                assert(r[b] == d);
                assert(r[a] == m[a]);
            }
        }
    }
}

} // verus!
