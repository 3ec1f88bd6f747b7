//! Properties that hold of every handler description, proved over the
//! effects that the updates are specified by.
use crate::actix::{
    args_definitions, args_parameters, args_security, args_security_definitions,
    error_response, error_responses, schema_definitions, scheme_definitions, wrapped_operation,
    OperationModifier, SchemaInfo,
};
use crate::models::{
    define_scheme, merged_scheme, retained, DefaultSchemaRaw, Either, OperationView, ParameterIn,
    ResponseView, SchemaView, SecuritySchemeView,
};
use crate::strmap::has_key_at;
use crate::text::{decimal, digit_char, digits_value, is_digit, law_decimal_denotes};
use vstd::prelude::*;

verus! {

/// An optional extractor shapes an operation, and the definitions, exactly
/// as the type it wraps.
pub proof fn law_optional_is_transparent(
    m: OperationModifier,
    rs: Map<Seq<char>, Either<Seq<char>, ResponseView>>,
    defs: Map<Seq<char>, DefaultSchemaRaw>,
    schemes: Map<Seq<char>, SecuritySchemeView>,
)
    ensures
        ({
            let o = OperationModifier::Optional(Box::new(m));
            &&& o.added_parameters() == m.added_parameters()
            &&& o.response_effect(rs) == m.response_effect(rs)
            &&& o.definitions_effect(defs) == m.definitions_effect(defs)
            &&& o.security_effect() == m.security_effect()
            &&& o.security_definitions_effect(schemes) == m.security_definitions_effect(schemes)
        }),
{
}

/// A result shapes an operation as its success type does, and adds the
/// responses of its error statuses after the success type's responses; only
/// its security requirement is its own.
pub proof fn law_result_adds_error_responses(
    ok: OperationModifier,
    errors: Vec<(u16, String)>,
    schema: SchemaInfo,
    rs: Map<Seq<char>, Either<Seq<char>, ResponseView>>,
    defs: Map<Seq<char>, DefaultSchemaRaw>,
    schemes: Map<Seq<char>, SecuritySchemeView>,
)
    ensures
        ({
            let r = OperationModifier::Fallible { ok: Box::new(ok), errors: errors, schema: schema };
            &&& r.added_parameters() == ok.added_parameters()
            &&& r.response_effect(rs) == error_responses(errors@, ok.response_effect(rs))
            &&& r.definitions_effect(defs) == ok.definitions_effect(defs)
            &&& r.security_definitions_effect(schemes) == ok.security_definitions_effect(schemes)
        }),
{
}

/// Path, query and form extractors use their type only for its properties:
/// they add no definitions.
pub proof fn law_extractors_define_nothing(
    location: ParameterIn,
    raw: DefaultSchemaRaw,
    defs: Map<Seq<char>, DefaultSchemaRaw>,
    schemes: Map<Seq<char>, SecuritySchemeView>,
)
    ensures
        ({
            let p = OperationModifier::Params { location, raw };
            &&& p.definitions_effect(defs) == defs
            &&& p.security_definitions_effect(schemes) == schemes
            &&& p.security_effect() == Seq::<Map<Seq<char>, Seq<Seq<char>>>>::empty()
        }),
{
}

/// A path, query or form extractor of a type with properties adds exactly one
/// parameter per property, in property order, named after the property,
/// taken from the extractor's location and required when the property is.
/// Only a path extractor of a type without properties adds a parameter of
/// the type itself: a single unnamed, required path parameter. A query or
/// form extractor of a type without properties adds nothing.
pub proof fn law_extractor_parameters(location: ParameterIn, raw: DefaultSchemaRaw)
    ensures
        ({
            let ps = (OperationModifier::Params { location, raw }).added_parameters();
            let es = raw.properties.entries();
            &&& (raw.properties@ == Map::<Seq<char>, Box<DefaultSchemaRaw>>::empty()) == (es.len()
                == 0)
            &&& es.len() > 0 ==> {
                &&& ps.len() == es.len()
                &&& forall|i: int|
                    0 <= i < es.len() ==> {
                        &&& #[trigger] ps[i] is Right
                        &&& ps[i]->Right_0.name == es[i].0@
                        &&& ps[i]->Right_0.in_ == location
                        &&& ps[i]->Right_0.required == raw.required@.contains(es[i].0@)
                        &&& ps[i]->Right_0.schema is None
                        &&& ps[i]->Right_0.data_type == (*es[i].1).data_type
                        &&& ps[i]->Right_0.format == (*es[i].1).format
                    }
            }
            &&& es.len() == 0 && location == ParameterIn::Path ==> {
                &&& ps.len() == 1
                &&& ps[0] is Right
                &&& ps[0]->Right_0.name.len() == 0
                &&& ps[0]->Right_0.in_ == ParameterIn::Path
                &&& ps[0]->Right_0.required
                &&& ps[0]->Right_0.data_type == raw.data_type
                &&& ps[0]->Right_0.format == raw.format
            }
            &&& es.len() == 0 && location != ParameterIn::Path ==> ps.len() == 0
        }),
{
    let es = raw.properties.entries();
    if es.len() > 0 {
        assert(has_key_at(es, es[0].0@, 0));
        assert(raw.properties@.contains_key(es[0].0@));
    } else {
        assert(raw.properties@ =~= Map::<Seq<char>, Box<DefaultSchemaRaw>>::empty());
    }
}

/// The response a JSON output adds is the `200` response described `OK`,
/// and it always carries a schema: only the item's reference when the item
/// has one, the item's schema unchanged otherwise. Nothing else changes.
pub proof fn law_json_ok_response(
    item: DefaultSchemaRaw,
    rs: Map<Seq<char>, Either<Seq<char>, ResponseView>>,
    other: Seq<char>,
)
    ensures
        ({
            let after = (OperationModifier::Json { item }).response_effect(rs);
            &&& after.contains_key("200"@)
            &&& after["200"@] is Right
            &&& after["200"@]->Right_0.description == Some("OK"@)
            &&& after["200"@]->Right_0.schema is Some
            &&& item.reference is None ==> after["200"@]->Right_0.schema == Some(item@)
            &&& item.reference is Some ==> {
                let s = after["200"@]->Right_0.schema->Some_0;
                &&& s.reference == item@.reference
                &&& s.name is None
                &&& s.data_type is None
                &&& s.properties == Map::<Seq<char>, Box<DefaultSchemaRaw>>::empty()
                &&& s.items is None
                &&& s.extra_props is None
            }
            &&& other != "200"@ ==> after.contains_key(other) == rs.contains_key(other)
                && after[other] == rs[other]
        }),
{
}

/// The operation of a wrapped handler takes the declared summary and the
/// declared description whenever they are declared, whatever the generated
/// operation holds, and the generated ones otherwise; it always takes the
/// declared tags; everything else is the generated operation's.
pub proof fn law_declared_operation_wins(declared: OperationView, generated: OperationView)
    ensures
        ({
            let op = wrapped_operation(declared, generated);
            &&& declared.summary is Some ==> op.summary == declared.summary
            &&& declared.summary is None ==> op.summary == generated.summary
            &&& declared.description is Some ==> op.description == declared.description
            &&& declared.description is None ==> op.description == generated.description
            &&& op.tags == declared.tags
            &&& op.operation_id == generated.operation_id
            &&& op.consumes == generated.consumes
            &&& op.produces == generated.produces
            &&& op.schemes == generated.schemes
            &&& op.deprecated == generated.deprecated
            &&& op.parameters == generated.parameters
            &&& op.responses == generated.responses
            &&& op.security == generated.security
        }),
{
}

/// Keeping only the reference of a schema twice is keeping it once.
pub proof fn law_retain_ref_idempotent(s: SchemaView)
    ensures
        retained(retained(s)) == retained(s),
{
}

proof fn lemma_schema_definitions_idempotent(s: DefaultSchemaRaw, m: Map<Seq<char>, DefaultSchemaRaw>)
    ensures
        schema_definitions(s, schema_definitions(s, m)) == schema_definitions(s, m),
{
    let once = schema_definitions(s, m);
    assert(schema_definitions(s, once) =~= once);
}

/// Adding the definitions of a type twice is adding them once.
pub proof fn law_definitions_idempotent(m: OperationModifier, defs: Map<Seq<char>, DefaultSchemaRaw>)
    ensures
        m.definitions_effect(m.definitions_effect(defs)) == m.definitions_effect(defs),
    decreases m,
{
    match m {
        OperationModifier::Optional(inner) => law_definitions_idempotent(*inner, defs),
        OperationModifier::Fallible { ok, .. } => law_definitions_idempotent(*ok, defs),
        OperationModifier::Params { .. } => {},
        OperationModifier::Schema(info) => lemma_schema_definitions_idempotent(info.schema, defs),
        OperationModifier::Json { item } => lemma_schema_definitions_idempotent(item, defs),
        OperationModifier::Multipart { schema, .. } => lemma_schema_definitions_idempotent(
            schema.schema,
            defs,
        ),
        OperationModifier::PathTuple { .. } => {},
    }
}

/// Definitions are only ever added or replaced, never dropped.
pub proof fn law_definitions_only_grow(
    m: OperationModifier,
    defs: Map<Seq<char>, DefaultSchemaRaw>,
    name: Seq<char>,
)
    requires
        defs.contains_key(name),
    ensures
        m.definitions_effect(defs).contains_key(name),
    decreases m,
{
    match m {
        OperationModifier::Optional(inner) => law_definitions_only_grow(*inner, defs, name),
        OperationModifier::Fallible { ok, .. } => law_definitions_only_grow(*ok, defs, name),
        _ => {},
    }
}

proof fn lemma_merge_idempotent(e: SecuritySchemeView, s: SecuritySchemeView)
    ensures
        merged_scheme(merged_scheme(e, s), s) == merged_scheme(e, s),
        merged_scheme(s, s) == s,
{
    assert(merged_scheme(merged_scheme(e, s), s).scopes =~= merged_scheme(e, s).scopes);
    assert(merged_scheme(s, s).scopes =~= s.scopes);
}

/// Defining the same security scheme twice under one name is defining it once.
pub proof fn law_define_scheme_idempotent(
    m: Map<Seq<char>, SecuritySchemeView>,
    name: Seq<char>,
    s: SecuritySchemeView,
)
    ensures
        define_scheme(define_scheme(m, name, s), name, s) == define_scheme(m, name, s),
{
    let once = define_scheme(m, name, s);
    if m.contains_key(name) {
        lemma_merge_idempotent(m[name], s);
    } else {
        lemma_merge_idempotent(s, s);
    }
    assert(define_scheme(once, name, s) =~= once);
}

/// Adding the security definitions of a type twice is adding them once.
pub proof fn law_security_definitions_idempotent(
    m: OperationModifier,
    schemes: Map<Seq<char>, SecuritySchemeView>,
)
    ensures
        m.security_definitions_effect(m.security_definitions_effect(schemes))
            == m.security_definitions_effect(schemes),
    decreases m,
{
    match m {
        OperationModifier::Optional(inner) => law_security_definitions_idempotent(*inner, schemes),
        OperationModifier::Fallible { ok, .. } => law_security_definitions_idempotent(*ok, schemes),
        OperationModifier::Schema(info) => lemma_scheme_definitions_idempotent(info, schemes),
        OperationModifier::Multipart { schema, .. } => lemma_scheme_definitions_idempotent(
            schema,
            schemes,
        ),
        _ => {},
    }
}

proof fn lemma_scheme_definitions_idempotent(info: SchemaInfo, m: Map<Seq<char>, SecuritySchemeView>)
    ensures
        scheme_definitions(info, scheme_definitions(info, m)) == scheme_definitions(info, m),
{
    match (info.name, info.security_scheme) {
        (Some(n), Some(sc)) => law_define_scheme_idempotent(m, n@, sc@),
        _ => {},
    }
}

/// Merging a scheme into the definitions keeps every scope the name already
/// had, adds every scope of the new scheme with the new description, and
/// leaves the other names alone.
pub proof fn law_define_scheme_keeps_scopes(
    m: Map<Seq<char>, SecuritySchemeView>,
    name: Seq<char>,
    s: SecuritySchemeView,
    scope: Seq<char>,
    other: Seq<char>,
)
    ensures
        define_scheme(m, name, s).contains_key(name),
        s.scopes.contains_key(scope) ==> define_scheme(m, name, s)[name].scopes.contains_key(scope)
            && define_scheme(m, name, s)[name].scopes[scope] == s.scopes[scope],
        m.contains_key(name) && m[name].scopes.contains_key(scope) ==> define_scheme(
            m,
            name,
            s,
        )[name].scopes.contains_key(scope),
        other != name ==> define_scheme(m, name, s).contains_key(other) == m.contains_key(other)
            && define_scheme(m, name, s)[other] == m[other],
{
}

/// The decimal text of a number is never empty, and has at least two
/// digits from ten on.
pub proof fn lemma_decimal_len(n: nat)
    ensures
        decimal(n).len() >= 1,
        n >= 10 ==> decimal(n).len() >= 2,
    decreases n,
{
    if n >= 10 {
        lemma_decimal_len(n / 10);
    }
}

/// Distinct numbers have distinct decimal texts, so distinct error statuses
/// land under distinct response keys.
pub proof fn law_decimal_injective(a: nat, b: nat)
    requires
        decimal(a) == decimal(b),
    ensures
        a == b,
    decreases a,
{
    lemma_decimal_len(a);
    lemma_decimal_len(b);
    if a < 10 && b < 10 {
        assert(decimal(a)[0] == digit_char(a));
        assert(decimal(b)[0] == digit_char(b));
    } else if a >= 10 && b >= 10 {
        assert(decimal(a).last() == digit_char(a % 10));
        assert(decimal(b).last() == digit_char(b % 10));
        assert(decimal(a).drop_last() =~= decimal(a / 10));
        assert(decimal(b).drop_last() =~= decimal(b / 10));
        law_decimal_injective(a / 10, b / 10);
    } else {
        assert(decimal(a).len() != decimal(b).len());
    }
}

/// Each error status ends up described by the last description given for it.
pub proof fn law_error_response_for_status(
    errors: Seq<(u16, String)>,
    rs: Map<Seq<char>, Either<Seq<char>, ResponseView>>,
    i: int,
)
    requires
        0 <= i < errors.len(),
        forall|j: int| i < j < errors.len() ==> errors[j].0 != errors[i].0,
    ensures
        error_responses(errors, rs).contains_key(decimal(errors[i].0 as nat)),
        error_responses(errors, rs)[decimal(errors[i].0 as nat)] == error_response(errors[i].1),
    decreases errors.len(),
{
    let last = errors.len() - 1;
    if i < last {
        let front = errors.drop_last();
        assert forall|j: int| i < j < front.len() implies front[j].0 != front[i].0 by {
            assert(front[j] == errors[j]);
        }
        law_error_response_for_status(front, rs, i);
        if decimal(errors[last].0 as nat) == decimal(errors[i].0 as nat) {
            law_decimal_injective(errors[last].0 as nat, errors[i].0 as nat);
        }
    }
}

/// Each error status is answered under the decimal text of its code: a run
/// of digits, without leading zero, that stands for the code; the response
/// there is described by the last description given for that status.
pub proof fn law_error_response_key_is_status_code(
    errors: Seq<(u16, String)>,
    rs: Map<Seq<char>, Either<Seq<char>, ResponseView>>,
    i: int,
)
    requires
        0 <= i < errors.len(),
        forall|j: int| i < j < errors.len() ==> errors[j].0 != errors[i].0,
    ensures
        ({
            let k = decimal(errors[i].0 as nat);
            &&& digits_value(k) == errors[i].0
            &&& forall|c: int| 0 <= c < k.len() ==> is_digit(#[trigger] k[c])
            &&& errors[i].0 > 0 ==> k[0] != '0'
            &&& error_responses(errors, rs).contains_key(k)
            &&& error_responses(errors, rs)[k] is Right
            &&& error_responses(errors, rs)[k]->Right_0.description == Some(errors[i].1@)
            &&& error_responses(errors, rs)[k]->Right_0.schema is None
        }),
{
    law_decimal_denotes(errors[i].0 as nat);
    law_error_response_for_status(errors, rs, i);
}

/// Responses under keys that are no error status stay as they were.
pub proof fn law_error_responses_keep_others(
    errors: Seq<(u16, String)>,
    rs: Map<Seq<char>, Either<Seq<char>, ResponseView>>,
    k: Seq<char>,
)
    requires
        forall|j: int| 0 <= j < errors.len() ==> decimal(errors[j].0 as nat) != k,
    ensures
        error_responses(errors, rs).contains_key(k) == rs.contains_key(k),
        rs.contains_key(k) ==> error_responses(errors, rs)[k] == rs[k],
    decreases errors.len(),
{
    if errors.len() > 0 {
        let front = errors.drop_last();
        assert forall|j: int| 0 <= j < front.len() implies decimal(front[j].0 as nat) != k by {
            assert(front[j] == errors[j]);
        }
        law_error_responses_keep_others(front, rs, k);
    }
}

/// Among the errors from position `j` on, one written as `k` is found that
/// no later error repeats.
proof fn lemma_last_error_written(errors: Seq<(u16, String)>, k: Seq<char>, j: int) -> (i: int)
    requires
        0 <= j < errors.len(),
        decimal(errors[j].0 as nat) == k,
    ensures
        0 <= i < errors.len(),
        decimal(errors[i].0 as nat) == k,
        forall|m: int| i < m < errors.len() ==> decimal(#[trigger] errors[m].0 as nat) != k,
    decreases errors.len() - j,
{
    if exists|m: int| j < m < errors.len() && decimal(#[trigger] errors[m].0 as nat) == k {
        let m = choose|m: int| j < m < errors.len() && decimal(#[trigger] errors[m].0 as nat) == k;
        lemma_last_error_written(errors, k, m)
    } else {
        j
    }
}

/// Adding the responses of the same error statuses twice is adding them once.
pub proof fn law_error_responses_idempotent(
    errors: Seq<(u16, String)>,
    rs: Map<Seq<char>, Either<Seq<char>, ResponseView>>,
)
    ensures
        error_responses(errors, error_responses(errors, rs)) == error_responses(errors, rs),
{
    let once = error_responses(errors, rs);
    let twice = error_responses(errors, once);
    assert forall|k: Seq<char>|
        (#[trigger] twice.contains_key(k) <==> once.contains_key(k)) && (once.contains_key(k)
            ==> twice[k] == once[k]) by {
        if exists|j: int| 0 <= j < errors.len() && decimal(#[trigger] errors[j].0 as nat) == k {
            let j = choose|j: int| 0 <= j < errors.len() && decimal(#[trigger] errors[j].0 as nat) == k;
            let i = lemma_last_error_written(errors, k, j);
            assert forall|m: int| i < m < errors.len() implies errors[m].0 != errors[i].0 by {
                if errors[m].0 == errors[i].0 {
                    assert(decimal(errors[m].0 as nat) == k);
                }
            }
            law_error_response_for_status(errors, rs, i);
            law_error_response_for_status(errors, once, i);
        } else {
            law_error_responses_keep_others(errors, rs, k);
            law_error_responses_keep_others(errors, once, k);
        }
    }
    assert(twice =~= once);
}

/// The parameters and security requirements of a handler come argument
/// by argument, in order: those of two runs of arguments are those of the
/// first run followed by those of the second.
pub proof fn law_arguments_contribute_in_order(a: Seq<OperationModifier>, b: Seq<OperationModifier>)
    ensures
        args_parameters(a + b) == args_parameters(a) + args_parameters(b),
        args_security(a + b) == args_security(a) + args_security(b),
    decreases b.len(),
{
    if b.len() == 0 {
        assert(a + b =~= a);
        assert(args_parameters(a) + args_parameters(b) =~= args_parameters(a));
        assert(args_security(a) + args_security(b) =~= args_security(a));
    } else {
        law_arguments_contribute_in_order(a, b.drop_last());
        assert((a + b).drop_last() =~= a + b.drop_last());
        assert((a + b).last() == b.last());
        assert(args_parameters(a + b) =~= args_parameters(a) + args_parameters(b));
        assert(args_security(a + b) =~= args_security(a) + args_security(b));
    }
}

/// The definitions of a handler are added argument by argument, in order:
/// those of two runs of arguments are those of the second run added after
/// those of the first.
pub proof fn law_arguments_define_in_order(
    a: Seq<OperationModifier>,
    b: Seq<OperationModifier>,
    defs: Map<Seq<char>, DefaultSchemaRaw>,
    schemes: Map<Seq<char>, SecuritySchemeView>,
)
    ensures
        args_definitions(a + b, defs) == args_definitions(b, args_definitions(a, defs)),
        args_security_definitions(a + b, schemes) == args_security_definitions(
            b,
            args_security_definitions(a, schemes),
        ),
    decreases b.len(),
{
    if b.len() == 0 {
        assert(a + b =~= a);
    } else {
        law_arguments_define_in_order(a, b.drop_last(), defs, schemes);
        assert((a + b).drop_last() =~= a + b.drop_last());
        assert((a + b).last() == b.last());
    }
}

} // verus!
