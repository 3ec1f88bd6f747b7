//! How the extractors and responders of an actix-web handler shape the
//! OpenAPI operation of that handler, and the global definitions it needs.
//!
//! Each argument and the output of a handler is described by an
//! `OperationModifier`: the kind of extractor it is, together with the
//! schema information its type declares (`SchemaInfo`). A handler is a list
//! of argument modifiers and one output modifier (`HandlerSignature`).
use crate::models::{
    define_scheme, empty_operation, retained, schemes_view, DataType,
    DataTypeFormat, DefaultOperationRaw, DefaultResponseRaw, DefaultSchemaRaw, Either,
    OperationView, Parameter, ParameterIn, ParameterView, ResponseView, SchemaView,
    SecurityScheme, SecuritySchemeView,
};
use crate::strmap::StrMap;
use crate::text::{copy_opt_str, copy_strs, decimal, decimal_text, first_present, strs_view};
use vstd::prelude::*;
use vstd::string::*;

verus! {

/// What a type declares about its schema: the name it is defined under
/// globally (if any), its schema (holding a `$ref` to that definition when
/// it has a name), and the security scheme it stands for (if any).
pub struct SchemaInfo {
    pub name: Option<String>,
    pub schema: DefaultSchemaRaw,
    pub security_scheme: Option<SecurityScheme>,
}

/// An argument or output type of a handler, as far as it shapes the
/// handler's operation.
pub enum OperationModifier {
    /// A type that changes nothing but the definitions and security
    /// requirements its own schema brings (plain values, strings, numbers,
    /// dates, request data, the request itself, wrapped responders, ...).
    Schema(SchemaInfo),
    /// An optional extractor: behaves as the type it wraps.
    Optional(Box<OperationModifier>),
    /// A result: behaves as its success type, and adds one response per
    /// error status the error type declares (status code, description).
    Fallible { ok: Box<OperationModifier>, errors: Vec<(u16, String)>, schema: SchemaInfo },
    /// A JSON body or JSON response of a type; `item` is that type's schema.
    /// The JSON wrapper declares the type's name and schema as its own, and
    /// no security scheme.
    Json { item: DefaultSchemaRaw },
    /// A multipart upload of the given data type and format.
    Multipart { data_type: DataType, format: Option<DataTypeFormat>, schema: SchemaInfo },
    /// Parameters taken from the path, the query or form data: one per
    /// property of `raw`, the schema of the extracted type. The extractor
    /// declares no name, schema or security scheme of its own.
    Params { location: ParameterIn, raw: DefaultSchemaRaw },
    /// A tuple of path segments, one schema per segment. The tuple declares
    /// no name, schema or security scheme of its own.
    PathTuple { elements: Vec<DefaultSchemaRaw> },
}

// ---------------------------------------------------------------------------
// What each update does, over views.

/// The schema that the definitions are taken from: the element schema of
/// arrays and the value schema of maps, all the way down.
pub open spec fn innermost(s: DefaultSchemaRaw) -> DefaultSchemaRaw
    decreases s,
{
    match s.items {
        Some(b) => innermost(*b),
        None => match s.extra_props {
            Some(Either::Right(b)) => innermost(*b),
            _ => s,
        },
    }
}

/// The definitions after adding the type whose schema is `s`: if its
/// innermost schema is named, it is stored under that name, without its
/// name and without its own reference.
pub open spec fn schema_definitions(
    s: DefaultSchemaRaw,
    m: Map<Seq<char>, DefaultSchemaRaw>,
) -> Map<Seq<char>, DefaultSchemaRaw> {
    let inner = innermost(s);
    match inner.name {
        Some(n) => m.insert(n@, DefaultSchemaRaw { name: None, reference: None, ..inner }),
        None => m,
    }
}

/// The response stored for an error status.
pub open spec fn error_response(description: String) -> Either<Seq<char>, ResponseView> {
    Either::Right(ResponseView { description: Some(description@), schema: None })
}

/// The responses after adding one response per error status, in order; a
/// status given twice keeps the later description.
pub open spec fn error_responses(
    errors: Seq<(u16, String)>,
    rs: Map<Seq<char>, Either<Seq<char>, ResponseView>>,
) -> Map<Seq<char>, Either<Seq<char>, ResponseView>>
    decreases errors.len(),
{
    if errors.len() == 0 {
        rs
    } else {
        error_responses(errors.drop_last(), rs).insert(
            decimal(errors.last().0 as nat),
            error_response(errors.last().1),
        )
    }
}

/// The security requirement a type brings: its name and all the scopes
/// of its scheme, in ascending order, if it names a scheme.
pub open spec fn requirement(info: SchemaInfo) -> Seq<Map<Seq<char>, Seq<Seq<char>>>> {
    match (info.name, info.security_scheme) {
        (Some(n), Some(sc)) => seq![map![n@ => sc.scopes.key_views()]],
        _ => Seq::empty(),
    }
}

/// The security definitions after adding the scheme a type names.
pub open spec fn scheme_definitions(
    info: SchemaInfo,
    m: Map<Seq<char>, SecuritySchemeView>,
) -> Map<Seq<char>, SecuritySchemeView> {
    match (info.name, info.security_scheme) {
        (Some(n), Some(sc)) => define_scheme(m, n@, sc@),
        _ => m,
    }
}

/// The body parameter of a JSON payload.
pub open spec fn body_parameter(item: SchemaView) -> ParameterView {
    ParameterView {
        description: None,
        in_: ParameterIn::Body,
        name: "body"@,
        required: true,
        schema: Some(retained(item)),
        data_type: None,
        format: None,
        enum_: Seq::empty(),
    }
}

/// The form parameter of a multipart upload.
pub open spec fn file_parameter(data_type: DataType, format: Option<DataTypeFormat>) -> ParameterView {
    ParameterView {
        description: None,
        in_: ParameterIn::FormData,
        name: "file_data"@,
        required: true,
        schema: None,
        data_type: Some(data_type),
        format: format,
        enum_: Seq::empty(),
    }
}

/// A path parameter whose name is filled in later, when the handler is
/// mounted on a path.
pub open spec fn path_parameter(s: SchemaView) -> ParameterView {
    ParameterView {
        description: None,
        in_: ParameterIn::Path,
        name: Seq::empty(),
        required: true,
        schema: None,
        data_type: s.data_type,
        format: s.format,
        enum_: s.enum_,
    }
}

/// The parameter for one property of an extracted type.
pub open spec fn property_parameter(
    location: ParameterIn,
    name: Seq<char>,
    s: SchemaView,
    required: Set<Seq<char>>,
) -> ParameterView {
    ParameterView {
        description: s.description,
        in_: location,
        name: name,
        required: required.contains(name),
        schema: None,
        data_type: s.data_type,
        format: s.format,
        enum_: s.enum_,
    }
}

/// The parameters for the properties of an extracted type, in ascending
/// property order.
pub open spec fn property_parameters(
    location: ParameterIn,
    entries: Seq<(String, Box<DefaultSchemaRaw>)>,
    required: Set<Seq<char>>,
) -> Seq<Either<Seq<char>, ParameterView>> {
    entries.map_values(
        |e: (String, Box<DefaultSchemaRaw>)|
            Either::Right(property_parameter(location, e.0@, (*e.1)@, required)),
    )
}

/// The parameters of a path, query or form extractor: one per property,
/// preceded, for a path extractor of a type without properties, by a single
/// path parameter of the type itself.
pub open spec fn extractor_parameters(
    location: ParameterIn,
    raw: DefaultSchemaRaw,
) -> Seq<Either<Seq<char>, ParameterView>> {
    unnamed_parameters(location, raw) + property_parameters(
        location,
        raw.properties.entries(),
        raw.required@,
    )
}

/// The single path parameter of a path extractor whose type has no
/// properties; nothing otherwise.
pub open spec fn unnamed_parameters(
    location: ParameterIn,
    raw: DefaultSchemaRaw,
) -> Seq<Either<Seq<char>, ParameterView>> {
    if raw.properties@ == Map::<Seq<char>, Box<DefaultSchemaRaw>>::empty() && location
        == ParameterIn::Path {
        seq![Either::Right(path_parameter(raw@))]
    } else {
        Seq::empty()
    }
}

/// The parameters of a tuple of path segments, one per segment.
pub open spec fn tuple_parameters(elements: Seq<DefaultSchemaRaw>) -> Seq<
    Either<Seq<char>, ParameterView>,
> {
    elements.map_values(|e: DefaultSchemaRaw| Either::Right(path_parameter(e@)))
}

impl OperationModifier {
    /// The parameters the type appends to an operation.
    pub open spec fn added_parameters(self) -> Seq<Either<Seq<char>, ParameterView>>
        decreases self,
    {
        match self {
            OperationModifier::Schema(_) => Seq::empty(),
            OperationModifier::Optional(inner) => (*inner).added_parameters(),
            OperationModifier::Fallible { ok, .. } => (*ok).added_parameters(),
            OperationModifier::Json { item } => seq![Either::Right(body_parameter(item@))],
            OperationModifier::Multipart { data_type, format, .. } => seq![
                Either::Right(file_parameter(data_type, format)),
            ],
            OperationModifier::Params { location, raw } => extractor_parameters(location, raw),
            OperationModifier::PathTuple { elements } => tuple_parameters(elements@),
        }
    }

    /// The responses of an operation after the type has added its own.
    pub open spec fn response_effect(
        self,
        rs: Map<Seq<char>, Either<Seq<char>, ResponseView>>,
    ) -> Map<Seq<char>, Either<Seq<char>, ResponseView>>
        decreases self,
    {
        match self {
            OperationModifier::Optional(inner) => (*inner).response_effect(rs),
            OperationModifier::Fallible { ok, errors, .. } => error_responses(
                errors@,
                (*ok).response_effect(rs),
            ),
            OperationModifier::Json { item } => rs.insert(
                "200"@,
                Either::Right(ResponseView { description: Some("OK"@), schema: Some(retained(item@)) }),
            ),
            _ => rs,
        }
    }

    /// The global definitions after the type has added its own.
    pub open spec fn definitions_effect(
        self,
        m: Map<Seq<char>, DefaultSchemaRaw>,
    ) -> Map<Seq<char>, DefaultSchemaRaw>
        decreases self,
    {
        match self {
            OperationModifier::Optional(inner) => (*inner).definitions_effect(m),
            OperationModifier::Fallible { ok, .. } => (*ok).definitions_effect(m),
            OperationModifier::Params { .. } => m,
            OperationModifier::Schema(info) => schema_definitions(info.schema, m),
            OperationModifier::Json { item } => schema_definitions(item, m),
            OperationModifier::Multipart { schema, .. } => schema_definitions(schema.schema, m),
            OperationModifier::PathTuple { .. } => m,
        }
    }

    /// The security requirements the type appends to an operation.
    pub open spec fn security_effect(self) -> Seq<Map<Seq<char>, Seq<Seq<char>>>>
        decreases self,
    {
        match self {
            OperationModifier::Optional(inner) => (*inner).security_effect(),
            OperationModifier::Schema(info) => requirement(info),
            OperationModifier::Fallible { schema, .. } => requirement(schema),
            OperationModifier::Multipart { schema, .. } => requirement(schema),
            _ => Seq::empty(),
        }
    }

    /// The security definitions after the type has added its scheme.
    pub open spec fn security_definitions_effect(
        self,
        m: Map<Seq<char>, SecuritySchemeView>,
    ) -> Map<Seq<char>, SecuritySchemeView>
        decreases self,
    {
        match self {
            OperationModifier::Optional(inner) => (*inner).security_definitions_effect(m),
            OperationModifier::Fallible { ok, .. } => (*ok).security_definitions_effect(m),
            OperationModifier::Schema(info) => scheme_definitions(info, m),
            OperationModifier::Multipart { schema, .. } => scheme_definitions(schema, m),
            _ => m,
        }
    }
}

// ---------------------------------------------------------------------------
// The updates.

/// Adds the definition of a type to the global definitions: the schema is
/// followed through array elements and map values to the schema that is
/// actually defined, which, if it has a name, is stored under that name.
pub fn update_definitions_from_schema_type(schema: DefaultSchemaRaw, map: &mut StrMap<DefaultSchemaRaw>)
    ensures
        final(map)@ == schema_definitions(schema, old(map)@),
{
    let ghost start = schema;
    let mut current = schema;
    loop
        invariant
            innermost(current) == innermost(start),
            start == schema,
            map@ == old(map)@,
        decreases current,
    {
        let DefaultSchemaRaw {
            name,
            reference,
            description,
            data_type,
            format,
            properties,
            required,
            items,
            extra_props,
            enum_,
        } = current;
        match items {
            Some(b) => {
                current = *b;
            },
            None => match extra_props {
                Some(Either::Right(b)) => {
                    current = *b;
                },
                extra_props => {
                    let mut found = DefaultSchemaRaw {
                        name,
                        reference,
                        description,
                        data_type,
                        format,
                        properties,
                        required,
                        items: None,
                        extra_props,
                        enum_,
                    };
                    if let Some(n) = found.name.take() {
                        found.remove_refs();
                        map.insert(n, found);
                    }
                    return;
                },
            },
        }
    }
}

/// Adds one response per error status to the operation, described by the
/// error's description.
pub fn update_error_definitions_from_schema_type(
    error_map: &Vec<(u16, String)>,
    op: &mut DefaultOperationRaw,
)
    ensures
        final(op)@ == (OperationView {
            responses: error_responses(error_map@, old(op)@.responses),
            ..old(op)@
        }),
{
    let n = error_map.len();
    for i in 0..n
        invariant
            n == error_map@.len(),
            op@ == (OperationView {
                responses: error_responses(error_map@.take(i as int), old(op)@.responses),
                ..old(op)@
            }),
    {
        let (status, def_name) = &error_map[i];
        let response = DefaultResponseRaw { description: Some(def_name.clone()), schema: None };
        proof {
            assert(error_map@.take(i + 1).drop_last() =~= error_map@.take(i as int));
        }
        op.insert_response(decimal_text(*status), Either::Right(response));
    }
    assert(error_map@.take(n as int) =~= error_map@);
}

/// Adds the security requirement of a type to the operation, if the type
/// names a security scheme.
pub fn update_security(info: &SchemaInfo, op: &mut DefaultOperationRaw)
    ensures
        final(op)@ == (OperationView { security: old(op)@.security + requirement(*info), ..old(op)@ }),
{
    match (&info.name, &info.security_scheme) {
        (Some(name), Some(scheme)) => {
            let mut security_map: StrMap<Vec<String>> = StrMap::new();
            let scopes = scheme.scopes.keys();
            security_map.insert(name.clone(), scopes);
            proof {
                assert(security_map@.map_values(|v: Vec<String>| strs_view(v@)) =~= map![name@ => scheme.scopes.key_views()]);
            }
            op.push_security(security_map);
            assert(op@.security =~= old(op)@.security + requirement(*info));
        },
        _ => {},
    }
}

/// Adds the security scheme a type names to the security definitions, or
/// merges it into the scheme already defined under that name.
pub fn update_security_definitions(info: &SchemaInfo, map: &mut StrMap<SecurityScheme>)
    ensures
        schemes_view(*final(map)) == scheme_definitions(*info, schemes_view(*old(map))),
{
    match (&info.name, &info.security_scheme) {
        (Some(name), Some(scheme)) => {
            scheme.duplicate().update_definitions(name.as_str(), map);
        },
        _ => {},
    }
}

fn push_path_parameter(s: DefaultSchemaRaw, op: &mut DefaultOperationRaw)
    ensures
        final(op)@ == (OperationView {
            parameters: old(op)@.parameters.push(Either::Right(path_parameter(s@))),
            ..old(op)@
        }),
{
    let DefaultSchemaRaw { data_type, format, enum_, .. } = s;
    let p = Parameter {
        description: None,
        in_: ParameterIn::Path,
        name: String::new(),
        required: true,
        schema: None,
        data_type: data_type,
        format: format,
        enum_: enum_,
    };
    op.push_parameter(Either::Right(p));
}

fn push_extractor_parameters(location: ParameterIn, raw: DefaultSchemaRaw, op: &mut DefaultOperationRaw)
    ensures
        final(op)@ == (OperationView {
            parameters: old(op)@.parameters + extractor_parameters(location, raw),
            ..old(op)@
        }),
{
    let ghost raw0 = raw;
    let DefaultSchemaRaw { data_type, format, properties, required, enum_, .. } = raw;
    let ghost entries0 = properties.entries();
    if properties.is_empty() && location == ParameterIn::Path {
        let p = Parameter {
            description: None,
            in_: ParameterIn::Path,
            name: String::new(),
            required: true,
            schema: None,
            data_type: data_type,
            format: format,
            enum_: enum_,
        };
        op.push_parameter(Either::Right(p));
    }
    let ghost base = op@.parameters;
    let es = properties.into_entries();
    let n = es.len();
    let mut rest = es;
    for i in 0..n
        invariant
            n == entries0.len(),
            rest@ == entries0.skip(i as int),
            op@ == (OperationView {
                parameters: base + property_parameters(location, entries0.take(i as int), required@),
                ..old(op)@
            }),
    {
        let (k, v) = rest.remove(0);
        let ghost kv = k@;
        let ghost sv = (*v)@;
        let is_required = required.contains(k.as_str());
        let DefaultSchemaRaw { data_type, format, enum_, description, .. } = *v;
        let p = Parameter {
            description: description,
            in_: location,
            name: k,
            required: is_required,
            schema: None,
            data_type: data_type,
            format: format,
            enum_: enum_,
        };
        op.push_parameter(Either::Right(p));
        proof {
            assert(property_parameters(location, entries0.take(i + 1), required@) =~= property_parameters(
                location,
                entries0.take(i as int),
                required@,
            ).push(Either::Right(property_parameter(location, kv, sv, required@))));
        }
    }
    proof {
        assert(op@.parameters =~= old(op)@.parameters + extractor_parameters(location, raw0));
    }
}

impl OperationModifier {
    /// Appends the parameters the type stands for to the operation.
    pub fn update_parameter(self, op: &mut DefaultOperationRaw)
        ensures
            final(op)@ == (OperationView {
                parameters: old(op)@.parameters + self.added_parameters(),
                ..old(op)@
            }),
        decreases self,
    {
        let ghost me = self;
        match self {
            OperationModifier::Schema(_) => {},
            OperationModifier::Optional(inner) => {
                (*inner).update_parameter(op);
            },
            OperationModifier::Fallible { ok, .. } => {
                (*ok).update_parameter(op);
            },
            OperationModifier::Json { item } => {
                let mut def = item;
                def.retain_ref();
                let p = Parameter {
                    description: None,
                    in_: ParameterIn::Body,
                    name: String::from_str("body"),
                    required: true,
                    schema: Some(def),
                    data_type: None,
                    format: None,
                    enum_: Vec::new(),
                };
                assert(p@.enum_ =~= Seq::<Seq<char>>::empty());
                op.push_parameter(Either::Right(p));
                assert(op@.parameters =~= old(op)@.parameters + me.added_parameters());
            },
            OperationModifier::Multipart { data_type, format, .. } => {
                let p = Parameter {
                    description: None,
                    in_: ParameterIn::FormData,
                    name: String::from_str("file_data"),
                    required: true,
                    schema: None,
                    data_type: Some(data_type),
                    format: format,
                    enum_: Vec::new(),
                };
                assert(p@.enum_ =~= Seq::<Seq<char>>::empty());
                op.push_parameter(Either::Right(p));
                assert(op@.parameters =~= old(op)@.parameters + me.added_parameters());
            },
            OperationModifier::Params { location, raw } => {
                push_extractor_parameters(location, raw, op);
            },
            OperationModifier::PathTuple { elements } => {
                let ghost els = elements@;
                let n = elements.len();
                let mut rest = elements;
                for i in 0..n
                    invariant
                        n == els.len(),
                        rest@ == els.skip(i as int),
                        op@ == (OperationView {
                            parameters: old(op)@.parameters + tuple_parameters(els.take(i as int)),
                            ..old(op)@
                        }),
                {
                    let e = rest.remove(0);
                    push_path_parameter(e, op);
                    proof {
                        assert(tuple_parameters(els.take(i + 1)) =~= tuple_parameters(
                            els.take(i as int),
                        ).push(Either::Right(path_parameter(els[i as int]@))));
                    }
                }
                assert(els.take(n as int) =~= els);
            },
        }
    }

    /// Adds the responses the type stands for to the operation.
    pub fn update_response(self, op: &mut DefaultOperationRaw)
        ensures
            final(op)@ == (OperationView {
                responses: self.response_effect(old(op)@.responses),
                ..old(op)@
            }),
        decreases self,
    {
        match self {
            OperationModifier::Optional(inner) => {
                (*inner).update_response(op);
            },
            OperationModifier::Fallible { ok, errors, .. } => {
                (*ok).update_response(op);
                update_error_definitions_from_schema_type(&errors, op);
            },
            OperationModifier::Json { item } => {
                let mut def = item;
                def.retain_ref();
                let r = DefaultResponseRaw {
                    description: Some(String::from_str("OK")),
                    schema: Some(def),
                };
                op.insert_response(String::from_str("200"), Either::Right(r));
            },
            _ => {},
        }
    }

    /// Adds the global definitions the type needs.
    pub fn update_definitions(self, map: &mut StrMap<DefaultSchemaRaw>)
        ensures
            final(map)@ == self.definitions_effect(old(map)@),
        decreases self,
    {
        match self {
            OperationModifier::Optional(inner) => (*inner).update_definitions(map),
            OperationModifier::Fallible { ok, .. } => (*ok).update_definitions(map),
            // Extractors use their type only for its properties.
            OperationModifier::Params { .. } => {},
            OperationModifier::Schema(info) => update_definitions_from_schema_type(info.schema, map),
            OperationModifier::Json { item } => update_definitions_from_schema_type(item, map),
            OperationModifier::Multipart { schema, .. } => update_definitions_from_schema_type(
                schema.schema,
                map,
            ),
            // A tuple of segments declares no schema that could be defined.
            OperationModifier::PathTuple { .. } => {},
        }
    }

    /// Adds the security requirement the type stands for to the operation.
    pub fn update_security(&self, op: &mut DefaultOperationRaw)
        ensures
            final(op)@ == (OperationView {
                security: old(op)@.security + self.security_effect(),
                ..old(op)@
            }),
        decreases self,
    {
        match self {
            OperationModifier::Optional(inner) => inner.update_security(op),
            OperationModifier::Schema(info) => update_security(info, op),
            OperationModifier::Fallible { schema, .. } => update_security(schema, op),
            OperationModifier::Multipart { schema, .. } => update_security(schema, op),
            _ => {},
        }
    }

    /// Adds the security scheme the type stands for to the security
    /// definitions.
    pub fn update_security_definitions(&self, map: &mut StrMap<SecurityScheme>)
        ensures
            schemes_view(*final(map)) == self.security_definitions_effect(schemes_view(*old(map))),
        decreases self,
    {
        match self {
            OperationModifier::Optional(inner) => inner.update_security_definitions(map),
            OperationModifier::Fallible { ok, .. } => ok.update_security_definitions(map),
            OperationModifier::Schema(info) => update_security_definitions(info, map),
            OperationModifier::Multipart { schema, .. } => update_security_definitions(schema, map),
            _ => {},
        }
    }
}

// ---------------------------------------------------------------------------
// Handlers.

/// The parameters that a list of arguments appends, in argument order.
pub open spec fn args_parameters(args: Seq<OperationModifier>) -> Seq<Either<Seq<char>, ParameterView>>
    decreases args.len(),
{
    if args.len() == 0 {
        Seq::empty()
    } else {
        args_parameters(args.drop_last()) + args.last().added_parameters()
    }
}

/// The security requirements that a list of arguments appends, in order.
pub open spec fn args_security(args: Seq<OperationModifier>) -> Seq<Map<Seq<char>, Seq<Seq<char>>>>
    decreases args.len(),
{
    if args.len() == 0 {
        Seq::empty()
    } else {
        args_security(args.drop_last()) + args.last().security_effect()
    }
}

/// The definitions after each argument, in order, has added its own.
pub open spec fn args_definitions(
    args: Seq<OperationModifier>,
    m: Map<Seq<char>, DefaultSchemaRaw>,
) -> Map<Seq<char>, DefaultSchemaRaw>
    decreases args.len(),
{
    if args.len() == 0 {
        m
    } else {
        args.last().definitions_effect(args_definitions(args.drop_last(), m))
    }
}

/// The security definitions after each argument, in order, has added its
/// scheme.
pub open spec fn args_security_definitions(
    args: Seq<OperationModifier>,
    m: Map<Seq<char>, SecuritySchemeView>,
) -> Map<Seq<char>, SecuritySchemeView>
    decreases args.len(),
{
    if args.len() == 0 {
        m
    } else {
        args.last().security_definitions_effect(args_security_definitions(args.drop_last(), m))
    }
}

/// A handler: the types of its arguments, and the type its future resolves to.
pub struct HandlerSignature {
    pub args: Vec<OperationModifier>,
    pub ret: OperationModifier,
}

impl HandlerSignature {
    /// The operation of the handler: the parameters and security
    /// requirements of its arguments, in order, and the responses of its
    /// output.
    pub open spec fn operation_view(self) -> OperationView {
        OperationView {
            parameters: args_parameters(self.args@),
            security: args_security(self.args@),
            responses: self.ret.response_effect(Map::empty()),
            ..empty_operation()
        }
    }

    /// The security definitions the handler's arguments bring.
    pub open spec fn security_definitions_view(self) -> Map<Seq<char>, SecuritySchemeView> {
        args_security_definitions(self.args@, Map::empty())
    }

    /// The definitions the handler's arguments and output bring.
    pub open spec fn definitions_view(self) -> Map<Seq<char>, DefaultSchemaRaw> {
        self.ret.definitions_effect(args_definitions(self.args@, Map::empty()))
    }

    /// Builds the operation of the handler.
    pub fn operation(self) -> (op: DefaultOperationRaw)
        ensures
            op@ == self.operation_view(),
    {
        let ghost args0 = self.args@;
        let HandlerSignature { args, ret } = self;
        let mut op = DefaultOperationRaw::default();
        let n = args.len();
        let mut rest = args;
        for i in 0..n
            invariant
                n == args0.len(),
                rest@ == args0.skip(i as int),
                op@ == (OperationView {
                    parameters: args_parameters(args0.take(i as int)),
                    security: args_security(args0.take(i as int)),
                    ..empty_operation()
                }),
        {
            let arg = rest.remove(0);
            proof {
                assert(args0.take(i + 1).drop_last() =~= args0.take(i as int));
            }
            // The two updates touch different parts of the operation, so
            // their order does not matter; the requirement is read first
            // because adding the parameters consumes the argument.
            arg.update_security(&mut op);
            arg.update_parameter(&mut op);
        }
        proof {
            assert(args0.take(n as int) =~= args0);
        }
        ret.update_response(&mut op);
        op
    }

    /// Collects the security schemes the handler's arguments name.
    pub fn security_definitions(&self) -> (map: StrMap<SecurityScheme>)
        ensures
            schemes_view(map) == self.security_definitions_view(),
    {
        let mut map: StrMap<SecurityScheme> = StrMap::new();
        let n = self.args.len();
        for i in 0..n
            invariant
                n == self.args@.len(),
                schemes_view(map) == args_security_definitions(
                    self.args@.take(i as int),
                    Map::empty(),
                ),
        {
            proof {
                assert(self.args@.take(i + 1).drop_last() =~= self.args@.take(i as int));
            }
            self.args[i].update_security_definitions(&mut map);
        }
        proof {
            assert(self.args@.take(n as int) =~= self.args@);
        }
        map
    }

    /// Collects the definitions the handler's arguments and output need.
    pub fn definitions(self) -> (map: StrMap<DefaultSchemaRaw>)
        ensures
            map@ == self.definitions_view(),
    {
        let ghost args0 = self.args@;
        let HandlerSignature { args, ret } = self;
        let mut map: StrMap<DefaultSchemaRaw> = StrMap::new();
        let n = args.len();
        let mut rest = args;
        for i in 0..n
            invariant
                n == args0.len(),
                rest@ == args0.skip(i as int),
                map@ == args_definitions(args0.take(i as int), Map::empty()),
        {
            let arg = rest.remove(0);
            proof {
                assert(args0.take(i + 1).drop_last() =~= args0.take(i as int));
            }
            arg.update_definitions(&mut map);
        }
        proof {
            assert(args0.take(n as int) =~= args0);
        }
        ret.update_definitions(&mut map);
        map
    }
}

/// The operation of a wrapped handler: the generated operation, with the
/// summary and description declared for the handler where it declares them,
/// and always with the declared tags.
pub open spec fn wrapped_operation(declared: OperationView, generated: OperationView) -> OperationView {
    OperationView {
        summary: first_present(declared.summary, generated.summary),
        description: first_present(declared.description, generated.description),
        tags: declared.tags,
        ..generated
    }
}

/// The operation declared for a handler (summary, description, tags), to be
/// laid over the operation generated for it.
pub struct OperationWrapper {
    operation: DefaultOperationRaw,
}

impl OperationWrapper {
    /// The operation declared for the handler.
    pub closed spec fn declared(self) -> OperationView {
        self.operation@
    }

    pub fn new(operation: DefaultOperationRaw) -> (w: Self)
        ensures
            w.declared() == operation@,
    {
        OperationWrapper { operation }
    }

    /// Returns the definition for this operation: the generated operation,
    /// with the declared summary and description where they are declared,
    /// and with the declared tags.
    pub fn operation(&self, generated: DefaultOperationRaw) -> (op: DefaultOperationRaw)
        ensures
            op@ == wrapped_operation(self.declared(), generated@),
    {
        let mut operation = generated;
        if self.operation.summary.is_some() {
            operation.summary = copy_opt_str(&self.operation.summary);
        }
        if self.operation.description.is_some() {
            operation.description = copy_opt_str(&self.operation.description);
        }
        operation.tags = copy_strs(&self.operation.tags);
        operation
    }

    /// Returns a map of security definitions that will be merged globally.
    pub fn security_definitions(&self, generated: &HandlerSignature) -> (map: StrMap<SecurityScheme>)
        ensures
            schemes_view(map) == generated.security_definitions_view(),
    {
        generated.security_definitions()
    }

    /// Returns the definitions used by this operation.
    pub fn definitions(&self, generated: HandlerSignature) -> (map: StrMap<DefaultSchemaRaw>)
        ensures
            map@ == generated.definitions_view(),
    {
        generated.definitions()
    }
}

/// Wrapper for wrapping over `impl Responder` thingies (to avoid breakage).
pub struct ResponderWrapper<T>(pub T);

} // verus!
