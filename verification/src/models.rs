//! The parts of an OpenAPI v2 document that operations are built from:
//! schemas, parameters, responses, operations and security schemes, each
//! with a view over mathematical values.
use crate::strmap::{
    ascending_entries, entries_get, entries_insert, entries_map, entry_keys, keys_ascending,
    keys_distinct, lemma_ascending_distinct, lemma_dom_is_keys, lemma_entries_empty, StrMap,
    StrSet,
};
use crate::text::{copy_opt_str, first_present, opt_str_view, or_str, strs_view};
use vstd::prelude::*;
use vstd::string::*;

verus! {

/// One of two alternatives (a reference or an inline object, a flag or a
/// schema).
pub enum Either<L, R> {
    Left(L),
    Right(R),
}

impl<L: View, R: View> View for Either<L, R> {
    type V = Either<L::V, R::V>;

    open spec fn view(&self) -> Either<L::V, R::V> {
        match self {
            Either::Left(l) => Either::Left(l@),
            Either::Right(r) => Either::Right(r@),
        }
    }
}

/// Where a parameter is passed.
#[derive(Clone, Copy, Debug, PartialEq, Eq, Structural)]
pub enum ParameterIn {
    Query,
    Header,
    Path,
    FormData,
    Body,
}

/// The primitive type of a schema or parameter.
#[derive(Clone, Copy, Debug, PartialEq, Eq, Structural)]
pub enum DataType {
    Integer,
    Number,
    String,
    Boolean,
    Array,
    Object,
    File,
}

/// The format refining a data type.
#[derive(Clone, Copy, Debug, PartialEq, Eq, Structural)]
pub enum DataTypeFormat {
    Int32,
    Int64,
    Float,
    Double,
    Byte,
    Binary,
    Date,
    DateTime,
    Password,
    Url,
    Uuid,
    Ip,
    IpV4,
    IpV6,
    Other,
}

/// A `$ref` to a definition elsewhere in the document.
pub struct Reference {
    pub reference: String,
}

impl View for Reference {
    type V = Seq<char>;

    open spec fn view(&self) -> Seq<char> {
        self.reference@
    }
}

/// A schema as this library builds and moves it.
///
/// `name` is the name under which the schema is defined globally (it is not
/// part of the written document); `reference` is its `$ref`.
pub struct DefaultSchemaRaw {
    pub name: Option<String>,
    pub reference: Option<String>,
    pub description: Option<String>,
    pub data_type: Option<DataType>,
    pub format: Option<DataTypeFormat>,
    pub properties: Properties,
    pub required: StrSet,
    pub items: Option<Box<DefaultSchemaRaw>>,
    pub extra_props: Option<Either<bool, Box<DefaultSchemaRaw>>>,
    pub enum_: Vec<String>,
}

/// The properties of an object schema, walked in ascending name order.
pub struct Properties {
    entries: Vec<(String, Box<DefaultSchemaRaw>)>,
}

impl View for Properties {
    type V = Map<Seq<char>, Box<DefaultSchemaRaw>>;

    open spec fn view(&self) -> Map<Seq<char>, Box<DefaultSchemaRaw>> {
        entries_map(self.entries())
    }
}

impl Properties {
    #[verifier::type_invariant]
    spec fn ascending(self) -> bool {
        ascending_entries(self.entries@)
    }

    /// The properties in ascending name order.
    pub closed spec fn entries(self) -> Seq<(String, Box<DefaultSchemaRaw>)> {
        self.entries@
    }

    /// No properties.
    pub fn new() -> (p: Self)
        ensures
            p@ == Map::<Seq<char>, Box<DefaultSchemaRaw>>::empty(),
            p.entries().len() == 0,
    {
        let p = Properties { entries: Vec::new() };
        p
    }

    /// The number of properties.
    pub fn len(&self) -> (n: usize)
        ensures
            n == self.entries().len(),
            n == self@.dom().len(),
    {
        proof {
            use_type_invariant(self);
            lemma_ascending_distinct(self.entries@);
            lemma_dom_is_keys(self.entries@);
        }
        self.entries.len()
    }

    /// Whether there are no properties.
    pub fn is_empty(&self) -> (b: bool)
        ensures
            b == (self@ == Map::<Seq<char>, Box<DefaultSchemaRaw>>::empty()),
            b == (self.entries().len() == 0),
    {
        proof {
            use_type_invariant(self);
            lemma_ascending_distinct(self.entries@);
            lemma_entries_empty(self.entries@);
        }
        self.entries.len() == 0
    }

    /// The schema of the property `name`, if any.
    pub fn get(&self, name: &str) -> (r: Option<&Box<DefaultSchemaRaw>>)
        ensures
            match r {
                Some(v) => self@.contains_key(name@) && *v == self@[name@],
                None => !self@.contains_key(name@),
            },
    {
        proof {
            use_type_invariant(self);
        }
        entries_get(&self.entries, name)
    }

    /// Sets the schema of the property `name`, giving back the one it replaces.
    pub fn insert(&mut self, name: String, schema: Box<DefaultSchemaRaw>) -> (prev: Option<
        Box<DefaultSchemaRaw>,
    >)
        ensures
            final(self)@ == old(self)@.insert(name@, schema),
            match prev {
                Some(v) => old(self)@.contains_key(name@) && v == old(self)@[name@],
                None => !old(self)@.contains_key(name@),
            },
    {
        proof {
            use_type_invariant(&*self);
        }
        let mut es: Vec<(String, Box<DefaultSchemaRaw>)> = Vec::new();
        std::mem::swap(&mut es, &mut self.entries);
        let prev = entries_insert(&mut es, name, schema);
        self.entries = es;
        prev
    }

    /// Hands out the properties in ascending name order.
    pub fn into_entries(self) -> (es: Vec<(String, Box<DefaultSchemaRaw>)>)
        ensures
            es@ == self.entries(),
            keys_ascending(entry_keys(es@)),
            keys_distinct(es@),
            entries_map(es@) == self@,
    {
        proof {
            use_type_invariant(&self);
            lemma_ascending_distinct(self.entries@);
        }
        self.entries
    }
}

/// The view of one level of a schema; nested schemas stay as they are.
pub struct SchemaView {
    pub name: Option<Seq<char>>,
    pub reference: Option<Seq<char>>,
    pub description: Option<Seq<char>>,
    pub data_type: Option<DataType>,
    pub format: Option<DataTypeFormat>,
    pub properties: Map<Seq<char>, Box<DefaultSchemaRaw>>,
    pub required: Set<Seq<char>>,
    pub items: Option<Box<DefaultSchemaRaw>>,
    pub extra_props: Option<Either<bool, Box<DefaultSchemaRaw>>>,
    pub enum_: Seq<Seq<char>>,
}

impl View for DefaultSchemaRaw {
    type V = SchemaView;

    open spec fn view(&self) -> SchemaView {
        SchemaView {
            name: opt_str_view(self.name),
            reference: opt_str_view(self.reference),
            description: opt_str_view(self.description),
            data_type: self.data_type,
            format: self.format,
            properties: self.properties@,
            required: self.required@,
            items: self.items,
            extra_props: self.extra_props,
            enum_: strs_view(self.enum_@),
        }
    }
}

/// A schema that only refers to a definition, or the empty schema.
pub open spec fn bare_schema(reference: Option<Seq<char>>) -> SchemaView {
    SchemaView {
        name: None,
        reference: reference,
        description: None,
        data_type: None,
        format: None,
        properties: Map::empty(),
        required: Set::empty(),
        items: None,
        extra_props: None,
        enum_: Seq::empty(),
    }
}

/// A schema with everything but its reference dropped, if it has one.
pub open spec fn retained(s: SchemaView) -> SchemaView {
    if s.reference is Some {
        bare_schema(s.reference)
    } else {
        s
    }
}

/// The `$ref` of the definition stored under `name`.
pub open spec fn definition_ref(name: Seq<char>) -> Seq<char> {
    "#/definitions/"@ + name
}

impl Default for DefaultSchemaRaw {
    fn default() -> (s: Self)
        ensures
            s@ == bare_schema(None),
    {
        let s = DefaultSchemaRaw {
            name: None,
            reference: None,
            description: None,
            data_type: None,
            format: None,
            properties: Properties::new(),
            required: StrSet::new(),
            items: None,
            extra_props: None,
            enum_: Vec::new(),
        };
        assert(s@.enum_ =~= Seq::<Seq<char>>::empty());
        s
    }
}

impl DefaultSchemaRaw {
    /// Keeps only the reference, if the schema has one; a schema without a
    /// reference is left as it is.
    pub fn retain_ref(&mut self)
        ensures
            final(self)@ == retained(old(self)@),
    {
        if self.reference.is_some() {
            let reference = self.reference.take();
            *self = DefaultSchemaRaw::default();
            self.reference = reference;
        }
    }

    /// The schema, referring to the definition stored under `name`; this is
    /// how a named type's schema points at its own definition.
    pub fn with_definition_ref(self, name: &str) -> (s: Self)
        ensures
            s@ == (SchemaView { reference: Some(definition_ref(name@)), ..self@ }),
    {
        let mut s = self;
        let mut r = String::from_str("#/definitions/");
        r.append(name);
        s.reference = Some(r);
        s
    }

    /// Drops the schema's own reference, so that it can be stored as the
    /// definition the reference points to.
    pub fn remove_refs(&mut self)
        ensures
            *final(self) == (DefaultSchemaRaw { reference: None, ..*old(self) }),
    {
        self.reference = None;
    }
}

/// A parameter of an operation.
pub struct Parameter {
    pub description: Option<String>,
    pub in_: ParameterIn,
    pub name: String,
    pub required: bool,
    pub schema: Option<DefaultSchemaRaw>,
    pub data_type: Option<DataType>,
    pub format: Option<DataTypeFormat>,
    pub enum_: Vec<String>,
}

pub struct ParameterView {
    pub description: Option<Seq<char>>,
    pub in_: ParameterIn,
    pub name: Seq<char>,
    pub required: bool,
    pub schema: Option<SchemaView>,
    pub data_type: Option<DataType>,
    pub format: Option<DataTypeFormat>,
    pub enum_: Seq<Seq<char>>,
}

pub open spec fn opt_schema_view(s: Option<DefaultSchemaRaw>) -> Option<SchemaView> {
    match s {
        Some(x) => Some(x@),
        None => None,
    }
}

impl View for Parameter {
    type V = ParameterView;

    open spec fn view(&self) -> ParameterView {
        ParameterView {
            description: opt_str_view(self.description),
            in_: self.in_,
            name: self.name@,
            required: self.required,
            schema: opt_schema_view(self.schema),
            data_type: self.data_type,
            format: self.format,
            enum_: strs_view(self.enum_@),
        }
    }
}

/// A response of an operation.
pub struct DefaultResponseRaw {
    pub description: Option<String>,
    pub schema: Option<DefaultSchemaRaw>,
}

pub struct ResponseView {
    pub description: Option<Seq<char>>,
    pub schema: Option<SchemaView>,
}

impl View for DefaultResponseRaw {
    type V = ResponseView;

    open spec fn view(&self) -> ResponseView {
        ResponseView {
            description: opt_str_view(self.description),
            schema: opt_schema_view(self.schema),
        }
    }
}

/// Security requirements: scheme names and the scopes required of each.
pub open spec fn requirement_view(m: StrMap<Vec<String>>) -> Map<Seq<char>, Seq<Seq<char>>> {
    m@.map_values(|v: Vec<String>| strs_view(v@))
}

/// A transfer protocol an operation may be served over.
#[derive(Clone, Copy, Debug, PartialEq, Eq, Structural)]
pub enum OperationProtocol {
    Http,
    Https,
    Ws,
    Wss,
}

/// The view of an optional set of strings.
pub open spec fn opt_set_view(o: Option<StrSet>) -> Option<Set<Seq<char>>> {
    match o {
        Some(s) => Some(s@),
        None => None,
    }
}

/// An operation: one method on one path.
pub struct DefaultOperationRaw {
    pub tags: Vec<String>,
    pub summary: Option<String>,
    pub description: Option<String>,
    pub operation_id: Option<String>,
    pub consumes: Option<StrSet>,
    pub produces: Option<StrSet>,
    pub schemes: Vec<OperationProtocol>,
    pub deprecated: bool,
    pub parameters: Vec<Either<Reference, Parameter>>,
    pub responses: StrMap<Either<Reference, DefaultResponseRaw>>,
    pub security: Vec<StrMap<Vec<String>>>,
}

pub struct OperationView {
    pub tags: Seq<Seq<char>>,
    pub summary: Option<Seq<char>>,
    pub description: Option<Seq<char>>,
    pub operation_id: Option<Seq<char>>,
    pub consumes: Option<Set<Seq<char>>>,
    pub produces: Option<Set<Seq<char>>>,
    pub schemes: Seq<OperationProtocol>,
    pub deprecated: bool,
    pub parameters: Seq<Either<Seq<char>, ParameterView>>,
    pub responses: Map<Seq<char>, Either<Seq<char>, ResponseView>>,
    pub security: Seq<Map<Seq<char>, Seq<Seq<char>>>>,
}

impl View for DefaultOperationRaw {
    type V = OperationView;

    open spec fn view(&self) -> OperationView {
        OperationView {
            summary: opt_str_view(self.summary),
            description: opt_str_view(self.description),
            tags: strs_view(self.tags@),
            operation_id: opt_str_view(self.operation_id),
            consumes: opt_set_view(self.consumes),
            produces: opt_set_view(self.produces),
            schemes: self.schemes@,
            deprecated: self.deprecated,
            parameters: self.parameters@.map_values(|p: Either<Reference, Parameter>| p@),
            responses: self.responses@.map_values(
                |r: Either<Reference, DefaultResponseRaw>| r@,
            ),
            security: self.security@.map_values(|m: StrMap<Vec<String>>| requirement_view(m)),
        }
    }
}

/// The operation with nothing in it.
pub open spec fn empty_operation() -> OperationView {
    OperationView {
        summary: None,
        description: None,
        tags: Seq::empty(),
        operation_id: None,
        consumes: None,
        produces: None,
        schemes: Seq::empty(),
        deprecated: false,
        parameters: Seq::empty(),
        responses: Map::empty(),
        security: Seq::empty(),
    }
}

impl Default for DefaultOperationRaw {
    fn default() -> (op: Self)
        ensures
            op@ == empty_operation(),
    {
        let op = DefaultOperationRaw {
            summary: None,
            description: None,
            tags: Vec::new(),
            operation_id: None,
            consumes: None,
            produces: None,
            schemes: Vec::new(),
            deprecated: false,
            parameters: Vec::new(),
            responses: StrMap::new(),
            security: Vec::new(),
        };
        assert(op@.tags =~= Seq::<Seq<char>>::empty());
        assert(op@.parameters =~= Seq::<Either<Seq<char>, ParameterView>>::empty());
        assert(op@.responses =~= Map::<Seq<char>, Either<Seq<char>, ResponseView>>::empty());
        assert(op@.security =~= Seq::<Map<Seq<char>, Seq<Seq<char>>>>::empty());
        op
    }
}

impl DefaultOperationRaw {
    /// Appends a parameter.
    pub fn push_parameter(&mut self, p: Either<Reference, Parameter>)
        ensures
            final(self)@ == (OperationView { parameters: old(self)@.parameters.push(p@), ..old(self)@ }),
    {
        self.parameters.push(p);
        assert(self@.parameters =~= old(self)@.parameters.push(p@));
    }

    /// Stores a response under a status code.
    pub fn insert_response(&mut self, status: String, r: Either<Reference, DefaultResponseRaw>)
        ensures
            final(self)@ == (OperationView {
                responses: old(self)@.responses.insert(status@, r@),
                ..old(self)@
            }),
    {
        let ghost k = status@;
        self.responses.insert(status, r);
        assert(self@.responses =~= old(self)@.responses.insert(k, r@));
    }

    /// Appends a security requirement.
    pub fn push_security(&mut self, req: StrMap<Vec<String>>)
        ensures
            final(self)@ == (OperationView {
                security: old(self)@.security.push(requirement_view(req)),
                ..old(self)@
            }),
    {
        self.security.push(req);
        assert(self@.security =~= old(self)@.security.push(requirement_view(req)));
    }
}

/// A security scheme of the document.
pub struct SecurityScheme {
    pub type_: String,
    pub name: Option<String>,
    pub in_: Option<String>,
    pub flow: Option<String>,
    pub auth_url: Option<String>,
    pub token_url: Option<String>,
    pub scopes: StrMap<String>,
    pub description: Option<String>,
}

pub struct SecuritySchemeView {
    pub type_: Seq<char>,
    pub name: Option<Seq<char>>,
    pub in_: Option<Seq<char>>,
    pub flow: Option<Seq<char>>,
    pub auth_url: Option<Seq<char>>,
    pub token_url: Option<Seq<char>>,
    pub scopes: Map<Seq<char>, Seq<char>>,
    pub description: Option<Seq<char>>,
}

impl View for SecurityScheme {
    type V = SecuritySchemeView;

    open spec fn view(&self) -> SecuritySchemeView {
        SecuritySchemeView {
            type_: self.type_@,
            name: opt_str_view(self.name),
            in_: opt_str_view(self.in_),
            flow: opt_str_view(self.flow),
            auth_url: opt_str_view(self.auth_url),
            token_url: opt_str_view(self.token_url),
            scopes: self.scopes@.map_values(|s: String| s@),
            description: opt_str_view(self.description),
        }
    }
}

/// A map of security schemes by name, viewed.
pub open spec fn schemes_view(m: StrMap<SecurityScheme>) -> Map<Seq<char>, SecuritySchemeView> {
    m@.map_values(|s: SecurityScheme| s@)
}

/// A scheme defined again under a name it already has: what was already
/// there wins, gaps are filled from the new one, and the scopes of both are
/// kept, the new one's descriptions winning.
pub open spec fn merged_scheme(existing: SecuritySchemeView, new: SecuritySchemeView) -> SecuritySchemeView {
    SecuritySchemeView {
        type_: existing.type_,
        name: first_present(existing.name, new.name),
        in_: first_present(existing.in_, new.in_),
        flow: first_present(existing.flow, new.flow),
        auth_url: first_present(existing.auth_url, new.auth_url),
        token_url: first_present(existing.token_url, new.token_url),
        scopes: existing.scopes.union_prefer_right(new.scopes),
        description: first_present(existing.description, new.description),
    }
}

/// The map of schemes after defining `scheme` under `name`.
pub open spec fn define_scheme(
    m: Map<Seq<char>, SecuritySchemeView>,
    name: Seq<char>,
    scheme: SecuritySchemeView,
) -> Map<Seq<char>, SecuritySchemeView> {
    if m.contains_key(name) {
        m.insert(name, merged_scheme(m[name], scheme))
    } else {
        m.insert(name, scheme)
    }
}

impl SecurityScheme {
    /// A copy of the scheme.
    pub fn duplicate(&self) -> (s: Self)
        ensures
            s@ == self@,
    {
        let scopes = self.scopes.duplicate();
        let s = SecurityScheme {
            type_: self.type_.clone(),
            name: copy_opt_str(&self.name),
            in_: copy_opt_str(&self.in_),
            flow: copy_opt_str(&self.flow),
            auth_url: copy_opt_str(&self.auth_url),
            token_url: copy_opt_str(&self.token_url),
            scopes: scopes,
            description: copy_opt_str(&self.description),
        };
        s
    }

    /// Adds this scheme to the map under `name`, or merges it into the
    /// scheme already there.
    pub fn update_definitions(self, name: &str, map: &mut StrMap<SecurityScheme>)
        ensures
            schemes_view(*final(map)) == define_scheme(schemes_view(*old(map)), name@, self@),
    {
        let ghost new_view = self@;
        match map.remove(name) {
            Some(existing) => {
                let ghost existing_view = existing@;
                let SecurityScheme { type_, name: n, in_, flow, auth_url, token_url, scopes, description } = existing;
                let mut merged_scopes = scopes;
                merged_scopes.append(self.scopes);
                let merged = SecurityScheme {
                    type_: type_,
                    name: or_str(n, self.name),
                    in_: or_str(in_, self.in_),
                    flow: or_str(flow, self.flow),
                    auth_url: or_str(auth_url, self.auth_url),
                    token_url: or_str(token_url, self.token_url),
                    scopes: merged_scopes,
                    description: or_str(description, self.description),
                };
                proof {
                    assert(merged@.scopes =~= existing_view.scopes.union_prefer_right(new_view.scopes));
                }
                map.insert(name.to_owned(), merged);
            },
            None => {
                map.insert(name.to_owned(), self);
            },
        }
    }
}

} // verus!
