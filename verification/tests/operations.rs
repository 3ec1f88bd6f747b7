use paperclip_actix::actix::{
    update_definitions_from_schema_type, update_error_definitions_from_schema_type,
    update_security, update_security_definitions, HandlerSignature, OperationModifier,
    OperationWrapper, ResponderWrapper, SchemaInfo,
};
use paperclip_actix::models::{
    DataType, DataTypeFormat, DefaultOperationRaw, DefaultResponseRaw, DefaultSchemaRaw, Either,
    Parameter, ParameterIn, Properties, SecurityScheme,
};
use paperclip_actix::strmap::{compare_keys, KeyOrder, StrMap, StrSet};
use paperclip_actix::text::decimal_text;

fn named(name: &str) -> DefaultSchemaRaw {
    let mut s = DefaultSchemaRaw::default();
    s.name = Some(name.to_string());
    s.reference = Some(format!("#/definitions/{}", name));
    s.data_type = Some(DataType::Object);
    s
}

fn primitive(dt: DataType, format: Option<DataTypeFormat>) -> DefaultSchemaRaw {
    let mut s = DefaultSchemaRaw::default();
    s.data_type = Some(dt);
    s.format = format;
    s
}

fn empty_info() -> SchemaInfo {
    SchemaInfo { name: None, schema: DefaultSchemaRaw::default(), security_scheme: None }
}

fn scheme(type_: &str, scopes: &[(&str, &str)]) -> SecurityScheme {
    let mut m = StrMap::new();
    for (k, v) in scopes {
        m.insert(k.to_string(), v.to_string());
    }
    SecurityScheme {
        type_: type_.to_string(),
        name: None,
        in_: None,
        flow: None,
        auth_url: None,
        token_url: None,
        scopes: m,
        description: None,
    }
}

fn auth_info(name: &str, sc: SecurityScheme) -> SchemaInfo {
    SchemaInfo {
        name: Some(name.to_string()),
        schema: DefaultSchemaRaw::default(),
        security_scheme: Some(sc),
    }
}

fn params(op: &DefaultOperationRaw) -> Vec<&Parameter> {
    op.parameters
        .iter()
        .map(|p| match p {
            Either::Right(p) => p,
            Either::Left(_) => panic!("reference parameter"),
        })
        .collect()
}

fn response<'a>(op: &'a DefaultOperationRaw, status: &str) -> &'a DefaultResponseRaw {
    match op.responses.get(status) {
        Some(Either::Right(r)) => r,
        _ => panic!("no inline response for {}", status),
    }
}

fn pet_schema() -> DefaultSchemaRaw {
    let mut pet = named("Pet");
    pet.properties.insert("name".to_string(), Box::new(primitive(DataType::String, None)));
    let mut id = primitive(DataType::Integer, Some(DataTypeFormat::Int64));
    id.description = Some("identifier".to_string());
    pet.properties.insert("id".to_string(), Box::new(id));
    pet.required.insert("id".to_string());
    pet
}

#[test]
fn keys_compare_by_code_point() {
    assert!(matches!(compare_keys("a", "b"), KeyOrder::Less));
    assert!(matches!(compare_keys("b", "a"), KeyOrder::Greater));
    assert!(matches!(compare_keys("ab", "ab"), KeyOrder::Equal));
    assert!(matches!(compare_keys("ab", "abc"), KeyOrder::Less));
    assert!(matches!(compare_keys("", "a"), KeyOrder::Less));
    assert!(matches!(compare_keys("Z", "a"), KeyOrder::Less));
    assert!(matches!(compare_keys("é", "z"), KeyOrder::Greater));
}

#[test]
fn map_walks_keys_in_ascending_order() {
    let mut m: StrMap<u32> = StrMap::new();
    assert!(m.is_empty());
    assert_eq!(m.insert("write".to_string(), 1), None);
    assert_eq!(m.insert("admin".to_string(), 2), None);
    assert_eq!(m.insert("read".to_string(), 3), None);
    assert_eq!(m.insert("read".to_string(), 4), Some(3));
    assert_eq!(m.len(), 3);
    assert_eq!(m.keys(), vec!["admin".to_string(), "read".to_string(), "write".to_string()]);
    assert_eq!(m.get("read"), Some(&4));
    assert_eq!(m.get("none"), None);
    assert!(m.contains_key("admin"));
    assert_eq!(m.remove("admin"), Some(2));
    assert_eq!(m.remove("admin"), None);
    let entries = m.into_entries();
    assert_eq!(entries, vec![("read".to_string(), 4), ("write".to_string(), 1)]);
}

#[test]
fn map_append_prefers_the_appended_values() {
    let mut a: StrMap<String> = StrMap::new();
    a.insert("read".to_string(), "old".to_string());
    a.insert("write".to_string(), "w".to_string());
    let mut b: StrMap<String> = StrMap::new();
    b.insert("read".to_string(), "new".to_string());
    b.insert("admin".to_string(), "a".to_string());
    a.append(b);
    assert_eq!(a.keys(), vec!["admin".to_string(), "read".to_string(), "write".to_string()]);
    assert_eq!(a.get("read"), Some(&"new".to_string()));
    let c = a.duplicate();
    assert_eq!(c.into_entries(), a.into_entries());
}

#[test]
fn set_membership() {
    let mut s = StrSet::new();
    assert!(s.insert("id".to_string()));
    assert!(!s.insert("id".to_string()));
    assert!(s.contains("id"));
    assert!(!s.contains("name"));
}

#[test]
fn decimal_text_of_statuses() {
    assert_eq!(decimal_text(0), "0");
    assert_eq!(decimal_text(7), "7");
    assert_eq!(decimal_text(10), "10");
    assert_eq!(decimal_text(404), "404");
    assert_eq!(decimal_text(65535), "65535");
}

#[test]
fn retain_ref_keeps_only_the_reference() {
    let mut s = pet_schema();
    s.retain_ref();
    assert_eq!(s.reference.as_deref(), Some("#/definitions/Pet"));
    assert_eq!(s.name, None);
    assert_eq!(s.data_type, None);
    assert!(s.properties.is_empty());
    let mut p = primitive(DataType::String, None);
    p.retain_ref();
    assert_eq!(p.data_type, Some(DataType::String));
}

#[test]
fn definitions_store_the_named_schema_without_its_reference() {
    let mut map = StrMap::new();
    update_definitions_from_schema_type(pet_schema(), &mut map);
    let pet = map.get("Pet").expect("Pet defined");
    assert_eq!(pet.name, None);
    assert_eq!(pet.reference, None);
    assert_eq!(pet.properties.len(), 2);
    assert_eq!(map.len(), 1);
}

#[test]
fn definitions_follow_array_items_and_map_values() {
    let mut arr = primitive(DataType::Array, None);
    arr.items = Some(Box::new(named("Pet")));
    let mut map = StrMap::new();
    update_definitions_from_schema_type(arr, &mut map);
    assert!(map.contains_key("Pet"));

    let mut dict = primitive(DataType::Object, None);
    dict.extra_props = Some(Either::Right(Box::new(named("Owner"))));
    update_definitions_from_schema_type(dict, &mut map);
    assert!(map.contains_key("Owner"));
    assert_eq!(map.len(), 2);

    let mut flag = primitive(DataType::Object, None);
    flag.extra_props = Some(Either::Left(true));
    update_definitions_from_schema_type(flag, &mut map);
    update_definitions_from_schema_type(primitive(DataType::String, None), &mut map);
    assert_eq!(map.len(), 2);
}

#[test]
fn error_statuses_become_responses() {
    let mut op = DefaultOperationRaw::default();
    let errors = vec![
        (404u16, "Not found".to_string()),
        (500u16, "Server error".to_string()),
        (404u16, "Gone missing".to_string()),
    ];
    update_error_definitions_from_schema_type(&errors, &mut op);
    assert_eq!(op.responses.keys(), vec!["404".to_string(), "500".to_string()]);
    assert_eq!(response(&op, "404").description.as_deref(), Some("Gone missing"));
    assert_eq!(response(&op, "500").description.as_deref(), Some("Server error"));
    assert!(response(&op, "500").schema.is_none());
}

#[test]
fn security_requirement_lists_all_scopes_in_order() {
    let mut op = DefaultOperationRaw::default();
    let info = auth_info("oauth", scheme("oauth2", &[("write", "w"), ("read", "r")]));
    update_security(&info, &mut op);
    assert_eq!(op.security.len(), 1);
    assert_eq!(op.security[0].keys(), vec!["oauth".to_string()]);
    assert_eq!(op.security[0].get("oauth"), Some(&vec!["read".to_string(), "write".to_string()]));

    update_security(&empty_info(), &mut op);
    assert_eq!(op.security.len(), 1);
}

#[test]
fn security_definitions_merge_under_one_name() {
    let mut map = StrMap::new();
    let mut first = scheme("oauth2", &[("read", "Read it")]);
    first.flow = Some("implicit".to_string());
    update_security_definitions(&auth_info("oauth", first), &mut map);
    let mut second = scheme("apiKey", &[("write", "Write it"), ("read", "Read all")]);
    second.flow = Some("password".to_string());
    second.auth_url = Some("https://auth".to_string());
    update_security_definitions(&auth_info("oauth", second), &mut map);
    assert_eq!(map.len(), 1);
    let merged = map.get("oauth").unwrap();
    assert_eq!(merged.type_, "oauth2");
    assert_eq!(merged.flow.as_deref(), Some("implicit"));
    assert_eq!(merged.auth_url.as_deref(), Some("https://auth"));
    assert_eq!(merged.scopes.keys(), vec!["read".to_string(), "write".to_string()]);
    assert_eq!(merged.scopes.get("read").map(String::as_str), Some("Read all"));

    update_security_definitions(&empty_info(), &mut map);
    assert_eq!(map.len(), 1);
}

#[test]
fn json_body_is_one_required_parameter() {
    let mut op = DefaultOperationRaw::default();
    OperationModifier::Json { item: pet_schema() }
        .update_parameter(&mut op);
    let ps = params(&op);
    assert_eq!(ps.len(), 1);
    assert_eq!(ps[0].name, "body");
    assert_eq!(ps[0].in_, ParameterIn::Body);
    assert!(ps[0].required);
    let schema = ps[0].schema.as_ref().unwrap();
    assert_eq!(schema.reference.as_deref(), Some("#/definitions/Pet"));
    assert!(schema.properties.is_empty());
}

#[test]
fn json_output_is_the_ok_response() {
    let mut op = DefaultOperationRaw::default();
    OperationModifier::Json { item: pet_schema() }
        .update_response(&mut op);
    assert_eq!(op.responses.keys(), vec!["200".to_string()]);
    let r = response(&op, "200");
    assert_eq!(r.description.as_deref(), Some("OK"));
    assert_eq!(r.schema.as_ref().unwrap().reference.as_deref(), Some("#/definitions/Pet"));
}

#[test]
fn query_parameters_follow_property_order() {
    let mut op = DefaultOperationRaw::default();
    OperationModifier::Params { location: ParameterIn::Query, raw: pet_schema() }
    .update_parameter(&mut op);
    let ps = params(&op);
    assert_eq!(ps.len(), 2);
    assert_eq!(ps[0].name, "id");
    assert!(ps[0].required);
    assert_eq!(ps[0].data_type, Some(DataType::Integer));
    assert_eq!(ps[0].format, Some(DataTypeFormat::Int64));
    assert_eq!(ps[0].description.as_deref(), Some("identifier"));
    assert_eq!(ps[0].in_, ParameterIn::Query);
    assert_eq!(ps[1].name, "name");
    assert!(!ps[1].required);
}

#[test]
fn path_of_a_plain_type_is_one_unnamed_parameter() {
    let mut op = DefaultOperationRaw::default();
    let mut raw = primitive(DataType::String, None);
    raw.enum_ = vec!["a".to_string(), "b".to_string()];
    OperationModifier::Params { location: ParameterIn::Path, raw }
        .update_parameter(&mut op);
    let ps = params(&op);
    assert_eq!(ps.len(), 1);
    assert_eq!(ps[0].name, "");
    assert_eq!(ps[0].in_, ParameterIn::Path);
    assert!(ps[0].required);
    assert_eq!(ps[0].enum_, vec!["a".to_string(), "b".to_string()]);

    let mut op = DefaultOperationRaw::default();
    OperationModifier::Params { location: ParameterIn::Query, raw: primitive(DataType::String, None) }
    .update_parameter(&mut op);
    assert!(op.parameters.is_empty());
}

#[test]
fn path_tuple_is_one_parameter_per_segment() {
    let mut op = DefaultOperationRaw::default();
    OperationModifier::PathTuple {
        elements: vec![
            primitive(DataType::Integer, Some(DataTypeFormat::Int32)),
            primitive(DataType::String, None),
        ],
    }
    .update_parameter(&mut op);
    let ps = params(&op);
    assert_eq!(ps.len(), 2);
    assert_eq!(ps[0].data_type, Some(DataType::Integer));
    assert_eq!(ps[0].format, Some(DataTypeFormat::Int32));
    assert_eq!(ps[1].data_type, Some(DataType::String));
    assert!(ps.iter().all(|p| p.in_ == ParameterIn::Path && p.required && p.name.is_empty()));
}

#[test]
fn multipart_is_a_file_form_parameter() {
    let mut op = DefaultOperationRaw::default();
    OperationModifier::Multipart { data_type: DataType::File, format: None, schema: empty_info() }
        .update_parameter(&mut op);
    let ps = params(&op);
    assert_eq!(ps.len(), 1);
    assert_eq!(ps[0].name, "file_data");
    assert_eq!(ps[0].in_, ParameterIn::FormData);
    assert_eq!(ps[0].data_type, Some(DataType::File));
}

#[test]
fn result_output_adds_its_error_statuses() {
    let mut op = DefaultOperationRaw::default();
    let json = OperationModifier::Json { item: pet_schema() };
    OperationModifier::Fallible {
        ok: Box::new(json),
        errors: vec![(400, "Bad request".to_string())],
        schema: empty_info(),
    }
    .update_response(&mut op);
    assert_eq!(op.responses.keys(), vec!["200".to_string(), "400".to_string()]);
    assert_eq!(response(&op, "400").description.as_deref(), Some("Bad request"));
}

#[test]
fn optional_extractor_behaves_as_its_type() {
    let mut a = DefaultOperationRaw::default();
    let mut b = DefaultOperationRaw::default();
    let q = || OperationModifier::Params { location: ParameterIn::Query, raw: pet_schema() };
    q().update_parameter(&mut a);
    OperationModifier::Optional(Box::new(q())).update_parameter(&mut b);
    let (pa, pb) = (params(&a), params(&b));
    assert_eq!(pa.len(), pb.len());
    for (x, y) in pa.iter().zip(pb.iter()) {
        assert_eq!(x.name, y.name);
        assert_eq!(x.required, y.required);
    }
}

#[test]
fn extractors_add_no_definitions() {
    let mut map = StrMap::new();
    OperationModifier::Params { location: ParameterIn::FormData, raw: pet_schema() }
        .update_definitions(&mut map);
    assert!(map.is_empty());
}

fn handler() -> HandlerSignature {
    HandlerSignature {
        args: vec![
            OperationModifier::PathTuple { elements: vec![primitive(DataType::Integer, None)] },
            OperationModifier::Schema(auth_info("oauth", scheme("oauth2", &[("read", "r")]))),
            OperationModifier::Json { item: pet_schema() },
        ],
        ret: OperationModifier::Fallible {
            ok: Box::new(OperationModifier::Json { item: named("Owner") }),
            errors: vec![(404, "Not found".to_string())],
            schema: empty_info(),
        },
    }
}

#[test]
fn handler_operation_collects_every_argument_in_order() {
    let op = handler().operation();
    let ps = params(&op);
    assert_eq!(ps.len(), 2);
    assert_eq!(ps[0].in_, ParameterIn::Path);
    assert_eq!(ps[1].name, "body");
    assert_eq!(op.security.len(), 1);
    assert_eq!(op.responses.keys(), vec!["200".to_string(), "404".to_string()]);
    assert!(op.summary.is_none());
    assert!(op.tags.is_empty());
}

#[test]
fn handler_definitions_and_security_definitions() {
    let defs = handler().definitions();
    assert_eq!(defs.keys(), vec!["Owner".to_string(), "Pet".to_string()]);
    let schemes = handler().security_definitions();
    assert_eq!(schemes.keys(), vec!["oauth".to_string()]);
}

#[test]
fn defining_twice_is_defining_once() {
    let mut once = StrMap::new();
    handler().ret.update_definitions(&mut once);
    let mut twice = StrMap::new();
    handler().ret.update_definitions(&mut twice);
    handler().ret.update_definitions(&mut twice);
    assert_eq!(once.keys(), twice.keys());

    let sc = || auth_info("oauth", scheme("oauth2", &[("read", "r"), ("write", "w")]));
    let mut a = StrMap::new();
    update_security_definitions(&sc(), &mut a);
    let mut b = StrMap::new();
    update_security_definitions(&sc(), &mut b);
    update_security_definitions(&sc(), &mut b);
    let (x, y) = (a.get("oauth").unwrap(), b.get("oauth").unwrap());
    assert_eq!(x.type_, y.type_);
    assert_eq!(x.scopes.keys(), y.scopes.keys());
}

#[test]
fn wrapped_operation_keeps_declared_summary_and_tags() {
    let mut declared = DefaultOperationRaw::default();
    declared.summary = Some("List pets".to_string());
    declared.tags = vec!["pets".to_string()];
    let w = OperationWrapper::new(declared);
    let op = w.operation(handler().operation());
    assert_eq!(op.summary.as_deref(), Some("List pets"));
    assert_eq!(op.description, None);
    assert_eq!(op.tags, vec!["pets".to_string()]);
    assert_eq!(op.parameters.len(), 2);
    assert_eq!(w.definitions(handler()).len(), 2);
    assert_eq!(w.security_definitions(&handler()).len(), 1);
}

#[test]
fn responder_wrapper_holds_its_responder() {
    let w = ResponderWrapper("ok");
    assert_eq!(w.0, "ok");
}

#[test]
fn properties_keep_ascending_names() {
    let mut p = Properties::new();
    p.insert("b".to_string(), Box::new(DefaultSchemaRaw::default()));
    p.insert("a".to_string(), Box::new(DefaultSchemaRaw::default()));
    assert!(p.get("a").is_some());
    let names: Vec<String> = p.into_entries().into_iter().map(|(k, _)| k).collect();
    assert_eq!(names, vec!["a".to_string(), "b".to_string()]);
}

#[test]
fn wrapped_operation_keeps_what_is_not_declared() {
    let mut generated = DefaultOperationRaw::default();
    generated.summary = Some("gen".to_string());
    generated.tags = vec!["a".to_string()];
    generated.operation_id = Some("listPets".to_string());
    generated.deprecated = true;
    let mut declared = DefaultOperationRaw::default();
    declared.description = Some("d".to_string());
    let op = OperationWrapper::new(declared).operation(generated);
    assert_eq!(op.summary.as_deref(), Some("gen"));
    assert_eq!(op.description.as_deref(), Some("d"));
    assert!(op.tags.is_empty());
    assert_eq!(op.operation_id.as_deref(), Some("listPets"));
    assert!(op.deprecated);
}

#[test]
fn error_responses_added_twice_are_added_once() {
    let errors = vec![(404u16, "Not found".to_string()), (404u16, "Missing".to_string())];
    let mut once = DefaultOperationRaw::default();
    update_error_definitions_from_schema_type(&errors, &mut once);
    let mut twice = DefaultOperationRaw::default();
    update_error_definitions_from_schema_type(&errors, &mut twice);
    update_error_definitions_from_schema_type(&errors, &mut twice);
    assert_eq!(once.responses.keys(), twice.responses.keys());
    assert_eq!(response(&twice, "404").description.as_deref(), Some("Missing"));
}

#[test]
fn definition_reference_names_the_definition() {
    let s = primitive(DataType::Object, None).with_definition_ref("Pet");
    assert_eq!(s.reference.as_deref(), Some("#/definitions/Pet"));
    assert_eq!(s.data_type, Some(DataType::Object));
}
