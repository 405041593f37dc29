use query_schema::data_model::{
    Capability, InternalDataModel, Model, ModelField, ScalarType, SupportedCapabilities,
};
use query_schema::naming::{camel_case, pluralize};
use query_schema::object_builder::ObjectTypeBuilder;
use query_schema::query_schema_builder::{BuildMode, QuerySchemaBuilder};
use query_schema::schema::{
    InputIdentity, InputType, ObjectIdentity, ObjectType, OutputType, QuerySchema,
};

fn scalar(name: &str, scalar: ScalarType, required: bool, unique: bool, read_only: bool) -> ModelField {
    ModelField {
        name: name.to_string(),
        scalar,
        is_required: required,
        is_unique: unique,
        is_read_only: read_only,
    }
}

fn model(name: &str, fields: Vec<ModelField>, embedded: bool) -> Model {
    Model { name: name.to_string(), fields, is_embedded: embedded }
}

fn user() -> Model {
    model(
        "User",
        vec![
            scalar("id", ScalarType::Text, true, true, true),
            scalar("name", ScalarType::Text, true, false, false),
            scalar("age", ScalarType::Int, false, false, false),
        ],
        false,
    )
}

fn tag() -> Model {
    model("Tag", vec![scalar("label", ScalarType::Text, true, false, false)], false)
}

fn build(models: Vec<Model>, capabilities: Vec<Capability>) -> QuerySchema {
    let dm = InternalDataModel { models };
    let caps = SupportedCapabilities { capabilities };
    QuerySchemaBuilder::new(&dm, &caps, BuildMode::Modern).build()
}

fn object(schema: &QuerySchema, id: ObjectIdentity) -> &ObjectType {
    let i = schema.find_output_type(id).expect("object type listed");
    &schema.output_object_types[i]
}

fn field_names(t: &ObjectType) -> Vec<String> {
    t.fields.iter().map(|f| f.name.clone()).collect()
}

fn arg_names(t: &ObjectType, field: &str) -> Vec<String> {
    let f = t.fields.iter().find(|f| f.name == field).expect("field present");
    f.arguments.iter().map(|a| a.name.clone()).collect()
}

fn output_ref(t: &OutputType) -> Option<ObjectIdentity> {
    match t {
        OutputType::Scalar(_) => None,
        OutputType::Object(id) => Some(*id),
        OutputType::List(b) | OutputType::Opt(b) => output_ref(b),
    }
}

fn input_ref(t: &InputType) -> Option<InputIdentity> {
    match t {
        InputType::Scalar(_) => None,
        InputType::Object(id) => Some(*id),
        InputType::List(b) | InputType::Opt(b) => input_ref(b),
    }
}

#[test]
fn user_model_gets_every_root_field() {
    let schema = build(vec![user()], vec![]);
    let query = object(&schema, ObjectIdentity::Query);
    assert_eq!(field_names(query), vec!["users", "user"]);
    assert_eq!(arg_names(query, "user"), vec!["where"]);
    assert_eq!(arg_names(query, "users"), vec!["where", "skip", "first", "last"]);
    let mutation = object(&schema, ObjectIdentity::Mutation);
    assert_eq!(
        field_names(mutation),
        vec!["createUser", "deleteUser", "updateUser", "upsertUser", "updateManyUsers", "deleteManyUsers"]
    );
    assert_eq!(arg_names(mutation, "createUser"), vec!["data"]);
    assert_eq!(arg_names(mutation, "updateUser"), vec!["data", "where"]);
    assert_eq!(arg_names(mutation, "upsertUser"), vec!["where", "create", "update"]);
    assert_eq!(arg_names(mutation, "updateManyUsers"), vec!["data", "where"]);
    assert_eq!(arg_names(mutation, "deleteManyUsers"), vec!["where"]);
}

#[test]
fn root_field_types_have_their_optionality() {
    let schema = build(vec![user()], vec![]);
    let query = object(&schema, ObjectIdentity::Query);
    match &query.fields[0].field_type {
        OutputType::List(inner) => match inner.as_ref() {
            OutputType::Opt(obj) => assert!(matches!(obj.as_ref(), OutputType::Object(ObjectIdentity::Model(0)))),
            _ => panic!("list elements are optional"),
        },
        _ => panic!("collection query returns a list"),
    }
    assert!(matches!(&query.fields[1].field_type, OutputType::Opt(_)));
    let mutation = object(&schema, ObjectIdentity::Mutation);
    assert!(matches!(&mutation.fields[0].field_type, OutputType::Object(ObjectIdentity::Model(0))));
    assert!(matches!(&mutation.fields[1].field_type, OutputType::Opt(_)));
    assert!(matches!(&mutation.fields[2].field_type, OutputType::Opt(_)));
    assert!(matches!(&mutation.fields[3].field_type, OutputType::Object(ObjectIdentity::Model(0))));
    assert!(matches!(&mutation.fields[4].field_type, OutputType::Object(ObjectIdentity::BatchPayload)));
    assert!(matches!(&mutation.fields[5].field_type, OutputType::Object(ObjectIdentity::BatchPayload)));
}

#[test]
fn keyless_model_gets_collection_fields_only() {
    let schema = build(vec![tag()], vec![]);
    assert_eq!(field_names(object(&schema, ObjectIdentity::Query)), vec!["tags"]);
    assert_eq!(
        field_names(object(&schema, ObjectIdentity::Mutation)),
        vec!["createTag", "updateManyTags", "deleteManyTags"]
    );
    assert!(schema.find_input_type(InputIdentity::WhereUnique(0)).is_none());
}

#[test]
fn embedded_model_is_not_served() {
    let address = model("Address", vec![scalar("street", ScalarType::Text, true, true, false)], true);
    let schema = build(vec![address], vec![]);
    assert!(object(&schema, ObjectIdentity::Query).fields.is_empty());
    assert!(object(&schema, ObjectIdentity::Mutation).fields.is_empty());
    assert!(schema.find_output_type(ObjectIdentity::Model(0)).is_none());
    assert!(schema.input_object_types.is_empty());
}

#[test]
fn empty_data_model_has_only_the_roots() {
    let schema = build(vec![], vec![]);
    assert!(object(&schema, ObjectIdentity::Query).fields.is_empty());
    assert!(object(&schema, ObjectIdentity::Mutation).fields.is_empty());
    assert_eq!(schema.output_object_types.len(), 2);
    assert_eq!(schema.output_object_types[0].name, "Query");
    assert_eq!(schema.output_object_types[1].name, "Mutation");
    assert!(schema.input_object_types.is_empty());
    assert!(matches!(schema.query, OutputType::Object(ObjectIdentity::Query)));
    assert!(matches!(schema.mutation, OutputType::Object(ObjectIdentity::Mutation)));
}

#[test]
fn embedded_model_between_served_ones_is_skipped() {
    let address = model("Address", vec![scalar("street", ScalarType::Text, true, false, false)], true);
    let schema = build(vec![user(), address, tag()], vec![]);
    assert_eq!(field_names(object(&schema, ObjectIdentity::Query)), vec!["users", "user", "tags"]);
    let mutation = object(&schema, ObjectIdentity::Mutation);
    assert_eq!(mutation.fields.len(), 9);
    assert!(mutation.fields.iter().all(|f| !f.name.contains("Address")));
}

#[test]
fn every_reachable_type_is_listed_once() {
    let address = model("Address", vec![scalar("street", ScalarType::Text, true, false, false)], true);
    let schema = build(vec![user(), tag(), address], vec![Capability::ComparisonFilters]);
    for (i, a) in schema.output_object_types.iter().enumerate() {
        for b in &schema.output_object_types[i + 1..] {
            assert_ne!(a.identity, b.identity);
        }
        for f in &a.fields {
            if let Some(id) = output_ref(&f.field_type) {
                assert!(schema.find_output_type(id).is_some());
            }
            for arg in &f.arguments {
                if let Some(id) = input_ref(&arg.arg_type) {
                    assert!(schema.find_input_type(id).is_some());
                }
            }
        }
    }
    for (i, a) in schema.input_object_types.iter().enumerate() {
        for b in &schema.input_object_types[i + 1..] {
            assert_ne!(a.identity, b.identity);
        }
        for f in &a.fields {
            if let Some(id) = input_ref(&f.field_type) {
                assert!(schema.find_input_type(id).is_some());
            }
        }
    }
    let payloads = schema
        .output_object_types
        .iter()
        .filter(|t| t.identity == ObjectIdentity::BatchPayload)
        .count();
    assert_eq!(payloads, 1);
}

#[test]
fn record_type_is_built_once() {
    let dm = InternalDataModel { models: vec![user()] };
    let mut builder = ObjectTypeBuilder::new();
    let first = builder.map_model_object_type(&dm, 0);
    let second = builder.map_model_object_type(&dm, 0);
    assert_eq!(first, second);
    assert_eq!(first, ObjectIdentity::Model(0));
    let types = builder.into_types();
    assert_eq!(types.len(), 1);
    assert_eq!(types[0].name, "User");
    let names: Vec<&str> = types[0].fields.iter().map(|f| f.name.as_str()).collect();
    assert_eq!(names, vec!["id", "name", "age"]);
    assert!(matches!(types[0].fields[2].field_type, OutputType::Opt(_)));
}

#[test]
fn filter_conditions_follow_capabilities() {
    let plain = build(vec![user()], vec![]);
    let rich = build(vec![user()], vec![Capability::ComparisonFilters, Capability::TextFilters]);
    let names = |schema: &QuerySchema| -> Vec<String> {
        let i = schema.find_input_type(InputIdentity::Where(0)).expect("filter listed");
        schema.input_object_types[i].fields.iter().map(|f| f.name.clone()).collect()
    };
    assert_eq!(
        names(&plain),
        vec!["id", "id_not", "name", "name_not", "age", "age_not", "AND", "OR", "NOT"]
    );
    assert_eq!(
        names(&rich),
        vec![
            "id", "id_not", "id_contains", "id_starts_with", "name", "name_not", "name_contains",
            "name_starts_with", "age", "age_not", "age_lt", "age_gt", "AND", "OR", "NOT"
        ]
    );
    let i = plain.find_input_type(InputIdentity::Where(0)).unwrap();
    assert_eq!(plain.input_object_types[i].name, "UserWhereInput");
}

#[test]
fn input_types_hold_the_writable_and_unique_fields() {
    let schema = build(vec![user()], vec![]);
    let fields = |id: InputIdentity| -> (String, Vec<String>) {
        let i = schema.find_input_type(id).expect("input listed");
        let t = &schema.input_object_types[i];
        (t.name.clone(), t.fields.iter().map(|f| f.name.clone()).collect())
    };
    assert_eq!(fields(InputIdentity::Create(0)), ("UserCreateInput".to_string(), vec!["name".to_string(), "age".to_string()]));
    assert_eq!(fields(InputIdentity::Update(0)), ("UserUpdateInput".to_string(), vec!["name".to_string(), "age".to_string()]));
    assert_eq!(fields(InputIdentity::WhereUnique(0)), ("UserWhereUniqueInput".to_string(), vec!["id".to_string()]));
    let i = schema.find_input_type(InputIdentity::Create(0)).unwrap();
    assert!(matches!(schema.input_object_types[i].fields[0].field_type, InputType::Scalar(ScalarType::Text)));
    assert!(matches!(schema.input_object_types[i].fields[1].field_type, InputType::Opt(_)));
}

#[test]
fn model_without_writable_fields_creates_without_arguments() {
    let log = model("Log", vec![scalar("id", ScalarType::Int, true, true, true)], false);
    let schema = build(vec![log], vec![]);
    let mutation = object(&schema, ObjectIdentity::Mutation);
    assert!(arg_names(mutation, "createLog").is_empty());
    assert_eq!(arg_names(mutation, "upsertLog"), vec!["where", "update"]);
    assert!(schema.find_input_type(InputIdentity::Create(0)).is_none());
    let i = schema.find_input_type(InputIdentity::Update(0)).expect("update input kept");
    assert!(schema.input_object_types[i].fields.is_empty());
}

#[test]
fn plural_names_follow_english_rules() {
    assert_eq!(pluralize("User"), "Users");
    assert_eq!(pluralize("Category"), "Categories");
    assert_eq!(pluralize("Day"), "Days");
    assert_eq!(pluralize("Box"), "Boxes");
    assert_eq!(pluralize("Match"), "Matches");
    assert_eq!(pluralize("Class"), "Classes");
    assert_eq!(pluralize("Y"), "Ys");
}

#[test]
fn camel_case_lowers_the_first_letter() {
    assert_eq!(camel_case("User"), "user");
    assert_eq!(camel_case("BlogPost"), "blogPost");
    assert_eq!(camel_case("already"), "already");
    assert_eq!(camel_case(""), "");
    assert_eq!(camel_case("Été"), "Été");
}

#[test]
fn plural_query_names_use_the_rules() {
    let category = model("Category", vec![scalar("slug", ScalarType::Text, true, true, false)], false);
    let schema = build(vec![category], vec![]);
    assert_eq!(field_names(object(&schema, ObjectIdentity::Query)), vec!["categories", "category"]);
    let mutation = object(&schema, ObjectIdentity::Mutation);
    assert_eq!(mutation.fields[4].name, "updateManyCategories");
    assert_eq!(mutation.fields[5].name, "deleteManyCategories");
}

#[test]
fn model_and_capability_queries() {
    let caps = SupportedCapabilities { capabilities: vec![Capability::TextFilters] };
    assert!(caps.has(Capability::TextFilters));
    assert!(!caps.has(Capability::ComparisonFilters));
    assert!(user().supports_unique_selector());
    assert!(!tag().supports_unique_selector());
    assert!(user().has_settable_fields());
    let log = model("Log", vec![scalar("id", ScalarType::Int, true, true, true)], false);
    assert!(!log.has_settable_fields());
}

#[test]
fn builder_keeps_its_mode() {
    let dm = InternalDataModel { models: vec![] };
    let caps = SupportedCapabilities { capabilities: vec![] };
    let builder = QuerySchemaBuilder::new(&dm, &caps, BuildMode::Legacy);
    assert!(matches!(builder.mode(), BuildMode::Legacy));
    let schema = builder.build();
    assert_eq!(schema.output_object_types.len(), 2);
}
