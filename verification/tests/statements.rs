use practicedb::create::new_table_metadata;
use practicedb::enums::{Command, FieldTypesAllowed, LogicalConnector, Operand, ValueTypes};
use practicedb::parsing::{get_field_names, parse_field, parse_values_from_token};
use practicedb::sql::{handle_sql_parsing, CatalogEntry, ParseEnd};
use practicedb::structs::{FieldObject, QueryObject, TableMetadataObject};

fn field(name: &str, t: FieldTypesAllowed) -> FieldObject {
    FieldObject { name: name.to_string(), data_type: t, is_indexed: false }
}

fn profile() -> TableMetadataObject {
    TableMetadataObject {
        table_name: "profile".to_string(),
        fields: vec![
            field("id", FieldTypesAllowed::I32),
            field("email", FieldTypesAllowed::String),
            field("username", FieldTypesAllowed::String),
        ],
    }
}

fn catalog() -> Vec<CatalogEntry> {
    vec![CatalogEntry { name: "profile".to_string(), schema: Ok(profile()) }]
}

fn texts(v: &[ValueTypes]) -> Vec<String> {
    v.iter().map(|x| x.to_string()).collect()
}

#[test]
fn select_star() {
    let mut q = QueryObject::default();
    let r = handle_sql_parsing("select * from profile", &mut q, &vec![]);
    assert!(matches!(r.end, ParseEnd::Proceed(true)));
    assert!(r.messages.is_empty());
    assert!(matches!(q.command, Some(Command::SELECT)));
    assert_eq!(texts(&q.fields), vec!["*"]);
    assert_eq!(q.table, "profile");
    assert_eq!(q.index, 4);
    assert_eq!(q.length, 4);
}

#[test]
fn select_columns() {
    let mut q = QueryObject::default();
    let r = handle_sql_parsing("select id username from profile", &mut q, &vec![]);
    assert!(matches!(r.end, ParseEnd::Proceed(true)));
    assert_eq!(texts(&q.fields), vec!["id", "username"]);
    assert_eq!(q.table, "profile");
}

#[test]
fn select_alone_runs_out() {
    let mut q = QueryObject::default();
    let r = handle_sql_parsing("select", &mut q, &vec![]);
    assert!(matches!(r.end, ParseEnd::Panic));
}

#[test]
fn select_field_last() {
    let mut q = QueryObject::default();
    let r = handle_sql_parsing("select id", &mut q, &vec![]);
    assert!(matches!(r.end, ParseEnd::Proceed(true)));
    assert_eq!(
        r.messages,
        vec!["Malformed Request. Please complete command. SELECT cannot be the final token."]
    );
}

#[test]
fn create_table() {
    let mut q = QueryObject::default();
    let r = handle_sql_parsing(
        "create profile id:i32:true email:string:false username:string",
        &mut q,
        &vec![],
    );
    assert!(matches!(r.end, ParseEnd::Proceed(true)));
    assert!(matches!(q.command, Some(Command::CREATE)));
    assert_eq!(q.table, "profile");
    assert_eq!(texts(&q.fields), vec!["id", "email", "username"]);
    assert_eq!(
        q.field_type,
        Some(vec![FieldTypesAllowed::I32, FieldTypesAllowed::String, FieldTypesAllowed::String])
    );
    assert_eq!(q.is_field_index, Some(vec![true, false, false]));
    let meta = new_table_metadata(&q).unwrap();
    assert_eq!(meta.table_name, "profile");
    assert_eq!(meta.fields.len(), 3);
    assert_eq!(meta.fields[0].name, "id");
    assert!(meta.fields[0].is_indexed);
    assert_eq!(meta.fields[2].data_type, FieldTypesAllowed::String);
}

#[test]
fn create_with_integer_name() {
    let mut q = QueryObject::default();
    let r = handle_sql_parsing("create 42 id:i32", &mut q, &vec![]);
    assert!(matches!(r.end, ParseEnd::Proceed(false)));
    assert_eq!(
        r.messages,
        vec![
            "Malformed request. Please do not user integer as table name. Attempted table name: 42"
        ]
    );
}

#[test]
fn create_with_bad_flag() {
    let mut q = QueryObject::default();
    let r = handle_sql_parsing("create t id:i32:maybe", &mut q, &vec![]);
    assert_eq!(r.messages[0], "Malformed Request. Invalid index flag (expected true or false)");
}

#[test]
fn insert_needs_schema() {
    let mut q = QueryObject::default();
    let r = handle_sql_parsing("insert profile 1:user@gmail.com:user", &mut q, &vec![]);
    match r.end {
        ParseEnd::NeedsSchema(name) => assert_eq!(name, "profile"),
        _ => panic!("expected a request for the schema"),
    }
}

#[test]
fn insert_values() {
    let mut q = QueryObject::default();
    let r = handle_sql_parsing("insert profile 1:user@gmail.com:user", &mut q, &catalog());
    assert!(matches!(r.end, ParseEnd::Proceed(true)));
    assert!(matches!(q.command, Some(Command::INSERT)));
    assert_eq!(q.table, "profile");
    assert_eq!(texts(&q.values), vec!["1", "user@gmail.com", "user"]);
}

#[test]
fn insert_column_mismatch() {
    let mut q = QueryObject::default();
    let r = handle_sql_parsing("insert profile 1:user", &mut q, &catalog());
    // The refused token is then read again as a statement of its own.
    assert!(matches!(r.end, ParseEnd::Proceed(false)));
    assert_eq!(
        r.messages,
        vec![
            "Malformed Request. Column count mismatch: expected 3, got 2",
            "Malformed Request. Please rewrite and try again 1:user",
        ]
    );
}

#[test]
fn insert_unknown_table() {
    let mut q = QueryObject::default();
    let cat = vec![CatalogEntry { name: "nope".to_string(), schema: Err("no such file".to_string()) }];
    let r = handle_sql_parsing("insert nope 1", &mut q, &cat);
    assert_eq!(r.messages[0], "Malformed Request. no such file");
    assert_eq!(r.messages.len(), 2);
}

#[test]
fn delete_with_conditions() {
    let mut q = QueryObject::default();
    let r = handle_sql_parsing(
        "delete from profile where id > 5 or username = admin",
        &mut q,
        &catalog(),
    );
    assert!(matches!(r.end, ParseEnd::Proceed(true)));
    assert!(matches!(q.command, Some(Command::DELETE)));
    assert_eq!(q.conditions.len(), 2);
    let c0 = &q.conditions[0];
    assert_eq!(c0.object_one, "id");
    assert!(c0.object_one_is_field);
    assert_eq!(c0.object_two, "5");
    assert!(!c0.object_two_is_field);
    assert_eq!(c0.operand, Operand::GT);
    assert_eq!(c0.connector, None);
    let c1 = &q.conditions[1];
    assert_eq!(c1.connector, Some(LogicalConnector::Or));
    assert_eq!(c1.operand, Operand::EQ);
    assert_eq!(c1.object_two, "admin");
}

#[test]
fn where_needs_schema() {
    let mut q = QueryObject::default();
    let r = handle_sql_parsing("delete from profile where id = 1", &mut q, &vec![]);
    match r.end {
        ParseEnd::NeedsSchema(name) => assert_eq!(name, "profile"),
        _ => panic!("expected a request for the schema"),
    }
}

#[test]
fn and_before_where() {
    let mut q = QueryObject::default();
    let r = handle_sql_parsing("delete from profile and id = 1", &mut q, &vec![]);
    assert!(matches!(r.end, ParseEnd::Proceed(false)));
    assert_eq!(r.messages[0], "Malformed Request. Malformed request. Please use where statement before 'and'. ");
}

#[test]
fn where_bad_operand() {
    let mut q = QueryObject::default();
    let r = handle_sql_parsing("delete from profile where id is 1", &mut q, &catalog());
    assert_eq!(r.messages[0], "Malformed Request. Invalid operand type provided.");
}

#[test]
fn operator_first() {
    let mut q = QueryObject::default();
    let r = handle_sql_parsing("<> id", &mut q, &vec![]);
    assert!(matches!(r.end, ParseEnd::Proceed(false)));
    assert_eq!(r.messages, vec!["Malformed Request. Please rewrite and try again. !="]);
}

#[test]
fn value_first() {
    let mut q = QueryObject::default();
    let r = handle_sql_parsing("profile", &mut q, &vec![]);
    assert!(matches!(r.end, ParseEnd::Proceed(false)));
    assert_eq!(r.messages, vec!["Malformed Request. Please rewrite and try again profile"]);
}

#[test]
fn exit_stops() {
    let mut q = QueryObject::default();
    let r = handle_sql_parsing("exit", &mut q, &vec![]);
    assert!(matches!(r.end, ParseEnd::Proceed(false)));
    let mut q2 = QueryObject::default();
    let r2 = handle_sql_parsing("   ", &mut q2, &vec![]);
    assert!(matches!(r2.end, ParseEnd::Proceed(true)));
}

#[test]
fn field_declarations() {
    let (n, t, f) = parse_field("id:i32:true").unwrap();
    assert_eq!(n.to_string(), "id");
    assert_eq!(t, FieldTypesAllowed::I32);
    assert_eq!(f, "true");
    let (_, t2, f2) = parse_field("age:i8").unwrap();
    assert_eq!(t2, FieldTypesAllowed::I8);
    assert_eq!(f2, "false");
    assert_eq!(parse_field("id").unwrap_err(), "Incorrect formatting");
    assert_eq!(parse_field("a:b:c:d").unwrap_err(), "Incorrect formatting");
    assert_eq!(parse_field("id:float").unwrap_err(), "Unknown field type");
    assert_eq!(parse_field(":i32").unwrap_err(), "Protected name for field");
    assert!(matches!(parse_field("*:i32"), Ok((ValueTypes::STAR, FieldTypesAllowed::I32, "false"))));
}

#[test]
fn insert_token_values() {
    let vals = parse_values_from_token("1:a:b", &profile()).unwrap();
    assert_eq!(texts(&vals), vec!["1", "a", "b"]);
    let err = parse_values_from_token("1:a", &profile()).unwrap_err();
    assert_eq!(err, "Column count mismatch: expected 3, got 2");
    let empty = parse_values_from_token("::", &profile()).unwrap();
    assert_eq!(texts(&empty), vec!["", "", ""]);
}

#[test]
fn field_names_of_schema() {
    let names = get_field_names(&Ok(profile())).unwrap();
    assert_eq!(names, vec!["id", "email", "username"]);
    assert_eq!(get_field_names(&Err("x".to_string())).unwrap_err(), "Table does not exist.");
}

#[test]
fn table_metadata_errors() {
    let mut q = QueryObject::default();
    assert_eq!(new_table_metadata(&q).unwrap_err(), "field_type is None");
    q.field_type = Some(vec![FieldTypesAllowed::I8]);
    assert_eq!(new_table_metadata(&q).unwrap_err(), "indexed fields is None.");
    q.is_field_index = Some(vec![false]);
    assert_eq!(new_table_metadata(&q).unwrap_err(), "Fields and field types length mismatch");
    q.fields.push(ValueTypes::String("\"quoted\"".to_string()));
    q.table = "t".to_string();
    let meta = new_table_metadata(&q).unwrap();
    assert_eq!(meta.fields[0].name, "quoted");
}

#[test]
fn query_description() {
    let mut q = QueryObject::default();
    handle_sql_parsing("delete from profile where id = 1", &mut q, &catalog());
    assert_eq!(
        q.to_string(),
        "Command: DELETE, Table: profile, Fields: [], Values: [], Conditions: [ConditionsObject { object_one: \"id\", object_two: \"1\", object_one_is_field: true, object_two_is_field: false, operand: EQ, connector: None }], Index: 7, Length: 7, Field_Types[None], Indexed_Fields[None]"
    );
    let mut q2 = QueryObject::default();
    handle_sql_parsing("create t a:i8:true b:string", &mut q2, &vec![]);
    assert_eq!(
        q2.to_string(),
        "Command: CREATE, Table: t, Fields: [a, b], Values: [], Conditions: [], Index: 4, Length: 4, Field_Types[i8, string], Indexed_Fields[true, false]"
    );
}

#[test]
fn description_escapes_quotes() {
    let mut q = QueryObject::default();
    handle_sql_parsing("delete from profile where username = a\"b", &mut q, &catalog());
    assert!(q.to_string().contains("object_two: \"a\\\"b\""));
}

#[test]
fn documented_statements() {
    let cat = catalog();
    let statements = [
        "create profile id:i32:true email:string:false username:string:false",
        "insert profile 1:user@gmail.com:user",
        "select * from profile",
        "select id username from profile",
        "delete from profile where id = 1",
        "delete from profile where id > 5 and username = admin",
    ];
    for s in statements.iter() {
        let mut q = QueryObject::default();
        let r = handle_sql_parsing(s, &mut q, &cat);
        assert!(matches!(r.end, ParseEnd::Proceed(true)), "{}", s);
        assert!(r.messages.is_empty(), "{}", s);
        assert_eq!(q.index, q.length);
    }
    let mut q = QueryObject::default();
    handle_sql_parsing("delete from profile where id > 5 and username = admin", &mut q, &cat);
    assert_eq!(q.conditions.len(), 2);
    assert_eq!(q.conditions[1].connector, Some(LogicalConnector::And));
    assert!(q.conditions[1].object_one_is_field);
    assert!(!q.conditions[1].object_two_is_field);
}

#[test]
fn create_lists_match_fields() {
    use_create("create t a:i8:true b:string c:i32:false", 3);
    let mut q = QueryObject::default();
    let r = handle_sql_parsing("create 42 id:i32", &mut q, &vec![]);
    assert!(matches!(r.end, ParseEnd::Proceed(false)));
    assert_eq!(q.field_type, Some(vec![]));
    assert_eq!(q.is_field_index, Some(vec![]));
    assert!(q.fields.is_empty());
    assert_eq!(q.table, "");
}

fn use_create(statement: &str, n: usize) {
    let mut q = QueryObject::default();
    handle_sql_parsing(statement, &mut q, &vec![]);
    assert_eq!(q.fields.len(), n);
    assert_eq!(q.field_type.as_ref().map(|v| v.len()), Some(n));
    assert_eq!(q.is_field_index.as_ref().map(|v| v.len()), Some(n));
}
