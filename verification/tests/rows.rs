use practicedb::enums::{FieldTypesAllowed, ValueTypes};
use practicedb::evaluate::get_value_by_column_id;
use practicedb::row::{build_row_byte, decode_row};
use practicedb::structs::{FieldObject, TableMetadataObject};
use practicedb::value::VariableReturn;

fn field(name: &str, t: FieldTypesAllowed) -> FieldObject {
    FieldObject { name: name.to_string(), data_type: t, is_indexed: false }
}

fn profile() -> TableMetadataObject {
    TableMetadataObject {
        table_name: "profile".to_string(),
        fields: vec![
            field("id", FieldTypesAllowed::I32),
            field("age", FieldTypesAllowed::I8),
            field("username", FieldTypesAllowed::String),
        ],
    }
}

fn words(ws: &[&str]) -> Vec<ValueTypes> {
    ws.iter().map(|w| ValueTypes::String(w.to_string())).collect()
}

#[test]
fn build_row_layout() {
    let row = build_row_byte(&profile(), &words(&["1", "-2", "brendan"])).unwrap();
    let mut expected: Vec<u8> = vec![5, 3, 4, 1, 7, 1, 0, 0, 0, 0xfe];
    expected.extend_from_slice(b"brendan");
    assert_eq!(row, expected);
}

#[test]
fn row_reads_back() {
    let schema = profile();
    let row = build_row_byte(&schema, &words(&["+0024", "-128", "user@gmail.com"])).unwrap();
    let all = decode_row(&row, &schema, &vec![0, 1, 2]).unwrap();
    assert_eq!(all, vec!["24".to_string(), "-128".to_string(), "user@gmail.com".to_string()]);
    let some = decode_row(&row, &schema, &vec![2, 0]).unwrap();
    assert_eq!(some, vec!["24".to_string(), "user@gmail.com".to_string()]);
    let none = decode_row(&row, &schema, &vec![]).unwrap();
    assert!(none.is_empty());
}

#[test]
fn row_errors() {
    let schema = profile();
    assert_eq!(
        build_row_byte(&schema, &words(&["1", "300", "x"])).unwrap_err(),
        "invalid I8 for field 'age'"
    );
    assert_eq!(
        build_row_byte(&schema, &words(&["2147483648", "1", "x"])).unwrap_err(),
        "invalid I32 for field 'id'"
    );
    let long = "a".repeat(256);
    assert_eq!(
        build_row_byte(&schema, &words(&["1", "1", long.as_str()])).unwrap_err(),
        "string byte length for field 'username' exceeds maximum of 255"
    );
    let star = vec![ValueTypes::STAR, ValueTypes::String("1".to_string())];
    assert_eq!(build_row_byte(&schema, &star).unwrap_err(), "value for field 'id' is None");
    let exact = "b".repeat(255);
    assert!(build_row_byte(&schema, &words(&["1", "1", exact.as_str()])).is_ok());
}

#[test]
fn fewer_values_than_columns() {
    // Only the pairs that both lists have are encoded; the header still
    // counts every column of the schema.
    let row = build_row_byte(&profile(), &words(&["7"])).unwrap();
    assert_eq!(row, vec![5, 3, 4, 7, 0, 0, 0]);
}

#[test]
fn decode_reports_bad_text() {
    let schema = TableMetadataObject {
        table_name: "t".to_string(),
        fields: vec![field("name", FieldTypesAllowed::String)],
    };
    let row: Vec<u8> = vec![3, 1, 2, 0xff, 0xfe];
    assert_eq!(decode_row(&row, &schema, &vec![0]).unwrap_err(), "invalid UTF-8 in field 'name'");
}

#[test]
fn decode_reports_corrupt_i32() {
    let schema = TableMetadataObject {
        table_name: "t".to_string(),
        fields: vec![field("n", FieldTypesAllowed::I32)],
    };
    let row: Vec<u8> = vec![3, 1, 2, 1, 2];
    assert_eq!(decode_row(&row, &schema, &vec![0]).unwrap_err(), "corrupt I32");
}

#[test]
fn column_values_by_length() {
    let row = build_row_byte(&profile(), &words(&["-70000", "9", "brendan"])).unwrap();
    assert!(matches!(
        get_value_by_column_id(&row, 0, FieldTypesAllowed::I32),
        Ok(VariableReturn::I32(-70000))
    ));
    assert!(matches!(get_value_by_column_id(&row, 1, FieldTypesAllowed::I8), Ok(VariableReturn::I8(9))));
    match get_value_by_column_id(&row, 2, FieldTypesAllowed::String) {
        Ok(VariableReturn::String(s)) => assert_eq!(s, "brendan"),
        _ => panic!("expected text"),
    }
    assert_eq!(
        get_value_by_column_id(&row, 3, FieldTypesAllowed::String).unwrap_err(),
        "Column 3 out of range (3)"
    );
    assert_eq!(get_value_by_column_id(&row, 2, FieldTypesAllowed::I32).unwrap_err(), "corrupt I32");
}

#[test]
fn short_text_reads_as_text() {
    // A column is read as its declared type, whatever its length.
    let row = build_row_byte(&profile(), &words(&["1", "1", "A"])).unwrap();
    match get_value_by_column_id(&row, 2, FieldTypesAllowed::String) {
        Ok(VariableReturn::String(s)) => assert_eq!(s, "A"),
        _ => panic!("expected text"),
    }
    let row4 = build_row_byte(&profile(), &words(&["1", "1", "abcd"])).unwrap();
    match get_value_by_column_id(&row4, 2, FieldTypesAllowed::String) {
        Ok(VariableReturn::String(s)) => assert_eq!(s, "abcd"),
        _ => panic!("expected text"),
    }
}

#[test]
fn column_with_bad_text() {
    let row: Vec<u8> = vec![3, 1, 2, 0xc3, 0x28];
    let err = get_value_by_column_id(&row, 0, FieldTypesAllowed::String).unwrap_err();
    let std_text = std::str::from_utf8(&[0xc3u8, 0x28]).unwrap_err().to_string();
    assert_eq!(err, format!("Invalid UTF-8: {}", std_text));
    assert!(err.len() > "Invalid UTF-8: ".len());
}
