use practicedb::cache::PageCache;
use practicedb::enums::{FieldTypesAllowed, LogicalConnector, Operand, ValueTypes};
use practicedb::evaluate::{get_selected_column_ids, get_selected_column_ids_in_conditional, should_delete_row};
use practicedb::outcome::Halt;
use practicedb::page::{build_new_page, delete_row, delete_row_checked, insert_row_into_page, try_insert_row};
use practicedb::row::build_row_byte;
use practicedb::scan::parse_page;
use practicedb::structs::{ConditionsObject, FieldObject, Page, QueryObject, TableMetadataObject};

fn field(name: &str, t: FieldTypesAllowed) -> FieldObject {
    FieldObject { name: name.to_string(), data_type: t, is_indexed: false }
}

fn profile() -> TableMetadataObject {
    TableMetadataObject {
        table_name: "profile".to_string(),
        fields: vec![field("id", FieldTypesAllowed::I32), field("username", FieldTypesAllowed::String)],
    }
}

fn row(id: &str, name: &str) -> Vec<u8> {
    let vals = vec![ValueTypes::String(id.to_string()), ValueTypes::String(name.to_string())];
    build_row_byte(&profile(), &vals).unwrap()
}

fn le16(d: &[u8], at: usize) -> usize {
    d[at] as usize + 256 * d[at + 1] as usize
}

fn condition(one: &str, op: Operand, two: &str, conn: Option<LogicalConnector>) -> ConditionsObject {
    ConditionsObject {
        object_one: one.to_string(),
        object_two: two.to_string(),
        object_one_is_field: true,
        object_two_is_field: false,
        operand: op,
        connector: conn,
    }
}

fn page_with(rows: &[Vec<u8>]) -> Page {
    let mut page = Page::default();
    build_new_page(&mut page, &rows[0], rows[0].len() as u64);
    for r in rows[1..].iter() {
        assert!(insert_row_into_page(&mut page, r, r.len() as u64));
    }
    page
}

#[test]
fn new_page_header() {
    let r = row("1", "brendan");
    let l = r.len();
    let page = page_with(&[r.clone()]);
    let d = &page.data;
    assert_eq!(d[0], 0);
    assert_eq!(d[1], 1);
    assert_eq!(le16(d, 2), l);
    assert_eq!(le16(d, 4), 4096 - 15 - l);
    assert_eq!(d[6], 0);
    assert_eq!(le16(d, 7), 15);
    assert_eq!(le16(d, 9), 0);
    assert_eq!(le16(d, 11), l);
    assert_eq!(le16(d, 13), 0);
    assert_eq!(&d[4096 - l..], &r[..]);
    assert!(!page.dirty);
}

#[test]
fn insert_second_row() {
    let a = row("1", "brendan");
    let b = row("2", "sam");
    let page = page_with(&[a.clone(), b.clone()]);
    let d = &page.data;
    assert_eq!(d[1], 2);
    assert_eq!(le16(d, 2), a.len() + b.len());
    assert_eq!(le16(d, 4), 4096 - 15 - a.len() - b.len() - 4);
    assert_eq!(le16(d, 7), 19);
    assert_eq!(le16(d, 15), b.len());
    assert_eq!(le16(d, 17), a.len());
    let start = 4096 - a.len() - b.len();
    assert_eq!(&d[start..start + b.len()], &b[..]);
    assert_eq!(&d[4096 - a.len()..], &a[..]);
    assert!(page.dirty);
}

#[test]
fn insert_refused_without_room() {
    let big = vec![7u8; 4080];
    let mut page = page_with(&[big]);
    let before = page.data;
    let r = row("3", "x");
    assert!(!insert_row_into_page(&mut page, &r, r.len() as u64));
    assert_eq!(page.data, before);
    assert!(!page.dirty);
}

#[test]
fn select_scan_reads_rows_last_first() {
    let mut page = page_with(&[row("1", "brendan"), row("2", "sam")]);
    let mut q = QueryObject::default();
    q.fields.push(ValueTypes::STAR);
    let schema = profile();
    let ids = get_selected_column_ids(&q, &schema).unwrap();
    assert_eq!(ids, vec![0, 1]);
    let scan = parse_page(&mut page.data, 0, &q, &schema, &ids, false);
    assert!(scan.stop.is_none());
    assert!(!scan.modified);
    assert_eq!(
        scan.rows,
        vec![vec!["2".to_string(), "sam".to_string()], vec!["1".to_string(), "brendan".to_string()]]
    );
}

#[test]
fn select_scan_of_chosen_columns() {
    let mut page = page_with(&[row("1", "brendan")]);
    let mut q = QueryObject::default();
    q.fields.push(ValueTypes::String("username".to_string()));
    let schema = profile();
    let ids = get_selected_column_ids(&q, &schema).unwrap();
    assert_eq!(ids, vec![1]);
    let scan = parse_page(&mut page.data, 0, &q, &schema, &ids, false);
    assert_eq!(scan.rows, vec![vec!["brendan".to_string()]]);
}

#[test]
fn scan_checks_page_number() {
    let mut page = page_with(&[row("1", "a")]);
    let q = QueryObject::default();
    let scan = parse_page(&mut page.data, 1, &q, &profile(), &vec![0], false);
    match scan.stop {
        Some(Halt::Error(e)) => assert_eq!(e, "Page ID mismatch"),
        _ => panic!("expected a page number mismatch"),
    }
}

#[test]
fn delete_scan_removes_matching_rows() {
    let mut page = page_with(&[row("1", "brendan"), row("2", "sam"), row("3", "kim")]);
    let mut q = QueryObject::default();
    q.conditions.push(condition("id", Operand::EQ, "2", None));
    let schema = profile();
    assert_eq!(get_selected_column_ids_in_conditional(&q, &schema).unwrap(), vec![0]);
    let scan = parse_page(&mut page.data, 0, &q, &schema, &vec![], true);
    assert!(scan.stop.is_none());
    assert!(scan.modified);
    assert_eq!(page.data[1], 2);
    assert_eq!(le16(&page.data, 7), 19);
    // What is left reads back as the first and third rows.
    let mut all = QueryObject::default();
    all.fields.push(ValueTypes::STAR);
    let rest = parse_page(&mut page.data, 0, &all, &schema, &vec![0, 1], false);
    assert_eq!(
        rest.rows,
        vec![vec!["3".to_string(), "kim".to_string()], vec!["1".to_string(), "brendan".to_string()]]
    );
}

#[test]
fn delete_scan_without_conditions_removes_all() {
    let mut page = page_with(&[row("1", "a"), row("2", "b")]);
    let q = QueryObject::default();
    let scan = parse_page(&mut page.data, 0, &q, &profile(), &vec![], true);
    assert!(scan.stop.is_none());
    assert!(scan.modified);
    assert_eq!(page.data[1], 0);
    assert_eq!(le16(&page.data, 7), 11);
}

#[test]
fn conditions_join_left_to_right() {
    let r = row("5", "admin");
    let mut q = QueryObject::default();
    q.conditions.push(condition("id", Operand::GT, "7", None));
    q.conditions.push(condition("username", Operand::EQ, "admin", Some(LogicalConnector::Or)));
    q.conditions.push(condition("id", Operand::LT, "3", Some(LogicalConnector::And)));
    let schema = profile();
    // (false or true) and false
    assert_eq!(should_delete_row(&r, &q, &schema), Ok(false));
    q.conditions.pop();
    assert_eq!(should_delete_row(&r, &q, &schema), Ok(true));
    let none = QueryObject::default();
    assert_eq!(should_delete_row(&r, &none, &schema), Ok(true));
}

#[test]
fn condition_errors() {
    let r = row("5", "admin");
    let mut q = QueryObject::default();
    q.conditions.push(condition("id", Operand::EQ, "x", None));
    assert_eq!(should_delete_row(&r, &q, &profile()), Err("'x' is not a valid i32".to_string()));
    let mut q2 = QueryObject::default();
    let mut c = condition("a", Operand::EQ, "b", None);
    c.object_one_is_field = false;
    q2.conditions.push(c);
    assert_eq!(
        should_delete_row(&r, &q2, &profile()),
        Err("At least one side of a where statement needs to be a column".to_string())
    );
    let mut q3 = QueryObject::default();
    q3.conditions.push(condition("age", Operand::EQ, "1", None));
    assert_eq!(should_delete_row(&r, &q3, &profile()), Err("Unknown column 'age'".to_string()));
}

#[test]
fn delete_row_moves_later_slots() {
    let a = row("1", "a");
    let b = row("2", "bb");
    let c = row("3", "ccc");
    let mut page = page_with(&[a.clone(), b.clone(), c.clone()]);
    let freed_before = le16(&page.data, 9);
    let space_before = le16(&page.data, 4);
    assert_eq!(delete_row(&mut page.data, 1, b.len() as u16), Ok(()));
    let d = &page.data;
    assert_eq!(d[1], 2);
    assert_eq!(le16(d, 9), freed_before + b.len());
    assert_eq!(le16(d, 4), space_before + 4);
    assert_eq!(le16(d, 7), 19);
    assert_eq!(le16(d, 15), c.len());
    assert_eq!(le16(d, 17), a.len() + b.len());
    assert_eq!(&d[19..23], &[0u8, 0, 0, 0]);
}

#[test]
fn page_cache_use() {
    let mut cache = PageCache::new();
    assert!(cache.find("t", 0).is_none());
    let mut p = Page::default();
    p.id = 3;
    assert_eq!(cache.add("t", p), 0);
    let mut p2 = Page::default();
    p2.id = 3;
    assert_eq!(cache.add("u", p2), 1);
    assert_eq!(cache.find("u", 3), Some(1));
    assert_eq!(cache.touch("u", 3), Ok(1));
    assert_eq!(cache.clock, 1);
    assert_eq!(cache.entries[1].page.last_used, 1);
    assert_eq!(cache.entries[0].page.last_used, 0);
    assert_eq!(cache.touch("t", 4), Err("ERR: page not found in buffer or on disk".to_string()));
    assert_eq!(cache.clock, 2);
}

#[test]
fn scan_stops_past_slot_byte_range() {
    // The 63rd slot's position no longer fits one byte.
    let mut page = Page::default();
    page.data[1] = 63;
    let q = QueryObject::default();
    let scan = parse_page(&mut page.data, 0, &q, &profile(), &vec![0], false);
    assert!(matches!(scan.stop, Some(Halt::Panic)));
    assert!(scan.rows.is_empty());
}

#[test]
fn insert_stops_on_corrupt_header() {
    let mut page = Page::default();
    // Room claimed, but the stored rows already fill the page.
    page.data[2] = 0xfa;
    page.data[3] = 0x0f;
    page.data[4] = 100;
    let r = row("1", "a");
    assert!(matches!(try_insert_row(&mut page, &r, r.len() as u64), Err(Halt::Panic)));
    let mut fresh = page_with(&[row("1", "a")]);
    assert_eq!(try_insert_row(&mut fresh, &r, r.len() as u64).ok(), Some(true));
}

#[test]
fn delete_on_empty_page_stops() {
    let mut page = Page::default();
    assert!(matches!(delete_row_checked(&mut page.data, 0, 5), Err(Halt::Panic)));
}

fn three_columns() -> TableMetadataObject {
    TableMetadataObject {
        table_name: "profile".to_string(),
        fields: vec![
            field("id", FieldTypesAllowed::I32),
            field("email", FieldTypesAllowed::String),
            field("username", FieldTypesAllowed::String),
        ],
    }
}

#[test]
fn conditions_read_the_columns_they_name() {
    let schema = three_columns();
    let vals = vec![
        ValueTypes::String("5".to_string()),
        ValueTypes::String("a@b.c".to_string()),
        ValueTypes::String("admin".to_string()),
    ];
    let r = build_row_byte(&schema, &vals).unwrap();
    let mut q = QueryObject::default();
    q.conditions.push(condition("username", Operand::EQ, "admin", None));
    q.conditions.push(condition("id", Operand::GT, "4", Some(LogicalConnector::And)));
    assert_eq!(should_delete_row(&r, &q, &schema), Ok(true));
    let mut mirrored = QueryObject::default();
    let mut c = condition("4", Operand::LT, "id", None);
    c.object_one_is_field = false;
    c.object_two_is_field = true;
    mirrored.conditions.push(c);
    assert_eq!(should_delete_row(&r, &mirrored, &schema), Ok(true));
}

#[test]
fn conditions_read_by_declared_type() {
    let schema = TableMetadataObject {
        table_name: "t".to_string(),
        fields: vec![field("id", FieldTypesAllowed::I32), field("name", FieldTypesAllowed::String)],
    };
    let vals = vec![ValueTypes::String("1".to_string()), ValueTypes::String("abcd".to_string())];
    let r = build_row_byte(&schema, &vals).unwrap();
    assert_eq!(r, vec![4, 2, 4, 4, 1, 0, 0, 0, 97, 98, 99, 100]);
    let mut q = QueryObject::default();
    q.conditions.push(condition("name", Operand::EQ, "abcd", None));
    assert_eq!(should_delete_row(&r, &q, &schema), Ok(true));
}

#[test]
fn select_scan_keeps_matching_rows() {
    let mut page = page_with(&[row("1", "brendan"), row("2", "sam"), row("3", "kim")]);
    let mut q = QueryObject::default();
    q.fields.push(ValueTypes::STAR);
    q.conditions.push(condition("id", Operand::GTE, "2", None));
    let schema = profile();
    let before = page.data;
    let scan = parse_page(&mut page.data, 0, &q, &schema, &vec![0, 1], false);
    assert!(scan.stop.is_none());
    assert!(!scan.modified);
    assert_eq!(
        scan.rows,
        vec![vec!["3".to_string(), "kim".to_string()], vec!["2".to_string(), "sam".to_string()]]
    );
    assert_eq!(page.data, before);
}

#[test]
fn page_cache_replaces_same_key() {
    let mut cache = PageCache::new();
    let mut p = Page::default();
    p.id = 2;
    assert_eq!(cache.add("t", p), 0);
    let mut q = Page::default();
    q.id = 2;
    q.data[0] = 9;
    assert_eq!(cache.add("t", q), 0);
    assert_eq!(cache.entries.len(), 1);
    assert_eq!(cache.entries[0].page.data[0], 9);
}
