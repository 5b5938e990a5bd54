//! The records that a parsed query, a table's schema and a page are made of.
use vstd::prelude::*;
use crate::enums::{Command, FieldTypesAllowed, LogicalConnector, Operand, ValueTypes, ValueView};

verus! {

/// Bytes in one page of a table file.
pub const PAGE_SIZE: usize = 4096;

/// Bytes of the fixed page header, before the first slot.
pub const PAGE_HEADER_SIZE_ON_CREATE: u16 = 11;

/// Bytes of one slot: the row's length and its offset, two bytes each.
pub const PAGE_HEADER_SLOT_SIZE_FOR_ROW: u64 = 4;

/// One `where` / `and` / `or` condition of a query.
#[derive(Debug)]
pub struct ConditionsObject {
    pub object_one: String,
    pub object_two: String,
    pub object_one_is_field: bool,
    pub object_two_is_field: bool,
    pub operand: Operand,
    pub connector: Option<LogicalConnector>,
}

pub struct CondView {
    pub object_one: Seq<char>,
    pub object_two: Seq<char>,
    pub object_one_is_field: bool,
    pub object_two_is_field: bool,
    pub operand: Operand,
    pub connector: Option<LogicalConnector>,
}

impl View for ConditionsObject {
    type V = CondView;

    open spec fn view(&self) -> CondView {
        CondView {
            object_one: self.object_one@,
            object_two: self.object_two@,
            object_one_is_field: self.object_one_is_field,
            object_two_is_field: self.object_two_is_field,
            operand: self.operand,
            connector: self.connector,
        }
    }
}

impl Default for ConditionsObject {
    fn default() -> (r: Self)
        ensures
            r@ == (CondView {
                object_one: Seq::empty(),
                object_two: Seq::empty(),
                object_one_is_field: false,
                object_two_is_field: false,
                operand: Operand::EQ,
                connector: None,
            }),
    {
        ConditionsObject {
            object_one: String::new(),
            object_two: String::new(),
            object_one_is_field: false,
            object_two_is_field: false,
            operand: Operand::EQ,
            connector: None,
        }
    }
}

/// One column of a table's schema.
#[derive(Debug)]
pub struct FieldObject {
    pub name: String,
    pub data_type: FieldTypesAllowed,
    pub is_indexed: bool,
}

pub struct FieldView {
    pub name: Seq<char>,
    pub data_type: FieldTypesAllowed,
    pub is_indexed: bool,
}

impl View for FieldObject {
    type V = FieldView;

    open spec fn view(&self) -> FieldView {
        FieldView { name: self.name@, data_type: self.data_type, is_indexed: self.is_indexed }
    }
}

/// A table's schema, as its catalog stores it.
#[derive(Debug)]
pub struct TableMetadataObject {
    pub table_name: String,
    pub fields: Vec<FieldObject>,
}

pub struct TableView {
    pub table_name: Seq<char>,
    pub fields: Seq<FieldView>,
}

impl View for TableMetadataObject {
    type V = TableView;

    open spec fn view(&self) -> TableView {
        TableView {
            table_name: self.table_name@,
            fields: self.fields@.map_values(|f: FieldObject| f@),
        }
    }
}

/// A query as the parser builds it.
#[derive(Debug)]
pub struct QueryObject {
    pub command: Option<Command>,
    pub table: String,
    pub fields: Vec<ValueTypes>,
    pub values: Vec<ValueTypes>,
    pub conditions: Vec<ConditionsObject>,
    pub index: usize,
    pub length: usize,
    pub field_type: Option<Vec<FieldTypesAllowed>>,
    pub is_field_index: Option<Vec<bool>>,
}

pub struct QueryView {
    pub command: Option<Command>,
    pub table: Seq<char>,
    pub fields: Seq<ValueView>,
    pub values: Seq<ValueView>,
    pub conditions: Seq<CondView>,
    pub index: usize,
    pub length: usize,
    pub field_type: Option<Seq<FieldTypesAllowed>>,
    pub is_field_index: Option<Seq<bool>>,
}

pub open spec fn values_view(v: Seq<ValueTypes>) -> Seq<ValueView> {
    v.map_values(|x: ValueTypes| x@)
}

pub open spec fn conds_view(v: Seq<ConditionsObject>) -> Seq<CondView> {
    v.map_values(|x: ConditionsObject| x@)
}

pub open spec fn opt_vec_view<T>(v: Option<Vec<T>>) -> Option<Seq<T>> {
    match v {
        Some(x) => Some(x@),
        None => None,
    }
}

impl View for QueryObject {
    type V = QueryView;

    open spec fn view(&self) -> QueryView {
        QueryView {
            command: self.command,
            table: self.table@,
            fields: values_view(self.fields@),
            values: values_view(self.values@),
            conditions: conds_view(self.conditions@),
            index: self.index,
            length: self.length,
            field_type: opt_vec_view(self.field_type),
            is_field_index: opt_vec_view(self.is_field_index),
        }
    }
}

/// The query before any token is read.
pub open spec fn empty_query() -> QueryView {
    QueryView {
        command: None,
        table: Seq::empty(),
        fields: Seq::empty(),
        values: Seq::empty(),
        conditions: Seq::empty(),
        index: 0,
        length: 0,
        field_type: None,
        is_field_index: None,
    }
}

impl Default for QueryObject {
    fn default() -> (r: Self)
        ensures
            r@ == empty_query(),
    {
        let r = QueryObject {
            command: None,
            table: String::new(),
            fields: Vec::new(),
            values: Vec::new(),
            conditions: Vec::new(),
            index: 0,
            length: 0,
            field_type: None,
            is_field_index: None,
        };
        assert(r@.fields =~= Seq::<ValueView>::empty());
        assert(r@.values =~= Seq::<ValueView>::empty());
        assert(r@.conditions =~= Seq::<CondView>::empty());
        r
    }
}

/// One page of a table file, with the bookkeeping of a page cache.
#[derive(Debug)]
pub struct Page {
    pub id: u64,
    pub dirty: bool,
    pub pin_count: usize,
    pub data: [u8; PAGE_SIZE],
    pub last_used: u64,
}

impl Default for Page {
    fn default() -> (r: Self)
        ensures
            r.id == 0,
            !r.dirty,
            r.pin_count == 0,
            r.last_used == 0,
            r.data@.len() == PAGE_SIZE,
            forall|i: int| 0 <= i < PAGE_SIZE ==> r.data@[i] == 0,
    {
        Page { id: 0, data: [0u8; PAGE_SIZE], dirty: false, pin_count: 0, last_used: 0 }
    }
}

} // verus!
