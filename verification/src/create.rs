//! The schema a `create` statement describes, built from the parsed query.
use vstd::prelude::*;
use crate::enums::{FieldTypesAllowed, ValueTypes};
use crate::structs::{FieldObject, FieldView, QueryObject, QueryView, TableMetadataObject, TableView};
use crate::text::{trim_char, trim_matches_char};

verus! {

pub open spec fn msg_no_field_types() -> Seq<char> {
    "field_type is None"@
}

pub open spec fn msg_no_index_flags() -> Seq<char> {
    "indexed fields is None."@
}

pub open spec fn msg_field_count() -> Seq<char> {
    "Fields and field types length mismatch"@
}

/// The column `i` of the new table: its name as shown without surrounding
/// double quotes, its type and its index flag.
pub open spec fn new_field(q: QueryView, i: int) -> FieldView {
    FieldView {
        name: trim_char(ValueTypes::spec_text(q.fields[i]), '"'),
        data_type: q.field_type->Some_0[i],
        is_indexed: q.is_field_index->Some_0[i],
    }
}

/// The schema a parsed `create` query describes: one column per field name,
/// paired with the field types and index flags in order, as many as all
/// three lists have.
pub open spec fn spec_new_table(q: QueryView) -> Result<TableView, Seq<char>> {
    match q.field_type {
        None => Err(msg_no_field_types()),
        Some(ft) => match q.is_field_index {
            None => Err(msg_no_index_flags()),
            Some(ix) => if q.fields.len() != ft.len() {
                Err(msg_field_count())
            } else {
                let n = if ix.len() < ft.len() {
                    ix.len()
                } else {
                    ft.len()
                };
                Ok(
                    TableView {
                        table_name: q.table,
                        fields: Seq::new(n, |i: int| new_field(q, i)),
                    },
                )
            },
        },
    }
}

/// The schema of the table a parsed `create` query describes.
pub fn new_table_metadata(query: &QueryObject) -> (r: Result<TableMetadataObject, String>)
    ensures
        match spec_new_table(query@) {
            Ok(t) => r matches Ok(m) && m@ == t,
            Err(e) => r matches Err(m) && m@ == e,
        },
{
    let field_types = match &query.field_type {
        Some(v) => v,
        None => {
            return Err("field_type is None".to_owned());
        },
    };
    let indexed_fields = match &query.is_field_index {
        Some(v) => v,
        None => {
            return Err("indexed fields is None.".to_owned());
        },
    };
    if query.fields.len() != field_types.len() {
        return Err("Fields and field types length mismatch".to_owned());
    }
    let n = if indexed_fields.len() < field_types.len() {
        indexed_fields.len()
    } else {
        field_types.len()
    };
    let ghost q = query@;
    let mut fields: Vec<FieldObject> = Vec::new();
    let mut i: usize = 0;
    while i < n
        invariant
            q == query@,
            q.field_type == Some(field_types@),
            q.is_field_index == Some(indexed_fields@),
            n <= field_types@.len(),
            n <= indexed_fields@.len(),
            n <= query.fields@.len(),
            i <= n,
            fields@.len() == i,
            forall|j: int| 0 <= j < i ==> #[trigger] fields@[j]@ == new_field(q, j),
        decreases n - i,
    {
        let shown = query.fields[i].to_string();
        assert(q.fields[i as int] == query.fields@[i as int]@);
        let name = trim_matches_char(shown.as_str(), '"').to_owned();
        let data_type: FieldTypesAllowed = field_types[i];
        let is_indexed: bool = indexed_fields[i];
        fields.push(FieldObject { name, data_type, is_indexed });
        i += 1;
    }
    let r = TableMetadataObject { table_name: query.table.clone(), fields };
    assert(r@.fields =~= Seq::new(n as nat, |j: int| new_field(q, j)));
    Ok(r)
}

} // verus!
