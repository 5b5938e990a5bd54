//! Reading single columns of a stored row by their declared types, and
//! evaluating the conditions of a query against a row.
use vstd::prelude::*;
use vstd::utf8::{decode_utf8, valid_utf8};
use crate::bytes::{byte_to_i8, i32_from_le, i32_of_le_bytes, i8_of_byte};
use crate::enums::{FieldTypesAllowed, LogicalConnector, Operand, ValueTypes, ValueView};
use crate::message::{concat2, concat3, concat5, text_from_utf8, utf8_error_text};
use crate::outcome::{Halt, Outcome};
use crate::row::msg_corrupt_i32;
use crate::structs::{
    ConditionsObject,
    CondView,
    FieldView,
    QueryObject,
    TableMetadataObject,
    conds_view,
    values_view,
};
use crate::text::{int_text, int_to_string, parse_i32, parse_i8, spec_parse_in_range, str_eq};
use crate::value::{VarView, VariableReturn, compare_values, spec_compare};

verus! {

/// Sum of the bytes of `s`.
pub open spec fn byte_sum(s: Seq<u8>) -> int
    decreases s.len(),
{
    if s.len() == 0 {
        0
    } else {
        byte_sum(s.drop_last()) + s.last() as int
    }
}

pub open spec fn msg_column_range(col: int, num: int) -> Seq<char> {
    "Column "@ + int_text(col) + " out of range ("@ + int_text(num) + ")"@
}

pub open spec fn msg_invalid_utf8(bytes: Seq<u8>) -> Seq<char> {
    "Invalid UTF-8: "@ + utf8_error_text(bytes)
}

/// The value of column `col` of a stored row, read as its declared type
/// `ty`: an `i8` from the column's first byte, an `i32` from its four
/// little-endian bytes, a string from its UTF-8 bytes.
pub open spec fn spec_get_value(row: Seq<u8>, col: int, ty: FieldTypesAllowed) -> Outcome<VarView> {
    if row.len() < 2 {
        Outcome::Panic
    } else if col >= row[1] {
        Outcome::Error(msg_column_range(col, row[1] as int))
    } else if 2 + col >= row.len() {
        Outcome::Panic
    } else {
        let start = row[0] as int + byte_sum(row.subrange(2, 2 + col));
        let len = row[2 + col] as int;
        if start + len > row.len() {
            Outcome::Panic
        } else {
            let cb = row.subrange(start, start + len);
            match ty {
                FieldTypesAllowed::I8 => if len == 0 {
                    Outcome::Panic
                } else {
                    Outcome::Done(VarView::I8(byte_to_i8(cb[0])))
                },
                FieldTypesAllowed::I32 => if len != 4 {
                    Outcome::Error(msg_corrupt_i32())
                } else {
                    Outcome::Done(VarView::I32(i32_from_le(cb)))
                },
                FieldTypesAllowed::String => if valid_utf8(cb) {
                    Outcome::Done(VarView::Text(decode_utf8(cb)))
                } else {
                    Outcome::Error(msg_invalid_utf8(cb))
                },
            }
        }
    }
}

/// Reads column `col` of a stored row as the type `ty`, stopping with
/// `Halt::Panic` where the bytes run out.
fn column_value(row_bytes: &[u8], col: usize, ty: FieldTypesAllowed) -> (r: Result<VariableReturn, Halt>)
    ensures
        match spec_get_value(row_bytes@, col as int, ty) {
            Outcome::Panic => r matches Err(Halt::Panic),
            Outcome::Error(e) => r matches Err(Halt::Error(m)) && m@ == e,
            Outcome::Done(v) => r matches Ok(x) && x@ == v,
        },
{
    let rl = row_bytes.len();
    if rl < 2 {
        return Err(Halt::Panic);
    }
    let header_size = row_bytes[0] as usize;
    let num_columns = row_bytes[1] as usize;
    if col >= num_columns {
        let a = int_to_string(col as i128);
        let b = int_to_string(num_columns as i128);
        return Err(Halt::Error(concat5("Column ", a.as_str(), " out of range (", b.as_str(), ")")));
    }
    if 2 + col >= rl {
        return Err(Halt::Panic);
    }
    let col_len = row_bytes[2 + col] as usize;
    let mut sum: usize = 0;
    let mut k: usize = 2;
    while k < 2 + col
        invariant
            2 <= k <= 2 + col,
            2 + col < rl,
            rl == row_bytes@.len(),
            sum == byte_sum(row_bytes@.subrange(2, k as int)),
            sum <= 255 * (k - 2),
            col <= 255,
        decreases 2 + col - k,
    {
        assert(row_bytes@.subrange(2, k + 1).drop_last() =~= row_bytes@.subrange(2, k as int));
        sum = sum + row_bytes[k] as usize;
        k += 1;
    }
    let data_start = header_size + sum;
    if data_start > rl || col_len > rl - data_start {
        return Err(Halt::Panic);
    }
    let col_bytes = &row_bytes[data_start..data_start + col_len];
    match ty {
        FieldTypesAllowed::I8 => {
            if col_len == 0 {
                return Err(Halt::Panic);
            }
            Ok(VariableReturn::I8(i8_of_byte(col_bytes[0])))
        },
        FieldTypesAllowed::I32 => {
            if col_len != 4 {
                return Err(Halt::Error("corrupt I32".to_owned()));
            }
            Ok(
                VariableReturn::I32(
                    i32_of_le_bytes(col_bytes[0], col_bytes[1], col_bytes[2], col_bytes[3]),
                ),
            )
        },
        FieldTypesAllowed::String => {
            match text_from_utf8(col_bytes) {
                Ok(s) => Ok(VariableReturn::String(s)),
                Err(e) => Err(Halt::Error(concat2("Invalid UTF-8: ", e.as_str()))),
            }
        },
    }
}

/// `get_value_by_column_id`, stopping with `Halt::Panic` where the bytes run
/// out.
pub fn get_value_checked(row_bytes: &[u8], curr_col: u8, field_type: FieldTypesAllowed) -> (r:
    Result<VariableReturn, Halt>)
    ensures
        match spec_get_value(row_bytes@, curr_col as int, field_type) {
            Outcome::Panic => r matches Err(Halt::Panic),
            Outcome::Error(e) => r matches Err(Halt::Error(m)) && m@ == e,
            Outcome::Done(v) => r matches Ok(x) && x@ == v,
        },
{
    column_value(row_bytes, curr_col as usize, field_type)
}

/// The value of column `curr_col` of a stored row, whose declared type is
/// `field_type`.
pub fn get_value_by_column_id(row_bytes: &[u8], curr_col: u8, field_type: FieldTypesAllowed) -> (r:
    Result<VariableReturn, String>)
    requires
        !(spec_get_value(row_bytes@, curr_col as int, field_type) is Panic),
    ensures
        match spec_get_value(row_bytes@, curr_col as int, field_type) {
            Outcome::Error(e) => r matches Err(m) && m@ == e,
            Outcome::Done(v) => r matches Ok(x) && x@ == v,
            Outcome::Panic => false,
        },
{
    match column_value(row_bytes, curr_col as usize, field_type) {
        Ok(v) => Ok(v),
        Err(Halt::Error(e)) => Err(e),
        Err(Halt::Panic) => Err(String::new()),
    }
}

pub open spec fn msg_no_column() -> Seq<char> {
    "At least one side of a where statement needs to be a column"@
}

pub open spec fn msg_unknown_column(name: Seq<char>) -> Seq<char> {
    "Unknown column '"@ + name + "'"@
}

pub open spec fn msg_not_i8(lit: Seq<char>) -> Seq<char> {
    "'"@ + lit + "' is not a valid i8"@
}

pub open spec fn msg_not_i32(lit: Seq<char>) -> Seq<char> {
    "'"@ + lit + "' is not a valid i32"@
}

/// The first place at or after `i` of a schema field named `name`.
pub open spec fn field_position(fields: Seq<FieldView>, name: Seq<char>, i: int) -> Option<int>
    decreases fields.len() - i,
{
    if i < 0 || i >= fields.len() {
        None
    } else if fields[i].name == name {
        Some(i)
    } else {
        field_position(fields, name, i + 1)
    }
}

/// A place found is a field of that name.
pub proof fn lemma_field_position(fields: Seq<FieldView>, name: Seq<char>, i: int)
    ensures
        field_position(fields, name, i) matches Some(p) ==> i <= p < fields.len() && fields[p].name
            == name,
    decreases fields.len() - i,
{
    if 0 <= i < fields.len() && fields[i].name != name {
        lemma_field_position(fields, name, i + 1);
    }
}

/// The value of the column named `name` in a stored row of a table with the
/// schema `fields`: the first column of that name, read as its type.
pub open spec fn named_value(row: Seq<u8>, fields: Seq<FieldView>, name: Seq<char>) -> Outcome<VarView> {
    match field_position(fields, name, 0) {
        None => Outcome::Error(msg_unknown_column(name)),
        Some(p) => spec_get_value(row, p, fields[p].data_type),
    }
}

/// The literal of a condition read as a value of the same kind as `v`.
pub open spec fn literal_like(v: VarView, lit: Seq<char>) -> Result<VarView, Seq<char>> {
    match v {
        VarView::I8(_) => match spec_parse_in_range(lit, -128, 127) {
            Some(x) => Ok(VarView::I8(x as i8)),
            None => Err(msg_not_i8(lit)),
        },
        VarView::I32(_) => match spec_parse_in_range(lit, -0x8000_0000, 0x7fff_ffff) {
            Some(x) => Ok(VarView::I32(x as i32)),
            None => Err(msg_not_i32(lit)),
        },
        VarView::Text(_) => Ok(VarView::Text(lit)),
    }
}

/// Evaluates one condition against a stored row of a table with the schema
/// `fields`. Each side marked as a column is read from the column it names;
/// the other side is a literal, read as a value of the same kind.
pub open spec fn spec_eval_condition(c: CondView, row: Seq<u8>, fields: Seq<FieldView>) -> Outcome<bool> {
    if c.object_one_is_field && c.object_two_is_field {
        match named_value(row, fields, c.object_one) {
            Outcome::Panic => Outcome::Panic,
            Outcome::Error(e) => Outcome::Error(e),
            Outcome::Done(v1) => match named_value(row, fields, c.object_two) {
                Outcome::Panic => Outcome::Panic,
                Outcome::Error(e) => Outcome::Error(e),
                Outcome::Done(v2) => Outcome::Done(spec_compare(v1, v2, c.operand)),
            },
        }
    } else if !c.object_one_is_field && !c.object_two_is_field {
        Outcome::Error(msg_no_column())
    } else {
        let (col, lit) = if c.object_one_is_field {
            (c.object_one, c.object_two)
        } else {
            (c.object_two, c.object_one)
        };
        match named_value(row, fields, col) {
            Outcome::Panic => Outcome::Panic,
            Outcome::Error(e) => Outcome::Error(e),
            Outcome::Done(v) => match literal_like(v, lit) {
                Err(e) => Outcome::Error(e),
                Ok(l) => if c.object_one_is_field {
                    Outcome::Done(spec_compare(v, l, c.operand))
                } else {
                    Outcome::Done(spec_compare(l, v, c.operand))
                },
            },
        }
    }
}

fn literal_value(v: &VariableReturn, lit: &str) -> (r: Result<VariableReturn, String>)
    ensures
        match literal_like(v@, lit@) {
            Ok(x) => r matches Ok(y) && y@ == x,
            Err(e) => r matches Err(m) && m@ == e,
        },
{
    match v {
        VariableReturn::I8(_) => match parse_i8(lit) {
            Some(x) => Ok(VariableReturn::I8(x)),
            None => Err(concat3("'", lit, "' is not a valid i8")),
        },
        VariableReturn::I32(_) => match parse_i32(lit) {
            Some(x) => Ok(VariableReturn::I32(x)),
            None => Err(concat3("'", lit, "' is not a valid i32")),
        },
        VariableReturn::String(_) => Ok(VariableReturn::String(lit.to_owned())),
    }
}

/// Where the first field named `name` stands in the schema.
fn field_index(schema: &TableMetadataObject, name: &str) -> (r: Option<usize>)
    ensures
        match field_position(schema@.fields, name@, 0) {
            Some(p) => r == Some(p as usize),
            None => r is None,
        },
{
    let ghost fv = schema@.fields;
    let n = schema.fields.len();
    let mut i: usize = 0;
    while i < n
        invariant
            n == schema.fields@.len(),
            fv == schema@.fields,
            i <= n,
            field_position(fv, name@, 0) == field_position(fv, name@, i as int),
        decreases n - i,
    {
        assert(fv[i as int] == schema.fields@[i as int]@);
        if str_eq(schema.fields[i].name.as_str(), name) {
            return Some(i);
        }
        i += 1;
    }
    None
}

/// The value of the column named `name` in a stored row of `schema`.
fn named_column_value(row_bytes: &[u8], schema: &TableMetadataObject, name: &str) -> (r: Result<
    VariableReturn,
    Halt,
>)
    ensures
        match named_value(row_bytes@, schema@.fields, name@) {
            Outcome::Panic => r matches Err(Halt::Panic),
            Outcome::Error(e) => r matches Err(Halt::Error(m)) && m@ == e,
            Outcome::Done(v) => r matches Ok(x) && x@ == v,
        },
{
    proof {
        lemma_field_position(schema@.fields, name@, 0);
    }
    assert(schema@.fields.len() == schema.fields.len());
    match field_index(schema, name) {
        None => {
            let m = concat3("Unknown column '", name, "'");
            assert(named_value(row_bytes@, schema@.fields, name@) == Outcome::<VarView>::Error(
                msg_unknown_column(name@),
            ));
            assert(m@ == msg_unknown_column(name@));
            Err(Halt::Error(m))
        },
        Some(p) => {
            assert(schema@.fields[p as int] == schema.fields@[p as int]@);
            let ghost ty = schema@.fields[p as int].data_type;
            assert(field_position(schema@.fields, name@, 0) == Some(p as int));
            assert(named_value(row_bytes@, schema@.fields, name@) == spec_get_value(
                row_bytes@,
                p as int,
                ty,
            ));
            column_value(row_bytes, p, schema.fields[p].data_type)
        },
    }
}

/// Evaluates one condition against a stored row of `schema`, reading each
/// side marked as a column from the column it names; stops with
/// `Halt::Panic` where the row's bytes run out.
pub fn evaluate_condition(
    condition: &ConditionsObject,
    row_bytes: &[u8],
    schema: &TableMetadataObject,
) -> (r: Result<bool, Halt>)
    ensures
        match spec_eval_condition(condition@, row_bytes@, schema@.fields) {
            Outcome::Panic => r matches Err(Halt::Panic),
            Outcome::Error(e) => r matches Err(Halt::Error(m)) && m@ == e,
            Outcome::Done(b) => r == Ok::<bool, Halt>(b),
        },
{
    if condition.object_one_is_field && condition.object_two_is_field {
        let value_1 = named_column_value(row_bytes, schema, condition.object_one.as_str())?;
        let value_2 = named_column_value(row_bytes, schema, condition.object_two.as_str())?;
        return Ok(compare_values(&value_1, &value_2, &condition.operand));
    }
    if !condition.object_one_is_field && !condition.object_two_is_field {
        return Err(
            Halt::Error("At least one side of a where statement needs to be a column".to_owned()),
        );
    }
    let (column, literal_str) = if condition.object_one_is_field {
        (condition.object_one.as_str(), condition.object_two.as_str())
    } else {
        (condition.object_two.as_str(), condition.object_one.as_str())
    };
    let value = named_column_value(row_bytes, schema, column)?;
    let literal = match literal_value(&value, literal_str) {
        Ok(l) => l,
        Err(e) => {
            return Err(Halt::Error(e));
        },
    };
    if condition.object_one_is_field {
        Ok(compare_values(&value, &literal, &condition.operand))
    } else {
        Ok(compare_values(&literal, &value, &condition.operand))
    }
}

/// Folds conditions `i..` from left to right into `acc`. The first condition
/// gives the start value; a later one joins with `or` when its connector is
/// `Or`, with `and` otherwise.
pub open spec fn spec_conditions_from(
    conds: Seq<CondView>,
    row: Seq<u8>,
    fields: Seq<FieldView>,
    i: nat,
    acc: bool,
) -> Outcome<bool>
    decreases conds.len() - i,
{
    if i >= conds.len() {
        Outcome::Done(acc)
    } else {
        match spec_eval_condition(conds[i as int], row, fields) {
            Outcome::Panic => Outcome::Panic,
            Outcome::Error(e) => Outcome::Error(e),
            Outcome::Done(m) => {
                let next = if i == 0 {
                    m
                } else {
                    match conds[i as int].connector {
                        Some(LogicalConnector::Or) => acc || m,
                        _ => acc && m,
                    }
                };
                spec_conditions_from(conds, row, fields, i + 1, next)
            },
        }
    }
}

/// Whether a stored row of a table with the schema `fields` satisfies the
/// conditions of a query (true when there are none).
pub open spec fn spec_conditions_hold(conds: Seq<CondView>, row: Seq<u8>, fields: Seq<FieldView>) -> Outcome<
    bool,
> {
    spec_conditions_from(conds, row, fields, 0, true)
}

/// `should_delete_row`, stopping with `Halt::Panic` where the row's bytes run
/// out.
pub fn should_delete_row_checked(row_bytes: &[u8], query: &QueryObject, schema: &TableMetadataObject) -> (r:
    Result<bool, Halt>)
    ensures
        match spec_conditions_hold(query@.conditions, row_bytes@, schema@.fields) {
            Outcome::Panic => r matches Err(Halt::Panic),
            Outcome::Error(e) => r matches Err(Halt::Error(m)) && m@ == e,
            Outcome::Done(b) => r == Ok::<bool, Halt>(b),
        },
{
    let mut result = true;
    let n = query.conditions.len();
    let ghost conds = query@.conditions;
    let mut i: usize = 0;
    while i < n
        invariant
            n == query.conditions@.len(),
            conds == query@.conditions,
            i <= n,
            spec_conditions_hold(conds, row_bytes@, schema@.fields) == spec_conditions_from(
                conds,
                row_bytes@,
                schema@.fields,
                i as nat,
                result,
            ),
        decreases n - i,
    {
        let condition = &query.conditions[i];
        assert(conds[i as int] == condition@);
        let matches = evaluate_condition(condition, row_bytes, schema)?;
        if i == 0 {
            result = matches;
        } else {
            match &condition.connector {
                Some(LogicalConnector::Or) => result = result || matches,
                _ => result = result && matches,
            }
        }
        i += 1;
    }
    Ok(result)
}

/// Whether a stored row of `schema` satisfies the conditions of `query`,
/// each condition read on the columns it names and the conditions joined
/// from left to right.
pub fn should_delete_row(row_bytes: &[u8], query: &QueryObject, schema: &TableMetadataObject) -> (r:
    Result<bool, String>)
    requires
        !(spec_conditions_hold(query@.conditions, row_bytes@, schema@.fields) is Panic),
    ensures
        match spec_conditions_hold(query@.conditions, row_bytes@, schema@.fields) {
            Outcome::Error(e) => r matches Err(m) && m@ == e,
            Outcome::Done(b) => r == Ok::<bool, String>(b),
            Outcome::Panic => false,
        },
{
    match should_delete_row_checked(row_bytes, query, schema) {
        Ok(b) => Ok(b),
        Err(Halt::Error(e)) => Err(e),
        Err(Halt::Panic) => Err(String::new()),
    }
}

// ------------------------------------------------------------ column choice
/// Some value of `q` is the star.
pub open spec fn has_star(q: Seq<ValueView>) -> bool {
    exists|k: int| 0 <= k < q.len() && q[k] is Star
}

/// Some value of `q` is the word `name`.
pub open spec fn names_field(q: Seq<ValueView>, name: Seq<char>) -> bool {
    exists|k: int| 0 <= k < q.len() && q[k] == ValueView::Text(name)
}

/// Some condition of `cs` names the column `name` on a side marked as a column.
pub open spec fn condition_names(cs: Seq<CondView>, name: Seq<char>) -> bool {
    exists|k: int|
        0 <= k < cs.len() && ((cs[k].object_one_is_field && cs[k].object_one == name) || (
        cs[k].object_two_is_field && cs[k].object_two == name))
}

/// All column ids `0..n`, each kept to one byte.
pub open spec fn all_ids(n: int) -> Seq<u8> {
    Seq::new(n as nat, |i: int| (i % 256) as u8)
}

/// The ids of the first `k` schema fields that `pick` chooses, in order.
pub open spec fn ids_where(fields: Seq<FieldView>, pick: spec_fn(Seq<char>) -> bool, k: int) -> Seq<u8>
    decreases k,
{
    if k <= 0 {
        Seq::empty()
    } else {
        let rest = ids_where(fields, pick, k - 1);
        if pick(fields[k - 1].name) {
            rest.push(((k - 1) % 256) as u8)
        } else {
            rest
        }
    }
}

/// The columns a `select` shows: every column when the star was asked for,
/// else the schema's columns whose names were asked for, in schema order.
pub open spec fn spec_selected_ids(q: Seq<ValueView>, fields: Seq<FieldView>) -> Seq<u8> {
    if has_star(q) {
        all_ids(fields.len() as int)
    } else {
        ids_where(fields, |name: Seq<char>| names_field(q, name), fields.len() as int)
    }
}

/// The columns that the conditions of a query read, in schema order (every
/// column when the query's fields hold the star).
pub open spec fn spec_conditional_ids(
    q: Seq<ValueView>,
    cs: Seq<CondView>,
    fields: Seq<FieldView>,
) -> Seq<u8> {
    if has_star(q) {
        all_ids(fields.len() as int)
    } else {
        ids_where(fields, |name: Seq<char>| condition_names(cs, name), fields.len() as int)
    }
}

fn any_star(q: &Vec<ValueTypes>) -> (r: bool)
    ensures
        r == has_star(values_view(q@)),
{
    let n = q.len();
    let mut i: usize = 0;
    while i < n
        invariant
            n == q@.len(),
            i <= n,
            forall|k: int| 0 <= k < i ==> !(values_view(q@)[k] is Star),
        decreases n - i,
    {
        if q[i].is_star() {
            assert(values_view(q@)[i as int] is Star);
            return true;
        }
        i += 1;
    }
    false
}

fn every_id(n: usize) -> (r: Vec<u8>)
    ensures
        r@ == all_ids(n as int),
{
    let mut v: Vec<u8> = Vec::new();
    let mut i: usize = 0;
    while i < n
        invariant
            i <= n,
            v@ == all_ids(i as int),
        decreases n - i,
    {
        v.push((i % 256) as u8);
        i += 1;
        assert(v@ =~= all_ids(i as int));
    }
    v
}

fn asked_for(q: &Vec<ValueTypes>, name: &str) -> (r: bool)
    ensures
        r == names_field(values_view(q@), name@),
{
    let n = q.len();
    let mut i: usize = 0;
    while i < n
        invariant
            n == q@.len(),
            i <= n,
            forall|k: int| 0 <= k < i ==> values_view(q@)[k] != ValueView::Text(name@),
        decreases n - i,
    {
        match q[i].as_str() {
            Some(s) => {
                if str_eq(s, name) {
                    assert(values_view(q@)[i as int] == ValueView::Text(name@));
                    return true;
                }
            },
            None => {},
        }
        i += 1;
    }
    false
}

fn named_in_conditions(cs: &Vec<ConditionsObject>, name: &str) -> (r: bool)
    ensures
        r == condition_names(conds_view(cs@), name@),
{
    let n = cs.len();
    let mut i: usize = 0;
    while i < n
        invariant
            n == cs@.len(),
            i <= n,
            forall|k: int|
                0 <= k < i ==> !((conds_view(cs@)[k].object_one_is_field && conds_view(
                    cs@,
                )[k].object_one == name@) || (conds_view(cs@)[k].object_two_is_field
                    && conds_view(cs@)[k].object_two == name@)),
        decreases n - i,
    {
        let c = &cs[i];
        assert(conds_view(cs@)[i as int] == c@);
        if (c.object_one_is_field && str_eq(c.object_one.as_str(), name)) || (c.object_two_is_field
            && str_eq(c.object_two.as_str(), name)) {
            return true;
        }
        i += 1;
    }
    false
}

/// The ids of the columns a `select` shows.
pub fn get_selected_column_ids(query: &QueryObject, schema: &TableMetadataObject) -> (r: Result<
    Vec<u8>,
    String,
>)
    ensures
        r matches Ok(v) && v@ == spec_selected_ids(query@.fields, schema@.fields),
{
    if any_star(&query.fields) {
        return Ok(every_id(schema.fields.len()));
    }
    let ghost fv = schema@.fields;
    let ghost pick = |name: Seq<char>| names_field(query@.fields, name);
    let n = schema.fields.len();
    let mut return_vec: Vec<u8> = Vec::new();
    let mut i: usize = 0;
    while i < n
        invariant
            n == fv.len(),
            fv == schema@.fields,
            pick == (|name: Seq<char>| names_field(query@.fields, name)),
            i <= n,
            return_vec@ == ids_where(fv, pick, i as int),
        decreases n - i,
    {
        let field = &schema.fields[i];
        assert(fv[i as int] == field@);
        if asked_for(&query.fields, field.name.as_str()) {
            return_vec.push((i % 256) as u8);
        }
        i += 1;
    }
    Ok(return_vec)
}

/// The ids of the columns that the conditions of a query read.
pub fn get_selected_column_ids_in_conditional(
    query: &QueryObject,
    schema: &TableMetadataObject,
) -> (r: Result<Vec<u8>, String>)
    ensures
        r matches Ok(v) && v@ == spec_conditional_ids(
            query@.fields,
            query@.conditions,
            schema@.fields,
        ),
{
    if any_star(&query.fields) {
        return Ok(every_id(schema.fields.len()));
    }
    let ghost fv = schema@.fields;
    let ghost pick = |name: Seq<char>| condition_names(query@.conditions, name);
    let n = schema.fields.len();
    let mut return_vec: Vec<u8> = Vec::new();
    let mut i: usize = 0;
    while i < n
        invariant
            n == fv.len(),
            fv == schema@.fields,
            pick == (|name: Seq<char>| condition_names(query@.conditions, name)),
            i <= n,
            return_vec@ == ids_where(fv, pick, i as int),
        decreases n - i,
    {
        let field = &schema.fields[i];
        assert(fv[i as int] == field@);
        if named_in_conditions(&query.conditions, field.name.as_str()) {
            return_vec.push((i % 256) as u8);
        }
        i += 1;
    }
    Ok(return_vec)
}

} // verus!
