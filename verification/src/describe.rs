//! The one-line description of a parsed query that the shell prints.
use vstd::prelude::*;
use vstd::string::StringExecFns;
use crate::enums::{Command, FieldTypesAllowed, LogicalConnector, Operand, ValueTypes, ValueView};
use crate::parsing::texts_view;
use crate::structs::{ConditionsObject, CondView, QueryObject, QueryView};
use crate::text::{int_text, int_to_string};

verus! {

/// The debug form of a string: quoted, with the characters that need it
/// escaped, as `{:?}` writes it.
pub uninterp spec fn str_debug_text(s: Seq<char>) -> Seq<char>;

/// `<str as Debug>::fmt`, through `format!("{:?}", ..)`. Its result is named
/// `str_debug_text`: the escaping rules (which characters are escaped, and
/// how) are left to std and not stated here.
#[verifier::external_body]
fn debug_text(s: &str) -> (r: String)
    ensures
        r@ == str_debug_text(s@),
{
    format!("{:?}", s)
}

/// The parts joined by `sep`.
pub open spec fn join(parts: Seq<Seq<char>>, sep: Seq<char>) -> Seq<char>
    decreases parts.len(),
{
    if parts.len() == 0 {
        Seq::empty()
    } else if parts.len() == 1 {
        parts[0]
    } else {
        join(parts.drop_last(), sep) + sep + parts.last()
    }
}

pub open spec fn bool_text(b: bool) -> Seq<char> {
    if b {
        "true"@
    } else {
        "false"@
    }
}

/// The debug form of an operator: its variant's name.
pub open spec fn operand_debug(o: Operand) -> Seq<char> {
    match o {
        Operand::EQ => "EQ"@,
        Operand::GT => "GT"@,
        Operand::GTE => "GTE"@,
        Operand::LT => "LT"@,
        Operand::LTE => "LTE"@,
        Operand::NQ => "NQ"@,
    }
}

pub open spec fn connector_debug(c: Option<LogicalConnector>) -> Seq<char> {
    match c {
        None => "None"@,
        Some(LogicalConnector::And) => "Some(And)"@,
        Some(LogicalConnector::Or) => "Some(Or)"@,
    }
}

/// The debug form of a condition, field by field.
pub open spec fn cond_debug(c: CondView) -> Seq<char> {
    "ConditionsObject { object_one: "@ + str_debug_text(c.object_one) + ", object_two: "@
        + str_debug_text(c.object_two) + ", object_one_is_field: "@ + bool_text(
        c.object_one_is_field,
    ) + ", object_two_is_field: "@ + bool_text(c.object_two_is_field) + ", operand: "@
        + operand_debug(c.operand) + ", connector: "@ + connector_debug(c.connector) + " }"@
}

pub open spec fn command_text(c: Option<Command>) -> Seq<char> {
    match c {
        Some(x) => x.spec_text(),
        None => "None"@,
    }
}

pub open spec fn list_text<T>(v: Option<Seq<T>>, show: spec_fn(T) -> Seq<char>) -> Seq<char> {
    match v {
        Some(s) => join(s.map_values(show), ", "@),
        None => "None"@,
    }
}

/// The description of a query: its command, table, fields, values,
/// conditions (in debug form), position, length, field types and index
/// flags.
pub open spec fn spec_describe(q: QueryView) -> Seq<char> {
    "Command: "@ + command_text(q.command) + ", Table: "@ + q.table + ", Fields: ["@ + join(
        q.fields.map_values(|v: ValueView| ValueTypes::spec_text(v)),
        ", "@,
    ) + "], Values: ["@ + join(
        q.values.map_values(|v: ValueView| ValueTypes::spec_text(v)),
        ", "@,
    ) + "], Conditions: ["@ + join(q.conditions.map_values(|c: CondView| cond_debug(c)), ", "@)
        + "], Index: "@ + int_text(q.index as int) + ", Length: "@ + int_text(q.length as int)
        + ", Field_Types["@ + list_text(q.field_type, |t: FieldTypesAllowed| t.spec_text())
        + "], Indexed_Fields["@ + list_text(q.is_field_index, |b: bool| bool_text(b)) + "]"@
}

/// Joins the texts of `parts` with `sep` between them.
fn join_texts(parts: &Vec<String>, sep: &str) -> (r: String)
    ensures
        r@ == join(texts_view(parts@), sep@),
{
    let n = parts.len();
    let mut out = String::new();
    if n == 0 {
        return out;
    }
    out.append(parts[0].as_str());
    let mut i: usize = 1;
    assert(texts_view(parts@).take(1) =~= seq![parts@[0]@]);
    while i < n
        invariant
            n == parts@.len(),
            1 <= i <= n,
            out@ == join(texts_view(parts@).take(i as int), sep@),
        decreases n - i,
    {
        let ghost t = texts_view(parts@);
        assert(t.take(i + 1).drop_last() =~= t.take(i as int));
        out.append(sep);
        out.append(parts[i].as_str());
        i += 1;
    }
    assert(texts_view(parts@).take(n as int) =~= texts_view(parts@));
    out
}

fn bool_string(b: bool) -> (r: String)
    ensures
        r@ == bool_text(b),
{
    if b {
        "true".to_owned()
    } else {
        "false".to_owned()
    }
}

fn operand_name(o: Operand) -> (r: &'static str)
    ensures
        r@ == operand_debug(o),
{
    match o {
        Operand::EQ => "EQ",
        Operand::GT => "GT",
        Operand::GTE => "GTE",
        Operand::LT => "LT",
        Operand::LTE => "LTE",
        Operand::NQ => "NQ",
    }
}

fn connector_name(c: Option<LogicalConnector>) -> (r: &'static str)
    ensures
        r@ == connector_debug(c),
{
    match c {
        None => "None",
        Some(LogicalConnector::And) => "Some(And)",
        Some(LogicalConnector::Or) => "Some(Or)",
    }
}

/// The debug form of one condition.
fn condition_text(c: &ConditionsObject) -> (r: String)
    ensures
        r@ == cond_debug(c@),
{
    let mut out = "ConditionsObject { object_one: ".to_owned();
    out.append(debug_text(c.object_one.as_str()).as_str());
    out.append(", object_two: ");
    out.append(debug_text(c.object_two.as_str()).as_str());
    out.append(", object_one_is_field: ");
    out.append(bool_string(c.object_one_is_field).as_str());
    out.append(", object_two_is_field: ");
    out.append(bool_string(c.object_two_is_field).as_str());
    out.append(", operand: ");
    out.append(operand_name(c.operand));
    out.append(", connector: ");
    out.append(connector_name(c.connector));
    out.append(" }");
    out
}

impl QueryObject {
    /// The one-line description of the query, as the shell prints it after
    /// parsing.
    pub fn to_string(&self) -> (r: String)
        ensures
            r@ == spec_describe(self@),
    {
        let ghost q = self@;
        let mut fields: Vec<String> = Vec::new();
        let mut i: usize = 0;
        while i < self.fields.len()
            invariant
                q == self@,
                i <= self.fields@.len(),
                texts_view(fields@) == q.fields.take(i as int).map_values(
                    |v: ValueView| ValueTypes::spec_text(v),
                ),
            decreases self.fields@.len() - i,
        {
            let ghost before = fields@;
            fields.push(self.fields[i].to_string());
            assert(texts_view(fields@) =~= texts_view(before).push(fields@[i as int]@));
            assert(q.fields.take(i + 1) =~= q.fields.take(i as int).push(q.fields[i as int]));
            i += 1;
        }
        assert(q.fields.take(i as int) =~= q.fields);
        let mut values: Vec<String> = Vec::new();
        let mut i: usize = 0;
        while i < self.values.len()
            invariant
                q == self@,
                i <= self.values@.len(),
                texts_view(values@) == q.values.take(i as int).map_values(
                    |v: ValueView| ValueTypes::spec_text(v),
                ),
            decreases self.values@.len() - i,
        {
            let ghost before = values@;
            values.push(self.values[i].to_string());
            assert(texts_view(values@) =~= texts_view(before).push(values@[i as int]@));
            assert(q.values.take(i + 1) =~= q.values.take(i as int).push(q.values[i as int]));
            i += 1;
        }
        assert(q.values.take(i as int) =~= q.values);
        let mut conds: Vec<String> = Vec::new();
        let mut i: usize = 0;
        while i < self.conditions.len()
            invariant
                q == self@,
                i <= self.conditions@.len(),
                texts_view(conds@) == q.conditions.take(i as int).map_values(
                    |c: CondView| cond_debug(c),
                ),
            decreases self.conditions@.len() - i,
        {
            let ghost before = conds@;
            conds.push(condition_text(&self.conditions[i]));
            assert(texts_view(conds@) =~= texts_view(before).push(conds@[i as int]@));
            assert(q.conditions.take(i + 1) =~= q.conditions.take(i as int).push(
                q.conditions[i as int],
            ));
            i += 1;
        }
        assert(q.conditions.take(i as int) =~= q.conditions);
        let field_types: String = match &self.field_type {
            None => "None".to_owned(),
            Some(ft) => {
                let mut parts: Vec<String> = Vec::new();
                let mut i: usize = 0;
                while i < ft.len()
                    invariant
                        i <= ft@.len(),
                        texts_view(parts@) == ft@.take(i as int).map_values(
                            |t: FieldTypesAllowed| t.spec_text(),
                        ),
                    decreases ft@.len() - i,
                {
                    let ghost before = parts@;
                    parts.push(ft[i].to_string());
                    assert(texts_view(parts@) =~= texts_view(before).push(parts@[i as int]@));
                    assert(ft@.take(i + 1) =~= ft@.take(i as int).push(ft@[i as int]));
                    i += 1;
                }
                assert(ft@.take(i as int) =~= ft@);
                join_texts(&parts, ", ")
            },
        };
        let flags: String = match &self.is_field_index {
            None => "None".to_owned(),
            Some(ix) => {
                let mut parts: Vec<String> = Vec::new();
                let mut i: usize = 0;
                while i < ix.len()
                    invariant
                        i <= ix@.len(),
                        texts_view(parts@) == ix@.take(i as int).map_values(|b: bool| bool_text(b)),
                    decreases ix@.len() - i,
                {
                    let ghost before = parts@;
                    parts.push(bool_string(ix[i]));
                    assert(texts_view(parts@) =~= texts_view(before).push(parts@[i as int]@));
                    assert(ix@.take(i + 1) =~= ix@.take(i as int).push(ix@[i as int]));
                    i += 1;
                }
                assert(ix@.take(i as int) =~= ix@);
                join_texts(&parts, ", ")
            },
        };
        let mut out = "Command: ".to_owned();
        match &self.command {
            Some(c) => out.append(c.to_string().as_str()),
            None => out.append("None"),
        }
        out.append(", Table: ");
        out.append(self.table.as_str());
        out.append(", Fields: [");
        out.append(join_texts(&fields, ", ").as_str());
        out.append("], Values: [");
        out.append(join_texts(&values, ", ").as_str());
        out.append("], Conditions: [");
        out.append(join_texts(&conds, ", ").as_str());
        out.append("], Index: ");
        out.append(int_to_string(self.index as i128).as_str());
        out.append(", Length: ");
        out.append(int_to_string(self.length as i128).as_str());
        out.append(", Field_Types[");
        out.append(field_types.as_str());
        out.append("], Indexed_Fields[");
        out.append(flags.as_str());
        out.append("]");
        out
    }
}

} // verus!
