//! The statement and clause handlers of the parser. Each reads tokens from
//! `query.index` on and records what it read in the query.
use vstd::prelude::*;
use crate::enums::{
    Command,
    FieldTypesAllowed,
    Filter,
    LogicalConnector,
    Operand,
    TokenType,
    TokenView,
    ValueTypes,
    ValueView,
};
use crate::message::{concat2, concat4, concat5};
use crate::outcome::Outcome;
use crate::structs::{
    ConditionsObject,
    CondView,
    FieldView,
    QueryObject,
    QueryView,
    TableMetadataObject,
    TableView,
    conds_view,
    values_view,
};
use crate::text::{
    count_char,
    count_of,
    int_text,
    int_to_string,
    lemma_split_on_len,
    parse_isize,
    spec_parse_in_range,
    split_char,
    split_on,
    str_eq,
    strs_view,
};

verus! {

/// The kind of a token: a command word, then a clause word, then an
/// operator, then a value; a token that is none of these counts as `exit`.
pub open spec fn spec_classify(t: Seq<char>) -> TokenView {
    match Command::spec_from_str(t) {
        Some(c) => TokenView::Cmd(c),
        None => match Filter::spec_from_str(t) {
            Some(f) => TokenView::Filter(f),
            None => match Operand::spec_from_str(t) {
                Some(o) => TokenView::Op(o),
                None => match ValueTypes::spec_from_str(t) {
                    Some(v) => TokenView::Value(v),
                    None => TokenView::Cmd(Command::EXIT),
                },
            },
        },
    }
}

pub fn classify_token(token: &str) -> (r: TokenType)
    ensures
        r@ == spec_classify(token@),
{
    match Command::from_str(token) {
        Some(c) => TokenType::CMD(c),
        None => match Filter::from_str(token) {
            Some(f) => TokenType::FILTER(f),
            None => match Operand::from_str(token) {
                Some(o) => TokenType::OP(o),
                None => match ValueTypes::from_str(token) {
                    Some(v) => TokenType::VALUE(v),
                    None => TokenType::CMD(Command::EXIT),
                },
            },
        },
    }
}

// ------------------------------------------------------------------ select
pub open spec fn msg_select_last() -> Seq<char> {
    "Please complete command. SELECT cannot be the final token."@
}

/// Reads the value tokens of a `select` from position `j`: up to and
/// including a star, or up to the first token that is not a value.
pub open spec fn select_loop(toks: Seq<Seq<char>>, length: int, j: int, fields: Seq<ValueView>) -> (
    Outcome<bool>,
    Seq<ValueView>,
    int,
)
    decreases toks.len() - j,
{
    if j < 0 || j >= toks.len() {
        (Outcome::Panic, fields, j)
    } else {
        match spec_classify(toks[j]) {
            TokenView::Value(v) => if v is Star {
                (Outcome::Done(true), fields.push(v), j + 1)
            } else if j + 1 == length {
                (Outcome::Error(msg_select_last()), fields.push(v), j + 1)
            } else {
                select_loop(toks, length, j + 1, fields.push(v))
            },
            _ => (Outcome::Done(true), fields, j),
        }
    }
}

pub open spec fn spec_handle_select(toks: Seq<Seq<char>>, q: QueryView) -> (Outcome<bool>, QueryView) {
    let (o, f, j) = select_loop(toks, q.length as int, q.index + 1, q.fields);
    (o, QueryView { command: Some(Command::SELECT), fields: f, index: j as usize, ..q })
}

/// `select`: records the command and the value tokens that follow it.
pub fn handle_select(tokens: &[&str], query: &mut QueryObject) -> (r: Result<bool, String>)
    requires
        !(spec_handle_select(strs_view(tokens@), old(query)@).0 is Panic),
    ensures
        ({
            let (o, q) = spec_handle_select(strs_view(tokens@), old(query)@);
            &&& final(query)@ == q
            &&& match o {
                Outcome::Done(b) => r == Ok::<bool, String>(b),
                Outcome::Error(e) => r matches Err(m) && m@ == e,
                Outcome::Panic => false,
            }
        }),
{
    let ghost toks = strs_view(tokens@);
    let ghost q0 = query@;
    let ghost sl = select_loop(toks, q0.length as int, q0.index + 1, q0.fields);
    let ntok = tokens.len();
    assert(toks.len() == tokens@.len());
    assert(q0.index + 1 < toks.len());
    query.command = Some(Command::SELECT);
    query.index += 1;
    loop
        invariant
            toks == strs_view(tokens@),
            toks.len() == tokens@.len(),
            q0 == old(query)@,
            sl == select_loop(toks, q0.length as int, q0.index + 1, q0.fields),
            !(sl.0 is Panic),
            sl == select_loop(toks, q0.length as int, query.index as int, query@.fields),
            query@ == (QueryView {
                command: Some(Command::SELECT),
                fields: query@.fields,
                index: query@.index,
                ..q0
            }),
            spec_handle_select(toks, q0) == (
                sl.0,
                QueryView { command: Some(Command::SELECT), fields: sl.1, index: sl.2 as usize, ..q0 },
            ),
        decreases tokens@.len() - query.index,
    {
        let tok = classify_token(tokens[query.index]);
        assert(toks[query.index as int] == tokens@[query.index as int]@);
        match tok {
            TokenType::VALUE(val) => {
                let ghost before = query.fields@;
                if val.is_star() {
                    query.fields.push(val);
                    query.index += 1;
                    assert(values_view(query.fields@) =~= values_view(before).push(val@));
                    return Ok(true);
                } else {
                    query.fields.push(val);
                    query.index += 1;
                    assert(values_view(query.fields@) =~= values_view(before).push(val@));
                    if query.index == query.length {
                        return Err(
                            "Please complete command. SELECT cannot be the final token.".to_owned(),
                        );
                    }
                }
            },
            _ => {
                return Ok(true);
            },
        }
    }
}

// ------------------------------------------------------------------ fields
pub open spec fn msg_protected() -> Seq<char> {
    "Protected name for field"@
}

pub open spec fn msg_unknown_type() -> Seq<char> {
    "Unknown field type"@
}

pub open spec fn msg_formatting() -> Seq<char> {
    "Incorrect formatting"@
}

/// A column declaration `name:type` or `name:type:is_index`: its name, its
/// type and its index flag (`false` when left out).
pub open spec fn spec_parse_field(s: Seq<char>) -> Result<
    (ValueView, FieldTypesAllowed, Seq<char>),
    Seq<char>,
> {
    let n = count_char(s, ':');
    let parts = split_on(s, ':');
    if n == 1 || n == 2 {
        match ValueTypes::spec_from_str(parts[0]) {
            None => Err(msg_protected()),
            Some(v) => match FieldTypesAllowed::spec_from_str(parts[1]) {
                None => Err(msg_unknown_type()),
                Some(t) => Ok(
                    (
                        v,
                        t,
                        if n == 1 {
                            "false"@
                        } else {
                            parts[2]
                        },
                    ),
                ),
            },
        }
    } else {
        Err(msg_formatting())
    }
}

pub fn parse_field<'a>(s: &'a str) -> (r: Result<(ValueTypes, FieldTypesAllowed, &'a str), String>)
    ensures
        match spec_parse_field(s@) {
            Ok((v, t, f)) => r matches Ok((v2, t2, f2)) && v2@ == v && t2 == t && f2@ == f,
            Err(e) => r matches Err(m) && m@ == e,
        },
{
    let count_colon = count_of(s, ':');
    proof {
        lemma_split_on_len(s@, ':');
    }
    if count_colon == 1 || count_colon == 2 {
        let parts = split_char(s, ':');
        assert(strs_view(parts@)[0] == parts@[0]@);
        assert(strs_view(parts@)[1] == parts@[1]@);
        let field_name = match ValueTypes::from_str(parts[0]) {
            Some(v) => v,
            None => {
                return Err("Protected name for field".to_owned());
            },
        };
        let field_type = match FieldTypesAllowed::from_str(parts[1]) {
            Some(t) => t,
            None => {
                return Err("Unknown field type".to_owned());
            },
        };
        if count_colon == 1 {
            Ok((field_name, field_type, "false"))
        } else {
            assert(strs_view(parts@)[2] == parts@[2]@);
            Ok((field_name, field_type, parts[2]))
        }
    } else {
        Err("Incorrect formatting".to_owned())
    }
}

// ------------------------------------------------------------------ create
pub open spec fn msg_index_flag() -> Seq<char> {
    "Invalid index flag (expected true or false)"@
}

pub open spec fn msg_integer_table(n: int) -> Seq<char> {
    "Malformed request. Please do not user integer as table name. Attempted table name: "@
        + int_text(n)
}

/// The flag of a column declaration.
pub open spec fn spec_index_flag(f: Seq<char>) -> Option<bool> {
    if f == "false"@ {
        Some(false)
    } else if f == "true"@ {
        Some(true)
    } else {
        None
    }
}

/// Reads column declarations from position `j`, for as long as the tokens
/// are words.
pub open spec fn create_loop(
    toks: Seq<Seq<char>>,
    length: int,
    j: int,
    fields: Seq<ValueView>,
    types: Seq<FieldTypesAllowed>,
    flags: Seq<bool>,
) -> (Outcome<bool>, Seq<ValueView>, Seq<FieldTypesAllowed>, Seq<bool>, int)
    decreases toks.len() - j,
{
    if j < 0 || j >= toks.len() {
        (Outcome::Panic, fields, types, flags, j)
    } else {
        match spec_classify(toks[j]) {
            TokenView::Value(ValueView::Text(s)) => match spec_parse_field(s) {
                Err(e) => (Outcome::Error(e), fields, types, flags, j),
                Ok((name, ty, flag)) => match spec_index_flag(flag) {
                    None => (Outcome::Error(msg_index_flag()), fields, types, flags, j),
                    Some(b) => {
                        let f2 = fields.push(name);
                        let t2 = types.push(ty);
                        let g2 = flags.push(b);
                        if j + 1 == length {
                            (Outcome::Done(true), f2, t2, g2, j + 1)
                        } else {
                            create_loop(toks, length, j + 1, f2, t2, g2)
                        }
                    },
                },
            },
            _ => (Outcome::Done(true), fields, types, flags, j),
        }
    }
}

/// `create`: the table name, which may not be an integer, then the column
/// declarations. The second result holds the notes printed on the way.
pub open spec fn spec_handle_create(toks: Seq<Seq<char>>, q: QueryView) -> (
    Outcome<bool>,
    QueryView,
    Seq<Seq<char>>,
) {
    let q1 = QueryView {
        command: Some(Command::CREATE),
        field_type: Some(Seq::empty()),
        is_field_index: Some(Seq::empty()),
        index: (q.index + 1) as usize,
        ..q
    };
    if q.index + 1 >= toks.len() {
        (Outcome::Panic, q1, Seq::empty())
    } else {
        let t = toks[q.index + 1];
        match spec_parse_in_range(t, isize::MIN as int, isize::MAX as int) {
            Some(n) => (Outcome::Done(false), q1, seq![msg_integer_table(n)]),
            None => {
                let (o, f, ty, fl, j) = create_loop(
                    toks,
                    q.length as int,
                    q.index + 2,
                    q.fields,
                    Seq::empty(),
                    Seq::empty(),
                );
                (
                    o,
                    QueryView {
                        table: t,
                        fields: f,
                        field_type: Some(ty),
                        is_field_index: Some(fl),
                        index: j as usize,
                        ..q1
                    },
                    Seq::empty(),
                )
            },
        }
    }
}

fn index_flag(f: &str) -> (r: Option<bool>)
    ensures
        r == spec_index_flag(f@),
{
    if str_eq(f, "false") {
        Some(false)
    } else if str_eq(f, "true") {
        Some(true)
    } else {
        None
    }
}

pub open spec fn texts_view(v: Seq<String>) -> Seq<Seq<char>> {
    v.map_values(|s: String| s@)
}

/// `create`: records the command, the table name and the column
/// declarations; the notes that the statement prints are appended to `notes`.
pub fn handle_create(tokens: &[&str], query: &mut QueryObject, notes: &mut Vec<String>) -> (r:
    Result<bool, String>)
    requires
        !(spec_handle_create(strs_view(tokens@), old(query)@).0 is Panic),
    ensures
        ({
            let (o, q, n) = spec_handle_create(strs_view(tokens@), old(query)@);
            &&& final(query)@ == q
            &&& texts_view(final(notes)@) == texts_view(old(notes)@) + n
            &&& match o {
                Outcome::Done(b) => r == Ok::<bool, String>(b),
                Outcome::Error(e) => r matches Err(m) && m@ == e,
                Outcome::Panic => false,
            }
        }),
{
    let ghost toks = strs_view(tokens@);
    let ghost q0 = query@;
    let ntok = tokens.len();
    assert(toks.len() == tokens@.len());
    query.command = Some(Command::CREATE);
    query.field_type = Some(Vec::new());
    query.is_field_index = Some(Vec::new());
    query.index += 1;
    let curr_token = tokens[query.index];
    assert(toks[query.index as int] == curr_token@);
    match parse_isize(curr_token) {
        Some(num) => {
            let ghost before = notes@;
            let text = int_to_string(num as i128);
            notes.push(
                concat2(
                    "Malformed request. Please do not user integer as table name. Attempted table name: ",
                    text.as_str(),
                ),
            );
            assert(texts_view(notes@) =~= texts_view(before) + seq![msg_integer_table(num as int)]);
            assert(query@.fields == q0.fields);
            return Ok(false);
        },
        None => {},
    }
    query.table = curr_token.to_owned();
    query.index += 1;
    let mut field_types: Vec<FieldTypesAllowed> = Vec::new();
    let mut index_fields: Vec<bool> = Vec::new();
    let ghost t = curr_token@;
    let ghost cl = create_loop(
        toks,
        q0.length as int,
        q0.index + 2,
        q0.fields,
        Seq::empty(),
        Seq::empty(),
    );
    assert(field_types@ =~= Seq::<FieldTypesAllowed>::empty());
    assert(index_fields@ =~= Seq::<bool>::empty());
    loop
        invariant
            toks == strs_view(tokens@),
            toks.len() == tokens@.len(),
            q0 == old(query)@,
            texts_view(notes@) == texts_view(old(notes)@),
            spec_handle_create(toks, q0) == (
                cl.0,
                QueryView {
                    command: Some(Command::CREATE),
                    table: t,
                    fields: cl.1,
                    field_type: Some(cl.2),
                    is_field_index: Some(cl.3),
                    index: cl.4 as usize,
                    ..q0
                },
                Seq::<Seq<char>>::empty(),
            ),
            !(cl.0 is Panic),
            cl == create_loop(
                toks,
                q0.length as int,
                query.index as int,
                query@.fields,
                field_types@,
                index_fields@,
            ),
            query@ == (QueryView {
                command: Some(Command::CREATE),
                table: t,
                fields: query@.fields,
                field_type: Some(Seq::empty()),
                is_field_index: Some(Seq::empty()),
                index: query@.index,
                ..q0
            }),
        decreases tokens@.len() - query.index,
    {
        let tok = classify_token(tokens[query.index]);
        assert(toks[query.index as int] == tokens@[query.index as int]@);
        match tok {
            TokenType::VALUE(ValueTypes::String(s)) => {
                let (field_name, field_type, is_index_str) = match parse_field(s.as_str()) {
                    Ok(x) => x,
                    Err(e) => {
                        query.field_type = Some(field_types);
                        query.is_field_index = Some(index_fields);
                        return Err(e);
                    },
                };
                let is_index = match index_flag(is_index_str) {
                    Some(b) => b,
                    None => {
                        query.field_type = Some(field_types);
                        query.is_field_index = Some(index_fields);
                        return Err("Invalid index flag (expected true or false)".to_owned());
                    },
                };
                let ghost before = query.fields@;
                query.fields.push(field_name);
                field_types.push(field_type);
                index_fields.push(is_index);
                assert(values_view(query.fields@) =~= values_view(before).push(field_name@));
                query.index += 1;
                if query.index == query.length {
                    query.field_type = Some(field_types);
                    query.is_field_index = Some(index_fields);
                    return Ok(true);
                }
            },
            _ => {
                query.field_type = Some(field_types);
                query.is_field_index = Some(index_fields);
                return Ok(true);
            },
        }
    }
}

// ------------------------------------------------------------------ insert
pub open spec fn msg_column_count(expected: int, got: int) -> Seq<char> {
    "Column count mismatch: expected "@ + int_text(expected) + ", got "@ + int_text(got)
}

/// The values of an `insert` token `v1:v2:...`, one per column of a table
/// with `n` columns; each piece is kept as a word, the star included.
pub open spec fn spec_parse_values(s: Seq<char>, n: int) -> Result<Seq<ValueView>, Seq<char>> {
    let parts = split_on(s, ':');
    if parts.len() != n {
        Err(msg_column_count(n, parts.len() as int))
    } else {
        Ok(parts.map_values(|p: Seq<char>| ValueView::Text(p)))
    }
}

pub fn parse_values_from_token(token: &str, schema: &TableMetadataObject) -> (r: Result<
    Vec<ValueTypes>,
    String,
>)
    ensures
        match spec_parse_values(token@, schema@.fields.len() as int) {
            Ok(vs) => r matches Ok(v) && values_view(v@) == vs,
            Err(e) => r matches Err(m) && m@ == e,
        },
{
    let parts = split_char(token, ':');
    let n = schema.fields.len();
    if parts.len() != n {
        let a = int_to_string(n as i128);
        let b = int_to_string(parts.len() as i128);
        return Err(concat4("Column count mismatch: expected ", a.as_str(), ", got ", b.as_str()));
    }
    let mut values: Vec<ValueTypes> = Vec::new();
    let mut i: usize = 0;
    while i < n
        invariant
            n == parts@.len(),
            i <= n,
            values_view(values@) == strs_view(parts@).take(i as int).map_values(
                |p: Seq<char>| ValueView::Text(p),
            ),
        decreases n - i,
    {
        let ghost before = values@;
        values.push(ValueTypes::String(parts[i].to_owned()));
        assert(values_view(values@) =~= strs_view(parts@).take(i + 1).map_values(
            |p: Seq<char>| ValueView::Text(p),
        )) by {
            assert(values_view(values@) =~= values_view(before).push(ValueView::Text(parts@[i as int]@)));
        }
        i += 1;
    }
    assert(strs_view(parts@).take(n as int) =~= strs_view(parts@));
    Ok(values)
}

pub open spec fn schema_view(s: Result<TableMetadataObject, String>) -> Result<TableView, Seq<char>> {
    match s {
        Ok(t) => Ok(t@),
        Err(e) => Err(e@),
    }
}

pub open spec fn msg_unexpected(tok: Seq<char>) -> Seq<char> {
    "Unexpected token: "@ + tok
}

/// Reads the value tokens of an `insert` from position `j` to the end.
pub open spec fn insert_loop(toks: Seq<Seq<char>>, j: int, values: Seq<ValueView>, n: int) -> (
    Result<bool, Seq<char>>,
    Seq<ValueView>,
    int,
)
    decreases toks.len() - j,
{
    if j < 0 || j >= toks.len() {
        (Ok(true), values, j)
    } else {
        match spec_classify(toks[j]) {
            TokenView::Value(ValueView::Text(s)) => match spec_parse_values(s, n) {
                Err(e) => (Err(e), values, j),
                Ok(vs) => insert_loop(toks, j + 1, values + vs, n),
            },
            _ => (Err(msg_unexpected(toks[j])), values, j),
        }
    }
}

/// `insert`: the table name, then value tokens read against the table's
/// schema `schema`, or its error when the schema could not be read.
pub open spec fn spec_handle_insert(
    toks: Seq<Seq<char>>,
    q: QueryView,
    schema: Result<TableView, Seq<char>>,
) -> (Outcome<bool>, QueryView) {
    let q1 = QueryView { command: Some(Command::INSERT), index: (q.index + 1) as usize, ..q };
    if q.index + 1 >= toks.len() {
        (Outcome::Panic, q1)
    } else {
        let q2 = QueryView { table: toks[q.index + 1], index: (q.index + 2) as usize, ..q1 };
        match schema {
            Err(e) => (Outcome::Error(e), q2),
            Ok(sv) => {
                let (r, vals, j) = insert_loop(toks, q.index + 2, q.values, sv.fields.len() as int);
                let q3 = QueryView { values: vals, index: j as usize, ..q2 };
                match r {
                    Ok(b) => (Outcome::Done(b), q3),
                    Err(e) => (Outcome::Error(e), q3),
                }
            },
        }
    }
}

/// `insert`: records the command, the table name and the values, read
/// against `schema`, the table's schema as its catalog gave it.
pub fn handle_insert(
    tokens: &[&str],
    query: &mut QueryObject,
    schema: &Result<TableMetadataObject, String>,
) -> (r: Result<bool, String>)
    requires
        !(spec_handle_insert(strs_view(tokens@), old(query)@, schema_view(*schema)).0 is Panic),
    ensures
        ({
            let (o, q) = spec_handle_insert(strs_view(tokens@), old(query)@, schema_view(*schema));
            &&& final(query)@ == q
            &&& match o {
                Outcome::Done(b) => r == Ok::<bool, String>(b),
                Outcome::Error(e) => r matches Err(m) && m@ == e,
                Outcome::Panic => false,
            }
        }),
{
    let ghost toks = strs_view(tokens@);
    let ghost q0 = query@;
    let ntok = tokens.len();
    assert(toks.len() == tokens@.len());
    query.command = Some(Command::INSERT);
    query.index += 1;
    query.table = tokens[query.index].to_owned();
    assert(toks[query.index as int] == tokens@[query.index as int]@);
    query.index += 1;
    let sch = match schema {
        Ok(s) => s,
        Err(e) => {
            return Err(e.clone());
        },
    };
    let ghost n = sch@.fields.len() as int;
    let ghost il = insert_loop(toks, q0.index + 2, q0.values, n);
    let ghost t = tokens@[q0.index + 1]@;
    assert(spec_handle_insert(toks, q0, schema_view(*schema)) == (
        match il.0 {
            Ok(b) => Outcome::Done(b),
            Err(e) => Outcome::<bool>::Error(e),
        },
        QueryView {
            command: Some(Command::INSERT),
            table: t,
            values: il.1,
            index: il.2 as usize,
            ..q0
        },
    ));
    while query.index < ntok
        invariant
            toks == strs_view(tokens@),
            toks.len() == tokens@.len(),
            ntok == tokens@.len(),
            q0 == old(query)@,
            n == sch@.fields.len(),
            spec_handle_insert(toks, q0, schema_view(*schema)) == (
                match il.0 {
                    Ok(b) => Outcome::Done(b),
                    Err(e) => Outcome::<bool>::Error(e),
                },
                QueryView {
                    command: Some(Command::INSERT),
                    table: t,
                    values: il.1,
                    index: il.2 as usize,
                    ..q0
                },
            ),
            il == insert_loop(toks, query.index as int, query@.values, n),
            query@ == (QueryView {
                command: Some(Command::INSERT),
                table: t,
                values: query@.values,
                index: query@.index,
                ..q0
            }),
        decreases ntok - query.index,
    {
        let tok = classify_token(tokens[query.index]);
        assert(toks[query.index as int] == tokens@[query.index as int]@);
        match tok {
            TokenType::VALUE(ValueTypes::String(s)) => {
                let mut parsed = parse_values_from_token(s.as_str(), sch)?;
                let ghost before = query.values@;
                let ghost added = parsed@;
                query.values.append(&mut parsed);
                assert(values_view(query.values@) =~= values_view(before) + values_view(added));
            },
            _ => {
                return Err(concat2("Unexpected token: ", tokens[query.index]));
            },
        }
        query.index += 1;
    }
    Ok(true)
}

// ------------------------------------------------------------------- where
pub open spec fn msg_and_first() -> Seq<char> {
    "Malformed request. Please use where statement before 'and'. "@
}

pub open spec fn msg_no_table() -> Seq<char> {
    "Table does not exist."@
}

pub open spec fn msg_bad_operand() -> Seq<char> {
    "Invalid operand type provided."@
}

/// The connector a clause keyword gives its condition.
pub open spec fn spec_connector(cmd: Seq<char>) -> Option<LogicalConnector> {
    if cmd == "or"@ {
        Some(LogicalConnector::Or)
    } else if cmd == "and"@ {
        Some(LogicalConnector::And)
    } else {
        None
    }
}

pub open spec fn field_names(fields: Seq<FieldView>) -> Seq<Seq<char>> {
    fields.map_values(|f: FieldView| f.name)
}

/// `where` / `and` / `or` (the keyword given as `cmd`): a condition
/// `object operator object`; each object counts as a column when the table's
/// schema has a column of that name. An `and` before any condition is
/// refused.
pub open spec fn spec_handle_where(
    toks: Seq<Seq<char>>,
    q: QueryView,
    cmd: Seq<char>,
    schema: Result<TableView, Seq<char>>,
) -> (Outcome<bool>, QueryView) {
    if q.index >= toks.len() {
        (Outcome::Panic, q)
    } else if toks[q.index as int] == "and"@ && q.conditions.len() == 0 {
        (Outcome::Error(msg_and_first()), QueryView { index: (q.index + 1) as usize, ..q })
    } else {
        let i1 = q.index + 1;
        let q1 = QueryView { index: i1 as usize, ..q };
        match schema {
            Err(_) => (Outcome::Error(msg_no_table()), q1),
            Ok(sv) => {
                let q2 = QueryView { index: (i1 + 1) as usize, ..q };
                if i1 + 1 >= toks.len() {
                    (Outcome::Panic, q2)
                } else {
                    match spec_classify(toks[i1 + 1]) {
                        TokenView::Op(op) => if i1 + 2 >= toks.len() {
                            (Outcome::Panic, q2)
                        } else {
                            let names = field_names(sv.fields);
                            let t1 = toks[i1];
                            let t2 = toks[i1 + 2];
                            let c = CondView {
                                object_one: t1,
                                object_two: t2,
                                object_one_is_field: names.contains(t1),
                                object_two_is_field: names.contains(t2),
                                operand: op,
                                connector: spec_connector(cmd),
                            };
                            (
                                Outcome::Done(true),
                                QueryView {
                                    index: (i1 + 3) as usize,
                                    conditions: q.conditions.push(c),
                                    ..q
                                },
                            )
                        },
                        _ => (Outcome::Error(msg_bad_operand()), q2),
                    }
                }
            },
        }
    }
}

/// The column names of a table, or `Table does not exist.` when its schema
/// could not be read.
pub fn get_field_names(schema: &Result<TableMetadataObject, String>) -> (r: Result<
    Vec<String>,
    &'static str,
>)
    ensures
        match schema_view(*schema) {
            Ok(sv) => r matches Ok(v) && texts_view(v@) == field_names(sv.fields),
            Err(_) => r matches Err(m) && m@ == msg_no_table(),
        },
{
    let table_schema = match schema {
        Ok(s) => s,
        Err(_) => {
            return Err("Table does not exist.");
        },
    };
    let mut field_names_v: Vec<String> = Vec::new();
    let n = table_schema.fields.len();
    let mut i: usize = 0;
    while i < n
        invariant
            n == table_schema.fields@.len(),
            i <= n,
            texts_view(field_names_v@) == field_names(table_schema@.fields).take(i as int),
        decreases n - i,
    {
        let ghost before = field_names_v@;
        field_names_v.push(table_schema.fields[i].name.clone());
        assert(texts_view(field_names_v@) =~= field_names(table_schema@.fields).take(i + 1)) by {
            assert(texts_view(field_names_v@) =~= texts_view(before).push(
                table_schema.fields@[i as int].name@,
            ));
        }
        i += 1;
    }
    assert(field_names(table_schema@.fields).take(n as int) =~= field_names(table_schema@.fields));
    Ok(field_names_v)
}

fn contains_text(v: &Vec<String>, s: &str) -> (r: bool)
    ensures
        r == texts_view(v@).contains(s@),
{
    let n = v.len();
    let mut i: usize = 0;
    while i < n
        invariant
            n == v@.len(),
            i <= n,
            forall|k: int| 0 <= k < i ==> texts_view(v@)[k] != s@,
        decreases n - i,
    {
        if str_eq(v[i].as_str(), s) {
            assert(texts_view(v@)[i as int] == s@);
            return true;
        }
        i += 1;
    }
    false
}

fn connector_of(cmd: &str) -> (r: Option<LogicalConnector>)
    ensures
        r == spec_connector(cmd@),
{
    if str_eq(cmd, "or") {
        Some(LogicalConnector::Or)
    } else if str_eq(cmd, "and") {
        Some(LogicalConnector::And)
    } else {
        None
    }
}

/// `where`, `and` or `or` (named by `cmd`): records one condition, judging
/// each side a column by the names in `schema`, the schema of the query's
/// table as its catalog gave it.
pub fn handle_where(
    tokens: &[&str],
    query: &mut QueryObject,
    cmd: &str,
    schema: &Result<TableMetadataObject, String>,
) -> (r: Result<bool, &'static str>)
    requires
        !(spec_handle_where(strs_view(tokens@), old(query)@, cmd@, schema_view(*schema)).0 is Panic),
    ensures
        ({
            let (o, q) = spec_handle_where(
                strs_view(tokens@),
                old(query)@,
                cmd@,
                schema_view(*schema),
            );
            &&& final(query)@ == q
            &&& match o {
                Outcome::Done(b) => r == Ok::<bool, &'static str>(b),
                Outcome::Error(e) => r matches Err(m) && m@ == e,
                Outcome::Panic => false,
            }
        }),
{
    let ghost toks = strs_view(tokens@);
    let ntok = tokens.len();
    assert(toks.len() == tokens@.len());
    assert(toks[query.index as int] == tokens@[query.index as int]@);
    if str_eq(tokens[query.index], "and") && query.conditions.len() == 0 {
        query.index += 1;
        return Err("Malformed request. Please use where statement before 'and'. ");
    }
    query.index += 1;
    let table = get_field_names(schema)?;
    let curr_token = tokens[query.index];
    assert(toks[query.index as int] == curr_token@);
    let mut conditions = ConditionsObject::default();
    conditions.connector = connector_of(cmd);
    conditions.object_one_is_field = contains_text(&table, curr_token);
    conditions.object_one = curr_token.to_owned();
    query.index += 1;
    assert(toks[query.index as int] == tokens@[query.index as int]@);
    match classify_token(tokens[query.index]) {
        TokenType::OP(op) => {
            conditions.operand = op;
            query.index += 1;
        },
        _ => {
            return Err("Invalid operand type provided.");
        },
    }
    let curr_token = tokens[query.index];
    assert(toks[query.index as int] == curr_token@);
    conditions.object_two_is_field = contains_text(&table, curr_token);
    conditions.object_two = curr_token.to_owned();
    query.index += 1;
    let ghost before = query.conditions@;
    query.conditions.push(conditions);
    assert(conds_view(query.conditions@) =~= conds_view(before).push(conditions@));
    Ok(true)
}

// -------------------------------------------------------------- from, delete
pub open spec fn spec_handle_from(toks: Seq<Seq<char>>, q: QueryView) -> (Outcome<bool>, QueryView) {
    if q.index + 1 >= toks.len() {
        (Outcome::Panic, QueryView { index: (q.index + 1) as usize, ..q })
    } else {
        (
            Outcome::Done(true),
            QueryView { table: toks[q.index + 1], index: (q.index + 2) as usize, ..q },
        )
    }
}

/// `from`: records the table name that follows.
pub fn handle_from(tokens: &[&str], query: &mut QueryObject) -> (r: Result<bool, &'static str>)
    requires
        !(spec_handle_from(strs_view(tokens@), old(query)@).0 is Panic),
    ensures
        r == Ok::<bool, &'static str>(true),
        final(query)@ == spec_handle_from(strs_view(tokens@), old(query)@).1,
{
    let ghost toks = strs_view(tokens@);
    let ntok = tokens.len();
    assert(toks.len() == tokens@.len());
    query.index += 1;
    query.table = tokens[query.index].to_owned();
    assert(toks[query.index as int] == tokens@[query.index as int]@);
    query.index += 1;
    Ok(true)
}

pub open spec fn spec_handle_delete(q: QueryView) -> QueryView {
    QueryView { command: Some(Command::DELETE), index: (q.index + 1) as usize, ..q }
}

/// `delete`: records the command.
pub fn handle_delete(query: &mut QueryObject) -> (r: Result<bool, String>)
    requires
        old(query).index < usize::MAX,
    ensures
        r == Ok::<bool, String>(true),
        final(query)@ == spec_handle_delete(old(query)@),
{
    query.command = Some(Command::DELETE);
    query.index += 1;
    Ok(true)
}

} // verus!
