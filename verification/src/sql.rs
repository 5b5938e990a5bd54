//! The parser's driver: splits the input into tokens and hands each
//! statement or clause keyword to its handler, collecting the messages the
//! statement prints. The catalog of table schemas is given by the caller;
//! when a handler needs a schema the catalog lacks, the driver says which.
use vstd::prelude::*;
use crate::enums::{Command, Filter, TokenType, TokenView, ValueTypes, ValueView, Operand};
use crate::message::concat2;
use crate::outcome::Outcome;
use crate::parsing::{
    classify_token,
    create_loop,
    handle_create,
    handle_delete,
    handle_from,
    handle_insert,
    handle_select,
    handle_where,
    insert_loop,
    schema_view,
    select_loop,
    spec_classify,
    spec_handle_create,
    spec_handle_delete,
    spec_handle_from,
    spec_handle_insert,
    spec_handle_select,
    spec_handle_where,
    texts_view,
};
use crate::structs::{QueryObject, QueryView, TableMetadataObject, TableView};
use crate::text::{parse_isize, spec_parse_in_range, split_whitespace, split_ws, str_eq, strs_view};

verus! {

/// What a statement handler gives: its outcome, the query after it, and
/// the notes it printed.
pub open spec fn spec_match_command(
    c: Command,
    toks: Seq<Seq<char>>,
    q: QueryView,
    schema: Result<TableView, Seq<char>>,
) -> (Outcome<bool>, QueryView, Seq<Seq<char>>) {
    match c {
        Command::SELECT => {
            let (o, q2) = spec_handle_select(toks, q);
            (o, q2, Seq::empty())
        },
        Command::INSERT => {
            let (o, q2) = spec_handle_insert(toks, q, schema);
            (o, q2, Seq::empty())
        },
        Command::CREATE => spec_handle_create(toks, q),
        Command::DELETE => if q.index == usize::MAX {
            (Outcome::Panic, q, Seq::empty())
        } else {
            (Outcome::Done(true), spec_handle_delete(q), Seq::empty())
        },
        Command::EXIT => (Outcome::Done(false), q, Seq::empty()),
    }
}

/// Hands a statement keyword to its handler; `exit` stops the parse.
/// `schema` is the schema of the table an `insert` names; the notes that
/// `create` prints are appended to `notes`.
pub fn match_command(
    command: &Command,
    tokens: &[&str],
    query: &mut QueryObject,
    schema: &Result<TableMetadataObject, String>,
    notes: &mut Vec<String>,
) -> (r: Result<bool, String>)
    requires
        !(spec_match_command(*command, strs_view(tokens@), old(query)@, schema_view(*schema)).0 is Panic),
    ensures
        ({
            let (o, q, n) = spec_match_command(
                *command,
                strs_view(tokens@),
                old(query)@,
                schema_view(*schema),
            );
            &&& final(query)@ == q
            &&& texts_view(final(notes)@) == texts_view(old(notes)@) + n
            &&& match o {
                Outcome::Done(b) => r == Ok::<bool, String>(b),
                Outcome::Error(e) => r matches Err(m) && m@ == e,
                Outcome::Panic => false,
            }
        }),
{
    assert(texts_view(notes@) =~= texts_view(notes@) + Seq::<Seq<char>>::empty());
    match command {
        Command::SELECT => handle_select(tokens, query),
        Command::INSERT => handle_insert(tokens, query, schema),
        Command::CREATE => handle_create(tokens, query, notes),
        Command::DELETE => handle_delete(query),
        Command::EXIT => Ok(false),
    }
}

/// What a clause handler gives.
pub open spec fn spec_match_filter(
    f: Filter,
    toks: Seq<Seq<char>>,
    q: QueryView,
    schema: Result<TableView, Seq<char>>,
) -> (Outcome<bool>, QueryView) {
    match f {
        Filter::FROM => spec_handle_from(toks, q),
        Filter::WHERE => spec_handle_where(toks, q, "where"@, schema),
        Filter::AND => spec_handle_where(toks, q, "and"@, schema),
        Filter::OR => spec_handle_where(toks, q, "or"@, schema),
    }
}

/// Hands a clause keyword to its handler; `schema` is the schema of the
/// query's table.
pub fn match_filter(
    filter: &Filter,
    tokens: &[&str],
    query: &mut QueryObject,
    schema: &Result<TableMetadataObject, String>,
) -> (r: Result<bool, &'static str>)
    requires
        !(spec_match_filter(*filter, strs_view(tokens@), old(query)@, schema_view(*schema)).0 is Panic),
    ensures
        ({
            let (o, q) = spec_match_filter(
                *filter,
                strs_view(tokens@),
                old(query)@,
                schema_view(*schema),
            );
            &&& final(query)@ == q
            &&& match o {
                Outcome::Done(b) => r == Ok::<bool, &'static str>(b),
                Outcome::Error(e) => r matches Err(m) && m@ == e,
                Outcome::Panic => false,
            }
        }),
{
    match filter {
        Filter::FROM => handle_from(tokens, query),
        Filter::WHERE => handle_where(tokens, query, "where", schema),
        Filter::AND => handle_where(tokens, query, "and", schema),
        Filter::OR => handle_where(tokens, query, "or", schema),
    }
}

// ------------------------------------------------------------------ catalog
/// A table's schema as the catalog gave it: the schema, or why it could
/// not be read.
pub struct CatalogEntry {
    pub name: String,
    pub schema: Result<TableMetadataObject, String>,
}

pub open spec fn catalog_view(c: Seq<CatalogEntry>) -> Seq<(Seq<char>, Result<TableView, Seq<char>>)> {
    c.map_values(|e: CatalogEntry| (e.name@, schema_view(e.schema)))
}

/// The first entry of the catalog for the table `name`.
pub open spec fn lookup(cat: Seq<(Seq<char>, Result<TableView, Seq<char>>)>, name: Seq<char>) -> Option<
    Result<TableView, Seq<char>>,
>
    decreases cat.len(),
{
    if cat.len() == 0 {
        None
    } else if cat[0].0 == name {
        Some(cat[0].1)
    } else {
        lookup(cat.drop_first(), name)
    }
}

/// The schema the catalog holds for `name`, an empty error when it has none.
pub open spec fn schema_for(cat: Seq<(Seq<char>, Result<TableView, Seq<char>>)>, name: Seq<char>) -> Result<
    TableView,
    Seq<char>,
> {
    match lookup(cat, name) {
        Some(s) => s,
        None => Err(Seq::empty()),
    }
}

fn find_schema<'a>(catalog: &'a Vec<CatalogEntry>, name: &str) -> (r: Option<
    &'a Result<TableMetadataObject, String>,
>)
    ensures
        match lookup(catalog_view(catalog@), name@) {
            Some(s) => r matches Some(x) && schema_view(*x) == s,
            None => r is None,
        },
{
    let n = catalog.len();
    let mut i: usize = 0;
    assert(catalog_view(catalog@).skip(0) =~= catalog_view(catalog@));
    while i < n
        invariant
            n == catalog@.len(),
            i <= n,
            lookup(catalog_view(catalog@), name@) == lookup(
                catalog_view(catalog@).skip(i as int),
                name@,
            ),
        decreases n - i,
    {
        let ghost rest = catalog_view(catalog@).skip(i as int);
        assert(rest[0] == (catalog@[i as int].name@, schema_view(catalog@[i as int].schema)));
        if str_eq(catalog[i].name.as_str(), name) {
            return Some(&catalog[i].schema);
        }
        assert(rest.drop_first() =~= catalog_view(catalog@).skip(i + 1));
        i += 1;
    }
    None
}

// ------------------------------------------------------------------- driver
pub open spec fn msg_malformed(e: Seq<char>) -> Seq<char> {
    "Malformed Request. "@ + e
}

pub open spec fn msg_operator_first(o: Operand) -> Seq<char> {
    "Malformed Request. Please rewrite and try again. "@ + o.spec_text()
}

pub open spec fn msg_value_first(v: ValueView) -> Seq<char> {
    "Malformed Request. Please rewrite and try again "@ + ValueTypes::spec_text(v)
}

/// How one step of the parse ends.
pub enum StepView {
    /// Go on with this query, after printing these messages.
    Next(QueryView, Seq<Seq<char>>),
    /// Stop with this answer.
    Stop(bool, QueryView, Seq<Seq<char>>),
    /// The schema of this table is needed.
    Need(Seq<char>),
    /// The statement cannot be read on, after printing these messages.
    Panic(Seq<Seq<char>>),
}

pub open spec fn after_handler(o: Outcome<bool>, q2: QueryView, notes: Seq<Seq<char>>) -> StepView {
    match o {
        Outcome::Panic => StepView::Panic(notes),
        Outcome::Error(e) => StepView::Next(q2, notes.push(msg_malformed(e))),
        Outcome::Done(b) => if b {
            StepView::Next(q2, notes)
        } else {
            StepView::Stop(false, q2, notes)
        },
    }
}

/// An `and` before any condition, refused before any schema is read.
pub open spec fn early_and(toks: Seq<Seq<char>>, q: QueryView) -> bool {
    toks[q.index as int] == "and"@ && q.conditions.len() == 0
}

/// One step of the parse at the token `toks[q.index]`.
pub open spec fn spec_step(
    toks: Seq<Seq<char>>,
    q: QueryView,
    cat: Seq<(Seq<char>, Result<TableView, Seq<char>>)>,
) -> StepView {
    match spec_classify(toks[q.index as int]) {
        TokenView::Cmd(c) => {
            let wants = c == Command::INSERT && q.index + 1 < toks.len();
            if wants && lookup(cat, toks[q.index + 1]) is None {
                StepView::Need(toks[q.index + 1])
            } else {
                let sr = if wants {
                    schema_for(cat, toks[q.index + 1])
                } else {
                    Err(Seq::empty())
                };
                let (o, q2, n) = spec_match_command(c, toks, q, sr);
                after_handler(o, q2, n)
            }
        },
        TokenView::Op(o) => StepView::Stop(false, q, seq![msg_operator_first(o)]),
        TokenView::Filter(f) => {
            let wants = f != Filter::FROM && !early_and(toks, q);
            if wants && lookup(cat, q.table) is None {
                StepView::Need(q.table)
            } else {
                let (o, q2) = spec_match_filter(f, toks, q, schema_for(cat, q.table));
                after_handler(o, q2, Seq::empty())
            }
        },
        TokenView::Value(v) => StepView::Stop(false, q, seq![msg_value_first(v)]),
    }
}

/// How a parse ends.
pub enum EndView {
    /// Parsed; `false` when the statement stops the session or was refused.
    Proceed(bool),
    /// The schema of this table is needed to go on.
    Need(Seq<char>),
    /// The statement runs past its last token.
    Panic,
    /// A step failed to move on (never happens).
    Stuck,
}

pub struct RunView {
    pub end: EndView,
    pub query: QueryView,
    pub messages: Seq<Seq<char>>,
}

/// Parses from `q.index` on, `msgs` having been printed so far.
pub open spec fn spec_run(
    toks: Seq<Seq<char>>,
    q: QueryView,
    msgs: Seq<Seq<char>>,
    cat: Seq<(Seq<char>, Result<TableView, Seq<char>>)>,
) -> RunView
    decreases toks.len() - q.index,
{
    if q.index >= q.length || q.index >= toks.len() {
        RunView { end: EndView::Proceed(true), query: q, messages: msgs }
    } else {
        match spec_step(toks, q, cat) {
            StepView::Next(q2, m) => if q.index < q2.index <= toks.len() {
                spec_run(toks, q2, msgs + m, cat)
            } else {
                RunView { end: EndView::Stuck, query: q2, messages: msgs + m }
            },
            StepView::Stop(b, q2, m) => RunView {
                end: EndView::Proceed(b),
                query: q2,
                messages: msgs + m,
            },
            StepView::Need(name) => RunView { end: EndView::Need(name), query: q, messages: msgs },
            StepView::Panic(m) => RunView { end: EndView::Panic, query: q, messages: msgs + m },
        }
    }
}

/// The parse of `input` into the query `q`, with the schemas of `cat`.
pub open spec fn spec_parse_sql(
    input: Seq<char>,
    q: QueryView,
    cat: Seq<(Seq<char>, Result<TableView, Seq<char>>)>,
) -> RunView {
    let toks = split_ws(input);
    spec_run(
        toks,
        QueryView { length: toks.len() as usize, index: 0, ..q },
        Seq::empty(),
        cat,
    )
}

/// How the parse of a statement ended.
pub enum ParseEnd {
    /// Parsed; `false` when the statement stops the session or was refused.
    Proceed(bool),
    /// The schema of this table is needed: read it into the catalog and parse
    /// the statement again from a fresh query.
    NeedsSchema(String),
    /// The statement runs past its last token.
    Panic,
}

/// The end of a parse and the messages it printed, in order.
pub struct ParseReport {
    pub end: ParseEnd,
    pub messages: Vec<String>,
}

pub open spec fn end_view(e: ParseEnd) -> EndView {
    match e {
        ParseEnd::Proceed(b) => EndView::Proceed(b),
        ParseEnd::NeedsSchema(n) => EndView::Need(n@),
        ParseEnd::Panic => EndView::Panic,
    }
}

pub proof fn lemma_select_loop(toks: Seq<Seq<char>>, length: int, j: int, f: Seq<ValueView>)
    requires
        0 <= j,
    ensures
        !(select_loop(toks, length, j, f).0 is Panic) ==> j <= select_loop(toks, length, j, f).2
            <= toks.len(),
        length == toks.len() && j < toks.len() ==> !(select_loop(toks, length, j, f).0 is Panic),
    decreases toks.len() - j,
{
    if j < toks.len() {
        match spec_classify(toks[j]) {
            TokenView::Value(v) => {
                if !(v is Star) && j + 1 != length {
                    lemma_select_loop(toks, length, j + 1, f.push(v));
                }
            },
            _ => {},
        }
    }
}

pub proof fn lemma_create_loop(
    toks: Seq<Seq<char>>,
    length: int,
    j: int,
    f: Seq<ValueView>,
    t: Seq<crate::enums::FieldTypesAllowed>,
    g: Seq<bool>,
)
    requires
        0 <= j,
    ensures
        !(create_loop(toks, length, j, f, t, g).0 is Panic) ==> j <= create_loop(
            toks,
            length,
            j,
            f,
            t,
            g,
        ).4 <= toks.len(),
        length == toks.len() && j < toks.len() ==> !(create_loop(toks, length, j, f, t, g).0 is Panic),
    decreases toks.len() - j,
{
    if j < toks.len() {
        match spec_classify(toks[j]) {
            TokenView::Value(ValueView::Text(s)) => match crate::parsing::spec_parse_field(s) {
                Ok((name, ty, flag)) => match crate::parsing::spec_index_flag(flag) {
                    Some(b) => {
                        if j + 1 != length {
                            lemma_create_loop(toks, length, j + 1, f.push(name), t.push(ty), g.push(b));
                        }
                    },
                    None => {},
                },
                Err(_) => {},
            },
            _ => {},
        }
    }
}

pub proof fn lemma_insert_loop(toks: Seq<Seq<char>>, j: int, values: Seq<ValueView>, n: int)
    requires
        0 <= j <= toks.len(),
    ensures
        j <= insert_loop(toks, j, values, n).2 <= toks.len(),
    decreases toks.len() - j,
{
    if j < toks.len() {
        match spec_classify(toks[j]) {
            TokenView::Value(ValueView::Text(s)) => match crate::parsing::spec_parse_values(s, n) {
                Ok(vs) => {
                    lemma_insert_loop(toks, j + 1, values + vs, n);
                },
                Err(_) => {},
            },
            _ => {},
        }
    }
}

/// Every step that goes on moves past at least one token and stays within
/// the tokens.
pub proof fn lemma_step_progress(
    toks: Seq<Seq<char>>,
    q: QueryView,
    cat: Seq<(Seq<char>, Result<TableView, Seq<char>>)>,
)
    requires
        q.index < toks.len(),
        q.length == toks.len(),
    ensures
        spec_step(toks, q, cat) matches StepView::Next(q2, _) ==> q.index < q2.index <= toks.len(),
        spec_step(toks, q, cat) matches StepView::Stop(_, q2, _) ==> q2.length == q.length,
        spec_step(toks, q, cat) matches StepView::Next(q2, _) ==> q2.length == q.length,
{
    lemma_select_loop(toks, q.length as int, q.index + 1, q.fields);
    lemma_create_loop(toks, q.length as int, q.index + 2, q.fields, Seq::empty(), Seq::empty());
    if q.index + 2 <= toks.len() {
        match schema_for(cat, toks[q.index + 1]) {
            Ok(sv) => {
                lemma_insert_loop(toks, q.index + 2, q.values, sv.fields.len() as int);
            },
            Err(_) => {},
        }
    }
}

fn command_panics(
    command: &Command,
    tokens: &[&str],
    query: &QueryObject,
    schema: &Result<TableMetadataObject, String>,
) -> (r: bool)
    requires
        query.index < tokens@.len(),
        query.length == tokens@.len(),
    ensures
        r == (spec_match_command(*command, strs_view(tokens@), query@, schema_view(*schema)).0 is Panic),
{
    let ghost toks = strs_view(tokens@);
    proof {
        lemma_select_loop(toks, query@.length as int, query.index + 1, query@.fields);
        lemma_create_loop(
            toks,
            query@.length as int,
            query.index + 2,
            query@.fields,
            Seq::empty(),
            Seq::empty(),
        );
    }
    let n = tokens.len();
    match command {
        Command::SELECT => query.index + 1 >= n,
        Command::INSERT => query.index + 1 >= n,
        Command::CREATE => {
            if query.index + 1 >= n {
                true
            } else {
                assert(toks[query.index + 1] == tokens@[query.index + 1]@);
                parse_isize(tokens[query.index + 1]).is_none() && query.index + 2 >= n
            }
        },
        Command::DELETE => false,
        Command::EXIT => false,
    }
}

fn filter_panics(
    filter: &Filter,
    tokens: &[&str],
    query: &QueryObject,
    schema: &Result<TableMetadataObject, String>,
) -> (r: bool)
    requires
        query.index < tokens@.len(),
    ensures
        r == (spec_match_filter(*filter, strs_view(tokens@), query@, schema_view(*schema)).0 is Panic),
{
    let ghost toks = strs_view(tokens@);
    let n = tokens.len();
    assert(toks[query.index as int] == tokens@[query.index as int]@);
    match filter {
        Filter::FROM => n - query.index <= 1,
        _ => {
            if str_eq(tokens[query.index], "and") && query.conditions.len() == 0 {
                false
            } else if schema.is_err() {
                false
            } else if n - query.index <= 2 {
                true
            } else {
                assert(toks[query.index + 2] == tokens@[query.index + 2]@);
                match classify_token(tokens[query.index + 2]) {
                    TokenType::OP(_) => n - query.index <= 3,
                    _ => false,
                }
            }
        },
    }
}

/// Appends the texts of `extra` to `v`.
fn append_all(v: &mut Vec<String>, extra: Vec<String>)
    ensures
        texts_view(final(v)@) == texts_view(old(v)@) + texts_view(extra@),
{
    let mut e = extra;
    let ghost before = v@;
    let ghost added = e@;
    v.append(&mut e);
    assert(texts_view(v@) =~= texts_view(before) + texts_view(added));
}

/// Parses one statement into `query`: splits `input` on whitespace and hands
/// each keyword to its handler, with the table schemas of `catalog`. The
/// report holds the messages the statement printed and how the parse ended;
/// the query is as parsed when the parse ends with `Proceed`.
pub fn handle_sql_parsing(input: &str, query: &mut QueryObject, catalog: &Vec<CatalogEntry>) -> (r:
    ParseReport)
    ensures
        ({
            let run = spec_parse_sql(input@, old(query)@, catalog_view(catalog@));
            &&& end_view(r.end) == run.end
            &&& texts_view(r.messages@) == run.messages
            &&& r.end is Proceed ==> final(query)@ == run.query
        }),
{
    let tokens_v = split_whitespace(input);
    let tokens = tokens_v.as_slice();
    let ghost toks = strs_view(tokens@);
    let ghost cat = catalog_view(catalog@);
    let ghost target = spec_parse_sql(input@, old(query)@, cat);
    query.length = tokens.len();
    query.index = 0;
    let mut messages: Vec<String> = Vec::new();
    assert(texts_view(messages@) =~= Seq::<Seq<char>>::empty());
    while query.index < query.length
        invariant
            toks == strs_view(tokens@),
            toks == split_ws(input@),
            cat == catalog_view(catalog@),
            query.length == tokens@.len(),
            target == spec_parse_sql(input@, old(query)@, cat),
            target == spec_run(toks, query@, texts_view(messages@), cat),
        decreases query.length - query.index,
    {
        proof {
            lemma_step_progress(toks, query@, cat);
        }
        let ghost q = query@;
        let ghost msgs = texts_view(messages@);
        assert(toks[query.index as int] == tokens@[query.index as int]@);
        let tok = classify_token(tokens[query.index]);
        match tok {
            TokenType::CMD(command) => {
                let wants = command == Command::INSERT && query.index + 1 < tokens.len();
                let found = if wants {
                    assert(toks[query.index + 1] == tokens@[query.index + 1]@);
                    find_schema(catalog, tokens[query.index + 1])
                } else {
                    None
                };
                if wants && found.is_none() {
                    return ParseReport {
                        end: ParseEnd::NeedsSchema(tokens[query.index + 1].to_owned()),
                        messages,
                    };
                }
                let dummy: Result<TableMetadataObject, String> = Err(String::new());
                let schema_ref = match found {
                    Some(x) => x,
                    None => &dummy,
                };
                assert(schema_view(*schema_ref) == (if wants {
                    schema_for(cat, toks[q.index + 1])
                } else {
                    Err(Seq::empty())
                }));
                if command_panics(&command, tokens, query, schema_ref) {
                    assert(texts_view(messages@) + Seq::<Seq<char>>::empty() =~= texts_view(
                        messages@,
                    ));
                    return ParseReport { end: ParseEnd::Panic, messages };
                }
                let ghost handled = spec_match_command(command, toks, q, schema_view(*schema_ref));
                let mut notes: Vec<String> = Vec::new();
                assert(texts_view(notes@) =~= Seq::<Seq<char>>::empty());
                let res = match_command(&command, tokens, query, schema_ref, &mut notes);
                append_all(&mut messages, notes);
                assert(texts_view(messages@) =~= msgs + handled.2);
                match res {
                    Err(e) => {
                        let ghost before = messages@;
                        messages.push(concat2("Malformed Request. ", e.as_str()));
                        assert(texts_view(messages@) =~= texts_view(before).push(
                            msg_malformed(e@),
                        ));
                        assert(texts_view(messages@) =~= msgs + handled.2.push(msg_malformed(e@)));
                        assert(spec_step(toks, q, cat) == StepView::Next(
                            query@,
                            handled.2.push(msg_malformed(e@)),
                        ));
                    },
                    Ok(b) => {
                        if !b {
                            return ParseReport { end: ParseEnd::Proceed(false), messages };
                        }
                        assert(spec_step(toks, q, cat) == StepView::Next(query@, handled.2));
                    },
                }
            },
            TokenType::OP(operand) => {
                let ghost before = messages@;
                messages.push(
                    concat2(
                        "Malformed Request. Please rewrite and try again. ",
                        operand.to_string().as_str(),
                    ),
                );
                assert(texts_view(messages@) =~= texts_view(before) + seq![
                    msg_operator_first(operand),
                ]);
                return ParseReport { end: ParseEnd::Proceed(false), messages };
            },
            TokenType::FILTER(filter) => {
                let early = {
                    let t = tokens[query.index];
                    str_eq(t, "and") && query.conditions.len() == 0
                };
                let wants = filter != Filter::FROM && !early;
                let found = find_schema(catalog, query.table.as_str());
                if wants && found.is_none() {
                    return ParseReport {
                        end: ParseEnd::NeedsSchema(query.table.clone()),
                        messages,
                    };
                }
                let dummy: Result<TableMetadataObject, String> = Err(String::new());
                let schema_ref = match found {
                    Some(x) => x,
                    None => &dummy,
                };
                if filter_panics(&filter, tokens, query, schema_ref) {
                    assert(texts_view(messages@) + Seq::<Seq<char>>::empty() =~= texts_view(
                        messages@,
                    ));
                    return ParseReport { end: ParseEnd::Panic, messages };
                }
                let res = match_filter(&filter, tokens, query, schema_ref);
                match res {
                    Err(e) => {
                        let ghost before = messages@;
                        messages.push(concat2("Malformed Request. ", e));
                        assert(texts_view(messages@) =~= texts_view(before).push(msg_malformed(e@)));
                        assert(texts_view(messages@) =~= msgs + seq![msg_malformed(e@)]);
                        assert(spec_step(toks, q, cat) == StepView::Next(
                            query@,
                            Seq::<Seq<char>>::empty().push(msg_malformed(e@)),
                        ));
                    },
                    Ok(b) => {
                        assert(texts_view(messages@) =~= msgs + Seq::<Seq<char>>::empty());
                        assert(b);
                        assert(spec_step(toks, q, cat) == StepView::Next(
                            query@,
                            Seq::<Seq<char>>::empty(),
                        ));
                    },
                }
            },
            TokenType::VALUE(value) => {
                let ghost before = messages@;
                messages.push(
                    concat2(
                        "Malformed Request. Please rewrite and try again ",
                        value.to_string().as_str(),
                    ),
                );
                assert(texts_view(messages@) =~= texts_view(before) + seq![msg_value_first(value@)]);
                return ParseReport { end: ParseEnd::Proceed(false), messages };
            },
        }
    }
    ParseReport { end: ParseEnd::Proceed(true), messages }
}

} // verus!
