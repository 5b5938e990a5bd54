//! Properties that span several operations: what reading a stored row gives
//! back of what was written, and what the page operations keep.
use vstd::prelude::*;
use vstd::utf8::{decode_utf8, encode_utf8, encode_utf8_decode_utf8, encode_utf8_valid_utf8};
use crate::bytes::{byte_to_i8, i32_from_le, i32_le, i8_to_byte, lemma_i32_le_roundtrip, lemma_i8_byte_roundtrip};
use crate::enums::{FieldTypesAllowed, ValueView};
use crate::evaluate::{byte_sum, spec_get_value};
use crate::outcome::Outcome;
use crate::row::{lemma_build_parts_err, build_parts, decode_from, encode_field, spec_build_row, spec_decode_row};
use crate::structs::FieldView;
use crate::text::{int_text, spec_parse_in_range};
use crate::value::{VarView, spec_compare, var_order};
use crate::enums::Operand;
use crate::evaluate::{spec_conditions_hold, spec_eval_condition};
use crate::structs::{CondView, QueryView};
use crate::sql::{EndView, lemma_step_progress, spec_parse_sql, spec_run, StepView, spec_step};
use crate::text::{split_ws, text_sign};
use core::cmp::Ordering;
use crate::enums::{Command, Filter};
use crate::parsing::{create_loop, spec_handle_create, spec_index_flag, spec_parse_field};
use crate::sql::{lemma_create_loop, lemma_insert_loop, lemma_select_loop, spec_match_command, spec_match_filter};
use crate::structs::TableView;
use crate::enums::LogicalConnector;
use crate::evaluate::{ids_where, spec_conditional_ids, spec_selected_ids};
use crate::create::spec_new_table;
use crate::parsing::{spec_classify, spec_handle_where};
use crate::enums::TokenView;
use crate::text::trim_char;
use crate::enums::ValueTypes;

verus! {

/// The text a stored column reads back as: a number in its shortest form,
/// a string as it was given.
pub open spec fn stored_text(f: FieldView, v: ValueView) -> Seq<char> {
    match v {
        ValueView::Star => Seq::empty(),
        ValueView::Text(raw) => match f.data_type {
            FieldTypesAllowed::I8 => match spec_parse_in_range(raw, -128, 127) {
                Some(x) => int_text(x),
                None => Seq::empty(),
            },
            FieldTypesAllowed::I32 => match spec_parse_in_range(raw, -0x8000_0000, 0x7fff_ffff) {
                Some(x) => int_text(x),
                None => Seq::empty(),
            },
            FieldTypesAllowed::String => raw,
        },
    }
}

/// The texts of the columns `i..` whose ids `sel` holds, in schema order.
pub open spec fn selected_texts(
    fields: Seq<FieldView>,
    values: Seq<ValueView>,
    sel: Seq<u8>,
    i: nat,
) -> Seq<Seq<char>>
    decreases fields.len() - i,
{
    if i >= fields.len() {
        Seq::empty()
    } else {
        let rest = selected_texts(fields, values, sel, i + 1);
        if sel.contains(i as u8) {
            seq![stored_text(fields[i as int], values[i as int])] + rest
        } else {
            rest
        }
    }
}

/// The typed value a stored column reads back as, by its field's type.
pub open spec fn stored_value(f: FieldView, v: ValueView) -> VarView {
    match v {
        ValueView::Star => VarView::Text(Seq::empty()),
        ValueView::Text(raw) => match f.data_type {
            FieldTypesAllowed::I8 => match spec_parse_in_range(raw, -128, 127) {
                Some(x) => VarView::I8(x as i8),
                None => VarView::Text(Seq::empty()),
            },
            FieldTypesAllowed::I32 => match spec_parse_in_range(raw, -0x8000_0000, 0x7fff_ffff) {
                Some(x) => VarView::I32(x as i32),
                None => VarView::Text(Seq::empty()),
            },
            FieldTypesAllowed::String => VarView::Text(raw),
        },
    }
}

/// Each encoded column has as many data bytes as its length byte says.
proof fn lemma_encode_field_len(f: FieldView, v: ValueView)
    requires
        encode_field(f, v) is Ok,
    ensures
        ({
            let (l, b) = encode_field(f, v)->Ok_0;
            l as int == b.len()
        }),
{
}

/// The parts of `k` columns: one length byte per column, the lengths adding
/// up to the data's size.
proof fn lemma_parts_shape(fields: Seq<FieldView>, values: Seq<ValueView>, k: int)
    requires
        0 <= k,
        build_parts(fields, values, k) is Ok,
    ensures
        ({
            let (h, d) = build_parts(fields, values, k)->Ok_0;
            h.len() == k && byte_sum(h) == d.len()
        }),
    decreases k,
{
    if k > 0 {
        lemma_parts_shape(fields, values, k - 1);
        lemma_encode_field_len(fields[k - 1], values[k - 1]);
        let (h, d) = build_parts(fields, values, k - 1)->Ok_0;
        let (l, b) = encode_field(fields[k - 1], values[k - 1])->Ok_0;
        assert(h.push(l).drop_last() =~= h);
    }
}

/// The parts of the first `k` columns are a prefix of those of the first `j`.
proof fn lemma_parts_prefix(fields: Seq<FieldView>, values: Seq<ValueView>, k: int, j: int)
    requires
        0 <= k <= j,
        build_parts(fields, values, j) is Ok,
    ensures
        build_parts(fields, values, k) is Ok,
        ({
            let (hj, dj) = build_parts(fields, values, j)->Ok_0;
            let (hk, dk) = build_parts(fields, values, k)->Ok_0;
            &&& hk == hj.take(k)
            &&& dk.len() <= dj.len()
            &&& dk == dj.take(dk.len() as int)
        }),
    decreases j - k,
{
    lemma_parts_shape(fields, values, j);
    if j > k {
        lemma_parts_prefix(fields, values, k, j - 1);
        lemma_parts_shape(fields, values, j - 1);
        let (h1, d1) = build_parts(fields, values, j - 1)->Ok_0;
        let (l, b) = encode_field(fields[j - 1], values[j - 1])->Ok_0;
        let (hk, dk) = build_parts(fields, values, k)->Ok_0;
        assert(h1.push(l).take(k) =~= h1.take(k));
        assert((d1 + b).take(dk.len() as int) =~= d1.take(dk.len() as int));
    } else {
        let (hj, dj) = build_parts(fields, values, j)->Ok_0;
        assert(hj.take(j) =~= hj);
        assert(dj.take(dj.len() as int) =~= dj);
    }
}

/// Column `i` of a built row: its length byte and its data bytes.
proof fn lemma_column_layout(fields: Seq<FieldView>, values: Seq<ValueView>, i: int)
    requires
        0 <= i < fields.len(),
        fields.len() <= 253,
        values.len() >= fields.len(),
        spec_build_row(fields, values) is Ok,
    ensures
        build_parts(fields, values, i) is Ok,
        encode_field(fields[i], values[i]) is Ok,
        ({
            let row = spec_build_row(fields, values)->Ok_0;
            let n = fields.len() as int;
            let (hi, di) = build_parts(fields, values, i)->Ok_0;
            let (l, b) = encode_field(fields[i], values[i])->Ok_0;
            &&& row.len() >= 2 + n
            &&& row[0] as int == n + 2
            &&& row[1] as int == n
            &&& row[2 + i] == l
            &&& l as int == b.len()
            &&& byte_sum(row.subrange(2, 2 + i)) == di.len()
            &&& n + 2 + di.len() + l <= row.len()
            &&& row.subrange(n + 2 + di.len(), n + 2 + di.len() + l) == b
        }),
{
    let n = fields.len() as int;
    assert(crate::row::min_len(n, values.len() as int) == n);
    lemma_parts_prefix(fields, values, i, n);
    lemma_parts_prefix(fields, values, i + 1, n);
    lemma_parts_shape(fields, values, n);
    lemma_parts_shape(fields, values, i);
    lemma_encode_field_len(fields[i], values[i]);
    let (h, d) = build_parts(fields, values, n)->Ok_0;
    let (hi, di) = build_parts(fields, values, i)->Ok_0;
    let (h1, d1) = build_parts(fields, values, i + 1)->Ok_0;
    let (l, b) = encode_field(fields[i], values[i])->Ok_0;
    let row = spec_build_row(fields, values)->Ok_0;
    assert(row == seq![((n + 2) % 256) as u8, (n % 256) as u8] + h + d);
    assert(h1 == hi.push(l));
    assert(d1 == di + b);
    assert(h[i] == h1[i]);
    assert(row.subrange(2, 2 + i) =~= hi);
    assert(d.take(d1.len() as int) == d1);
    assert(row.subrange(n + 2 + di.len(), n + 2 + di.len() + l) =~= b) by {
        assert forall|x: int| 0 <= x < b.len() implies row[n + 2 + di.len() + x] == b[x] by {
            assert(row[n + 2 + di.len() + x] == d[di.len() + x]);
            assert(d1[di.len() + x] == b[x]);
        }
    }
}

/// Decoding the columns `i..` of a built row gives their stored texts.
proof fn lemma_decode_from_built(fields: Seq<FieldView>, values: Seq<ValueView>, sel: Seq<u8>, i: nat)
    requires
        i <= fields.len(),
        fields.len() <= 253,
        values.len() >= fields.len(),
        spec_build_row(fields, values) is Ok,
        build_parts(fields, values, i as int) is Ok,
    ensures
        ({
            let row = spec_build_row(fields, values)->Ok_0;
            let di = build_parts(fields, values, i as int)->Ok_0.1;
            decode_from(row, fields, sel, i, (fields.len() + 2 + di.len()) as int) == Outcome::Done(
                selected_texts(fields, values, sel, i),
            )
        }),
    decreases fields.len() - i,
{
    if i < fields.len() {
        lemma_column_layout(fields, values, i as int);
        let n = fields.len() as int;
        let row = spec_build_row(fields, values)->Ok_0;
        let (hi, di) = build_parts(fields, values, i as int)->Ok_0;
        let (l, b) = encode_field(fields[i as int], values[i as int])->Ok_0;
        assert(build_parts(fields, values, i + 1 as int) == Ok::<(Seq<u8>, Seq<u8>), Seq<char>>(
            (hi.push(l), di + b),
        ));
        lemma_decode_from_built(fields, values, sel, i + 1);
        assert((i % 256) as u8 == i as u8);
        let f = fields[i as int];
        match values[i as int] {
            ValueView::Text(raw) => match f.data_type {
                FieldTypesAllowed::I8 => {
                    let x = spec_parse_in_range(raw, -128, 127)->Some_0;
                    lemma_i8_byte_roundtrip(x as i8);
                },
                FieldTypesAllowed::I32 => {
                    let x = spec_parse_in_range(raw, -0x8000_0000, 0x7fff_ffff)->Some_0;
                    lemma_i32_le_roundtrip(x as i32);
                },
                FieldTypesAllowed::String => {
                    encode_utf8_valid_utf8(raw);
                    encode_utf8_decode_utf8(raw);
                },
            },
            ValueView::Star => {},
        }
    }
}

/// Reading back a row that was built for a schema gives, for each selected
/// column in schema order, the value that was written: strings as given,
/// numbers in their shortest decimal form. It holds for schemas of up to 253
/// columns, whose header size fits the header's first byte.
pub proof fn law_row_roundtrip(fields: Seq<FieldView>, values: Seq<ValueView>, sel: Seq<u8>)
    requires
        fields.len() <= 253,
        values.len() >= fields.len(),
        spec_build_row(fields, values) is Ok,
    ensures
        spec_decode_row(spec_build_row(fields, values)->Ok_0, fields, sel) == Outcome::Done(
            selected_texts(fields, values, sel, 0),
        ),
{
    let n = fields.len() as int;
    assert(crate::row::min_len(n, values.len() as int) == n);
    lemma_parts_prefix(fields, values, 0, n);
    lemma_parts_shape(fields, values, n);
    lemma_decode_from_built(fields, values, sel, 0);
    let row = spec_build_row(fields, values)->Ok_0;
    let (h, d) = build_parts(fields, values, n)->Ok_0;
    assert(row == seq![((n + 2) % 256) as u8, (n % 256) as u8] + h + d);
}

/// Reading one column of a built row as its declared type gives the value
/// written to it: `i8` and `i32` fields give their numbers, string fields
/// their text.
pub proof fn law_column_roundtrip(fields: Seq<FieldView>, values: Seq<ValueView>, col: u8)
    requires
        fields.len() <= 253,
        values.len() >= fields.len(),
        col < fields.len(),
        spec_build_row(fields, values) is Ok,
    ensures
        spec_get_value(
            spec_build_row(fields, values)->Ok_0,
            col as int,
            fields[col as int].data_type,
        ) == Outcome::Done(stored_value(fields[col as int], values[col as int])),
{
    let i = col as int;
    lemma_column_layout(fields, values, i);
    let f = fields[i];
    match values[i] {
        ValueView::Text(raw) => match f.data_type {
            FieldTypesAllowed::I8 => {
                let x = spec_parse_in_range(raw, -128, 127)->Some_0;
                lemma_i8_byte_roundtrip(x as i8);
            },
            FieldTypesAllowed::I32 => {
                let x = spec_parse_in_range(raw, -0x8000_0000, 0x7fff_ffff)->Some_0;
                lemma_i32_le_roundtrip(x as i32);
            },
            FieldTypesAllowed::String => {
                encode_utf8_valid_utf8(raw);
                encode_utf8_decode_utf8(raw);
            },
        },
        ValueView::Star => {},
    }
}

/// Two texts compare equal exactly when they are the same text.
proof fn lemma_text_sign_zero(a: Seq<char>, b: Seq<char>)
    ensures
        (text_sign(a, b) == 0) == (a == b),
    decreases a.len(),
{
    if a.len() > 0 && b.len() > 0 && a[0] == b[0] {
        lemma_text_sign_zero(a.drop_first(), b.drop_first());
        if a.drop_first() == b.drop_first() {
            assert(a =~= seq![a[0]] + a.drop_first());
            assert(b =~= seq![b[0]] + b.drop_first());
        }
    } else if a.len() == 0 && b.len() == 0 {
        assert(a =~= b);
    }
}

/// Swapping two texts flips their order.
proof fn lemma_text_sign_flip(a: Seq<char>, b: Seq<char>)
    ensures
        text_sign(a, b) == -text_sign(b, a),
    decreases a.len(),
{
    if a.len() > 0 && b.len() > 0 && a[0] == b[0] {
        lemma_text_sign_flip(a.drop_first(), b.drop_first());
    }
}

/// The comparison operators agree with each other on any two values: `!=`
/// is the negation of `=`, `>=` is `>` or `=`, `<=` is `<` or `=`, `a < b`
/// is `b > a`, and at most one of `<`, `=`, `>` holds, exactly one when the
/// values are of the same kind.
pub proof fn law_comparisons_agree(a: VarView, b: VarView)
    ensures
        spec_compare(a, b, Operand::NQ) == !spec_compare(a, b, Operand::EQ),
        spec_compare(a, b, Operand::GTE) == (spec_compare(a, b, Operand::GT) || spec_compare(
            a,
            b,
            Operand::EQ,
        )),
        spec_compare(a, b, Operand::LTE) == (spec_compare(a, b, Operand::LT) || spec_compare(
            a,
            b,
            Operand::EQ,
        )),
        spec_compare(a, b, Operand::LT) == spec_compare(b, a, Operand::GT),
        spec_compare(a, b, Operand::LTE) == spec_compare(b, a, Operand::GTE),
        !(spec_compare(a, b, Operand::LT) && spec_compare(a, b, Operand::GT)),
        !(spec_compare(a, b, Operand::LT) && spec_compare(a, b, Operand::EQ)),
        !(spec_compare(a, b, Operand::GT) && spec_compare(a, b, Operand::EQ)),
        var_order(a, b) is Some ==> (spec_compare(a, b, Operand::LT) || spec_compare(a, b, Operand::EQ)
            || spec_compare(a, b, Operand::GT)),
{
    match (a, b) {
        (VarView::Text(x), VarView::Text(y)) => {
            lemma_text_sign_zero(x, y);
            lemma_text_sign_flip(x, y);
        },
        _ => {},
    }
}

/// Every operator reads back from the text it is shown as.
pub proof fn law_operand_text(o: Operand)
    ensures
        Operand::spec_from_str(o.spec_text()) == Some(o),
{
    reveal_strlit("=");
    reveal_strlit("==");
    reveal_strlit(">");
    reveal_strlit(">=");
    reveal_strlit("<");
    reveal_strlit("<=");
    reveal_strlit("!=");
    reveal_strlit("<>");
    assert("="@.len() == 1 && ">"@.len() == 1 && "<"@.len() == 1);
    assert("=="@.len() == 2 && ">="@.len() == 2 && "<="@.len() == 2 && "!="@.len() == 2);
    assert("="@[0] != ">"@[0]);
    assert("<"@[0] != ">"@[0]);
    assert("<"@[0] != "="@[0]);
    assert(">="@[0] != "<="@[0]);
    assert("<="@[0] != "=="@[0]);
    assert("!="@[0] != ">="@[0]);
    assert("!="@[0] != "=="@[0]);
    assert("!="@[0] != "<="@[0]);
}

/// Every field type reads back from the text it is shown as.
pub proof fn law_field_type_text(t: FieldTypesAllowed)
    ensures
        FieldTypesAllowed::spec_from_str(t.spec_text()) == Some(t),
{
    reveal_strlit("i8");
    reveal_strlit("i32");
    reveal_strlit("string");
    assert("i8"@[1] != "i32"@[1]);
    assert("i8"@[0] != "string"@[0]);
    assert("i32"@[0] != "string"@[0]);
}

/// A query without conditions matches every row.
pub proof fn law_no_conditions_match_all(row: Seq<u8>, fields: Seq<FieldView>)
    ensures
        spec_conditions_hold(Seq::<CondView>::empty(), row, fields) == Outcome::Done(true),
{
}

/// A parse from any point on ends in one of its declared ways, never stuck.
proof fn lemma_run_not_stuck(
    toks: Seq<Seq<char>>,
    q: QueryView,
    msgs: Seq<Seq<char>>,
    cat: Seq<(Seq<char>, Result<crate::structs::TableView, Seq<char>>)>,
)
    requires
        q.length == toks.len(),
    ensures
        !(spec_run(toks, q, msgs, cat).end is Stuck),
    decreases toks.len() - q.index,
{
    if !(q.index >= q.length || q.index >= toks.len()) {
        lemma_step_progress(toks, q, cat);
        match spec_step(toks, q, cat) {
            StepView::Next(q2, m) => {
                lemma_run_not_stuck(toks, q2, msgs + m, cat);
            },
            _ => {},
        }
    }
}

/// Every parse of a statement ends: it proceeds (or stops the session), asks
/// for a table's schema, or runs past the last token; it never stalls on a
/// token without moving on.
pub proof fn law_parse_ends(
    input: Seq<char>,
    q: QueryView,
    cat: Seq<(Seq<char>, Result<crate::structs::TableView, Seq<char>>)>,
)
    requires
        split_ws(input).len() <= usize::MAX,
    ensures
        !(spec_parse_sql(input, q, cat).end is Stuck),
{
    let toks = split_ws(input);
    lemma_run_not_stuck(
        toks,
        QueryView { length: toks.len() as usize, index: 0, ..q },
        Seq::empty(),
        cat,
    );
}

/// The operator that holds of `b, a` exactly when `o` holds of `a, b`.
pub open spec fn mirror(o: Operand) -> Operand {
    match o {
        Operand::GT => Operand::LT,
        Operand::LT => Operand::GT,
        Operand::GTE => Operand::LTE,
        Operand::LTE => Operand::GTE,
        Operand::EQ => Operand::EQ,
        Operand::NQ => Operand::NQ,
    }
}

/// A condition `column op literal` and its mirror `literal mirror(op)
/// column` evaluate alike on every row: both read the column they name, and
/// compare it with the literal the same way.
pub proof fn law_mirrored_condition(
    column: Seq<char>,
    literal: Seq<char>,
    o: Operand,
    connector: Option<LogicalConnector>,
    row: Seq<u8>,
    fields: Seq<FieldView>,
)
    ensures
        spec_eval_condition(
            CondView {
                object_one: column,
                object_two: literal,
                object_one_is_field: true,
                object_two_is_field: false,
                operand: o,
                connector,
            },
            row,
            fields,
        ) == spec_eval_condition(
            CondView {
                object_one: literal,
                object_two: column,
                object_one_is_field: false,
                object_two_is_field: true,
                operand: mirror(o),
                connector,
            },
            row,
            fields,
        ),
{
    match crate::evaluate::named_value(row, fields, column) {
        Outcome::Done(v) => match crate::evaluate::literal_like(v, literal) {
            Ok(l) => {
                law_comparisons_agree(v, l);
                law_comparisons_agree(l, v);
            },
            Err(_) => {},
        },
        _ => {},
    }
}

/// `s` with its ASCII capital letters made small.
pub open spec fn ascii_lower(s: Seq<char>) -> Seq<char> {
    Seq::new(
        s.len(),
        |i: int|
            if 'A' <= s[i] && s[i] <= 'Z' {
                ((s[i] as u32) + 32) as char
            } else {
                s[i]
            },
    )
}

/// Every command reads back from the text it is shown as, made lower case.
pub proof fn law_command_text(c: Command)
    ensures
        Command::spec_from_str(ascii_lower(c.spec_text())) == Some(c),
{
    reveal_strlit("SELECT");
    reveal_strlit("INSERT");
    reveal_strlit("CREATE");
    reveal_strlit("DELETE");
    reveal_strlit("EXIT");
    reveal_strlit("select");
    reveal_strlit("insert");
    reveal_strlit("create");
    reveal_strlit("delete");
    reveal_strlit("exit");
    assert(ascii_lower("SELECT"@) =~= "select"@);
    assert(ascii_lower("INSERT"@) =~= "insert"@);
    assert(ascii_lower("CREATE"@) =~= "create"@);
    assert(ascii_lower("DELETE"@) =~= "delete"@);
    assert(ascii_lower("EXIT"@) =~= "exit"@);
    assert("select"@[0] != "insert"@[0]);
    assert("select"@[0] != "create"@[0]);
    assert("select"@[0] != "delete"@[0]);
    assert("insert"@[0] != "create"@[0]);
    assert("insert"@[0] != "delete"@[0]);
    assert("create"@[0] != "delete"@[0]);
    assert("exit"@.len() != "select"@.len());
}

/// Every clause keyword reads back from the text it is shown as, made lower
/// case.
pub proof fn law_filter_text(f: Filter)
    ensures
        Filter::spec_from_str(ascii_lower(f.spec_text())) == Some(f),
{
    reveal_strlit("FROM");
    reveal_strlit("WHERE");
    reveal_strlit("AND");
    reveal_strlit("OR");
    reveal_strlit("from");
    reveal_strlit("where");
    reveal_strlit("and");
    reveal_strlit("or");
    assert(ascii_lower("FROM"@) =~= "from"@);
    assert(ascii_lower("WHERE"@) =~= "where"@);
    assert(ascii_lower("AND"@) =~= "and"@);
    assert(ascii_lower("OR"@) =~= "or"@);
    assert("from"@.len() != "where"@.len());
    assert("from"@.len() != "and"@.len());
    assert("from"@.len() != "or"@.len());
    assert("where"@.len() != "and"@.len());
    assert("where"@.len() != "or"@.len());
    assert("and"@.len() != "or"@.len());
}

/// Every statement handler (all but `exit`, which stops the parse) and every
/// clause handler that returns, with a value or an error, leaves the
/// query's position past where it was.
pub proof fn law_handlers_advance(
    c: Command,
    f: Filter,
    toks: Seq<Seq<char>>,
    q: QueryView,
    schema: Result<TableView, Seq<char>>,
)
    requires
        q.index < toks.len(),
        toks.len() <= usize::MAX,
    ensures
        c != Command::EXIT && !(spec_match_command(c, toks, q, schema).0 is Panic)
            ==> spec_match_command(c, toks, q, schema).1.index > q.index,
        !(spec_match_filter(f, toks, q, schema).0 is Panic) ==> spec_match_filter(
            f,
            toks,
            q,
            schema,
        ).1.index > q.index,
{
    lemma_select_loop(toks, q.length as int, q.index + 1, q.fields);
    lemma_create_loop(toks, q.length as int, q.index + 2, q.fields, Seq::empty(), Seq::empty());
    if q.index + 2 <= toks.len() {
        match schema {
            Ok(sv) => {
                lemma_insert_loop(toks, q.index + 2, q.values, sv.fields.len() as int);
            },
            Err(_) => {},
        }
    }
}

/// The column declarations read from position `j` add as many types and
/// index flags as names.
proof fn lemma_create_loop_lists(
    toks: Seq<Seq<char>>,
    length: int,
    j: int,
    f: Seq<ValueView>,
    t: Seq<FieldTypesAllowed>,
    g: Seq<bool>,
)
    ensures
        ({
            let (_, f2, t2, g2, _) = create_loop(toks, length, j, f, t, g);
            &&& f2.len() - f.len() == t2.len() - t.len()
            &&& t2.len() - t.len() == g2.len() - g.len()
        }),
    decreases toks.len() - j,
{
    if 0 <= j < toks.len() {
        match crate::parsing::spec_classify(toks[j]) {
            crate::enums::TokenView::Value(ValueView::Text(s)) => match spec_parse_field(s) {
                Ok((name, ty, flag)) => match spec_index_flag(flag) {
                    Some(b) => {
                        if j + 1 != length {
                            lemma_create_loop_lists(
                                toks,
                                length,
                                j + 1,
                                f.push(name),
                                t.push(ty),
                                g.push(b),
                            );
                        }
                    },
                    None => {},
                },
                Err(_) => {},
            },
            _ => {},
        }
    }
}

/// A `create` that returns, with a value or an error, leaves one type and
/// one index flag for each field name it added, and no more.
pub proof fn law_create_lists_agree(toks: Seq<Seq<char>>, q: QueryView)
    ensures
        ({
            let (o, q2, _) = spec_handle_create(toks, q);
            !(o is Panic) ==> (q2.field_type matches Some(t) && q2.is_field_index matches Some(g)
                && t.len() == g.len() && q2.fields.len() == q.fields.len() + t.len())
        }),
{
    lemma_create_loop_lists(toks, q.length as int, q.index + 2, q.fields, Seq::empty(), Seq::empty());
}

/// `i8` values compare by their numeric order.
pub proof fn law_i8_comparison(x: i8, y: i8)
    ensures
        spec_compare(VarView::I8(x), VarView::I8(y), Operand::GT) == (x > y),
        spec_compare(VarView::I8(x), VarView::I8(y), Operand::LT) == (x < y),
        spec_compare(VarView::I8(x), VarView::I8(y), Operand::GTE) == (x >= y),
        spec_compare(VarView::I8(x), VarView::I8(y), Operand::LTE) == (x <= y),
        spec_compare(VarView::I8(x), VarView::I8(y), Operand::EQ) == (x == y),
        spec_compare(VarView::I8(x), VarView::I8(y), Operand::NQ) == (x != y),
{
}

/// `i32` values compare by their numeric order.
pub proof fn law_i32_comparison(x: i32, y: i32)
    ensures
        spec_compare(VarView::I32(x), VarView::I32(y), Operand::GT) == (x > y),
        spec_compare(VarView::I32(x), VarView::I32(y), Operand::LT) == (x < y),
        spec_compare(VarView::I32(x), VarView::I32(y), Operand::GTE) == (x >= y),
        spec_compare(VarView::I32(x), VarView::I32(y), Operand::LTE) == (x <= y),
        spec_compare(VarView::I32(x), VarView::I32(y), Operand::EQ) == (x == y),
        spec_compare(VarView::I32(x), VarView::I32(y), Operand::NQ) == (x != y),
{
}

/// Texts compare equal exactly when they are the same text.
pub proof fn law_text_equality(x: Seq<char>, y: Seq<char>)
    ensures
        spec_compare(VarView::Text(x), VarView::Text(y), Operand::EQ) == (x == y),
        spec_compare(VarView::Text(x), VarView::Text(y), Operand::NQ) == (x != y),
        spec_compare(VarView::Text(x), VarView::Text(y), Operand::GTE) == (spec_compare(
            VarView::Text(x),
            VarView::Text(y),
            Operand::GT,
        ) || x == y),
        spec_compare(VarView::Text(x), VarView::Text(y), Operand::LTE) == (spec_compare(
            VarView::Text(x),
            VarView::Text(y),
            Operand::LT,
        ) || x == y),
{
    lemma_text_sign_zero(x, y);
}

/// Values of different kinds are never equal and never ordered.
pub proof fn law_mixed_kinds(a: VarView, b: VarView)
    requires
        !((a is I8 && b is I8) || (a is I32 && b is I32) || (a is Text && b is Text)),
    ensures
        !spec_compare(a, b, Operand::EQ),
        spec_compare(a, b, Operand::NQ),
        !spec_compare(a, b, Operand::GT),
        !spec_compare(a, b, Operand::LT),
        !spec_compare(a, b, Operand::GTE),
        !spec_compare(a, b, Operand::LTE),
{
}

/// A text that is a proper prefix of another comes before it, and of two
/// texts that first differ at some place, the one with the smaller
/// character there comes first.
pub proof fn law_text_order(x: Seq<char>, y: Seq<char>, k: int)
    requires
        0 <= k <= x.len(),
        k <= y.len(),
        x.take(k) == y.take(k),
    ensures
        k == x.len() && k < y.len() ==> spec_compare(VarView::Text(x), VarView::Text(y), Operand::LT),
        k < x.len() && k < y.len() && x[k] < y[k] ==> spec_compare(
            VarView::Text(x),
            VarView::Text(y),
            Operand::LT,
        ),
    decreases k,
{
    if k > 0 {
        assert(x[0] == x.take(k)[0] && y[0] == y.take(k)[0]);
        assert(x.drop_first().take(k - 1) =~= x.take(k).drop_first());
        assert(y.drop_first().take(k - 1) =~= y.take(k).drop_first());
        law_text_order(x.drop_first(), y.drop_first(), k - 1);
    }
}

/// The ids `ids_where` picks among the first `k` fields: in increasing
/// order, each below `k`, and field `i` exactly when `pick` chooses its name.
proof fn lemma_ids_where(fields: Seq<FieldView>, pick: spec_fn(Seq<char>) -> bool, k: int)
    requires
        0 <= k <= fields.len(),
        fields.len() <= 256,
    ensures
        ({
            let r = ids_where(fields, pick, k);
            &&& forall|a: int| 0 <= a < r.len() ==> (#[trigger] r[a] as int) < k
            &&& forall|a: int, b: int| 0 <= a < b < r.len() ==> #[trigger] r[a] < #[trigger] r[b]
            &&& forall|i: int| 0 <= i < k ==> (r.contains(i as u8) <==> #[trigger] pick(fields[i].name))
        }),
    decreases k,
{
    if k > 0 {
        lemma_ids_where(fields, pick, k - 1);
        let rest = ids_where(fields, pick, k - 1);
        let r = ids_where(fields, pick, k);
        assert(((k - 1) % 256) as u8 == (k - 1) as u8);
        assert forall|i: int| 0 <= i < k implies (r.contains(i as u8) <==> #[trigger] pick(
            fields[i].name,
        )) by {
            if pick(fields[k - 1].name) {
                assert(r == rest.push((k - 1) as u8));
                if i == k - 1 {
                    assert(r[rest.len() as int] == i as u8);
                    if rest.contains(i as u8) {
                        let a = choose|a: int| 0 <= a < rest.len() && rest[a] == i as u8;
                        assert((rest[a] as int) < k - 1);
                    }
                } else {
                    if r.contains(i as u8) {
                        let a = choose|a: int| 0 <= a < r.len() && r[a] == i as u8;
                        if a < rest.len() {
                            assert(rest[a] == i as u8);
                        }
                    }
                    if rest.contains(i as u8) {
                        let a = choose|a: int| 0 <= a < rest.len() && rest[a] == i as u8;
                        assert(r[a] == i as u8);
                    }
                }
            } else {
                if i == k - 1 && rest.contains(i as u8) {
                    let a = choose|a: int| 0 <= a < rest.len() && rest[a] == i as u8;
                    assert((rest[a] as int) < k - 1);
                }
            }
        }
    }
}

/// The columns a `select` shows: with a star among the query's fields, every
/// column in schema order; otherwise, in schema order, exactly the columns
/// whose name the query lists.
pub proof fn law_selected_columns(q: Seq<ValueView>, fields: Seq<FieldView>)
    requires
        fields.len() <= 256,
    ensures
        (exists|k: int| 0 <= k < q.len() && q[k] is Star) ==> spec_selected_ids(q, fields)
            == Seq::new(fields.len(), |i: int| i as u8),
        !(exists|k: int| 0 <= k < q.len() && q[k] is Star) ==> {
            let r = spec_selected_ids(q, fields);
            &&& forall|a: int| 0 <= a < r.len() ==> (#[trigger] r[a] as int) < fields.len()
            &&& forall|a: int, b: int| 0 <= a < b < r.len() ==> #[trigger] r[a] < #[trigger] r[b]
            &&& forall|i: int|
                0 <= i < fields.len() ==> (#[trigger] r.contains(i as u8) <==> exists|k: int|
                    0 <= k < q.len() && q[k] == ValueView::Text(fields[i].name))
        },
{
    if exists|k: int| 0 <= k < q.len() && q[k] is Star {
        assert(spec_selected_ids(q, fields) =~= Seq::new(fields.len(), |i: int| i as u8));
    } else {
        let pick = |name: Seq<char>| crate::evaluate::names_field(q, name);
        lemma_ids_where(fields, pick, fields.len() as int);
        let r = spec_selected_ids(q, fields);
        assert(r == ids_where(fields, pick, fields.len() as int));
        assert forall|i: int| 0 <= i < fields.len() implies (#[trigger] r.contains(i as u8)
            <==> exists|k: int| 0 <= k < q.len() && q[k] == ValueView::Text(fields[i].name)) by {
            assert(pick(fields[i].name) == crate::evaluate::names_field(q, fields[i].name));
        }
    }
}

/// The columns the conditions of a query read: with a star among the
/// query's fields every column; otherwise, in schema order, exactly the
/// columns that some condition names on a side marked as a column.
pub proof fn law_condition_columns(q: Seq<ValueView>, cs: Seq<CondView>, fields: Seq<FieldView>)
    requires
        fields.len() <= 256,
    ensures
        (exists|k: int| 0 <= k < q.len() && q[k] is Star) ==> spec_conditional_ids(q, cs, fields)
            == Seq::new(fields.len(), |i: int| i as u8),
        !(exists|k: int| 0 <= k < q.len() && q[k] is Star) ==> {
            let r = spec_conditional_ids(q, cs, fields);
            &&& forall|a: int| 0 <= a < r.len() ==> (#[trigger] r[a] as int) < fields.len()
            &&& forall|a: int, b: int| 0 <= a < b < r.len() ==> #[trigger] r[a] < #[trigger] r[b]
            &&& forall|i: int|
                0 <= i < fields.len() ==> (#[trigger] r.contains(i as u8) <==> exists|k: int|
                    0 <= k < cs.len() && ((cs[k].object_one_is_field && cs[k].object_one
                        == fields[i].name) || (cs[k].object_two_is_field && cs[k].object_two
                        == fields[i].name)))
        },
{
    if exists|k: int| 0 <= k < q.len() && q[k] is Star {
        assert(spec_conditional_ids(q, cs, fields) =~= Seq::new(fields.len(), |i: int| i as u8));
    } else {
        let pick = |name: Seq<char>| crate::evaluate::condition_names(cs, name);
        lemma_ids_where(fields, pick, fields.len() as int);
        let r = spec_conditional_ids(q, cs, fields);
        assert(r == ids_where(fields, pick, fields.len() as int));
        assert forall|i: int| 0 <= i < fields.len() implies (#[trigger] r.contains(i as u8)
            <==> exists|k: int|
            0 <= k < cs.len() && ((cs[k].object_one_is_field && cs[k].object_one == fields[i].name)
                || (cs[k].object_two_is_field && cs[k].object_two == fields[i].name))) by {
            assert(pick(fields[i].name) == crate::evaluate::condition_names(cs, fields[i].name));
        }
    }
}

/// The schema a `create` query describes: it is built exactly when the query
/// has its type and flag lists and as many types as names, and then column
/// `i` has the `i`-th name (without surrounding quotes), the `i`-th declared
/// type and the `i`-th index flag, for as many columns as the lists have.
pub proof fn law_new_table_columns(q: QueryView)
    ensures
        (spec_new_table(q) is Ok) == (q.field_type is Some && q.is_field_index is Some
            && q.fields.len() == q.field_type->Some_0.len()),
        spec_new_table(q) matches Ok(t) ==> {
            let types = q.field_type->Some_0;
            let flags = q.is_field_index->Some_0;
            &&& t.table_name == q.table
            &&& t.fields.len() == if flags.len() < types.len() {
                flags.len()
            } else {
                types.len()
            }
            &&& forall|i: int|
                0 <= i < t.fields.len() ==> {
                    &&& (#[trigger] t.fields[i]).data_type == types[i]
                    &&& t.fields[i].is_indexed == flags[i]
                    &&& t.fields[i].name == trim_char(ValueTypes::spec_text(q.fields[i]), '"')
                }
        },
{
}

/// What a `where` / `and` / `or` clause adds to a query when it is read: one
/// condition after those already there, comparing the word after the keyword
/// with the word after the operator, each side marked as a column exactly
/// when the table's schema has a column of that name, whatever the other
/// side is.
pub proof fn law_where_condition(toks: Seq<Seq<char>>, q: QueryView, cmd: Seq<char>, sv: TableView)
    requires
        toks.len() <= usize::MAX,
    ensures
        ({
            let (o, q2) = spec_handle_where(toks, q, cmd, Ok(sv));
            o == Outcome::<bool>::Done(true) ==> {
                let c = q2.conditions.last();
                &&& q2.conditions.len() == q.conditions.len() + 1
                &&& q2.conditions.drop_last() == q.conditions
                &&& q2.index == q.index + 4
                &&& c.object_one == toks[q.index + 1]
                &&& c.object_two == toks[q.index + 3]
                &&& spec_classify(toks[q.index + 2]) == TokenView::Op(c.operand)
                &&& c.object_one_is_field == exists|k: int|
                    0 <= k < sv.fields.len() && sv.fields[k].name == c.object_one
                &&& c.object_two_is_field == exists|k: int|
                    0 <= k < sv.fields.len() && sv.fields[k].name == c.object_two
            }
        }),
{
    let (o, q2) = spec_handle_where(toks, q, cmd, Ok(sv));
    if o == Outcome::<bool>::Done(true) {
        let c = q2.conditions.last();
        let names = crate::parsing::field_names(sv.fields);
        assert(q2.conditions.drop_last() =~= q.conditions);
        if names.contains(c.object_one) {
            let k = choose|k: int| 0 <= k < names.len() && names[k] == c.object_one;
            assert(sv.fields[k].name == c.object_one);
        }
        if exists|k: int| 0 <= k < sv.fields.len() && sv.fields[k].name == c.object_one {
            let k = choose|k: int| 0 <= k < sv.fields.len() && sv.fields[k].name == c.object_one;
            assert(names[k] == c.object_one);
        }
        if names.contains(c.object_two) {
            let k = choose|k: int| 0 <= k < names.len() && names[k] == c.object_two;
            assert(sv.fields[k].name == c.object_two);
        }
        if exists|k: int| 0 <= k < sv.fields.len() && sv.fields[k].name == c.object_two {
            let k = choose|k: int| 0 <= k < sv.fields.len() && sv.fields[k].name == c.object_two;
            assert(names[k] == c.object_two);
        }
    }
}

/// A value the schema can store in a column: a word (not the star) that reads
/// as a number in range for a numeric column, or whose UTF-8 form has at most
/// 255 bytes for a string column.
pub open spec fn storable(f: FieldView, v: ValueView) -> bool {
    match v {
        ValueView::Star => false,
        ValueView::Text(raw) => match f.data_type {
            FieldTypesAllowed::I8 => spec_parse_in_range(raw, -128, 127) is Some,
            FieldTypesAllowed::I32 => spec_parse_in_range(raw, -0x8000_0000, 0x7fff_ffff) is Some,
            FieldTypesAllowed::String => encode_utf8(raw).len() <= 255,
        },
    }
}

proof fn lemma_parts_ok(fields: Seq<FieldView>, values: Seq<ValueView>, k: int)
    requires
        0 <= k <= fields.len(),
        k <= values.len(),
    ensures
        (build_parts(fields, values, k) is Ok) == (forall|i: int| 0 <= i < k ==> #[trigger] storable(fields[i], values[i])),
    decreases k,
{
    if k > 0 {
        lemma_parts_ok(fields, values, k - 1);
        if build_parts(fields, values, k - 1) is Err {
            lemma_build_parts_err(fields, values, k - 1, k);
        }
        assert((encode_field(fields[k - 1], values[k - 1]) is Ok) == storable(fields[k - 1], values[k - 1]));
        if !storable(fields[k - 1], values[k - 1]) {
            assert(!(forall|i: int| 0 <= i < k ==> #[trigger] storable(fields[i], values[i])));
        }
    }
}

/// A row is encoded exactly when every column's value can be stored in it:
/// no value is refused that the column's type can hold, strings of up to 255
/// UTF-8 bytes included, whatever characters they hold.
pub proof fn law_row_accepted(fields: Seq<FieldView>, values: Seq<ValueView>)
    requires
        values.len() >= fields.len(),
    ensures
        (spec_build_row(fields, values) is Ok) == (forall|i: int|
            0 <= i < fields.len() ==> #[trigger] storable(fields[i], values[i])),
{
    assert(crate::row::min_len(fields.len() as int, values.len() as int) == fields.len());
    lemma_parts_ok(fields, values, fields.len() as int);
}

} // verus!
