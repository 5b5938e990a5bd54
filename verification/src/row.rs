//! The binary row format: a header byte with the header's size, a byte with
//! the number of columns, one length byte per column, then the column data in
//! schema order.
use vstd::prelude::*;
use vstd::utf8::{decode_utf8, encode_utf8, valid_utf8};
use crate::bytes::{byte_of_i8, byte_to_i8, i32_from_le, i32_le, i32_of_le_bytes, i32_to_le_bytes, i8_of_byte, i8_to_byte, push_all};
use crate::enums::{FieldTypesAllowed, ValueTypes, ValueView};
use crate::message::{concat3, text_from_utf8, utf8_error_text};
use crate::outcome::{Halt, Outcome};
use crate::structs::{FieldView, TableMetadataObject, values_view};
use crate::text::{int_text, int_to_string, parse_i32, parse_i8, spec_parse_in_range};

verus! {

pub open spec fn msg_value_none(name: Seq<char>) -> Seq<char> {
    "value for field '"@ + name + "' is None"@
}

pub open spec fn msg_invalid_i8(name: Seq<char>) -> Seq<char> {
    "invalid I8 for field '"@ + name + "'"@
}

pub open spec fn msg_invalid_i32(name: Seq<char>) -> Seq<char> {
    "invalid I32 for field '"@ + name + "'"@
}

pub open spec fn msg_too_long(name: Seq<char>) -> Seq<char> {
    "string byte length for field '"@ + name + "' exceeds maximum of 255"@
}

/// The length byte and data bytes that store the text `raw` in a column of
/// type `ty`, or the error for it.
pub open spec fn encode_field(f: FieldView, v: ValueView) -> Result<(u8, Seq<u8>), Seq<char>> {
    match v {
        ValueView::Star => Err(msg_value_none(f.name)),
        ValueView::Text(raw) => match f.data_type {
            FieldTypesAllowed::I8 => match spec_parse_in_range(raw, -128, 127) {
                Some(x) => Ok((1u8, seq![i8_to_byte(x as i8)])),
                None => Err(msg_invalid_i8(f.name)),
            },
            FieldTypesAllowed::I32 => match spec_parse_in_range(raw, -0x8000_0000, 0x7fff_ffff) {
                Some(x) => Ok((4u8, i32_le(x as i32))),
                None => Err(msg_invalid_i32(f.name)),
            },
            FieldTypesAllowed::String => {
                let b = encode_utf8(raw);
                if b.len() > 255 {
                    Err(msg_too_long(f.name))
                } else {
                    Ok((b.len() as u8, b))
                }
            },
        },
    }
}

/// Column lengths and column data of the first `k` (field, value) pairs.
pub open spec fn build_parts(fields: Seq<FieldView>, values: Seq<ValueView>, k: int) -> Result<
    (Seq<u8>, Seq<u8>),
    Seq<char>,
>
    decreases k,
{
    if k <= 0 {
        Ok((Seq::empty(), Seq::empty()))
    } else {
        match build_parts(fields, values, k - 1) {
            Err(e) => Err(e),
            Ok((h, d)) => match encode_field(fields[k - 1], values[k - 1]) {
                Err(e) => Err(e),
                Ok((l, b)) => Ok((h.push(l), d + b)),
            },
        }
    }
}

/// Once a pair is rejected, the first rejection stays the result.
pub proof fn lemma_build_parts_err(
    fields: Seq<FieldView>,
    values: Seq<ValueView>,
    k: int,
    j: int,
)
    requires
        0 <= k <= j,
        build_parts(fields, values, k) is Err,
    ensures
        build_parts(fields, values, j) == build_parts(fields, values, k),
    decreases j - k,
{
    if j > k {
        lemma_build_parts_err(fields, values, k, j - 1);
    }
}

pub open spec fn min_len(a: int, b: int) -> int {
    if a < b {
        a
    } else {
        b
    }
}

/// The stored form of a row whose column values are `values`, pairing each
/// field of the schema with the value in the same place.
pub open spec fn spec_build_row(fields: Seq<FieldView>, values: Seq<ValueView>) -> Result<
    Seq<u8>,
    Seq<char>,
> {
    let n = fields.len();
    match build_parts(fields, values, min_len(n as int, values.len() as int)) {
        Err(e) => Err(e),
        Ok((h, d)) => Ok(seq![((n + 2) % 256) as u8, (n % 256) as u8] + h + d),
    }
}

/// Encodes a row of `values` for the table `schema`.
pub fn build_row_byte(schema: &TableMetadataObject, values: &[ValueTypes]) -> (r: Result<
    Vec<u8>,
    String,
>)
    ensures
        match spec_build_row(schema@.fields, values_view(values@)) {
            Ok(b) => r matches Ok(x) && x@ == b,
            Err(e) => r matches Err(x) && x@ == e,
        },
{
    let num_columns = schema.fields.len();
    let m = if num_columns < values.len() {
        num_columns
    } else {
        values.len()
    };
    let ghost fv = schema@.fields;
    let ghost vv = values_view(values@);
    let mut row_header: Vec<u8> = Vec::new();
    let mut row_data: Vec<u8> = Vec::new();
    let mut i: usize = 0;
    while i < m
        invariant
            m == min_len(num_columns as int, values@.len() as int),
            num_columns == schema.fields@.len(),
            fv == schema@.fields,
            vv == values_view(values@),
            i <= m,
            build_parts(fv, vv, i as int) == Ok::<(Seq<u8>, Seq<u8>), Seq<char>>(
                (row_header@, row_data@),
            ),
        decreases m - i,
    {
        let field = &schema.fields[i];
        let value = &values[i];
        assert(fv[i as int] == field@);
        assert(vv[i as int] == value@);
        let ghost old_h = row_header@;
        let ghost old_d = row_data@;
        match value.as_str() {
            None => {
                proof {
                    lemma_build_parts_err(fv, vv, i + 1, m as int);
                }
                return Err(concat3("value for field '", field.name.as_str(), "' is None"));
            },
            Some(raw) => {
                match field.data_type {
                    FieldTypesAllowed::I8 => {
                        match parse_i8(raw) {
                            Some(v) => {
                                let b = byte_of_i8(v);
                                row_data.push(b);
                                row_header.push(1);
                                assert(row_data@ =~= old_d + seq![b]);
                            },
                            None => {
                                proof {
                                    lemma_build_parts_err(fv, vv, i + 1, m as int);
                                }
                                return Err(
                                    concat3("invalid I8 for field '", field.name.as_str(), "'"),
                                );
                            },
                        }
                    },
                    FieldTypesAllowed::I32 => {
                        match parse_i32(raw) {
                            Some(v) => {
                                let b = i32_to_le_bytes(v);
                                push_all(&mut row_data, &b);
                                row_header.push(4);
                            },
                            None => {
                                proof {
                                    lemma_build_parts_err(fv, vv, i + 1, m as int);
                                }
                                return Err(
                                    concat3("invalid I32 for field '", field.name.as_str(), "'"),
                                );
                            },
                        }
                    },
                    FieldTypesAllowed::String => {
                        let bytes = raw.as_bytes();
                        let byte_len = bytes.len();
                        if byte_len > 255 {
                            proof {
                                lemma_build_parts_err(fv, vv, i + 1, m as int);
                            }
                            return Err(
                                concat3(
                                    "string byte length for field '",
                                    field.name.as_str(),
                                    "' exceeds maximum of 255",
                                ),
                            );
                        }
                        push_all(&mut row_data, bytes);
                        row_header.push(byte_len as u8);
                    },
                }
            },
        }
        assert(build_parts(fv, vv, i + 1) == Ok::<(Seq<u8>, Seq<u8>), Seq<char>>(
            (row_header@, row_data@),
        ));
        i += 1;
    }
    let mut result: Vec<u8> = Vec::new();
    result.push(((num_columns % 256 + 2) % 256) as u8);
    result.push((num_columns % 256) as u8);
    push_all(&mut result, row_header.as_slice());
    push_all(&mut result, row_data.as_slice());
    assert(result@ =~= seq![((num_columns + 2) % 256) as u8, (num_columns % 256) as u8]
        + row_header@ + row_data@);
    Ok(result)
}

// ---------------------------------------------------------------- decoding
pub open spec fn msg_corrupt_i32() -> Seq<char> {
    "corrupt I32"@
}

pub open spec fn msg_bad_utf8_field(name: Seq<char>) -> Seq<char> {
    "invalid UTF-8 in field '"@ + name + "'"@
}

/// The text shown for the bytes `fb` of a column of type `ty`.
pub open spec fn field_text(ty: FieldTypesAllowed, name: Seq<char>, fb: Seq<u8>) -> Outcome<
    Seq<char>,
> {
    match ty {
        FieldTypesAllowed::I8 => if fb.len() == 0 {
            Outcome::Panic
        } else {
            Outcome::Done(int_text(byte_to_i8(fb[0]) as int))
        },
        FieldTypesAllowed::I32 => if fb.len() != 4 {
            Outcome::Error(msg_corrupt_i32())
        } else {
            Outcome::Done(int_text(i32_from_le(fb) as int))
        },
        FieldTypesAllowed::String => if valid_utf8(fb) {
            Outcome::Done(decode_utf8(fb))
        } else {
            Outcome::Error(msg_bad_utf8_field(name))
        },
    }
}

/// Reads fields `i..` of the schema, the data of field `i` starting at `off`.
pub open spec fn decode_from(
    row: Seq<u8>,
    fields: Seq<FieldView>,
    sel: Seq<u8>,
    i: nat,
    off: int,
) -> Outcome<Seq<Seq<char>>>
    decreases fields.len() - i,
{
    if i >= fields.len() {
        Outcome::Done(Seq::empty())
    } else if i >= row[1] as int || 2 + i >= row.len() {
        Outcome::Panic
    } else {
        let len = row[2 + i as int] as int;
        if off + len > row.len() {
            Outcome::Panic
        } else {
            let fb = row.subrange(off, off + len);
            let rest = decode_from(row, fields, sel, i + 1, off + len);
            if sel.contains((i % 256) as u8) {
                match field_text(fields[i as int].data_type, fields[i as int].name, fb) {
                    Outcome::Panic => Outcome::Panic,
                    Outcome::Error(e) => Outcome::Error(e),
                    Outcome::Done(t) => match rest {
                        Outcome::Done(ts) => Outcome::Done(seq![t] + ts),
                        Outcome::Panic => Outcome::Panic,
                        Outcome::Error(e) => Outcome::Error(e),
                    },
                }
            } else {
                rest
            }
        }
    }
}

/// The texts of the selected columns of a stored row, in schema order.
pub open spec fn spec_decode_row(row: Seq<u8>, fields: Seq<FieldView>, sel: Seq<u8>) -> Outcome<
    Seq<Seq<char>>,
> {
    if row.len() < 2 || 2 + row[1] as int > row.len() {
        Outcome::Panic
    } else {
        decode_from(row, fields, sel, 0, row[0] as int)
    }
}

pub open spec fn strings_view(v: Seq<String>) -> Seq<Seq<char>> {
    v.map_values(|s: String| s@)
}

fn contains_byte(v: &Vec<u8>, b: u8) -> (r: bool)
    ensures
        r == v@.contains(b),
{
    let n = v.len();
    let mut i: usize = 0;
    while i < n
        invariant
            n == v@.len(),
            i <= n,
            forall|j: int| 0 <= j < i ==> v@[j] != b,
        decreases n - i,
    {
        if v[i] == b {
            return true;
        }
        i += 1;
    }
    false
}

/// `decode_row`, stopping with `Halt::Panic` where the bytes run out.
pub fn decode_row_checked(
    row_bytes: &[u8],
    schema: &TableMetadataObject,
    selected_column_ids: &Vec<u8>,
) -> (r: Result<Vec<String>, Halt>)
    ensures
        match spec_decode_row(row_bytes@, schema@.fields, selected_column_ids@) {
            Outcome::Panic => r matches Err(Halt::Panic),
            Outcome::Error(e) => r matches Err(Halt::Error(m)) && m@ == e,
            Outcome::Done(ts) => r matches Ok(v) && strings_view(v@) == ts,
        },
{
    let rl = row_bytes.len();
    if rl < 2 {
        return Err(Halt::Panic);
    }
    let header_size = row_bytes[0] as usize;
    let num_columns = row_bytes[1] as usize;
    if 2 + num_columns > rl {
        return Err(Halt::Panic);
    }
    let ghost row = row_bytes@;
    let ghost fv = schema@.fields;
    let ghost sel = selected_column_ids@;
    let n = schema.fields.len();
    let mut values: Vec<String> = Vec::new();
    let mut data_offset: usize = header_size;
    let mut i: usize = 0;
    while i < n
        invariant
            row == row_bytes@,
            fv == schema@.fields,
            sel == selected_column_ids@,
            n == fv.len(),
            rl == row.len(),
            rl >= 2,
            num_columns == row[1],
            2 + num_columns <= rl,
            i <= n,
            data_offset <= rl + 255,
            match spec_decode_row(row, fv, sel) {
                Outcome::Done(ts) => decode_from(row, fv, sel, i as nat, data_offset as int)
                    matches Outcome::Done(rest) && ts == strings_view(values@) + rest,
                other => decode_from(row, fv, sel, i as nat, data_offset as int) == other,
            },
        decreases n - i,
    {
        if i >= num_columns {
            return Err(Halt::Panic);
        }
        let len = row_bytes[2 + i] as usize;
        if data_offset > rl || len > rl - data_offset {
            return Err(Halt::Panic);
        }
        let field_bytes = &row_bytes[data_offset..data_offset + len];
        let field = &schema.fields[i];
        assert(fv[i as int] == field@);
        let ghost rest = decode_from(row, fv, sel, (i + 1) as nat, (data_offset + len) as int);
        if contains_byte(selected_column_ids, (i % 256) as u8) {
            let value: String = match field.data_type {
                FieldTypesAllowed::I8 => {
                    if len == 0 {
                        return Err(Halt::Panic);
                    }
                    int_to_string(i8_of_byte(field_bytes[0]) as i128)
                },
                FieldTypesAllowed::I32 => {
                    if len != 4 {
                        return Err(Halt::Error("corrupt I32".to_owned()));
                    }
                    int_to_string(
                        i32_of_le_bytes(
                            field_bytes[0],
                            field_bytes[1],
                            field_bytes[2],
                            field_bytes[3],
                        ) as i128,
                    )
                },
                FieldTypesAllowed::String => {
                    match text_from_utf8(field_bytes) {
                        Ok(s) => s,
                        Err(_) => {
                            return Err(
                                Halt::Error(
                                    concat3("invalid UTF-8 in field '", field.name.as_str(), "'"),
                                ),
                            );
                        },
                    }
                },
            };
            let ghost before = values@;
            values.push(value);
            proof {
                assert(strings_view(values@) =~= strings_view(before).push(value@));
                match spec_decode_row(row, fv, sel) {
                    Outcome::Done(ts) => {
                        let r2 = rest->Done_0;
                        assert(strings_view(before).push(value@) + r2 =~= strings_view(before) + (
                        seq![value@] + r2));
                    },
                    _ => {},
                }
            }
        }
        data_offset = data_offset + len;
        i += 1;
    }
    proof {
        match spec_decode_row(row, fv, sel) {
            Outcome::Done(ts) => {
                assert(strings_view(values@) + Seq::<Seq<char>>::empty() =~= strings_view(
                    values@,
                ));
            },
            _ => {},
        }
    }
    Ok(values)
}

/// The texts of the selected columns of a stored row.
pub fn decode_row(
    row_bytes: &[u8],
    schema: &TableMetadataObject,
    selected_column_ids: &Vec<u8>,
) -> (r: Result<Vec<String>, String>)
    requires
        !(spec_decode_row(row_bytes@, schema@.fields, selected_column_ids@) is Panic),
    ensures
        match spec_decode_row(row_bytes@, schema@.fields, selected_column_ids@) {
            Outcome::Error(e) => r matches Err(m) && m@ == e,
            Outcome::Done(ts) => r matches Ok(v) && strings_view(v@) == ts,
            Outcome::Panic => false,
        },
{
    match decode_row_checked(row_bytes, schema, selected_column_ids) {
        Ok(v) => Ok(v),
        Err(Halt::Error(e)) => Err(e),
        Err(Halt::Panic) => Err(String::new()),
    }
}

} // verus!
