//! What the page operations keep: a well-formed page stays well formed, its
//! slots change as the operation says, and the rows already stored stay put.
use vstd::prelude::*;
use crate::bytes::{le16, lemma_put16, put16};
use crate::outcome::Outcome;
use crate::page::{
    freed_space,
    header_size,
    row_at,
    row_count,
    rows_size,
    slot_len,
    slot_off,
    slots,
    space_remaining,
    splice,
    spec_build_page,
    spec_delete_row,
    spec_insert_row,
    shift_down,
    zero_range,
};
use crate::structs::{FieldView, PAGE_SIZE};
use crate::enums::ValueView;
use crate::laws::{law_row_roundtrip, selected_texts};
use crate::row::{spec_build_row, spec_decode_row};
use crate::scan::{ScanView, scan_from, spec_scan_page};
use crate::structs::CondView;
use crate::evaluate::spec_conditions_hold;

verus! {

/// A well-formed page: a slot per row after the fixed header, the header
/// (slots included), the stored rows and the space remaining adding up to
/// the page, and every slot pointing inside the stored rows.
pub open spec fn page_wf(d: Seq<u8>) -> bool {
    &&& d.len() == PAGE_SIZE
    &&& header_size(d) == 11 + 4 * row_count(d)
    &&& rows_size(d) + space_remaining(d) + header_size(d) == PAGE_SIZE
    &&& forall|i: int| 0 <= i < row_count(d) ==> #[trigger] slot_off(d, i) + slot_len(d, i) <= rows_size(d)
}

/// A page of zero bytes, as a new page starts.
pub open spec fn blank_page() -> Seq<u8> {
    Seq::new(PAGE_SIZE as nat, |i: int| 0u8)
}

proof fn lemma_splice(d: Seq<u8>, at: int, row: Seq<u8>)
    requires
        0 <= at,
        at + row.len() <= d.len(),
    ensures
        splice(d, at, row).len() == d.len(),
        forall|k: int|
            0 <= k < d.len() ==> #[trigger] splice(d, at, row)[k] == if at <= k < at + row.len() {
                row[k - at]
            } else {
                d[k]
            },
{
}

/// A page built from a blank page holds the one row given: well formed,
/// one slot for the row at the end of the page, nothing freed.
pub proof fn law_new_page(id: u64, row: Seq<u8>)
    requires
        row.len() <= PAGE_SIZE - 15,
    ensures
        ({
            let d = spec_build_page(blank_page(), id, row);
            &&& page_wf(d)
            &&& d[0] == (id % 256) as u8
            &&& row_count(d) == 1
            &&& slots(d) == seq![(row.len() as int, 0int)]
            &&& row_at(d, 0) == row
            &&& freed_space(d) == 0
        }),
{
    let l = row.len() as int;
    let b = blank_page();
    let d1 = b.update(0, (id % 256) as u8).update(1, 1u8);
    lemma_put16(d1, 2, l);
    let d2 = put16(d1, 2, l);
    lemma_put16(d2, 4, PAGE_SIZE - (15 + l));
    let d3 = put16(d2, 4, PAGE_SIZE - (15 + l));
    let d4 = d3.update(6, 0u8);
    lemma_put16(d4, 7, 15);
    let d5 = put16(d4, 7, 15);
    lemma_splice(d5, PAGE_SIZE - l, row);
    let d6 = splice(d5, PAGE_SIZE - l, row);
    lemma_put16(d6, 11, l);
    let d = put16(d6, 11, l);
    assert(d == spec_build_page(b, id, row));
    assert(le16(d, 13) == 0);
    assert(slot_off(d, 0) == 0);
    assert(slot_len(d, 0) == l);
    assert(slots(d) =~= seq![(l, 0int)]);
    assert(row_at(d, 0) =~= row);
}

/// What storing `row` on the well-formed page `d` makes of it.
pub open spec fn stored_on(d: Seq<u8>, row: Seq<u8>, nd: Seq<u8>) -> bool {
    &&& page_wf(nd)
    &&& nd[0] == d[0]
    &&& row_count(nd) == row_count(d) + 1
    &&& slots(nd) == slots(d).push((row.len() as int, rows_size(d)))
    &&& rows_size(nd) == rows_size(d) + row.len()
    &&& space_remaining(nd) == space_remaining(d) - row.len() - 4
    &&& freed_space(nd) == freed_space(d)
}

/// Storing a row on a well-formed page: when the page has room for the row
/// and its slot and fewer than 255 rows, the row is stored, the page stays
/// well formed with one slot more, for the row, and the slots before stay;
/// otherwise the page is left alone. The rows read back as before, the new
/// one as given.
#[verifier::rlimit(50)]
#[verifier::spinoff_prover]
pub proof fn law_insert_row(d: Seq<u8>, row: Seq<u8>)
    requires
        page_wf(d),
    ensures
        !(space_remaining(d) >= row.len() + 4 && row_count(d) < 255) ==> spec_insert_row(d, row)
            == Outcome::<Option<Seq<u8>>>::Done(None),
        space_remaining(d) >= row.len() + 4 && row_count(d) < 255 ==> (spec_insert_row(d, row) matches Outcome::Done(
            Some(nd),
        ) && stored_on(d, row, nd)),
        space_remaining(d) >= row.len() + 4 && row_count(d) < 255 ==> (spec_insert_row(d, row) matches Outcome::Done(
            Some(nd),
        ) && row_at(nd, row_count(d)) == row && forall|i: int|
            0 <= i < row_count(d) ==> #[trigger] row_at(nd, i) == row_at(d, i)),
{
    let l = row.len() as int;
    let count = row_count(d);
    let space = space_remaining(d);
    let rows = rows_size(d);
    let hs = header_size(d);
    if space >= l + 4 && count < 255 {
        let d1 = d.update(1, (count + 1) as u8);
        assert(rows_size(d1) == rows);
        let start = PAGE_SIZE - rows - l;
        assert(start >= hs);
        lemma_splice(d1, start, row);
        let d2 = splice(d1, start, row);
        assert(header_size(d2) == hs);
        lemma_put16(d2, hs, l);
        let d3a = put16(d2, hs, l);
        lemma_put16(d3a, hs + 2, rows);
        let d3 = put16(d3a, hs + 2, rows);
        lemma_put16(d3, 7, hs + 4);
        let d4 = put16(d3, 7, hs + 4);
        lemma_put16(d4, 2, rows + l);
        let d5 = put16(d4, 2, rows + l);
        assert(space_remaining(d5) == space);
        lemma_put16(d5, 4, space - l - 4);
        let nd = put16(d5, 4, space - l - 4);
        assert(spec_insert_row(d, row) == Outcome::Done(Some(nd)));
        assert(row_count(nd) == count + 1);
        assert(header_size(nd) == hs + 4);
        assert(rows_size(nd) == rows + l);
        assert(space_remaining(nd) == space - l - 4);
        assert(freed_space(nd) == freed_space(d));
        assert forall|i: int| 0 <= i < count implies slot_len(nd, i) == slot_len(d, i) && slot_off(
            nd,
            i,
        ) == slot_off(d, i) by {
            assert(nd[11 + 4 * i] == d[11 + 4 * i]);
            assert(nd[12 + 4 * i] == d[12 + 4 * i]);
            assert(nd[13 + 4 * i] == d[13 + 4 * i]);
            assert(nd[14 + 4 * i] == d[14 + 4 * i]);
        }
        assert(slot_len(nd, count) == l);
        assert(slot_off(nd, count) == rows);
        assert(slots(nd) =~= slots(d).push((l, rows)));
        assert forall|i: int| 0 <= i < row_count(nd) implies #[trigger] slot_off(nd, i) + slot_len(nd, i)
            <= rows_size(nd) by {
            if i < count {
                assert(slot_off(d, i) + slot_len(d, i) <= rows);
            }
        }
        {
            assert(row_at(nd, count) =~= row);
            assert forall|i: int| 0 <= i < count implies #[trigger] row_at(nd, i) == row_at(d, i) by {
                assert(slot_off(d, i) + slot_len(d, i) <= rows);
                assert(row_at(nd, i) =~= row_at(d, i));
            }
        }
    }
}

/// What removing slot `idx` of a row of `len` bytes makes of the
/// well-formed page `d`.
pub open spec fn removed_from(d: Seq<u8>, idx: int, len: int, nd: Seq<u8>) -> bool {
    &&& page_wf(nd)
    &&& nd[0] == d[0]
    &&& row_count(nd) == row_count(d) - 1
    &&& slots(nd) == slots(d).remove(idx)
    &&& rows_size(nd) == rows_size(d)
    &&& space_remaining(nd) == space_remaining(d) + 4
    &&& freed_space(nd) == freed_space(d) + len
}

/// Removing a row's slot from a well-formed page: the slot goes, the later
/// slots move down one place, the page stays well formed with four bytes
/// more room, and the row's length is added to the freed space. The rows'
/// bytes stay where they are, so every remaining slot reads the row it read
/// before.
pub proof fn law_delete_row(d: Seq<u8>, idx: u8, len: u16)
    requires
        page_wf(d),
        idx < row_count(d),
        freed_space(d) + len <= 0xffff,
    ensures
        spec_delete_row(d, idx, len) matches Outcome::Done(nd) && removed_from(d, idx as int, len as int, nd),
        spec_delete_row(d, idx, len) matches Outcome::Done(nd) && forall|j: int|
            0 <= j < row_count(d) - 1 ==> #[trigger] row_at(nd, j) == row_at(
                d,
                if j < idx {
                    j
                } else {
                    j + 1
                },
            ),
{
    let count = row_count(d);
    let rows = rows_size(d);
    let space = space_remaining(d);
    let hs = header_size(d);
    let freed = freed_space(d);
    let d1 = d.update(1, (count - 1) as u8);
    assert(freed_space(d1) == freed);
    lemma_put16(d1, 9, freed + len);
    let d2 = put16(d1, 9, freed + len);
    assert(header_size(d2) == hs);
    let slot_start = 11 + 4 * idx;
    let d3 = if slot_start + 4 < hs {
        shift_down(d2, slot_start, hs)
    } else {
        d2
    };
    let d4 = zero_range(d3, hs - 4, hs);
    lemma_put16(d4, 7, hs - 4);
    let d5 = put16(d4, 7, hs - 4);
    assert(space_remaining(d5) == space);
    lemma_put16(d5, 4, space + 4);
    let nd = put16(d5, 4, space + 4);
    assert(spec_delete_row(d, idx, len) == Outcome::Done(nd));
    assert(nd.len() == PAGE_SIZE);
    assert(row_count(nd) == count - 1);
    assert(header_size(nd) == hs - 4);
    assert(rows_size(nd) == rows);
    assert(freed_space(nd) == freed + len);
    assert forall|j: int| 0 <= j < count - 1 implies slot_len(nd, j) == slot_len(
        d,
        if j < idx {
            j
        } else {
            j + 1
        },
    ) && slot_off(nd, j) == slot_off(
        d,
        if j < idx {
            j
        } else {
            j + 1
        },
    ) by {
        let s = if j < idx {
            j
        } else {
            j + 1
        };
        assert(nd[11 + 4 * j] == d[11 + 4 * s]);
        assert(nd[12 + 4 * j] == d[12 + 4 * s]);
        assert(nd[13 + 4 * j] == d[13 + 4 * s]);
        assert(nd[14 + 4 * j] == d[14 + 4 * s]);
    }
    assert(slots(nd) =~= slots(d).remove(idx as int));
    assert forall|j: int| 0 <= j < row_count(nd) implies #[trigger] slot_off(nd, j) + slot_len(nd, j)
        <= rows_size(nd) by {
        let s = if j < idx {
            j
        } else {
            j + 1
        };
        assert(slot_off(d, s) + slot_len(d, s) <= rows);
    }
    {
        assert forall|j: int| 0 <= j < count - 1 implies #[trigger] row_at(nd, j) == row_at(
            d,
            if j < idx {
                j
            } else {
                j + 1
            },
        ) by {
            let s = if j < idx {
                j
            } else {
                j + 1
            };
            assert(slot_off(d, s) + slot_len(d, s) <= rows);
            assert(row_at(nd, j) =~= row_at(d, s));
        }
    }
}

/// A row built for a schema and stored on a well-formed page that has room
/// for it and its slot reads back, through its new slot, as the values
/// that were written.
pub proof fn law_store_and_read_back(
    d: Seq<u8>,
    fields: Seq<FieldView>,
    values: Seq<ValueView>,
    sel: Seq<u8>,
)
    requires
        page_wf(d),
        fields.len() <= 253,
        values.len() >= fields.len(),
        spec_build_row(fields, values) is Ok,
        row_count(d) < 255,
        space_remaining(d) >= spec_build_row(fields, values)->Ok_0.len() + 4,
    ensures
        spec_insert_row(d, spec_build_row(fields, values)->Ok_0) matches Outcome::Done(Some(nd))
            && spec_decode_row(row_at(nd, row_count(d)), fields, sel) == Outcome::Done(
            selected_texts(fields, values, sel, 0),
        ),
{
    law_insert_row(d, spec_build_row(fields, values)->Ok_0);
    law_row_roundtrip(fields, values, sel);
}

/// The decoded rows of the slots `row - 1` down to `0` whose rows satisfy
/// the conditions, in that order.
pub open spec fn shown_from(
    d: Seq<u8>,
    conds: Seq<CondView>,
    fields: Seq<FieldView>,
    sel: Seq<u8>,
    row: int,
) -> Seq<Seq<Seq<char>>>
    decreases row,
{
    if row <= 0 {
        Seq::empty()
    } else {
        let i = row - 1;
        let rest = shown_from(d, conds, fields, sel, i);
        if row_matches(d, conds, fields, i) {
            seq![spec_decode_row(row_at(d, i), fields, sel)->Done_0] + rest
        } else {
            rest
        }
    }
}

/// Every row of the page can be tested, and every row that satisfies the
/// conditions decodes.
pub open spec fn scannable(d: Seq<u8>, conds: Seq<CondView>, fields: Seq<FieldView>, sel: Seq<u8>) -> bool {
    forall|i: int|
        0 <= i < row_count(d) ==> #[trigger] spec_conditions_hold(conds, row_at(d, i), fields) is Done
            && (row_matches(d, conds, fields, i) ==> spec_decode_row(row_at(d, i), fields, sel) is Done)
}

proof fn lemma_select_from(
    d: Seq<u8>,
    conds: Seq<CondView>,
    fields: Seq<FieldView>,
    sel: Seq<u8>,
    row: int,
    rows: Seq<Seq<Seq<char>>>,
)
    requires
        page_wf(d),
        0 <= row <= row_count(d),
        row <= 62,
        scannable(d, conds, fields, sel),
    ensures
        scan_from(d, conds, fields, sel, false, row, rows, false) == (ScanView {
            rows: rows + shown_from(d, conds, fields, sel, row),
            data: d,
            modified: false,
            stop: None,
        }),
    decreases row,
{
    if row <= 0 {
        assert(rows + shown_from(d, conds, fields, sel, row) =~= rows);
    } else {
        let i = row - 1;
        assert(slot_off(d, i) + slot_len(d, i) <= rows_size(d));
        assert(row_at(d, i) == d.subrange(
            PAGE_SIZE - slot_len(d, i) - slot_off(d, i),
            PAGE_SIZE - slot_off(d, i),
        ));
        assert(spec_conditions_hold(conds, row_at(d, i), fields) is Done);
        if row_matches(d, conds, fields, i) {
            let t = spec_decode_row(row_at(d, i), fields, sel)->Done_0;
            lemma_select_from(d, conds, fields, sel, i, rows.push(t));
            assert(rows.push(t) + shown_from(d, conds, fields, sel, i) =~= rows + shown_from(
                d,
                conds,
                fields,
                sel,
                row,
            ));
        } else {
            lemma_select_from(d, conds, fields, sel, i, rows);
        }
    }
}

/// A `select` scan of a well-formed page gives, from the last slot to the
/// first, the decoded rows that satisfy the query's conditions (all rows when
/// there are none), and leaves the page as it was. It holds for pages of up
/// to 62 rows, since the scan computes a slot's position in one byte, which
/// overflows from the 63rd slot on.
pub proof fn law_select_scan(
    d: Seq<u8>,
    page_id: u64,
    conds: Seq<CondView>,
    fields: Seq<FieldView>,
    sel: Seq<u8>,
)
    requires
        page_wf(d),
        d[0] == (page_id % 256) as u8,
        row_count(d) <= 62,
        scannable(d, conds, fields, sel),
    ensures
        spec_scan_page(d, page_id, conds, fields, sel, false) == (ScanView {
            rows: shown_from(d, conds, fields, sel, row_count(d)),
            data: d,
            modified: false,
            stop: None,
        }),
{
    lemma_select_from(d, conds, fields, sel, row_count(d), Seq::empty());
    assert(Seq::<Seq<Seq<char>>>::empty() + shown_from(d, conds, fields, sel, row_count(d))
        =~= shown_from(d, conds, fields, sel, row_count(d)));
}

/// The row of slot `j` satisfies the conditions of a query.
pub open spec fn row_matches(d0: Seq<u8>, conds: Seq<CondView>, fields: Seq<FieldView>, j: int) -> bool {
    spec_conditions_hold(conds, row_at(d0, j), fields) == Outcome::Done(true)
}

/// The slots from `i` on whose rows do not satisfy the conditions, in order.
pub open spec fn kept_from(d0: Seq<u8>, conds: Seq<CondView>, fields: Seq<FieldView>, i: int) -> Seq<int>
    decreases row_count(d0) - i,
{
    if i < 0 || i >= row_count(d0) {
        Seq::empty()
    } else if row_matches(d0, conds, fields, i) {
        kept_from(d0, conds, fields, i + 1)
    } else {
        seq![i] + kept_from(d0, conds, fields, i + 1)
    }
}

/// The lengths of the rows of the slots before `row`, added up.
pub open spec fn lens_before(d0: Seq<u8>, row: int) -> int
    decreases row,
{
    if row <= 0 {
        0
    } else {
        lens_before(d0, row - 1) + slot_len(d0, row - 1)
    }
}

/// The slot of `d0` that slot `p` holds in the middle of a `delete` scan
/// that has the slots before `row` still to look at: those are where they
/// were, and the slots kept so far follow them.
pub open spec fn origin(d0: Seq<u8>, conds: Seq<CondView>, fields: Seq<FieldView>, row: int, p: int) -> int {
    if p < row {
        p
    } else {
        kept_from(d0, conds, fields, row)[p - row]
    }
}

/// The page `d` in the middle of a `delete` scan of `d0` that has the slots
/// before `row` still to look at: every slot reads what its origin read.
pub open spec fn delete_state(d0: Seq<u8>, d: Seq<u8>, conds: Seq<CondView>, fields: Seq<FieldView>, row: int) -> bool {
    &&& page_wf(d)
    &&& 0 <= row <= row_count(d0)
    &&& row_count(d) == row + kept_from(d0, conds, fields, row).len()
    &&& forall|p: int|
        0 <= p < row_count(d) ==> #[trigger] slot_len(d, p) == slot_len(d0, origin(d0, conds, fields, row, p))
    &&& forall|p: int|
        0 <= p < row_count(d) ==> #[trigger] slot_off(d, p) == slot_off(d0, origin(d0, conds, fields, row, p))
    &&& forall|p: int|
        0 <= p < row_count(d) ==> #[trigger] row_at(d, p) == row_at(d0, origin(d0, conds, fields, row, p))
    &&& freed_space(d) + lens_before(d0, row) <= 0xffff
}

proof fn lemma_kept_range(d0: Seq<u8>, conds: Seq<CondView>, fields: Seq<FieldView>, i: int)
    ensures
        forall|k: int|
            0 <= k < kept_from(d0, conds, fields, i).len() ==> i <= #[trigger] kept_from(d0, conds, fields, i)[k]
                < row_count(d0),
    decreases row_count(d0) - i,
{
    if 0 <= i < row_count(d0) {
        lemma_kept_range(d0, conds, fields, i + 1);
        let rest = kept_from(d0, conds, fields, i + 1);
        if !row_matches(d0, conds, fields, i) {
            assert forall|k: int| 0 <= k < rest.len() + 1 implies #[trigger] (seq![i] + rest)[k] == if k
                == 0 {
                i
            } else {
                rest[k - 1]
            } by {}
        }
    }
}

proof fn lemma_lens_before_grows(d0: Seq<u8>, a: int, b: int)
    requires
        a <= b,
    ensures
        lens_before(d0, a) <= lens_before(d0, b),
    decreases b - a,
{
    if a < b {
        lemma_lens_before_grows(d0, a, b - 1);
        if b > 0 {
            assert(slot_len(d0, b - 1) >= 0);
        }
    }
}

/// Removing the slot before `row` when its row matches keeps the scan's state.
#[verifier::rlimit(30)]
proof fn lemma_state_after_delete(
    d0: Seq<u8>,
    d: Seq<u8>,
    conds: Seq<CondView>,
    fields: Seq<FieldView>,
    row: int,
)
    requires
        delete_state(d0, d, conds, fields, row),
        0 < row,
        row_count(d0) <= 62,
        row_matches(d0, conds, fields, row - 1),
    ensures
        spec_delete_row(d, (row - 1) as u8, slot_len(d, row - 1) as u16) matches Outcome::Done(nd)
            && delete_state(d0, nd, conds, fields, row - 1),
{
    let i = row - 1;
    let len = slot_len(d, i);
    assert(kept_from(d0, conds, fields, i) == kept_from(d0, conds, fields, row));
    assert(origin(d0, conds, fields, row, i) == i);
    assert(slot_len(d, i) == slot_len(d0, i));
    lemma_lens_before_grows(d0, 0, i);
    assert(lens_before(d0, row) == lens_before(d0, i) + slot_len(d0, i));
    law_delete_row(d, i as u8, len as u16);
    let nd = spec_delete_row(d, i as u8, len as u16)->Done_0;
    assert(removed_from(d, i, len, nd));
    assert forall|p: int| 0 <= p < row_count(nd) implies #[trigger] slot_len(nd, p) == slot_len(
        d0,
        origin(d0, conds, fields, i, p),
    ) && slot_off(nd, p) == slot_off(d0, origin(d0, conds, fields, i, p)) && row_at(nd, p) == row_at(
        d0,
        origin(d0, conds, fields, i, p),
    ) by {
        let q = if p < i {
            p
        } else {
            p + 1
        };
        assert(slots(nd)[p] == slots(d)[q]);
        assert(origin(d0, conds, fields, i, p) == origin(d0, conds, fields, row, q));
        assert(slot_len(d, q) == slot_len(d0, origin(d0, conds, fields, row, q)));
        assert(slot_off(d, q) == slot_off(d0, origin(d0, conds, fields, row, q)));
        assert(row_at(d, q) == row_at(d0, origin(d0, conds, fields, row, q)));
    }
    assert forall|p: int| 0 <= p < row_count(nd) implies #[trigger] slot_off(nd, p) == slot_off(
        d0,
        origin(d0, conds, fields, i, p),
    ) by {
        assert(slot_len(nd, p) == slot_len(d0, origin(d0, conds, fields, i, p)));
    }
    assert forall|p: int| 0 <= p < row_count(nd) implies #[trigger] row_at(nd, p) == row_at(
        d0,
        origin(d0, conds, fields, i, p),
    ) by {
        assert(slot_len(nd, p) == slot_len(d0, origin(d0, conds, fields, i, p)));
    }
}

/// Passing over the slot before `row` when its row does not match keeps the
/// scan's state.
proof fn lemma_state_after_keep(d0: Seq<u8>, d: Seq<u8>, conds: Seq<CondView>, fields: Seq<FieldView>, row: int)
    requires
        delete_state(d0, d, conds, fields, row),
        0 < row,
        !row_matches(d0, conds, fields, row - 1),
    ensures
        delete_state(d0, d, conds, fields, row - 1),
{
    let i = row - 1;
    let kept = kept_from(d0, conds, fields, row);
    let ki = kept_from(d0, conds, fields, i);
    assert(ki == seq![i] + kept);
    lemma_lens_before_grows(d0, i, row);
    assert forall|p: int| 0 <= p < row_count(d) implies origin(d0, conds, fields, i, p) == origin(
        d0,
        conds,
        fields,
        row,
        p,
    ) by {
        if p == i {
            assert(ki[0] == i);
        } else if p > i {
            assert(ki[p - i] == kept[p - row]);
        }
    }
}

#[verifier::rlimit(80)]
#[verifier::spinoff_prover]
proof fn lemma_delete_from(
    d0: Seq<u8>,
    d: Seq<u8>,
    conds: Seq<CondView>,
    fields: Seq<FieldView>,
    sel: Seq<u8>,
    row: int,
    rows: Seq<Seq<Seq<char>>>,
    modified: bool,
)
    requires
        delete_state(d0, d, conds, fields, row),
        row_count(d0) <= 62,
        forall|j: int|
            0 <= j < row_count(d0) ==> #[trigger] spec_conditions_hold(conds, row_at(d0, j), fields) is Done,
    ensures
        ({
            let v = scan_from(d, conds, fields, sel, true, row, rows, modified);
            &&& v.stop is None
            &&& v.rows == rows
            &&& delete_state(d0, v.data, conds, fields, 0)
            &&& v.modified == (modified || exists|j: int| 0 <= j < row && #[trigger] row_matches(d0, conds, fields, j))
        }),
    decreases row,
{
    if row > 0 {
        let i = row - 1;
        let len = slot_len(d, i);
        let off = slot_off(d, i);
        assert(origin(d0, conds, fields, row, i) == i);
        assert(row_at(d, i) == row_at(d0, i));
        assert(off + len <= rows_size(d));
        assert(spec_conditions_hold(conds, row_at(d0, i), fields) is Done);
        let b = spec_conditions_hold(conds, row_at(d0, i), fields)->Done_0;
        if b {
            lemma_state_after_delete(d0, d, conds, fields, row);
            let nd = spec_delete_row(d, i as u8, len as u16)->Done_0;
            lemma_delete_from(d0, nd, conds, fields, sel, i, rows, true);
        } else {
            lemma_state_after_keep(d0, d, conds, fields, row);
            lemma_delete_from(d0, d, conds, fields, sel, i, rows, modified);
        }
        let v = scan_from(d, conds, fields, sel, true, row, rows, modified);
        if v.modified {
            if !modified {
                if b {
                    assert(row_matches(d0, conds, fields, i));
                } else {
                    let j = choose|j: int| 0 <= j < i && #[trigger] row_matches(d0, conds, fields, j);
                    assert(0 <= j < row && row_matches(d0, conds, fields, j));
                }
            }
        } else {
            assert forall|j: int| 0 <= j < row implies !#[trigger] row_matches(d0, conds, fields, j) by {
                if j == i {
                    assert(!b);
                }
            }
        }
    }
}

/// A `delete` scan of a well-formed page removes exactly the slots whose rows
/// satisfy the conditions: what is left are the other slots, in their order,
/// each reading the row it read before, and the page stays well formed. It
/// holds for pages of up to 62 rows (the scan computes a slot's position in
/// one byte) whose freed-space count has room for the rows removed and on
/// whose rows every condition can be evaluated.
pub proof fn law_delete_scan(
    d: Seq<u8>,
    page_id: u64,
    conds: Seq<CondView>,
    fields: Seq<FieldView>,
    sel: Seq<u8>,
)
    requires
        page_wf(d),
        d[0] == (page_id % 256) as u8,
        row_count(d) <= 62,
        freed_space(d) + lens_before(d, row_count(d)) <= 0xffff,
        forall|j: int|
            0 <= j < row_count(d) ==> #[trigger] spec_conditions_hold(conds, row_at(d, j), fields) is Done,
    ensures
        ({
            let v = spec_scan_page(d, page_id, conds, fields, sel, true);
            let kept = kept_from(d, conds, fields, 0);
            &&& v.stop is None
            &&& v.rows.len() == 0
            &&& page_wf(v.data)
            &&& row_count(v.data) == kept.len()
            &&& forall|k: int|
                0 <= k < kept.len() ==> #[trigger] slots(v.data)[k] == slots(d)[kept[k]] && row_at(
                    v.data,
                    k,
                ) == row_at(d, kept[k])
            &&& v.modified == exists|j: int| 0 <= j < row_count(d) && #[trigger] row_matches(d, conds, fields, j)
        }),
{
    let count = row_count(d);
    let kept = kept_from(d, conds, fields, count);
    assert(kept.len() == 0);
    assert(delete_state(d, d, conds, fields, count));
    lemma_delete_from(d, d, conds, fields, sel, count, Seq::empty(), false);
    let v = spec_scan_page(d, page_id, conds, fields, sel, true);
    let k0 = kept_from(d, conds, fields, 0);
    lemma_kept_range(d, conds, fields, 0);
    assert forall|k: int| 0 <= k < k0.len() implies #[trigger] slots(v.data)[k] == slots(d)[k0[k]]
        && row_at(v.data, k) == row_at(d, k0[k]) by {
        assert(origin(d, conds, fields, 0, k) == k0[k]);
        assert(slot_len(v.data, k) == slot_len(d, k0[k]));
        assert(slot_off(v.data, k) == slot_off(d, k0[k]));
        assert(row_at(v.data, k) == row_at(d, k0[k]));
        assert(0 <= k0[k] < row_count(d));
    }
}

/// A row stored on a well-formed page that has room for it and its slot
/// shows first in the next `select` scan, as the values written, when it
/// satisfies the query's conditions; the rows the page showed before follow.
/// It holds for pages of fewer than 62 rows on which the scan can test and
/// decode every row.
#[verifier::rlimit(40)]
#[verifier::spinoff_prover]
pub proof fn law_insert_then_select(
    d: Seq<u8>,
    page_id: u64,
    conds: Seq<CondView>,
    fields: Seq<FieldView>,
    values: Seq<ValueView>,
    sel: Seq<u8>,
)
    requires
        page_wf(d),
        d[0] == (page_id % 256) as u8,
        row_count(d) < 62,
        scannable(d, conds, fields, sel),
        fields.len() <= 253,
        values.len() >= fields.len(),
        spec_build_row(fields, values) is Ok,
        spec_conditions_hold(conds, spec_build_row(fields, values)->Ok_0, fields) is Done,
        space_remaining(d) >= spec_build_row(fields, values)->Ok_0.len() + 4,
    ensures
        spec_insert_row(d, spec_build_row(fields, values)->Ok_0) matches Outcome::Done(Some(nd))
            && spec_scan_page(nd, page_id, conds, fields, sel, false).rows == (if spec_conditions_hold(
            conds,
            spec_build_row(fields, values)->Ok_0,
            fields,
        ) == Outcome::Done(true) {
            seq![selected_texts(fields, values, sel, 0)]
        } else {
            Seq::empty()
        }) + spec_scan_page(d, page_id, conds, fields, sel, false).rows,
{
    let row = spec_build_row(fields, values)->Ok_0;
    let c = row_count(d);
    law_insert_row(d, row);
    law_row_roundtrip(fields, values, sel);
    let nd = spec_insert_row(d, row)->Done_0->Some_0;
    assert(stored_on(d, row, nd));
    assert(row_at(nd, c) == row);
    assert forall|i: int| 0 <= i < c implies #[trigger] row_at(nd, i) == row_at(d, i) by {}
    assert forall|i: int| 0 <= i < row_count(nd) implies #[trigger] spec_conditions_hold(
        conds,
        row_at(nd, i),
        fields,
    ) is Done && (row_matches(nd, conds, fields, i) ==> spec_decode_row(row_at(nd, i), fields, sel)
        is Done) by {
        if i < c {
            assert(row_at(nd, i) == row_at(d, i));
            assert(spec_conditions_hold(conds, row_at(d, i), fields) is Done);
        }
    }
    law_select_scan(d, page_id, conds, fields, sel);
    law_select_scan(nd, page_id, conds, fields, sel);
    lemma_shown_same(d, nd, conds, fields, sel, c);
}

/// Two pages whose first `row` slots read the same rows show the same rows
/// from them.
proof fn lemma_shown_same(
    d: Seq<u8>,
    nd: Seq<u8>,
    conds: Seq<CondView>,
    fields: Seq<FieldView>,
    sel: Seq<u8>,
    row: int,
)
    requires
        forall|i: int| 0 <= i < row ==> #[trigger] row_at(nd, i) == row_at(d, i),
    ensures
        shown_from(nd, conds, fields, sel, row) == shown_from(d, conds, fields, sel, row),
    decreases row,
{
    if row > 0 {
        assert(row_at(nd, row - 1) == row_at(d, row - 1));
        lemma_shown_same(d, nd, conds, fields, sel, row - 1);
    }
}

} // verus!
