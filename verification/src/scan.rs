//! A sequential scan of one page: every row, from the last slot to the
//! first, is tested against the query's conditions; a `select` decodes the
//! rows that satisfy them and a `delete` removes them.
use vstd::prelude::*;
use crate::bytes::{le16, read16};
use crate::evaluate::{should_delete_row_checked, spec_conditions_hold};
use crate::outcome::{Halt, Outcome};
use crate::page::{delete_row_checked, spec_delete_row};
use crate::row::{decode_row_checked, spec_decode_row, strings_view};
use crate::structs::{CondView, FieldView, PAGE_SIZE, QueryObject, TableMetadataObject};

verus! {

/// Why a scan stopped early.
pub enum StopView {
    Panic,
    Error(Seq<char>),
}

/// What a scan of a page gives: the decoded rows, in the order they were
/// read, the page as left, whether a row was removed, and why it stopped
/// early if it did.
pub struct ScanView {
    pub rows: Seq<Seq<Seq<char>>>,
    pub data: Seq<u8>,
    pub modified: bool,
    pub stop: Option<StopView>,
}

pub open spec fn stopped(
    rows: Seq<Seq<Seq<char>>>,
    data: Seq<u8>,
    modified: bool,
    why: StopView,
) -> ScanView {
    ScanView { rows, data, modified, stop: Some(why) }
}

/// Scans the rows `row - 1` down to `0` of the page `d`.
pub open spec fn scan_from(
    d: Seq<u8>,
    conds: Seq<CondView>,
    fields: Seq<FieldView>,
    sel: Seq<u8>,
    delete: bool,
    row: int,
    rows: Seq<Seq<Seq<char>>>,
    modified: bool,
) -> ScanView
    decreases row,
{
    if row <= 0 {
        ScanView { rows, data: d, modified, stop: None }
    } else {
        let i = row - 1;
        let slot = i * 4 + 11;
        if slot > 255 {
            stopped(rows, d, modified, StopView::Panic)
        } else {
            let len = le16(d, slot);
            let off = le16(d, slot + 2);
            if len + off > PAGE_SIZE {
                stopped(rows, d, modified, StopView::Panic)
            } else {
                let rb = d.subrange(PAGE_SIZE - len - off, PAGE_SIZE - off);
                match spec_conditions_hold(conds, rb, fields) {
                    Outcome::Panic => stopped(rows, d, modified, StopView::Panic),
                    Outcome::Error(e) => stopped(rows, d, modified, StopView::Error(e)),
                    Outcome::Done(b) => if !b {
                        scan_from(d, conds, fields, sel, delete, i, rows, modified)
                    } else if delete {
                        match spec_delete_row(d, i as u8, len as u16) {
                            Outcome::Done(d2) => scan_from(
                                d2,
                                conds,
                                fields,
                                sel,
                                delete,
                                i,
                                rows,
                                true,
                            ),
                            _ => stopped(rows, d, modified, StopView::Panic),
                        }
                    } else {
                        match spec_decode_row(rb, fields, sel) {
                            Outcome::Panic => stopped(rows, d, modified, StopView::Panic),
                            Outcome::Error(e) => stopped(rows, d, modified, StopView::Error(e)),
                            Outcome::Done(t) => scan_from(
                                d,
                                conds,
                                fields,
                                sel,
                                delete,
                                i,
                                rows.push(t),
                                modified,
                            ),
                        }
                    },
                }
            }
        }
    }
}

pub open spec fn msg_page_mismatch() -> Seq<char> {
    "Page ID mismatch"@
}

/// The scan of page number `page_id`: it stops at once when byte 0 of the
/// page does not hold the page's number (kept to one byte).
pub open spec fn spec_scan_page(
    d: Seq<u8>,
    page_id: u64,
    conds: Seq<CondView>,
    fields: Seq<FieldView>,
    sel: Seq<u8>,
    delete: bool,
) -> ScanView {
    if (page_id % 256) as u8 != d[0] {
        stopped(Seq::empty(), d, false, StopView::Error(msg_page_mismatch()))
    } else {
        scan_from(d, conds, fields, sel, delete, d[1] as int, Seq::empty(), false)
    }
}

/// The result of scanning one page.
pub struct PageScan {
    /// Rows decoded by a `select`, in the order they were read.
    pub rows: Vec<Vec<String>>,
    /// A `delete` removed at least one row.
    pub modified: bool,
    /// Why the scan stopped early, if it did.
    pub stop: Option<Halt>,
}

pub open spec fn rows_view(v: Seq<Vec<String>>) -> Seq<Seq<Seq<char>>> {
    v.map_values(|r: Vec<String>| strings_view(r@))
}

pub open spec fn stop_view(s: Option<Halt>) -> Option<StopView> {
    match s {
        None => None,
        Some(Halt::Panic) => Some(StopView::Panic),
        Some(Halt::Error(e)) => Some(StopView::Error(e@)),
    }
}

/// Scans page number `page_id`: every row is tested against the query's
/// conditions; for a `select` (`delete` false) the rows that satisfy them are
/// decoded, for the columns `selected_column_ids`, and for a `delete` they are
/// removed. Where the scan stops with `Halt::Panic` the page is left in an
/// unspecified state.
#[verifier::rlimit(60)]
pub fn parse_page(
    page_data: &mut [u8; PAGE_SIZE],
    page_id: u64,
    query: &QueryObject,
    schema: &TableMetadataObject,
    selected_column_ids: &Vec<u8>,
    delete: bool,
) -> (r: PageScan)
    ensures
        ({
            let v = spec_scan_page(
                old(page_data)@,
                page_id,
                query@.conditions,
                schema@.fields,
                selected_column_ids@,
                delete,
            );
            &&& rows_view(r.rows@) == v.rows
            &&& r.modified == v.modified
            &&& stop_view(r.stop) == v.stop
            &&& !(v.stop matches Some(StopView::Panic)) ==> final(page_data)@ == v.data
        }),
{
    let mut rows: Vec<Vec<String>> = Vec::new();
    if (page_id % 256) as u8 != page_data[0] {
        assert(rows_view(rows@) =~= Seq::<Seq<Seq<char>>>::empty());
        return PageScan {
            rows,
            modified: false,
            stop: Some(Halt::Error("Page ID mismatch".to_owned())),
        };
    }
    let ghost conds = query@.conditions;
    let ghost fields = schema@.fields;
    let ghost sel = selected_column_ids@;
    let ghost target = spec_scan_page(page_data@, page_id, conds, fields, sel, delete);
    let row_count = page_data[1];
    let mut modified = false;
    let mut row: u8 = row_count;
    assert(rows_view(rows@) =~= Seq::<Seq<Seq<char>>>::empty());
    while row > 0
        invariant
            conds == query@.conditions,
            fields == schema@.fields,
            sel == selected_column_ids@,
            page_data@.len() == PAGE_SIZE,
            target == spec_scan_page(old(page_data)@, page_id, conds, fields, sel, delete),
            target == scan_from(
                page_data@,
                conds,
                fields,
                sel,
                delete,
                row as int,
                rows_view(rows@),
                modified,
            ),
        decreases row,
    {
        let i = row - 1;
        if i > 61 {
            return PageScan { rows, modified, stop: Some(Halt::Panic) };
        }
        let slot = (i * 4 + 11) as usize;
        let len = read16(page_data, slot);
        let off = read16(page_data, slot + 2);
        if len as usize + off as usize > PAGE_SIZE {
            return PageScan { rows, modified, stop: Some(Halt::Panic) };
        }
        let row_start = PAGE_SIZE - len as usize - off as usize;
        let row_end = row_start + len as usize;
        let holds = {
            let row_bytes = vstd::slice::slice_subrange(page_data.as_slice(), row_start, row_end);
            should_delete_row_checked(row_bytes, query, schema)
        };
        match holds {
            Err(h) => {
                return PageScan { rows, modified, stop: Some(h) };
            },
            Ok(b) => {
                if b {
                    if delete {
                        match delete_row_checked(page_data, i, len) {
                            Ok(()) => {
                                modified = true;
                            },
                            Err(_) => {
                                return PageScan { rows, modified, stop: Some(Halt::Panic) };
                            },
                        }
                    } else {
                        let decoded = {
                            let row_bytes = vstd::slice::slice_subrange(
                                page_data.as_slice(),
                                row_start,
                                row_end,
                            );
                            decode_row_checked(row_bytes, schema, selected_column_ids)
                        };
                        match decoded {
                            Err(h) => {
                                return PageScan { rows, modified, stop: Some(h) };
                            },
                            Ok(v) => {
                                let ghost before = rows@;
                                rows.push(v);
                                assert(rows_view(rows@) =~= rows_view(before).push(
                                    strings_view(v@),
                                ));
                            },
                        }
                    }
                }
            },
        }
        row = i;
    }
    PageScan { rows, modified, stop: None }
}

} // verus!
