//! The slotted page. Byte 0 holds the page id, byte 1 the row count, bytes
//! 2-3 the size of the stored rows, 4-5 the space remaining, byte 6 the log
//! sequence number, 7-8 the header size (slots included), 9-10 the freed
//! space. Slots of four bytes follow from byte 11: the row's length, then its
//! offset from the end of the page, two bytes each. Rows are stored from the
//! end of the page backward.
use vstd::prelude::*;
use crate::bytes::{le16, put16, read16, write16};
use crate::outcome::{Halt, Outcome};
use crate::structs::{PAGE_HEADER_SIZE_ON_CREATE, PAGE_HEADER_SLOT_SIZE_FOR_ROW, PAGE_SIZE, Page};

verus! {

pub open spec fn row_count(d: Seq<u8>) -> int {
    d[1] as int
}

pub open spec fn rows_size(d: Seq<u8>) -> int {
    le16(d, 2)
}

pub open spec fn space_remaining(d: Seq<u8>) -> int {
    le16(d, 4)
}

pub open spec fn header_size(d: Seq<u8>) -> int {
    le16(d, 7)
}

pub open spec fn freed_space(d: Seq<u8>) -> int {
    le16(d, 9)
}

/// Length of the row of slot `i`.
pub open spec fn slot_len(d: Seq<u8>, i: int) -> int {
    le16(d, 11 + 4 * i)
}

/// Offset from the end of the page of the row of slot `i`.
pub open spec fn slot_off(d: Seq<u8>, i: int) -> int {
    le16(d, 13 + 4 * i)
}

/// The slots of the page, in order, as (length, offset) pairs.
pub open spec fn slots(d: Seq<u8>) -> Seq<(int, int)> {
    Seq::new(row_count(d) as nat, |i: int| (slot_len(d, i), slot_off(d, i)))
}

/// The bytes of the row of slot `i`.
pub open spec fn row_at(d: Seq<u8>, i: int) -> Seq<u8> {
    d.subrange(
        PAGE_SIZE as int - slot_off(d, i) - slot_len(d, i),
        PAGE_SIZE as int - slot_off(d, i),
    )
}

/// `d` with `row` written from position `at`.
pub open spec fn splice(d: Seq<u8>, at: int, row: Seq<u8>) -> Seq<u8> {
    d.subrange(0, at) + row + d.subrange(at + row.len(), d.len() as int)
}

/// The page `d` after a first row `row` is stored on it, its id being `id`:
/// the space remaining is what the header, the first slot and the row leave
/// free. The freed-space field and the first slot's offset are left as they
/// are, zero on a new page.
pub open spec fn spec_build_page(d: Seq<u8>, id: u64, row: Seq<u8>) -> Seq<u8> {
    let l = row.len() as int;
    let d1 = d.update(0, (id % 256) as u8).update(1, 1u8);
    let d2 = put16(d1, 2, l);
    let d3 = put16(d2, 4, PAGE_SIZE - (PAGE_HEADER_SIZE_ON_CREATE + PAGE_HEADER_SLOT_SIZE_FOR_ROW + l));
    let d4 = d3.update(6, 0u8);
    let d5 = put16(d4, 7, PAGE_HEADER_SIZE_ON_CREATE + PAGE_HEADER_SLOT_SIZE_FOR_ROW);
    let d6 = splice(d5, PAGE_SIZE - l, row);
    put16(d6, 11, l)
}

fn write_bytes(d: &mut [u8; 4096], at: usize, row: &[u8])
    requires
        at + row@.len() <= 4096,
    ensures
        final(d)@ == splice(old(d)@, at as int, row@),
{
    let n = row.len();
    let mut k: usize = 0;
    let ghost start = d@;
    while k < n
        invariant
            n == row@.len(),
            at + n <= 4096,
            k <= n,
            d@.len() == 4096,
            start.len() == 4096,
            forall|j: int| 0 <= j < 4096 && !(at <= j < at + k) ==> d@[j] == start[j],
            forall|j: int| 0 <= j < k ==> d@[at + j] == row@[j],
        decreases n - k,
    {
        d[at + k] = row[k];
        k += 1;
    }
    assert(d@ =~= splice(start, at as int, row@));
}

/// Stores the first row of a new page: the header, one slot, and the row
/// at the end of the page.
pub fn build_new_page(page: &mut Page, row_data: &[u8], row_len: u64)
    requires
        row_len == row_data@.len(),
        row_len <= PAGE_SIZE - PAGE_HEADER_SIZE_ON_CREATE - PAGE_HEADER_SLOT_SIZE_FOR_ROW,
    ensures
        final(page).data@ == spec_build_page(old(page).data@, old(page).id, row_data@),
        final(page).id == old(page).id,
        final(page).dirty == old(page).dirty,
        final(page).pin_count == old(page).pin_count,
        final(page).last_used == old(page).last_used,
{
    let curr_page_id = page.id;
    page.data[0] = (curr_page_id % 256) as u8;
    page.data[1] = 1;
    write16(&mut page.data, 2, row_len as u16);
    let data_used: u16 = PAGE_HEADER_SIZE_ON_CREATE + PAGE_HEADER_SLOT_SIZE_FOR_ROW as u16
        + row_len as u16;
    let space_remaining: u16 = PAGE_SIZE as u16 - data_used;
    write16(&mut page.data, 4, space_remaining);
    page.data[6] = 0;
    let page_header_size_with_first_slot: u16 = PAGE_HEADER_SIZE_ON_CREATE
        + PAGE_HEADER_SLOT_SIZE_FOR_ROW as u16;
    write16(&mut page.data, 7, page_header_size_with_first_slot);
    let new_row_start = PAGE_SIZE - row_len as usize;
    write_bytes(&mut page.data, new_row_start, row_data);
    write16(&mut page.data, 11, row_len as u16);
}

/// What storing `row` on the page `d` gives: `None` when the space remaining
/// is short of the row and its slot or the page holds 255 rows, else the
/// new page.
pub open spec fn spec_insert_row(d: Seq<u8>, row: Seq<u8>) -> Outcome<
    Option<Seq<u8>>,
> {
    let l = row.len() as int;
    let space = space_remaining(d);
    let count = row_count(d);
    if !(space >= l + 4 && count < 255) {
        Outcome::Done(None)
    } else {
        let d1 = d.update(1, (count + 1) as u8);
        let off = rows_size(d1);
        if off + l > PAGE_SIZE {
            Outcome::Panic
        } else {
            let start = PAGE_SIZE - off - l;
            let d2 = splice(d1, start, row);
            let hs = header_size(d2);
            if hs + 4 > PAGE_SIZE {
                Outcome::Panic
            } else {
                let d3 = put16(put16(d2, hs, l), hs + 2, off);
                let d4 = put16(d3, 7, hs + 4);
                let d5 = put16(d4, 2, off + l);
                let space2 = space_remaining(d5);
                if space2 < l + 4 {
                    Outcome::Panic
                } else {
                    Outcome::Done(Some(put16(d5, 4, space2 - l - 4)))
                }
            }
        }
    }
}

/// `insert_row_into_page`, stopping with `Halt::Panic` where the page's
/// header does not allow the row to be stored (the stored rows or the slots
/// would run past the page, or the space remaining is short of what was
/// checked); the page is then left in an unspecified state.
pub fn try_insert_row(page: &mut Page, row_bytes: &[u8], row_len: u64) -> (r: Result<bool, Halt>)
    requires
        row_len == row_bytes@.len(),
    ensures
        match spec_insert_row(old(page).data@, row_bytes@) {
            Outcome::Done(Some(nd)) => r == Ok::<bool, Halt>(true) && final(page).data@ == nd
                && final(page).dirty,
            Outcome::Done(None) => r == Ok::<bool, Halt>(false) && final(page).data@ == old(
                page,
            ).data@ && final(page).dirty == old(page).dirty,
            Outcome::Panic => r matches Err(Halt::Panic),
            Outcome::Error(_) => false,
        },
        final(page).id == old(page).id,
        final(page).pin_count == old(page).pin_count,
        final(page).last_used == old(page).last_used,
{
    let space_remaining = read16(&page.data, 4);
    let row_count = page.data[1];
    if row_len <= 0xffff && space_remaining as u64 >= row_len + PAGE_HEADER_SLOT_SIZE_FOR_ROW
        && row_count < 255 {
        page.dirty = true;
        page.data[1] = row_count + 1;
        let current_offset = read16(&page.data, 2);
        if current_offset as u64 + row_len > PAGE_SIZE as u64 {
            return Err(Halt::Panic);
        }
        let start_new_data: usize = PAGE_SIZE - current_offset as usize - row_len as usize;
        write_bytes(&mut page.data, start_new_data, row_bytes);
        let current_header_size = read16(&page.data, 7);
        if current_header_size as usize + 4 > PAGE_SIZE {
            return Err(Halt::Panic);
        }
        let slot_start = current_header_size as usize;
        write16(&mut page.data, slot_start, row_len as u16);
        write16(&mut page.data, slot_start + 2, current_offset);
        let new_header_size = current_header_size + PAGE_HEADER_SLOT_SIZE_FOR_ROW as u16;
        write16(&mut page.data, 7, new_header_size);
        let new_offset = current_offset + row_len as u16;
        write16(&mut page.data, 2, new_offset);
        let current_space_remaining = read16(&page.data, 4);
        if (current_space_remaining as u64) < row_len + PAGE_HEADER_SLOT_SIZE_FOR_ROW {
            return Err(Halt::Panic);
        }
        let new_space_remaining = current_space_remaining - row_len as u16
            - PAGE_HEADER_SLOT_SIZE_FOR_ROW as u16;
        write16(&mut page.data, 4, new_space_remaining);
        return Ok(true);
    }
    Ok(false)
}

/// Stores `row_bytes` on `page` when it has room for the row and its slot;
/// says whether it did.
pub fn insert_row_into_page(page: &mut Page, row_bytes: &[u8], row_len: u64) -> (r: bool)
    requires
        row_len == row_bytes@.len(),
        !(spec_insert_row(old(page).data@, row_bytes@) is Panic),
    ensures
        match spec_insert_row(old(page).data@, row_bytes@) {
            Outcome::Done(Some(nd)) => r && final(page).data@ == nd
                && final(page).dirty,
            _ => !r && final(page).data@ == old(page).data@ && final(page).dirty == old(
                page,
            ).dirty,
        },
        final(page).id == old(page).id,
        final(page).pin_count == old(page).pin_count,
        final(page).last_used == old(page).last_used,
{
    match try_insert_row(page, row_bytes, row_len) {
        Ok(b) => b,
        Err(_) => false,
    }
}

/// `d` with the bytes `a..b-4` moved down from `a+4..b` (`copy_within`).
pub open spec fn shift_down(d: Seq<u8>, a: int, b: int) -> Seq<u8> {
    Seq::new(d.len(), |k: int| if a <= k < b - 4 { d[k + 4] } else { d[k] })
}

/// `d` with the bytes `a..b` set to zero.
pub open spec fn zero_range(d: Seq<u8>, a: int, b: int) -> Seq<u8> {
    Seq::new(d.len(), |k: int| if a <= k < b { 0u8 } else { d[k] })
}

/// The page `d` after the slot `idx`, of a row of `len` bytes, is removed:
/// one row less, the freed space grown by `len`, the later slots moved down
/// over it and the last four slot bytes cleared, the header four bytes
/// shorter and the space remaining four bytes larger. The row's bytes stay.
pub open spec fn spec_delete_row(d: Seq<u8>, idx: u8, len: u16) -> Outcome<Seq<u8>> {
    let count = row_count(d);
    if count == 0 {
        Outcome::Panic
    } else {
        let d1 = d.update(1, (count - 1) as u8);
        let freed = freed_space(d1);
        if freed + len > 0xffff {
            Outcome::Panic
        } else {
            let d2 = put16(d1, 9, freed + len);
            let hs = header_size(d2);
            let slot_start = 11 + 4 * idx;
            if hs < 4 || hs > PAGE_SIZE {
                Outcome::Panic
            } else {
                let d3 = if slot_start + 4 < hs {
                    shift_down(d2, slot_start, hs)
                } else {
                    d2
                };
                let d4 = zero_range(d3, hs - 4, hs);
                let d5 = put16(d4, 7, hs - 4);
                let space = space_remaining(d5);
                if space + 4 > 0xffff {
                    Outcome::Panic
                } else {
                    Outcome::Done(put16(d5, 4, space + 4))
                }
            }
        }
    }
}

/// `delete_row`, stopping with `Halt::Panic` where the page's header does
/// not allow the slot to be removed (no rows, the freed-space or space
/// counter would overflow, or the header size is out of range).
pub fn delete_row_checked(page_data: &mut [u8; PAGE_SIZE], row_index: u8, row_length: u16) -> (r:
    Result<(), Halt>)
    ensures
        match spec_delete_row(old(page_data)@, row_index, row_length) {
            Outcome::Done(nd) => r is Ok && final(page_data)@ == nd,
            _ => r matches Err(Halt::Panic),
        },
{
    if page_data[1] == 0 {
        return Err(Halt::Panic);
    }
    page_data[1] = page_data[1] - 1;
    let current_freed = read16(page_data, 9);
    if current_freed as u32 + row_length as u32 > 0xffff {
        return Err(Halt::Panic);
    }
    let new_freed = current_freed + row_length;
    write16(page_data, 9, new_freed);
    let current_header_size = read16(page_data, 7);
    let slot_start = 11 + (row_index as usize) * 4;
    let slots_end = current_header_size as usize;
    if slots_end < 4 || slots_end > PAGE_SIZE {
        return Err(Halt::Panic);
    }
    let ghost d2 = page_data@;
    if slot_start + 4 < slots_end {
        let mut k: usize = slot_start;
        while k < slots_end - 4
            invariant
                slot_start <= k <= slots_end - 4,
                slots_end <= 4096,
                page_data@.len() == 4096,
                d2.len() == 4096,
                forall|j: int|
                    0 <= j < 4096 ==> page_data@[j] == if slot_start <= j < k {
                        d2[j + 4]
                    } else {
                        d2[j]
                    },
            decreases slots_end - 4 - k,
        {
            page_data[k] = page_data[k + 4];
            k += 1;
        }
        assert(page_data@ =~= shift_down(d2, slot_start as int, slots_end as int));
    }
    let ghost d3 = page_data@;
    let new_slots_end = slots_end - 4;
    let mut k: usize = new_slots_end;
    while k < slots_end
        invariant
            new_slots_end <= k <= slots_end,
            new_slots_end == slots_end - 4,
            slots_end <= 4096,
            page_data@.len() == 4096,
            d3.len() == 4096,
            forall|j: int|
                0 <= j < 4096 ==> page_data@[j] == if new_slots_end <= j < k {
                    0u8
                } else {
                    d3[j]
                },
        decreases slots_end - k,
    {
        page_data[k] = 0;
        k += 1;
    }
    assert(page_data@ =~= zero_range(d3, new_slots_end as int, slots_end as int));
    let new_header_size = current_header_size - PAGE_HEADER_SLOT_SIZE_FOR_ROW as u16;
    write16(page_data, 7, new_header_size);
    let current_space = read16(page_data, 4);
    if current_space as u32 + 4 > 0xffff {
        return Err(Halt::Panic);
    }
    let new_space = current_space + PAGE_HEADER_SLOT_SIZE_FOR_ROW as u16;
    write16(page_data, 4, new_space);
    Ok(())
}

/// Removes the slot `row_index` of a page whose row has `row_length` bytes.
pub fn delete_row(page_data: &mut [u8; PAGE_SIZE], row_index: u8, row_length: u16) -> (r: Result<
    (),
    String,
>)
    requires
        spec_delete_row(old(page_data)@, row_index, row_length) is Done,
    ensures
        r is Ok,
        spec_delete_row(old(page_data)@, row_index, row_length) == Outcome::Done(final(page_data)@),
{
    match delete_row_checked(page_data, row_index, row_length) {
        Ok(()) => Ok(()),
        Err(_) => Err(String::new()),
    }
}

} // verus!
