//! The pages a buffer pool holds in memory, found by table name and page
//! number, with a clock that stamps each page when it is used.
use vstd::prelude::*;
use crate::structs::Page;
use crate::text::str_eq;

verus! {

/// A page held in memory, with the table it belongs to.
pub struct CachedPage {
    pub table: String,
    pub page: Page,
}

/// The pages held in memory and the use clock.
pub struct PageCache {
    pub entries: Vec<CachedPage>,
    pub clock: u64,
}

/// The (table, page number) key of each held page, in order.
pub open spec fn cache_keys(entries: Seq<CachedPage>) -> Seq<(Seq<char>, u64)> {
    entries.map_values(|e: CachedPage| (e.table@, e.page.id))
}

/// The first place at or after `i` that holds the page `id` of `table`.
pub open spec fn find_from(keys: Seq<(Seq<char>, u64)>, table: Seq<char>, id: u64, i: int) -> Option<
    int,
>
    decreases keys.len() - i,
{
    if i < 0 || i >= keys.len() {
        None
    } else if keys[i] == (table, id) {
        Some(i)
    } else {
        find_from(keys, table, id, i + 1)
    }
}

/// A place found is a place of the cache.
pub proof fn lemma_find_from_range(keys: Seq<(Seq<char>, u64)>, table: Seq<char>, id: u64, i: int)
    ensures
        find_from(keys, table, id, i) matches Some(k) ==> 0 <= k < keys.len() && keys[k] == (table, id),
    decreases keys.len() - i,
{
    if 0 <= i < keys.len() && keys[i] != (table, id) {
        lemma_find_from_range(keys, table, id, i + 1);
    }
}

/// When no place is found, no place at or after `i` holds the key.
pub proof fn lemma_find_from_none(keys: Seq<(Seq<char>, u64)>, table: Seq<char>, id: u64, i: int)
    requires
        0 <= i,
    ensures
        find_from(keys, table, id, i) is None ==> forall|k: int| i <= k < keys.len() ==> keys[k] != (
            table,
            id,
        ),
    decreases keys.len() - i,
{
    if i < keys.len() && keys[i] != (table, id) {
        lemma_find_from_none(keys, table, id, i + 1);
    }
}

pub open spec fn msg_not_cached() -> Seq<char> {
    "ERR: page not found in buffer or on disk"@
}

/// No two held pages have the same (table, page number) key.
pub open spec fn keys_unique(entries: Seq<CachedPage>) -> bool {
    forall|i: int, j: int|
        0 <= i < j < entries.len() ==> #[trigger] cache_keys(entries)[i] != #[trigger] cache_keys(
            entries,
        )[j]
}

/// The same pages, but for the use stamp of the one at `i`.
pub open spec fn stamped(old_e: Seq<CachedPage>, new_e: Seq<CachedPage>, i: int, stamp: u64) -> bool {
    &&& new_e.len() == old_e.len()
    &&& forall|j: int| 0 <= j < old_e.len() && j != i ==> #[trigger] new_e[j] == old_e[j]
    &&& new_e[i].table == old_e[i].table
    &&& new_e[i].page.id == old_e[i].page.id
    &&& new_e[i].page.data == old_e[i].page.data
    &&& new_e[i].page.dirty == old_e[i].page.dirty
    &&& new_e[i].page.pin_count == old_e[i].page.pin_count
    &&& new_e[i].page.last_used == stamp
}

impl PageCache {
    /// No pages held, the clock at zero.
    pub fn new() -> (r: PageCache)
        ensures
            r.entries@.len() == 0,
            keys_unique(r.entries@),
            r.clock == 0,
    {
        PageCache { entries: Vec::new(), clock: 0 }
    }

    /// Where the page `page_id` of `table` is held, if it is.
    pub fn find(&self, table: &str, page_id: u64) -> (r: Option<usize>)
        ensures
            match find_from(cache_keys(self.entries@), table@, page_id, 0) {
                Some(i) => r == Some(i as usize),
                None => r is None,
            },
    {
        let ghost keys = cache_keys(self.entries@);
        let n = self.entries.len();
        let mut i: usize = 0;
        while i < n
            invariant
                n == self.entries@.len(),
                keys == cache_keys(self.entries@),
                i <= n,
                find_from(keys, table@, page_id, 0) == find_from(keys, table@, page_id, i as int),
            decreases n - i,
        {
            let e = &self.entries[i];
            assert(keys[i as int] == (e.table@, e.page.id));
            if e.page.id == page_id && str_eq(e.table.as_str(), table) {
                return Some(i);
            }
            i += 1;
        }
        None
    }

    /// Uses the page `page_id` of `table`: the clock advances, and the page,
    /// when held, is stamped with it and its place returned; otherwise the
    /// error says it is not held.
    pub fn touch(&mut self, table: &str, page_id: u64) -> (r: Result<usize, String>)
        requires
            old(self).clock < u64::MAX,
        ensures
            final(self).clock == old(self).clock + 1,
            keys_unique(old(self).entries@) ==> keys_unique(final(self).entries@),
            match find_from(cache_keys(old(self).entries@), table@, page_id, 0) {
                Some(i) => r == Ok::<usize, String>(i as usize) && stamped(
                    old(self).entries@,
                    final(self).entries@,
                    i,
                    final(self).clock,
                ),
                None => r matches Err(e) && e@ == msg_not_cached() && final(self).entries@ == old(
                    self,
                ).entries@,
            },
    {
        proof {
            lemma_find_from_range(cache_keys(self.entries@), table@, page_id, 0);
        }
        self.clock = self.clock + 1;
        match self.find(table, page_id) {
            None => Err("ERR: page not found in buffer or on disk".to_owned()),
            Some(i) => {
                let stamp = self.clock;
                let ghost before = self.entries@;
                let mut e = self.entries.remove(i);
                e.page.last_used = stamp;
                self.entries.insert(i, e);
                assert(self.entries@ =~= before.update(i as int, self.entries@[i as int]));
                assert(cache_keys(self.entries@) =~= cache_keys(before));
                Ok(i)
            },
        }
    }

    /// Holds `page` for `table`: in place of the page with the same table
    /// and page number when one is held, else after the pages already held.
    /// Keys stay unique.
    pub fn add(&mut self, table: &str, page: Page) -> (r: usize)
        ensures
            final(self).clock == old(self).clock,
            match find_from(cache_keys(old(self).entries@), table@, page.id, 0) {
                Some(i) => r == i && final(self).entries@ == old(self).entries@.update(
                    i,
                    final(self).entries@[i],
                ),
                None => r == old(self).entries@.len() && final(self).entries@.len() == old(
                    self,
                ).entries@.len() + 1 && final(self).entries@.take(r as int) == old(self).entries@,
            },
            r < final(self).entries@.len(),
            final(self).entries@[r as int].table@ == table@,
            final(self).entries@[r as int].page == page,
            keys_unique(old(self).entries@) ==> keys_unique(final(self).entries@),
    {
        proof {
            lemma_find_from_range(cache_keys(self.entries@), table@, page.id, 0);
            lemma_find_from_none(cache_keys(self.entries@), table@, page.id, 0);
        }
        let ghost before = self.entries@;
        match self.find(table, page.id) {
            Some(i) => {
                let _ = self.entries.remove(i);
                self.entries.insert(i, CachedPage { table: table.to_owned(), page });
                assert(self.entries@ =~= before.update(i as int, self.entries@[i as int]));
                assert(cache_keys(self.entries@) =~= cache_keys(before));
                i
            },
            None => {
                let r = self.entries.len();
                self.entries.push(CachedPage { table: table.to_owned(), page });
                assert(self.entries@.take(r as int) =~= before);
                assert(cache_keys(self.entries@) =~= cache_keys(before).push((table@, page.id)));
                r
            },
        }
    }
}

} // verus!
