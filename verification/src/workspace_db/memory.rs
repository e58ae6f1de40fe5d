//! The memory that the agents of a workspace share: values under keys, each
//! with a version by which a writer can tell that it was not the last.

use super::{lemma_filter_step, Database};
use crate::order::{text_before, text_le, text_le_total, text_le_transitive};
use crate::text::{cat, has_prefix, opt_str, own, same};
use vstd::prelude::*;
use vstd::string::*;

verus! {

/// Outcome of a write that names the version it expects. On a conflict the
/// writer learns the current version, so that it can try again.
#[derive(Clone, Copy, Debug, PartialEq, Eq, Structural)]
pub enum MemoryWriteOutcome {
    Written { version: u64 },
    /// The current version is another; 0 where there is no entry.
    Conflict { current_version: u64 },
}

/// A value under a key of a workspace.
#[derive(Debug)]
pub struct MemoryRow {
    pub workspace_id: String,
    pub key: String,
    pub value: Vec<u8>,
    pub version: u64,
    pub updated_at: i64,
    pub updated_by: String,
}

/// What an entry holds.
#[verifier::ext_equal]
pub ghost struct EntryView {
    pub value: Seq<u8>,
    pub version: u64,
    pub updated_at: i64,
    pub updated_by: Seq<char>,
}

impl MemoryRow {
    /// What the row holds.
    pub open spec fn entry(self) -> EntryView {
        EntryView {
            value: self.value@,
            version: self.version,
            updated_at: self.updated_at,
            updated_by: self.updated_by@,
        }
    }

    /// Whether the row is that of a key of a workspace.
    pub open spec fn is_at(self, ws: Seq<char>, key: Seq<char>) -> bool {
        self.workspace_id@ == ws && self.key@ == key
    }
}

/// What is stored under a key of a workspace.
pub open spec fn stored(rows: Seq<MemoryRow>, ws: Seq<char>, key: Seq<char>) -> Option<EntryView>
    decreases rows.len(),
{
    if rows.len() == 0 {
        None
    } else if rows.last().is_at(ws, key) {
        Some(rows.last().entry())
    } else {
        stored(rows.drop_last(), ws, key)
    }
}

/// The version of an entry, 0 where there is none.
pub open spec fn version_at(rows: Seq<MemoryRow>, ws: Seq<char>, key: Seq<char>) -> u64 {
    match stored(rows, ws, key) {
        Some(e) => e.version,
        None => 0,
    }
}

/// Whether the rows after a change differ from those before it in one entry,
/// which is now `e`.
pub open spec fn changed(
    before: Seq<MemoryRow>,
    after: Seq<MemoryRow>,
    ws: Seq<char>,
    key: Seq<char>,
    e: Option<EntryView>,
) -> bool {
    forall|w: Seq<char>, k: Seq<char>| #[trigger]
        stored(after, w, k) == (if w == ws && k == key {
            e
        } else {
            stored(before, w, k)
        })
}

/// The size of an entry, 0 where there is none.
pub open spec fn size_at(rows: Seq<MemoryRow>, ws: Seq<char>, key: Seq<char>) -> nat {
    match stored(rows, ws, key) {
        Some(e) => e.value.len(),
        None => 0,
    }
}

/// The size of all values of a workspace.
pub open spec fn total_size(rows: Seq<MemoryRow>, ws: Seq<char>) -> nat
    decreases rows.len(),
{
    if rows.len() == 0 {
        0
    } else {
        total_size(rows.drop_last(), ws) + (if rows.last().workspace_id@ == ws {
            rows.last().value@.len()
        } else {
            0
        })
    }
}

/// Whether no key of a workspace is stored twice, and every version is at
/// least 1.
pub open spec fn memory_wf(rows: Seq<MemoryRow>) -> bool {
    &&& forall|i: int, j: int|
        0 <= i < j < rows.len() ==> !(#[trigger] rows[i]).is_at(
            (#[trigger] rows[j]).workspace_id@,
            rows[j].key@,
        )
    &&& forall|i: int| 0 <= i < rows.len() ==> 1 <= (#[trigger] rows[i]).version <= i64::MAX
}

proof fn lemma_stored_at(rows: Seq<MemoryRow>, i: int, ws: Seq<char>, key: Seq<char>)
    requires
        memory_wf(rows),
        0 <= i < rows.len(),
        rows[i].is_at(ws, key),
    ensures
        stored(rows, ws, key) == Some(rows[i].entry()),
    decreases rows.len(),
{
    if i < rows.len() - 1 {
        let last = rows.len() - 1;
        assert(!rows[i].is_at(rows[last].workspace_id@, rows[last].key@));
        lemma_stored_at(rows.drop_last(), i, ws, key);
    }
}

proof fn lemma_not_stored(rows: Seq<MemoryRow>, ws: Seq<char>, key: Seq<char>)
    requires
        forall|i: int| 0 <= i < rows.len() ==> !(#[trigger] rows[i]).is_at(ws, key),
    ensures
        stored(rows, ws, key) is None,
    decreases rows.len(),
{
    if rows.len() > 0 {
        assert(rows.last() == rows[rows.len() - 1]);
        lemma_not_stored(rows.drop_last(), ws, key);
    }
}

proof fn lemma_stored_somewhere(rows: Seq<MemoryRow>, ws: Seq<char>, key: Seq<char>) -> (i: int)
    requires
        stored(rows, ws, key) is Some,
    ensures
        0 <= i < rows.len(),
        rows[i].is_at(ws, key),
        stored(rows, ws, key) == Some(rows[i].entry()),
    decreases rows.len(),
{
    if rows.last().is_at(ws, key) {
        rows.len() - 1
    } else {
        lemma_stored_somewhere(rows.drop_last(), ws, key)
    }
}

/// Replacing the row of a key changes what is stored under that key alone.
proof fn lemma_stored_update(
    rows: Seq<MemoryRow>,
    i: int,
    row: MemoryRow,
    ws: Seq<char>,
    key: Seq<char>,
)
    requires
        memory_wf(rows),
        0 <= i < rows.len(),
        rows[i].is_at(row.workspace_id@, row.key@),
    ensures
        stored(rows.update(i, row), ws, key) == (if row.is_at(ws, key) {
            Some(row.entry())
        } else {
            stored(rows, ws, key)
        }),
    decreases rows.len(),
{
    let after = rows.update(i, row);
    let last = rows.len() - 1;
    if i == last {
        assert(after.drop_last() =~= rows.drop_last());
    } else {
        assert(after.drop_last() =~= rows.drop_last().update(i, row));
        assert(!rows[i].is_at(rows[last].workspace_id@, rows[last].key@));
        lemma_stored_update(rows.drop_last(), i, row, ws, key);
    }
}

proof fn lemma_stored_push(rows: Seq<MemoryRow>, row: MemoryRow, ws: Seq<char>, key: Seq<char>)
    ensures
        stored(rows.push(row), ws, key) == (if row.is_at(ws, key) {
            Some(row.entry())
        } else {
            stored(rows, ws, key)
        }),
{
    assert(rows.push(row).drop_last() =~= rows);
}

/// Removing the row of a key changes what is stored under that key alone.
proof fn lemma_stored_remove(rows: Seq<MemoryRow>, i: int, ws: Seq<char>, key: Seq<char>)
    requires
        memory_wf(rows),
        0 <= i < rows.len(),
    ensures
        stored(rows.remove(i), ws, key) == (if rows[i].is_at(ws, key) {
            None
        } else {
            stored(rows, ws, key)
        }),
    decreases rows.len(),
{
    let last = rows.len() - 1;
    if i == last {
        assert(rows.remove(i) =~= rows.drop_last());
        if rows[i].is_at(ws, key) {
            assert forall|j: int| 0 <= j < last implies !(#[trigger] rows.drop_last()[j]).is_at(
                ws,
                key,
            ) by {
                assert(!rows[j].is_at(rows[last].workspace_id@, rows[last].key@));
            }
            lemma_not_stored(rows.drop_last(), ws, key);
        }
    } else {
        assert(rows.remove(i).drop_last() =~= rows.drop_last().remove(i));
        assert(rows.remove(i).last() == rows.last());
        assert(!rows[i].is_at(rows[last].workspace_id@, rows[last].key@));
        lemma_stored_remove(rows.drop_last(), i, ws, key);
    }
}

proof fn lemma_total_update(rows: Seq<MemoryRow>, i: int, row: MemoryRow, ws: Seq<char>)
    requires
        0 <= i < rows.len(),
        rows[i].workspace_id@ == row.workspace_id@,
    ensures
        total_size(rows.update(i, row), ws) + (if row.workspace_id@ == ws {
            rows[i].value@.len()
        } else {
            0
        }) == total_size(rows, ws) + (if row.workspace_id@ == ws {
            row.value@.len()
        } else {
            0
        }),
    decreases rows.len(),
{
    if i == rows.len() - 1 {
        assert(rows.update(i, row).drop_last() =~= rows.drop_last());
    } else {
        assert(rows.update(i, row).drop_last() =~= rows.drop_last().update(i, row));
        lemma_total_update(rows.drop_last(), i, row, ws);
    }
}

proof fn lemma_total_push(rows: Seq<MemoryRow>, row: MemoryRow, ws: Seq<char>)
    ensures
        total_size(rows.push(row), ws) == total_size(rows, ws) + (if row.workspace_id@ == ws {
            row.value@.len()
        } else {
            0
        }),
{
    assert(rows.push(row).drop_last() =~= rows);
}

/// Whether a key lies under a prefix: it is the prefix, or goes on after it
/// with a slash.
pub open spec fn under_prefix(key: Seq<char>, prefix: Option<Seq<char>>) -> bool {
    match prefix {
        None => true,
        Some(p) => key == p || (p + "/"@).is_prefix_of(key),
    }
}

/// What a listing says of an entry.
#[derive(Debug)]
pub struct MemoryListItem {
    pub key: String,
    pub version: u64,
    pub updated_at: i64,
    pub value_size: usize,
}

/// Whether a listing says of an entry what is stored.
pub open spec fn lists(item: MemoryListItem, rows: Seq<MemoryRow>, ws: Seq<char>) -> bool {
    match stored(rows, ws, item.key@) {
        Some(e) => e.version == item.version && e.updated_at == item.updated_at && e.value.len()
            == item.value_size,
        None => false,
    }
}

/// Whether a listing is in the order of its keys, none of them twice.
pub open spec fn in_key_order(items: Seq<MemoryListItem>) -> bool {
    forall|i: int, j: int|
        0 <= i < j < items.len() ==> text_le(
            (#[trigger] items[i]).key@,
            (#[trigger] items[j]).key@,
        ) && items[i].key@ != items[j].key@
}

/// Puts an item where it belongs.
fn insert_item(items: &mut Vec<MemoryListItem>, item: MemoryListItem)
    requires
        in_key_order(old(items)@),
        forall|i: int|
            0 <= i < old(items)@.len() ==> (#[trigger] old(items)@[i]).key@ != item.key@,
    ensures
        in_key_order(final(items)@),
        exists|k: int|
            0 <= k <= old(items)@.len() && final(items)@ == #[trigger] old(items)@.insert(k, item),
{
    let ghost before = items@;
    let mut k: usize = 0;
    while k < items.len() && text_before(items[k].key.as_str(), item.key.as_str())
        invariant
            items@ == before,
            k <= before.len(),
            forall|i: int| 0 <= i < k ==> text_le((#[trigger] before[i]).key@, item.key@),
        decreases before.len() - k,
    {
        k = k + 1;
    }
    proof {
        assert forall|i: int| k <= i < before.len() implies text_le(
            item.key@,
            (#[trigger] before[i]).key@,
        ) by {
            text_le_total(item.key@, before[k as int].key@);
            if i > k {
                text_le_transitive(item.key@, before[k as int].key@, before[i].key@);
            }
        }
    }
    let ghost x = item;
    items.insert(k, item);
    proof {
        let after = items@;
        assert(after =~= before.insert(k as int, x));
        assert forall|i: int, j: int| 0 <= i < j < after.len() implies text_le(
            (#[trigger] after[i]).key@,
            (#[trigger] after[j]).key@,
        ) && after[i].key@ != after[j].key@ by {
            if j < k {
                assert(after[i] == before[i] && after[j] == before[j]);
            } else if j == k {
                assert(after[i] == before[i]);
            } else if i < k {
                assert(after[i] == before[i] && after[j] == before[j - 1]);
            } else if i == k {
                assert(after[j] == before[j - 1]);
            } else {
                assert(after[i] == before[i - 1] && after[j] == before[j - 1]);
            }
        }
    }
}

/// Whether a row is not of a workspace.
pub open spec fn not_of(ws: Seq<char>) -> spec_fn(MemoryRow) -> bool {
    |r: MemoryRow| r.workspace_id@ != ws
}

/// The entries but for one workspace's.
pub open spec fn memory_but(rows: Seq<MemoryRow>, ws: Seq<char>) -> Seq<MemoryRow> {
    rows.filter(not_of(ws))
}

/// Removing a workspace's rows removes its entries and no others.
pub(crate) proof fn lemma_memory_but(rows: Seq<MemoryRow>, gone: Seq<char>, ws: Seq<char>, key: Seq<char>)
    ensures
        stored(memory_but(rows, gone), ws, key) == (if ws == gone {
            None
        } else {
            stored(rows, ws, key)
        }),
    decreases rows.len(),
{
    reveal(Seq::filter);
    if rows.len() > 0 {
        lemma_memory_but(rows.drop_last(), gone, ws, key);
        let kept = memory_but(rows.drop_last(), gone);
        assert(kept.push(rows.last()).drop_last() =~= kept);
    }
}

proof fn lemma_memory_but_wf(rows: Seq<MemoryRow>, ws: Seq<char>)
    requires
        memory_wf(rows),
    ensures
        memory_wf(memory_but(rows, ws)),
    decreases rows.len(),
{
    reveal(Seq::filter);
    if rows.len() > 0 {
        let init = rows.drop_last();
        let last = rows.len() - 1;
        lemma_memory_but_wf(init, ws);
        let kept = memory_but(init, ws);
        assert forall|i: int| 0 <= i < kept.len() implies exists|j: int|
            0 <= j < last && #[trigger] rows[j] == #[trigger] kept[i] by {
            assert(kept.contains(kept[i]));
            init.lemma_filter_contains_rev(not_of(ws), kept[i]);
            let j = init.index_of(kept[i]);
            assert(rows[j] == kept[i]);
        }
        assert(rows.last() == rows[last]);
    }
}

/// Removes the rows of a workspace.
pub(crate) fn drop_memory(rows: &mut Vec<MemoryRow>, ws: &str)
    ensures
        final(rows)@ == memory_but(old(rows)@, ws@),
        memory_wf(old(rows)@) ==> memory_wf(final(rows)@),
{
    let ghost before = rows@;
    let ghost keep = not_of(ws@);
    let ghost mut k: int = 0;
    let mut i: usize = 0;
    proof {
        reveal(Seq::filter);
        assert(before.take(0) =~= Seq::<MemoryRow>::empty());
        assert(before.take(0).filter(keep) + before.skip(0) =~= before);
    }
    while i < rows.len()
        invariant
            keep == not_of(ws@),
            0 <= k <= before.len(),
            i == before.take(k).filter(keep).len(),
            rows@ == before.take(k).filter(keep) + before.skip(k),
        decreases rows.len() - i,
    {
        proof {
            lemma_filter_step(before, keep, k);
            assert(rows@[i as int] == before[k]);
        }
        if same(rows[i].workspace_id.as_str(), ws) {
            rows.remove(i);
        } else {
            i = i + 1;
        }
        proof {
            k = k + 1;
            assert(rows@ =~= before.take(k).filter(keep) + before.skip(k));
        }
    }
    proof {
        assert(before.take(k) =~= before);
        assert(rows@ =~= before.filter(keep));
        if memory_wf(before) {
            lemma_memory_but_wf(before, ws@);
        }
    }
}

impl Database {
    /// Whether the memory holds together.
    pub open spec fn memory_holds(self) -> bool {
        memory_wf(self.memory@)
    }

    /// Whether two databases differ at most in their memory.
    pub open spec fn same_but_memory(self, other: Database) -> bool {
        &&& self.workspaces == other.workspaces
        &&& self.agents == other.agents
        &&& self.assignments == other.assignments
        &&& self.federations == other.federations
        &&& self.outbox == other.outbox
        &&& self.inbox == other.inbox
        &&& self.counters == other.counters
    }

    fn find_memory(&self, ws: &str, key: &str) -> (r: Option<usize>)
        requires
            self.memory_holds(),
        ensures
            match r {
                Some(i) => i < self.memory@.len() && self.memory@[i as int].is_at(ws@, key@)
                    && stored(self.memory@, ws@, key@) == Some(self.memory@[i as int].entry()),
                None => stored(self.memory@, ws@, key@) is None && forall|i: int|
                    0 <= i < self.memory@.len() ==> !(#[trigger] self.memory@[i]).is_at(ws@, key@),
            },
    {
        let mut i: usize = 0;
        while i < self.memory.len()
            invariant
                self.memory_holds(),
                i <= self.memory@.len(),
                forall|j: int| 0 <= j < i ==> !(#[trigger] self.memory@[j]).is_at(ws@, key@),
            decreases self.memory@.len() - i,
        {
            let row = &self.memory[i];
            if same(row.workspace_id.as_str(), ws) && same(row.key.as_str(), key) {
                proof {
                    lemma_stored_at(self.memory@, i as int, ws@, key@);
                }
                return Some(i);
            }
            i = i + 1;
        }
        proof {
            lemma_not_stored(self.memory@, ws@, key@);
        }
        None
    }

    /// What is stored under a key: the value and its version.
    pub fn memory_get(&self, ws: &str, key: &str) -> (r: Option<(Vec<u8>, u64)>)
        requires
            self.memory_holds(),
        ensures
            match stored(self.memory@, ws@, key@) {
                Some(e) => r matches Some((value, version)) && value@ == e.value && version
                    == e.version,
                None => r is None,
            },
    {
        match self.find_memory(ws, key) {
            Some(i) => {
                let value = copy_bytes(&self.memory[i].value);
                Some((value, self.memory[i].version))
            },
            None => None,
        }
    }

    /// The version and size of an entry, both 0 where there is none.
    pub fn memory_current_version_and_size(&self, ws: &str, key: &str) -> (r: (u64, usize))
        requires
            self.memory_holds(),
        ensures
            r.0 == version_at(self.memory@, ws@, key@),
            r.1 == size_at(self.memory@, ws@, key@),
    {
        match self.find_memory(ws, key) {
            Some(i) => (self.memory[i].version, self.memory[i].value.len()),
            None => (0, 0),
        }
    }

    /// The size of all values of a workspace.
    pub fn memory_total_size_for_workspace(&self, ws: &str) -> (n: u64)
        requires
            total_size(self.memory@, ws@) <= u64::MAX,
        ensures
            n == total_size(self.memory@, ws@),
    {
        let ghost rows = self.memory@;
        let mut n: u64 = 0;
        for i in 0..self.memory.len()
            invariant
                rows == self.memory@,
                total_size(rows, ws@) <= u64::MAX,
                n == total_size(rows.take(i as int), ws@),
        {
            proof {
                assert(rows.take(i + 1).drop_last() =~= rows.take(i as int));
                assert(rows.take(i + 1).last() == rows[i as int]);
                lemma_total_prefix(rows, i + 1, ws@);
            }
            if same(self.memory[i].workspace_id.as_str(), ws) {
                n = n + self.memory[i].value.len() as u64;
            }
        }
        assert(rows.take(rows.len() as int) =~= rows);
        n
    }

    /// Writes a value, where `expected` is the current version or nothing is
    /// expected. The version goes up by one.
    pub fn memory_put_cas(
        &mut self,
        ws: &str,
        key: &str,
        value: Vec<u8>,
        expected: Option<u64>,
        updated_by: &str,
        now: i64,
    ) -> (r: MemoryWriteOutcome)
        requires
            old(self).memory_holds(),
            version_at(old(self).memory@, ws@, key@) < i64::MAX,
        ensures
            final(self).memory_holds(),
            final(self).same_but_memory(*old(self)),
            ({
                let version = version_at(old(self).memory@, ws@, key@);
                if expected is Some && expected->0 != version {
                    &&& r == MemoryWriteOutcome::Conflict { current_version: version }
                    &&& final(self).memory == old(self).memory
                } else {
                    &&& r == MemoryWriteOutcome::Written { version: (version + 1) as u64 }
                    &&& changed(
                        old(self).memory@,
                        final(self).memory@,
                        ws@,
                        key@,
                        Some(
                            EntryView {
                                value: value@,
                                version: (version + 1) as u64,
                                updated_at: now,
                                updated_by: updated_by@,
                            },
                        ),
                    )
                    &&& total_size(final(self).memory@, ws@) + size_at(
                        old(self).memory@,
                        ws@,
                        key@,
                    ) == total_size(old(self).memory@, ws@) + value@.len()
                }
            }),
    {
        let found = self.find_memory(ws, key);
        let version: u64 = match found {
            Some(i) => self.memory[i].version,
            None => 0,
        };
        if let Some(e) = expected {
            if e != version {
                return MemoryWriteOutcome::Conflict { current_version: version };
            }
        }
        let ghost before = self.memory@;
        let row = MemoryRow {
            workspace_id: own(ws),
            key: own(key),
            value,
            version: version + 1,
            updated_at: now,
            updated_by: own(updated_by),
        };
        let ghost r = row;
        match found {
            Some(i) => {
                self.memory.set(i, row);
                proof {
                    assert(self.memory@ == before.update(i as int, r));
                    assert forall|w: Seq<char>, k: Seq<char>| #[trigger]
                        stored(self.memory@, w, k) == (if w == ws@ && k == key@ {
                            Some(r.entry())
                        } else {
                            stored(before, w, k)
                        }) by {
                        lemma_stored_update(before, i as int, r, w, k);
                    }
                    lemma_total_update(before, i as int, r, ws@);
                    assert forall|a: int, b: int| 0 <= a < b < self.memory@.len() implies !(
                    #[trigger] self.memory@[a]).is_at(
                        (#[trigger] self.memory@[b]).workspace_id@,
                        self.memory@[b].key@,
                    ) by {
                        assert(!before[a].is_at(before[b].workspace_id@, before[b].key@));
                    }
                }
            },
            None => {
                self.memory.push(row);
                proof {
                    assert(self.memory@ == before.push(r));
                    assert forall|w: Seq<char>, k: Seq<char>| #[trigger]
                        stored(self.memory@, w, k) == (if w == ws@ && k == key@ {
                            Some(r.entry())
                        } else {
                            stored(before, w, k)
                        }) by {
                        lemma_stored_push(before, r, w, k);
                    }
                    lemma_total_push(before, r, ws@);
                }
            },
        }
        MemoryWriteOutcome::Written { version: version + 1 }
    }

    /// Removes a value, where `expected` is the current version or nothing is
    /// expected. To remove what is not there changes nothing, and gives
    /// version 0.
    pub fn memory_delete_cas(&mut self, ws: &str, key: &str, expected: Option<u64>) -> (r:
        MemoryWriteOutcome)
        requires
            old(self).memory_holds(),
        ensures
            final(self).memory_holds(),
            final(self).same_but_memory(*old(self)),
            ({
                let version = version_at(old(self).memory@, ws@, key@);
                if version == 0 {
                    &&& r == MemoryWriteOutcome::Written { version: 0 }
                    &&& final(self).memory == old(self).memory
                } else if expected is Some && expected->0 != version {
                    &&& r == MemoryWriteOutcome::Conflict { current_version: version }
                    &&& final(self).memory == old(self).memory
                } else {
                    &&& r == MemoryWriteOutcome::Written { version }
                    &&& changed(old(self).memory@, final(self).memory@, ws@, key@, None)
                }
            }),
    {
        let i: usize = match self.find_memory(ws, key) {
            None => return MemoryWriteOutcome::Written { version: 0 },
            Some(i) => i,
        };
        let version: u64 = self.memory[i].version;
        if let Some(e) = expected {
            if e != version {
                return MemoryWriteOutcome::Conflict { current_version: version };
            }
        }
        let ghost before = self.memory@;
        self.memory.remove(i);
        proof {
            assert(self.memory@ == before.remove(i as int));
            assert forall|w: Seq<char>, k: Seq<char>| #[trigger] stored(self.memory@, w, k) == (
            if w == ws@ && k == key@ {
                None
            } else {
                stored(before, w, k)
            }) by {
                lemma_stored_remove(before, i as int, w, k);
            }
            assert forall|a: int, b: int| 0 <= a < b < self.memory@.len() implies !(
            #[trigger] self.memory@[a]).is_at(
                (#[trigger] self.memory@[b]).workspace_id@,
                self.memory@[b].key@,
            ) by {
                let x = if a < i {
                    a
                } else {
                    a + 1
                };
                let y = if b < i {
                    b
                } else {
                    b + 1
                };
                assert(self.memory@[a] == before[x]);
                assert(self.memory@[b] == before[y]);
                assert(!before[x].is_at(before[y].workspace_id@, before[y].key@));
            }
            assert forall|a: int| 0 <= a < self.memory@.len() implies 1 <= (
            #[trigger] self.memory@[a]).version <= i64::MAX by {
                let x = if a < i {
                    a
                } else {
                    a + 1
                };
                assert(self.memory@[a] == before[x]);
            }
        }
        MemoryWriteOutcome::Written { version }
    }

    /// Copies the entries of a workspace to another, but for the keys that it
    /// has. A copy starts at version 1. Says how many were copied.
    pub fn memory_copy_workspace(&mut self, from: &str, to: &str, now: i64) -> (n: usize)
        requires
            old(self).memory_holds(),
        ensures
            final(self).memory_holds(),
            final(self).same_but_memory(*old(self)),
            n == final(self).memory@.len() - old(self).memory@.len(),
            forall|w: Seq<char>, k: Seq<char>| #[trigger]
                stored(final(self).memory@, w, k) == copied(
                    old(self).memory@,
                    old(self).memory@,
                    from@,
                    to@,
                    now,
                    w,
                    k,
                ),
    {
        let ghost before = self.memory@;
        let total: usize = self.memory.len();
        proof {
            assert forall|w: Seq<char>, k: Seq<char>| #[trigger] stored(before, w, k) == copied(
                before,
                before.take(0),
                from@,
                to@,
                now,
                w,
                k,
            ) by {
                assert(stored(before.take(0), from@, k) is None);
            }
        }
        for i in 0..total
            invariant
                total == before.len(),
                memory_wf(before),
                self.memory_holds(),
                self.same_but_memory(*old(self)),
                total <= self.memory@.len(),
                forall|j: int| 0 <= j < before.len() ==> #[trigger] self.memory@[j] == before[j],
                forall|w: Seq<char>, k: Seq<char>| #[trigger]
                    stored(self.memory@, w, k) == copied(
                        before,
                        before.take(i as int),
                        from@,
                        to@,
                        now,
                        w,
                        k,
                    ),
        {
            let ghost mid = self.memory@;
            let ghost row = before[i as int];
            let ghost key = row.key@;
            assert(before.take(i + 1).drop_last() =~= before.take(i as int));
            assert(before.take(i + 1).last() == row);
            let mut pushed = false;
            if same(self.memory[i].workspace_id.as_str(), from) {
                let key_text = self.memory[i].key.clone();
                if self.find_memory(to, key_text.as_str()).is_none() {
                    let value = copy_bytes(&self.memory[i].value);
                    let updated_by = self.memory[i].updated_by.clone();
                    let new_row = MemoryRow {
                        workspace_id: own(to),
                        key: key_text,
                        value,
                        version: 1,
                        updated_at: now,
                        updated_by,
                    };
                    let ghost nr = new_row;
                    self.memory.push(new_row);
                    pushed = true;
                    proof {
                        assert(self.memory@ == mid.push(nr));
                        lemma_copy_step(before, mid, nr, i as int, from@, to@, now);
                    }
                }
            }
            proof {
                if !pushed {
                    lemma_copy_skip(before, mid, i as int, from@, to@, now);
                }
            }
        }
        assert(before.take(before.len() as int) =~= before);
        self.memory.len() - total
    }

    /// The entries of a workspace under a prefix, in the order of their keys.
    pub fn memory_list_prefix(&self, ws: &str, prefix: Option<&str>) -> (r: Vec<MemoryListItem>)
        requires
            self.memory_holds(),
        ensures
            in_key_order(r@),
            listing(r@, self.memory@, ws@, opt_str(prefix)),
    {
        let ghost rows = self.memory@;
        let mut r: Vec<MemoryListItem> = Vec::new();
        let mut i: usize = 0;
        while i < self.memory.len()
            invariant
                self.memory_holds(),
                rows == self.memory@,
                i <= rows.len(),
                in_key_order(r@),
                listing(r@, rows.take(i as int), ws@, opt_str(prefix)),
            decreases rows.len() - i,
        {
            let row = &self.memory[i];
            let fits = match prefix {
                None => true,
                Some(p) => same(row.key.as_str(), p) || has_prefix(
                    row.key.as_str(),
                    cat(p, "/").as_str(),
                ),
            };
            let ghost before = r@;
            if fits && same(row.workspace_id.as_str(), ws) {
                let item = MemoryListItem {
                    key: row.key.clone(),
                    version: row.version,
                    updated_at: row.updated_at,
                    value_size: row.value.len(),
                };
                proof {
                    lemma_unlisted(before, rows, i as int, ws@, opt_str(prefix));
                }
                let ghost x = item;
                insert_item(&mut r, item);
                proof {
                    let p = choose|p: int|
                        0 <= p <= before.len() && r@ == #[trigger] before.insert(p, x);
                    lemma_listing_insert(before, rows, i as int, x, p, ws@, opt_str(prefix));
                }
            } else {
                proof {
                    lemma_listing_skip(before, rows, i as int, ws@, opt_str(prefix));
                }
            }
            i = i + 1;
        }
        assert(rows.take(rows.len() as int) =~= rows);
        r
    }
}

/// Whether a listing shows exactly the entries of a workspace under a prefix.
pub open spec fn listing(
    items: Seq<MemoryListItem>,
    rows: Seq<MemoryRow>,
    ws: Seq<char>,
    prefix: Option<Seq<char>>,
) -> bool {
    &&& forall|i: int|
        0 <= i < items.len() ==> lists(#[trigger] items[i], rows, ws) && under_prefix(
            items[i].key@,
            prefix,
        )
    &&& forall|k: Seq<char>|
        #![trigger stored(rows, ws, k)]
        stored(rows, ws, k) is Some && under_prefix(k, prefix) ==> exists|i: int|
            0 <= i < items.len() && (#[trigger] items[i]).key@ == k
}

/// The next row's key is not among the rows before it.
proof fn lemma_unlisted(
    items: Seq<MemoryListItem>,
    rows: Seq<MemoryRow>,
    i: int,
    ws: Seq<char>,
    prefix: Option<Seq<char>>,
)
    requires
        memory_wf(rows),
        0 <= i < rows.len(),
        rows[i].workspace_id@ == ws,
        listing(items, rows.take(i), ws, prefix),
    ensures
        stored(rows.take(i), ws, rows[i].key@) is None,
        forall|a: int| 0 <= a < items.len() ==> (#[trigger] items[a]).key@ != rows[i].key@,
{
    let some = rows.take(i);
    assert forall|j: int| 0 <= j < some.len() implies !(#[trigger] some[j]).is_at(
        ws,
        rows[i].key@,
    ) by {
        assert(!rows[j].is_at(rows[i].workspace_id@, rows[i].key@));
    }
    lemma_not_stored(some, ws, rows[i].key@);
    assert forall|a: int| 0 <= a < items.len() implies (#[trigger] items[a]).key@
        != rows[i].key@ by {
        assert(lists(items[a], some, ws));
    }
}

proof fn lemma_listing_insert(
    items: Seq<MemoryListItem>,
    rows: Seq<MemoryRow>,
    i: int,
    item: MemoryListItem,
    p: int,
    ws: Seq<char>,
    prefix: Option<Seq<char>>,
)
    requires
        memory_wf(rows),
        0 <= i < rows.len(),
        rows[i].workspace_id@ == ws,
        under_prefix(rows[i].key@, prefix),
        item.key@ == rows[i].key@,
        item.version == rows[i].version,
        item.updated_at == rows[i].updated_at,
        item.value_size == rows[i].value@.len(),
        0 <= p <= items.len(),
        listing(items, rows.take(i), ws, prefix),
    ensures
        listing(items.insert(p, item), rows.take(i + 1), ws, prefix),
{
    let after = items.insert(p, item);
    let some = rows.take(i);
    let more = rows.take(i + 1);
    assert(more.drop_last() =~= some);
    assert(more.last() == rows[i]);
    lemma_unlisted(items, rows, i, ws, prefix);
    assert forall|a: int| 0 <= a < after.len() implies lists(#[trigger] after[a], more, ws)
        && under_prefix(after[a].key@, prefix) by {
        if a != p {
            let b = if a < p {
                a
            } else {
                a - 1
            };
            assert(after[a] == items[b]);
            assert(lists(items[b], some, ws));
        }
    }
    assert forall|k: Seq<char>|
        #![trigger stored(more, ws, k)]
        stored(more, ws, k) is Some && under_prefix(k, prefix) implies exists|a: int|
        0 <= a < after.len() && (#[trigger] after[a]).key@ == k by {
        if rows[i].is_at(ws, k) {
            assert(after[p].key@ == k);
        } else {
            assert(stored(some, ws, k) is Some);
            let b = choose|b: int| 0 <= b < items.len() && (#[trigger] items[b]).key@ == k;
            let a = if b < p {
                b
            } else {
                b + 1
            };
            assert(after[a] == items[b]);
        }
    }
}

proof fn lemma_listing_skip(
    items: Seq<MemoryListItem>,
    rows: Seq<MemoryRow>,
    i: int,
    ws: Seq<char>,
    prefix: Option<Seq<char>>,
)
    requires
        memory_wf(rows),
        0 <= i < rows.len(),
        rows[i].workspace_id@ != ws || !under_prefix(rows[i].key@, prefix),
        listing(items, rows.take(i), ws, prefix),
    ensures
        listing(items, rows.take(i + 1), ws, prefix),
{
    let some = rows.take(i);
    let more = rows.take(i + 1);
    assert(more.drop_last() =~= some);
    assert(more.last() == rows[i]);
    assert forall|a: int| 0 <= a < items.len() implies lists(#[trigger] items[a], more, ws)
        && under_prefix(items[a].key@, prefix) by {
        assert(lists(items[a], some, ws));
    }
    assert forall|k: Seq<char>|
        #![trigger stored(more, ws, k)]
        stored(more, ws, k) is Some && under_prefix(k, prefix) implies exists|a: int|
        0 <= a < items.len() && (#[trigger] items[a]).key@ == k by {
        assert(stored(some, ws, k) is Some);
    }
}

fn copy_bytes(v: &Vec<u8>) -> (r: Vec<u8>)
    ensures
        r@ == v@,
{
    let mut r: Vec<u8> = Vec::new();
    for i in 0..v.len()
        invariant
            r@ == v@.take(i as int),
    {
        r.push(v[i]);
        assert(v@.take(i + 1) =~= v@.take(i as int).push(v@[i as int]));
    }
    assert(v@.take(v@.len() as int) =~= v@);
    r
}

proof fn lemma_total_prefix(rows: Seq<MemoryRow>, n: int, ws: Seq<char>)
    requires
        0 <= n <= rows.len(),
    ensures
        total_size(rows.take(n), ws) <= total_size(rows, ws),
    decreases rows.len() - n,
{
    if n == rows.len() {
        assert(rows.take(n) =~= rows);
    } else {
        assert(rows.take(n + 1).drop_last() =~= rows.take(n));
        lemma_total_prefix(rows, n + 1, ws);
    }
}

/// What is stored after `some` of the rows were copied from one workspace to
/// another.
pub open spec fn copied(
    rows: Seq<MemoryRow>,
    some: Seq<MemoryRow>,
    from: Seq<char>,
    to: Seq<char>,
    now: i64,
    w: Seq<char>,
    k: Seq<char>,
) -> Option<EntryView> {
    if w == to && stored(rows, to, k) is None && stored(some, from, k) is Some {
        Some(EntryView { version: 1, updated_at: now, ..stored(some, from, k)->0 })
    } else {
        stored(rows, w, k)
    }
}

proof fn lemma_copy_step(
    before: Seq<MemoryRow>,
    mid: Seq<MemoryRow>,
    new_row: MemoryRow,
    i: int,
    from: Seq<char>,
    to: Seq<char>,
    now: i64,
)
    requires
        0 <= i < before.len(),
        memory_wf(before),
        before[i].workspace_id@ == from,
        new_row.is_at(to, before[i].key@),
        new_row.entry() == (EntryView { version: 1, updated_at: now, ..before[i].entry() }),
        stored(mid, to, before[i].key@) is None,
        forall|w: Seq<char>, k: Seq<char>| #[trigger]
            stored(mid, w, k) == copied(before, before.take(i), from, to, now, w, k),
    ensures
        forall|w: Seq<char>, k: Seq<char>| #[trigger]
            stored(mid.push(new_row), w, k) == copied(
                before,
                before.take(i + 1),
                from,
                to,
                now,
                w,
                k,
            ),
{
    let row = before[i];
    assert(before.take(i + 1).drop_last() =~= before.take(i));
    assert(before.take(i + 1).last() == row);
    assert forall|w: Seq<char>, k: Seq<char>| #[trigger]
        stored(mid.push(new_row), w, k) == copied(
            before,
            before.take(i + 1),
            from,
            to,
            now,
            w,
            k,
        ) by {
        lemma_stored_push(mid, new_row, w, k);
        assert(stored(mid, w, k) == copied(before, before.take(i), from, to, now, w, k));
        assert(stored(mid, to, row.key@) == copied(
            before,
            before.take(i),
            from,
            to,
            now,
            to,
            row.key@,
        ));
    }
}

proof fn lemma_copy_skip(
    before: Seq<MemoryRow>,
    mid: Seq<MemoryRow>,
    i: int,
    from: Seq<char>,
    to: Seq<char>,
    now: i64,
)
    requires
        0 <= i < before.len(),
        memory_wf(before),
        before[i].workspace_id@ == from ==> stored(mid, to, before[i].key@) is Some,
        forall|w: Seq<char>, k: Seq<char>| #[trigger]
            stored(mid, w, k) == copied(before, before.take(i), from, to, now, w, k),
    ensures
        forall|w: Seq<char>, k: Seq<char>| #[trigger]
            stored(mid, w, k) == copied(before, before.take(i + 1), from, to, now, w, k),
{
    let row = before[i];
    assert(before.take(i + 1).drop_last() =~= before.take(i));
    assert(before.take(i + 1).last() == row);
    assert forall|w: Seq<char>, k: Seq<char>| #[trigger] stored(mid, w, k) == copied(
        before,
        before.take(i + 1),
        from,
        to,
        now,
        w,
        k,
    ) by {
        assert(stored(mid, w, k) == copied(before, before.take(i), from, to, now, w, k));
        if row.is_at(from, k) {
            assert(stored(mid, to, k) == copied(before, before.take(i), from, to, now, to, k));
            if stored(before, to, k) is None {
                let j = lemma_stored_somewhere(before.take(i), from, k);
                assert(before[j].is_at(from, k));
                assert(!before[j].is_at(before[i].workspace_id@, before[i].key@));
            }
        }
    }
}

// ---------------------------------------------------------------------------
// Laws
// ---------------------------------------------------------------------------

/// A read gives back what was written last, under the version that the write
/// was told, and no other entry changes.
pub proof fn reads_give_back_writes(
    before: Seq<MemoryRow>,
    after: Seq<MemoryRow>,
    ws: Seq<char>,
    key: Seq<char>,
    e: EntryView,
    other_ws: Seq<char>,
    other_key: Seq<char>,
)
    requires
        changed(before, after, ws, key, Some(e)),
    ensures
        stored(after, ws, key) == Some(e),
        version_at(after, ws, key) == e.version,
        (other_ws, other_key) != (ws, key) ==> stored(after, other_ws, other_key) == stored(
            before,
            other_ws,
            other_key,
        ),
{
}

/// Of two writers that expect the same version only one gets through: what
/// the first wrote is no longer at that version.
pub proof fn no_update_is_lost(
    before: Seq<MemoryRow>,
    after: Seq<MemoryRow>,
    ws: Seq<char>,
    key: Seq<char>,
    e: EntryView,
    expected: u64,
)
    requires
        expected == version_at(before, ws, key),
        e.version == expected + 1,
        changed(before, after, ws, key, Some(e)),
    ensures
        expected != version_at(after, ws, key),
{
}

/// What was removed is gone, and a writer that expects nothing there may
/// write it anew.
pub proof fn removed_entries_are_gone(
    before: Seq<MemoryRow>,
    after: Seq<MemoryRow>,
    ws: Seq<char>,
    key: Seq<char>,
)
    requires
        changed(before, after, ws, key, None),
    ensures
        stored(after, ws, key) is None,
        version_at(after, ws, key) == 0,
        size_at(after, ws, key) == 0,
{
}

/// A listing without a prefix shows what a listing with one shows, and more.
pub proof fn prefixes_narrow(key: Seq<char>, prefix: Seq<char>)
    ensures
        under_prefix(key, Some(prefix)) ==> under_prefix(key, None),
        under_prefix(prefix, Some(prefix)),
{
}

/// A row is what is stored under its key of its workspace: its value, its
/// version and its size.
pub proof fn rows_are_what_is_stored(rows: Seq<MemoryRow>, i: int)
    requires
        memory_wf(rows),
        0 <= i < rows.len(),
    ensures
        ({
            let ws = rows[i].workspace_id@;
            let key = rows[i].key@;
            &&& stored(rows, ws, key) matches Some(e) && e.value == rows[i].value@ && e.version
                == rows[i].version && e.updated_at == rows[i].updated_at && e.updated_by
                == rows[i].updated_by@
            &&& version_at(rows, ws, key) == rows[i].version
            &&& size_at(rows, ws, key) == rows[i].value@.len()
        }),
{
    lemma_stored_at(rows, i, rows[i].workspace_id@, rows[i].key@);
}

/// Where no row is of a key of a workspace, nothing is stored there, at
/// version 0.
pub proof fn missing_rows_are_not_stored(rows: Seq<MemoryRow>, ws: Seq<char>, key: Seq<char>)
    requires
        forall|i: int|
            0 <= i < rows.len() ==> (#[trigger] rows[i]).workspace_id@ != ws || rows[i].key@ != key,
    ensures
        stored(rows, ws, key) is None,
        version_at(rows, ws, key) == 0,
        size_at(rows, ws, key) == 0,
{
    lemma_not_stored(rows, ws, key);
}

/// A write gets through exactly where it expects nothing or the version that
/// is there. Then what it wrote is stored, one version higher; otherwise it
/// is told the version that is there, and nothing changes.
pub proof fn writes_need_the_current_version(
    db: &mut Database,
    ws: &str,
    key: &str,
    value: Vec<u8>,
    expected: Option<u64>,
    by: &str,
    now: i64,
    r: MemoryWriteOutcome,
)
    requires
        old(db).memory_holds(),
        version_at(old(db).memory@, ws@, key@) < i64::MAX,
        call_ensures(Database::memory_put_cas, (db, ws, key, value, expected, by, now), r),
    ensures
        r is Conflict <==> expected is Some && expected->0 != version_at(
            old(db).memory@,
            ws@,
            key@,
        ),
        r matches MemoryWriteOutcome::Conflict { current_version } ==> current_version
            == version_at(old(db).memory@, ws@, key@) && final(db).memory == old(db).memory,
        r matches MemoryWriteOutcome::Written { version } ==> {
            &&& version == version_at(old(db).memory@, ws@, key@) + 1
            &&& stored(final(db).memory@, ws@, key@) matches Some(e) && e.value == value@
                && e.version == version && e.updated_at == now && e.updated_by == by@
        },
{
}

/// A removal gets through under the same condition as a write, but where
/// there is nothing to remove it always does.
pub proof fn removals_need_the_current_version(
    db: &mut Database,
    ws: &str,
    key: &str,
    expected: Option<u64>,
    r: MemoryWriteOutcome,
)
    requires
        old(db).memory_holds(),
        call_ensures(Database::memory_delete_cas, (db, ws, key, expected), r),
    ensures
        ({
            let version = version_at(old(db).memory@, ws@, key@);
            &&& r is Conflict <==> version > 0 && expected is Some && expected->0 != version
            &&& r matches MemoryWriteOutcome::Conflict { current_version } ==> current_version
                == version && final(db).memory == old(db).memory
            &&& r matches MemoryWriteOutcome::Written { version: told } ==> told == version
            &&& version > 0 && r is Written ==> stored(final(db).memory@, ws@, key@) is None
        }),
{
}

/// A read gives the value and the version of the row.
pub proof fn reads_give_the_row(
    db: Database,
    ws: &str,
    key: &str,
    i: int,
    r: Option<(Vec<u8>, u64)>,
)
    requires
        db.memory_holds(),
        0 <= i < db.memory@.len(),
        db.memory@[i].workspace_id@ == ws@,
        db.memory@[i].key@ == key@,
        call_ensures(Database::memory_get, (&db, ws, key), r),
    ensures
        r matches Some((value, version)) && value@ == db.memory@[i].value@ && version
            == db.memory@[i].version,
{
    lemma_stored_at(db.memory@, i, ws@, key@);
}

/// The size of a workspace's memory is that of its values, and of no other
/// workspace's.
pub proof fn sizes_add_up(rows: Seq<MemoryRow>, row: MemoryRow, ws: Seq<char>)
    ensures
        total_size(Seq::<MemoryRow>::empty(), ws) == 0,
        row.workspace_id@ == ws ==> total_size(rows.push(row), ws) == total_size(rows, ws)
            + row.value@.len(),
        row.workspace_id@ != ws ==> total_size(rows.push(row), ws) == total_size(rows, ws),
{
    lemma_total_push(rows, row, ws);
}

/// A prefix takes whole steps of a path: what goes on after it with a slash
/// lies under it, and what goes on otherwise does not.
pub proof fn prefixes_take_whole_steps(prefix: Seq<char>, c: char, rest: Seq<char>)
    ensures
        under_prefix(prefix + seq![c] + rest, Some(prefix)) <==> c == '/',
        under_prefix(prefix, Some(prefix)),
        forall|key: Seq<char>| #[trigger] under_prefix(key, None),
        forall|key: Seq<char>|
            #[trigger] under_prefix(key, Some(prefix)) ==> prefix.is_prefix_of(key),
{
    reveal_strlit("/");
    let key = prefix + seq![c] + rest;
    assert(key.len() == prefix.len() + 1 + rest.len());
    assert(key[prefix.len() as int] == c);
    assert((prefix + "/"@)[prefix.len() as int] == '/');
    if c == '/' {
        assert((prefix + "/"@) =~= key.subrange(0, prefix.len() as int + 1));
    }
    assert forall|key: Seq<char>| #[trigger] under_prefix(key, Some(prefix)) implies
        prefix.is_prefix_of(key) by {
        if key != prefix {
            assert(prefix =~= key.subrange(0, prefix.len() as int)) by {
                assert forall|i: int| 0 <= i < prefix.len() implies prefix[i] == key[i] by {
                    assert((prefix + "/"@)[i] == key.subrange(0, prefix.len() as int + 1)[i]);
                }
            }
        }
    }
}

/// A listing shows each entry of the workspace under the prefix as its row has
/// it, and nothing else.
pub proof fn listings_show_the_rows(
    items: Seq<MemoryListItem>,
    rows: Seq<MemoryRow>,
    ws: Seq<char>,
    prefix: Option<Seq<char>>,
    i: int,
)
    requires
        memory_wf(rows),
        listing(items, rows, ws, prefix),
        0 <= i < rows.len(),
        rows[i].workspace_id@ == ws,
    ensures
        under_prefix(rows[i].key@, prefix) <==> exists|k: int|
            0 <= k < items.len() && (#[trigger] items[k]).key@ == rows[i].key@ && items[k].version
                == rows[i].version && items[k].value_size == rows[i].value@.len()
                && items[k].updated_at == rows[i].updated_at,
{
    lemma_stored_at(rows, i, ws, rows[i].key@);
    if under_prefix(rows[i].key@, prefix) {
        let k = choose|k: int| 0 <= k < items.len() && (#[trigger] items[k]).key@ == rows[i].key@;
        assert(lists(items[k], rows, ws));
    }
}

/// A copied workspace keeps what it has, gets what it lacks at version 1, and
/// leaves the source as it is.
pub proof fn copies_fill_what_is_missing(
    rows: Seq<MemoryRow>,
    from: Seq<char>,
    to: Seq<char>,
    now: i64,
    key: Seq<char>,
)
    requires
        from != to,
    ensures
        ({
            let there = stored(rows, to, key);
            let source = stored(rows, from, key);
            let after = copied(rows, rows, from, to, now, to, key);
            &&& there is Some ==> after == there
            &&& there is None && source is None ==> after is None
            &&& there is None && source is Some ==> (after matches Some(e) && e.value
                == source->0.value && e.version == 1 && e.updated_at == now && e.updated_by
                == source->0.updated_by)
            &&& copied(rows, rows, from, to, now, from, key) == source
        }),
{
}

/// Dropping a workspace's memory leaves none of its entries and all of the
/// others'.
pub proof fn dropped_memory_is_gone(
    rows: Seq<MemoryRow>,
    gone: Seq<char>,
    ws: Seq<char>,
    key: Seq<char>,
)
    ensures
        stored(memory_but(rows, gone), gone, key) is None,
        ws != gone ==> stored(memory_but(rows, gone), ws, key) == stored(rows, ws, key),
{
    lemma_memory_but(rows, gone, gone, key);
    lemma_memory_but(rows, gone, ws, key);
}

} // verus!
