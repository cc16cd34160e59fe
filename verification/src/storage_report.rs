//! The storage report: what each task's tile store takes on disk, the tile
//! stores in the tiles directory that no task uses, and their totals, each
//! list largest first.

use vstd::prelude::*;
use crate::stable_sort::{sort_by_keys, stable_order};
use crate::text::{chars_of, ends_with_chars, has_suffix};

verus! {

// ─── saturating totals ──────────────────────────────────────────────────────

/// The sum of a list of sizes.
pub open spec fn sum_u64(s: Seq<u64>) -> nat
    decreases s.len(),
{
    if s.len() == 0 {
        0
    } else {
        (sum_u64(s.drop_last()) + s.last()) as nat
    }
}

/// A sum that stops at the largest `u64` (`saturating_add` all along).
pub open spec fn capped(n: nat) -> u64 {
    if n < u64::MAX { n as u64 } else { u64::MAX }
}

fn saturating_total(s: &Vec<u64>) -> (r: u64)
    ensures
        r == capped(sum_u64(s@)),
{
    let mut acc: u64 = 0;
    let mut i: usize = 0;
    while i < s.len()
        invariant
            i <= s.len(),
            acc == capped(sum_u64(s@.subrange(0, i as int))),
        decreases s.len() - i,
    {
        assert(s@.subrange(0, i + 1).drop_last() =~= s@.subrange(0, i as int));
        acc = acc.saturating_add(s[i]);
        i += 1;
    }
    assert(s@.subrange(0, s@.len() as int) =~= s@);
    acc
}

// ─── the report ─────────────────────────────────────────────────────────────

/// What one task's tile store takes on disk.
#[derive(Debug, Clone)]
pub struct TaskStorageRow {
    pub task_id: String,
    pub name: String,
    pub path: String,
    pub bytes: u64,
    pub exists: bool,
    /// The store is an imported `.tgr` file outside the tiles directory.
    pub is_external: bool,
    pub downloaded_tiles: i64,
    pub status: String,
}

/// A tile store in the tiles directory that no task uses.
#[derive(Debug, Clone)]
pub struct OrphanFile {
    pub path: String,
    pub bytes: u64,
}

/// Disk use of the tile stores, and the room left where they are kept.
#[derive(Debug, Clone)]
pub struct StorageStats {
    pub tiles_dir: String,
    /// Sum of the sizes of the tasks' stores that exist (capped at the
    /// largest `u64`).
    pub total_bytes: u64,
    pub available_bytes: u64,
    pub capacity_bytes: u64,
    /// One row per task, largest store first.
    pub tasks: Vec<TaskStorageRow>,
    /// Stores no task uses, largest first.
    pub orphans: Vec<OrphanFile>,
    pub orphan_bytes: u64,
}

/// The storage row of one task from its record (`path` is its tile store,
/// where it has one) and the size of that file where it could be read; a
/// task without a path has no file.
pub fn task_storage_row(
    task_id: String,
    name: String,
    path: Option<String>,
    downloaded_tiles: i64,
    status: String,
    file_size: Option<u64>,
) -> (r: TaskStorageRow)
    ensures
        r.task_id == task_id,
        r.name == name,
        r.downloaded_tiles == downloaded_tiles,
        r.status == status,
        r.path@ == (match path {
            Some(p) => p@,
            None => Seq::<char>::empty(),
        }),
        r.exists == (r.path@.len() > 0 && file_size is Some),
        r.bytes == (if r.exists { file_size->0 } else { 0 }),
        r.is_external == has_suffix(r.path@, ".tgr"@),
{
    let path = match path {
        Some(p) => p,
        None => String::new(),
    };
    let pc = chars_of(path.as_str());
    let (bytes, exists) = if pc.len() == 0 {
        (0u64, false)
    } else {
        match file_size {
            Some(n) => (n, true),
            None => (0u64, false),
        }
    };
    let is_external = ends_with_chars(&pc, &chars_of(".tgr"));
    TaskStorageRow { task_id, name, path, bytes, exists, is_external, downloaded_tiles, status }
}

/// The size a row adds to the total: its size when the file exists.
pub open spec fn counted_bytes(r: TaskStorageRow) -> u64 {
    if r.exists { r.bytes } else { 0 }
}

pub open spec fn row_keys(rows: Seq<TaskStorageRow>) -> Seq<u64> {
    rows.map_values(|r: TaskStorageRow| r.bytes)
}

pub open spec fn row_counted(rows: Seq<TaskStorageRow>) -> Seq<u64> {
    rows.map_values(|r: TaskStorageRow| counted_bytes(r))
}

pub open spec fn orphan_keys(files: Seq<OrphanFile>) -> Seq<u64> {
    files.map_values(|f: OrphanFile| f.bytes)
}

/// The storage report from the tasks' rows, the orphaned stores found in
/// the tiles directory, and the room on its volume.
pub fn storage_stats(
    tiles_dir: String,
    rows: Vec<TaskStorageRow>,
    orphans: Vec<OrphanFile>,
    available_bytes: u64,
    capacity_bytes: u64,
) -> (r: StorageStats)
    ensures
        r.tiles_dir == tiles_dir,
        r.available_bytes == available_bytes,
        r.capacity_bytes == capacity_bytes,
        r.total_bytes == capped(sum_u64(row_counted(rows@))),
        r.orphan_bytes == capped(sum_u64(orphan_keys(orphans@))),
        exists|o: Seq<int>| #[trigger] stable_order(row_keys(rows@), o, true)
            && r.tasks@.len() == rows@.len()
            && forall|k: int| 0 <= k < o.len() ==> r.tasks@[k] == rows@[#[trigger] o[k]],
        exists|o: Seq<int>| #[trigger] stable_order(orphan_keys(orphans@), o, true)
            && r.orphans@.len() == orphans@.len()
            && forall|k: int| 0 <= k < o.len() ==> r.orphans@[k] == orphans@[#[trigger] o[k]],
{
    let mut counted: Vec<u64> = Vec::new();
    let mut row_sizes: Vec<u64> = Vec::new();
    let mut i: usize = 0;
    while i < rows.len()
        invariant
            i <= rows.len(),
            counted@ == row_counted(rows@).subrange(0, i as int),
            row_sizes@ == row_keys(rows@).subrange(0, i as int),
        decreases rows.len() - i,
    {
        counted.push(if rows[i].exists { rows[i].bytes } else { 0 });
        row_sizes.push(rows[i].bytes);
        i += 1;
        assert(counted@ =~= row_counted(rows@).subrange(0, i as int));
        assert(row_sizes@ =~= row_keys(rows@).subrange(0, i as int));
    }
    assert(counted@ =~= row_counted(rows@));
    assert(row_sizes@ =~= row_keys(rows@));
    let total_bytes = saturating_total(&counted);

    let mut orphan_sizes: Vec<u64> = Vec::new();
    let mut j: usize = 0;
    while j < orphans.len()
        invariant
            j <= orphans.len(),
            orphan_sizes@ == orphan_keys(orphans@).subrange(0, j as int),
        decreases orphans.len() - j,
    {
        orphan_sizes.push(orphans[j].bytes);
        j += 1;
        assert(orphan_sizes@ =~= orphan_keys(orphans@).subrange(0, j as int));
    }
    assert(orphan_sizes@ =~= orphan_keys(orphans@));
    let orphan_bytes = saturating_total(&orphan_sizes);

    let ghost rows0 = rows@;
    let ghost orphans0 = orphans@;
    let mut tasks = rows;
    let o1 = sort_by_keys(&mut tasks, &mut row_sizes, true);
    let mut files = orphans;
    let o2 = sort_by_keys(&mut files, &mut orphan_sizes, true);
    assert(stable_order(row_keys(rows0), o1@, true));
    assert(stable_order(orphan_keys(orphans0), o2@, true));
    StorageStats { tiles_dir, total_bytes, available_bytes, capacity_bytes, tasks, orphans: files, orphan_bytes }
}

} // verus!
