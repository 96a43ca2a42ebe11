//! Carrying op state across a program reload: each op of the new program
//! takes the state of the op of the old program with the same node id.
use smallvec::SmallVec;
use vstd::prelude::*;

verus! {

/// How many old ops are looked up through the sorted index; the rest are
/// scanned.
pub const MIGRATION_INDEX_SIZE: usize = 128;

/// The sorted index of the old ops: a `SmallVec` of `(id, position)`
/// pairs, kept inline.
#[verifier::external_body]
pub struct MigrationIndex {
    entries: SmallVec<[(u64, usize); MIGRATION_INDEX_SIZE]>,
}

/// The entries of a migration index, in order.
pub uninterp spec fn index_entries(v: MigrationIndex) -> Seq<(u64, usize)>;

/// `SmallVec::new`: an index with no entry.
#[verifier::external_body]
fn index_new() -> (r: MigrationIndex)
    ensures
        index_entries(r) == Seq::<(u64, usize)>::empty(),
{
    MigrationIndex { entries: SmallVec::new() }
}

/// `SmallVec::push`: appends an entry, kept inline below the capacity.
#[verifier::external_body]
fn index_push(v: &mut MigrationIndex, entry: (u64, usize))
    requires
        index_entries(*old(v)).len() < MIGRATION_INDEX_SIZE,
    ensures
        index_entries(*final(v)) == index_entries(*old(v)).push(entry),
{
    v.entries.push(entry)
}

/// The entries are in increasing order of id.
pub open spec fn sorted_by_id(s: Seq<(u64, usize)>) -> bool {
    forall|i: int, j: int| 0 <= i < j < s.len() ==> #[trigger] s[i].0 <= #[trigger] s[j].0
}

/// `<[T]>::sort_unstable_by_key` on the index, keyed by id: the same
/// entries in increasing order of id; entries with equal ids in any order.
#[verifier::external_body]
fn index_sort_by_id(v: &mut MigrationIndex)
    ensures
        index_entries(*final(v)).to_multiset() == index_entries(*old(v)).to_multiset(),
        sorted_by_id(index_entries(*final(v))),
{
    v.entries.sort_unstable_by_key(|entry| entry.0)
}

/// `<[T]>::binary_search_by_key` on the sorted index, keyed by id: the
/// position of an entry with that id (any one where several have it), or
/// `None` where none has it.
#[verifier::external_body]
fn index_find(v: &MigrationIndex, id: u64) -> (r: Option<usize>)
    requires
        sorted_by_id(index_entries(*v)),
    ensures
        r matches Some(i) ==> i < index_entries(*v).len() && index_entries(*v)[i as int].0 == id,
        r is None ==> forall|i: int| 0 <= i < index_entries(*v).len() ==> #[trigger] index_entries(*v)[i].0 != id,
{
    match v.entries.binary_search_by_key(&id, |entry| entry.0) {
        Ok(i) => Some(i),
        Err(_) => None,
    }
}

/// Indexing the `SmallVec` (as a slice): the entry at `i`.
#[verifier::external_body]
fn index_entry(v: &MigrationIndex, i: usize) -> (r: (u64, usize))
    requires
        i < index_entries(*v).len(),
    ensures
        r == index_entries(*v)[i as int],
{
    v.entries[i]
}

/// The first position at or after `from` holding `id`.
fn first_from(ids: &[u64], from: usize, id: u64) -> (r: Option<usize>)
    requires
        from <= ids@.len(),
    ensures
        r matches Some(j) ==> from <= j < ids@.len() && ids@[j as int] == id && forall|i: int|
            from <= i < j ==> ids@[i] != id,
        r is None ==> forall|i: int| from <= i < ids@.len() ==> ids@[i] != id,
{
    let mut j = from;
    while j < ids.len()
        invariant
            from <= j <= ids@.len(),
            forall|i: int| from <= i < j ==> ids@[i] != id,
        decreases ids@.len() - j,
    {
        if ids[j] == id {
            return Some(j);
        }
        j = j + 1;
    }
    None
}

/// How many of the old ops the index covers.
pub open spec fn indexed_len(previous: Seq<u64>) -> int {
    if previous.len() < MIGRATION_INDEX_SIZE {
        previous.len() as int
    } else {
        MIGRATION_INDEX_SIZE as int
    }
}

/// Which old op each new op takes its state from, given the ids of both
/// programs: an old op with the same id; reloading a program whose ids are
/// distinct onto itself gives each op its own state back. Among the first
/// `MIGRATION_INDEX_SIZE` old ops any one with that id may be taken (they
/// are looked up through a sorted index); past them, the first. `None`
/// where no old op has the id; nothing migrates when either program is
/// empty.
pub fn migration_sources(active: &[u64], previous: &[u64]) -> (r: Vec<Option<usize>>)
    ensures
        r@.len() == active@.len(),
        forall|k: int|
            0 <= k < r@.len() ==> (#[trigger] r@[k] is None <==> forall|j: int|
                0 <= j < previous@.len() ==> previous@[j] != active@[k]),
        forall|k: int|
            0 <= k < r@.len() ==> (#[trigger] r@[k] matches Some(j) ==> {
                &&& j < previous@.len()
                &&& previous@[j as int] == active@[k]
                &&& (j < indexed_len(previous@) <==> exists|i: int|
                    0 <= i < indexed_len(previous@) && previous@[i] == active@[k])
                &&& (j >= indexed_len(previous@) ==> forall|i: int| 0 <= i < j ==> previous@[i] != active@[k])
            }),
        active@ == previous@ && active@.no_duplicates() ==> forall|k: int|
            0 <= k < r@.len() ==> #[trigger] r@[k] == Some(k as usize),
{
    let r = migration_sources_of(active, previous);
    proof {
        if active@ == previous@ && active@.no_duplicates() {
            assert forall|k: int| 0 <= k < r@.len() implies #[trigger] r@[k] == Some(k as usize) by {
                assert(previous@[k] == active@[k]);
                let j = r@[k]->Some_0;
                assert(previous@[j as int] == active@[k]);
            }
        }
    }
    r
}

fn migration_sources_of(active: &[u64], previous: &[u64]) -> (r: Vec<Option<usize>>)
    ensures
        r@.len() == active@.len(),
        forall|k: int|
            0 <= k < r@.len() ==> (#[trigger] r@[k] is None <==> forall|j: int|
                0 <= j < previous@.len() ==> previous@[j] != active@[k]),
        forall|k: int|
            0 <= k < r@.len() ==> (#[trigger] r@[k] matches Some(j) ==> {
                &&& j < previous@.len()
                &&& previous@[j as int] == active@[k]
                &&& (j < indexed_len(previous@) <==> exists|i: int|
                    0 <= i < indexed_len(previous@) && previous@[i] == active@[k])
                &&& (j >= indexed_len(previous@) ==> forall|i: int| 0 <= i < j ==> previous@[i] != active@[k])
            }),
{
    let mut out: Vec<Option<usize>> = Vec::new();
    if active.len() == 0 || previous.len() == 0 {
        let mut k: usize = 0;
        while k < active.len()
            invariant
                k <= active@.len(),
                active@.len() == 0 || previous@.len() == 0,
                out@.len() == k,
                forall|i: int| 0 <= i < k ==> out@[i] is None,
            decreases active@.len() - k,
        {
            out.push(None);
            k = k + 1;
        }
        return out;
    }
    let n = if previous.len() < MIGRATION_INDEX_SIZE {
        previous.len()
    } else {
        MIGRATION_INDEX_SIZE
    };
    let mut index = index_new();
    let mut j: usize = 0;
    while j < n
        invariant
            j <= n,
            n == indexed_len(previous@),
            n <= previous@.len(),
            index_entries(index).len() == j,
            forall|i: int| 0 <= i < j ==> #[trigger] index_entries(index)[i] == (previous@[i], i as usize),
        decreases n - j,
    {
        index_push(&mut index, (previous[j], j));
        j = j + 1;
    }
    let ghost unsorted = index_entries(index);
    index_sort_by_id(&mut index);
    proof {
        broadcast use vstd::seq_lib::group_to_multiset_ensures;
        assert forall|e: (u64, usize)| index_entries(index).contains(e) implies e.1 < n && previous@[e.1 as int] == e.0 by {
            assert(index_entries(index).to_multiset().count(e) > 0);
            assert(unsorted.contains(e));
        }
    }
    let mut k: usize = 0;
    while k < active.len()
        invariant
            k <= active@.len(),
            n == indexed_len(previous@),
            n <= previous@.len(),
            sorted_by_id(index_entries(index)),
            index_entries(index).to_multiset() == unsorted.to_multiset(),
            unsorted.len() == n,
            forall|i: int| 0 <= i < n ==> #[trigger] unsorted[i] == (previous@[i], i as usize),
            forall|e: (u64, usize)| index_entries(index).contains(e) ==> e.1 < n && previous@[e.1 as int] == e.0,
            out@.len() == k,
            forall|m: int|
                0 <= m < k ==> (#[trigger] out@[m] is None <==> forall|j: int|
                    0 <= j < previous@.len() ==> previous@[j] != active@[m]),
            forall|m: int|
                0 <= m < k ==> (#[trigger] out@[m] matches Some(j) ==> {
                    &&& j < previous@.len()
                    &&& previous@[j as int] == active@[m]
                    &&& (j < indexed_len(previous@) <==> exists|i: int|
                        0 <= i < indexed_len(previous@) && previous@[i] == active@[m])
                    &&& (j >= indexed_len(previous@) ==> forall|i: int| 0 <= i < j ==> previous@[i] != active@[m])
                }),
        decreases active@.len() - k,
    {
        let id = active[k];
        let found = match index_find(&index, id) {
            Some(i) => {
                let entry = index_entry(&index, i);
                proof {
                    assert(index_entries(index).contains(entry));
                }
                Some(entry.1)
            },
            None => {
                proof {
                    broadcast use vstd::seq_lib::group_to_multiset_ensures;
                    assert forall|i: int| 0 <= i < n implies previous@[i] != id by {
                        let e = unsorted[i];
                        assert(unsorted.contains(e));
                        assert(index_entries(index).to_multiset().count(e) > 0);
                        if previous@[i] == id {
                            let p = choose|p: int| 0 <= p < index_entries(index).len() && index_entries(index)[p] == e;
                            assert(index_entries(index)[p].0 == id);
                        }
                    }
                }
                first_from(previous, n, id)
            },
        };
        out.push(found);
        k = k + 1;
    }
    out
}

} // verus!
