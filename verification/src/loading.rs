//! Planning the load of the diagnostic databases: which files of the database directory are
//! databases, in which order they are loaded, how they are split among the loading tasks,
//! and the health status of the databases afterwards.
use vstd::prelude::*;
use vstd::string::StringSliceAdditionalSpecFns;
use crate::health::Status;
use crate::text::{lowercase_of, to_lowercase};

verus! {

/// Number of tasks that load databases beside the main task.
pub const PARALLEL_LOAD_TASKS: usize = 2;

/// Whether a file name, as UTF-8 bytes, has the extension `mdd`: it ends with `.mdd` and that
/// dot is not its first byte (a name made of a dot and `mdd` alone has no extension).
pub open spec fn has_mdd_extension(name: Seq<u8>) -> bool {
    &&& name.len() > 4
    &&& name.subrange(name.len() - 4, name.len() as int) == seq![0x2Eu8, 0x6Du8, 0x64u8, 0x64u8]
}

/// Whether a file named `name` is a diagnostic database: its extension is `mdd`, in this case.
pub fn is_database_file(name: &str) -> (r: bool)
    ensures
        r == has_mdd_extension(name.spec_bytes()),
{
    let b = name.as_bytes();
    let n = b.len();
    if n <= 4 {
        return false;
    }
    let r = b[n - 4] == 0x2E && b[n - 3] == 0x6D && b[n - 2] == 0x64 && b[n - 1] == 0x64;
    proof {
        let tail = b@.subrange(n - 4, n as int);
        if r {
            assert(tail =~= seq![0x2Eu8, 0x6Du8, 0x64u8, 0x64u8]);
        } else {
            assert(tail[0] == b@[n - 4] && tail[1] == b@[n - 3] && tail[2] == b@[n - 2] && tail[3]
                == b@[n - 1]);
        }
    }
    r
}

/// Whether file `x` is loaded before file `y` of sizes `sizes`: the larger first, files of
/// equal size in the order they were found.
pub open spec fn loads_before(sizes: Seq<u64>, x: int, y: int) -> bool {
    sizes[x] > sizes[y] || (sizes[x] == sizes[y] && x < y)
}

/// Whether `order` lists the files of sizes `sizes` by their positions, each once, largest
/// first and files of equal size in the order they were found.
pub open spec fn is_load_order(sizes: Seq<u64>, order: Seq<usize>) -> bool {
    &&& order.len() == sizes.len()
    &&& forall|k: int| 0 <= k < order.len() ==> #[trigger] order[k] < sizes.len()
    &&& forall|a: int, b: int|
        0 <= a < b < order.len() ==> loads_before(sizes, #[trigger] order[a] as int, #[trigger] order[b] as int)
}

/// The order in which database files of sizes `sizes` are loaded, as positions in `sizes`:
/// the largest first, files of equal size in the order they were found. Every position
/// stands once in the result, since the order is strict.
pub fn load_order(sizes: &Vec<u64>) -> (r: Vec<usize>)
    ensures
        is_load_order(sizes@, r@),
{
    let mut r: Vec<usize> = Vec::new();
    let mut i: usize = 0;
    while i < sizes.len()
        invariant
            i <= sizes@.len(),
            r@.len() == i,
            forall|k: int| 0 <= k < r@.len() ==> #[trigger] r@[k] < i,
            forall|a: int, b: int|
                0 <= a < b < r@.len() ==> loads_before(sizes@, #[trigger] r@[a] as int, #[trigger] r@[b] as int),
        decreases sizes@.len() - i,
    {
        let mut p: usize = 0;
        while p < r.len() && sizes[r[p]] >= sizes[i]
            invariant
                p <= r@.len(),
                i < sizes@.len(),
                forall|k: int| 0 <= k < r@.len() ==> #[trigger] r@[k] < i,
                forall|k: int| 0 <= k < p ==> sizes@[#[trigger] r@[k] as int] >= sizes@[i as int],
            decreases r@.len() - p,
        {
            p = p + 1;
        }
        let ghost old_r = r@;
        proof {
            assert forall|k: int| p <= k < old_r.len() implies sizes@[#[trigger] old_r[k] as int]
                < sizes@[i as int] by {
                if p < old_r.len() {
                    assert(sizes@[old_r[p as int] as int] < sizes@[i as int]);
                    if k > p {
                        assert(loads_before(sizes@, old_r[p as int] as int, old_r[k] as int));
                    }
                }
            }
        }
        r.insert(p, i);
        proof {
            assert forall|a: int, b: int| 0 <= a < b < r@.len() implies loads_before(
                sizes@,
                #[trigger] r@[a] as int,
                #[trigger] r@[b] as int,
            ) by {
                if b < p {
                    assert(r@[a] == old_r[a] && r@[b] == old_r[b]);
                } else if b == p {
                    assert(r@[a] == old_r[a]);
                } else if a < p {
                    assert(r@[a] == old_r[a] && r@[b] == old_r[b - 1]);
                } else if a == p {
                    assert(r@[b] == old_r[b - 1]);
                } else {
                    assert(r@[a] == old_r[a - 1] && r@[b] == old_r[b - 1]);
                }
            }
            assert forall|k: int| 0 <= k < r@.len() implies #[trigger] r@[k] < i + 1 by {
                if k < p {
                    assert(r@[k] == old_r[k]);
                } else if k > p {
                    assert(r@[k] == old_r[k - 1]);
                }
            }
        }
        i = i + 1;
    }
    r
}

/// How many database files each loading task takes of `file_count` files: an equal share of
/// the loading tasks and the main task, at least one.
pub open spec fn chunk_size_for(file_count: int) -> int {
    let share = file_count / (PARALLEL_LOAD_TASKS + 1) as int;
    if share < 1 {
        1
    } else {
        share
    }
}

/// How many database files each loading task takes of `file_count` files.
pub fn load_chunk_size(file_count: usize) -> (r: usize)
    ensures
        r == chunk_size_for(file_count as int),
        r >= 1,
{
    let share = file_count / (PARALLEL_LOAD_TASKS + 1);
    if share < 1 {
        1
    } else {
        share
    }
}

/// Whether `chunks` splits positions `0..count` into consecutive ranges `[start, end)` of
/// `size` positions each, in order, the last one possibly shorter.
pub open spec fn is_chunking(count: int, size: int, chunks: Seq<(usize, usize)>) -> bool {
    &&& count == 0 ==> chunks.len() == 0
    &&& count > 0 ==> {
        &&& chunks.len() > 0
        &&& chunks[0].0 == 0
        &&& chunks.last().1 == count
    }
    &&& forall|k: int| 0 <= k < chunks.len() - 1 ==> #[trigger] chunks[k].1 == chunks[k + 1].0
    &&& forall|k: int| 0 <= k < chunks.len() - 1 ==> #[trigger] chunks[k].1 - chunks[k].0 == size
    &&& forall|k: int|
        0 <= k < chunks.len() ==> 0 < #[trigger] chunks[k].1 - chunks[k].0 <= size
}

/// The ranges of positions of `count` files that the loading tasks take, `size` files each,
/// the last one possibly fewer.
pub fn load_chunks(count: usize, size: usize) -> (r: Vec<(usize, usize)>)
    requires
        size >= 1,
    ensures
        is_chunking(count as int, size as int, r@),
{
    let mut r: Vec<(usize, usize)> = Vec::new();
    let mut start: usize = 0;
    while start < count
        invariant
            size >= 1,
            start <= count,
            r@.len() == 0 <==> start == 0,
            r@.len() > 0 ==> r@[0].0 == 0 && r@.last().1 == start,
            forall|k: int| 0 <= k < r@.len() - 1 ==> #[trigger] r@[k].1 == r@[k + 1].0,
            forall|k: int| 0 <= k < r@.len() - 1 ==> #[trigger] r@[k].1 - r@[k].0 == size,
            forall|k: int| 0 <= k < r@.len() ==> 0 < #[trigger] r@[k].1 - r@[k].0 <= size,
            r@.len() > 0 && r@.last().1 - r@.last().0 < size ==> start == count,
        decreases count - start,
    {
        let end = if count - start > size {
            start + size
        } else {
            count
        };
        let ghost old_r = r@;
        r.push((start, end));
        proof {
            assert forall|k: int| 0 <= k < r@.len() - 1 implies #[trigger] r@[k].1 == r@[k + 1].0
                by {
                if k < old_r.len() - 1 {
                    assert(r@[k] == old_r[k] && r@[k + 1] == old_r[k + 1]);
                } else {
                    assert(r@[k] == old_r.last());
                }
            }
            assert forall|k: int| 0 <= k < r@.len() - 1 implies #[trigger] r@[k].1 - r@[k].0
                == size by {
                if k < old_r.len() - 1 {
                    assert(r@[k] == old_r[k]);
                } else {
                    assert(r@[k] == old_r.last());
                }
            }
            assert forall|k: int| 0 <= k < r@.len() implies 0 < #[trigger] r@[k].1 - r@[k].0
                <= size by {
                if k < old_r.len() {
                    assert(r@[k] == old_r[k]);
                }
            }
        }
        start = end;
    }
    r
}

/// The keys of the loaded databases of ECUs named `names` whose data is valid (`valid`,
/// position by position): each such name in lowercase, in order.
pub open spec fn database_keys_of(names: Seq<Seq<char>>, valid: Seq<bool>) -> Seq<Seq<char>>
    decreases names.len(),
{
    if names.len() == 0 {
        Seq::empty()
    } else {
        let rest = database_keys_of(names.drop_last(), valid.drop_last());
        if valid.last() {
            rest.push(lowercase_of(names.last()))
        } else {
            rest
        }
    }
}

/// The keys under which the databases of the ECUs named `names` are found after loading:
/// the names of those whose data is valid, in lowercase, in order.
pub fn database_keys(names: &Vec<String>, valid: &Vec<bool>) -> (r: Vec<String>)
    requires
        names@.len() == valid@.len(),
    ensures
        Seq::new(r@.len(), |i: int| r@[i]@) == database_keys_of(
            Seq::new(names@.len(), |i: int| names@[i]@),
            valid@,
        ),
{
    let ghost all = Seq::new(names@.len(), |i: int| names@[i]@);
    let mut r: Vec<String> = Vec::new();
    let mut i: usize = 0;
    while i < names.len()
        invariant
            i <= names@.len(),
            names@.len() == valid@.len(),
            all == Seq::new(names@.len(), |i: int| names@[i]@),
            Seq::new(r@.len(), |k: int| r@[k]@) == database_keys_of(
                all.subrange(0, i as int),
                valid@.subrange(0, i as int),
            ),
        decreases names@.len() - i,
    {
        let ghost before = Seq::new(r@.len(), |k: int| r@[k]@);
        proof {
            let n2 = all.subrange(0, i + 1);
            let v2 = valid@.subrange(0, i + 1);
            assert(n2.drop_last() =~= all.subrange(0, i as int));
            assert(v2.drop_last() =~= valid@.subrange(0, i as int));
            assert(n2.last() == names@[i as int]@);
        }
        if valid[i] {
            let key = to_lowercase(names[i].as_str());
            r.push(key);
            assert(Seq::new(r@.len(), |k: int| r@[k]@) =~= before.push(
                lowercase_of(names@[i as int]@),
            ));
        }
        i = i + 1;
    }
    assert(all.subrange(0, names@.len() as int) =~= all);
    assert(valid@.subrange(0, names@.len() as int) =~= valid@);
    r
}

/// The health status of the databases after loading `loaded` of them: failed when none
/// loaded, else up.
pub fn databases_status(loaded: usize) -> (r: Status)
    ensures
        r == (if loaded == 0 {
            Status::Failed
        } else {
            Status::Up
        }),
{
    if loaded == 0 {
        Status::Failed
    } else {
        Status::Up
    }
}

} // verus!
