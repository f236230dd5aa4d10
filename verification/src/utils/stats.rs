//! Totals over the fragments of a project.
use crate::project::project;
use crate::project::project::ProjectFile;
use vstd::prelude::*;

verus! {

/// The length of the first `n` fragments in milliseconds.
pub open spec fn duration_before(files: Seq<project::ProjectFileModel>, n: int) -> nat
    decreases n,
{
    if n <= 0 {
        0
    } else {
        duration_before(files, n - 1) + files[n - 1].duration_ms
    }
}

/// The size of the first `n` fragments in bytes.
pub open spec fn size_before(files: Seq<project::ProjectFileModel>, n: int) -> nat
    decreases n,
{
    if n <= 0 {
        0
    } else {
        size_before(files, n - 1) + files[n - 1].size
    }
}

/// More fragments never make a total smaller.
pub proof fn totals_grow(files: Seq<project::ProjectFileModel>, m: int, n: int)
    requires
        0 <= m <= n <= files.len(),
    ensures
        duration_before(files, m) <= duration_before(files, n),
        size_before(files, m) <= size_before(files, n),
    decreases n,
{
    if m < n {
        totals_grow(files, m, n - 1);
    }
}

/// The length of any number of fragments can be counted.
pub proof fn duration_fits(files: Seq<ProjectFile>, n: int)
    requires
        0 <= n <= files.len() <= usize::MAX,
    ensures
        duration_before(project::file_models(files), n) <= u128::MAX,
{
    duration_bound(files, n);
    assert(n * u64::MAX <= u128::MAX) by (nonlinear_arith)
        requires
            0 <= n <= 0xffff_ffff_ffff_ffff,
    ;
}

proof fn duration_bound(files: Seq<ProjectFile>, n: int)
    requires
        0 <= n <= files.len(),
    ensures
        duration_before(project::file_models(files), n) <= n * u64::MAX,
    decreases n,
{
    if n > 0 {
        duration_bound(files, n - 1);
        assert(project::file_models(files)[n - 1].duration_ms == files[n - 1].duration_ms);
        assert((n - 1) * u64::MAX + u64::MAX == n * u64::MAX) by (nonlinear_arith);
    } else {
        assert(0 * u64::MAX == 0) by (nonlinear_arith);
    }
}

/// The length of the first `n` fragments in milliseconds.
pub fn duration_of_first(files: &[ProjectFile], n: usize) -> (total: u128)
    requires
        n <= files@.len(),
    ensures
        total == duration_before(project::file_models(files@), n as int),
{
    let ghost all = project::file_models(files@);
    let len: usize = files.len();
    let mut total: u128 = 0;
    let mut i: usize = 0;
    while i < n
        invariant
            i <= n <= len == files@.len(),
            all == project::file_models(files@),
            total == duration_before(all, i as int),
        decreases n - i,
    {
        proof {
            duration_fits(files@, i + 1);
            assert(all[i as int].duration_ms == files@[i as int].duration_ms);
        }
        total = total + files[i].duration_ms as u128;
        i = i + 1;
    }
    total
}

/// The length of all fragments in milliseconds.
pub fn calculate_total_duration(files: &[ProjectFile]) -> (total: u128)
    ensures
        total == duration_before(project::file_models(files@), files@.len() as int),
{
    duration_of_first(files, files.len())
}

/// The size of all fragments in bytes.
pub fn calculate_sizes(files: &[ProjectFile]) -> (total: u64)
    requires
        size_before(project::file_models(files@), files@.len() as int) <= u64::MAX,
    ensures
        total == size_before(project::file_models(files@), files@.len() as int),
{
    let ghost all = project::file_models(files@);
    let n: usize = files.len();
    let mut total: u64 = 0;
    let mut i: usize = 0;
    while i < n
        invariant
            i <= n == files@.len(),
            all == project::file_models(files@),
            size_before(all, n as int) <= u64::MAX,
            total == size_before(all, i as int),
        decreases n - i,
    {
        proof {
            totals_grow(all, i + 1, n as int);
        }
        total = total + files[i].size;
        i = i + 1;
    }
    total
}

} // verus!
