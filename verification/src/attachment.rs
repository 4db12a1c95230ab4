//! Which files may become attachments: files of 20 MB or more are refused.
//! The sizes are read by the caller; a size that could not be read is
//! `None`.
use vstd::prelude::*;

verus! {

/// The size, in bytes, from which a file is refused.
pub const MAX_BYTES_FILE_SIZE: u64 = 20_000_000;

/// Why a set of files cannot be imported.
#[derive(Debug, Clone, Copy, PartialEq, Eq)]
pub enum ImportError {
    /// The size of the file at this index could not be read.
    Unreadable(usize),
    /// The file at this index is too large.
    TooLarge(usize),
}

/// Whether a file of the given (possibly unread) size may be imported.
pub open spec fn size_accepted(size: Option<u64>) -> bool {
    size matches Some(s) && s < MAX_BYTES_FILE_SIZE
}

/// The error for the file at `index` of size `size`, which is not accepted.
pub open spec fn size_error(size: Option<u64>, index: usize) -> ImportError {
    match size {
        None => ImportError::Unreadable(index),
        Some(_) => ImportError::TooLarge(index),
    }
}

/// Checks the files to import, in order: all of them are accepted, or the
/// first one that is not is named with the reason.
pub fn validate_file_sizes(sizes: &Vec<Option<u64>>) -> (result: Result<(), ImportError>)
    ensures
        result is Ok <==> forall|i: int| 0 <= i < sizes@.len() ==> size_accepted(
            #[trigger] sizes@[i],
        ),
        result matches Err(e) ==> exists|i: usize|
            i < sizes@.len() && !size_accepted(sizes@[i as int]) && e == size_error(
                sizes@[i as int],
                i,
            ) && forall|j: int| 0 <= j < i ==> size_accepted(#[trigger] sizes@[j]),
{
    let n = sizes.len();
    let mut i: usize = 0;
    while i < n
        invariant
            n == sizes@.len(),
            i <= n,
            forall|j: int| 0 <= j < i ==> size_accepted(#[trigger] sizes@[j]),
        decreases n - i,
    {
        match sizes[i] {
            None => {
                return Err(ImportError::Unreadable(i));
            },
            Some(size) => {
                if size >= MAX_BYTES_FILE_SIZE {
                    return Err(ImportError::TooLarge(i));
                }
            },
        }
        i = i + 1;
    }
    Ok(())
}

/// The indices below `n` whose size could not be read, in order.
pub open spec fn unreadable_before(sizes: Seq<Option<u64>>, n: int) -> Seq<usize>
    decreases n,
{
    if n <= 0 {
        Seq::empty()
    } else if sizes[n - 1] is None {
        unreadable_before(sizes, n - 1).push((n - 1) as usize)
    } else {
        unreadable_before(sizes, n - 1)
    }
}

/// The indices below `n` whose size was read and is small enough, in order.
pub open spec fn accepted_before(sizes: Seq<Option<u64>>, n: int) -> Seq<usize>
    decreases n,
{
    if n <= 0 {
        Seq::empty()
    } else if size_accepted(sizes[n - 1]) {
        accepted_before(sizes, n - 1).push((n - 1) as usize)
    } else {
        accepted_before(sizes, n - 1)
    }
}

/// What the file opener does with a set of chosen files.
#[derive(Debug, PartialEq, Eq)]
pub struct OpenPlan {
    /// The files whose size could not be read, each reported and skipped.
    pub unreadable: Vec<usize>,
    /// The first file found too large, if any: it is reported and nothing
    /// is imported.
    pub too_large: Option<usize>,
    /// The files to import (none when a file is too large).
    pub to_import: Vec<usize>,
}

/// Plans the file opener's import: files are examined in order; a file
/// whose size cannot be read is reported and skipped; the first file too
/// large is reported and stops everything, with nothing imported; when no
/// file is too large, the readable files are imported.
pub fn plan_file_open(sizes: &Vec<Option<u64>>) -> (plan: OpenPlan)
    ensures
        match plan.too_large {
            None => {
                &&& forall|i: int|
                    0 <= i < sizes@.len() ==> (#[trigger] sizes@[i] matches Some(s) ==> s
                        < MAX_BYTES_FILE_SIZE)
                &&& plan.unreadable@ == unreadable_before(sizes@, sizes@.len() as int)
                &&& plan.to_import@ == accepted_before(sizes@, sizes@.len() as int)
            },
            Some(t) => {
                &&& t < sizes@.len()
                &&& sizes@[t as int] matches Some(s) && s >= MAX_BYTES_FILE_SIZE
                &&& forall|i: int|
                    0 <= i < t ==> (#[trigger] sizes@[i] matches Some(s) ==> s
                        < MAX_BYTES_FILE_SIZE)
                &&& plan.unreadable@ == unreadable_before(sizes@, t as int)
                &&& plan.to_import@.len() == 0
            },
        },
{
    let n = sizes.len();
    let mut unreadable: Vec<usize> = Vec::new();
    let mut accepted: Vec<usize> = Vec::new();
    let mut i: usize = 0;
    while i < n
        invariant
            n == sizes@.len(),
            i <= n,
            forall|j: int|
                0 <= j < i ==> (#[trigger] sizes@[j] matches Some(s) ==> s < MAX_BYTES_FILE_SIZE),
            unreadable@ == unreadable_before(sizes@, i as int),
            accepted@ == accepted_before(sizes@, i as int),
        decreases n - i,
    {
        match sizes[i] {
            Some(size) => {
                if size >= MAX_BYTES_FILE_SIZE {
                    return OpenPlan { unreadable, too_large: Some(i), to_import: Vec::new() };
                }
                accepted.push(i);
            },
            None => {
                unreadable.push(i);
            },
        }
        i = i + 1;
    }
    OpenPlan { unreadable, too_large: None, to_import: accepted }
}

} // verus!
