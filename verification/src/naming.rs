//! Resolving the output file name from the URL's path.

use vstd::prelude::*;

verus! {

/// The position right after the last `/` (byte 47) of `path`, or 0 when it
/// has none: where the derived file name starts.
pub open spec fn spec_name_start(path: Seq<u8>) -> int
    decreases path.len(),
{
    if path.len() == 0 {
        0
    } else if path.last() == 47 {
        path.len() as int
    } else {
        spec_name_start(path.drop_last())
    }
}

/// The bytes after the last `/` of `path`: the derived file name, possibly
/// empty.
pub open spec fn spec_derived_name(path: Seq<u8>) -> Seq<u8> {
    path.subrange(spec_name_start(path), path.len() as int)
}

/// The fixed default output name, `downloaded_file`, used when the URL path
/// yields no name of its own.
pub open spec fn spec_default_name() -> Seq<u8> {
    seq![
        100u8,
        111u8,
        119u8,
        110u8,
        108u8,
        111u8,
        97u8,
        100u8,
        101u8,
        100u8,
        95u8,
        102u8,
        105u8,
        108u8,
        101u8,
    ]
}

/// The resolved output name when no explicit path was given: the last
/// segment of the URL path, or the default name when that segment is empty.
pub open spec fn spec_output_name(path: Seq<u8>) -> Seq<u8> {
    if spec_derived_name(path).len() == 0 {
        spec_default_name()
    } else {
        spec_derived_name(path)
    }
}

/// Where the name starts: within bounds, right after a `/` unless at the
/// very beginning, and with no `/` anywhere after it.
proof fn lemma_name_start_char(path: Seq<u8>)
    ensures
        0 <= spec_name_start(path) <= path.len(),
        spec_name_start(path) == 0 || path[spec_name_start(path) - 1] == 47,
        forall|k: int| spec_name_start(path) <= k < path.len() ==> path[k] != 47,
    decreases path.len(),
{
    if path.len() > 0 && path.last() != 47 {
        lemma_name_start_char(path.drop_last());
        assert forall|k: int| spec_name_start(path) <= k < path.len() implies path[k] != 47 by {
            if k < path.len() - 1 {
                assert(path.drop_last()[k] == path[k]);
            }
        }
    }
}

/// Any position right after a `/` (or 0) with no `/` after it is the name
/// start: the characterization pins it uniquely.
proof fn lemma_name_start_unique(path: Seq<u8>, j: int)
    requires
        0 <= j <= path.len(),
        j == 0 || path[j - 1] == 47,
        forall|k: int| j <= k < path.len() ==> path[k] != 47,
    ensures
        j == spec_name_start(path),
{
    lemma_name_start_char(path);
    let s = spec_name_start(path);
    if j < s {
        assert(path[s - 1] == 47);
    } else if j > s {
        assert(path[j - 1] == 47);
    }
}

/// Derives the output file name from a URL path: the bytes after the last
/// `/`, or the fixed default name when they are empty, exactly as
/// `spec_output_name` describes.
pub fn resolve_output_name(path: &[u8]) -> (name: Vec<u8>)
    ensures
        name@ == spec_output_name(path@),
{
    let mut start: usize = 0;
    let mut i: usize = 0;
    while i < path.len()
        invariant
            0 <= start <= i <= path@.len(),
            start == 0 || path@[start - 1] == 47,
            forall|k: int| start <= k < i ==> path@[k] != 47,
        decreases path@.len() - i,
    {
        if path[i] == 47 {
            start = i + 1;
        }
        i = i + 1;
    }
    proof {
        lemma_name_start_unique(path@, start as int);
    }
    let mut name: Vec<u8> = Vec::new();
    let mut j: usize = start;
    while j < path.len()
        invariant
            start <= j <= path@.len(),
            name@ == path@.subrange(start as int, j as int),
        decreases path@.len() - j,
    {
        name.push(path[j]);
        proof {
            assert(name@ =~= path@.subrange(start as int, j as int + 1));
        }
        j = j + 1;
    }
    proof {
        assert(name@ == spec_derived_name(path@));
    }
    if name.len() == 0 {
        name.push(100u8);
        name.push(111u8);
        name.push(119u8);
        name.push(110u8);
        name.push(108u8);
        name.push(111u8);
        name.push(97u8);
        name.push(100u8);
        name.push(101u8);
        name.push(100u8);
        name.push(95u8);
        name.push(102u8);
        name.push(105u8);
        name.push(108u8);
        name.push(101u8);
        proof {
            assert(name@ =~= spec_default_name());
        }
    }
    name
}

} // verus!
