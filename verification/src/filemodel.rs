//! A byte-level model of the shared output file: what the planned
//! positional writes do to it, and why resume yields the same bytes as a
//! fresh download.

use vstd::prelude::*;
use crate::segment::{lemma_plan_tail, lemma_plan_valid, spec_plan, valid_plan, Segment};

verus! {

/// `file` with `data` written positionally at offset `off`.
pub open spec fn write_at(file: Seq<u8>, off: int, data: Seq<u8>) -> Seq<u8>
    recommends
        0 <= off,
        off + data.len() <= file.len(),
{
    file.subrange(0, off) + data + file.subrange(off + data.len(), file.len() as int)
}

/// A positional write keeps the file length and touches exactly the bytes
/// of `[off, off + data.len())`.
pub proof fn lemma_write_at_index(file: Seq<u8>, off: int, data: Seq<u8>)
    requires
        0 <= off,
        off + data.len() <= file.len(),
    ensures
        write_at(file, off, data).len() == file.len(),
        forall|i: int|
            0 <= i < file.len() ==> #[trigger] write_at(file, off, data)[i] == (if off <= i < off
                + data.len() {
                data[i - off]
            } else {
                file[i]
            }),
{
}

/// Positional writes into disjoint ranges commute: with a valid plan, the
/// shared file's final bytes do not depend on the order in which the
/// workers' writes land.
pub proof fn lemma_disjoint_writes_commute(
    file: Seq<u8>,
    off1: int,
    data1: Seq<u8>,
    off2: int,
    data2: Seq<u8>,
)
    requires
        0 <= off1,
        0 <= off2,
        off1 + data1.len() <= file.len(),
        off2 + data2.len() <= file.len(),
        off1 + data1.len() <= off2 || off2 + data2.len() <= off1,
    ensures
        write_at(write_at(file, off1, data1), off2, data2) == write_at(
            write_at(file, off2, data2),
            off1,
            data1,
        ),
{
    lemma_write_at_index(file, off1, data1);
    lemma_write_at_index(file, off2, data2);
    lemma_write_at_index(write_at(file, off1, data1), off2, data2);
    lemma_write_at_index(write_at(file, off2, data2), off1, data1);
    assert(write_at(write_at(file, off1, data1), off2, data2) =~= write_at(
        write_at(file, off2, data2),
        off1,
        data1,
    ));
}

/// The file after every segment worker wrote its slice of the remote
/// content, in plan order.
pub open spec fn apply_plan_writes(file: Seq<u8>, segs: Seq<Segment>, remote: Seq<u8>) -> Seq<u8>
    decreases segs.len(),
{
    if segs.len() == 0 {
        file
    } else {
        let seg = segs[0];
        let written = write_at(
            file,
            seg.start as int,
            remote.subrange(seg.start as int, seg.end + 1),
        );
        apply_plan_writes(written, segs.subrange(1, segs.len() as int), remote)
    }
}

/// After every worker of a valid plan wrote its slice of the remote
/// content, a file whose first `existing` bytes already matched the remote
/// content equals it byte for byte.
pub proof fn lemma_plan_writes_reconstruct(
    file: Seq<u8>,
    segs: Seq<Segment>,
    remote: Seq<u8>,
    existing: int,
    total: int,
)
    requires
        valid_plan(segs, existing, total),
        0 <= existing <= total,
        file.len() == total,
        remote.len() == total,
        file.subrange(0, existing) == remote.subrange(0, existing),
    ensures
        apply_plan_writes(file, segs, remote) == remote,
    decreases segs.len(),
{
    if existing >= total {
        assert forall|i: int| 0 <= i < total implies file[i] == remote[i] by {
            assert(file.subrange(0, existing)[i] == file[i]);
            assert(remote.subrange(0, existing)[i] == remote[i]);
        }
        assert(file =~= remote);
    } else {
        let seg = segs[0];
        assert(seg.start == existing);
        lemma_plan_tail(segs, existing, total);
        let data = remote.subrange(seg.start as int, seg.end + 1);
        let written = write_at(file, seg.start as int, data);
        lemma_write_at_index(file, seg.start as int, data);
        assert forall|i: int| 0 <= i < seg.end + 1 implies written[i] == remote[i] by {
            assert(written[i] == (if seg.start <= i < seg.start + data.len() {
                data[i - seg.start]
            } else {
                file[i]
            }));
            if i < existing {
                assert(file.subrange(0, existing)[i] == file[i]);
                assert(remote.subrange(0, existing)[i] == remote[i]);
            } else {
                assert(data[i - seg.start] == remote[i]);
            }
        }
        assert(written.subrange(0, seg.end + 1) =~= remote.subrange(0, seg.end + 1));
        lemma_plan_writes_reconstruct(
            written,
            segs.subrange(1, segs.len() as int),
            remote,
            seg.end + 1,
            total,
        );
    }
}

/// Sequential resume: appending the rest of the remote content to a partial
/// file that matches its prefix yields the full remote content, byte for
/// byte the same as a fresh download.
pub proof fn lemma_resume_append_reconstructs(partial: Seq<u8>, remote: Seq<u8>)
    requires
        partial.len() <= remote.len(),
        partial == remote.subrange(0, partial.len() as int),
    ensures
        partial + remote.subrange(partial.len() as int, remote.len() as int) == remote,
{
    assert(partial + remote.subrange(partial.len() as int, remote.len() as int) =~= remote);
}

/// Segmented resume: pre-sizing a partial file of `k` matching bytes to the
/// full length and letting each planned worker write its slice of the
/// remote content yields a file byte-identical to a fresh full download.
pub proof fn lemma_segmented_resume_matches_fresh(
    padded: Seq<u8>,
    remote: Seq<u8>,
    k: int,
    count: int,
)
    requires
        0 <= k <= remote.len(),
        remote.len() <= u64::MAX,
        padded.len() == remote.len(),
        padded.subrange(0, k) == remote.subrange(0, k),
        1 <= count,
    ensures
        apply_plan_writes(padded, spec_plan(k, remote.len() as int, count), remote) == remote,
{
    lemma_plan_valid(k, remote.len() as int, count);
    lemma_plan_writes_reconstruct(
        padded,
        spec_plan(k, remote.len() as int, count),
        remote,
        k,
        remote.len() as int,
    );
}

} // verus!
