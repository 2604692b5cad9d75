//! Properties that relate several calls on the frequency table.

use crate::capture::{counted_key, spec_next_action, CaptureAction, CaptureEvent, StopReason};
use crate::fingerprint::{spec_fingerprint, PacketInfos};
use crate::table::{count_in, frames_with, rows_agree, saturated, COUNT_MAX};
use vstd::prelude::*;

verus! {

broadcast use vstd::seq_lib::group_to_multiset_ensures;

proof fn lemma_frames_with_bounded(frames: Seq<Seq<u8>>, k: PacketInfos)
    ensures
        frames_with(frames, k) <= frames.len(),
    decreases frames.len(),
{
    if frames.len() > 0 {
        lemma_frames_with_bounded(frames.drop_last(), k);
    }
}

proof fn lemma_frames_with_remove(frames: Seq<Seq<u8>>, j: int, k: PacketInfos)
    requires
        0 <= j < frames.len(),
    ensures
        frames_with(frames, k) == frames_with(frames.remove(j), k) + if spec_fingerprint(
            frames[j],
        ) == Some(k) {
            1nat
        } else {
            0nat
        },
    decreases frames.len(),
{
    if j == frames.len() - 1 {
        assert(frames.remove(j) == frames.drop_last());
    } else {
        let rest = frames.remove(j);
        assert(rest.drop_last() == frames.drop_last().remove(j));
        assert(rest.last() == frames.last());
        lemma_frames_with_remove(frames.drop_last(), j, k);
    }
}

/// Counting does not depend on arrival order: two sequences holding the
/// same frames, each as often, give every fingerprint the same number of
/// frames. In particular every interleaving of the frames read by several
/// capture sources counts alike.
pub proof fn law_count_is_order_independent(a: Seq<Seq<u8>>, b: Seq<Seq<u8>>, k: PacketInfos)
    requires
        a.to_multiset() == b.to_multiset(),
    ensures
        frames_with(a, k) == frames_with(b, k),
    decreases a.len(),
{
    if a.len() == 0 {
        assert(a.to_multiset().len() == 0);
        assert(b.to_multiset().len() == b.len());
        assert(b == Seq::<Seq<u8>>::empty());
    } else {
        let x = a.last();
        assert(a.drop_last().push(x) == a);
        assert(a.to_multiset() == a.drop_last().to_multiset().insert(x));
        assert(b.to_multiset().count(x) > 0);
        assert(b.contains(x));
        let j = choose|j: int| 0 <= j < b.len() && b[j] == x;
        assert(b.remove(j).to_multiset() == b.to_multiset().remove(x));
        assert(a.drop_last().to_multiset() == a.to_multiset().remove(x));
        law_count_is_order_independent(a.drop_last(), b.remove(j), k);
        lemma_frames_with_remove(b, j, k);
    }
}

/// Counting frames into an empty table leaves each fingerprint's counter
/// equal to the number of frames with that fingerprint: the saturation at
/// `COUNT_MAX` is never reached by a sequence that fits in memory.
pub proof fn law_count_from_empty(frames: Seq<Seq<u8>>, k: PacketInfos)
    requires
        frames.len() <= COUNT_MAX,
    ensures
        saturated(count_in(Map::<PacketInfos, nat>::empty(), k) + frames_with(frames, k))
            == frames_with(frames, k),
{
    lemma_frames_with_bounded(frames, k);
}

/// No increment is lost: `n` frames that all carry fingerprint `k` count
/// `n` under `k`, in whatever order the sources delivered them.
pub proof fn law_same_fingerprint_sums(frames: Seq<Seq<u8>>, k: PacketInfos)
    requires
        forall|i: int| 0 <= i < frames.len() ==> spec_fingerprint(#[trigger] frames[i]) == Some(k),
    ensures
        frames_with(frames, k) == frames.len(),
    decreases frames.len(),
{
    if frames.len() > 0 {
        law_same_fingerprint_sums(frames.drop_last(), k);
    }
}

/// A cancellation ends the read loop at once, and the step that sees it
/// counts nothing: every counter keeps the value it had.
pub proof fn law_cancel_stops_and_keeps_counts(c: nat)
    requires
        c <= COUNT_MAX,
    ensures
        spec_next_action(CaptureEvent::CancelRequested) == CaptureAction::Stop(
            StopReason::Cancelled,
        ),
        counted_key(CaptureEvent::CancelRequested) == None::<PacketInfos>,
        saturated(c + 0nat) == c,
{
}

/// Two snapshots of the same counts hold the same rows: with no capture in
/// between, a snapshot taken again has identical content.
pub proof fn law_snapshots_agree(
    a: Seq<(PacketInfos, u64)>,
    b: Seq<(PacketInfos, u64)>,
    m: Map<PacketInfos, nat>,
)
    requires
        rows_agree(a, m),
        rows_agree(b, m),
    ensures
        a.len() == b.len(),
        forall|row: (PacketInfos, u64)| a.contains(row) <==> b.contains(row),
{
    assert forall|row: (PacketInfos, u64)| a.contains(row) implies b.contains(row) by {
        let i = choose|i: int| 0 <= i < a.len() && a[i] == row;
        assert(m.contains_key(a[i].0));
        let j = choose|j: int| 0 <= j < b.len() && (#[trigger] b[j]).0 == row.0;
        assert(b[j] == row);
    }
    assert forall|row: (PacketInfos, u64)| b.contains(row) implies a.contains(row) by {
        let i = choose|i: int| 0 <= i < b.len() && b[i] == row;
        assert(m.contains_key(b[i].0));
        let j = choose|j: int| 0 <= j < a.len() && (#[trigger] a[j]).0 == row.0;
        assert(a[j] == row);
    }
    lemma_rows_len(a, m);
    lemma_rows_len(b, m);
}

/// The number of rows that agree with `m` is the number of keys of `m`.
proof fn lemma_rows_len(rows: Seq<(PacketInfos, u64)>, m: Map<PacketInfos, nat>)
    requires
        rows_agree(rows, m),
    ensures
        m.dom().finite(),
        m.dom().len() == rows.len(),
{
    let keys = rows.map_values(|row: (PacketInfos, u64)| row.0);
    assert(keys.no_duplicates()) by {
        assert forall|i: int, j: int| 0 <= i < keys.len() && 0 <= j < keys.len() && i != j
            implies keys[i] != keys[j] by {
            if i < j {
                assert(rows[i].0 != rows[j].0);
            } else {
                assert(rows[j].0 != rows[i].0);
            }
        }
    }
    assert(keys.to_set() == m.dom()) by {
        assert forall|k: PacketInfos| keys.to_set().contains(k) <==> m.dom().contains(k) by {
            if m.dom().contains(k) {
                let i = choose|i: int| 0 <= i < rows.len() && (#[trigger] rows[i]).0 == k;
                assert(keys[i] == k);
            }
            if keys.to_set().contains(k) {
                let i = choose|i: int| 0 <= i < keys.len() && keys[i] == k;
                assert(m.contains_key(rows[i].0));
            }
        }
    }
    keys.unique_seq_to_set();
}

} // verus!
