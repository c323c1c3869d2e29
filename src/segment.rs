//! Splitting a time-ordered stream of telemetry records into windows.

use vstd::prelude::*;

verus! {

/// One telemetry sample: its time in nanoseconds and what was measured then.
///
/// The segmenter reads only the timestamp; the measurement rides along.
#[derive(Clone, Copy, Debug)]
pub struct TelemetryRecord<M> {
    pub timestamp_ns: u64,
    pub measurement: M,
}

/// Distance in nanoseconds from `prev` forward to `next`; a timestamp that
/// steps backwards counts as no time at all.
pub open spec fn gap(prev: u64, next: u64) -> int {
    if next >= prev {
        next - prev
    } else {
        0
    }
}

/// Every step between neighbouring records of `w` is at most `threshold`.
pub open spec fn is_steady<M>(w: Seq<TelemetryRecord<M>>, threshold: u64) -> bool {
    forall|j: int|
        0 < j < w.len() ==> gap(w[j - 1].timestamp_ns, #[trigger] w[j].timestamp_ns) <= threshold
}

/// The step from the end of one window to the start of the next exceeds
/// `threshold`.
pub open spec fn is_break<M>(
    before: Seq<TelemetryRecord<M>>,
    after: Seq<TelemetryRecord<M>>,
    threshold: u64,
) -> bool {
    gap(before.last().timestamp_ns, after[0].timestamp_ns) > threshold
}

/// `ws` cuts `s` into maximal runs whose internal steps stay within
/// `threshold`: the runs are non-empty, concatenate back to `s`, and a new run
/// starts exactly where a step exceeds `threshold`.
pub open spec fn is_windowing<M>(
    s: Seq<TelemetryRecord<M>>,
    ws: Seq<Seq<TelemetryRecord<M>>>,
    threshold: u64,
) -> bool {
    &&& ws.flatten() == s
    &&& forall|k: int| 0 <= k < ws.len() ==> #[trigger] ws[k].len() > 0
    &&& forall|k: int| 0 <= k < ws.len() ==> is_steady(#[trigger] ws[k], threshold)
    &&& forall|k: int| 0 < k < ws.len() ==> is_break(ws[k - 1], #[trigger] ws[k], threshold)
}

/// The first window of a windowing is the run of `s` up to its first break,
/// and the other windows are a windowing of what follows it.
proof fn lemma_first_window<M>(
    s: Seq<TelemetryRecord<M>>,
    ws: Seq<Seq<TelemetryRecord<M>>>,
    threshold: u64,
)
    requires
        is_windowing(s, ws, threshold),
        ws.len() > 0,
    ensures
        0 < ws[0].len() <= s.len(),
        ws[0] == s.subrange(0, ws[0].len() as int),
        is_windowing(s.subrange(ws[0].len() as int, s.len() as int), ws.drop_first(), threshold),
        forall|j: int|
            0 < j < ws[0].len() ==> gap(s[j - 1].timestamp_ns, #[trigger] s[j].timestamp_ns)
                <= threshold,
        ws[0].len() < s.len() ==> gap(
            s[ws[0].len() - 1].timestamp_ns,
            s[ws[0].len() as int].timestamp_ns,
        ) > threshold,
{
    let first = ws[0];
    let d = ws.drop_first();
    let len = first.len() as int;
    assert(ws.flatten() == first + d.flatten());
    assert(first.len() > 0);
    assert(s.subrange(0, len) =~= first);
    assert(s.subrange(len, s.len() as int) =~= d.flatten());
    assert forall|k: int| 0 <= k < d.len() implies #[trigger] d[k].len() > 0 && is_steady(
        d[k],
        threshold,
    ) by {
        assert(d[k] == ws[k + 1]);
    }
    assert forall|k: int| 0 < k < d.len() implies is_break(d[k - 1], #[trigger] d[k], threshold) by {
        assert(d[k] == ws[k + 1]);
        assert(d[k - 1] == ws[k]);
    }
    assert(is_steady(first, threshold));
    assert forall|j: int| 0 < j < len implies gap(s[j - 1].timestamp_ns, #[trigger] s[j].timestamp_ns)
        <= threshold by {
        assert(s[j] == first[j]);
        assert(s[j - 1] == first[j - 1]);
    }
    if len < s.len() {
        assert(d.len() > 0);
        assert(d.flatten() == d[0] + d.drop_first().flatten());
        assert(d[0] == ws[1]);
        assert(ws[1].len() > 0);
        assert(s[len] == ws[1][0]);
        assert(s[len - 1] == first.last());
        assert(is_break(ws[0], ws[1], threshold));
    }
}

/// A sequence of records has exactly one windowing for a given threshold, so
/// the windows that `chunk_by_time` returns are fixed by its input.
pub proof fn lemma_windowing_unique<M>(
    s: Seq<TelemetryRecord<M>>,
    ws1: Seq<Seq<TelemetryRecord<M>>>,
    ws2: Seq<Seq<TelemetryRecord<M>>>,
    threshold: u64,
)
    requires
        is_windowing(s, ws1, threshold),
        is_windowing(s, ws2, threshold),
    ensures
        ws1 == ws2,
    decreases ws1.len(),
{
    if ws1.len() == 0 || ws2.len() == 0 {
        if ws1.len() > 0 {
            lemma_first_window(s, ws1, threshold);
        }
        if ws2.len() > 0 {
            lemma_first_window(s, ws2, threshold);
        }
        assert(ws1 =~= ws2);
    } else {
        lemma_first_window(s, ws1, threshold);
        lemma_first_window(s, ws2, threshold);
        let l1 = ws1[0].len() as int;
        let l2 = ws2[0].len() as int;
        if l1 < l2 {
            assert(gap(s[l1 - 1].timestamp_ns, s[l1].timestamp_ns) <= threshold);
        }
        if l2 < l1 {
            assert(gap(s[l2 - 1].timestamp_ns, s[l2].timestamp_ns) <= threshold);
        }
        assert(l1 == l2);
        let rest = s.subrange(l1, s.len() as int);
        lemma_windowing_unique(rest, ws1.drop_first(), ws2.drop_first(), threshold);
        assert forall|k: int| 0 <= k < ws1.len() implies ws1[k] == ws2[k] by {
            if k > 0 {
                assert(ws1[k] == ws1.drop_first()[k - 1]);
                assert(ws2[k] == ws2.drop_first()[k - 1]);
            }
        }
        assert(ws1 =~= ws2);
    }
}

/// The contents of a vector of windows.
pub open spec fn windows_view<M>(ws: Seq<Vec<TelemetryRecord<M>>>) -> Seq<Seq<TelemetryRecord<M>>> {
    ws.map_values(|w: Vec<TelemetryRecord<M>>| w@)
}

/// Saturating forward distance between two timestamps.
pub fn time_gap(prev: u64, next: u64) -> (r: u64)
    ensures
        r == gap(prev, next),
{
    next.saturating_sub(prev)
}

/// Groups `records` into windows: a new window opens wherever the step from
/// the previous record's timestamp exceeds `threshold`; a step of exactly
/// `threshold`, or a step backwards in time, stays in the running window.
pub fn chunk_by_time<M: Copy>(records: &Vec<TelemetryRecord<M>>, threshold: u64) -> (r: Vec<
    Vec<TelemetryRecord<M>>,
>)
    ensures
        is_windowing(records@, windows_view(r@), threshold),
        records@.len() == 0 ==> r@.len() == 0,
        records@.len() == 1 ==> r@.len() == 1 && r@[0]@ == records@,
{
    let n = records.len();
    let mut chunks: Vec<Vec<TelemetryRecord<M>>> = Vec::new();
    if n == 0 {
        proof {
            assert(windows_view(chunks@) =~= Seq::<Seq<TelemetryRecord<M>>>::empty());
            assert(windows_view(chunks@).flatten() =~= records@);
        }
        return chunks;
    }
    let mut current: Vec<TelemetryRecord<M>> = Vec::new();
    current.push(records[0]);
    let mut i: usize = 1;
    while i < n
        invariant
            n == records@.len(),
            1 <= i <= n,
            current@.len() > 0,
            is_steady(current@, threshold),
            windows_view(chunks@).flatten() + current@ == records@.subrange(0, i as int),
            forall|k: int| 0 <= k < chunks@.len() ==> #[trigger] chunks@[k]@.len() > 0,
            forall|k: int| 0 <= k < chunks@.len() ==> is_steady(#[trigger] chunks@[k]@, threshold),
            forall|k: int|
                0 < k < chunks@.len() ==> is_break(chunks@[k - 1]@, #[trigger] chunks@[k]@, threshold),
            chunks@.len() > 0 ==> is_break(chunks@.last()@, current@, threshold),
        decreases n - i,
    {
        let prev = current[current.len() - 1].timestamp_ns;
        let rec = records[i];
        proof {
            let done = windows_view(chunks@).flatten();
            assert(records@.subrange(0, i as int).last() == current@.last());
            assert(records@.subrange(0, i as int + 1) =~= records@.subrange(0, i as int).push(rec));
            assert((done + current@).push(rec) =~= done + current@.push(rec));
        }
        if time_gap(prev, rec.timestamp_ns) > threshold {
            let ghost old_chunks = chunks@;
            let ghost old_current = current@;
            chunks.push(current);
            current = Vec::new();
            current.push(rec);
            proof {
                let vw = windows_view(old_chunks);
                assert(windows_view(chunks@) =~= vw.push(old_current));
                vw.lemma_flatten_push(old_current);
                assert(windows_view(chunks@).flatten() + current@ =~= vw.flatten() + old_current
                    + seq![rec]);
                assert(current@ =~= seq![rec]);
            }
        } else {
            current.push(rec);
            proof {
                assert(current@.last() == rec);
            }
        }
        i = i + 1;
    }
    let ghost old_chunks = chunks@;
    let ghost old_current = current@;
    chunks.push(current);
    proof {
        let vw = windows_view(old_chunks);
        assert(windows_view(chunks@) =~= vw.push(old_current));
        vw.lemma_flatten_push(old_current);
        assert(records@.subrange(0, n as int) =~= records@);
        if n == 1 {
            assert(old_chunks.len() == 0) by {
                if old_chunks.len() > 0 {
                    assert(vw[0].len() > 0);
                    vw.lemma_flatten_length_ge_single_element_length(0);
                    vw.lemma_flatten_and_flatten_alt_are_equivalent();
                }
            }
        }
    }
    chunks
}

} // verus!
