use vstd::prelude::*;

use crate::lrc::{classify, merged, CleanerConfig, LineView, LrcLine, Similarity};
use crate::timestamp::TimeStamp;

verus! {

/// The values of a sequence of lines.
pub open spec fn line_views(v: Seq<LrcLine>) -> Seq<LineView> {
    v.map_values(|l: LrcLine| l@)
}

/// The representatives after one more event `b`: the first event seeds the list; after
/// that `b` is compared with the last representative and merged into it, appended, or
/// dropped.
pub open spec fn coalesce_step(out: Seq<LineView>, b: LineView, cfg: CleanerConfig) -> Seq<
    LineView,
> {
    if out.len() == 0 {
        seq![b]
    } else {
        match classify(out.last(), b, cfg) {
            Similarity::AContainsB | Similarity::TimeCoincident => out.drop_last().push(
                merged(out.last(), b),
            ),
            Similarity::Distinct => out.push(b),
            Similarity::Duplicate | Similarity::BContainsA => out,
        }
    }
}

/// The representatives of a sequence of events, in one forward pass.
pub open spec fn coalesce(lines: Seq<LineView>, cfg: CleanerConfig) -> Seq<LineView>
    decreases lines.len(),
{
    if lines.len() == 0 {
        seq![]
    } else {
        coalesce_step(coalesce(lines.drop_last(), cfg), lines.last(), cfg)
    }
}

/// Reduces a sequence of events to its representatives.
pub fn coalesce_lines(lines: &Vec<LrcLine>, cfg: &CleanerConfig) -> (r: Vec<LrcLine>)
    requires
        cfg.wf(),
    ensures
        line_views(r@) == coalesce(line_views(lines@), *cfg),
        r.len() <= lines.len(),
{
    let mut out: Vec<LrcLine> = Vec::new();
    let mut i: usize = 0;
    assert(line_views(lines@).take(0) =~= seq![]);
    while i < lines.len()
        invariant
            i <= lines.len(),
            cfg.wf(),
            line_views(out@) == coalesce(line_views(lines@).take(i as int), *cfg),
            out.len() <= i,
        decreases lines.len() - i,
    {
        let ghost prev = line_views(out@);
        assert(line_views(lines@).take(i + 1).drop_last() =~= line_views(lines@).take(i as int));
        if out.len() == 0 {
            out.push(lines[i].copy());
            assert(line_views(out@) =~= seq![lines@[i as int]@]);
        } else {
            let last = out.len() - 1;
            let class = out[last].is_similar(&lines[i], cfg);
            match class {
                Similarity::AContainsB | Similarity::TimeCoincident => {
                    let m = out[last].merge(&lines[i]);
                    out.set(last, m);
                    assert(line_views(out@) =~= prev.drop_last().push(merged(prev.last(), lines@[i as int]@)));
                },
                Similarity::Distinct => {
                    out.push(lines[i].copy());
                    assert(line_views(out@) =~= prev.push(lines@[i as int]@));
                },
                Similarity::Duplicate | Similarity::BContainsA => {},
            }
        }
        i += 1;
    }
    assert(line_views(lines@).take(i as int) =~= line_views(lines@));
    out
}

/// For each representative, the index of the event that opened it.
pub open spec fn origins(lines: Seq<LineView>, cfg: CleanerConfig) -> Seq<int>
    decreases lines.len(),
{
    if lines.len() == 0 {
        seq![]
    } else {
        let prev = coalesce(lines.drop_last(), cfg);
        let before = origins(lines.drop_last(), cfg);
        if prev.len() == 0 {
            seq![lines.len() - 1]
        } else if classify(prev.last(), lines.last(), cfg) == Similarity::Distinct {
            before.push(lines.len() - 1)
        } else {
            before
        }
    }
}

proof fn lemma_origins(lines: Seq<LineView>, cfg: CleanerConfig)
    ensures
        origins(lines, cfg).len() == coalesce(lines, cfg).len(),
        coalesce(lines, cfg).len() <= lines.len(),
        lines.len() > 0 ==> coalesce(lines, cfg).len() > 0,
        forall|k: int|
            0 <= k < origins(lines, cfg).len() ==> 0 <= #[trigger] origins(lines, cfg)[k]
                < lines.len(),
        forall|j: int, k: int|
            0 <= j < k < origins(lines, cfg).len() ==> origins(lines, cfg)[j] < origins(
                lines,
                cfg,
            )[k],
        forall|k: int|
            0 <= k < coalesce(lines, cfg).len() ==> #[trigger] coalesce(lines, cfg)[k].timestamp
                == lines[origins(lines, cfg)[k]].timestamp,
    decreases lines.len(),
{
    if lines.len() > 0 {
        let init = lines.drop_last();
        lemma_origins(init, cfg);
        assert forall|k: int| 0 <= k < init.len() implies init[k] == lines[k] by {}
    }
}

/// Time stamps in order: `a` is not later than `b`.
pub open spec fn stamp_le(a: TimeStamp, b: TimeStamp) -> bool {
    a.minutes < b.minutes || (a.minutes == b.minutes && a.centis <= b.centis)
}

/// The events' time stamps never go back.
pub open spec fn stamps_sorted(lines: Seq<LineView>) -> bool {
    forall|j: int, k: int|
        0 <= j < k < lines.len() ==> stamp_le(#[trigger] lines[j].timestamp, #[trigger] lines[k].timestamp)
}

/// `f` picks, for each line of `out`, an event of `lines` with the same time stamp,
/// at increasing indices.
pub open spec fn order_map(f: Seq<int>, lines: Seq<LineView>, out: Seq<LineView>) -> bool {
    &&& f.len() == out.len()
    &&& forall|k: int| 0 <= k < f.len() ==> 0 <= #[trigger] f[k] < lines.len()
    &&& forall|j: int, k: int| 0 <= j < k < f.len() ==> f[j] < f[k]
    &&& forall|k: int| 0 <= k < f.len() ==> #[trigger] out[k].timestamp == lines[f[k]].timestamp
}

/// Coalescing keeps the input's order: each representative carries the time stamp
/// of one input event, and these events come in input order. So time stamps that
/// never go back in the input never go back in the output.
pub proof fn lemma_order_preserved(lines: Seq<LineView>, cfg: CleanerConfig)
    ensures
        exists|f: Seq<int>| #[trigger] order_map(f, lines, coalesce(lines, cfg)),
        stamps_sorted(lines) ==> stamps_sorted(coalesce(lines, cfg)),
{
    lemma_origins(lines, cfg);
    let f = origins(lines, cfg);
    let out = coalesce(lines, cfg);
    assert(order_map(f, lines, out));
    if stamps_sorted(lines) {
        assert forall|j: int, k: int| 0 <= j < k < out.len() implies stamp_le(
            #[trigger] out[j].timestamp,
            #[trigger] out[k].timestamp,
        ) by {
            assert(out[j].timestamp == lines[f[j]].timestamp);
            assert(out[k].timestamp == lines[f[k]].timestamp);
        }
    }
}

/// Coalescing never adds events: the output is at most as long as the input, and
/// not empty when the input is not.
pub proof fn lemma_length_bound(lines: Seq<LineView>, cfg: CleanerConfig)
    ensures
        coalesce(lines, cfg).len() <= lines.len(),
        lines.len() > 0 ==> coalesce(lines, cfg).len() > 0,
{
    lemma_origins(lines, cfg);
}

} // verus!
