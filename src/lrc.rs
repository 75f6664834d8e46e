use vstd::prelude::*;

use crate::similarity::{cosine_exceeds, cosine_exceeds_exec};
use crate::text::{contains, contains_exec, trim, trimmed};
use crate::timestamp::{TimeDelta, TimeStamp};

verus! {

/// Non-empty lines between a marker's own slot and the line that holds its text,
/// in the caption layout this engine reads.
pub const LINE_OFFSET: usize = 2;

/// Similarity, in percent, above which two texts count as near-identical.
pub const NEAR_IDENTICAL_PCT: u32 = 90;

/// Similarity, in percent, above which two texts count as similar.
pub const SIMILAR_PCT: u32 = 85;

/// How far, in hundredths of a second, the next event may follow for the tight window.
pub const TIGHT_WINDOW_CENTIS: u32 = 50;

/// The loose window: the next event follows by less than this many hundredths.
pub const LOOSE_WINDOW_CENTIS: u32 = 200;

/// The tunable parts of the engine.
#[derive(Clone, Copy, PartialEq, Eq, Structural, Debug)]
pub struct CleanerConfig {
    /// The text of the `n`-th marker is the non-empty line `n + line_offset`.
    pub line_offset: usize,
    pub near_identical_pct: u32,
    pub similar_pct: u32,
    pub tight_window_centis: u32,
    pub loose_window_centis: u32,
}

impl CleanerConfig {
    /// Thresholds are percentages.
    pub open spec fn wf(&self) -> bool {
        &&& self.near_identical_pct <= 100
        &&& self.similar_pct <= 100
    }

    /// The standard layout and thresholds.
    pub open spec fn standard_spec() -> CleanerConfig {
        CleanerConfig {
            line_offset: LINE_OFFSET,
            near_identical_pct: NEAR_IDENTICAL_PCT,
            similar_pct: SIMILAR_PCT,
            tight_window_centis: TIGHT_WINDOW_CENTIS,
            loose_window_centis: LOOSE_WINDOW_CENTIS,
        }
    }

    pub fn standard() -> (r: CleanerConfig)
        ensures
            r == Self::standard_spec(),
            r.wf(),
    {
        CleanerConfig {
            line_offset: LINE_OFFSET,
            near_identical_pct: NEAR_IDENTICAL_PCT,
            similar_pct: SIMILAR_PCT,
            tight_window_centis: TIGHT_WINDOW_CENTIS,
            loose_window_centis: LOOSE_WINDOW_CENTIS,
        }
    }
}

/// How the next event relates to the current representative.
#[derive(Clone, Copy, PartialEq, Eq, Structural, Debug)]
pub enum Similarity {
    /// Same text again, close in time: dropped.
    Duplicate,
    /// The next text holds the current one: dropped.
    BContainsA,
    /// The current text holds the next one: appended to it.
    AContainsB,
    /// Unrelated texts at the same moment: appended to the current one.
    TimeCoincident,
    /// A new representative.
    Distinct,
}

/// One timed caption event, as a value.
pub struct LineView {
    pub timestamp: TimeStamp,
    pub content: Seq<char>,
}

/// One timed caption event.
pub struct LrcLine {
    pub timestamp: TimeStamp,
    pub content: Vec<char>,
}

impl View for LrcLine {
    type V = LineView;

    open spec fn view(&self) -> LineView {
        LineView { timestamp: self.timestamp, content: self.content@ }
    }
}

/// With Δ = `a` − `b` taken part by part (minutes apart from hundredths, no
/// borrowing): Δ's minutes are 0 and −tight ≤ Δ's hundredths ≤ 0.
pub open spec fn tight_window(a: TimeStamp, b: TimeStamp, cfg: CleanerConfig) -> bool {
    a.minutes - b.minutes == 0 && -(cfg.tight_window_centis as int) <= a.centis - b.centis <= 0
}

/// As the tight window, with the loose bound, which is exclusive: −loose < Δ's
/// hundredths ≤ 0.
pub open spec fn loose_window(a: TimeStamp, b: TimeStamp, cfg: CleanerConfig) -> bool {
    a.minutes - b.minutes == 0 && -(cfg.loose_window_centis as int) < a.centis - b.centis <= 0
}

/// The class of the pair (`a` the current representative, `b` the next event):
/// the first rule that holds wins.
pub open spec fn classify(a: LineView, b: LineView, cfg: CleanerConfig) -> Similarity {
    let tight = tight_window(a.timestamp, b.timestamp, cfg);
    let loose = loose_window(a.timestamp, b.timestamp, cfg);
    let similar = cosine_exceeds(a.content, b.content, cfg.similar_pct as int);
    let near = cosine_exceeds(a.content, b.content, cfg.near_identical_pct as int);
    if (similar && tight) || (near && loose) {
        Similarity::Duplicate
    } else if contains(b.content, trim(a.content)) && tight {
        Similarity::BContainsA
    } else if contains(a.content, trim(b.content)) && tight {
        Similarity::AContainsB
    } else if tight {
        Similarity::TimeCoincident
    } else {
        Similarity::Distinct
    }
}

/// `a` with the text of `b` appended after one space; `a`'s time stamp stays.
pub open spec fn merged(a: LineView, b: LineView) -> LineView {
    LineView { timestamp: a.timestamp, content: a.content + seq![' '] + b.content }
}

fn in_tight_window(d: TimeDelta, cfg: &CleanerConfig) -> (r: bool)
    ensures
        r == (d.minutes == 0 && -(cfg.tight_window_centis as int) <= d.centis <= 0),
{
    d.minutes == 0 && -(cfg.tight_window_centis as i64) <= d.centis && d.centis <= 0
}

fn in_loose_window(d: TimeDelta, cfg: &CleanerConfig) -> (r: bool)
    ensures
        r == (d.minutes == 0 && -(cfg.loose_window_centis as int) < d.centis <= 0),
{
    d.minutes == 0 && -(cfg.loose_window_centis as i64) < d.centis && d.centis <= 0
}

impl LrcLine {
    /// A copy of this line.
    pub fn copy(&self) -> (r: LrcLine)
        ensures
            r@ == self@,
    {
        LrcLine { timestamp: self.timestamp, content: self.content.clone() }
    }

    /// The class of this line (the current representative) and the next one.
    pub fn is_similar(&self, compared: &LrcLine, cfg: &CleanerConfig) -> (r: Similarity)
        requires
            cfg.wf(),
        ensures
            r == classify(self@, compared@, *cfg),
    {
        let delta = self.timestamp.minus(&compared.timestamp);
        let tight = in_tight_window(delta, cfg);
        let loose = in_loose_window(delta, cfg);
        let similar = cosine_exceeds_exec(&self.content, &compared.content, cfg.similar_pct);
        let near = cosine_exceeds_exec(
            &self.content,
            &compared.content,
            cfg.near_identical_pct,
        );
        if (similar && tight) || (near && loose) {
            return Similarity::Duplicate;
        }
        if tight {
            let a_trimmed = trimmed(&self.content);
            if contains_exec(&compared.content, &a_trimmed) {
                return Similarity::BContainsA;
            }
            let b_trimmed = trimmed(&compared.content);
            if contains_exec(&self.content, &b_trimmed) {
                return Similarity::AContainsB;
            }
            Similarity::TimeCoincident
        } else {
            Similarity::Distinct
        }
    }

    /// This line with the text of `merge_item` appended after one space.
    pub fn merge(&self, merge_item: &LrcLine) -> (r: LrcLine)
        ensures
            r@ == merged(self@, merge_item@),
    {
        let mut content = self.content.clone();
        content.push(' ');
        let mut i: usize = 0;
        while i < merge_item.content.len()
            invariant
                i <= merge_item.content.len(),
                content@ == self.content@ + seq![' '] + merge_item.content@.take(i as int),
            decreases merge_item.content.len() - i,
        {
            content.push(merge_item.content[i]);
            i += 1;
            assert(content@ =~= self.content@ + seq![' '] + merge_item.content@.take(i as int));
        }
        assert(merge_item.content@.take(i as int) =~= merge_item.content@);
        LrcLine { timestamp: self.timestamp, content }
    }
}

} // verus!
