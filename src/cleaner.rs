use vstd::prelude::*;

use crate::coalesce::{coalesce, coalesce_lines, lemma_length_bound, line_views};
use crate::lrc::{CleanerConfig, LineView, LrcLine};
use crate::marker::{collect_time_stamp, lemma_markers_whole, marker_len, markers};
use crate::render::{render_all, render_lines};
use crate::sanitize::{sanitize, sanitize_exec};
use crate::text::{
    chars_of, nonempty_lines, nonempty_lines_exec, remove_all, remove_all_exec, string_of,
    trim, trimmed, views,
};
use crate::timestamp::{parse_marker, parse_stamp, ParseError};

verus! {

/// The event of marker `m`, whose text is the line at index `idx`: the line without
/// the marker, trimmed.
pub open spec fn event_of(m: Seq<char>, lines: Seq<Seq<char>>, idx: int) -> Result<
    LineView,
    ParseError,
> {
    match parse_stamp(m) {
        Err(e) => Err(e),
        Ok(t) => if 0 <= idx < lines.len() {
            Ok(LineView { timestamp: t, content: trim(remove_all(lines[idx], m)) })
        } else {
            Err(ParseError::MissingLine)
        },
    }
}

/// The events of the markers `ms`, the `n`-th taking its text from line `n + offset`;
/// or the error of the first marker that fails.
pub open spec fn assemble(ms: Seq<Seq<char>>, lines: Seq<Seq<char>>, offset: int) -> Result<
    Seq<LineView>,
    ParseError,
>
    decreases ms.len(),
{
    if ms.len() == 0 {
        Ok(seq![])
    } else {
        match assemble(ms.drop_last(), lines, offset) {
            Err(e) => Err(e),
            Ok(prev) => match event_of(ms.last(), lines, ms.len() - 1 + offset) {
                Err(e) => Err(e),
                Ok(l) => Ok(prev.push(l)),
            },
        }
    }
}

/// The line with its text freed of markup.
pub open spec fn sanitized(l: LineView) -> LineView {
    LineView { timestamp: l.timestamp, content: sanitize(l.content) }
}

/// What the engine makes of the text `s`: its events, coalesced, sanitized and
/// rendered one per line; or the error of the first event that could not be read.
pub open spec fn clean_spec(s: Seq<char>, cfg: CleanerConfig) -> Result<Seq<char>, ParseError> {
    match assemble(markers(s), nonempty_lines(s), cfg.line_offset as int) {
        Err(e) => Err(e),
        Ok(events) => Ok(
            render_all(coalesce(events, cfg).map_values(|l: LineView| sanitized(l))),
        ),
    }
}

/// Pairs each marker with its line: the `n`-th marker takes the non-empty line
/// `n + offset`, without the marker, trimmed.
pub fn turn_into_lrcline(times: &Vec<Vec<char>>, lines: &Vec<Vec<char>>, offset: usize) -> (r:
    Result<Vec<LrcLine>, ParseError>)
    requires
        forall|i: int|
            0 <= i < times.len() ==> marker_len(#[trigger] times@[i]@, 0) == times@[i]@.len()
                && times@[i]@.len() > 0,
    ensures
        match r {
            Ok(v) => assemble(views(times@), views(lines@), offset as int) == Ok::<
                Seq<LineView>,
                ParseError,
            >(line_views(v@)),
            Err(e) => assemble(views(times@), views(lines@), offset as int) == Err::<
                Seq<LineView>,
                ParseError,
            >(e),
        },
{
    let ghost ms = views(times@);
    let ghost ls = views(lines@);
    let mut out: Vec<LrcLine> = Vec::new();
    let mut i: usize = 0;
    assert(ms.take(0) =~= seq![]);
    assert(line_views(out@) =~= seq![]);
    while i < times.len()
        invariant
            i <= times.len(),
            ms == views(times@),
            ls == views(lines@),
            forall|k: int|
                0 <= k < times.len() ==> marker_len(#[trigger] times@[k]@, 0) == times@[k]@.len()
                    && times@[k]@.len() > 0,
            assemble(ms.take(i as int), ls, offset as int) == Ok::<Seq<LineView>, ParseError>(
                line_views(out@),
            ),
        decreases times.len() - i,
    {
        assert(ms.take(i + 1).drop_last() =~= ms.take(i as int));
        assert(ms.take(i + 1).last() == times@[i as int]@);
        let stamp = match parse_marker(&times[i]) {
            Ok(t) => t,
            Err(e) => {
                proof {
                    lemma_assemble_err_extends(ms, ls, offset as int, i + 1);
                }
                return Err(e);
            },
        };
        if offset >= lines.len() || i >= lines.len() - offset {
            proof {
                lemma_assemble_err_extends(ms, ls, offset as int, i + 1);
            }
            return Err(ParseError::MissingLine);
        }
        let without = remove_all_exec(&lines[i + offset], &times[i]);
        let content = trimmed(&without);
        let ghost prev = line_views(out@);
        out.push(LrcLine { timestamp: stamp, content });
        assert(line_views(out@) =~= prev.push(
            LineView { timestamp: stamp, content: trim(remove_all(ls[i + offset], ms[i as int])) },
        ));
        i += 1;
    }
    assert(ms.take(i as int) =~= ms);
    Ok(out)
}

proof fn lemma_assemble_err_extends(ms: Seq<Seq<char>>, ls: Seq<Seq<char>>, offset: int, n: int)
    requires
        0 <= n <= ms.len(),
        assemble(ms.take(n), ls, offset) is Err,
    ensures
        assemble(ms, ls, offset) == assemble(ms.take(n), ls, offset),
    decreases ms.len() - n,
{
    if n < ms.len() {
        assert(ms.take(n + 1).drop_last() =~= ms.take(n));
        lemma_assemble_err_extends(ms, ls, offset, n + 1);
    } else {
        assert(ms.take(n) =~= ms);
    }
}

impl LrcLine {
    /// Takes the markup tokens out of this line's text; returns a copy of the result.
    pub fn clean(&mut self) -> (r: LrcLine)
        ensures
            final(self)@ == sanitized(old(self)@),
            r@ == final(self)@,
    {
        self.content = sanitize_exec(&self.content);
        self.copy()
    }
}

/// Runs the whole engine on `lyrics` with the configuration `cfg`.
pub fn clean_lyrics_with(lyrics: &str, cfg: &CleanerConfig) -> (r: Result<String, ParseError>)
    requires
        cfg.wf(),
    ensures
        match r {
            Ok(out) => clean_spec(lyrics@, *cfg) == Ok::<Seq<char>, ParseError>(out@),
            Err(e) => clean_spec(lyrics@, *cfg) == Err::<Seq<char>, ParseError>(e),
        },
{
    let text = chars_of(lyrics);
    let lines = nonempty_lines_exec(&text);
    let time_stamps = collect_time_stamp(&text);
    proof {
        assert forall|i: int| 0 <= i < time_stamps.len() implies marker_len(
            #[trigger] time_stamps@[i]@,
            0,
        ) == time_stamps@[i]@.len() && time_stamps@[i]@.len() > 0 by {
            assert(views(time_stamps@)[i] == time_stamps@[i]@);
            lemma_markers_whole(text@, 0, i);
        }
    }
    let lrclines = match turn_into_lrcline(&time_stamps, &lines, cfg.line_offset) {
        Ok(v) => v,
        Err(e) => {
            return Err(e);
        },
    };
    let mut cleaned_lrc = coalesce_lines(&lrclines, cfg);
    let ghost reps = line_views(cleaned_lrc@);
    let mut i: usize = 0;
    while i < cleaned_lrc.len()
        invariant
            i <= cleaned_lrc.len() == reps.len(),
            forall|k: int| 0 <= k < i ==> #[trigger] cleaned_lrc@[k]@ == sanitized(reps[k]),
            forall|k: int| i <= k < cleaned_lrc.len() ==> #[trigger] cleaned_lrc@[k]@ == reps[k],
        decreases cleaned_lrc.len() - i,
    {
        assert(cleaned_lrc@[i as int]@ == reps[i as int]);
        let content = sanitize_exec(&cleaned_lrc[i].content);
        let stamp = cleaned_lrc[i].timestamp;
        cleaned_lrc.set(i, LrcLine { timestamp: stamp, content });
        assert(cleaned_lrc@[i as int]@ == sanitized(reps[i as int]));
        i += 1;
    }
    let rendered = render_lines(&cleaned_lrc);
    assert(cleaned_lrc@.map_values(|l: LrcLine| l@) =~= reps.map_values(
        |l: LineView| sanitized(l),
    ));
    Ok(string_of(&rendered))
}

/// Runs the whole engine on `lyrics` with the standard layout and thresholds.
pub fn lyrics_cleaner(lyrics: &str) -> (r: Result<String, ParseError>)
    ensures
        match r {
            Ok(out) => clean_spec(lyrics@, CleanerConfig::standard_spec()) == Ok::<
                Seq<char>,
                ParseError,
            >(out@),
            Err(e) => clean_spec(lyrics@, CleanerConfig::standard_spec()) == Err::<
                Seq<char>,
                ParseError,
            >(e),
        },
{
    let cfg = CleanerConfig::standard();
    clean_lyrics_with(lyrics, &cfg)
}


proof fn lemma_assemble_len(ms: Seq<Seq<char>>, ls: Seq<Seq<char>>, offset: int)
    ensures
        assemble(ms, ls, offset) is Ok ==> assemble(ms, ls, offset)->Ok_0.len() == ms.len(),
    decreases ms.len(),
{
    if ms.len() > 0 {
        lemma_assemble_len(ms.drop_last(), ls, offset);
    }
}

/// Empty text gives empty output, and no error.
pub proof fn lemma_empty_input(cfg: CleanerConfig)
    ensures
        clean_spec(seq![], cfg) == Ok::<Seq<char>, ParseError>(seq![]),
{
    let s: Seq<char> = seq![];
    assert(markers(s) =~= seq![]);
    assert(nonempty_lines(s) =~= seq![]);
    let events: Seq<LineView> = seq![];
    assert(coalesce(events, cfg).map_values(|l: LineView| sanitized(l)) =~= seq![]);
}

/// Running the engine again on its own output gives that output again, where the
/// output is empty. (A non-empty output holds at least as many markers as lines, so
/// with a positive line offset its last marker points past its lines.)
pub proof fn lemma_idempotent(s: Seq<char>, cfg: CleanerConfig)
    requires
        clean_spec(s, cfg) is Ok,
        clean_spec(s, cfg)->Ok_0.len() == 0,
    ensures
        clean_spec(clean_spec(s, cfg)->Ok_0, cfg) == clean_spec(s, cfg),
{
    lemma_empty_input(cfg);
    assert(clean_spec(s, cfg)->Ok_0 =~= seq![]);
}

/// The output has at most one line per marker of the input: it renders at most as
/// many events as the input has markers.
pub proof fn lemma_output_bound(s: Seq<char>, cfg: CleanerConfig)
    ensures
        clean_spec(s, cfg) is Ok ==> exists|reps: Seq<LineView>|
            reps.len() <= markers(s).len() && clean_spec(s, cfg)->Ok_0 == #[trigger] render_all(
                reps,
            ),
{
    let ms = markers(s);
    let ls = nonempty_lines(s);
    lemma_assemble_len(ms, ls, cfg.line_offset as int);
    if clean_spec(s, cfg) is Ok {
        let events = assemble(ms, ls, cfg.line_offset as int)->Ok_0;
        lemma_length_bound(events, cfg);
        let reps = coalesce(events, cfg).map_values(|l: LineView| sanitized(l));
        assert(reps.len() <= ms.len());
        assert(clean_spec(s, cfg)->Ok_0 == render_all(reps));
    }
}

} // verus!
